use chrono::{TimeZone, Utc};
use rust_decimal::Decimal;
use strategy_api::decimal::Dec;
use strategy_api::matcher::{BarMarketFillPrice, BarMatcher, BarMatcherConfig, BarPrices, PriceTrigger, Tick, TickMatcher};
use strategy_api::order_sys::holding::LotReliefMethod;
use strategy_api::order_sys::order::{OrderSide, OrderStatus, OrderType, PositionEffect, TimeInForce};
use strategy_api::order_sys::system::{OrderSystem, SubmitOrderRequest};

fn dec(value: i64, scale: u32) -> Dec {
    Dec::new(value, scale)
}

fn ts(day: u32, minute: u32) -> i64 {
    Utc.with_ymd_and_hms(2026, 5, day, 9, minute, 0).unwrap().timestamp_nanos_opt().unwrap()
}

fn price(value: f32) -> Dec {
    let d = Decimal::try_from(f64::from(value)).unwrap();
    Dec::from_parts(d.mantissa(), d.scale())
}

fn bar(day: u32, open: f32, high: f32, low: f32, close: f32) -> BarPrices {
    BarPrices {
        time: ts(day, 30),
        open: price(open),
        high: price(high),
        low: price(low),
        close: price(close),
    }
}

#[test]
fn bar_matcher_fills_market_orders_on_next_bar_open_by_default() {
    let mut system = OrderSystem::new(LotReliefMethod::Fifo);
    let mut matcher = BarMatcher::new(BarMatcherConfig {
        market_fill_price: BarMarketFillPrice::Open,
        ..BarMatcherConfig::default()
    });

    let order = system
        .submit_order(SubmitOrderRequest::new(
            "AAPL",
            OrderSide::Buy,
            PositionEffect::Open,
            OrderType::Market,
            TimeInForce::Day,
            ts(24, 30),
            dec(2, 0),
            None,
            None,
        ))
        .unwrap();

    let same_bar_result = matcher
        .process_bar(&bar(24, 100.0, 101.0, 99.0, 100.5), &mut system)
        .unwrap();
    assert!(same_bar_result.acknowledged_reports.is_empty());
    assert!(same_bar_result.applied_fills.is_empty());
    assert_eq!(
        system.order(order.order.id()).unwrap().status(),
        OrderStatus::Pending
    );

    let next_bar_result = matcher
        .process_bar(&bar(25, 102.0, 103.0, 101.0, 102.5), &mut system)
        .unwrap();
    assert_eq!(next_bar_result.acknowledged_reports.len(), 1);
    assert_eq!(next_bar_result.applied_fills.len(), 1);
    assert_eq!(
        next_bar_result.applied_fills[0].order.average_fill_price(),
        Some(dec(102, 0))
    );
}

#[test]
fn bar_matcher_acknowledges_resting_limits_before_they_fill() {
    let mut system = OrderSystem::new(LotReliefMethod::Fifo);
    let mut matcher = BarMatcher::default();

    let order = system
        .submit_order(SubmitOrderRequest::new(
            "AAPL",
            OrderSide::Buy,
            PositionEffect::Open,
            OrderType::Limit,
            TimeInForce::Day,
            ts(24, 30),
            dec(1, 0),
            Some(dec(100, 0)),
            None,
        ))
        .unwrap();

    let rest_result = matcher
        .process_bar(&bar(25, 105.0, 106.0, 101.0, 103.0), &mut system)
        .unwrap();
    assert_eq!(rest_result.acknowledged_reports.len(), 1);
    assert!(rest_result.applied_fills.is_empty());
    assert_eq!(
        system.order(order.order.id()).unwrap().status(),
        OrderStatus::Working
    );

    let fill_result = matcher
        .process_bar(&bar(26, 102.0, 104.0, 99.0, 100.0), &mut system)
        .unwrap();
    assert_eq!(fill_result.applied_fills.len(), 1);
    assert_eq!(
        fill_result.applied_fills[0].order.average_fill_price(),
        Some(dec(100, 0))
    );
}

#[test]
fn bar_matcher_trade_through_requires_more_than_a_touch() {
    let mut system = OrderSystem::new(LotReliefMethod::Fifo);
    let mut matcher = BarMatcher::new(BarMatcherConfig {
        price_trigger: PriceTrigger::TradeThrough,
        ..BarMatcherConfig::default()
    });

    let order = system
        .submit_order(SubmitOrderRequest::new(
            "AAPL",
            OrderSide::Buy,
            PositionEffect::Open,
            OrderType::Limit,
            TimeInForce::Day,
            ts(24, 30),
            dec(1, 0),
            Some(dec(100, 0)),
            None,
        ))
        .unwrap();

    let touch_only = matcher
        .process_bar(&bar(25, 105.0, 106.0, 100.0, 104.0), &mut system)
        .unwrap();
    assert_eq!(touch_only.acknowledged_reports.len(), 1);
    assert!(touch_only.applied_fills.is_empty());
    assert_eq!(
        system.order(order.order.id()).unwrap().status(),
        OrderStatus::Working
    );

    let trade_through = matcher
        .process_bar(&bar(26, 105.0, 106.0, 99.0, 101.0), &mut system)
        .unwrap();
    assert_eq!(trade_through.applied_fills.len(), 1);
    assert_eq!(
        trade_through.applied_fills[0].order.average_fill_price(),
        Some(dec(100, 0))
    );
}

#[test]
fn bar_matcher_conservatively_defers_intrabar_stop_limit_fills() {
    let mut system = OrderSystem::new(LotReliefMethod::Fifo);
    let mut matcher = BarMatcher::default();

    let order = system
        .submit_order(SubmitOrderRequest::new(
            "AAPL",
            OrderSide::Buy,
            PositionEffect::Open,
            OrderType::StopLimit,
            TimeInForce::Day,
            ts(24, 30),
            dec(1, 0),
            Some(dec(104, 0)),
            Some(dec(105, 0)),
        ))
        .unwrap();

    let trigger_only = matcher
        .process_bar(&bar(25, 100.0, 106.0, 103.0, 104.0), &mut system)
        .unwrap();
    assert_eq!(trigger_only.acknowledged_reports.len(), 1);
    assert!(trigger_only.applied_fills.is_empty());
    assert_eq!(
        system.order(order.order.id()).unwrap().status(),
        OrderStatus::Working
    );

    let fill_next_bar = matcher
        .process_bar(&bar(26, 104.0, 105.0, 102.0, 103.0), &mut system)
        .unwrap();
    assert_eq!(fill_next_bar.applied_fills.len(), 1);
    assert_eq!(
        fill_next_bar.applied_fills[0].order.average_fill_price(),
        Some(dec(104, 0))
    );
}

#[test]
fn tick_matcher_can_trigger_and_fill_stop_limit_on_same_tick() {
    let mut system = OrderSystem::new(LotReliefMethod::Fifo);
    let mut matcher = TickMatcher::default();

    let order = system
        .submit_order(SubmitOrderRequest::new(
            "AAPL",
            OrderSide::Buy,
            PositionEffect::Open,
            OrderType::StopLimit,
            TimeInForce::Day,
            ts(24, 30),
            dec(1, 0),
            Some(dec(106, 0)),
            Some(dec(105, 0)),
        ))
        .unwrap();

    let same_tick = Tick::new(ts(24, 30), dec(104, 0), dec(105, 0), None, None).unwrap();
    let same_tick_result = matcher.process_tick(&same_tick, &mut system).unwrap();
    assert!(same_tick_result.applied_fills.is_empty());
    assert_eq!(
        system.order(order.order.id()).unwrap().status(),
        OrderStatus::Pending
    );

    let trigger_tick = Tick::new(ts(24, 31), dec(105, 0), dec(1055, 1), None, None).unwrap();
    let trigger_result = matcher.process_tick(&trigger_tick, &mut system).unwrap();
    assert_eq!(trigger_result.acknowledged_reports.len(), 1);
    assert_eq!(trigger_result.applied_fills.len(), 1);
    assert_eq!(
        trigger_result.applied_fills[0].order.average_fill_price(),
        Some(dec(1055, 1))
    );
}
