use chrono::{TimeZone, Utc};
use strategy_api::decimal::Dec;
use strategy_api::matcher::{BarMatcher, BarPrices, MatchError, Tick, TickError};
use strategy_api::order_sys::execution_report::ExecutionReportType;
use strategy_api::order_sys::fill::Fill;
use strategy_api::order_sys::holding::{HoldingError, LotReliefMethod};
use strategy_api::order_sys::holding::Holding;
use strategy_api::order_sys::lot::{Lot, LotError, LotSide};
use strategy_api::strategy::StrategyError;
use strategy_api::order_sys::order::{Order, OrderError, OrderSide, OrderStatus, OrderType, PositionEffect, TimeInForce};
use strategy_api::order_sys::system::{FlattenPositionRequest, OrderSystem, OrderSystemError, SubmitCloseOrderRequest, SubmitOrderRequest};
use strategy_api::order_sys::{FillId, HoldingId, LotId, OrderId};
use strategy_api::text::{is_blank, str_lt};

fn dec(value: i64, scale: u32) -> Dec {
    Dec::new(value, scale)
}

fn ts(day: u32) -> i64 {
    Utc.with_ymd_and_hms(2026, 5, day, 9, 30, 0).unwrap().timestamp_nanos_opt().unwrap()
}

fn fill(order_id: u64, fill_id: u64, side: OrderSide, effect: PositionEffect, day: u32, qty: i64, price: i64) -> Fill {
    Fill::new(FillId::new(fill_id), OrderId::new(order_id), "AAPL", side, effect, ts(day), dec(qty, 0), dec(price, 0), dec(0, 0))
        .unwrap()
}

fn market_open(side: OrderSide, day: u32, qty: i64) -> SubmitOrderRequest {
    SubmitOrderRequest::new("AAPL", side, PositionEffect::Open, OrderType::Market, TimeInForce::Day, ts(day), dec(qty, 0), None, None)
}

fn long_position(system: &mut OrderSystem, qty: i64) -> OrderId {
    let submitted = system.submit_order(market_open(OrderSide::Buy, 1, qty)).unwrap();
    let id = submitted.order.id();
    system.apply_fill(fill(id.value(), 100, OrderSide::Buy, PositionEffect::Open, 2, qty, 50)).unwrap();
    id
}

fn bar(day: u32, open: i64, high: i64, low: i64, close: i64) -> BarPrices {
    BarPrices { time: ts(day), open: dec(open, 0), high: dec(high, 0), low: dec(low, 0), close: dec(close, 0) }
}

#[test]
fn decimal_arithmetic_goes_through_rust_decimal() {
    assert_eq!(dec(15, 1).add(dec(25, 1)), Some(dec(4, 0)));
    assert_eq!(dec(1, 0).sub(dec(25, 1)), Some(dec(-15, 1)));
    assert_eq!(dec(3, 0).mul(dec(25, 1)), Some(dec(75, 1)));
    assert_eq!(dec(1, 0).div(dec(4, 0)), Some(dec(25, 2)));
    assert_eq!(dec(1, 0).div(dec(0, 0)), None);
    let largest = Dec::from_parts(79_228_162_514_264_337_593_543_950_335, 0);
    assert_eq!(largest.add(largest), None);
    assert_eq!(largest.mul(dec(2, 0)), None);
    let third = dec(1, 0).div(dec(3, 0)).unwrap();
    assert_eq!(third.scale(), 28);
    assert_eq!(third.mantissa(), 3_333_333_333_333_333_333_333_333_333);
}

#[test]
fn decimal_comparisons_are_numeric() {
    assert!(dec(1, 0).lt(&dec(2, 0)));
    assert!(!dec(2, 0).lt(&dec(2, 0)));
    assert!(dec(2, 0).le(&dec(2, 0)));
    assert!(dec(10, 1).num_eq(&dec(1, 0)));
    assert_eq!(dec(10, 1), dec(1, 0));
    assert_eq!(dec(3, 0).min(dec(2, 0)), dec(2, 0));
    assert!(dec(-1, 0).is_negative());
    assert!(dec(0, 3).is_zero());
}

#[test]
fn blank_text_is_detected_after_trimming() {
    assert!(is_blank(""));
    assert!(is_blank(" \t\n"));
    assert!(is_blank("\u{2003}"));
    assert!(!is_blank(" A "));
    assert!(str_lt("AAPL", "MSFT"));
    assert!(str_lt("AA", "AAPL"));
    assert!(!str_lt("MSFT", "AAPL"));
    assert!(!str_lt("AAPL", "AAPL"));
}

#[test]
fn tick_new_reports_each_invalid_field() {
    let t = ts(3);
    assert_eq!(Tick::new(t, dec(0, 0), dec(1, 0), None, None).unwrap_err(), TickError::NonPositiveBid { bid: dec(0, 0) });
    assert_eq!(Tick::new(t, dec(1, 0), dec(-1, 0), None, None).unwrap_err(), TickError::NonPositiveAsk { ask: dec(-1, 0) });
    assert_eq!(
        Tick::new(t, dec(2, 0), dec(1, 0), None, None).unwrap_err(),
        TickError::CrossedBook { bid: dec(2, 0), ask: dec(1, 0) }
    );
    assert_eq!(
        Tick::new(t, dec(1, 0), dec(2, 0), Some(dec(0, 0)), None).unwrap_err(),
        TickError::NonPositiveLast { last: dec(0, 0) }
    );
    assert_eq!(
        Tick::new(t, dec(1, 0), dec(2, 0), None, Some(dec(-5, 0))).unwrap_err(),
        TickError::NegativeVolume { volume: dec(-5, 0) }
    );
    let tick = Tick::new(t, dec(1, 0), dec(1, 0), Some(dec(1, 0)), Some(dec(0, 0))).unwrap();
    assert_eq!(tick.bid, dec(1, 0));
    assert_eq!(tick.volume, Some(dec(0, 0)));
}

#[test]
fn terminal_order_refuses_every_event() {
    let mut order = Order::new(
        OrderId::new(1),
        "AAPL",
        OrderSide::Buy,
        PositionEffect::Open,
        OrderType::Market,
        TimeInForce::Day,
        ts(1),
        dec(5, 0),
        None,
        None,
    )
    .unwrap();
    order.cancel(ts(2)).unwrap();
    let terminal = OrderError::TerminalStatus { order_id: OrderId::new(1), status: OrderStatus::Canceled };
    assert_eq!(order.acknowledge(ts(3)).unwrap_err(), terminal);
    assert_eq!(order.cancel(ts(3)).unwrap_err(), terminal);
    assert_eq!(order.reject(ts(3), "late".to_string()).unwrap_err(), terminal);
    let f = fill(1, 9, OrderSide::Buy, PositionEffect::Open, 3, 1, 10);
    assert_eq!(order.record_fill(&f).unwrap_err(), terminal);
    assert_eq!(order.status(), OrderStatus::Canceled);
    assert_eq!(order.last_event_at(), ts(2));
}

#[test]
fn order_events_must_be_chronological() {
    let mut order = Order::new(
        OrderId::new(1),
        "AAPL",
        OrderSide::Sell,
        PositionEffect::Open,
        OrderType::Limit,
        TimeInForce::Gtc,
        ts(5),
        dec(5, 0),
        Some(dec(10, 0)),
        None,
    )
    .unwrap();
    assert_eq!(
        order.acknowledge(ts(4)).unwrap_err(),
        OrderError::EventOutOfOrder { previous_timestamp: ts(5), new_timestamp: ts(4) }
    );
    assert_eq!(order.status(), OrderStatus::Pending);
    assert_eq!(
        Order::new(OrderId::new(2), "AAPL", OrderSide::Buy, PositionEffect::Open, OrderType::Limit, TimeInForce::Day, ts(5), dec(1, 0), None, None)
            .unwrap_err(),
        OrderError::MissingLimitPrice
    );
}

#[test]
fn duplicate_fill_is_refused_and_changes_nothing() {
    let mut system = OrderSystem::new(LotReliefMethod::Fifo);
    let id = long_position(&mut system, 4);
    let reports = system.execution_reports().len();
    let err = system.apply_fill(fill(id.value(), 100, OrderSide::Buy, PositionEffect::Open, 3, 1, 50)).unwrap_err();
    assert_eq!(err, OrderSystemError::DuplicateFillId { fill_id: FillId::new(100) });
    assert_eq!(system.execution_reports().len(), reports);
    assert_eq!(system.fills().len(), 1);
    assert_eq!(system.holding("AAPL").unwrap().open_qty(), Some(dec(4, 0)));
}

#[test]
fn failed_fill_changes_nothing() {
    let mut system = OrderSystem::new(LotReliefMethod::Fifo);
    let id = long_position(&mut system, 4);
    let reports = system.execution_reports().len();
    let err = system.apply_fill(fill(77, 101, OrderSide::Buy, PositionEffect::Open, 3, 1, 50)).unwrap_err();
    assert_eq!(err, OrderSystemError::UnknownOrderId { order_id: OrderId::new(77) });
    let err = system.apply_fill(fill(id.value(), 102, OrderSide::Buy, PositionEffect::Open, 3, 1, 50)).unwrap_err();
    assert!(matches!(err, OrderSystemError::Order(OrderError::TerminalStatus { .. })));
    assert_eq!(system.execution_reports().len(), reports);
    assert_eq!(system.fills().len(), 1);
    assert_eq!(system.order(id).unwrap().filled_qty(), dec(4, 0));
}

#[test]
fn fill_appends_exactly_one_trade_report() {
    let mut system = OrderSystem::new(LotReliefMethod::Fifo);
    let submitted = system.submit_order(market_open(OrderSide::Buy, 1, 3)).unwrap();
    let before: Vec<_> = system.execution_reports().iter().map(|r| r.id()).collect();
    let applied = system.apply_fill(fill(submitted.order.id().value(), 7, OrderSide::Buy, PositionEffect::Open, 2, 3, 20)).unwrap();
    let after = system.execution_reports();
    assert_eq!(after.len(), before.len() + 1);
    for (k, id) in before.iter().enumerate() {
        assert_eq!(after[k].id(), *id);
    }
    assert_eq!(after[after.len() - 1], applied.report);
    assert_eq!(applied.report.report_type(), ExecutionReportType::Trade);
}

#[test]
fn lifecycle_reports_are_append_only() {
    let mut system = OrderSystem::new(LotReliefMethod::Fifo);
    let submitted = system.submit_order(market_open(OrderSide::Buy, 1, 3)).unwrap();
    let id = submitted.order.id();
    let ack = system.acknowledge_order(id, ts(2)).unwrap();
    assert_eq!(ack.report_type(), ExecutionReportType::New);
    let cancel = system.cancel_order(id, ts(3)).unwrap();
    assert_eq!(cancel.report_type(), ExecutionReportType::Canceled);
    let reports = system.execution_reports();
    assert_eq!(reports.len(), 3);
    assert_eq!(reports[0], submitted.report);
    assert_eq!(reports[1], ack);
    assert_eq!(reports[2], cancel);
    let err = system.reject_order(id, ts(4), "late").unwrap_err();
    assert_eq!(err, OrderSystemError::Order(OrderError::TerminalStatus { order_id: id, status: OrderStatus::Canceled }));
    assert_eq!(system.execution_reports().len(), 3);
    assert_eq!(system.cancel_order(OrderId::new(99), ts(5)).unwrap_err(), OrderSystemError::UnknownOrderId { order_id: OrderId::new(99) });
}

#[test]
fn close_requests_report_each_refusal() {
    let mut system = OrderSystem::new(LotReliefMethod::Fifo);
    let close = |qty: i64| SubmitCloseOrderRequest::new("AAPL", ts(3), dec(qty, 0), OrderType::Market, TimeInForce::Day, None, None);
    assert_eq!(
        system.submit_close_order(close(1)).unwrap_err(),
        OrderSystemError::NoOpenPosition { symbol: "AAPL".to_string() }
    );
    long_position(&mut system, 4);
    assert_eq!(
        system.submit_close_order(close(5)).unwrap_err(),
        OrderSystemError::CloseQuantityExceedsAvailable { symbol: "AAPL".to_string(), requested: dec(5, 0), available: dec(4, 0) }
    );
    system.submit_close_order(close(4)).unwrap();
    assert_eq!(system.available_close_qty("AAPL").unwrap(), dec(0, 0));
    assert_eq!(
        system.flatten_position(FlattenPositionRequest::new("AAPL", ts(3), OrderType::Market, TimeInForce::Day)).unwrap_err(),
        OrderSystemError::NoClosableQuantity { symbol: "AAPL".to_string() }
    );
}

#[test]
fn staged_reversal_order_is_inactive_until_close_fills() {
    let mut system = OrderSystem::new(LotReliefMethod::Fifo);
    let long = long_position(&mut system, 2);
    assert_eq!(
        system.submit_order(market_open(OrderSide::Sell, 3, 1)).unwrap_err(),
        OrderSystemError::OpenSideMismatch {
            symbol: "AAPL".to_string(),
            requested: OrderSide::Sell,
            holding_side: strategy_api::order_sys::lot::LotSide::Long,
        }
    );
    let staged = system.submit_order(market_open(OrderSide::Sell, 3, 1).with_allow_reversal(true)).unwrap();
    let close = staged.auto_close_order.as_ref().unwrap().order.id();
    let open = staged.order.id();
    assert!(long != close);
    let inactive = OrderSystemError::OrderNotActive { order_id: open, waiting_on_order_id: close };
    assert_eq!(system.acknowledge_order(open, ts(4)).unwrap_err(), inactive);
    assert_eq!(system.apply_fill(fill(open.value(), 300, OrderSide::Sell, PositionEffect::Open, 4, 1, 40)).unwrap_err(), inactive);
    system.apply_fill(fill(close.value(), 301, OrderSide::Sell, PositionEffect::Close, 4, 2, 40)).unwrap();
    system.acknowledge_order(open, ts(5)).unwrap();
    assert_eq!(system.order(open).unwrap().status(), OrderStatus::Working);
}

#[test]
fn limit_orders_fill_at_limit_or_better_on_bars() {
    let mut system = OrderSystem::new(LotReliefMethod::Fifo);
    let mut matcher = BarMatcher::default();
    let limit = |day: u32| {
        SubmitOrderRequest::new("AAPL", OrderSide::Buy, PositionEffect::Open, OrderType::Limit, TimeInForce::Gtc, ts(day), dec(1, 0), Some(dec(100, 0)), None)
    };
    let first = system.submit_order(limit(1)).unwrap().order.id();
    let result = matcher.process_bar(&bar(2, 98, 99, 97, 98), &mut system).unwrap();
    assert_eq!(result.applied_fills.len(), 1);
    assert_eq!(system.order(first).unwrap().average_fill_price(), Some(dec(98, 0)));

    let second = system.submit_order(limit(3)).unwrap().order.id();
    let result = matcher.process_bar(&bar(4, 103, 104, 99, 101), &mut system).unwrap();
    assert_eq!(result.applied_fills.len(), 1);
    assert_eq!(system.order(second).unwrap().average_fill_price(), Some(dec(100, 0)));

    let third = system.submit_order(limit(5)).unwrap().order.id();
    let result = matcher.process_bar(&bar(6, 103, 104, 101, 102), &mut system).unwrap();
    assert!(result.applied_fills.is_empty());
    assert_eq!(system.order(third).unwrap().status(), OrderStatus::Working);
}

#[test]
fn gap_through_stop_limit_fills_on_the_same_bar() {
    let mut system = OrderSystem::new(LotReliefMethod::Fifo);
    let mut matcher = BarMatcher::default();
    let order = system
        .submit_order(SubmitOrderRequest::new(
            "AAPL",
            OrderSide::Buy,
            PositionEffect::Open,
            OrderType::StopLimit,
            TimeInForce::Gtc,
            ts(1),
            dec(1, 0),
            Some(dec(106, 0)),
            Some(dec(105, 0)),
        ))
        .unwrap()
        .order
        .id();
    let result = matcher.process_bar(&bar(2, 105, 107, 104, 106), &mut system).unwrap();
    assert_eq!(result.applied_fills.len(), 1);
    assert_eq!(system.order(order).unwrap().average_fill_price(), Some(dec(105, 0)));
    assert_eq!(system.order(order).unwrap().status(), OrderStatus::Filled);
}

#[test]
fn error_messages_spell_out_their_values() {
    assert_eq!(OrderSystemError::UnknownOrderId { order_id: OrderId::new(42) }.message(), "order 42 does not exist");
    assert_eq!(OrderSystemError::UnknownOrderId { order_id: OrderId::new(0) }.message(), "order 0 does not exist");
    assert_eq!(
        OrderSystemError::DuplicateFillId { fill_id: FillId::new(u64::MAX) }.message(),
        "fill 18446744073709551615 was already applied to the order system"
    );
    assert_eq!(
        OrderError::FillQuantityExceedsLeaves { fill_qty: dec(15, 1), leaves_qty: dec(100, 2) }.message(),
        "fill quantity 1.5 exceeds order leaves quantity 1.00"
    );
    assert_eq!(
        OrderError::EventOutOfOrder { previous_timestamp: ts(5), new_timestamp: ts(4) }.message(),
        "order event timestamp 2026-05-04 09:30:00 UTC is earlier than the previous order event 2026-05-05 09:30:00 UTC"
    );
    assert_eq!(
        OrderSystemError::OpenSideMismatch { symbol: "AAPL".to_string(), requested: OrderSide::Sell, holding_side: LotSide::Long }
            .message(),
        "cannot open Sell exposure for AAPL while Long exposure is already open"
    );
    assert_eq!(
        OrderSystemError::Order(OrderError::TerminalStatus { order_id: OrderId::new(3), status: OrderStatus::PartiallyFilled })
            .message(),
        "order 3 is in terminal status PartiallyFilled"
    );
    assert_eq!(TickError::CrossedBook { bid: dec(2, 0), ask: dec(-15, 1) }.message(), "tick ask -1.5 is below bid 2");
    assert_eq!(
        StrategyError::OrderSystem(OrderSystemError::Holding(HoldingError::Lot(LotError::LotAlreadyClosed { lot_id: LotId::new(7) })))
            .message(),
        "lot 7 is already closed"
    );
    assert_eq!(MatchError::Tick(TickError::NonPositiveBid { bid: dec(0, 2) }).message(), "tick bid must be positive, got 0.00");
    assert_eq!(
        StrategyError::MissingDefaultSymbol.message(),
        "strategy context has no default symbol; call `set_default_symbol` or use the lower-level order system"
    );
    assert_eq!(dec(-5, 3).text(), "-0.005");
}

#[test]
fn rejecting_a_reversal_close_order_rejects_the_staged_open_order() {
    let mut system = OrderSystem::new(LotReliefMethod::Fifo);
    long_position(&mut system, 2);
    let staged = system.submit_order(market_open(OrderSide::Sell, 3, 1).with_allow_reversal(true)).unwrap();
    let close = staged.auto_close_order.as_ref().unwrap().order.id();
    let open = staged.order.id();
    let reports = system.execution_reports().len();
    let report = system.reject_order(close, ts(4), "venue down").unwrap();
    assert_eq!(report.report_type(), ExecutionReportType::Rejected);
    assert_eq!(report.text(), Some("venue down"));
    let staged_order = system.order(open).unwrap();
    assert_eq!(staged_order.status(), OrderStatus::Rejected);
    assert_eq!(staged_order.reject_reason(), Some("parent reversal close order failed"));
    assert_eq!(system.execution_reports().len(), reports + 2);
    assert_eq!(system.execution_reports()[reports + 1].text(), Some("parent reversal close order failed"));
}

#[test]
fn reversal_and_close_side_refusals() {
    let mut system = OrderSystem::new(LotReliefMethod::Fifo);
    long_position(&mut system, 2);
    let wrong_close = SubmitOrderRequest::new("AAPL", OrderSide::Buy, PositionEffect::Close, OrderType::Market, TimeInForce::Day, ts(3), dec(1, 0), None, None);
    assert_eq!(
        system.submit_order(wrong_close).unwrap_err(),
        OrderSystemError::CloseSideMismatch { symbol: "AAPL".to_string(), requested: OrderSide::Buy, holding_side: LotSide::Long }
    );

    let partial_close = SubmitCloseOrderRequest::new("AAPL", ts(3), dec(1, 0), OrderType::Market, TimeInForce::Day, None, None);
    system.submit_close_order(partial_close).unwrap();
    assert_eq!(
        system.submit_order(market_open(OrderSide::Sell, 3, 1).with_allow_reversal(true)).unwrap_err(),
        OrderSystemError::CloseQuantityExceedsAvailable { symbol: "AAPL".to_string(), requested: dec(2, 0), available: dec(1, 0) }
    );

    system.submit_order(market_open(OrderSide::Buy, 3, 1)).unwrap();
    let orders_before = system.orders().len();
    assert_eq!(
        system.submit_order(market_open(OrderSide::Sell, 3, 1).with_allow_reversal(true)).unwrap_err(),
        OrderSystemError::ReversalBlockedByLiveOpenOrders { symbol: "AAPL".to_string() }
    );
    assert_eq!(system.orders().len(), orders_before);
}

#[test]
fn live_orders_are_matched_by_submission_time_then_identifier() {
    let mut system = OrderSystem::new(LotReliefMethod::Fifo);
    let mut matcher = BarMatcher::default();
    let later = system.submit_order(market_open(OrderSide::Buy, 3, 1)).unwrap().order.id();
    let earlier = system.submit_order(market_open(OrderSide::Buy, 2, 1)).unwrap().order.id();
    let same_time = system.submit_order(market_open(OrderSide::Buy, 2, 1)).unwrap().order.id();
    let result = matcher.process_bar(&bar(5, 10, 11, 9, 10), &mut system).unwrap();
    let filled: Vec<OrderId> = result.applied_fills.iter().map(|a| a.order.id()).collect();
    assert_eq!(filled, vec![earlier, same_time, later]);
    let fill_ids: Vec<FillId> = result.applied_fills.iter().map(|a| a.report.fill_id().unwrap()).collect();
    assert_eq!(fill_ids, vec![FillId::new(1), FillId::new(2), FillId::new(3)]);
}

#[test]
fn lot_accounts_add_up_over_its_closes() {
    let mut lot = Lot::open(LotId::new(1), LotSide::Long, OrderId::new(1), FillId::new(1), ts(1), dec(3, 0), dec(10, 0), dec(1, 0)).unwrap();
    lot.close(OrderId::new(2), FillId::new(2), ts(2), dec(1, 0), dec(12, 0), dec(1, 1)).unwrap();
    assert_eq!(lot.closed_qty().add(lot.remaining_qty()), Some(dec(3, 0)));
    lot.close(OrderId::new(3), FillId::new(3), ts(3), dec(2, 0), dec(9, 0), dec(2, 1)).unwrap();
    assert!(lot.is_closed());
    assert_eq!(lot.closed_qty().add(lot.remaining_qty()), Some(dec(3, 0)));
    let events = lot.close_events();
    let sum = |f: fn(&strategy_api::order_sys::lot::LotClose) -> Dec| events.iter().fold(Dec::zero(), |a, e| a.add(f(e)).unwrap());
    assert_eq!(lot.realized_open_fees(), sum(|e| e.allocated_open_fees));
    assert_eq!(lot.realized_open_fees(), dec(1, 0));
    assert_eq!(lot.realized_close_fees(), sum(|e| e.close_fees));
    assert_eq!(lot.realized_close_fees(), dec(3, 1));
    assert_eq!(lot.realized_gross_pnl(), sum(|e| e.realized_gross_pnl));
    assert_eq!(lot.realized_net_pnl(), sum(|e| e.realized_net_pnl));
    assert_eq!(lot.realized_total_fees(), Some(dec(13, 1)));
    assert_eq!(lot.realized_net_pnl(), lot.realized_gross_pnl().sub(lot.realized_total_fees().unwrap()).unwrap());
    for e in events {
        assert_eq!(e.total_fees, e.allocated_open_fees.add(e.close_fees).unwrap());
        assert_eq!(e.realized_net_pnl, e.realized_gross_pnl.sub(e.total_fees).unwrap());
    }
}

#[test]
fn closing_with_the_own_method_matches_the_default_close() {
    let mut a = Holding::new(HoldingId::new(1), "AAPL", LotReliefMethod::Hifo).unwrap();
    for (k, price) in [(1u64, 10i64), (2, 14), (3, 12)] {
        a.open_lot_from_fill(LotId::new(k), &fill(k, k, OrderSide::Buy, PositionEffect::Open, 1, 2, price)).unwrap();
    }
    let mut b = a.duplicate();
    let close = fill(9, 9, OrderSide::Sell, PositionEffect::Close, 2, 3, 13);
    let ra = a.close_with_fill(&close).unwrap();
    let rb = b.close_with_fill_using(&close, &LotReliefMethod::Hifo).unwrap();
    assert_eq!(ra, rb);
    assert_eq!(a, b);
    assert_eq!(ra.matches[0].lot_id, LotId::new(2));
    let other = fill(10, 10, OrderSide::Sell, PositionEffect::Close, 3, 1, 13);
    let rc = b.close_with_fill_using(&other, &LotReliefMethod::Lifo).unwrap();
    assert_eq!(rc.matches[0].lot_id, LotId::new(3));
    assert_eq!(b.lot_relief_method(), &LotReliefMethod::Hifo);
    let refused = fill(9, 9, OrderSide::Sell, PositionEffect::Close, 4, 1, 13);
    assert_eq!(a.close_with_fill(&refused).unwrap_err(), HoldingError::DuplicateFillId { fill_id: FillId::new(9) });
}

#[test]
fn decimal_results_keep_exact_scales_and_text() {
    let diff = dec(100, 0).sub(dec(92, 0)).unwrap();
    assert_eq!((diff.mantissa(), diff.scale()), (8, 0));
    let product = diff.mul(dec(5, 0)).unwrap();
    assert_eq!((product.mantissa(), product.scale()), (40, 0));
    let scaled = dec(15, 1).mul(dec(2, 1)).unwrap();
    assert_eq!((scaled.mantissa(), scaled.scale()), (30, 2));
    let zero = dec(0, 3).mul(dec(7, 1)).unwrap();
    assert_eq!((zero.mantissa(), zero.scale()), (0, 0));
    assert_eq!(dec(1, 0).div(dec(8, 0)), Some(dec(125, 3)));
    assert_eq!(dec(-9, 0).div(dec(12, 1)), Some(dec(-75, 1)));
    assert_eq!(dec(0, 2).text(), "0.00");
    assert_eq!(dec(0, 0).text(), "0");
    assert_eq!(dec(12345, 2).text(), "123.45");
    assert_eq!(dec(-5, 0).text(), "-5");
    assert_eq!(dec(7, 4).text(), "0.0007");
}

#[test]
fn position_ids_count_up_from_one() {
    let mut ids = strategy_api::ctx::PositionIds::new();
    assert_eq!(ids.allocate(), Some(1));
    assert_eq!(ids.allocate(), Some(2));
}
