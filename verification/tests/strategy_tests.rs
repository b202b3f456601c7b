use chrono::{TimeZone, Utc};
use strategy_api::decimal::Dec;
use strategy_api::order_sys::fill::Fill;
use strategy_api::order_sys::holding::LotReliefMethod;
use strategy_api::order_sys::order::{OrderSide, OrderStatus, PositionEffect};
use strategy_api::order_sys::{FillId, OrderId};
use strategy_api::strategy::{OrderKind, Side, Strategy, StrategyError};

fn bar_time(day: u32) -> i64 {
    Utc.with_ymd_and_hms(2026, 5, day, 9, 30, 0).unwrap().timestamp_nanos_opt().unwrap()
}

fn open_fill(order_id: u64, fill_id: u64, day: u32, qty: i64, price: i64) -> Fill {
    Fill::new(
        FillId::new(fill_id),
        OrderId::new(order_id),
        "AAPL",
        OrderSide::Buy,
        PositionEffect::Open,
        Utc.with_ymd_and_hms(2026, 5, day, 9, 31, 0).unwrap().timestamp_nanos_opt().unwrap(),
        Dec::new(qty, 0),
        Dec::new(price, 0),
        Dec::zero(),
    )
    .unwrap()
}

#[test]
fn strategy_submit_order_uses_default_symbol_and_bar_context() {
    let mut ctx = Strategy::new(LotReliefMethod::Fifo);
    ctx.set_default_symbol("AAPL");
    ctx.begin_bar(bar_time(24), 7);

    let submission = ctx
        .submit_order(Side::Long, OrderKind::Market, Dec::new(1, 0), false)
        .unwrap();

    assert_eq!(submission.order.symbol(), "AAPL");
    assert_eq!(submission.order.side(), OrderSide::Buy);
    assert_eq!(submission.order.status(), OrderStatus::Pending);
    assert!(submission.auto_close_order.is_none());
    assert_eq!(ctx.current_bar_index(), Some(7));
}

#[test]
fn strategy_close_and_flatten_delegate_to_order_system() {
    let mut ctx = Strategy::new(LotReliefMethod::Fifo);
    ctx.set_default_symbol("AAPL");
    ctx.begin_bar(bar_time(24), 0);

    let open = ctx
        .submit_order(Side::Long, OrderKind::Market, Dec::new(2, 0), false)
        .unwrap();
    ctx.apply_fill(open_fill(open.order.id().value(), 10, 24, 2, 100))
        .unwrap();

    ctx.begin_bar(bar_time(25), 1);
    let close = ctx.close(Dec::new(1, 0), OrderKind::Market).unwrap();
    let flatten = ctx.flatten(OrderKind::Market).unwrap();

    assert_eq!(close.order.position_effect(), PositionEffect::Close);
    assert_eq!(close.order.side(), OrderSide::Sell);
    assert_eq!(flatten.order.requested_qty(), Dec::one());
}

#[test]
fn strategy_submit_order_can_request_auto_reversal() {
    let mut ctx = Strategy::new(LotReliefMethod::Fifo);
    ctx.set_default_symbol("AAPL");
    ctx.begin_bar(bar_time(24), 0);

    let open = ctx
        .submit_order(Side::Long, OrderKind::Market, Dec::new(2, 0), false)
        .unwrap();
    ctx.apply_fill(open_fill(open.order.id().value(), 10, 24, 2, 100))
        .unwrap();

    ctx.begin_bar(bar_time(25), 1);
    let reversal = ctx
        .submit_order(Side::Short, OrderKind::Market, Dec::new(1, 0), true)
        .unwrap();

    assert_eq!(reversal.order.side(), OrderSide::Sell);
    assert_eq!(reversal.order.position_effect(), PositionEffect::Open);
    assert!(reversal.auto_close_order.is_some());
    assert_eq!(
        reversal
            .auto_close_order
            .as_ref()
            .expect("reversal should stage an auto-close order")
            .order
            .position_effect(),
        PositionEffect::Close
    );
}

#[test]
fn strategy_rejects_contextless_shorthand_calls() {
    let mut ctx = Strategy::default();

    let err = ctx
        .submit_order(Side::Long, OrderKind::Market, Dec::new(1, 0), false)
        .unwrap_err();
    assert_eq!(err, StrategyError::MissingDefaultSymbol);

    ctx.set_default_symbol("AAPL");
    let err = ctx
        .submit_order(Side::Long, OrderKind::Market, Dec::new(1, 0), false)
        .unwrap_err();
    assert_eq!(err, StrategyError::MissingBarContext);
}
