use chrono::{TimeZone, Utc};
use strategy_api::decimal::Dec;
use strategy_api::order_sys::fill::Fill;
use strategy_api::order_sys::order::{Order, OrderError, OrderSide, OrderStatus, OrderType, PositionEffect, TimeInForce};
use strategy_api::order_sys::{FillId, OrderId};

fn dec(value: i64, scale: u32) -> Dec {
    Dec::new(value, scale)
}

fn ts(day: u32) -> i64 {
    Utc.with_ymd_and_hms(2026, 5, day, 9, 30, 0).unwrap().timestamp_nanos_opt().unwrap()
}

#[test]
fn order_tracks_partial_and_full_fill_lifecycle() {
    let mut order = Order::new(
        OrderId::new(1),
        "AAPL",
        OrderSide::Buy,
        PositionEffect::Open,
        OrderType::Limit,
        TimeInForce::Day,
        ts(24),
        dec(10, 0),
        Some(dec(100, 0)),
        None,
    )
    .unwrap();
    order.acknowledge(ts(24)).unwrap();

    let fill_one = Fill::new(
        FillId::new(10),
        OrderId::new(1),
        "AAPL",
        OrderSide::Buy,
        PositionEffect::Open,
        ts(25),
        dec(4, 0),
        dec(99, 0),
        dec(4, 1),
    )
    .unwrap();
    let fill_two = Fill::new(
        FillId::new(11),
        OrderId::new(1),
        "AAPL",
        OrderSide::Buy,
        PositionEffect::Open,
        ts(26),
        dec(6, 0),
        dec(101, 0),
        dec(6, 1),
    )
    .unwrap();

    order.record_fill(&fill_one).unwrap();
    assert_eq!(order.status(), OrderStatus::PartiallyFilled);
    assert_eq!(order.filled_qty(), dec(4, 0));
    assert_eq!(order.leaves_qty(), dec(6, 0));
    assert_eq!(order.average_fill_price(), Some(dec(99, 0)));
    assert_eq!(order.cumulative_fees(), dec(4, 1));

    order.record_fill(&fill_two).unwrap();
    assert_eq!(order.status(), OrderStatus::Filled);
    assert_eq!(order.filled_qty(), dec(10, 0));
    assert_eq!(order.leaves_qty(), Dec::zero());
    assert_eq!(order.average_fill_price(), Some(dec(1002, 1)));
    assert_eq!(order.cumulative_fees(), dec(1, 0));
    assert_eq!(order.fill_ids(), &[FillId::new(10), FillId::new(11)]);
}

#[test]
fn order_rejects_incompatible_fill() {
    let mut order = Order::new(
        OrderId::new(2),
        "AAPL",
        OrderSide::Buy,
        PositionEffect::Open,
        OrderType::Market,
        TimeInForce::Day,
        ts(24),
        dec(5, 0),
        None,
        None,
    )
    .unwrap();

    let wrong_fill = Fill::new(
        FillId::new(12),
        OrderId::new(999),
        "AAPL",
        OrderSide::Buy,
        PositionEffect::Open,
        ts(25),
        dec(1, 0),
        dec(100, 0),
        dec(0, 0),
    )
    .unwrap();

    let err = order.record_fill(&wrong_fill).unwrap_err();
    assert_eq!(
        err,
        OrderError::FillOrderMismatch {
            expected: OrderId::new(2),
            actual: OrderId::new(999),
        }
    );
}

#[test]
fn order_reject_after_fill_is_blocked() {
    let mut order = Order::new(
        OrderId::new(3),
        "AAPL",
        OrderSide::Buy,
        PositionEffect::Open,
        OrderType::Market,
        TimeInForce::Day,
        ts(24),
        dec(2, 0),
        None,
        None,
    )
    .unwrap();

    let fill = Fill::new(
        FillId::new(13),
        OrderId::new(3),
        "AAPL",
        OrderSide::Buy,
        PositionEffect::Open,
        ts(25),
        dec(1, 0),
        dec(100, 0),
        dec(0, 0),
    )
    .unwrap();

    order.record_fill(&fill).unwrap();
    let err = order.reject(ts(26), "late reject".to_string()).unwrap_err();
    assert_eq!(
        err,
        OrderError::RejectAfterFill {
            order_id: OrderId::new(3),
            filled_qty: dec(1, 0),
        }
    );
}

#[test]
fn order_rejects_duplicate_fill_replay() {
    let mut order = Order::new(
        OrderId::new(4),
        "AAPL",
        OrderSide::Buy,
        PositionEffect::Open,
        OrderType::Market,
        TimeInForce::Day,
        ts(24),
        dec(3, 0),
        None,
        None,
    )
    .unwrap();

    let fill = Fill::new(
        FillId::new(14),
        OrderId::new(4),
        "AAPL",
        OrderSide::Buy,
        PositionEffect::Open,
        ts(25),
        dec(1, 0),
        dec(100, 0),
        dec(0, 0),
    )
    .unwrap();

    order.record_fill(&fill).unwrap();
    let err = order.record_fill(&fill).unwrap_err();
    assert_eq!(
        err,
        OrderError::DuplicateFillId {
            fill_id: FillId::new(14),
        }
    );
}
