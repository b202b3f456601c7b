use chrono::{TimeZone, Utc};
use strategy_api::decimal::Dec;
use strategy_api::order_sys::fill::{Fill, FillError, FillLiquidity};
use strategy_api::order_sys::order::{OrderSide, PositionEffect};
use strategy_api::order_sys::{FillId, OrderId};

fn dec(value: i64, scale: u32) -> Dec {
    Dec::new(value, scale)
}

fn ts(day: u32) -> i64 {
    Utc.with_ymd_and_hms(2026, 5, day, 9, 30, 0).unwrap().timestamp_nanos_opt().unwrap()
}

#[test]
fn fill_keeps_execution_metadata() {
    let fill = Fill::new_with_metadata(
        FillId::new(1),
        OrderId::new(10),
        "AAPL",
        OrderSide::Buy,
        PositionEffect::Open,
        ts(24),
        dec(5, 0),
        dec(100, 0),
        dec(5, 1),
        FillLiquidity::Taker,
        Some("exec-1".to_owned()),
        Some("venue-order-1".to_owned()),
    )
    .unwrap();

    assert_eq!(fill.gross_notional().unwrap(), dec(500, 0));
    assert_eq!(fill.liquidity(), FillLiquidity::Taker);
    assert_eq!(fill.venue_execution_id(), Some("exec-1"));
    assert_eq!(fill.venue_order_id(), Some("venue-order-1"));
}

#[test]
fn fill_rejects_non_positive_quantity() {
    let err = Fill::new(
        FillId::new(2),
        OrderId::new(20),
        "AAPL",
        OrderSide::Buy,
        PositionEffect::Open,
        ts(24),
        Dec::zero(),
        dec(100, 0),
        dec(0, 0),
    )
    .unwrap_err();

    assert_eq!(
        err,
        FillError::NonPositiveQuantity {
            quantity: Dec::zero(),
        }
    );
}
