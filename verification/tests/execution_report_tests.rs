use chrono::{TimeZone, Utc};
use strategy_api::decimal::Dec;
use strategy_api::order_sys::execution_report::{ExecutionReport, ExecutionReportType};
use strategy_api::order_sys::fill::Fill;
use strategy_api::order_sys::order::{Order, OrderSide, OrderStatus, OrderType, PositionEffect, TimeInForce};
use strategy_api::order_sys::{ExecutionReportId, FillId, OrderId};

fn dec(value: i64, scale: u32) -> Dec {
    Dec::new(value, scale)
}

fn ts(day: u32) -> i64 {
    Utc.with_ymd_and_hms(2026, 5, day, 9, 30, 0).unwrap().timestamp_nanos_opt().unwrap()
}

#[test]
fn execution_report_snapshots_trade_state() {
    let mut order = Order::new(
        OrderId::new(1),
        "AAPL",
        OrderSide::Buy,
        PositionEffect::Open,
        OrderType::Market,
        TimeInForce::Day,
        ts(24),
        dec(5, 0),
        None,
        None,
    )
    .unwrap();
    order.acknowledge(ts(24)).unwrap();

    let fill = Fill::new(
        FillId::new(10),
        OrderId::new(1),
        "AAPL",
        OrderSide::Buy,
        PositionEffect::Open,
        ts(25),
        dec(2, 0),
        dec(101, 0),
        dec(2, 1),
    )
    .unwrap();
    order.record_fill(&fill).unwrap();

    let report = ExecutionReport::trade(ExecutionReportId::new(100), &order, &fill);

    assert_eq!(report.report_type(), ExecutionReportType::Trade);
    assert_eq!(report.order_id(), OrderId::new(1));
    assert_eq!(report.fill_id(), Some(FillId::new(10)));
    assert_eq!(report.status(), OrderStatus::PartiallyFilled);
    assert_eq!(report.last_qty(), dec(2, 0));
    assert_eq!(report.last_price(), Some(dec(101, 0)));
    assert_eq!(report.cumulative_qty(), dec(2, 0));
    assert_eq!(report.leaves_qty(), dec(3, 0));
    assert_eq!(report.cumulative_fees(), dec(2, 1));
}
