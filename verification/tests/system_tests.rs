use chrono::{TimeZone, Utc};
use strategy_api::decimal::Dec;
use strategy_api::order_sys::execution_report::ExecutionReportType;
use strategy_api::order_sys::fill::Fill;
use strategy_api::order_sys::holding::{HoldingError, LotReliefMethod};
use strategy_api::order_sys::lot::LotSide;
use strategy_api::order_sys::order::{OrderSide, OrderStatus, OrderType, PositionEffect, TimeInForce};
use strategy_api::order_sys::system::{AppliedFill, FlattenPositionRequest, OrderSystem, OrderSystemError, SubmitCloseOrderRequest, SubmitOrderRequest};
use strategy_api::order_sys::{FillId, LotId, OrderId};

fn dec(value: i64, scale: u32) -> Dec {
    Dec::new(value, scale)
}

fn ts(day: u32) -> i64 {
    Utc.with_ymd_and_hms(2026, 5, day, 9, 30, 0).unwrap().timestamp_nanos_opt().unwrap()
}

fn open_fill(order_id: u64, fill_id: u64, day: u32, qty: i64, price: i64) -> Fill {
    Fill::new(
        FillId::new(fill_id),
        OrderId::new(order_id),
        "AAPL",
        OrderSide::Buy,
        PositionEffect::Open,
        ts(day),
        dec(qty, 0),
        dec(price, 0),
        dec(0, 0),
    )
    .unwrap()
}

fn close_fill(order_id: u64, fill_id: u64, day: u32, qty: i64, price: i64) -> Fill {
    Fill::new(
        FillId::new(fill_id),
        OrderId::new(order_id),
        "AAPL",
        OrderSide::Sell,
        PositionEffect::Close,
        ts(day),
        dec(qty, 0),
        dec(price, 0),
        dec(0, 0),
    )
    .unwrap()
}

fn short_open_fill(order_id: u64, fill_id: u64, day: u32, qty: i64, price: i64) -> Fill {
    Fill::new(
        FillId::new(fill_id),
        OrderId::new(order_id),
        "AAPL",
        OrderSide::Sell,
        PositionEffect::Open,
        ts(day),
        dec(qty, 0),
        dec(price, 0),
        dec(0, 0),
    )
    .unwrap()
}

fn submit_and_fill_long(
    system: &mut OrderSystem,
    day: u32,
    qty: i64,
    price: i64,
) -> AppliedFill {
    let submission = system
        .submit_order(SubmitOrderRequest::new(
            "AAPL",
            OrderSide::Buy,
            PositionEffect::Open,
            OrderType::Market,
            TimeInForce::Day,
            ts(day),
            dec(qty, 0),
            None,
            None,
        ))
        .unwrap();

    system
        .apply_fill(open_fill(
            submission.order.id().value(),
            1000 + submission.order.id().value(),
            day + 1,
            qty,
            price,
        ))
        .unwrap()
}

#[test]
fn submit_order_creates_pending_order_and_report() {
    let mut system = OrderSystem::new(LotReliefMethod::Fifo);

    let submission = system
        .submit_order(SubmitOrderRequest::new(
            "AAPL",
            OrderSide::Buy,
            PositionEffect::Open,
            OrderType::Market,
            TimeInForce::Day,
            ts(24),
            dec(5, 0),
            None,
            None,
        ))
        .unwrap();

    assert_eq!(submission.order.id(), OrderId::new(1));
    assert_eq!(submission.order.status(), OrderStatus::Pending);
    assert_eq!(
        submission.report.report_type(),
        ExecutionReportType::PendingNew
    );
    assert_eq!(system.execution_reports().len(), 1);
    assert_eq!(system.order(OrderId::new(1)).unwrap().symbol(), "AAPL");
    assert!(system.holding("AAPL").is_none());
}

#[test]
fn apply_open_fill_creates_holding_and_trade_report() {
    let mut system = OrderSystem::new(LotReliefMethod::Fifo);
    let submission = system
        .submit_order(SubmitOrderRequest::new(
            "AAPL",
            OrderSide::Buy,
            PositionEffect::Open,
            OrderType::Market,
            TimeInForce::Day,
            ts(24),
            dec(5, 0),
            None,
            None,
        ))
        .unwrap();

    system
        .acknowledge_order(submission.order.id(), ts(24))
        .unwrap();
    let applied = system.apply_fill(open_fill(1, 10, 25, 5, 100)).unwrap();

    assert_eq!(applied.order.status(), OrderStatus::Filled);
    assert_eq!(applied.report.report_type(), ExecutionReportType::Trade);
    assert_eq!(applied.opened_lot_id, Some(LotId::new(1)));
    assert!(applied.holding_close.is_none());
    assert_eq!(system.holding("AAPL").unwrap().open_qty().unwrap(), dec(5, 0));
    assert_eq!(system.holding("AAPL").unwrap().side(), Some(LotSide::Long));
    assert!(system.fill(FillId::new(10)).is_some());
    assert_eq!(system.execution_reports().len(), 3);
}

#[test]
fn submit_close_order_infers_side_and_reserves_quantity() {
    let mut system = OrderSystem::new(LotReliefMethod::Fifo);
    submit_and_fill_long(&mut system, 24, 5, 100);

    let close = system
        .submit_close_order(SubmitCloseOrderRequest::new(
            "AAPL",
            ts(26),
            dec(3, 0),
            OrderType::Market,
            TimeInForce::Day,
            None,
            None,
        ))
        .unwrap();

    assert_eq!(close.order.side(), OrderSide::Sell);
    assert_eq!(close.order.position_effect(), PositionEffect::Close);
    assert_eq!(system.available_close_qty("AAPL").unwrap(), dec(2, 0));

    let err = system
        .submit_close_order(SubmitCloseOrderRequest::new(
            "AAPL",
            ts(26),
            dec(3, 0),
            OrderType::Market,
            TimeInForce::Day,
            None,
            None,
        ))
        .unwrap_err();
    assert_eq!(
        err,
        OrderSystemError::CloseQuantityExceedsAvailable {
            symbol: "AAPL".to_owned(),
            requested: dec(3, 0),
            available: dec(2, 0),
        }
    );
}

#[test]
fn flatten_position_uses_remaining_unreserved_quantity() {
    let mut system = OrderSystem::new(LotReliefMethod::Fifo);
    submit_and_fill_long(&mut system, 24, 5, 100);

    system
        .submit_close_order(SubmitCloseOrderRequest::new(
            "AAPL",
            ts(26),
            dec(2, 0),
            OrderType::Market,
            TimeInForce::Day,
            None,
            None,
        ))
        .unwrap();

    let flatten = system
        .flatten_position(FlattenPositionRequest::new(
            "AAPL",
            ts(27),
            OrderType::Market,
            TimeInForce::Day,
        ))
        .unwrap();

    assert_eq!(flatten.order.side(), OrderSide::Sell);
    assert_eq!(flatten.order.requested_qty(), dec(3, 0));
}

#[test]
fn apply_close_fill_uses_order_specific_lot_relief_override() {
    let mut system = OrderSystem::new(LotReliefMethod::Fifo);
    submit_and_fill_long(&mut system, 24, 3, 100);
    submit_and_fill_long(&mut system, 26, 3, 105);

    let close = system
        .submit_close_order(
            SubmitCloseOrderRequest::new(
                "AAPL",
                ts(28),
                dec(4, 0),
                OrderType::Market,
                TimeInForce::Day,
                None,
                None,
            )
            .with_lot_relief_method(LotReliefMethod::Lifo),
        )
        .unwrap();

    let applied = system
        .apply_fill(close_fill(close.order.id().value(), 20, 29, 4, 110))
        .unwrap();
    let close_result = applied
        .holding_close
        .expect("close fill must return summary");

    assert_eq!(close_result.matches.len(), 2);
    assert_eq!(close_result.matches[0].lot_id, LotId::new(2));
    assert_eq!(close_result.matches[0].close.qty, dec(3, 0));
    assert_eq!(close_result.matches[1].lot_id, LotId::new(1));
    assert_eq!(close_result.matches[1].close.qty, dec(1, 0));
    assert_eq!(system.holding("AAPL").unwrap().open_qty().unwrap(), dec(2, 0));
}

#[test]
fn submit_order_rejects_opposite_open_side_against_existing_position() {
    let mut system = OrderSystem::new(LotReliefMethod::Fifo);
    submit_and_fill_long(&mut system, 24, 2, 100);

    let err = system
        .submit_order(SubmitOrderRequest::new(
            "AAPL",
            OrderSide::Sell,
            PositionEffect::Open,
            OrderType::Market,
            TimeInForce::Day,
            ts(26),
            dec(1, 0),
            None,
            None,
        ))
        .unwrap_err();

    assert_eq!(
        err,
        OrderSystemError::OpenSideMismatch {
            symbol: "AAPL".to_owned(),
            requested: OrderSide::Sell,
            holding_side: LotSide::Long,
        }
    );
}

#[test]
fn cancel_close_order_releases_reserved_quantity() {
    let mut system = OrderSystem::new(LotReliefMethod::Fifo);
    submit_and_fill_long(&mut system, 24, 5, 100);

    let close = system
        .submit_close_order(SubmitCloseOrderRequest::new(
            "AAPL",
            ts(26),
            dec(5, 0),
            OrderType::Market,
            TimeInForce::Day,
            None,
            None,
        ))
        .unwrap();

    let err = system
        .submit_close_order(SubmitCloseOrderRequest::new(
            "AAPL",
            ts(26),
            dec(1, 0),
            OrderType::Market,
            TimeInForce::Day,
            None,
            None,
        ))
        .unwrap_err();
    assert_eq!(
        err,
        OrderSystemError::CloseQuantityExceedsAvailable {
            symbol: "AAPL".to_owned(),
            requested: dec(1, 0),
            available: Dec::zero(),
        }
    );

    system.cancel_order(close.order.id(), ts(27)).unwrap();

    assert!(
        system
            .submit_close_order(SubmitCloseOrderRequest::new(
                "AAPL",
                ts(28),
                dec(1, 0),
                OrderType::Market,
                TimeInForce::Day,
                None,
                None,
            ))
            .is_ok()
    );
}

#[test]
fn allow_reversal_stages_open_order_until_auto_close_fills() {
    let mut system = OrderSystem::new(LotReliefMethod::Fifo);
    submit_and_fill_long(&mut system, 24, 2, 100);

    let reversal = system
        .submit_order(
            SubmitOrderRequest::new(
                "AAPL",
                OrderSide::Sell,
                PositionEffect::Open,
                OrderType::Market,
                TimeInForce::Day,
                ts(26),
                dec(1, 0),
                None,
                None,
            )
            .with_allow_reversal(true),
        )
        .unwrap();

    let auto_close = reversal
        .auto_close_order
        .as_ref()
        .expect("reversal must create an auto-close order");
    assert_eq!(auto_close.order.position_effect(), PositionEffect::Close);
    assert_eq!(auto_close.order.requested_qty(), dec(2, 0));
    assert_eq!(reversal.order.position_effect(), PositionEffect::Open);
    assert_eq!(reversal.order.requested_qty(), dec(1, 0));

    let early_fill_err = system
        .apply_fill(short_open_fill(reversal.order.id().value(), 200, 27, 1, 99))
        .unwrap_err();
    assert_eq!(
        early_fill_err,
        OrderSystemError::OrderNotActive {
            order_id: reversal.order.id(),
            waiting_on_order_id: auto_close.order.id(),
        }
    );

    system
        .apply_fill(close_fill(auto_close.order.id().value(), 201, 27, 2, 99))
        .unwrap();
    system
        .apply_fill(short_open_fill(reversal.order.id().value(), 202, 28, 1, 98))
        .unwrap();

    assert_eq!(system.holding("AAPL").unwrap().side(), Some(LotSide::Short));
    assert_eq!(system.holding("AAPL").unwrap().open_qty().unwrap(), dec(1, 0));
}

#[test]
fn canceling_auto_close_cascades_to_contingent_open_order() {
    let mut system = OrderSystem::new(LotReliefMethod::Fifo);
    submit_and_fill_long(&mut system, 24, 2, 100);

    let reversal = system
        .submit_order(
            SubmitOrderRequest::new(
                "AAPL",
                OrderSide::Sell,
                PositionEffect::Open,
                OrderType::Market,
                TimeInForce::Day,
                ts(26),
                dec(1, 0),
                None,
                None,
            )
            .with_allow_reversal(true),
        )
        .unwrap();

    let auto_close = reversal
        .auto_close_order
        .as_ref()
        .expect("reversal must create an auto-close order");
    system.cancel_order(auto_close.order.id(), ts(27)).unwrap();

    assert_eq!(
        system.order(auto_close.order.id()).unwrap().status(),
        OrderStatus::Canceled
    );
    assert_eq!(
        system.order(reversal.order.id()).unwrap().status(),
        OrderStatus::Canceled
    );
}

#[test]
fn specific_lot_close_order_can_fill_across_multiple_fills() {
    let mut system = OrderSystem::new(LotReliefMethod::Fifo);
    submit_and_fill_long(&mut system, 24, 1, 100);
    submit_and_fill_long(&mut system, 25, 1, 105);

    let close = system
        .submit_close_order(
            SubmitCloseOrderRequest::new(
                "AAPL",
                ts(26),
                dec(2, 0),
                OrderType::Market,
                TimeInForce::Day,
                None,
                None,
            )
            .with_lot_relief_method(LotReliefMethod::SpecificLot(vec![
                LotId::new(1),
                LotId::new(2),
            ])),
        )
        .unwrap();

    system
        .apply_fill(close_fill(close.order.id().value(), 30, 27, 1, 110))
        .unwrap();
    let second_fill = system
        .apply_fill(close_fill(close.order.id().value(), 31, 28, 1, 111))
        .unwrap();

    let close_result = second_fill
        .holding_close
        .expect("second partial fill must produce a close summary");
    assert_eq!(close_result.matches.len(), 1);
    assert_eq!(close_result.matches[0].lot_id, LotId::new(2));
    assert_eq!(close_result.matches[0].close.qty, dec(1, 0));
    assert!(system.holding("AAPL").unwrap().is_flat());
}

#[test]
fn submit_order_rejects_opposite_open_side_while_live_open_order_exists() {
    let mut system = OrderSystem::new(LotReliefMethod::Fifo);

    system
        .submit_order(SubmitOrderRequest::new(
            "AAPL",
            OrderSide::Buy,
            PositionEffect::Open,
            OrderType::Market,
            TimeInForce::Day,
            ts(24),
            dec(1, 0),
            None,
            None,
        ))
        .unwrap();

    let second_open = system
        .submit_order(SubmitOrderRequest::new(
            "AAPL",
            OrderSide::Sell,
            PositionEffect::Open,
            OrderType::Market,
            TimeInForce::Day,
            ts(24),
            dec(1, 0),
            None,
            None,
        ))
        .unwrap_err();

    assert_eq!(
        second_open,
        OrderSystemError::LiveOpenOrderSideConflict {
            symbol: "AAPL".to_owned(),
            requested: OrderSide::Sell,
            live_order_side: OrderSide::Buy,
        }
    );
}

#[test]
fn submit_close_order_rejects_invalid_specific_lot_selection_up_front() {
    let mut system = OrderSystem::new(LotReliefMethod::Fifo);
    submit_and_fill_long(&mut system, 24, 1, 100);
    submit_and_fill_long(&mut system, 25, 1, 105);

    let err = system
        .submit_close_order(
            SubmitCloseOrderRequest::new(
                "AAPL",
                ts(26),
                dec(2, 0),
                OrderType::Market,
                TimeInForce::Day,
                None,
                None,
            )
            .with_lot_relief_method(LotReliefMethod::SpecificLot(vec![LotId::new(1)])),
        )
        .unwrap_err();

    assert_eq!(
        err,
        OrderSystemError::Holding(
            HoldingError::SpecificLotQuantityInsufficient {
                requested: dec(2, 0),
                available: dec(1, 0),
            }
        )
    );
}

#[test]
fn submit_close_order_rejects_specific_lot_overreservation_from_live_orders() {
    let mut system = OrderSystem::new(LotReliefMethod::Fifo);
    submit_and_fill_long(&mut system, 24, 5, 100);
    submit_and_fill_long(&mut system, 25, 5, 105);

    system
        .submit_close_order(
            SubmitCloseOrderRequest::new(
                "AAPL",
                ts(26),
                dec(4, 0),
                OrderType::Market,
                TimeInForce::Day,
                None,
                None,
            )
            .with_lot_relief_method(LotReliefMethod::SpecificLot(vec![LotId::new(1)])),
        )
        .unwrap();

    let err = system
        .submit_close_order(
            SubmitCloseOrderRequest::new(
                "AAPL",
                ts(27),
                dec(2, 0),
                OrderType::Market,
                TimeInForce::Day,
                None,
                None,
            )
            .with_lot_relief_method(LotReliefMethod::SpecificLot(vec![LotId::new(1)])),
        )
        .unwrap_err();

    assert_eq!(
        err,
        OrderSystemError::Holding(
            HoldingError::SpecificLotQuantityInsufficient {
                requested: dec(2, 0),
                available: dec(1, 0),
            }
        )
    );
}
