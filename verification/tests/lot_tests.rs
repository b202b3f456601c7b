use chrono::{TimeZone, Utc};
use strategy_api::decimal::Dec;
use strategy_api::order_sys::lot::{Lot, LotError, LotSide, LotStatus};
use strategy_api::order_sys::{FillId, LotId, OrderId};

fn dec(value: i64, scale: u32) -> Dec {
    Dec::new(value, scale)
}

fn ts(day: u32) -> i64 {
    Utc.with_ymd_and_hms(2026, 5, day, 9, 30, 0).unwrap().timestamp_nanos_opt().unwrap()
}

#[test]
fn open_lot_keeps_open_audit_snapshot() {
    let lot = Lot::open(
        LotId::new(1),
        LotSide::Long,
        OrderId::new(10),
        FillId::new(100),
        ts(24),
        dec(10, 0),
        dec(100, 0),
        dec(2, 0),
    )
    .unwrap();

    assert_eq!(lot.id(), LotId::new(1));
    assert_eq!(lot.side(), LotSide::Long);
    assert_eq!(lot.status(), LotStatus::Open);
    assert_eq!(lot.opened_at(), ts(24));
    assert_eq!(lot.updated_at(), ts(24));
    assert_eq!(lot.open_order_id(), OrderId::new(10));
    assert_eq!(lot.open_fill_id(), FillId::new(100));
    assert_eq!(lot.original_qty(), dec(10, 0));
    assert_eq!(lot.remaining_qty(), dec(10, 0));
    assert_eq!(lot.open_price(), dec(100, 0));
    assert_eq!(lot.open_fees(), dec(2, 0));
    assert_eq!(lot.open_gross_notional(), dec(1000, 0));
    assert!(lot.close_events().is_empty());
}

#[test]
fn partial_and_full_close_keep_complete_audit_trail() {
    let mut lot = Lot::open(
        LotId::new(2),
        LotSide::Long,
        OrderId::new(20),
        FillId::new(200),
        ts(24),
        dec(10, 0),
        dec(100, 0),
        dec(2, 0),
    )
    .unwrap();

    let first_close = lot
        .close(
            OrderId::new(21),
            FillId::new(201),
            ts(25),
            dec(4, 0),
            dec(110, 0),
            dec(1, 0),
        )
        .unwrap()
        .clone();

    assert_eq!(first_close.sequence, 1);
    assert_eq!(first_close.gross_notional, dec(440, 0));
    assert_eq!(first_close.allocated_open_fees, dec(8, 1));
    assert_eq!(first_close.close_fees, dec(1, 0));
    assert_eq!(first_close.total_fees, dec(18, 1));
    assert_eq!(first_close.realized_gross_pnl, dec(40, 0));
    assert_eq!(first_close.realized_net_pnl, dec(382, 1));
    assert_eq!(first_close.remaining_qty_after, dec(6, 0));

    let second_close = lot
        .close(
            OrderId::new(22),
            FillId::new(202),
            ts(26),
            dec(6, 0),
            dec(90, 0),
            dec(15, 1),
        )
        .unwrap()
        .clone();

    assert_eq!(second_close.sequence, 2);
    assert_eq!(second_close.allocated_open_fees, dec(12, 1));
    assert_eq!(second_close.total_fees, dec(27, 1));
    assert_eq!(second_close.realized_gross_pnl, dec(-60, 0));
    assert_eq!(second_close.realized_net_pnl, dec(-627, 1));
    assert_eq!(second_close.remaining_qty_after, Dec::zero());

    assert_eq!(lot.status(), LotStatus::Closed);
    assert_eq!(lot.closed_at(), Some(ts(26)));
    assert_eq!(lot.closed_qty(), dec(10, 0));
    assert_eq!(lot.remaining_qty(), Dec::zero());
    assert_eq!(lot.realized_gross_pnl(), dec(-20, 0));
    assert_eq!(lot.realized_open_fees(), dec(2, 0));
    assert_eq!(lot.realized_close_fees(), dec(25, 1));
    assert_eq!(lot.realized_total_fees().unwrap(), dec(45, 1));
    assert_eq!(lot.realized_net_pnl(), dec(-245, 1));
    assert_eq!(lot.close_events().len(), 2);
}

#[test]
fn short_lot_realizes_pnl_when_buying_back_lower() {
    let mut lot = Lot::open(
        LotId::new(3),
        LotSide::Short,
        OrderId::new(30),
        FillId::new(300),
        ts(24),
        dec(5, 0),
        dec(100, 0),
        dec(5, 1),
    )
    .unwrap();

    let close = lot
        .close(
            OrderId::new(31),
            FillId::new(301),
            ts(25),
            dec(5, 0),
            dec(92, 0),
            dec(25, 2),
        )
        .unwrap()
        .clone();

    assert_eq!(close.realized_gross_pnl, dec(40, 0));
    assert_eq!(close.total_fees, dec(75, 2));
    assert_eq!(close.realized_net_pnl, dec(3925, 2));
    assert_eq!(lot.realized_net_pnl(), dec(3925, 2));
}

#[test]
fn close_rejects_invalid_quantity_and_out_of_order_timestamps() {
    let mut lot = Lot::open(
        LotId::new(4),
        LotSide::Long,
        OrderId::new(40),
        FillId::new(400),
        ts(24),
        dec(3, 0),
        dec(50, 0),
        dec(0, 0),
    )
    .unwrap();

    let too_large = lot
        .close(
            OrderId::new(41),
            FillId::new(401),
            ts(25),
            dec(4, 0),
            dec(55, 0),
            dec(0, 0),
        )
        .unwrap_err();
    assert_eq!(
        too_large,
        LotError::CloseExceedsRemaining {
            requested: dec(4, 0),
            remaining: dec(3, 0),
        }
    );

    let out_of_order = lot
        .close(
            OrderId::new(42),
            FillId::new(402),
            ts(23),
            dec(1, 0),
            dec(55, 0),
            dec(0, 0),
        )
        .unwrap_err();
    assert_eq!(
        out_of_order,
        LotError::EventOutOfOrder {
            previous_timestamp: ts(24),
            new_timestamp: ts(23),
        }
    );
}
