use chrono::{TimeZone, Utc};
use strategy_api::decimal::Dec;
use strategy_api::order_sys::fill::Fill;
use strategy_api::order_sys::holding::{Holding, HoldingError, LotReliefMethod};
use strategy_api::order_sys::lot::LotSide;
use strategy_api::order_sys::order::{OrderSide, PositionEffect};
use strategy_api::order_sys::{FillId, HoldingId, LotId, OrderId};

fn dec(value: i64, scale: u32) -> Dec {
    Dec::new(value, scale)
}

fn ts(day: u32) -> i64 {
    Utc.with_ymd_and_hms(2026, 5, day, 9, 30, 0).unwrap().timestamp_nanos_opt().unwrap()
}

fn long_open_fill(fill_id: u64, order_id: u64, day: u32, qty: i64, price: i64) -> Fill {
    Fill::new(
        FillId::new(fill_id),
        OrderId::new(order_id),
        "AAPL",
        OrderSide::Buy,
        PositionEffect::Open,
        ts(day),
        dec(qty, 0),
        dec(price, 0),
        dec(0, 0),
    )
    .unwrap()
}

fn short_open_fill(fill_id: u64, order_id: u64, day: u32, qty: i64, price: i64) -> Fill {
    Fill::new(
        FillId::new(fill_id),
        OrderId::new(order_id),
        "AAPL",
        OrderSide::Sell,
        PositionEffect::Open,
        ts(day),
        dec(qty, 0),
        dec(price, 0),
        dec(0, 0),
    )
    .unwrap()
}

fn long_close_fill(fill_id: u64, order_id: u64, day: u32, qty: i64, price: i64) -> Fill {
    Fill::new(
        FillId::new(fill_id),
        OrderId::new(order_id),
        "AAPL",
        OrderSide::Sell,
        PositionEffect::Close,
        ts(day),
        dec(qty, 0),
        dec(price, 0),
        dec(0, 0),
    )
    .unwrap()
}

fn short_close_fill(fill_id: u64, order_id: u64, day: u32, qty: i64, price: i64) -> Fill {
    Fill::new(
        FillId::new(fill_id),
        OrderId::new(order_id),
        "AAPL",
        OrderSide::Buy,
        PositionEffect::Close,
        ts(day),
        dec(qty, 0),
        dec(price, 0),
        dec(0, 0),
    )
    .unwrap()
}

fn long_open_fill_with_fees(
    fill_id: u64,
    order_id: u64,
    day: u32,
    qty: i64,
    price: i64,
    fees: Dec,
) -> Fill {
    Fill::new(
        FillId::new(fill_id),
        OrderId::new(order_id),
        "AAPL",
        OrderSide::Buy,
        PositionEffect::Open,
        ts(day),
        dec(qty, 0),
        dec(price, 0),
        fees,
    )
    .unwrap()
}

fn short_open_fill_with_fees(
    fill_id: u64,
    order_id: u64,
    day: u32,
    qty: i64,
    price: i64,
    fees: Dec,
) -> Fill {
    Fill::new(
        FillId::new(fill_id),
        OrderId::new(order_id),
        "AAPL",
        OrderSide::Sell,
        PositionEffect::Open,
        ts(day),
        dec(qty, 0),
        dec(price, 0),
        fees,
    )
    .unwrap()
}

fn long_close_fill_with_fees(
    fill_id: u64,
    order_id: u64,
    day: u32,
    qty: i64,
    price: i64,
    fees: Dec,
) -> Fill {
    Fill::new(
        FillId::new(fill_id),
        OrderId::new(order_id),
        "AAPL",
        OrderSide::Sell,
        PositionEffect::Close,
        ts(day),
        dec(qty, 0),
        dec(price, 0),
        fees,
    )
    .unwrap()
}

#[test]
fn holding_pnl_snapshot_combines_realized_and_unrealized_pnl() {
    let mut holding = Holding::new(HoldingId::new(1), "AAPL", LotReliefMethod::Fifo).unwrap();
    let open = long_open_fill_with_fees(1, 100, 24, 10, 100, dec(2, 0));
    let close = long_close_fill_with_fees(2, 101, 25, 4, 110, dec(1, 0));

    holding.open_lot_from_fill(LotId::new(10), &open).unwrap();
    holding.close_with_fill(&close).unwrap();

    let pnl = holding.pnl(dec(105, 0)).unwrap();
    assert_eq!(pnl.symbol, "AAPL");
    assert_eq!(pnl.side, Some(LotSide::Long));
    assert_eq!(pnl.open_qty, dec(6, 0));
    assert_eq!(pnl.mark_price, dec(105, 0));
    assert_eq!(pnl.realized_gross_pnl, dec(40, 0));
    assert_eq!(pnl.realized_net_pnl, dec(382, 1));
    assert_eq!(pnl.unrealized_gross_pnl, dec(30, 0));
    assert_eq!(pnl.unrealized_open_fees, dec(12, 1));
    assert_eq!(pnl.unrealized_net_pnl, dec(288, 1));
    assert_eq!(holding.unrealized_gross_pnl(dec(105, 0)).unwrap(), dec(30, 0));
    assert_eq!(holding.unrealized_net_pnl(dec(105, 0)).unwrap(), dec(288, 1));
}

#[test]
fn short_holding_unrealized_pnl_marks_to_market_correctly() {
    let mut holding = Holding::new(HoldingId::new(1), "AAPL", LotReliefMethod::Fifo).unwrap();
    let open = short_open_fill_with_fees(1, 100, 24, 5, 100, dec(15, 1));

    holding.open_lot_from_fill(LotId::new(10), &open).unwrap();

    let pnl = holding.pnl(dec(90, 0)).unwrap();
    assert_eq!(pnl.side, Some(LotSide::Short));
    assert_eq!(pnl.open_qty, dec(5, 0));
    assert_eq!(pnl.realized_net_pnl, Dec::zero());
    assert_eq!(pnl.unrealized_gross_pnl, dec(50, 0));
    assert_eq!(pnl.unrealized_open_fees, dec(15, 1));
    assert_eq!(pnl.unrealized_net_pnl, dec(485, 1));
}

#[test]
fn fifo_close_matches_oldest_lots_first() {
    let mut holding = Holding::new(HoldingId::new(1), "AAPL", LotReliefMethod::Fifo).unwrap();
    let open_one = Fill::new(
        FillId::new(1),
        OrderId::new(100),
        "AAPL",
        OrderSide::Buy,
        PositionEffect::Open,
        ts(24),
        dec(5, 0),
        dec(100, 0),
        dec(1, 0),
    )
    .unwrap();
    let open_two = Fill::new(
        FillId::new(2),
        OrderId::new(101),
        "AAPL",
        OrderSide::Buy,
        PositionEffect::Open,
        ts(25),
        dec(5, 0),
        dec(105, 0),
        dec(1, 0),
    )
    .unwrap();
    let close = Fill::new(
        FillId::new(3),
        OrderId::new(102),
        "AAPL",
        OrderSide::Sell,
        PositionEffect::Close,
        ts(26),
        dec(6, 0),
        dec(110, 0),
        dec(12, 1),
    )
    .unwrap();

    holding
        .open_lot_from_fill(LotId::new(10), &open_one)
        .unwrap();
    holding
        .open_lot_from_fill(LotId::new(11), &open_two)
        .unwrap();

    let result = holding.close_with_fill(&close).unwrap();

    assert_eq!(holding.side(), Some(LotSide::Long));
    assert_eq!(result.matches.len(), 2);
    assert_eq!(result.matches[0].lot_id, LotId::new(10));
    assert_eq!(result.matches[0].close.qty, dec(5, 0));
    assert_eq!(result.matches[0].close.allocated_open_fees, dec(1, 0));
    assert_eq!(result.matches[0].close.close_fees, dec(1, 0));
    assert_eq!(result.matches[1].lot_id, LotId::new(11));
    assert_eq!(result.matches[1].close.qty, dec(1, 0));
    assert_eq!(result.matches[1].close.close_fees, dec(2, 1));
    assert_eq!(result.total_realized_gross_pnl, dec(55, 0));
    assert_eq!(result.total_realized_net_pnl, dec(526, 1));
    assert_eq!(result.remaining_open_qty, dec(4, 0));
    assert_eq!(holding.open_qty().unwrap(), dec(4, 0));
    assert_eq!(holding.realized_net_pnl().unwrap(), dec(526, 1));
}

#[test]
fn lifo_close_matches_newest_lots_first() {
    let mut holding = Holding::new(HoldingId::new(2), "AAPL", LotReliefMethod::Lifo).unwrap();
    let open_one = Fill::new(
        FillId::new(4),
        OrderId::new(200),
        "AAPL",
        OrderSide::Buy,
        PositionEffect::Open,
        ts(24),
        dec(5, 0),
        dec(100, 0),
        dec(1, 0),
    )
    .unwrap();
    let open_two = Fill::new(
        FillId::new(5),
        OrderId::new(201),
        "AAPL",
        OrderSide::Buy,
        PositionEffect::Open,
        ts(25),
        dec(5, 0),
        dec(105, 0),
        dec(1, 0),
    )
    .unwrap();
    let close = Fill::new(
        FillId::new(6),
        OrderId::new(202),
        "AAPL",
        OrderSide::Sell,
        PositionEffect::Close,
        ts(26),
        dec(6, 0),
        dec(110, 0),
        dec(12, 1),
    )
    .unwrap();

    holding
        .open_lot_from_fill(LotId::new(20), &open_one)
        .unwrap();
    holding
        .open_lot_from_fill(LotId::new(21), &open_two)
        .unwrap();

    let result = holding.close_with_fill(&close).unwrap();

    assert_eq!(result.matches.len(), 2);
    assert_eq!(result.matches[0].lot_id, LotId::new(21));
    assert_eq!(result.matches[0].close.qty, dec(5, 0));
    assert_eq!(result.matches[1].lot_id, LotId::new(20));
    assert_eq!(result.matches[1].close.qty, dec(1, 0));
    assert_eq!(result.total_realized_gross_pnl, dec(35, 0));
    assert_eq!(result.total_realized_net_pnl, dec(326, 1));
}

#[test]
fn hifo_close_matches_highest_cost_lots_first() {
    let mut holding = Holding::new(HoldingId::new(8), "AAPL", LotReliefMethod::Hifo).unwrap();

    holding
        .open_lot_from_fill(LotId::new(80), &long_open_fill(80, 800, 24, 1, 100))
        .unwrap();
    holding
        .open_lot_from_fill(LotId::new(81), &long_open_fill(81, 801, 25, 1, 110))
        .unwrap();
    holding
        .open_lot_from_fill(LotId::new(82), &long_open_fill(82, 802, 26, 1, 105))
        .unwrap();

    let result = holding
        .close_with_fill(&long_close_fill(83, 803, 27, 2, 120))
        .unwrap();

    assert_eq!(result.matches.len(), 2);
    assert_eq!(result.matches[0].lot_id, LotId::new(81));
    assert_eq!(result.matches[1].lot_id, LotId::new(82));
    assert_eq!(result.total_realized_gross_pnl, dec(25, 0));
}

#[test]
fn max_loss_on_short_matches_worst_losing_lots_first() {
    let mut holding =
        Holding::new(HoldingId::new(9), "AAPL", LotReliefMethod::MaxLoss).unwrap();

    holding
        .open_lot_from_fill(LotId::new(90), &short_open_fill(90, 900, 24, 1, 100))
        .unwrap();
    holding
        .open_lot_from_fill(LotId::new(91), &short_open_fill(91, 901, 25, 1, 110))
        .unwrap();

    let result = holding
        .close_with_fill(&short_close_fill(92, 902, 26, 1, 105))
        .unwrap();

    assert_eq!(result.matches.len(), 1);
    assert_eq!(result.matches[0].lot_id, LotId::new(90));
    assert_eq!(result.total_realized_gross_pnl, dec(-5, 0));
}

#[test]
fn max_gain_on_short_matches_best_winning_lots_first() {
    let mut holding =
        Holding::new(HoldingId::new(10), "AAPL", LotReliefMethod::MaxGain).unwrap();

    holding
        .open_lot_from_fill(LotId::new(100), &short_open_fill(100, 1000, 24, 1, 100))
        .unwrap();
    holding
        .open_lot_from_fill(LotId::new(101), &short_open_fill(101, 1001, 25, 1, 110))
        .unwrap();

    let result = holding
        .close_with_fill(&short_close_fill(102, 1002, 26, 1, 105))
        .unwrap();

    assert_eq!(result.matches.len(), 1);
    assert_eq!(result.matches[0].lot_id, LotId::new(101));
    assert_eq!(result.total_realized_gross_pnl, dec(5, 0));
}

#[test]
fn specific_lot_matches_explicit_ids_in_requested_order() {
    let mut holding = Holding::new(HoldingId::new(11), "AAPL", LotReliefMethod::Fifo).unwrap();

    holding
        .open_lot_from_fill(LotId::new(110), &long_open_fill(110, 1100, 24, 3, 100))
        .unwrap();
    holding
        .open_lot_from_fill(LotId::new(111), &long_open_fill(111, 1101, 25, 3, 105))
        .unwrap();
    holding
        .open_lot_from_fill(LotId::new(112), &long_open_fill(112, 1102, 26, 3, 110))
        .unwrap();

    let close = long_close_fill(113, 1103, 27, 5, 120);
    let result = holding
        .close_with_fill_using(
            &close,
            &LotReliefMethod::SpecificLot(vec![LotId::new(111), LotId::new(110)]),
        )
        .unwrap();

    assert_eq!(result.matches.len(), 2);
    assert_eq!(result.matches[0].lot_id, LotId::new(111));
    assert_eq!(result.matches[0].close.qty, dec(3, 0));
    assert_eq!(result.matches[1].lot_id, LotId::new(110));
    assert_eq!(result.matches[1].close.qty, dec(2, 0));
}

#[test]
fn specific_lot_rejects_insufficient_selected_quantity() {
    let mut holding = Holding::new(HoldingId::new(12), "AAPL", LotReliefMethod::Fifo).unwrap();

    holding
        .open_lot_from_fill(LotId::new(120), &long_open_fill(120, 1200, 24, 3, 100))
        .unwrap();
    holding
        .open_lot_from_fill(LotId::new(121), &long_open_fill(121, 1201, 25, 3, 105))
        .unwrap();

    let err = holding
        .close_with_fill_using(
            &long_close_fill(122, 1202, 26, 5, 120),
            &LotReliefMethod::SpecificLot(vec![LotId::new(121)]),
        )
        .unwrap_err();

    assert_eq!(
        err,
        HoldingError::SpecificLotQuantityInsufficient {
            requested: dec(5, 0),
            available: dec(3, 0),
        }
    );
}

#[test]
fn average_cost_allocates_pro_rata_across_open_lots() {
    let mut holding =
        Holding::new(HoldingId::new(13), "AAPL", LotReliefMethod::AverageCost).unwrap();

    holding
        .open_lot_from_fill(LotId::new(130), &long_open_fill(130, 1300, 24, 4, 100))
        .unwrap();
    holding
        .open_lot_from_fill(LotId::new(131), &long_open_fill(131, 1301, 25, 6, 110))
        .unwrap();

    let result = holding
        .close_with_fill(&long_close_fill(132, 1302, 26, 5, 120))
        .unwrap();

    assert_eq!(result.matches.len(), 2);
    assert_eq!(result.matches[0].lot_id, LotId::new(130));
    assert_eq!(result.matches[0].close.qty, dec(2, 0));
    assert_eq!(result.matches[1].lot_id, LotId::new(131));
    assert_eq!(result.matches[1].close.qty, dec(3, 0));
    assert_eq!(result.total_realized_gross_pnl, dec(70, 0));
}

#[test]
fn holding_rejects_mixed_sides_and_close_oversize() {
    let mut holding = Holding::new(HoldingId::new(3), "AAPL", LotReliefMethod::Fifo).unwrap();

    let long_fill = Fill::new(
        FillId::new(7),
        OrderId::new(300),
        "AAPL",
        OrderSide::Buy,
        PositionEffect::Open,
        ts(24),
        dec(2, 0),
        dec(100, 0),
        dec(0, 0),
    )
    .unwrap();
    let short_fill = Fill::new(
        FillId::new(8),
        OrderId::new(301),
        "AAPL",
        OrderSide::Sell,
        PositionEffect::Open,
        ts(25),
        dec(1, 0),
        dec(101, 0),
        dec(0, 0),
    )
    .unwrap();
    let oversize_close = Fill::new(
        FillId::new(9),
        OrderId::new(302),
        "AAPL",
        OrderSide::Sell,
        PositionEffect::Close,
        ts(26),
        dec(3, 0),
        dec(102, 0),
        dec(0, 0),
    )
    .unwrap();

    holding
        .open_lot_from_fill(LotId::new(30), &long_fill)
        .unwrap();

    let mixed_side = holding
        .open_lot_from_fill(LotId::new(31), &short_fill)
        .unwrap_err();
    assert_eq!(
        mixed_side,
        HoldingError::MixedLotSide {
            expected: LotSide::Long,
            actual: LotSide::Short,
        }
    );

    let oversize = holding.close_with_fill(&oversize_close).unwrap_err();
    assert_eq!(
        oversize,
        HoldingError::CloseExceedsOpenQuantity {
            requested: dec(3, 0),
            available: dec(2, 0),
        }
    );
}

#[test]
fn holding_can_open_opposite_side_after_flattening() {
    let mut holding = Holding::new(HoldingId::new(4), "AAPL", LotReliefMethod::Fifo).unwrap();

    let open_long = Fill::new(
        FillId::new(10),
        OrderId::new(400),
        "AAPL",
        OrderSide::Buy,
        PositionEffect::Open,
        ts(24),
        dec(2, 0),
        dec(100, 0),
        dec(0, 0),
    )
    .unwrap();
    let close_long = Fill::new(
        FillId::new(11),
        OrderId::new(401),
        "AAPL",
        OrderSide::Sell,
        PositionEffect::Close,
        ts(25),
        dec(2, 0),
        dec(101, 0),
        dec(0, 0),
    )
    .unwrap();
    let open_short = Fill::new(
        FillId::new(12),
        OrderId::new(402),
        "AAPL",
        OrderSide::Sell,
        PositionEffect::Open,
        ts(26),
        dec(1, 0),
        dec(99, 0),
        dec(0, 0),
    )
    .unwrap();

    holding
        .open_lot_from_fill(LotId::new(40), &open_long)
        .unwrap();
    holding.close_with_fill(&close_long).unwrap();

    assert!(holding.is_flat());
    assert_eq!(holding.side(), None);
    assert!(
        holding
            .open_lot_from_fill(LotId::new(41), &open_short)
            .is_ok()
    );
    assert_eq!(holding.side(), Some(LotSide::Short));
}

#[test]
fn holding_close_on_flat_returns_no_open_lots() {
    let mut holding = Holding::new(HoldingId::new(5), "AAPL", LotReliefMethod::Fifo).unwrap();

    let open_long = Fill::new(
        FillId::new(13),
        OrderId::new(500),
        "AAPL",
        OrderSide::Buy,
        PositionEffect::Open,
        ts(24),
        dec(1, 0),
        dec(100, 0),
        dec(0, 0),
    )
    .unwrap();
    let close_long = Fill::new(
        FillId::new(14),
        OrderId::new(501),
        "AAPL",
        OrderSide::Sell,
        PositionEffect::Close,
        ts(25),
        dec(1, 0),
        dec(101, 0),
        dec(0, 0),
    )
    .unwrap();
    let extra_close = Fill::new(
        FillId::new(15),
        OrderId::new(502),
        "AAPL",
        OrderSide::Sell,
        PositionEffect::Close,
        ts(26),
        dec(1, 0),
        dec(102, 0),
        dec(0, 0),
    )
    .unwrap();

    holding
        .open_lot_from_fill(LotId::new(50), &open_long)
        .unwrap();
    holding.close_with_fill(&close_long).unwrap();

    let err = holding.close_with_fill(&extra_close).unwrap_err();
    assert_eq!(
        err,
        HoldingError::NoOpenLots {
            symbol: "AAPL".to_owned(),
        }
    );
}

#[test]
fn holding_rejects_duplicate_open_fill_replay() {
    let mut holding = Holding::new(HoldingId::new(6), "AAPL", LotReliefMethod::Fifo).unwrap();
    let open_fill = Fill::new(
        FillId::new(16),
        OrderId::new(600),
        "AAPL",
        OrderSide::Buy,
        PositionEffect::Open,
        ts(24),
        dec(1, 0),
        dec(100, 0),
        dec(0, 0),
    )
    .unwrap();

    holding
        .open_lot_from_fill(LotId::new(60), &open_fill)
        .unwrap();

    let err = holding
        .open_lot_from_fill(LotId::new(61), &open_fill)
        .unwrap_err();
    assert_eq!(
        err,
        HoldingError::DuplicateFillId {
            fill_id: FillId::new(16),
        }
    );
}

#[test]
fn holding_rejects_duplicate_close_fill_replay() {
    let mut holding = Holding::new(HoldingId::new(7), "AAPL", LotReliefMethod::Fifo).unwrap();
    let open_fill = Fill::new(
        FillId::new(17),
        OrderId::new(700),
        "AAPL",
        OrderSide::Buy,
        PositionEffect::Open,
        ts(24),
        dec(2, 0),
        dec(100, 0),
        dec(0, 0),
    )
    .unwrap();
    let close_fill = Fill::new(
        FillId::new(18),
        OrderId::new(701),
        "AAPL",
        OrderSide::Sell,
        PositionEffect::Close,
        ts(25),
        dec(1, 0),
        dec(101, 0),
        dec(0, 0),
    )
    .unwrap();

    holding
        .open_lot_from_fill(LotId::new(70), &open_fill)
        .unwrap();
    holding.close_with_fill(&close_fill).unwrap();

    let err = holding.close_with_fill(&close_fill).unwrap_err();
    assert_eq!(
        err,
        HoldingError::DuplicateFillId {
            fill_id: FillId::new(18),
        }
    );
}

#[test]
fn holding_rejects_duplicate_lot_id_reuse() {
    let mut holding = Holding::new(HoldingId::new(14), "AAPL", LotReliefMethod::Fifo).unwrap();

    let open_one = long_open_fill(140, 1400, 24, 1, 100);
    let open_two = long_open_fill(141, 1401, 25, 1, 101);

    holding
        .open_lot_from_fill(LotId::new(140), &open_one)
        .unwrap();

    let err = holding
        .open_lot_from_fill(LotId::new(140), &open_two)
        .unwrap_err();
    assert_eq!(
        err,
        HoldingError::DuplicateLotId {
            lot_id: LotId::new(140),
        }
    );
}

#[test]
fn single_close_fill_can_relieve_multiple_lots() {
    let mut holding = Holding::new(HoldingId::new(15), "AAPL", LotReliefMethod::Fifo).unwrap();

    holding
        .open_lot_from_fill(LotId::new(150), &long_open_fill(150, 1500, 24, 1, 100))
        .unwrap();
    holding
        .open_lot_from_fill(LotId::new(151), &long_open_fill(151, 1501, 25, 1, 101))
        .unwrap();

    let result = holding
        .close_with_fill(&long_close_fill(152, 1502, 26, 2, 110))
        .unwrap();

    assert_eq!(result.matches.len(), 2);
    assert_eq!(result.matches[0].close.close_fill_id, FillId::new(152));
    assert_eq!(result.matches[1].close.close_fill_id, FillId::new(152));
}
