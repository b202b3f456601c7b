//! Individual position lots with a complete close audit trail.
//!
//! A [`Lot`] is one opened slice of exposure. Closing fills relieve it in one
//! or more [`LotClose`] events, each recording the allocated open fees, the
//! close fees and the realized gross and net PnL of that slice.

use vstd::prelude::*;

use crate::decimal::{dec_add, dec_div, dec_mul, dec_sub, sum_is_exact, Dec};
use crate::order_sys::{FillId, LotId, OrderId, Timestamp};

verus! {

/// Direction of a lot.
#[derive(Clone, Copy, Debug, PartialEq, Eq, Structural)]
pub enum LotSide {
    Long,
    Short,
}

/// Whether a lot still has open quantity.
#[derive(Clone, Copy, Debug, PartialEq, Eq, Structural)]
pub enum LotStatus {
    Open,
    Closed,
}

/// Errors raised while opening or closing a lot.
#[allow(inconsistent_fields)]
#[derive(Clone, Debug, PartialEq, Eq)]
pub enum LotError {
    NonPositiveQuantity { quantity: Dec },
    NonPositivePrice { price: Dec },
    NegativeFees { fees: Dec },
    CloseExceedsRemaining { requested: Dec, remaining: Dec },
    EventOutOfOrder { previous_timestamp: Timestamp, new_timestamp: Timestamp },
    LotAlreadyClosed { lot_id: LotId },
    /// A decimal result or the close-event counter fell outside its range.
    ArithmeticOverflow,
}

/// One close event in a lot's audit trail.
#[derive(Clone, Copy, Debug, PartialEq, Eq)]
pub struct LotClose {
    pub sequence: u32,
    pub close_order_id: OrderId,
    pub close_fill_id: FillId,
    pub closed_at: Timestamp,
    pub qty: Dec,
    pub price: Dec,
    pub gross_notional: Dec,
    pub close_fees: Dec,
    pub allocated_open_fees: Dec,
    pub total_fees: Dec,
    pub realized_gross_pnl: Dec,
    pub realized_net_pnl: Dec,
    pub remaining_qty_after: Dec,
}

/// Abstract state of a lot.
pub struct LotView {
    pub id: LotId,
    pub side: LotSide,
    pub opened_at: Timestamp,
    pub updated_at: Timestamp,
    pub closed_at: Option<Timestamp>,
    pub open_order_id: OrderId,
    pub open_fill_id: FillId,
    pub original_qty: Dec,
    pub remaining_qty: Dec,
    pub open_price: Dec,
    pub open_fees: Dec,
    pub open_gross_notional: Dec,
    pub close_events: Seq<LotClose>,
    pub realized_gross_pnl: Dec,
    pub realized_open_fees: Dec,
    pub realized_close_fees: Dec,
    pub realized_net_pnl: Dec,
}

/// One open slice of exposure and its close history.
#[derive(Debug, PartialEq, Eq)]
pub struct Lot {
    id: LotId,
    side: LotSide,
    opened_at: Timestamp,
    updated_at: Timestamp,
    closed_at: Option<Timestamp>,
    open_order_id: OrderId,
    open_fill_id: FillId,
    original_qty: Dec,
    remaining_qty: Dec,
    open_price: Dec,
    open_fees: Dec,
    open_gross_notional: Dec,
    close_events: Vec<LotClose>,
    realized_gross_pnl: Dec,
    realized_open_fees: Dec,
    realized_close_fees: Dec,
    realized_net_pnl: Dec,
}

impl View for Lot {
    type V = LotView;

    closed spec fn view(&self) -> LotView {
        LotView {
            id: self.id,
            side: self.side,
            opened_at: self.opened_at,
            updated_at: self.updated_at,
            closed_at: self.closed_at,
            open_order_id: self.open_order_id,
            open_fill_id: self.open_fill_id,
            original_qty: self.original_qty,
            remaining_qty: self.remaining_qty,
            open_price: self.open_price,
            open_fees: self.open_fees,
            open_gross_notional: self.open_gross_notional,
            close_events: self.close_events@,
            realized_gross_pnl: self.realized_gross_pnl,
            realized_open_fees: self.realized_open_fees,
            realized_close_fees: self.realized_close_fees,
            realized_net_pnl: self.realized_net_pnl,
        }
    }
}

/// Invariant of every lot.
pub open spec fn lot_valid(l: LotView) -> bool {
    &&& l.original_qty.value() > 0
    &&& l.open_price.value() > 0
    &&& l.open_fees.value() >= 0
    &&& 0 <= l.remaining_qty.value() <= l.original_qty.value()
    &&& (l.closed_at is Some <==> l.remaining_qty.value() == 0)
}

/// A lot is open while it has remaining quantity.
pub open spec fn lot_is_open(l: LotView) -> bool {
    l.remaining_qty.value() != 0
}

/// The validation error for a quantity, price and fee triple, if any.
pub open spec fn amount_error(qty: Dec, price: Dec, fees: Dec) -> Option<LotError> {
    if qty.value() <= 0 {
        Some(LotError::NonPositiveQuantity { quantity: qty })
    } else if price.value() <= 0 {
        Some(LotError::NonPositivePrice { price })
    } else if fees.value() < 0 {
        Some(LotError::NegativeFees { fees })
    } else {
        None
    }
}

/// The error `Lot::close` reports from its validations, if any.
pub open spec fn close_error(l: LotView, closed_at: Timestamp, qty: Dec, price: Dec, fees: Dec) -> Option<LotError> {
    if !lot_is_open(l) {
        Some(LotError::LotAlreadyClosed { lot_id: l.id })
    } else if amount_error(qty, price, fees) is Some {
        amount_error(qty, price, fees)
    } else if closed_at < l.updated_at {
        Some(LotError::EventOutOfOrder { previous_timestamp: l.updated_at, new_timestamp: closed_at })
    } else if qty.value() > l.remaining_qty.value() {
        Some(LotError::CloseExceedsRemaining { requested: qty, remaining: l.remaining_qty })
    } else {
        None
    }
}

/// Open fees allocated to closing `qty`: everything not yet realized on a
/// full close, otherwise the pro-rata share `open_fees * qty / original_qty`.
pub open spec fn allocated_open_fees(l: LotView, qty: Dec) -> Option<Dec> {
    if qty.value() == l.remaining_qty.value() {
        dec_sub(l.open_fees, l.realized_open_fees)
    } else {
        match dec_mul(l.open_fees, qty) {
            Some(p) => dec_div(p, l.original_qty),
            None => None,
        }
    }
}

/// Realized gross PnL of closing `qty` at `price`.
pub open spec fn close_gross_pnl(l: LotView, qty: Dec, price: Dec) -> Option<Dec> {
    let diff = match l.side {
        LotSide::Long => dec_sub(price, l.open_price),
        LotSide::Short => dec_sub(l.open_price, price),
    };
    match diff {
        Some(d) => dec_mul(d, qty),
        None => None,
    }
}

/// The close event and the lot state after closing, as computed by
/// `Lot::close`; `None` when a decimal step overflows or the event counter
/// would pass `u32::MAX`.
pub open spec fn close_outcome(
    l: LotView,
    close_order_id: OrderId,
    close_fill_id: FillId,
    closed_at: Timestamp,
    qty: Dec,
    price: Dec,
    close_fees: Dec,
) -> Option<(LotClose, LotView)> {
    match allocated_open_fees(l, qty) {
        None => None,
        Some(allocated) => match dec_add(allocated, close_fees) {
            None => None,
            Some(total) => match close_gross_pnl(l, qty, price) {
                None => None,
                Some(gross) => match dec_sub(gross, total) {
                    None => None,
                    Some(net) => match dec_sub(l.remaining_qty, qty) {
                        None => None,
                        Some(after) => match dec_mul(qty, price) {
                            None => None,
                            Some(notional) => match dec_add(l.realized_gross_pnl, gross) {
                                None => None,
                                Some(rg) => match dec_add(l.realized_open_fees, allocated) {
                                    None => None,
                                    Some(ro) => match dec_add(l.realized_close_fees, close_fees) {
                                        None => None,
                                        Some(rc) => match dec_add(l.realized_net_pnl, net) {
                                            None => None,
                                            Some(rn) => if l.close_events.len() + 1 > u32::MAX {
                                                None
                                            } else {
                                                let event = LotClose {
                                                    sequence: (l.close_events.len() + 1) as u32,
                                                    close_order_id,
                                                    close_fill_id,
                                                    closed_at,
                                                    qty,
                                                    price,
                                                    gross_notional: notional,
                                                    close_fees,
                                                    allocated_open_fees: allocated,
                                                    total_fees: total,
                                                    realized_gross_pnl: gross,
                                                    realized_net_pnl: net,
                                                    remaining_qty_after: after,
                                                };
                                                Some(
                                                    (
                                                        event,
                                                        LotView {
                                                            remaining_qty: after,
                                                            updated_at: closed_at,
                                                            realized_gross_pnl: rg,
                                                            realized_open_fees: ro,
                                                            realized_close_fees: rc,
                                                            realized_net_pnl: rn,
                                                            closed_at: if after.value() == 0 {
                                                                Some(closed_at)
                                                            } else {
                                                                l.closed_at
                                                            },
                                                            close_events: l.close_events.push(event),
                                                            ..l
                                                        },
                                                    ),
                                                )
                                            },
                                        },
                                    },
                                },
                            },
                        },
                    },
                },
            },
        },
    }
}

/// `r` is `a + b` as `rust_decimal` adds them, and the exact sum whenever
/// that sum can be written at the larger of the two scales.
pub open spec fn added(a: Dec, b: Dec, r: Dec) -> bool {
    &&& dec_add(a, b) == Some(r)
    &&& sum_is_exact(a, b, a.value() + b.value()) ==> r.value() == a.value() + b.value()
}

/// `r` is `a - b` as `rust_decimal` subtracts them, and the exact
/// difference whenever it can be written at the larger of the two scales.
pub open spec fn subtracted(a: Dec, b: Dec, r: Dec) -> bool {
    &&& dec_sub(a, b) == Some(r)
    &&& sum_is_exact(a, b, a.value() - b.value()) ==> r.value() == a.value() - b.value()
}

/// Closed quantity of an event.
pub open spec fn qty_of() -> spec_fn(LotClose) -> Dec {
    |e: LotClose| e.qty
}

/// Open fees allocated to an event.
pub open spec fn allocated_of() -> spec_fn(LotClose) -> Dec {
    |e: LotClose| e.allocated_open_fees
}

/// Close fees of an event.
pub open spec fn close_fees_of() -> spec_fn(LotClose) -> Dec {
    |e: LotClose| e.close_fees
}

/// Realized gross PnL of an event.
pub open spec fn gross_of() -> spec_fn(LotClose) -> Dec {
    |e: LotClose| e.realized_gross_pnl
}

/// Realized net PnL of an event.
pub open spec fn net_of() -> spec_fn(LotClose) -> Dec {
    |e: LotClose| e.realized_net_pnl
}

/// Running `rust_decimal` sum of `f` over `events`, from zero and in
/// order; `None` when a step overflows.
pub open spec fn running_sum(events: Seq<LotClose>, f: spec_fn(LotClose) -> Dec) -> Option<Dec>
    decreases events.len(),
{
    if events.len() == 0 {
        Some(Dec::from_repr((0, 0)))
    } else {
        match running_sum(events.drop_last(), f) {
            None => None,
            Some(p) => dec_add(p, f(events.last())),
        }
    }
}

/// Every step of [`running_sum`] is an [`added`] step.
pub open spec fn running_sum_steps(events: Seq<LotClose>, f: spec_fn(LotClose) -> Dec) -> bool
    decreases events.len(),
{
    if events.len() == 0 {
        true
    } else {
        &&& running_sum_steps(events.drop_last(), f)
        &&& (running_sum(events.drop_last(), f) matches Some(p) && dec_add(p, f(events.last())) matches Some(r) ==> added(
            p,
            f(events.last()),
            r,
        ))
    }
}

/// No step of [`running_sum`] had to round: each partial sum is exact at
/// the larger scale of its operands.
pub open spec fn running_sum_exact(events: Seq<LotClose>, f: spec_fn(LotClose) -> Dec) -> bool
    decreases events.len(),
{
    if events.len() == 0 {
        true
    } else {
        &&& running_sum_exact(events.drop_last(), f)
        &&& running_sum(events.drop_last(), f) matches Some(p)
        &&& sum_is_exact(p, f(events.last()), p.value() + f(events.last()).value())
    }
}

/// Exact sum of the values of `f` over `events`.
pub open spec fn value_sum(events: Seq<LotClose>, f: spec_fn(LotClose) -> Dec) -> int
    decreases events.len(),
{
    if events.len() == 0 {
        0
    } else {
        value_sum(events.drop_last(), f) + f(events.last()).value()
    }
}

/// Remaining quantity of the lot before its `k`-th close event.
pub open spec fn remaining_before(l: LotView, k: int) -> Dec {
    if k <= 0 {
        l.original_qty
    } else {
        l.close_events[k - 1].remaining_qty_after
    }
}

/// How the `k`-th close event was computed: its remaining quantity, total
/// fees and net PnL, and on a full close its open fees (what was not yet
/// allocated by the earlier events).
pub open spec fn event_accounts(l: LotView, k: int) -> bool {
    let e = l.close_events[k];
    let before = remaining_before(l, k);
    &&& 0 < e.qty.value() <= before.value()
    &&& subtracted(before, e.qty, e.remaining_qty_after)
    &&& added(e.allocated_open_fees, e.close_fees, e.total_fees)
    &&& subtracted(e.realized_gross_pnl, e.total_fees, e.realized_net_pnl)
    &&& e.qty.value() == before.value() ==> (running_sum(l.close_events.take(k), allocated_of()) matches Some(p) && subtracted(
        l.open_fees,
        p,
        e.allocated_open_fees,
    ))
}

/// The lot's accounts: its realized totals are the running sums of its
/// close events, and its remaining quantity is what the last event left.
pub open spec fn lot_accounts(l: LotView) -> bool {
    &&& running_sum(l.close_events, gross_of()) == Some(l.realized_gross_pnl)
    &&& running_sum(l.close_events, allocated_of()) == Some(l.realized_open_fees)
    &&& running_sum(l.close_events, close_fees_of()) == Some(l.realized_close_fees)
    &&& running_sum(l.close_events, net_of()) == Some(l.realized_net_pnl)
    &&& running_sum_steps(l.close_events, gross_of())
    &&& running_sum_steps(l.close_events, allocated_of())
    &&& running_sum_steps(l.close_events, close_fees_of())
    &&& running_sum_steps(l.close_events, net_of())
    &&& l.remaining_qty == remaining_before(l, l.close_events.len() as int)
    &&& forall|k: int| 0 <= k < l.close_events.len() ==> #[trigger] event_accounts(l, k)
}

/// No decimal step of the lot's closes had to round.
pub open spec fn lot_exact(l: LotView) -> bool {
    &&& running_sum_exact(l.close_events, gross_of())
    &&& running_sum_exact(l.close_events, allocated_of())
    &&& running_sum_exact(l.close_events, close_fees_of())
    &&& running_sum_exact(l.close_events, net_of())
    &&& forall|k: int| 0 <= k < l.close_events.len() ==> {
        let e = #[trigger] l.close_events[k];
        let before = remaining_before(l, k);
        &&& sum_is_exact(before, e.qty, before.value() - e.qty.value())
        &&& sum_is_exact(e.allocated_open_fees, e.close_fees, e.allocated_open_fees.value() + e.close_fees.value())
        &&& sum_is_exact(e.realized_gross_pnl, e.total_fees, e.realized_gross_pnl.value() - e.total_fees.value())
        &&& (running_sum(l.close_events.take(k), allocated_of()) matches Some(p) ==> sum_is_exact(
            l.open_fees,
            p,
            l.open_fees.value() - p.value(),
        ))
    }
}

/// A running sum whose steps are all exact is the exact sum.
pub proof fn lemma_running_sum_value(events: Seq<LotClose>, f: spec_fn(LotClose) -> Dec)
    requires
        running_sum_steps(events, f),
        running_sum_exact(events, f),
        running_sum(events, f) is Some,
    ensures
        running_sum(events, f).unwrap().value() == value_sum(events, f),
    decreases events.len(),
{
    if events.len() == 0 {
        crate::decimal::lemma_repr_zero();
    } else {
        lemma_running_sum_value(events.drop_last(), f);
    }
}

/// Appending one event extends the running sum by one [`added`] step.
pub proof fn lemma_running_sum_push(events: Seq<LotClose>, e: LotClose, f: spec_fn(LotClose) -> Dec, prev: Dec, next: Dec)
    requires
        running_sum(events, f) == Some(prev),
        running_sum_steps(events, f),
        added(prev, f(e), next),
    ensures
        running_sum(events.push(e), f) == Some(next),
        running_sum_steps(events.push(e), f),
{
    assert(events.push(e).drop_last() =~= events);
    assert(events.push(e).last() == e);
}

/// A close keeps the lot's accounts.
pub proof fn lemma_close_keeps_accounts(l: LotView, e: LotClose, l2: LotView)
    requires
        lot_accounts(l),
        l2.close_events == l.close_events.push(e),
        l2.original_qty == l.original_qty,
        l2.open_fees == l.open_fees,
        l2.remaining_qty == e.remaining_qty_after,
        0 < e.qty.value() <= l.remaining_qty.value(),
        subtracted(l.remaining_qty, e.qty, e.remaining_qty_after),
        added(e.allocated_open_fees, e.close_fees, e.total_fees),
        subtracted(e.realized_gross_pnl, e.total_fees, e.realized_net_pnl),
        e.qty.value() == l.remaining_qty.value() ==> subtracted(l.open_fees, l.realized_open_fees, e.allocated_open_fees),
        added(l.realized_gross_pnl, e.realized_gross_pnl, l2.realized_gross_pnl),
        added(l.realized_open_fees, e.allocated_open_fees, l2.realized_open_fees),
        added(l.realized_close_fees, e.close_fees, l2.realized_close_fees),
        added(l.realized_net_pnl, e.realized_net_pnl, l2.realized_net_pnl),
    ensures
        lot_accounts(l2),
{
    let n = l.close_events.len() as int;
    lemma_running_sum_push(l.close_events, e, gross_of(), l.realized_gross_pnl, l2.realized_gross_pnl);
    lemma_running_sum_push(l.close_events, e, allocated_of(), l.realized_open_fees, l2.realized_open_fees);
    lemma_running_sum_push(l.close_events, e, close_fees_of(), l.realized_close_fees, l2.realized_close_fees);
    lemma_running_sum_push(l.close_events, e, net_of(), l.realized_net_pnl, l2.realized_net_pnl);
    assert(l2.close_events[n] == e);
    assert(remaining_before(l2, n) == l.remaining_qty);
    assert forall|k: int| 0 <= k < l2.close_events.len() implies #[trigger] event_accounts(l2, k) by {
        if k < n {
            assert(event_accounts(l, k));
            assert(l2.close_events[k] == l.close_events[k]);
            assert(remaining_before(l2, k) == remaining_before(l, k));
            assert(l2.close_events.take(k) =~= l.close_events.take(k));
        } else {
            assert(l2.close_events.take(n) =~= l.close_events);
        }
    }
}

/// The accounts of a lot: its realized gross PnL, open fees, close fees and
/// net PnL are the running `rust_decimal` sums of those amounts over its
/// close events; every event's total fees are its allocated open fees plus
/// its close fees and its net PnL is its gross PnL minus its total fees.
/// When no decimal step had to round: the closed quantities add up to the
/// original quantity less what remains, the realized totals are the exact
/// sums over the events, the realized net PnL is the realized gross PnL
/// minus the realized open and close fees, and once the lot is closed all
/// its open fees are realized.
pub proof fn law_lot_accounting(l: LotView)
    requires
        lot_valid(l),
        lot_accounts(l),
    ensures
        running_sum(l.close_events, gross_of()) == Some(l.realized_gross_pnl),
        running_sum(l.close_events, allocated_of()) == Some(l.realized_open_fees),
        running_sum(l.close_events, close_fees_of()) == Some(l.realized_close_fees),
        running_sum(l.close_events, net_of()) == Some(l.realized_net_pnl),
        forall|k: int|
            0 <= k < l.close_events.len() ==> dec_add((#[trigger] l.close_events[k]).allocated_open_fees, l.close_events[k].close_fees)
                == Some(l.close_events[k].total_fees) && dec_sub(l.close_events[k].realized_gross_pnl, l.close_events[k].total_fees)
                == Some(l.close_events[k].realized_net_pnl),
        lot_exact(l) ==> l.remaining_qty.value() == l.original_qty.value() - value_sum(l.close_events, qty_of()),
        lot_exact(l) ==> l.realized_gross_pnl.value() == value_sum(l.close_events, gross_of()),
        lot_exact(l) ==> l.realized_open_fees.value() == value_sum(l.close_events, allocated_of()),
        lot_exact(l) ==> l.realized_close_fees.value() == value_sum(l.close_events, close_fees_of()),
        lot_exact(l) ==> l.realized_net_pnl.value() == l.realized_gross_pnl.value() - (l.realized_open_fees.value()
            + l.realized_close_fees.value()),
        lot_exact(l) && !lot_is_open(l) ==> l.realized_open_fees.value() == l.open_fees.value(),
{
    assert forall|k: int| 0 <= k < l.close_events.len() implies dec_add((#[trigger] l.close_events[k]).allocated_open_fees, l.close_events[k].close_fees)
        == Some(l.close_events[k].total_fees) && dec_sub(l.close_events[k].realized_gross_pnl, l.close_events[k].total_fees)
        == Some(l.close_events[k].realized_net_pnl) by {
        assert(event_accounts(l, k));
    }
    if lot_exact(l) {
        lemma_exact_totals(l);
        if !lot_is_open(l) {
            lemma_closed_lot_realizes_open_fees(l);
        }
    }
}

/// The exact totals of a lot whose closes did not round.
pub proof fn lemma_exact_totals(l: LotView)
    requires
        lot_accounts(l),
        lot_exact(l),
    ensures
        l.remaining_qty.value() == l.original_qty.value() - value_sum(l.close_events, qty_of()),
        l.realized_gross_pnl.value() == value_sum(l.close_events, gross_of()),
        l.realized_open_fees.value() == value_sum(l.close_events, allocated_of()),
        l.realized_close_fees.value() == value_sum(l.close_events, close_fees_of()),
        l.realized_net_pnl.value() == l.realized_gross_pnl.value() - (l.realized_open_fees.value() + l.realized_close_fees.value()),
{
    lemma_running_sum_value(l.close_events, gross_of());
    lemma_running_sum_value(l.close_events, allocated_of());
    lemma_running_sum_value(l.close_events, close_fees_of());
    lemma_running_sum_value(l.close_events, net_of());
    let n = l.close_events.len() as int;
    lemma_accounts_prefix_values(l, n);
    assert(l.close_events.take(n) =~= l.close_events);
}

/// Once a lot without rounding is closed, all its open fees are realized.
#[verifier::rlimit(30)]
pub proof fn lemma_closed_lot_realizes_open_fees(l: LotView)
    requires
        lot_valid(l),
        lot_accounts(l),
        lot_exact(l),
        !lot_is_open(l),
    ensures
        l.realized_open_fees.value() == l.open_fees.value(),
{
    let n = l.close_events.len() as int;
    lemma_exact_totals(l);
    assert(n > 0) by {
        if n == 0 {
            assert(l.remaining_qty == l.original_qty);
        }
    }
    let e = l.close_events[n - 1];
    assert(event_accounts(l, n - 1));
    let before = remaining_before(l, n - 1);
    assert(e.remaining_qty_after == l.remaining_qty);
    assert(e.qty.value() == before.value());
    let rest = l.close_events.drop_last();
    assert(l.close_events.take(n - 1) =~= rest);
    let p = running_sum(rest, allocated_of()).unwrap();
    assert(e.allocated_open_fees.value() == l.open_fees.value() - p.value());
    assert(l.realized_open_fees.value() == p.value() + e.allocated_open_fees.value());
}

/// The exact per-event identities summed over the first `k` events.
pub proof fn lemma_accounts_prefix_values(l: LotView, k: int)
    requires
        lot_accounts(l),
        lot_exact(l),
        0 <= k <= l.close_events.len(),
    ensures
        remaining_before(l, k).value() == l.original_qty.value() - value_sum(l.close_events.take(k), qty_of()),
        value_sum(l.close_events.take(k), net_of()) == value_sum(l.close_events.take(k), gross_of()) - (value_sum(
            l.close_events.take(k),
            allocated_of(),
        ) + value_sum(l.close_events.take(k), close_fees_of())),
    decreases k,
{
    if k > 0 {
        lemma_accounts_prefix_values(l, k - 1);
        let t = l.close_events.take(k);
        assert(t.drop_last() =~= l.close_events.take(k - 1));
        assert(t.last() == l.close_events[k - 1]);
        assert(event_accounts(l, k - 1));
    } else {
        assert(l.close_events.take(0) =~= Seq::<LotClose>::empty());
    }
}

impl Lot {
    #[verifier::type_invariant]
    closed spec fn inv(self) -> bool {
        lot_valid(self@) && lot_accounts(self@)
    }

    /// Every lot satisfies [`lot_valid`] and keeps its [`lot_accounts`].
    pub fn lemma_valid(&self)
        ensures
            lot_valid(self@),
            lot_accounts(self@),
    {
        proof {
            use_type_invariant(self);
        }
    }

    /// Opens a lot from one opening execution, validating quantity, price and fees.
    pub fn open(
        id: LotId,
        side: LotSide,
        open_order_id: OrderId,
        open_fill_id: FillId,
        opened_at: Timestamp,
        original_qty: Dec,
        open_price: Dec,
        open_fees: Dec,
    ) -> (r: Result<Lot, LotError>)
        ensures
            amount_error(original_qty, open_price, open_fees) matches Some(e) ==> r == Err::<Lot, LotError>(e),
            amount_error(original_qty, open_price, open_fees) is None && dec_mul(original_qty, open_price) is None ==> r == Err::<Lot, LotError>(LotError::ArithmeticOverflow),
            amount_error(original_qty, open_price, open_fees) is None && dec_mul(original_qty, open_price) is Some ==> r is Ok && r.unwrap()@ == (LotView {
                id,
                side,
                opened_at,
                updated_at: opened_at,
                closed_at: None,
                open_order_id,
                open_fill_id,
                original_qty,
                remaining_qty: original_qty,
                open_price,
                open_fees,
                open_gross_notional: dec_mul(original_qty, open_price).unwrap(),
                close_events: Seq::empty(),
                realized_gross_pnl: Dec::from_repr((0, 0)),
                realized_open_fees: Dec::from_repr((0, 0)),
                realized_close_fees: Dec::from_repr((0, 0)),
                realized_net_pnl: Dec::from_repr((0, 0)),
            }),
    {
        validate_positive_quantity(original_qty)?;
        validate_positive_price(open_price)?;
        validate_non_negative_fees(open_fees)?;
        let notional = match original_qty.mul(open_price) {
            Some(v) => v,
            None => return Err(LotError::ArithmeticOverflow),
        };
        let zero = Dec::zero();
        Ok(Lot {
            id,
            side,
            opened_at,
            updated_at: opened_at,
            closed_at: None,
            open_order_id,
            open_fill_id,
            original_qty,
            remaining_qty: original_qty,
            open_price,
            open_fees,
            open_gross_notional: notional,
            close_events: Vec::new(),
            realized_gross_pnl: zero,
            realized_open_fees: zero,
            realized_close_fees: zero,
            realized_net_pnl: zero,
        })
    }

    /// Relieves `qty` of the lot at `price`, allocating open fees pro rata
    /// (or everything not yet realized on a full close) and recording one
    /// audit event, which is returned.
    pub fn close(
        &mut self,
        close_order_id: OrderId,
        close_fill_id: FillId,
        closed_at: Timestamp,
        qty: Dec,
        price: Dec,
        close_fees: Dec,
    ) -> (r: Result<LotClose, LotError>)
        ensures
            r is Err ==> final(self)@ == old(self)@,
            close_error(old(self)@, closed_at, qty, price, close_fees) matches Some(e) ==> r == Err::<LotClose, LotError>(e),
            close_error(old(self)@, closed_at, qty, price, close_fees) is None && close_outcome(old(self)@, close_order_id, close_fill_id, closed_at, qty, price, close_fees) is None ==> r == Err::<LotClose, LotError>(LotError::ArithmeticOverflow),
            close_error(old(self)@, closed_at, qty, price, close_fees) is None && close_outcome(old(self)@, close_order_id, close_fill_id, closed_at, qty, price, close_fees) is Some ==> r is Ok && (r.unwrap(), final(self)@) == close_outcome(old(self)@, close_order_id, close_fill_id, closed_at, qty, price, close_fees).unwrap(),
    {
        proof {
            use_type_invariant(&*self);
        }
        let ghost l0 = self@;
        if self.is_closed() {
            return Err(LotError::LotAlreadyClosed { lot_id: self.id });
        }
        validate_positive_quantity(qty)?;
        validate_positive_price(price)?;
        validate_non_negative_fees(close_fees)?;
        if closed_at < self.updated_at {
            return Err(LotError::EventOutOfOrder { previous_timestamp: self.updated_at, new_timestamp: closed_at });
        }
        if self.remaining_qty.lt(&qty) {
            return Err(LotError::CloseExceedsRemaining { requested: qty, remaining: self.remaining_qty });
        }
        let allocated = if qty.num_eq(&self.remaining_qty) {
            match self.open_fees.sub(self.realized_open_fees) {
                Some(v) => v,
                None => return Err(LotError::ArithmeticOverflow),
            }
        } else {
            let product = match self.open_fees.mul(qty) {
                Some(v) => v,
                None => return Err(LotError::ArithmeticOverflow),
            };
            match product.div(self.original_qty) {
                Some(v) => v,
                None => return Err(LotError::ArithmeticOverflow),
            }
        };
        let total_fees = match allocated.add(close_fees) {
            Some(v) => v,
            None => return Err(LotError::ArithmeticOverflow),
        };
        let diff = match self.side {
            LotSide::Long => price.sub(self.open_price),
            LotSide::Short => self.open_price.sub(price),
        };
        let diff = match diff {
            Some(v) => v,
            None => return Err(LotError::ArithmeticOverflow),
        };
        let gross = match diff.mul(qty) {
            Some(v) => v,
            None => return Err(LotError::ArithmeticOverflow),
        };
        let net = match gross.sub(total_fees) {
            Some(v) => v,
            None => return Err(LotError::ArithmeticOverflow),
        };
        let after = match self.remaining_qty.sub(qty) {
            Some(v) => v,
            None => return Err(LotError::ArithmeticOverflow),
        };
        let notional = match qty.mul(price) {
            Some(v) => v,
            None => return Err(LotError::ArithmeticOverflow),
        };
        let rg = match self.realized_gross_pnl.add(gross) {
            Some(v) => v,
            None => return Err(LotError::ArithmeticOverflow),
        };
        let ro = match self.realized_open_fees.add(allocated) {
            Some(v) => v,
            None => return Err(LotError::ArithmeticOverflow),
        };
        let rc = match self.realized_close_fees.add(close_fees) {
            Some(v) => v,
            None => return Err(LotError::ArithmeticOverflow),
        };
        let rn = match self.realized_net_pnl.add(net) {
            Some(v) => v,
            None => return Err(LotError::ArithmeticOverflow),
        };
        if self.close_events.len() >= 0xffff_ffff {
            return Err(LotError::ArithmeticOverflow);
        }
        let event = LotClose {
            sequence: (self.close_events.len() + 1) as u32,
            close_order_id,
            close_fill_id,
            closed_at,
            qty,
            price,
            gross_notional: notional,
            close_fees,
            allocated_open_fees: allocated,
            total_fees,
            realized_gross_pnl: gross,
            realized_net_pnl: net,
            remaining_qty_after: after,
        };
        let is_zero = after.is_zero();
        let mut events = self.close_events.clone();
        assert(events@ =~= l0.close_events);
        events.push(event);
        let new_closed_at = if is_zero {
            Some(closed_at)
        } else {
            self.closed_at
        };
        proof {
            lemma_close_keeps_accounts(
                l0,
                event,
                LotView {
                    updated_at: closed_at,
                    closed_at: new_closed_at,
                    remaining_qty: after,
                    close_events: events@,
                    realized_gross_pnl: rg,
                    realized_open_fees: ro,
                    realized_close_fees: rc,
                    realized_net_pnl: rn,
                    ..l0
                },
            );
        }
        *self = Lot {
            id: self.id,
            side: self.side,
            opened_at: self.opened_at,
            updated_at: closed_at,
            closed_at: new_closed_at,
            open_order_id: self.open_order_id,
            open_fill_id: self.open_fill_id,
            original_qty: self.original_qty,
            remaining_qty: after,
            open_price: self.open_price,
            open_fees: self.open_fees,
            open_gross_notional: self.open_gross_notional,
            close_events: events,
            realized_gross_pnl: rg,
            realized_open_fees: ro,
            realized_close_fees: rc,
            realized_net_pnl: rn,
        };
        Ok(event)
    }

    pub fn id(&self) -> (r: LotId)
        ensures
            r == self@.id,
    {
        self.id
    }

    pub fn side(&self) -> (r: LotSide)
        ensures
            r == self@.side,
    {
        self.side
    }

    pub fn status(&self) -> (r: LotStatus)
        ensures
            r == (if lot_is_open(self@) { LotStatus::Open } else { LotStatus::Closed }),
    {
        if self.is_closed() {
            LotStatus::Closed
        } else {
            LotStatus::Open
        }
    }

    pub fn is_open(&self) -> (r: bool)
        ensures
            r == lot_is_open(self@),
    {
        !self.is_closed()
    }

    pub fn is_closed(&self) -> (r: bool)
        ensures
            r == !lot_is_open(self@),
    {
        self.remaining_qty.is_zero()
    }

    pub fn opened_at(&self) -> (r: Timestamp)
        ensures
            r == self@.opened_at,
    {
        self.opened_at
    }

    pub fn updated_at(&self) -> (r: Timestamp)
        ensures
            r == self@.updated_at,
    {
        self.updated_at
    }

    pub fn closed_at(&self) -> (r: Option<Timestamp>)
        ensures
            r == self@.closed_at,
    {
        self.closed_at
    }

    pub fn open_order_id(&self) -> (r: OrderId)
        ensures
            r == self@.open_order_id,
    {
        self.open_order_id
    }

    pub fn open_fill_id(&self) -> (r: FillId)
        ensures
            r == self@.open_fill_id,
    {
        self.open_fill_id
    }

    pub fn original_qty(&self) -> (r: Dec)
        ensures
            r == self@.original_qty,
    {
        self.original_qty
    }

    /// `original_qty - remaining_qty`.
    pub fn closed_qty(&self) -> (r: Dec)
        ensures
            subtracted(self@.original_qty, self@.remaining_qty, r),
    {
        proof {
            use_type_invariant(self);
        }
        self.original_qty.sub(self.remaining_qty).unwrap()
    }

    pub fn remaining_qty(&self) -> (r: Dec)
        ensures
            r == self@.remaining_qty,
    {
        self.remaining_qty
    }

    pub fn open_price(&self) -> (r: Dec)
        ensures
            r == self@.open_price,
    {
        self.open_price
    }

    pub fn open_fees(&self) -> (r: Dec)
        ensures
            r == self@.open_fees,
    {
        self.open_fees
    }

    pub fn open_gross_notional(&self) -> (r: Dec)
        ensures
            r == self@.open_gross_notional,
    {
        self.open_gross_notional
    }

    pub fn close_events(&self) -> (r: &[LotClose])
        ensures
            r@ == self@.close_events,
    {
        self.close_events.as_slice()
    }

    pub fn realized_gross_pnl(&self) -> (r: Dec)
        ensures
            r == self@.realized_gross_pnl,
    {
        self.realized_gross_pnl
    }

    pub fn realized_open_fees(&self) -> (r: Dec)
        ensures
            r == self@.realized_open_fees,
    {
        self.realized_open_fees
    }

    pub fn realized_close_fees(&self) -> (r: Dec)
        ensures
            r == self@.realized_close_fees,
    {
        self.realized_close_fees
    }

    /// `realized_open_fees + realized_close_fees`; `None` only on overflow.
    pub fn realized_total_fees(&self) -> (r: Option<Dec>)
        ensures
            r == dec_add(self@.realized_open_fees, self@.realized_close_fees),
            r matches Some(t) ==> added(self@.realized_open_fees, self@.realized_close_fees, t),
    {
        self.realized_open_fees.add(self.realized_close_fees)
    }

    pub fn realized_net_pnl(&self) -> (r: Dec)
        ensures
            r == self@.realized_net_pnl,
    {
        self.realized_net_pnl
    }

    /// A copy of the lot with the same abstract state.
    pub fn duplicate(&self) -> (r: Lot)
        ensures
            r@ == self@,
    {
        proof {
            use_type_invariant(self);
        }
        let mut events: Vec<LotClose> = Vec::new();
        let mut i: usize = 0;
        while i < self.close_events.len()
            invariant
                i <= self.close_events.len(),
                events@ == self.close_events@.subrange(0, i as int),
            decreases self.close_events.len() - i,
        {
            events.push(self.close_events[i]);
            i += 1;
            assert(events@ =~= self.close_events@.subrange(0, i as int));
        }
        assert(events@ =~= self.close_events@);
        Lot {
            id: self.id,
            side: self.side,
            opened_at: self.opened_at,
            updated_at: self.updated_at,
            closed_at: self.closed_at,
            open_order_id: self.open_order_id,
            open_fill_id: self.open_fill_id,
            original_qty: self.original_qty,
            remaining_qty: self.remaining_qty,
            open_price: self.open_price,
            open_fees: self.open_fees,
            open_gross_notional: self.open_gross_notional,
            close_events: events,
            realized_gross_pnl: self.realized_gross_pnl,
            realized_open_fees: self.realized_open_fees,
            realized_close_fees: self.realized_close_fees,
            realized_net_pnl: self.realized_net_pnl,
        }
    }
}

fn validate_positive_quantity(quantity: Dec) -> (r: Result<(), LotError>)
    ensures
        quantity.value() <= 0 ==> r == Err::<(), LotError>(LotError::NonPositiveQuantity { quantity }),
        quantity.value() > 0 ==> r is Ok,
{
    if !quantity.is_positive() {
        return Err(LotError::NonPositiveQuantity { quantity });
    }
    Ok(())
}

fn validate_positive_price(price: Dec) -> (r: Result<(), LotError>)
    ensures
        price.value() <= 0 ==> r == Err::<(), LotError>(LotError::NonPositivePrice { price }),
        price.value() > 0 ==> r is Ok,
{
    if !price.is_positive() {
        return Err(LotError::NonPositivePrice { price });
    }
    Ok(())
}

fn validate_non_negative_fees(fees: Dec) -> (r: Result<(), LotError>)
    ensures
        fees.value() < 0 ==> r == Err::<(), LotError>(LotError::NegativeFees { fees }),
        fees.value() >= 0 ==> r is Ok,
{
    if fees.is_negative() {
        return Err(LotError::NegativeFees { fees });
    }
    Ok(())
}

} // verus!
