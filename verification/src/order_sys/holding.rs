//! Per-symbol position aggregate and lot-relief engine.
//!
//! A [`Holding`] owns every open and closed [`Lot`] for one symbol. It
//! prevents mixed long/short exposure, turns opening fills into lots, selects
//! which lots a closing fill relieves, and keeps an auditable close trail.
//!
//! Lot relief is a two-step process: build a close plan deciding which lot
//! quantities are consumed, then apply the plan to the lots.

use vstd::prelude::*;

use crate::decimal::{dec_add, dec_div, dec_mul, dec_sub, pow10, Dec};
use crate::order_sys::fill::{fill_valid, Fill, FillView};
use crate::order_sys::lot::{close_error, close_outcome, lot_is_open, lot_valid, Lot, LotClose, LotError, LotSide, LotView};
use crate::order_sys::order::{OrderSide, PositionEffect};
use crate::order_sys::{FillId, HoldingId, LotId, OrderId, Timestamp};
use crate::text::{is_blank, is_blank_spec, str_eq};

verus! {

/// Policy that decides which open lots are relieved first.
#[derive(Clone, Debug, PartialEq, Eq)]
pub enum LotReliefMethod {
    /// Oldest open lots first.
    Fifo,
    /// Newest open lots first.
    Lifo,
    /// Highest fee-adjusted cost basis first.
    Hifo,
    /// Lots with the worst estimated unit net PnL first.
    MaxLoss,
    /// Lots with the best estimated unit net PnL first.
    MaxGain,
    /// Follow the caller-provided lot order exactly.
    SpecificLot(Vec<LotId>),
    /// Pro-rate the close quantity across all currently open lots.
    AverageCost,
}

/// Abstract value of a lot-relief method.
pub enum ReliefView {
    Fifo,
    Lifo,
    Hifo,
    MaxLoss,
    MaxGain,
    SpecificLot(Seq<LotId>),
    AverageCost,
}

impl View for LotReliefMethod {
    type V = ReliefView;

    open spec fn view(&self) -> ReliefView {
        match self {
            LotReliefMethod::Fifo => ReliefView::Fifo,
            LotReliefMethod::Lifo => ReliefView::Lifo,
            LotReliefMethod::Hifo => ReliefView::Hifo,
            LotReliefMethod::MaxLoss => ReliefView::MaxLoss,
            LotReliefMethod::MaxGain => ReliefView::MaxGain,
            LotReliefMethod::SpecificLot(ids) => ReliefView::SpecificLot(ids@),
            LotReliefMethod::AverageCost => ReliefView::AverageCost,
        }
    }
}

impl LotReliefMethod {
    /// A copy with the same abstract value.
    pub fn duplicate(&self) -> (r: LotReliefMethod)
        ensures
            r@ == self@,
    {
        match self {
            LotReliefMethod::Fifo => LotReliefMethod::Fifo,
            LotReliefMethod::Lifo => LotReliefMethod::Lifo,
            LotReliefMethod::Hifo => LotReliefMethod::Hifo,
            LotReliefMethod::MaxLoss => LotReliefMethod::MaxLoss,
            LotReliefMethod::MaxGain => LotReliefMethod::MaxGain,
            LotReliefMethod::SpecificLot(ids) => {
                let mut out: Vec<LotId> = Vec::new();
                let mut i: usize = 0;
                while i < ids.len()
                    invariant
                        i <= ids.len(),
                        out@ == ids@.subrange(0, i as int),
                    decreases ids.len() - i,
                {
                    out.push(ids[i]);
                    i += 1;
                    assert(out@ =~= ids@.subrange(0, i as int));
                }
                assert(out@ =~= ids@);
                LotReliefMethod::SpecificLot(out)
            },
            LotReliefMethod::AverageCost => LotReliefMethod::AverageCost,
        }
    }
}

/// Errors raised while mutating a holding or building a close plan.
#[allow(inconsistent_fields)]
#[derive(Clone, Debug, PartialEq, Eq)]
pub enum HoldingError {
    /// The symbol string was empty or whitespace.
    EmptySymbol,
    /// A fill referenced a different symbol from the holding.
    SymbolMismatch { expected: String, actual: String },
    /// The caller attempted to mix long and short lots in one holding.
    MixedLotSide { expected: LotSide, actual: LotSide },
    /// The caller used a fill with the wrong position effect for the operation.
    PositionEffectMismatch { expected: PositionEffect, actual: PositionEffect },
    /// The fill side cannot close the currently open lot side.
    CloseSideMismatch { holding_side: LotSide, fill_side: OrderSide },
    /// A close was requested while the holding had no open lots.
    NoOpenLots { symbol: String },
    /// Requested close quantity exceeded total open quantity.
    CloseExceedsOpenQuantity { requested: Dec, available: Dec },
    /// The same fill was replayed into the holding twice.
    DuplicateFillId { fill_id: FillId },
    /// A new lot reused an identifier that already exists in the holding.
    DuplicateLotId { lot_id: LotId },
    /// A `SpecificLot` selection referenced a lot that does not exist here.
    UnknownLotId { lot_id: LotId },
    /// A `SpecificLot` selection referenced a lot that is already closed.
    LotNotOpen { lot_id: LotId },
    /// A `SpecificLot` selection listed the same lot more than once.
    DuplicateLotIdSelection { lot_id: LotId },
    /// The selected lots in `SpecificLot` did not cover the requested close.
    SpecificLotQuantityInsufficient { requested: Dec, available: Dec },
    /// Error bubbled up from an individual lot.
    Lot(LotError),
    /// A decimal result fell outside the range `rust_decimal` can hold.
    ArithmeticOverflow,
}

/// One realized lot match produced by a holding-level close.
#[derive(Clone, Copy, Debug, PartialEq, Eq)]
pub struct HoldingCloseMatch {
    /// Lot relieved by this match.
    pub lot_id: LotId,
    /// Side of the relieved lot.
    pub lot_side: LotSide,
    /// Lot-level close event produced by the match.
    pub close: LotClose,
}

/// Full result of applying one close fill to a holding.
#[derive(Clone, Debug, PartialEq, Eq)]
pub struct HoldingClose {
    pub symbol: String,
    pub close_order_id: OrderId,
    pub close_fill_id: FillId,
    pub closed_qty: Dec,
    pub close_price: Dec,
    pub close_fees: Dec,
    pub matches: Vec<HoldingCloseMatch>,
    pub total_realized_gross_pnl: Dec,
    pub total_realized_net_pnl: Dec,
    pub remaining_open_qty: Dec,
}

/// Point-in-time PnL snapshot for one holding at a given mark price.
///
/// `unrealized_net_pnl` subtracts only the still-unrealized part of open-side
/// fees; future exit fees are not predicted.
#[derive(Clone, Debug, PartialEq, Eq)]
pub struct HoldingPnl {
    pub symbol: String,
    pub side: Option<LotSide>,
    pub open_qty: Dec,
    pub mark_price: Dec,
    pub realized_gross_pnl: Dec,
    pub realized_net_pnl: Dec,
    pub unrealized_gross_pnl: Dec,
    pub unrealized_open_fees: Dec,
    pub unrealized_net_pnl: Dec,
}

/// One planned relief: quantity `qty` from the lot at index `lot_index`.
#[derive(Clone, Copy, Debug, PartialEq, Eq)]
pub struct ClosePlanEntry {
    pub lot_index: usize,
    pub qty: Dec,
}

/// Abstract state of a holding.
pub struct HoldingView {
    pub id: HoldingId,
    pub symbol: Seq<char>,
    pub lot_relief_method: ReliefView,
    pub lots: Seq<LotView>,
}

/// Per-symbol aggregate that owns all lots.
#[derive(Debug, PartialEq, Eq)]
pub struct Holding {
    id: HoldingId,
    symbol: String,
    lot_relief_method: LotReliefMethod,
    lots: Vec<Lot>,
}

/// Views of a sequence of lots.
pub open spec fn lot_views(lots: Seq<Lot>) -> Seq<LotView> {
    lots.map_values(|l: Lot| l@)
}

impl View for Holding {
    type V = HoldingView;

    closed spec fn view(&self) -> HoldingView {
        HoldingView {
            id: self.id,
            symbol: self.symbol@,
            lot_relief_method: self.lot_relief_method@,
            lots: lot_views(self.lots@),
        }
    }
}

/// Side of the first open lot, if any.
pub open spec fn first_open_side(lots: Seq<LotView>) -> Option<LotSide>
    decreases lots.len(),
{
    if lots.len() == 0 {
        None
    } else if lot_is_open(lots[0]) {
        Some(lots[0].side)
    } else {
        first_open_side(lots.drop_first())
    }
}

/// Invariant of every holding: a non-blank symbol, valid lots with distinct
/// identifiers, and all open lots on one side.
pub open spec fn holding_valid(h: HoldingView) -> bool {
    &&& !is_blank_spec(h.symbol)
    &&& forall|i: int| 0 <= i < h.lots.len() ==> lot_valid(#[trigger] h.lots[i])
    &&& forall|i: int, j: int|
        0 <= i < j < h.lots.len() ==> #[trigger] h.lots[i].id != #[trigger] h.lots[j].id
    &&& forall|i: int, j: int|
        0 <= i < h.lots.len() && 0 <= j < h.lots.len() && lot_is_open(h.lots[i]) && lot_is_open(h.lots[j])
            ==> #[trigger] h.lots[i].side == #[trigger] h.lots[j].side
}

/// Sum, in order, of `term(l)` over the lots selected by `selected`, as
/// repeated `rust_decimal` additions starting from zero; `None` on overflow.
pub open spec fn fold_sum(
    lots: Seq<LotView>,
    selected: spec_fn(LotView) -> bool,
    term: spec_fn(LotView) -> Option<Dec>,
) -> Option<Dec>
    decreases lots.len(),
{
    if lots.len() == 0 {
        Some(Dec::from_repr((0, 0)))
    } else {
        match fold_sum(lots.drop_last(), selected, term) {
            None => None,
            Some(acc) => if selected(lots.last()) {
                match term(lots.last()) {
                    Some(t) => dec_add(acc, t),
                    None => None,
                }
            } else {
                Some(acc)
            },
        }
    }
}

pub open spec fn all_lots() -> spec_fn(LotView) -> bool {
    |l: LotView| true
}

pub open spec fn open_lots() -> spec_fn(LotView) -> bool {
    |l: LotView| lot_is_open(l)
}

/// Total remaining quantity.
pub open spec fn open_qty_of(lots: Seq<LotView>) -> Option<Dec> {
    fold_sum(lots, all_lots(), |l: LotView| Some(l.remaining_qty))
}

/// Open fees of a lot not yet realized through closes.
pub open spec fn remaining_open_fees(l: LotView) -> Option<Dec> {
    dec_sub(l.open_fees, l.realized_open_fees)
}

/// Gross PnL of a lot's remaining quantity at `mark`.
pub open spec fn lot_unrealized_gross(l: LotView, mark: Dec) -> Option<Dec> {
    let diff = match l.side {
        LotSide::Long => dec_sub(mark, l.open_price),
        LotSide::Short => dec_sub(l.open_price, mark),
    };
    match diff {
        Some(d) => dec_mul(d, l.remaining_qty),
        None => None,
    }
}

/// Quantities summed over a holding's lots.
#[derive(Clone, Copy)]
pub enum LotTerm {
    /// Remaining quantity of every lot.
    Remaining,
    /// Closed quantity of every lot.
    Closed,
    /// Realized gross PnL of every lot.
    RealizedGross,
    /// Realized net PnL of every lot.
    RealizedNet,
    /// Gross PnL at the mark price of every open lot.
    UnrealizedGross(Dec),
    /// Unrealized open fees of every open lot.
    OpenFeesLeft,
}

/// Lots that contribute to a sum.
pub open spec fn term_selects(kind: LotTerm) -> spec_fn(LotView) -> bool {
    match kind {
        LotTerm::UnrealizedGross(_) => open_lots(),
        LotTerm::OpenFeesLeft => open_lots(),
        _ => all_lots(),
    }
}

/// What one lot contributes to a sum.
pub open spec fn term_value(kind: LotTerm) -> spec_fn(LotView) -> Option<Dec> {
    match kind {
        LotTerm::Remaining => |l: LotView| Some(l.remaining_qty),
        LotTerm::Closed => |l: LotView| dec_sub(l.original_qty, l.remaining_qty),
        LotTerm::RealizedGross => |l: LotView| Some(l.realized_gross_pnl),
        LotTerm::RealizedNet => |l: LotView| Some(l.realized_net_pnl),
        LotTerm::UnrealizedGross(mark) => |l: LotView| lot_unrealized_gross(l, mark),
        LotTerm::OpenFeesLeft => |l: LotView| remaining_open_fees(l),
    }
}

/// The sum of `kind` over `lots`.
pub open spec fn lots_sum(lots: Seq<LotView>, kind: LotTerm) -> Option<Dec> {
    fold_sum(lots, term_selects(kind), term_value(kind))
}

/// Number of open lots.
pub open spec fn open_lot_count_of(lots: Seq<LotView>) -> nat
    decreases lots.len(),
{
    if lots.len() == 0 {
        0
    } else {
        open_lot_count_of(lots.drop_last()) + if lot_is_open(lots.last()) { 1nat } else { 0nat }
    }
}

/// One step of a prefix fold.
pub proof fn lemma_fold_step(
    s: Seq<LotView>,
    i: int,
    sel: spec_fn(LotView) -> bool,
    term: spec_fn(LotView) -> Option<Dec>,
)
    requires
        0 <= i < s.len(),
    ensures
        fold_sum(s.take(i + 1), sel, term) == match fold_sum(s.take(i), sel, term) {
            None => None,
            Some(acc) => if sel(s[i]) {
                match term(s[i]) {
                    Some(t) => dec_add(acc, t),
                    None => None,
                }
            } else {
                Some(acc)
            },
        },
{
    assert(s.take(i + 1).drop_last() =~= s.take(i));
}

/// Exec counterpart of [`term_value`] for one lot.
fn term_of(kind: LotTerm, lot: &Lot) -> (r: Option<Dec>)
    ensures
        r == (term_value(kind))(lot@),
{
    match kind {
        LotTerm::Remaining => Some(lot.remaining_qty()),
        LotTerm::Closed => Some(lot.closed_qty()),
        LotTerm::RealizedGross => Some(lot.realized_gross_pnl()),
        LotTerm::RealizedNet => Some(lot.realized_net_pnl()),
        LotTerm::UnrealizedGross(mark) => {
            let diff = match lot.side() {
                LotSide::Long => mark.sub(lot.open_price()),
                LotSide::Short => lot.open_price().sub(mark),
            };
            match diff {
                Some(d) => d.mul(lot.remaining_qty()),
                None => None,
            }
        },
        LotTerm::OpenFeesLeft => lot.open_fees().sub(lot.realized_open_fees()),
    }
}

/// Exec counterpart of [`term_selects`] for one lot.
fn term_selected(kind: LotTerm, lot: &Lot) -> (r: bool)
    ensures
        r == (term_selects(kind))(lot@),
{
    match kind {
        LotTerm::UnrealizedGross(_) => lot.is_open(),
        LotTerm::OpenFeesLeft => lot.is_open(),
        _ => true,
    }
}

/// Sums `kind` over `lots` in order; `None` on overflow.
fn sum_lots(lots: &Vec<Lot>, kind: LotTerm) -> (r: Option<Dec>)
    ensures
        r == lots_sum(lot_views(lots@), kind),
{
    let ghost views = lot_views(lots@);
    let mut acc = Dec::zero();
    let mut i: usize = 0;
    assert(views.take(0) =~= Seq::<LotView>::empty());
    while i < lots.len()
        invariant
            i <= lots.len(),
            views == lot_views(lots@),
            lots_sum(views.take(i as int), kind) == Some(acc),
        decreases lots.len() - i,
    {
        proof {
            lemma_fold_step(views, i as int, term_selects(kind), term_value(kind));
        }
        if term_selected(kind, &lots[i]) {
            let t = match term_of(kind, &lots[i]) {
                Some(t) => t,
                None => {
                    proof {
                        lemma_fold_none_stays(views, i as int + 1, kind);
                    }
                    return None;
                },
            };
            match acc.add(t) {
                Some(v) => {
                    acc = v;
                },
                None => {
                    proof {
                        lemma_fold_none_stays(views, i as int + 1, kind);
                    }
                    return None;
                },
            }
        }
        i += 1;
    }
    assert(views.take(lots.len() as int) =~= views);
    Some(acc)
}

/// Once a prefix sum overflows, every longer prefix does too.
pub proof fn lemma_fold_none_stays(s: Seq<LotView>, i: int, kind: LotTerm)
    requires
        0 <= i <= s.len(),
        lots_sum(s.take(i), kind) is None,
    ensures
        lots_sum(s, kind) is None,
    decreases s.len() - i,
{
    if i < s.len() {
        lemma_fold_step(s, i, term_selects(kind), term_value(kind));
        lemma_fold_none_stays(s, i + 1, kind);
    } else {
        assert(s.take(i) =~= s);
    }
}

/// The fill `id` already opened a lot or appears in a lot's close trail.
pub open spec fn fill_applied(lots: Seq<LotView>, id: FillId) -> bool {
    exists|i: int| 0 <= i < lots.len() && #[trigger] lot_has_fill(lots[i], id)
}

/// The fill `id` opened the lot or appears in its close trail.
pub open spec fn lot_has_fill(l: LotView, id: FillId) -> bool {
    l.open_fill_id == id || exists|k: int| 0 <= k < l.close_events.len() && #[trigger] l.close_events[k].close_fill_id == id
}

/// Some lot carries the identifier `id`.
pub open spec fn has_lot_id(lots: Seq<LotView>, id: LotId) -> bool {
    exists|i: int| 0 <= i < lots.len() && #[trigger] lots[i].id == id
}

/// What `first_open_side` says about the open lots.
pub proof fn lemma_first_open_side(lots: Seq<LotView>)
    ensures
        first_open_side(lots) is None ==> forall|i: int| 0 <= i < lots.len() ==> !lot_is_open(#[trigger] lots[i]),
        first_open_side(lots) is Some ==> exists|i: int|
            0 <= i < lots.len() && lot_is_open(#[trigger] lots[i]) && lots[i].side == first_open_side(lots).unwrap(),
    decreases lots.len(),
{
    if lots.len() > 0 {
        lemma_first_open_side(lots.drop_first());
        if !lot_is_open(lots[0]) {
            if first_open_side(lots) is None {
                assert forall|i: int| 0 <= i < lots.len() implies !lot_is_open(#[trigger] lots[i]) by {
                    if i > 0 {
                        assert(lots[i] == lots.drop_first()[i - 1]);
                    }
                }
            } else {
                let j = choose|j: int|
                    0 <= j < lots.drop_first().len() && lot_is_open(#[trigger] lots.drop_first()[j])
                        && lots.drop_first()[j].side == first_open_side(lots.drop_first()).unwrap();
                assert(lots[j + 1] == lots.drop_first()[j]);
            }
        }
    }
}

/// The error `open_lot` reports for adding `lot`, if any.
pub open spec fn open_lot_error(lots: Seq<LotView>, lot: LotView) -> Option<HoldingError> {
    if has_lot_id(lots, lot.id) {
        Some(HoldingError::DuplicateLotId { lot_id: lot.id })
    } else if first_open_side(lots) is Some && first_open_side(lots).unwrap() != lot.side {
        Some(HoldingError::MixedLotSide { expected: first_open_side(lots).unwrap(), actual: lot.side })
    } else {
        None
    }
}

/// `e` is the error `open_lot_from_fill` reports before building the lot.
pub open spec fn open_fill_rejection(h: HoldingView, f: FillView, e: HoldingError) -> bool {
    if f.symbol != h.symbol {
        e matches HoldingError::SymbolMismatch { expected, actual } && expected@ == h.symbol && actual@ == f.symbol
    } else if fill_applied(h.lots, f.id) {
        e == HoldingError::DuplicateFillId { fill_id: f.id }
    } else if f.position_effect != PositionEffect::Open {
        e == HoldingError::PositionEffectMismatch { expected: PositionEffect::Open, actual: f.position_effect }
    } else {
        false
    }
}

/// The lot opened from an opening fill, as `Lot::open` builds it.
pub open spec fn lot_from_fill(lot_id: LotId, f: FillView) -> LotView {
    LotView {
        id: lot_id,
        side: match f.order_side {
            OrderSide::Buy => LotSide::Long,
            OrderSide::Sell => LotSide::Short,
        },
        opened_at: f.executed_at,
        updated_at: f.executed_at,
        closed_at: None,
        open_order_id: f.order_id,
        open_fill_id: f.id,
        original_qty: f.qty,
        remaining_qty: f.qty,
        open_price: f.price,
        open_fees: f.fees,
        open_gross_notional: dec_mul(f.qty, f.price).unwrap(),
        close_events: Seq::empty(),
        realized_gross_pnl: Dec::from_repr((0, 0)),
        realized_open_fees: Dec::from_repr((0, 0)),
        realized_close_fees: Dec::from_repr((0, 0)),
        realized_net_pnl: Dec::from_repr((0, 0)),
    }
}

/// `min(a, b)` as `Ord::min` picks it: `b` only when strictly smaller.
pub open spec fn dec_min(a: Dec, b: Dec) -> Dec {
    if b.value() < a.value() { b } else { a }
}

/// Indices of the open lots, in lot order.
pub open spec fn open_indices(lots: Seq<LotView>) -> Seq<usize>
    decreases lots.len(),
{
    if lots.len() == 0 {
        Seq::empty()
    } else if lot_is_open(lots.last()) {
        open_indices(lots.drop_last()).push((lots.len() - 1) as usize)
    } else {
        open_indices(lots.drop_last())
    }
}

/// The sequential plan: walk `order`, taking from each lot the smaller of its
/// remaining quantity and what is still to close, skipping zero takes, until
/// nothing is left to close.
pub open spec fn seq_plan(lots: Seq<LotView>, order: Seq<usize>, remaining: Dec) -> Seq<ClosePlanEntry>
    decreases order.len(),
{
    if order.len() == 0 || remaining.value() == 0 {
        Seq::empty()
    } else {
        let c = dec_min(remaining, lots[order[0] as int].remaining_qty);
        if c.value() == 0 {
            seq_plan(lots, order.drop_first(), remaining)
        } else {
            seq![ClosePlanEntry { lot_index: order[0], qty: c }].add(
                seq_plan(lots, order.drop_first(), dec_sub(remaining, c).unwrap()),
            )
        }
    }
}

/// Sort key of a lot: a primary decimal, then opening time and lot id.
#[derive(Clone, Copy)]
pub struct SortKey {
    pub primary: Dec,
    pub opened_at: Timestamp,
    pub id: u64,
}

/// `a` sorts strictly before `b`: by the primary value (descending when
/// `primary_desc`), then by `(opened_at, id)` (descending when `tie_desc`).
pub open spec fn key_before(a: SortKey, b: SortKey, primary_desc: bool, tie_desc: bool) -> bool {
    let (pa, pb) = if primary_desc { (b.primary.value(), a.primary.value()) } else { (a.primary.value(), b.primary.value()) };
    let (ta, tb) = if tie_desc { ((b.opened_at as int), (a.opened_at as int)) } else { ((a.opened_at as int), (b.opened_at as int)) };
    let (ia, ib) = if tie_desc { ((b.id as int), (a.id as int)) } else { ((a.id as int), (b.id as int)) };
    pa < pb || (pa == pb && (ta < tb || (ta == tb && ia < ib)))
}

/// `order` is sorted by the keys of its indices.
pub open spec fn sorted_by(order: Seq<usize>, keys: Seq<SortKey>, pd: bool, td: bool) -> bool {
    forall|i: int, j: int|
        0 <= i < j < order.len() ==> !key_before(keys[#[trigger] order[j] as int], keys[#[trigger] order[i] as int], pd, td)
}

/// `a` and `b` hold the same indices, each once.
pub open spec fn same_indices(a: Seq<usize>, b: Seq<usize>) -> bool {
    &&& a.len() == b.len()
    &&& a.no_duplicates()
    &&& a.to_set() == b.to_set()
}

/// Fee-adjusted open basis per unit: `open_price + remaining open fees / remaining qty`.
pub open spec fn fee_adjusted_basis(l: LotView) -> Option<Dec> {
    match remaining_open_fees(l) {
        Some(f) => match dec_div(f, l.remaining_qty) {
            Some(q) => dec_add(l.open_price, q),
            None => None,
        },
        None => None,
    }
}

/// Estimated unit net PnL of closing at `price`: unit gross PnL minus the
/// remaining open fees per unit.
pub open spec fn estimated_unit_net_pnl(l: LotView, price: Dec) -> Option<Dec> {
    let gross = match l.side {
        LotSide::Long => dec_sub(price, l.open_price),
        LotSide::Short => dec_sub(l.open_price, price),
    };
    match gross {
        Some(g) => match remaining_open_fees(l) {
            Some(f) => match dec_div(f, l.remaining_qty) {
                Some(q) => dec_sub(g, q),
                None => None,
            },
            None => None,
        },
        None => None,
    }
}

/// Primary sort value of a lot for a sorted relief method (`Hifo` uses the
/// fee-adjusted basis, `MaxLoss`/`MaxGain` the estimated unit net PnL).
pub open spec fn primary_key(l: LotView, hifo: bool, price: Dec) -> Option<Dec> {
    if hifo { fee_adjusted_basis(l) } else { estimated_unit_net_pnl(l, price) }
}

/// Sort keys of all lots (zero primary for closed lots or failed keys).
pub open spec fn key_seq(lots: Seq<LotView>, hifo: bool, price: Dec) -> Seq<SortKey> {
    Seq::new(
        lots.len(),
        |i: int| SortKey {
            primary: if lot_is_open(lots[i]) && primary_key(lots[i], hifo, price) is Some {
                primary_key(lots[i], hifo, price).unwrap()
            } else {
                Dec::from_repr((0, 0))
            },
            opened_at: lots[i].opened_at,
            id: lots[i].id.0,
        },
    )
}

/// Every open lot has a computable primary key.
pub open spec fn keys_ok(lots: Seq<LotView>, hifo: bool, price: Dec) -> bool {
    forall|i: int| 0 <= i < lots.len() && lot_is_open(lots[i]) ==> #[trigger] primary_key(lots[i], hifo, price) is Some
}

/// A fill view used only to carry a price and quantity into a spec.
pub open spec fn arbitrary_fill_view() -> FillView {
    arbitrary()
}

/// Exec counterpart of [`primary_key`].
fn lot_primary_key(lot: &Lot, hifo: bool, price: Dec) -> (r: Option<Dec>)
    ensures
        r == primary_key(lot@, hifo, price),
{
    let fees = lot.open_fees().sub(lot.realized_open_fees())?;
    if hifo {
        let per_unit = fees.div(lot.remaining_qty())?;
        lot.open_price().add(per_unit)
    } else {
        let gross = match lot.side() {
            LotSide::Long => price.sub(lot.open_price()),
            LotSide::Short => lot.open_price().sub(price),
        }?;
        let per_unit = fees.div(lot.remaining_qty())?;
        gross.sub(per_unit)
    }
}

/// The indices in reverse order.
fn reverse_indices(v: &Vec<usize>) -> (r: Vec<usize>)
    ensures
        r@ == v@.reverse(),
{
    let mut out: Vec<usize> = Vec::new();
    let mut i: usize = v.len();
    while i > 0
        invariant
            i <= v.len(),
            out@ == v@.subrange(i as int, v.len() as int).reverse(),
        decreases i,
    {
        i -= 1;
        out.push(v[i]);
        assert(out@ =~= v@.subrange(i as int, v.len() as int).reverse());
    }
    assert(v@.subrange(0, v.len() as int) =~= v@);
    out
}

/// Exec form of [`key_before`].
fn key_before_exec(a: &SortKey, b: &SortKey, primary_desc: bool, tie_desc: bool) -> (r: bool)
    ensures
        r == key_before(*a, *b, primary_desc, tie_desc),
{
    let (pa, pb) = if primary_desc { (b.primary, a.primary) } else { (a.primary, b.primary) };
    if pa.lt(&pb) {
        return true;
    }
    if !pa.num_eq(&pb) {
        return false;
    }
    let (ta, tb, ia, ib) = if tie_desc {
        (b.opened_at, a.opened_at, b.id, a.id)
    } else {
        (a.opened_at, b.opened_at, a.id, b.id)
    };
    ta < tb || (ta == tb && ia < ib)
}

/// Stable insertion sort of lot indices by their keys.
pub(crate) fn sort_indices(input: &Vec<usize>, keys: &Vec<SortKey>, primary_desc: bool, tie_desc: bool) -> (r: Vec<usize>)
    requires
        input@.no_duplicates(),
        forall|i: int| 0 <= i < input.len() ==> #[trigger] input@[i] < keys.len(),
    ensures
        same_indices(r@, input@),
        sorted_by(r@, keys@, primary_desc, tie_desc),
        forall|i: int| 0 <= i < r.len() ==> #[trigger] r@[i] < keys.len(),
{
    let mut out: Vec<usize> = Vec::new();
    let mut i: usize = 0;
    while i < input.len()
        invariant
            i <= input.len(),
            input@.no_duplicates(),
            forall|k: int| 0 <= k < input.len() ==> #[trigger] input@[k] < keys.len(),
            out.len() == i,
            out@.no_duplicates(),
            forall|v: usize| out@.contains(v) <==> input@.take(i as int).contains(v),
            sorted_by(out@, keys@, primary_desc, tie_desc),
            forall|k: int| 0 <= k < out.len() ==> #[trigger] out@[k] < keys.len(),
        decreases input.len() - i,
    {
        let x = input[i];
        let mut p: usize = 0;
        while p < out.len()
            invariant
                p <= out.len(),
                x < keys.len(),
                forall|k: int| 0 <= k < out.len() ==> #[trigger] out@[k] < keys.len(),
                forall|k: int| 0 <= k < p ==> !key_before(keys@[x as int], keys@[#[trigger] out@[k] as int], primary_desc, tie_desc),
            ensures
                p <= out.len(),
                forall|k: int| 0 <= k < p ==> !key_before(keys@[x as int], keys@[#[trigger] out@[k] as int], primary_desc, tie_desc),
                p < out.len() ==> key_before(keys@[x as int], keys@[out@[p as int] as int], primary_desc, tie_desc),
            decreases out.len() - p,
        {
            if key_before_exec(&keys[x], &keys[out[p]], primary_desc, tie_desc) {
                break;
            }
            p += 1;
        }
        let ghost old_out = out@;
        assert(forall|v: usize| old_out.contains(v) <==> input@.take(i as int).contains(v));
        proof {
            assert(!input@.take(i as int).contains(x)) by {
                if input@.take(i as int).contains(x) {
                    let k = choose|k: int| 0 <= k < i && input@.take(i as int)[k] == x;
                    assert(input@[k] == input@[i as int]);
                }
            }
            assert(input@.take(i + 1) =~= input@.take(i as int).push(x));
        }
        out.insert(p, x);
        proof {
            assert(out@ =~= old_out.insert(p as int, x));
            assert forall|v: usize| out@.contains(v) <==> input@.take(i + 1).contains(v) by {
                if out@.contains(v) && v != x {
                    let k = choose|k: int| 0 <= k < out@.len() && out@[k] == v;
                    if k < p {
                        assert(old_out[k] == v);
                    } else if k > p {
                        assert(old_out[k - 1] == v);
                    }
                    assert(old_out.contains(v));
                    assert(input@.take(i as int).contains(v));
                    let q = choose|q: int| 0 <= q < i && input@.take(i as int)[q] == v;
                    assert(input@.take(i + 1)[q] == v);
                }
                if input@.take(i + 1).contains(v) && v != x {
                    assert(input@.take(i as int).contains(v));
                    assert(old_out.contains(v));
                    let k = choose|k: int| 0 <= k < old_out.len() && old_out[k] == v;
                    if k < p {
                        assert(out@[k] == v);
                    } else {
                        assert(out@[k + 1] == v);
                    }
                }
                if v == x {
                    assert(out@[p as int] == x);
                    assert(input@.take(i + 1)[i as int] == x);
                }
            }
            assert(out@.no_duplicates()) by {
                assert forall|a: int, b: int| 0 <= a < b < out@.len() implies out@[a] != out@[b] by {
                    if a < p && b < p {
                    } else if a < p && b == p {
                        assert(old_out.contains(old_out[a]));
                    } else if a < p && b > p {
                    } else if a == p {
                        assert(old_out.contains(old_out[b - 1]));
                    } else {
                    }
                }
            }
            assert forall|a: int, b: int| 0 <= a < b < out@.len() implies !key_before(keys@[#[trigger] out@[b] as int], keys@[#[trigger] out@[a] as int], primary_desc, tie_desc) by {
                if a < p && b < p {
                    assert(out@[a] == old_out[a] && out@[b] == old_out[b]);
                } else if a < p && b == p {
                    assert(out@[a] == old_out[a]);
                } else if a < p && b > p {
                    assert(out@[a] == old_out[a] && out@[b] == old_out[b - 1]);
                } else if a == p {
                    assert(out@[b] == old_out[b - 1]);
                    if key_before(keys@[old_out[b - 1] as int], keys@[x as int], primary_desc, tie_desc) {
                        assert(key_before(keys@[x as int], keys@[old_out[p as int] as int], primary_desc, tie_desc));
                        assert(!key_before(keys@[old_out[b - 1] as int], keys@[old_out[p as int] as int], primary_desc, tie_desc));
                    }
                } else {
                    assert(out@[a] == old_out[a - 1] && out@[b] == old_out[b - 1]);
                }
            }
        }
        i += 1;
    }
    proof {
        assert(input@.take(input.len() as int) =~= input@);
        assert(out@.to_set() =~= input@.to_set());
    }
    out
}

/// Sum of the remaining quantities of the lots at `order`, in that order.
pub open spec fn index_sum(lots: Seq<LotView>, order: Seq<usize>) -> Option<Dec>
    decreases order.len(),
{
    if order.len() == 0 {
        Some(Dec::from_repr((0, 0)))
    } else {
        match index_sum(lots, order.drop_last()) {
            Some(acc) => dec_add(acc, lots[order.last() as int].remaining_qty),
            None => None,
        }
    }
}

/// The average-cost plan: each lot in `order` gets
/// `remaining_close * lot_qty / remaining_open`, the last one whatever is
/// left; zero shares are skipped; `None` when a step overflows.
pub open spec fn avg_plan(lots: Seq<LotView>, order: Seq<usize>, rc: Dec, ro: Dec) -> Option<Seq<ClosePlanEntry>>
    decreases order.len(),
{
    if order.len() == 0 || rc.value() == 0 {
        Some(Seq::empty())
    } else {
        let lot_qty = lots[order[0] as int].remaining_qty;
        let close = if order.len() == 1 {
            Some(rc)
        } else {
            match dec_mul(rc, lot_qty) {
                Some(p) => dec_div(p, ro),
                None => None,
            }
        };
        match close {
            None => None,
            Some(c) => if c.value() != 0 {
                match dec_sub(rc, c) {
                    None => None,
                    Some(rc2) => match dec_sub(ro, lot_qty) {
                        None => None,
                        Some(ro2) => match avg_plan(lots, order.drop_first(), rc2, ro2) {
                            Some(rest) => Some(seq![ClosePlanEntry { lot_index: order[0], qty: c }].add(rest)),
                            None => None,
                        },
                    },
                }
            } else {
                match dec_sub(ro, lot_qty) {
                    None => None,
                    Some(ro2) => avg_plan(lots, order.drop_first(), rc, ro2),
                }
            },
        }
    }
}

/// Index of the lot carrying `id` (unique in a valid holding).
pub open spec fn index_of_lot(lots: Seq<LotView>, id: LotId) -> int {
    choose|i: int| 0 <= i < lots.len() && lots[i].id == id
}

/// The `SpecificLot` plan from selection position `k` on: lots are taken in
/// the listed order; duplicates, unknown and closed lots are errors; the
/// result carries the plan, the quantity still to close and the quantity the
/// selection covers.
pub open spec fn specific_plan(
    lots: Seq<LotView>,
    ids: Seq<LotId>,
    k: int,
    remaining: Dec,
    available: Dec,
    plan: Seq<ClosePlanEntry>,
) -> Result<(Seq<ClosePlanEntry>, Dec, Dec), HoldingError>
    decreases ids.len() - k,
{
    if k < 0 || k >= ids.len() {
        Ok((plan, remaining, available))
    } else {
        let id = ids[k];
        if ids.take(k).contains(id) {
            Err(HoldingError::DuplicateLotIdSelection { lot_id: id })
        } else if !has_lot_id(lots, id) {
            Err(HoldingError::UnknownLotId { lot_id: id })
        } else {
            let idx = index_of_lot(lots, id);
            let lot = lots[idx];
            if !lot_is_open(lot) {
                Err(HoldingError::LotNotOpen { lot_id: id })
            } else {
                match dec_add(available, lot.remaining_qty) {
                    None => Err(HoldingError::ArithmeticOverflow),
                    Some(av) => if remaining.value() == 0 {
                        specific_plan(lots, ids, k + 1, remaining, av, plan)
                    } else {
                        let c = dec_min(remaining, lot.remaining_qty);
                        if c.value() == 0 {
                            specific_plan(lots, ids, k + 1, remaining, av, plan)
                        } else {
                            specific_plan(
                                lots,
                                ids,
                                k + 1,
                                dec_sub(remaining, c).unwrap(),
                                av,
                                plan.push(ClosePlanEntry { lot_index: idx as usize, qty: c }),
                            )
                        }
                    },
                }
            }
        }
    }
}

/// Result of `build_specific_lot_plan` for `ids` and `qty`.
pub open spec fn specific_lot_result(lots: Seq<LotView>, ids: Seq<LotId>, qty: Dec) -> Result<Seq<ClosePlanEntry>, HoldingError> {
    match specific_plan(lots, ids, 0, qty, Dec::from_repr((0, 0)), Seq::empty()) {
        Err(e) => Err(e),
        Ok((plan, remaining, available)) => if remaining.value() != 0 {
            Err(HoldingError::SpecificLotQuantityInsufficient { requested: qty, available })
        } else {
            Ok(plan)
        },
    }
}

/// Once a prefix of an index sum overflows, the whole sum does.
pub proof fn lemma_index_sum_none(lots: Seq<LotView>, order: Seq<usize>, j: int)
    requires
        0 <= j <= order.len(),
        index_sum(lots, order.take(j)) is None,
    ensures
        index_sum(lots, order) is None,
    decreases order.len() - j,
{
    if j < order.len() {
        assert(order.take(j + 1).drop_last() =~= order.take(j));
        lemma_index_sum_none(lots, order, j + 1);
    } else {
        assert(order.take(j) =~= order);
    }
}

/// `e` is the error the validations of a closing fill report.
pub open spec fn close_rejection(h: HoldingView, f: FillView, e: HoldingError) -> bool {
    if f.symbol != h.symbol {
        e matches HoldingError::SymbolMismatch { expected, actual } && expected@ == h.symbol && actual@ == f.symbol
    } else if fill_applied(h.lots, f.id) {
        e == HoldingError::DuplicateFillId { fill_id: f.id }
    } else if f.position_effect != PositionEffect::Close {
        e == HoldingError::PositionEffectMismatch { expected: PositionEffect::Close, actual: f.position_effect }
    } else if first_open_side(h.lots) is None {
        e matches HoldingError::NoOpenLots { symbol } && symbol@ == h.symbol
    } else if closing_side(f.order_side) != first_open_side(h.lots).unwrap() {
        e == HoldingError::CloseSideMismatch {
            holding_side: first_open_side(h.lots).unwrap(),
            fill_side: f.order_side,
        }
    } else if lots_sum(h.lots, LotTerm::Remaining) is None {
        e == HoldingError::ArithmeticOverflow
    } else if f.qty.value() > lots_sum(h.lots, LotTerm::Remaining).unwrap().value() {
        e == HoldingError::CloseExceedsOpenQuantity {
            requested: f.qty,
            available: lots_sum(h.lots, LotTerm::Remaining).unwrap(),
        }
    } else {
        false
    }
}

/// The lot side an order side closes.
pub open spec fn closing_side(s: OrderSide) -> LotSide {
    match s {
        OrderSide::Buy => LotSide::Short,
        OrderSide::Sell => LotSide::Long,
    }
}

/// All validations of a closing fill pass.
pub open spec fn close_accepted(h: HoldingView, f: FillView) -> bool {
    &&& f.symbol == h.symbol
    &&& !fill_applied(h.lots, f.id)
    &&& f.position_effect == PositionEffect::Close
    &&& first_open_side(h.lots) is Some
    &&& closing_side(f.order_side) == first_open_side(h.lots).unwrap()
    &&& lots_sum(h.lots, LotTerm::Remaining) is Some
    &&& f.qty.value() <= lots_sum(h.lots, LotTerm::Remaining).unwrap().value()
}

/// Outcome of a sorted relief method: an overflow when some open lot's key
/// overflows (and there are at least two lots to order), otherwise the
/// sequential plan over the open lots sorted by key.
pub open spec fn sorted_outcome(
    lots: Seq<LotView>,
    f: FillView,
    hifo: bool,
    pd: bool,
    td: bool,
    r: Result<Seq<ClosePlanEntry>, HoldingError>,
) -> bool {
    if open_indices(lots).len() >= 2 && !keys_ok(lots, hifo, f.price) {
        r == Err::<Seq<ClosePlanEntry>, HoldingError>(HoldingError::ArithmeticOverflow)
    } else {
        r is Ok && exists|order: Seq<usize>|
            same_indices(order, open_indices(lots)) && sorted_by(order, key_seq(lots, hifo, f.price), pd, td)
                && r.unwrap() == #[trigger] seq_plan(lots, order, f.qty)
    }
}

/// The plan (or error) each relief method produces for an accepted fill.
pub open spec fn plan_outcome(lots: Seq<LotView>, f: FillView, m: ReliefView, r: Result<Seq<ClosePlanEntry>, HoldingError>) -> bool {
    match m {
        ReliefView::Fifo => r == Ok::<Seq<ClosePlanEntry>, HoldingError>(seq_plan(lots, open_indices(lots), f.qty)),
        ReliefView::Lifo => r == Ok::<Seq<ClosePlanEntry>, HoldingError>(seq_plan(lots, open_indices(lots).reverse(), f.qty)),
        ReliefView::Hifo => sorted_outcome(lots, f, true, true, false, r),
        ReliefView::MaxLoss => sorted_outcome(lots, f, false, false, false, r),
        ReliefView::MaxGain => sorted_outcome(lots, f, false, true, true, r),
        ReliefView::SpecificLot(ids) => r == specific_lot_result(lots, ids, f.qty),
        ReliefView::AverageCost => match index_sum(lots, open_indices(lots)) {
            None => r == Err::<Seq<ClosePlanEntry>, HoldingError>(HoldingError::ArithmeticOverflow),
            Some(t) => match avg_plan(lots, open_indices(lots), f.qty, t) {
                None => r == Err::<Seq<ClosePlanEntry>, HoldingError>(HoldingError::ArithmeticOverflow),
                Some(p) => r == Ok::<Seq<ClosePlanEntry>, HoldingError>(p),
            },
        },
    }
}

pub open spec fn plan_result_view(r: Result<Vec<ClosePlanEntry>, HoldingError>) -> Result<Seq<ClosePlanEntry>, HoldingError> {
    match r {
        Ok(p) => Ok(p@),
        Err(e) => Err(e),
    }
}

/// Abstract value of a [`HoldingClose`].
pub struct HoldingCloseView {
    pub symbol: Seq<char>,
    pub close_order_id: OrderId,
    pub close_fill_id: FillId,
    pub closed_qty: Dec,
    pub close_price: Dec,
    pub close_fees: Dec,
    pub matches: Seq<HoldingCloseMatch>,
    pub total_realized_gross_pnl: Dec,
    pub total_realized_net_pnl: Dec,
    pub remaining_open_qty: Dec,
}

impl View for HoldingClose {
    type V = HoldingCloseView;

    open spec fn view(&self) -> HoldingCloseView {
        HoldingCloseView {
            symbol: self.symbol@,
            close_order_id: self.close_order_id,
            close_fill_id: self.close_fill_id,
            closed_qty: self.closed_qty,
            close_price: self.close_price,
            close_fees: self.close_fees,
            matches: self.matches@,
            total_realized_gross_pnl: self.total_realized_gross_pnl,
            total_realized_net_pnl: self.total_realized_net_pnl,
            remaining_open_qty: self.remaining_open_qty,
        }
    }
}

/// Progress of applying a close plan: the lots so far, the matches made, the
/// close fees not yet allocated, and the error that stopped it, if any.
pub struct PlanRun {
    pub lots: Seq<LotView>,
    pub matches: Seq<HoldingCloseMatch>,
    pub remaining_fees: Dec,
    pub error: Option<HoldingError>,
}

/// Close fees allocated to plan entry `k`: everything still unallocated for
/// the last entry, otherwise the pro-rata share `fees * qty / fill qty`.
pub open spec fn entry_close_fees(f: FillView, plan: Seq<ClosePlanEntry>, k: int, remaining: Dec) -> Option<Dec> {
    if k + 1 == plan.len() {
        Some(remaining)
    } else {
        match dec_mul(f.fees, plan[k].qty) {
            Some(p) => dec_div(p, f.qty),
            None => None,
        }
    }
}

/// State after applying the first `k` entries of `plan` for fill `f`: each
/// entry closes its lot at the fill price with its share of the close fees;
/// the first failure stops the run and leaves the lots as they were then.
pub open spec fn run_plan(lots: Seq<LotView>, plan: Seq<ClosePlanEntry>, f: FillView, k: nat) -> PlanRun
    decreases k,
{
    if k == 0 {
        PlanRun { lots, matches: Seq::empty(), remaining_fees: f.fees, error: None }
    } else {
        let prev = run_plan(lots, plan, f, (k - 1) as nat);
        let i = k - 1;
        if prev.error is Some || i >= plan.len() {
            prev
        } else {
            let e = plan[i];
            let l = prev.lots[e.lot_index as int];
            match entry_close_fees(f, plan, i, prev.remaining_fees) {
                None => PlanRun { error: Some(HoldingError::ArithmeticOverflow), ..prev },
                Some(a) => match dec_sub(prev.remaining_fees, a) {
                    None => PlanRun { error: Some(HoldingError::ArithmeticOverflow), ..prev },
                    Some(rest) => match close_error(l, f.executed_at, e.qty, f.price, a) {
                        Some(le) => PlanRun { error: Some(HoldingError::Lot(le)), ..prev },
                        None => match close_outcome(l, f.order_id, f.id, f.executed_at, e.qty, f.price, a) {
                            None => PlanRun { error: Some(HoldingError::Lot(LotError::ArithmeticOverflow)), ..prev },
                            Some(out) => PlanRun {
                                lots: prev.lots.update(e.lot_index as int, out.1),
                                matches: prev.matches.push(HoldingCloseMatch { lot_id: l.id, lot_side: l.side, close: out.0 }),
                                remaining_fees: rest,
                                error: None,
                            },
                        },
                    },
                },
            }
        }
    }
}

/// Sum, in order, of the realized gross (or, when `net`, net) PnL of the
/// matches; `None` on overflow.
pub open spec fn match_total(ms: Seq<HoldingCloseMatch>, net: bool) -> Option<Dec>
    decreases ms.len(),
{
    if ms.len() == 0 {
        Some(Dec::from_repr((0, 0)))
    } else {
        match match_total(ms.drop_last(), net) {
            None => None,
            Some(acc) => dec_add(
                acc,
                if net { ms.last().close.realized_net_pnl } else { ms.last().close.realized_gross_pnl },
            ),
        }
    }
}

/// Lots after applying `plan` to holding `h` for fill `f`, and the close
/// result (or the error that stopped it).
pub open spec fn plan_close_result(h: HoldingView, plan: Seq<ClosePlanEntry>, f: FillView) -> (Seq<LotView>, Result<HoldingCloseView, HoldingError>) {
    let run = run_plan(h.lots, plan, f, plan.len());
    (
        run.lots,
        match run.error {
            Some(e) => Err(e),
            None => match (match_total(run.matches, false), match_total(run.matches, true), lots_sum(run.lots, LotTerm::Remaining)) {
                (Some(g), Some(n), Some(q)) => Ok(
                    HoldingCloseView {
                        symbol: h.symbol,
                        close_order_id: f.order_id,
                        close_fill_id: f.id,
                        closed_qty: f.qty,
                        close_price: f.price,
                        close_fees: f.fees,
                        matches: run.matches,
                        total_realized_gross_pnl: g,
                        total_realized_net_pnl: n,
                        remaining_open_qty: q,
                    },
                ),
                _ => Err(HoldingError::ArithmeticOverflow),
            },
        },
    )
}

pub open spec fn close_result_view(r: Result<HoldingClose, HoldingError>) -> Result<HoldingCloseView, HoldingError> {
    match r {
        Ok(c) => Ok(c@),
        Err(e) => Err(e),
    }
}

/// Replacing an open lot by a valid lot with the same id and side keeps a
/// holding valid.
pub proof fn lemma_replace_lot_keeps_valid(h: HoldingView, idx: int, nl: LotView)
    requires
        holding_valid(h),
        0 <= idx < h.lots.len(),
        lot_is_open(h.lots[idx]),
        lot_valid(nl),
        nl.id == h.lots[idx].id,
        nl.side == h.lots[idx].side,
    ensures
        holding_valid(HoldingView { lots: h.lots.update(idx, nl), ..h }),
{
    let lots2 = h.lots.update(idx, nl);
    assert forall|i: int, j: int|
        0 <= i < lots2.len() && 0 <= j < lots2.len() && lot_is_open(lots2[i]) && lot_is_open(lots2[j])
            implies #[trigger] lots2[i].side == #[trigger] lots2[j].side by {
        let a = if i == idx { idx } else { i };
        let b = if j == idx { idx } else { j };
        assert(lot_is_open(h.lots[a]) && lot_is_open(h.lots[b]));
        assert(h.lots[a].side == h.lots[b].side);
    }
    assert forall|i: int, j: int| 0 <= i < j < lots2.len() implies #[trigger] lots2[i].id != #[trigger] lots2[j].id by {
        assert(h.lots[i].id != h.lots[j].id);
    }
}

/// Once a prefix of the matches overflows its total, the whole total does.
pub proof fn lemma_match_total_none(ms: Seq<HoldingCloseMatch>, j: int, net: bool)
    requires
        0 <= j <= ms.len(),
        match_total(ms.take(j), net) is None,
    ensures
        match_total(ms, net) is None,
    decreases ms.len() - j,
{
    if j < ms.len() {
        assert(ms.take(j + 1).drop_last() =~= ms.take(j));
        lemma_match_total_none(ms, j + 1, net);
    } else {
        assert(ms.take(j) =~= ms);
    }
}

/// A stopped plan run stays stopped: later steps change nothing.
pub proof fn lemma_run_plan_stays(lots: Seq<LotView>, plan: Seq<ClosePlanEntry>, f: FillView, k: nat, k2: nat)
    requires
        k <= k2,
        run_plan(lots, plan, f, k).error is Some,
    ensures
        run_plan(lots, plan, f, k2) == run_plan(lots, plan, f, k),
    decreases k2 - k,
{
    if k2 > k {
        lemma_run_plan_stays(lots, plan, f, k, (k2 - 1) as nat);
    }
}

/// The holding `h2` and result `r` are what carrying out plan outcome `pr`
/// for fill `f` on holding `h` gives: a plan error leaves the holding as it
/// was, a plan is applied to the lots.
pub open spec fn close_applied(
    h: HoldingView,
    f: FillView,
    pr: Result<Seq<ClosePlanEntry>, HoldingError>,
    h2: HoldingView,
    r: Result<HoldingCloseView, HoldingError>,
) -> bool {
    match pr {
        Err(e) => h2 == h && r == Err::<HoldingCloseView, HoldingError>(e),
        Ok(plan) => h2 == (HoldingView { lots: plan_close_result(h, plan, f).0, ..h }) && r == plan_close_result(h, plan, f).1,
    }
}

/// Outcome of closing fill `f` on holding `h` with relief method `m`: a
/// refused fill leaves the holding as it was and reports the rejection;
/// an accepted one applies the plan `m` gives.
pub open spec fn close_outcome_with(
    h: HoldingView,
    f: FillView,
    m: ReliefView,
    h2: HoldingView,
    r: Result<HoldingCloseView, HoldingError>,
) -> bool {
    if !close_accepted(h, f) {
        h2 == h && (r matches Err(e) && close_rejection(h, f, e))
    } else {
        exists|pr: Result<Seq<ClosePlanEntry>, HoldingError>| plan_outcome(h.lots, f, m, pr) && #[trigger] close_applied(h, f, pr, h2, r)
    }
}

/// Closing with a given relief method is deterministic and never changes
/// the holding's own method; in particular `close_with_fill_using` with the
/// holding's own method has the outcome of `close_with_fill`: the same new
/// holding, the same result when the fill is accepted, and the same
/// rejection (by [`close_rejection`]) when it is not.
pub proof fn law_close_with_method_is_deterministic(
    h: HoldingView,
    f: FillView,
    m: ReliefView,
    h1: HoldingView,
    r1: Result<HoldingCloseView, HoldingError>,
    h2: HoldingView,
    r2: Result<HoldingCloseView, HoldingError>,
)
    requires
        holding_valid(h),
        close_outcome_with(h, f, m, h1, r1),
        close_outcome_with(h, f, m, h2, r2),
    ensures
        h1 == h2,
        h1.lot_relief_method == h.lot_relief_method,
        close_accepted(h, f) ==> r1 == r2,
        !close_accepted(h, f) ==> (r1 matches Err(e1) && close_rejection(h, f, e1)) && (r2 matches Err(e2) && close_rejection(h, f, e2)),
{
    if close_accepted(h, f) {
        let p1 = choose|pr: Result<Seq<ClosePlanEntry>, HoldingError>| plan_outcome(h.lots, f, m, pr) && #[trigger] close_applied(h, f, pr, h1, r1);
        let p2 = choose|pr: Result<Seq<ClosePlanEntry>, HoldingError>| plan_outcome(h.lots, f, m, pr) && #[trigger] close_applied(h, f, pr, h2, r2);
        match m {
            ReliefView::Hifo => law_sorted_plan_is_unique(h, f, true, true, false, p1, p2),
            ReliefView::MaxLoss => law_sorted_plan_is_unique(h, f, false, false, false, p1, p2),
            ReliefView::MaxGain => law_sorted_plan_is_unique(h, f, false, true, true, p1, p2),
            _ => {},
        }
        assert(p1 == p2);
    }
}

/// Facts about [`open_indices`]: distinct, in range, and exactly the open lots.
pub proof fn lemma_open_indices(lots: Seq<LotView>)
    requires
        lots.len() <= usize::MAX,
    ensures
        open_indices(lots).no_duplicates(),
        forall|k: int| 0 <= k < open_indices(lots).len() ==> #[trigger] open_indices(lots)[k] < lots.len(),
        forall|j: usize| open_indices(lots).contains(j) <==> (j < lots.len() && lot_is_open(lots[j as int])),
        forall|k1: int, k2: int| 0 <= k1 < k2 < open_indices(lots).len() ==> #[trigger] open_indices(lots)[k1] < #[trigger] open_indices(lots)[k2],
    decreases lots.len(),
{
    if lots.len() > 0 {
        let prefix = lots.drop_last();
        lemma_open_indices(prefix);
        let op = open_indices(prefix);
        let o = open_indices(lots);
        if lot_is_open(lots.last()) {
            assert(o == op.push((lots.len() - 1) as usize));
            assert forall|k1: int, k2: int| 0 <= k1 < k2 < o.len() implies #[trigger] o[k1] < #[trigger] o[k2] by {
                if k2 < op.len() {
                    assert(o[k1] == op[k1] && o[k2] == op[k2]);
                } else {
                    assert(k2 == op.len());
                    assert(o[k2] == (lots.len() - 1) as usize);
                    assert(o[k1] == op[k1]);
                    assert(op[k1] < prefix.len());
                    assert(prefix.len() == lots.len() - 1);
                }
            }
            assert forall|k: int| 0 <= k < o.len() implies #[trigger] o[k] < lots.len() by {
                if k < op.len() {
                    assert(o[k] == op[k]);
                }
            }
        } else {
            assert(o == op);
        }
        assert forall|j: usize| o.contains(j) <==> (j < lots.len() && lot_is_open(lots[j as int])) by {
            if o.contains(j) {
                let k = choose|k: int| 0 <= k < o.len() && o[k] == j;
                if k < op.len() {
                    assert(o[k] == op[k]);
                    assert(op.contains(j));
                    assert(lots[j as int] == prefix[j as int]);
                } else {
                    assert(lot_is_open(lots.last()));
                }
            }
            if j < lots.len() && lot_is_open(lots[j as int]) {
                if j == lots.len() - 1 {
                    assert(o[o.len() - 1] == j);
                } else {
                    assert(lots[j as int] == prefix[j as int]);
                    assert(op.contains(j));
                    let k = choose|k: int| 0 <= k < op.len() && op[k] == j;
                    assert(o[k] == j);
                }
            }
        }
    }
}

/// A sequential plan (FIFO, LIFO and the sorted methods) only relieves lots
/// it walks over, never takes more from a lot than the lot still holds,
/// and never lists a zero quantity.
pub proof fn law_sequential_plan_respects_lots(lots: Seq<LotView>, order: Seq<usize>, remaining: Dec)
    ensures
        forall|k: int| 0 <= k < seq_plan(lots, order, remaining).len() ==> {
            let e = #[trigger] seq_plan(lots, order, remaining)[k];
            &&& order.contains(e.lot_index)
            &&& e.qty.value() != 0
            &&& e.qty.value() <= lots[e.lot_index as int].remaining_qty.value()
        },
    decreases order.len(),
{
    if order.len() == 0 || remaining.value() == 0 {
    } else {
        let rest = order.drop_first();
        let c = dec_min(remaining, lots[order[0] as int].remaining_qty);
        if c.value() == 0 {
            law_sequential_plan_respects_lots(lots, rest, remaining);
            assert forall|k: int| 0 <= k < seq_plan(lots, order, remaining).len() implies {
                let e = #[trigger] seq_plan(lots, order, remaining)[k];
                &&& order.contains(e.lot_index)
                &&& e.qty.value() != 0
                &&& e.qty.value() <= lots[e.lot_index as int].remaining_qty.value()
            } by {
                let e = seq_plan(lots, rest, remaining)[k];
                assert(rest.contains(e.lot_index));
                let j = choose|j: int| 0 <= j < rest.len() && rest[j] == e.lot_index;
                assert(order[j + 1] == e.lot_index);
            }
        } else {
            let r2 = dec_sub(remaining, c).unwrap();
            law_sequential_plan_respects_lots(lots, rest, r2);
            let tail = seq_plan(lots, rest, r2);
            let head = seq![ClosePlanEntry { lot_index: order[0], qty: c }];
            assert(seq_plan(lots, order, remaining) == head.add(tail));
            assert forall|k: int| 0 <= k < seq_plan(lots, order, remaining).len() implies {
                let e = #[trigger] seq_plan(lots, order, remaining)[k];
                &&& order.contains(e.lot_index)
                &&& e.qty.value() != 0
                &&& e.qty.value() <= lots[e.lot_index as int].remaining_qty.value()
            } by {
                if k == 0 {
                    assert(order[0] == order[0]);
                } else {
                    assert(head.add(tail)[k] == tail[k - 1]);
                    let e = tail[k - 1];
                    assert(rest.contains(e.lot_index));
                    let j = choose|j: int| 0 <= j < rest.len() && rest[j] == e.lot_index;
                    assert(order[j + 1] == e.lot_index);
                }
            }
        }
    }
}

/// Two orders of the same distinct indices, both sorted by keys whose
/// identifiers differ, are the same order.
pub proof fn lemma_sorted_order_unique(a: Seq<usize>, b: Seq<usize>, keys: Seq<SortKey>, pd: bool, td: bool)
    requires
        a.len() == b.len(),
        a.no_duplicates(),
        b.no_duplicates(),
        forall|x: usize| a.contains(x) <==> b.contains(x),
        forall|k: int| 0 <= k < a.len() ==> (#[trigger] a[k] as int) < keys.len(),
        forall|x: int, y: int| 0 <= x < keys.len() && 0 <= y < keys.len() && x != y ==> #[trigger] keys[x].id != #[trigger] keys[y].id,
        sorted_by(a, keys, pd, td),
        sorted_by(b, keys, pd, td),
    ensures
        a == b,
    decreases a.len(),
{
    if a.len() == 0 {
        assert(a =~= b);
    } else {
        assert(b.contains(a[0]));
        assert(a.contains(b[0]));
        let m = choose|m: int| 0 <= m < b.len() && b[m] == a[0];
        let n = choose|n: int| 0 <= n < a.len() && a[n] == b[0];
        if a[0] != b[0] {
            assert(m > 0 && n > 0);
            assert(!key_before(keys[b[m] as int], keys[b[0] as int], pd, td));
            assert(!key_before(keys[a[n] as int], keys[a[0] as int], pd, td));
            assert(b[0] < keys.len()) by {
                assert(a[n] < keys.len());
            }
            assert(keys[a[0] as int].id != keys[b[0] as int].id);
        }
        let a2 = a.drop_first();
        let b2 = b.drop_first();
        assert forall|x: usize| a2.contains(x) <==> b2.contains(x) by {
            if a2.contains(x) {
                let k = choose|k: int| 0 <= k < a2.len() && a2[k] == x;
                assert(a[k + 1] == x && a[0] != x);
                assert(a.contains(x));
                let j = choose|j: int| 0 <= j < b.len() && b[j] == x;
                assert(j != 0);
                assert(b2[j - 1] == x);
            }
            if b2.contains(x) {
                let k = choose|k: int| 0 <= k < b2.len() && b2[k] == x;
                assert(b[k + 1] == x && b[0] != x);
                assert(b.contains(x));
                let j = choose|j: int| 0 <= j < a.len() && a[j] == x;
                assert(j != 0);
                assert(a2[j - 1] == x);
            }
        }
        assert forall|i: int, j: int| 0 <= i < j < a2.len() implies a2[i] != a2[j] by {
            assert(a2[i] == a[i + 1] && a2[j] == a[j + 1]);
        }
        assert forall|i: int, j: int| 0 <= i < j < b2.len() implies b2[i] != b2[j] by {
            assert(b2[i] == b[i + 1] && b2[j] == b[j + 1]);
        }
        assert forall|i: int, j: int|
            0 <= i < j < a2.len() implies !key_before(keys[#[trigger] a2[j] as int], keys[#[trigger] a2[i] as int], pd, td) by {
            assert(a2[i] == a[i + 1] && a2[j] == a[j + 1]);
        }
        assert forall|i: int, j: int|
            0 <= i < j < b2.len() implies !key_before(keys[#[trigger] b2[j] as int], keys[#[trigger] b2[i] as int], pd, td) by {
            assert(b2[i] == b[i + 1] && b2[j] == b[j + 1]);
        }
        assert forall|k: int| 0 <= k < a2.len() implies (#[trigger] a2[k] as int) < keys.len() by {
            assert(a2[k] == a[k + 1]);
        }
        lemma_sorted_order_unique(a2, b2, keys, pd, td);
        assert(a =~= b) by {
            assert forall|k: int| 0 <= k < a.len() implies a[k] == b[k] by {
                if k > 0 {
                    assert(a[k] == a2[k - 1] && b[k] == b2[k - 1]);
                }
            }
        }
    }
}

/// A sorted relief method (HIFO, max-loss, max-gain) yields exactly one
/// plan: the open lots are ordered by their key without ties, since lot
/// identifiers differ.
pub proof fn law_sorted_plan_is_unique(
    h: HoldingView,
    f: FillView,
    hifo: bool,
    pd: bool,
    td: bool,
    r1: Result<Seq<ClosePlanEntry>, HoldingError>,
    r2: Result<Seq<ClosePlanEntry>, HoldingError>,
)
    requires
        holding_valid(h),
        sorted_outcome(h.lots, f, hifo, pd, td, r1),
        sorted_outcome(h.lots, f, hifo, pd, td, r2),
    ensures
        r1 == r2,
{
    if !(open_indices(h.lots).len() >= 2 && !keys_ok(h.lots, hifo, f.price)) {
        let keys = key_seq(h.lots, hifo, f.price);
        let oi = open_indices(h.lots);
        let a = choose|order: Seq<usize>|
            same_indices(order, oi) && sorted_by(order, keys, pd, td) && r1.unwrap() == #[trigger] seq_plan(h.lots, order, f.qty);
        let b = choose|order: Seq<usize>|
            same_indices(order, oi) && sorted_by(order, keys, pd, td) && r2.unwrap() == #[trigger] seq_plan(h.lots, order, f.qty);
        assert forall|x: usize| a.contains(x) <==> b.contains(x) by {
            assert(a.to_set().contains(x) == a.contains(x));
            assert(b.to_set().contains(x) == b.contains(x));
            assert(oi.to_set().contains(x) == oi.contains(x));
        }
        assert forall|k: int| 0 <= k < a.len() implies (#[trigger] a[k] as int) < keys.len() by {
            assert(a.contains(a[k]));
            assert(a.to_set().contains(a[k]));
            assert(oi.contains(a[k]));
            let m = choose|m: int| 0 <= m < oi.len() && oi[m] == a[k];
            lemma_open_indices_in_range(h.lots, m);
        }
        assert forall|x: int, y: int| 0 <= x < keys.len() && 0 <= y < keys.len() && x != y implies #[trigger] keys[x].id
            != #[trigger] keys[y].id by {
            if x < y {
                assert(h.lots[x].id != h.lots[y].id);
            } else {
                assert(h.lots[y].id != h.lots[x].id);
            }
        }
        lemma_sorted_order_unique(a, b, keys, pd, td);
    }
}

/// Every entry of [`open_indices`] is a position of `lots`.
pub proof fn lemma_open_indices_in_range(lots: Seq<LotView>, m: int)
    requires
        0 <= m < open_indices(lots).len(),
    ensures
        open_indices(lots)[m] < lots.len(),
    decreases lots.len(),
{
    let p = lots.drop_last();
    if lot_is_open(lots.last()) {
        if m < open_indices(p).len() {
            lemma_open_indices_in_range(p, m);
        }
    } else {
        lemma_open_indices_in_range(p, m);
    }
}

/// Exact sum of the remaining quantities of the lots at the positions in
/// `order`.
pub open spec fn order_remaining_value(lots: Seq<LotView>, order: Seq<usize>) -> int
    decreases order.len(),
{
    if order.len() == 0 {
        0
    } else {
        lots[order[0] as int].remaining_qty.value() + order_remaining_value(lots, order.drop_first())
    }
}

/// The share of the first lot of `order` in an average-cost plan that
/// still has `rc` to close out of `ro` open: everything left for the last
/// lot, otherwise `rc * lot / ro` as `rust_decimal` computes it.
pub open spec fn avg_share(lots: Seq<LotView>, order: Seq<usize>, rc: Dec, ro: Dec) -> Option<Dec> {
    if order.len() == 1 {
        Some(rc)
    } else {
        match dec_mul(rc, lots[order[0] as int].remaining_qty) {
            Some(p) => dec_div(p, ro),
            None => None,
        }
    }
}

/// No decimal step of the average-cost plan over `order` has to round:
/// every product, quotient and difference it takes is exact.
pub open spec fn avg_plan_exact(lots: Seq<LotView>, order: Seq<usize>, rc: Dec, ro: Dec) -> bool
    decreases order.len(),
{
    if order.len() == 0 || rc.value() == 0 {
        true
    } else {
        let l = lots[order[0] as int].remaining_qty;
        &&& order.len() > 1 ==> {
            &&& dec_mul(rc, l) is Some
            &&& dec_mul(rc, l).unwrap().value() * pow10(28) == rc.value() * l.value()
            &&& dec_div(dec_mul(rc, l).unwrap(), ro) is Some
            &&& dec_div(dec_mul(rc, l).unwrap(), ro).unwrap().value() * ro.value() == dec_mul(rc, l).unwrap().value() * pow10(28)
        }
        &&& avg_share(lots, order, rc, ro) is Some
        &&& dec_sub(rc, avg_share(lots, order, rc, ro).unwrap()) is Some
        &&& dec_sub(rc, avg_share(lots, order, rc, ro).unwrap()).unwrap().value() == rc.value() - avg_share(lots, order, rc, ro).unwrap().value()
        &&& dec_sub(ro, l) is Some
        &&& dec_sub(ro, l).unwrap().value() == ro.value() - l.value()
        &&& avg_plan_exact(lots, order.drop_first(), dec_sub(rc, avg_share(lots, order, rc, ro).unwrap()).unwrap(), dec_sub(ro, l).unwrap())
    }
}

/// `c * ro == rc * l` and `rc2 * ro == (rc - c) * ro` give `rc2 * ro2 == ...`:
/// the close-to-open ratio is kept from one lot to the next.
proof fn lemma_ratio_kept(e: int, le: int, c: int, l: int, rc: int, ro: int)
    by (nonlinear_arith)
    requires
        c * ro == rc * l,
        ro - l > 0,
        e * (ro - l) == (rc - c) * le,
    ensures
        e * ro == rc * le,
{
    assert((rc - c) * ro == rc * (ro - l));
    assert(e * (ro - l) * ro == (rc - c) * ro * le);
    assert(e * ro * (ro - l) == rc * le * (ro - l));
}

/// `c * ro == rc * l` with `0 < l < ro` and `rc > 0` leaves `0 < c < rc`.
proof fn lemma_share_between(c: int, l: int, rc: int, ro: int)
    by (nonlinear_arith)
    requires
        c * ro == rc * l,
        0 < l < ro,
        rc > 0,
    ensures
        0 < c < rc,
{
}

/// When no decimal step rounds, the average-cost plan over open lots closes
/// from every lot, in order, the share of the requested quantity that its
/// remaining quantity holds of the total still open: each lot's close
/// quantity times the total open quantity is the requested quantity times
/// that lot's remaining quantity.
pub proof fn law_average_cost_is_pro_rata(lots: Seq<LotView>, order: Seq<usize>, rc: Dec, ro: Dec)
    requires
        forall|k: int| 0 <= k < order.len() ==> (#[trigger] order[k] as int) < lots.len() && lots[order[k] as int].remaining_qty.value() > 0,
        ro.value() == order_remaining_value(lots, order),
        rc.value() >= 0,
        avg_plan_exact(lots, order, rc, ro),
    ensures
        avg_plan(lots, order, rc, ro) is Some,
        forall|k: int|
            0 <= k < avg_plan(lots, order, rc, ro).unwrap().len() ==> (#[trigger] avg_plan(lots, order, rc, ro).unwrap()[k]).qty.value()
                * ro.value() == rc.value() * lots[avg_plan(lots, order, rc, ro).unwrap()[k].lot_index as int].remaining_qty.value(),
        rc.value() > 0 ==> avg_plan(lots, order, rc, ro).unwrap().len() == order.len(),
        rc.value() > 0 ==> forall|k: int| 0 <= k < order.len() ==> #[trigger] avg_plan(lots, order, rc, ro).unwrap()[k].lot_index == order[k],
    decreases order.len(),
{
    if order.len() == 0 || rc.value() == 0 {
    } else {
        let l = lots[order[0] as int].remaining_qty;
        let rest = order.drop_first();
        assert(order[0] == order[0]);
        let c = avg_share(lots, order, rc, ro).unwrap();
        let rc2 = dec_sub(rc, c).unwrap();
        let ro2 = dec_sub(ro, l).unwrap();
        assert forall|k: int| 0 <= k < rest.len() implies (#[trigger] rest[k] as int) < lots.len() && lots[rest[k] as int].remaining_qty.value() > 0 by {
            assert(rest[k] == order[k + 1]);
        }
        if order.len() == 1 {
            assert(order_remaining_value(lots, rest) == 0);
            assert(c == rc);
        } else {
            let p = dec_mul(rc, l).unwrap();
            assert(c.value() * ro.value() == rc.value() * l.value());
            assert(rest.len() > 0);
            assert(rest[0] == order[1]);
            assert(order_remaining_value(lots, rest) >= lots[rest[0] as int].remaining_qty.value()) by {
                lemma_order_remaining_nonneg(lots, rest.drop_first());
            }
            lemma_share_between(c.value(), l.value(), rc.value(), ro.value());
        }
        law_average_cost_is_pro_rata(lots, rest, rc2, ro2);
        let tail = avg_plan(lots, rest, rc2, ro2).unwrap();
        let head = seq![ClosePlanEntry { lot_index: order[0], qty: c }];
        assert(avg_plan(lots, order, rc, ro) == Some(head.add(tail)));
        let plan = head.add(tail);
        assert forall|k: int| 0 <= k < plan.len() implies (#[trigger] plan[k]).qty.value() * ro.value() == rc.value()
            * lots[plan[k].lot_index as int].remaining_qty.value() by {
            if k == 0 {
                if order.len() == 1 {
                    assert(ro.value() == l.value());
                }
            } else {
                assert(plan[k] == tail[k - 1]);
                let e = tail[k - 1];
                lemma_ratio_kept(e.qty.value(), lots[e.lot_index as int].remaining_qty.value(), c.value(), l.value(), rc.value(), ro.value());
            }
        }
        if order.len() > 1 {
            assert forall|k: int| 0 <= k < order.len() implies #[trigger] plan[k].lot_index == order[k] by {
                if k > 0 {
                    assert(plan[k] == tail[k - 1]);
                    assert(rest[k - 1] == order[k]);
                }
            }
        } else {
            assert(tail.len() == 0);
        }
    }
}

/// The remaining quantities of valid lots add up to a non-negative amount.
proof fn lemma_order_remaining_nonneg(lots: Seq<LotView>, order: Seq<usize>)
    requires
        forall|k: int| 0 <= k < order.len() ==> (#[trigger] order[k] as int) < lots.len() && lots[order[k] as int].remaining_qty.value() > 0,
    ensures
        order_remaining_value(lots, order) >= 0,
    decreases order.len(),
{
    if order.len() > 0 {
        let rest = order.drop_first();
        assert forall|k: int| 0 <= k < rest.len() implies (#[trigger] rest[k] as int) < lots.len() && lots[rest[k] as int].remaining_qty.value() > 0 by {
            assert(rest[k] == order[k + 1]);
        }
        lemma_order_remaining_nonneg(lots, rest);
    }
}

/// Every entry of [`open_indices`] names an open lot.
pub proof fn lemma_open_indices_open(lots: Seq<LotView>, m: int)
    requires
        lots.len() <= usize::MAX,
        0 <= m < open_indices(lots).len(),
    ensures
        open_indices(lots)[m] < lots.len(),
        lot_is_open(lots[open_indices(lots)[m] as int]),
    decreases lots.len(),
{
    let p = lots.drop_last();
    if lot_is_open(lots.last()) {
        assert(open_indices(lots) == open_indices(p).push((lots.len() - 1) as usize));
        if m == open_indices(p).len() {
            assert(open_indices(lots)[m] == (lots.len() - 1) as usize);
        } else {
            lemma_open_indices_open(p, m);
            assert(open_indices(lots)[m] == open_indices(p)[m]);
            assert(lots[open_indices(p)[m] as int] == p[open_indices(p)[m] as int]);
        }
    } else {
        lemma_open_indices_open(p, m);
        assert(lots[open_indices(p)[m] as int] == p[open_indices(p)[m] as int]);
    }
}

/// When no decimal step rounds, closing with `AverageCost` relieves every
/// open lot of the holding, in lot order, by the share of the fill
/// quantity that the lot's remaining quantity holds of the total open
/// quantity.
pub proof fn law_average_cost_plan_is_pro_rata(h: HoldingView, f: FillView, r: Result<Seq<ClosePlanEntry>, HoldingError>)
    requires
        holding_valid(h),
        h.lots.len() <= usize::MAX,
        plan_outcome(h.lots, f, ReliefView::AverageCost, r),
        f.qty.value() > 0,
        index_sum(h.lots, open_indices(h.lots)) is Some,
        index_sum(h.lots, open_indices(h.lots)).unwrap().value() == order_remaining_value(h.lots, open_indices(h.lots)),
        avg_plan_exact(h.lots, open_indices(h.lots), f.qty, index_sum(h.lots, open_indices(h.lots)).unwrap()),
    ensures
        r is Ok,
        r.unwrap().len() == open_indices(h.lots).len(),
        forall|k: int| 0 <= k < r.unwrap().len() ==> #[trigger] r.unwrap()[k].lot_index == open_indices(h.lots)[k],
        forall|k: int|
            0 <= k < r.unwrap().len() ==> (#[trigger] r.unwrap()[k]).qty.value() * order_remaining_value(h.lots, open_indices(h.lots))
                == f.qty.value() * h.lots[r.unwrap()[k].lot_index as int].remaining_qty.value(),
{
    let oi = open_indices(h.lots);
    assert forall|k: int| 0 <= k < oi.len() implies (#[trigger] oi[k] as int) < h.lots.len() && h.lots[oi[k] as int].remaining_qty.value() > 0 by {
        lemma_open_indices_open(h.lots, k);
        assert(lot_valid(h.lots[oi[k] as int]));
    }
    let t = index_sum(h.lots, oi).unwrap();
    law_average_cost_is_pro_rata(h.lots, oi, f.qty, t);
}

impl Holding {
    #[verifier::type_invariant]
    closed spec fn inv(self) -> bool {
        holding_valid(self@)
    }

    /// Every holding satisfies [`holding_valid`].
    pub fn lemma_valid(&self)
        ensures
            holding_valid(self@),
    {
        proof {
            use_type_invariant(self);
        }
    }

    /// Creates a new empty holding for one symbol.
    pub fn new(id: HoldingId, symbol: &str, lot_relief_method: LotReliefMethod) -> (r: Result<Holding, HoldingError>)
        ensures
            is_blank_spec(symbol@) ==> r == Err::<Holding, HoldingError>(HoldingError::EmptySymbol),
            !is_blank_spec(symbol@) ==> r is Ok && r.unwrap()@ == (HoldingView {
                id,
                symbol: symbol@,
                lot_relief_method: lot_relief_method@,
                lots: Seq::empty(),
            }),
    {
        if is_blank(symbol) {
            return Err(HoldingError::EmptySymbol);
        }
        let h = Holding { id, symbol: symbol.to_owned(), lot_relief_method, lots: Vec::new() };
        assert(lot_views(h.lots@) =~= Seq::empty());
        Ok(h)
    }

    /// Returns the holding identifier.
    pub fn id(&self) -> (r: HoldingId)
        ensures
            r == self@.id,
    {
        self.id
    }

    /// Returns the symbol represented by the holding.
    pub fn symbol(&self) -> (r: &str)
        ensures
            r@ == self@.symbol,
    {
        self.symbol.as_str()
    }

    /// Returns the default lot-relief method.
    pub fn lot_relief_method(&self) -> (r: &LotReliefMethod)
        ensures
            r@ == self@.lot_relief_method,
    {
        &self.lot_relief_method
    }

    /// Replaces the default lot-relief method used by `close_with_fill`.
    pub fn set_lot_relief_method(&mut self, lot_relief_method: LotReliefMethod)
        ensures
            final(self)@ == (HoldingView { lot_relief_method: lot_relief_method@, ..old(self)@ }),
    {
        proof {
            use_type_invariant(&*self);
        }
        self.lot_relief_method = lot_relief_method;
    }

    /// Returns all lots, including closed historical lots.
    pub fn lots(&self) -> (r: &[Lot])
        ensures
            lot_views(r@) == self@.lots,
    {
        self.lots.as_slice()
    }

    /// Returns the side of the currently open exposure, if any.
    pub fn side(&self) -> (r: Option<LotSide>)
        ensures
            r == first_open_side(self@.lots),
    {
        let ghost views = self@.lots;
        let mut i: usize = 0;
        assert(views.skip(0) =~= views);
        while i < self.lots.len()
            invariant
                i <= self.lots.len(),
                views == lot_views(self.lots@),
                first_open_side(views) == first_open_side(views.skip(i as int)),
            decreases self.lots.len() - i,
        {
            assert(views.skip(i as int).drop_first() =~= views.skip(i + 1));
            if self.lots[i].is_open() {
                return Some(self.lots[i].side());
            }
            i += 1;
        }
        assert(views.skip(i as int) =~= Seq::<LotView>::empty());
        None
    }

    /// Inserts a pre-built lot. Duplicate lot identifiers and lots on the
    /// side opposite to the currently open exposure are refused; closed lots
    /// do not determine the side.
    pub fn open_lot(&mut self, lot: Lot) -> (r: Result<&Lot, HoldingError>)
        ensures
            open_lot_error(old(self)@.lots, lot@) matches Some(e) ==> r == Err::<&Lot, HoldingError>(e) && final(self)@ == old(self)@,
            open_lot_error(old(self)@.lots, lot@) is None ==> r is Ok && r.unwrap()@ == lot@ && final(self)@ == (HoldingView { lots: old(self)@.lots.push(lot@), ..old(self)@ }),
    {
        proof {
            use_type_invariant(&*self);
        }
        lot.lemma_valid();
        let ghost views = self@.lots;
        let mut i: usize = 0;
        while i < self.lots.len()
            invariant
                i <= self.lots.len(),
                views == lot_views(self.lots@),
                forall|k: int| 0 <= k < i ==> views[k].id != lot@.id,
            decreases self.lots.len() - i,
        {
            assert(views[i as int] == self.lots@[i as int]@);
            if self.lots[i].id() == lot.id() {
                assert(views[i as int].id == lot@.id);
                return Err(HoldingError::DuplicateLotId { lot_id: lot.id() });
            }
            i += 1;
        }
        if let Some(existing_side) = self.side() {
            if existing_side != lot.side() {
                return Err(HoldingError::MixedLotSide { expected: existing_side, actual: lot.side() });
            }
        }
        proof {
            lemma_first_open_side(views);
        }
        let mut lots: Vec<Lot> = Vec::new();
        std::mem::swap(&mut lots, &mut self.lots);
        lots.push(lot);
        proof {
            assert(lot_views(lots@) =~= views.push(lot@));
        }
        self.lots = lots;
        let last = self.lots.len() - 1;
        Ok(&self.lots[last])
    }

    /// Converts one opening fill into a new lot and appends it.
    pub fn open_lot_from_fill(&mut self, lot_id: LotId, fill: &Fill) -> (r: Result<&Lot, HoldingError>)
        ensures
            r is Err ==> final(self)@ == old(self)@,
            !(fill@.symbol == old(self)@.symbol && !fill_applied(old(self)@.lots, fill@.id) && fill@.position_effect == PositionEffect::Open) ==> (r matches Err(e) && open_fill_rejection(old(self)@, fill@, e)),
            fill@.symbol == old(self)@.symbol && !fill_applied(old(self)@.lots, fill@.id) && fill@.position_effect == PositionEffect::Open ==> {
                &&& dec_mul(fill@.qty, fill@.price) is None ==> r == Err::<&Lot, HoldingError>(HoldingError::Lot(LotError::ArithmeticOverflow))
                &&& dec_mul(fill@.qty, fill@.price) is Some ==> {
                    &&& open_lot_error(old(self)@.lots, lot_from_fill(lot_id, fill@)) matches Some(e) ==> r == Err::<&Lot, HoldingError>(e)
                    &&& open_lot_error(old(self)@.lots, lot_from_fill(lot_id, fill@)) is None ==> r is Ok && r.unwrap()@ == lot_from_fill(lot_id, fill@) && final(self)@ == (HoldingView { lots: old(self)@.lots.push(lot_from_fill(lot_id, fill@)), ..old(self)@ })
                }
            },
    {
        fill.lemma_valid();
        self.ensure_symbol_matches(fill.symbol())?;
        self.ensure_fill_not_applied(fill.id())?;
        if fill.position_effect() != PositionEffect::Open {
            return Err(
                HoldingError::PositionEffectMismatch { expected: PositionEffect::Open, actual: fill.position_effect() },
            );
        }
        let lot_side = fill.order_side().to_open_lot_side();
        let lot = match Lot::open(
            lot_id,
            lot_side,
            fill.order_id(),
            fill.id(),
            fill.executed_at(),
            fill.qty(),
            fill.price(),
            fill.fees(),
        ) {
            Ok(lot) => lot,
            Err(e) => return Err(HoldingError::Lot(e)),
        };
        self.open_lot(lot)
    }

    /// Validates that an incoming symbol belongs to this holding.
    fn ensure_symbol_matches(&self, symbol: &str) -> (r: Result<(), HoldingError>)
        ensures
            symbol@ == self@.symbol ==> r is Ok,
            symbol@ != self@.symbol ==> (r matches Err(HoldingError::SymbolMismatch { expected, actual }) && expected@ == self@.symbol && actual@ == symbol@),
    {
        if !str_eq(self.symbol.as_str(), symbol) {
            return Err(HoldingError::SymbolMismatch { expected: self.symbol.clone(), actual: symbol.to_owned() });
        }
        Ok(())
    }

    /// Rejects duplicate open or close fill replays.
    fn ensure_fill_not_applied(&self, fill_id: FillId) -> (r: Result<(), HoldingError>)
        ensures
            fill_applied(self@.lots, fill_id) ==> r == Err::<(), HoldingError>(HoldingError::DuplicateFillId { fill_id }),
            !fill_applied(self@.lots, fill_id) ==> r is Ok,
    {
        let ghost views = self@.lots;
        let mut i: usize = 0;
        while i < self.lots.len()
            invariant
                i <= self.lots.len(),
                views == lot_views(self.lots@),
                forall|m: int| 0 <= m < i ==> !#[trigger] lot_has_fill(views[m], fill_id),
            decreases self.lots.len() - i,
        {
            let lot = &self.lots[i];
            assert(views[i as int] == lot@);
            if lot.open_fill_id() == fill_id {
                assert(lot_has_fill(views[i as int], fill_id));
                return Err(HoldingError::DuplicateFillId { fill_id });
            }
            let events = lot.close_events();
            let mut k: usize = 0;
            while k < events.len()
                invariant
                    i < views.len(),
                    views == self@.lots,
                    k <= events.len(),
                    events@ == views[i as int].close_events,
                    forall|q: int| 0 <= q < k ==> events@[q].close_fill_id != fill_id,
                decreases events.len() - k,
            {
                if events[k].close_fill_id == fill_id {
                    assert(views[i as int].close_events[k as int].close_fill_id == fill_id);
                    assert(lot_has_fill(views[i as int], fill_id));
                    assert(fill_applied(self@.lots, fill_id));
                    return Err(HoldingError::DuplicateFillId { fill_id });
                }
                k += 1;
            }
            assert(!lot_has_fill(views[i as int], fill_id));
            i += 1;
        }
        Ok(())
    }

    /// Returns indices of lots that still have open quantity.
    fn open_lot_indices(&self) -> (r: Vec<usize>)
        ensures
            r@ == open_indices(self@.lots),
            self@.lots.len() <= usize::MAX,
    {
        let ghost views = self@.lots;
        let mut out: Vec<usize> = Vec::new();
        let mut i: usize = 0;
        assert(views.take(0) =~= Seq::<LotView>::empty());
        while i < self.lots.len()
            invariant
                i <= self.lots.len(),
                views == lot_views(self.lots@),
                out@ == open_indices(views.take(i as int)),
            decreases self.lots.len() - i,
        {
            assert(views.take(i + 1).drop_last() =~= views.take(i as int));
            if self.lots[i].is_open() {
                out.push(i);
            }
            i += 1;
        }
        assert(views.take(self.lots.len() as int) =~= views);
        out
    }

    /// Builds a sequential close plan from a pre-ordered list of lot indices.
    fn build_sequential_plan(&self, ordered_indices: Vec<usize>, requested_close_qty: Dec) -> (r: Vec<ClosePlanEntry>)
        requires
            forall|k: int| 0 <= k < ordered_indices.len() ==> #[trigger] ordered_indices@[k] < self@.lots.len(),
            requested_close_qty.value() >= 0,
        ensures
            r@ == seq_plan(self@.lots, ordered_indices@, requested_close_qty),
            forall|m: int| 0 <= m < r.len() ==> #[trigger] r@[m].lot_index < self@.lots.len(),
    {
        proof {
            use_type_invariant(self);
        }
        let ghost views = self@.lots;
        let mut remaining_qty = requested_close_qty;
        let mut close_plan: Vec<ClosePlanEntry> = Vec::new();
        let mut i: usize = 0;
        assert(ordered_indices@.skip(0) =~= ordered_indices@);
        while i < ordered_indices.len()
            invariant
                i <= ordered_indices.len(),
                views == self@.lots,
                views == lot_views(self.lots@),
                holding_valid(self@),
                forall|k: int| 0 <= k < ordered_indices.len() ==> #[trigger] ordered_indices@[k] < views.len(),
                remaining_qty.value() >= 0,
                close_plan@.add(seq_plan(views, ordered_indices@.skip(i as int), remaining_qty)) == seq_plan(views, ordered_indices@, requested_close_qty),
                forall|m: int| 0 <= m < close_plan.len() ==> #[trigger] close_plan@[m].lot_index < views.len(),
            decreases ordered_indices.len() - i,
        {
            let ghost rest = ordered_indices@.skip(i as int);
            assert(rest.drop_first() =~= ordered_indices@.skip(i + 1));
            if remaining_qty.is_zero() {
                assert(close_plan@.add(Seq::empty()) =~= close_plan@);
                return close_plan;
            }
            let lot_index = ordered_indices[i];
            assert(views[lot_index as int] == self.lots@[lot_index as int]@);
            assert(lot_valid(views[lot_index as int]));
            let close_qty = remaining_qty.min(self.lots[lot_index].remaining_qty());
            if close_qty.is_zero() {
                i += 1;
                continue;
            }
            let next = remaining_qty.sub(close_qty).unwrap();
            let entry = ClosePlanEntry { lot_index, qty: close_qty };
            proof {
                assert(close_plan@.push(entry).add(seq_plan(views, ordered_indices@.skip(i + 1), next)) =~= close_plan@.add(seq![entry].add(seq_plan(views, ordered_indices@.skip(i + 1), next))));
            }
            close_plan.push(entry);
            remaining_qty = next;
            i += 1;
        }
        assert(ordered_indices@.skip(i as int) =~= Seq::<usize>::empty());
        assert(close_plan@.add(Seq::empty()) =~= close_plan@);
        close_plan
    }

    /// Builds the `AverageCost` plan by allocating the close pro rata over
    /// `ordered_indices`; `None` when a decimal step overflows.
    fn build_average_cost_plan(&self, ordered_indices: Vec<usize>, requested_close_qty: Dec) -> (r: Option<Vec<ClosePlanEntry>>)
        requires
            forall|k: int| 0 <= k < ordered_indices.len() ==> #[trigger] ordered_indices@[k] < self@.lots.len(),
        ensures
            r is None <==> (index_sum(self@.lots, ordered_indices@) is None || avg_plan(self@.lots, ordered_indices@, requested_close_qty, index_sum(self@.lots, ordered_indices@).unwrap()) is None),
            r is Some ==> Some(r.unwrap()@) == avg_plan(self@.lots, ordered_indices@, requested_close_qty, index_sum(self@.lots, ordered_indices@).unwrap()),
            r is Some ==> forall|m: int| 0 <= m < r.unwrap().len() ==> #[trigger] r.unwrap()@[m].lot_index < self@.lots.len(),
    {
        let ghost views = self@.lots;
        let mut remaining_open_qty = Dec::zero();
        let mut j: usize = 0;
        assert(ordered_indices@.take(0) =~= Seq::<usize>::empty());
        while j < ordered_indices.len()
            invariant
                j <= ordered_indices.len(),
                views == self@.lots,
                views == lot_views(self.lots@),
                forall|k: int| 0 <= k < ordered_indices.len() ==> #[trigger] ordered_indices@[k] < views.len(),
                index_sum(views, ordered_indices@.take(j as int)) == Some(remaining_open_qty),
            decreases ordered_indices.len() - j,
        {
            assert(ordered_indices@.take(j + 1).drop_last() =~= ordered_indices@.take(j as int));
            let idx = ordered_indices[j];
            assert(views[idx as int] == self.lots@[idx as int]@);
            match remaining_open_qty.add(self.lots[idx].remaining_qty()) {
                Some(v) => remaining_open_qty = v,
                None => {
                    proof {
                        lemma_index_sum_none(views, ordered_indices@, j as int + 1);
                    }
                    return None;
                },
            }
            j += 1;
        }
        assert(ordered_indices@.take(ordered_indices.len() as int) =~= ordered_indices@);
        let ghost total = remaining_open_qty;
        let mut remaining_close_qty = requested_close_qty;
        let mut close_plan: Vec<ClosePlanEntry> = Vec::new();
        let mut position: usize = 0;
        assert(ordered_indices@.skip(0) =~= ordered_indices@);
        while position < ordered_indices.len()
            invariant
                position <= ordered_indices.len(),
                views == self@.lots,
                views == lot_views(self.lots@),
                forall|k: int| 0 <= k < ordered_indices.len() ==> #[trigger] ordered_indices@[k] < views.len(),
                index_sum(views, ordered_indices@) == Some(total),
                forall|m: int| 0 <= m < close_plan.len() ==> #[trigger] close_plan@[m].lot_index < views.len(),
                avg_plan(views, ordered_indices@, requested_close_qty, total) == match avg_plan(views, ordered_indices@.skip(position as int), remaining_close_qty, remaining_open_qty) {
                    Some(rest) => Some(close_plan@.add(rest)),
                    None => None::<Seq<ClosePlanEntry>>,
                },
            decreases ordered_indices.len() - position,
        {
            let ghost rest = ordered_indices@.skip(position as int);
            assert(rest.drop_first() =~= ordered_indices@.skip(position + 1));
            if remaining_close_qty.is_zero() {
                assert(close_plan@.add(Seq::empty()) =~= close_plan@);
                return Some(close_plan);
            }
            let lot_index = ordered_indices[position];
            assert(views[lot_index as int] == self.lots@[lot_index as int]@);
            let lot_qty = self.lots[lot_index].remaining_qty();
            let close_qty = if position + 1 == ordered_indices.len() {
                remaining_close_qty
            } else {
                let product = match remaining_close_qty.mul(lot_qty) {
                    Some(v) => v,
                    None => return None,
                };
                match product.div(remaining_open_qty) {
                    Some(v) => v,
                    None => return None,
                }
            };
            if !close_qty.is_zero() {
                let next_close = match remaining_close_qty.sub(close_qty) {
                    Some(v) => v,
                    None => return None,
                };
                let next_open = match remaining_open_qty.sub(lot_qty) {
                    Some(v) => v,
                    None => return None,
                };
                let entry = ClosePlanEntry { lot_index, qty: close_qty };
                proof {
                    let tail = avg_plan(views, ordered_indices@.skip(position + 1), next_close, next_open);
                    if tail is Some {
                        assert(close_plan@.push(entry).add(tail.unwrap()) =~= close_plan@.add(seq![entry].add(tail.unwrap())));
                    }
                }
                close_plan.push(entry);
                remaining_close_qty = next_close;
                remaining_open_qty = next_open;
            } else {
                remaining_open_qty = match remaining_open_qty.sub(lot_qty) {
                    Some(v) => v,
                    None => return None,
                };
            }
            position += 1;
        }
        assert(ordered_indices@.skip(position as int) =~= Seq::<usize>::empty());
        assert(close_plan@.add(Seq::empty()) =~= close_plan@);
        Some(close_plan)
    }

    /// Finds the index of the lot carrying `lot_id`.
    fn find_lot(&self, lot_id: LotId) -> (r: Option<usize>)
        ensures
            r is None <==> !has_lot_id(self@.lots, lot_id),
            r is Some ==> r.unwrap() == index_of_lot(self@.lots, lot_id) && r.unwrap() < self@.lots.len(),
    {
        proof {
            use_type_invariant(self);
        }
        let ghost views = self@.lots;
        let mut i: usize = 0;
        while i < self.lots.len()
            invariant
                i <= self.lots.len(),
                views == self@.lots,
                views == lot_views(self.lots@),
                holding_valid(self@),
                forall|k: int| 0 <= k < i ==> views[k].id != lot_id,
            decreases self.lots.len() - i,
        {
            assert(views[i as int] == self.lots@[i as int]@);
            if self.lots[i].id() == lot_id {
                proof {
                    let c = index_of_lot(views, lot_id);
                    assert(views[i as int].id == lot_id);
                    assert(0 <= c < views.len() && views[c].id == lot_id);
                    if c != i {
                        if c < i {
                            assert(views[c].id != views[i as int].id);
                        } else {
                            assert(views[i as int].id != views[c].id);
                        }
                    }
                }
                return Some(i);
            }
            i += 1;
        }
        None
    }

    /// Builds the plan that follows an explicit lot-id selection.
    fn build_specific_lot_plan(&self, lot_ids: &Vec<LotId>, requested_close_qty: Dec) -> (r: Result<Vec<ClosePlanEntry>, HoldingError>)
        requires
            requested_close_qty.value() >= 0,
        ensures
            match r {
                Ok(plan) => specific_lot_result(self@.lots, lot_ids@, requested_close_qty) == Ok::<Seq<ClosePlanEntry>, HoldingError>(plan@),
                Err(e) => specific_lot_result(self@.lots, lot_ids@, requested_close_qty) == Err::<Seq<ClosePlanEntry>, HoldingError>(e),
            },
            r is Ok ==> forall|m: int| 0 <= m < r.unwrap().len() ==> #[trigger] r.unwrap()@[m].lot_index < self@.lots.len(),
    {
        proof {
            use_type_invariant(self);
        }
        let ghost views = self@.lots;
        let mut remaining_qty = requested_close_qty;
        let mut selected_available = Dec::zero();
        let mut close_plan: Vec<ClosePlanEntry> = Vec::new();
        let mut k: usize = 0;
        while k < lot_ids.len()
            invariant
                k <= lot_ids.len(),
                views == self@.lots,
                views == lot_views(self.lots@),
                holding_valid(self@),
                remaining_qty.value() >= 0,
                specific_plan(views, lot_ids@, 0, requested_close_qty, Dec::from_repr((0, 0)), Seq::empty())
                    == specific_plan(views, lot_ids@, k as int, remaining_qty, selected_available, close_plan@),
                forall|m: int| 0 <= m < close_plan.len() ==> #[trigger] close_plan@[m].lot_index < views.len(),
            decreases lot_ids.len() - k,
        {
            let lot_id = lot_ids[k];
            let mut q: usize = 0;
            while q < k
                invariant
                    q <= k,
                    k < lot_ids.len(),
                    forall|m: int| 0 <= m < q ==> lot_ids@[m] != lot_id,
                    lot_id == lot_ids@[k as int],
                    views == self@.lots,
                    specific_plan(views, lot_ids@, 0, requested_close_qty, Dec::from_repr((0, 0)), Seq::empty())
                        == specific_plan(views, lot_ids@, k as int, remaining_qty, selected_available, close_plan@),
                decreases k - q,
            {
                if lot_ids[q] == lot_id {
                    assert(lot_ids@.take(k as int)[q as int] == lot_id);
                    assert(lot_ids@.take(k as int).contains(lot_id));
                    return Err(HoldingError::DuplicateLotIdSelection { lot_id });
                }
                q += 1;
            }
            assert(!lot_ids@.take(k as int).contains(lot_id)) by {
                if lot_ids@.take(k as int).contains(lot_id) {
                    let m = choose|m: int| 0 <= m < k && lot_ids@.take(k as int)[m] == lot_id;
                    assert(lot_ids@[m] == lot_id);
                }
            }
            let lot_index = match self.find_lot(lot_id) {
                Some(i) => i,
                None => return Err(HoldingError::UnknownLotId { lot_id }),
            };
            let lot = &self.lots[lot_index];
            assert(views[lot_index as int] == lot@);
            assert(lot_valid(views[lot_index as int]));
            if !lot.is_open() {
                return Err(HoldingError::LotNotOpen { lot_id });
            }
            selected_available = match selected_available.add(lot.remaining_qty()) {
                Some(v) => v,
                None => return Err(HoldingError::ArithmeticOverflow),
            };
            if remaining_qty.is_zero() {
                k += 1;
                continue;
            }
            let close_qty = remaining_qty.min(lot.remaining_qty());
            if close_qty.is_zero() {
                k += 1;
                continue;
            }
            close_plan.push(ClosePlanEntry { lot_index, qty: close_qty });
            remaining_qty = remaining_qty.sub(close_qty).unwrap();
            k += 1;
        }
        if !remaining_qty.is_zero() {
            return Err(
                HoldingError::SpecificLotQuantityInsufficient {
                    requested: requested_close_qty,
                    available: selected_available,
                },
            );
        }
        Ok(close_plan)
    }

    /// Computes the sort keys of all lots; `None` when an open lot's key overflows.
    fn compute_keys(&self, hifo: bool, price: Dec) -> (r: Option<Vec<SortKey>>)
        ensures
            r is Some <==> keys_ok(self@.lots, hifo, price),
            r is Some ==> r.unwrap()@ == key_seq(self@.lots, hifo, price),
    {
        let ghost views = self@.lots;
        let mut keys: Vec<SortKey> = Vec::new();
        let mut i: usize = 0;
        while i < self.lots.len()
            invariant
                i <= self.lots.len(),
                views == self@.lots,
                views == lot_views(self.lots@),
                keys.len() == i,
                forall|k: int| 0 <= k < i ==> #[trigger] keys@[k] == key_seq(views, hifo, price)[k],
                forall|k: int| 0 <= k < i && lot_is_open(views[k]) ==> #[trigger] primary_key(views[k], hifo, price) is Some,
            decreases self.lots.len() - i,
        {
            let lot = &self.lots[i];
            assert(views[i as int] == lot@);
            let primary = if lot.is_open() {
                match lot_primary_key(lot, hifo, price) {
                    Some(v) => v,
                    None => return None,
                }
            } else {
                Dec::zero()
            };
            keys.push(SortKey { primary, opened_at: lot.opened_at(), id: lot.id().value() });
            i += 1;
        }
        assert(keys@ =~= key_seq(views, hifo, price));
        Some(keys)
    }

    /// Builds a close plan without mutating any lots: validates the fill,
    /// then delegates to the selected lot-relief method.
    pub fn build_close_plan(&self, fill: &Fill, lot_relief_method: &LotReliefMethod) -> (r: Result<Vec<ClosePlanEntry>, HoldingError>)
        ensures
            !close_accepted(self@, fill@) ==> (r matches Err(e) && close_rejection(self@, fill@, e)),
            close_accepted(self@, fill@) ==> plan_outcome(self@.lots, fill@, lot_relief_method@, plan_result_view(r)),
            r is Ok ==> forall|m: int| 0 <= m < r.unwrap().len() ==> #[trigger] r.unwrap()@[m].lot_index < self@.lots.len(),
    {
        proof {
            use_type_invariant(self);
        }
        fill.lemma_valid();
        self.ensure_symbol_matches(fill.symbol())?;
        self.ensure_fill_not_applied(fill.id())?;
        if fill.position_effect() != PositionEffect::Close {
            return Err(
                HoldingError::PositionEffectMismatch { expected: PositionEffect::Close, actual: fill.position_effect() },
            );
        }
        let holding_side = match self.side() {
            Some(s) => s,
            None => return Err(HoldingError::NoOpenLots { symbol: self.symbol.clone() }),
        };
        if fill.order_side().closing_lot_side() != holding_side {
            return Err(HoldingError::CloseSideMismatch { holding_side, fill_side: fill.order_side() });
        }
        let open_qty = match self.open_qty() {
            Some(v) => v,
            None => return Err(HoldingError::ArithmeticOverflow),
        };
        if open_qty.lt(&fill.qty()) {
            return Err(HoldingError::CloseExceedsOpenQuantity { requested: fill.qty(), available: open_qty });
        }
        let candidates = self.open_lot_indices();
        proof {
            lemma_open_indices(self@.lots);
        }
        match lot_relief_method {
            LotReliefMethod::Fifo => Ok(self.build_sequential_plan(candidates, fill.qty())),
            LotReliefMethod::Lifo => {
                let ordered = reverse_indices(&candidates);
                Ok(self.build_sequential_plan(ordered, fill.qty()))
            },
            LotReliefMethod::Hifo => self.build_sorted_plan(candidates, true, true, false, fill.price(), fill.qty()),
            LotReliefMethod::MaxLoss => self.build_sorted_plan(candidates, false, false, false, fill.price(), fill.qty()),
            LotReliefMethod::MaxGain => self.build_sorted_plan(candidates, false, true, true, fill.price(), fill.qty()),
            LotReliefMethod::SpecificLot(lot_ids) => self.build_specific_lot_plan(lot_ids, fill.qty()),
            LotReliefMethod::AverageCost => match self.build_average_cost_plan(candidates, fill.qty()) {
                Some(plan) => Ok(plan),
                None => Err(HoldingError::ArithmeticOverflow),
            },
        }
    }

    /// Sorts the open lots by key and builds the sequential plan over them.
    fn build_sorted_plan(
        &self,
        candidates: Vec<usize>,
        hifo: bool,
        primary_desc: bool,
        tie_desc: bool,
        price: Dec,
        qty: Dec,
    ) -> (r: Result<Vec<ClosePlanEntry>, HoldingError>)
        requires
            candidates@ == open_indices(self@.lots),
            self@.lots.len() <= usize::MAX,
            qty.value() >= 0,
        ensures
            sorted_outcome(self@.lots, FillView { price, qty, ..arbitrary_fill_view() }, hifo, primary_desc, tie_desc, plan_result_view(r)),
            r is Ok ==> forall|m: int| 0 <= m < r.unwrap().len() ==> #[trigger] r.unwrap()@[m].lot_index < self@.lots.len(),
    {
        proof {
            lemma_open_indices(self@.lots);
        }
        let ghost lots = self@.lots;
        let ghost keys_view = key_seq(lots, hifo, price);
        let order = if candidates.len() >= 2 {
            let keys = match self.compute_keys(hifo, price) {
                Some(k) => k,
                None => return Err(HoldingError::ArithmeticOverflow),
            };
            sort_indices(&candidates, &keys, primary_desc, tie_desc)
        } else {
            candidates
        };
        proof {
            assert(same_indices(order@, open_indices(lots)));
            assert(sorted_by(order@, keys_view, primary_desc, tie_desc));
            assert forall|k: int| 0 <= k < order.len() implies #[trigger] order@[k] < lots.len() by {
                assert(order@.to_set().contains(order@[k]));
                assert(open_indices(lots).to_set().contains(order@[k]));
                assert(open_indices(lots).contains(order@[k]));
            }
        }
        let plan = self.build_sequential_plan(order, qty);
        proof {
            let f = FillView { price, qty, ..arbitrary_fill_view() };
            assert(plan@ == seq_plan(lots, order@, f.qty));
            assert(same_indices(order@, open_indices(lots)) && sorted_by(order@, key_seq(lots, hifo, f.price), primary_desc, tie_desc));
        }
        Ok(plan)
    }

    /// Closes quantity using the holding's default lot-relief method.
    pub fn close_with_fill(&mut self, fill: &Fill) -> (r: Result<HoldingClose, HoldingError>)
        ensures
            !close_accepted(old(self)@, fill@) ==> final(self)@ == old(self)@ && (r matches Err(e) && close_rejection(old(self)@, fill@, e)),
            close_accepted(old(self)@, fill@) ==> exists|pr: Result<Seq<ClosePlanEntry>, HoldingError>|
                plan_outcome(old(self)@.lots, fill@, old(self)@.lot_relief_method, pr)
                    && #[trigger] close_applied(old(self)@, fill@, pr, final(self)@, close_result_view(r)),
            close_outcome_with(old(self)@, fill@, old(self)@.lot_relief_method, final(self)@, close_result_view(r)),
            final(self)@.lot_relief_method == old(self)@.lot_relief_method,
    {
        let plan = self.build_close_plan(fill, &self.lot_relief_method);
        let ghost pr = plan_result_view(plan);
        match plan {
            Ok(p) => {
                let r = self.execute_close_plan(fill, p);
                assert(close_applied(old(self)@, fill@, pr, self@, close_result_view(r)));
                r
            },
            Err(e) => {
                assert(close_applied(old(self)@, fill@, pr, self@, close_result_view(Err(e))));
                Err(e)
            },
        }
    }

    /// Closes quantity using a lot-relief method supplied for this call only,
    /// without changing the holding's default method.
    pub fn close_with_fill_using(&mut self, fill: &Fill, lot_relief_method: &LotReliefMethod) -> (r: Result<HoldingClose, HoldingError>)
        ensures
            !close_accepted(old(self)@, fill@) ==> final(self)@ == old(self)@ && (r matches Err(e) && close_rejection(old(self)@, fill@, e)),
            close_accepted(old(self)@, fill@) ==> exists|pr: Result<Seq<ClosePlanEntry>, HoldingError>|
                plan_outcome(old(self)@.lots, fill@, lot_relief_method@, pr)
                    && #[trigger] close_applied(old(self)@, fill@, pr, final(self)@, close_result_view(r)),
            close_outcome_with(old(self)@, fill@, lot_relief_method@, final(self)@, close_result_view(r)),
            final(self)@.lot_relief_method == old(self)@.lot_relief_method,
    {
        let plan = self.build_close_plan(fill, lot_relief_method);
        let ghost pr = plan_result_view(plan);
        match plan {
            Ok(p) => {
                let r = self.execute_close_plan(fill, p);
                assert(close_applied(old(self)@, fill@, pr, self@, close_result_view(r)));
                r
            },
            Err(e) => {
                assert(close_applied(old(self)@, fill@, pr, self@, close_result_view(Err(e))));
                Err(e)
            },
        }
    }

    /// Applies a close plan to the lots: allocates the close fees pro rata
    /// (the last entry takes what is left), closes each planned lot quantity
    /// and sums the realized PnL of the matches.
    fn execute_close_plan(&mut self, fill: &Fill, close_plan: Vec<ClosePlanEntry>) -> (r: Result<HoldingClose, HoldingError>)
        requires
            forall|m: int| 0 <= m < close_plan.len() ==> #[trigger] close_plan@[m].lot_index < old(self)@.lots.len(),
        ensures
            final(self)@ == (HoldingView { lots: plan_close_result(old(self)@, close_plan@, fill@).0, ..old(self)@ }),
            close_result_view(r) == plan_close_result(old(self)@, close_plan@, fill@).1,
    {
        proof {
            use_type_invariant(&*self);
        }
        let ghost h0 = self@;
        let ghost n: nat = close_plan.len() as nat;
        let mut lots: Vec<Lot> = Vec::new();
        std::mem::swap(&mut lots, &mut self.lots);
        assert(lot_views(self.lots@) =~= Seq::<LotView>::empty());
        assert(lot_views(lots@) == h0.lots);
        let mut remaining_fees = fill.fees();
        let mut matches: Vec<HoldingCloseMatch> = Vec::new();
        let mut i: usize = 0;
        while i < close_plan.len()
            invariant
                i <= close_plan.len(),
                n == close_plan.len(),
                h0 == old(self)@,
                forall|m: int| 0 <= m < close_plan.len() ==> #[trigger] close_plan@[m].lot_index < h0.lots.len(),
                lots.len() == h0.lots.len(),
                self@ == (HoldingView { lots: Seq::empty(), ..h0 }),
                holding_valid(HoldingView { lots: lot_views(lots@), ..h0 }),
                run_plan(h0.lots, close_plan@, fill@, i as nat) == (PlanRun {
                    lots: lot_views(lots@),
                    matches: matches@,
                    remaining_fees,
                    error: None,
                }),
            decreases close_plan.len() - i,
        {
            let entry = close_plan[i];
            let ghost prev = run_plan(h0.lots, close_plan@, fill@, i as nat);
            let allocated = if i + 1 == close_plan.len() {
                remaining_fees
            } else {
                let share = match fill.fees().mul(entry.qty) {
                    Some(p) => p.div(fill.qty()),
                    None => None,
                };
                match share {
                    Some(v) => v,
                    None => {
                        proof {
                            lemma_run_plan_stays(h0.lots, close_plan@, fill@, (i + 1) as nat, n);
                        }
                        self.lots = lots;
                        return Err(HoldingError::ArithmeticOverflow);
                    },
                }
            };
            let rest = match remaining_fees.sub(allocated) {
                Some(v) => v,
                None => {
                    proof {
                        lemma_run_plan_stays(h0.lots, close_plan@, fill@, (i + 1) as nat, n);
                    }
                    self.lots = lots;
                    return Err(HoldingError::ArithmeticOverflow);
                },
            };
            let idx = entry.lot_index;
            let ghost old_lot = lots@[idx as int]@;
            assert(lot_views(lots@)[idx as int] == old_lot);
            let outcome = lots[idx].close(fill.order_id(), fill.id(), fill.executed_at(), entry.qty, fill.price(), allocated);
            match outcome {
                Err(e) => {
                    assert(lot_views(lots@) =~= prev.lots);
                    proof {
                        lemma_run_plan_stays(h0.lots, close_plan@, fill@, (i + 1) as nat, n);
                    }
                    self.lots = lots;
                    return Err(HoldingError::Lot(e));
                },
                Ok(close) => {
                    let lot_id = lots[idx].id();
                    let lot_side = lots[idx].side();
                    lots[idx].lemma_valid();
                    proof {
                        lemma_replace_lot_keeps_valid(HoldingView { lots: prev.lots, ..h0 }, idx as int, lots@[idx as int]@);
                        assert(lot_views(lots@) =~= prev.lots.update(idx as int, lots@[idx as int]@));
                    }
                    matches.push(HoldingCloseMatch { lot_id, lot_side, close });
                    remaining_fees = rest;
                },
            }
            i += 1;
        }
        let ghost run = run_plan(h0.lots, close_plan@, fill@, n);
        let mut gross = Dec::zero();
        let mut net = Dec::zero();
        let mut k: usize = 0;
        assert(matches@.take(0) =~= Seq::<HoldingCloseMatch>::empty());
        while k < matches.len()
            invariant
                k <= matches.len(),
                h0 == old(self)@,
                n == close_plan.len(),
                run == run_plan(h0.lots, close_plan@, fill@, n),
                self@ == (HoldingView { lots: Seq::empty(), ..h0 }),
                holding_valid(HoldingView { lots: lot_views(lots@), ..h0 }),
                run == (PlanRun { lots: lot_views(lots@), matches: matches@, remaining_fees, error: None }),
                match_total(matches@.take(k as int), false) == Some(gross),
                match_total(matches@.take(k as int), true) == Some(net),
            decreases matches.len() - k,
        {
            assert(matches@.take(k + 1).drop_last() =~= matches@.take(k as int));
            let m = matches[k];
            let next_gross = gross.add(m.close.realized_gross_pnl);
            let next_net = net.add(m.close.realized_net_pnl);
            match (next_gross, next_net) {
                (Some(g), Some(v)) => {
                    gross = g;
                    net = v;
                },
                _ => {
                    proof {
                        if next_gross is None {
                            lemma_match_total_none(matches@, k as int + 1, false);
                        } else {
                            lemma_match_total_none(matches@, k as int + 1, true);
                        }
                    }
                    self.lots = lots;
                    return Err(HoldingError::ArithmeticOverflow);
                },
            }
            k += 1;
        }
        assert(matches@.take(matches.len() as int) =~= matches@);
        self.lots = lots;
        let remaining_open_qty = match self.open_qty() {
            Some(v) => v,
            None => return Err(HoldingError::ArithmeticOverflow),
        };
        Ok(
            HoldingClose {
                symbol: self.symbol.clone(),
                close_order_id: fill.order_id(),
                close_fill_id: fill.id(),
                closed_qty: fill.qty(),
                close_price: fill.price(),
                close_fees: fill.fees(),
                matches,
                total_realized_gross_pnl: gross,
                total_realized_net_pnl: net,
                remaining_open_qty,
            },
        )
    }

    /// A copy with the same abstract value.
    pub fn duplicate(&self) -> (r: Holding)
        ensures
            r@ == self@,
    {
        proof {
            use_type_invariant(self);
        }
        let mut lots: Vec<Lot> = Vec::new();
        let mut i: usize = 0;
        while i < self.lots.len()
            invariant
                i <= self.lots.len(),
                lot_views(lots@) == lot_views(self.lots@).take(i as int),
            decreases self.lots.len() - i,
        {
            let ghost before = lots@;
            let copy = self.lots[i].duplicate();
            lots.push(copy);
            assert(lot_views(lots@) =~= lot_views(before).push(copy@));
            assert(lot_views(self.lots@).take(i + 1) =~= lot_views(self.lots@).take(i as int).push(self.lots@[i as int]@));
            i += 1;
        }
        assert(lot_views(self.lots@).take(self.lots.len() as int) =~= lot_views(self.lots@));
        Holding {
            id: self.id,
            symbol: self.symbol.clone(),
            lot_relief_method: self.lot_relief_method.duplicate(),
            lots,
        }
    }

    /// Returns the total open quantity across all lots; `None` on overflow.
    pub fn open_qty(&self) -> (r: Option<Dec>)
        ensures
            r == lots_sum(self@.lots, LotTerm::Remaining),
    {
        sum_lots(&self.lots, LotTerm::Remaining)
    }

    /// Returns the total historically closed quantity; `None` on overflow.
    pub fn closed_qty(&self) -> (r: Option<Dec>)
        ensures
            r == lots_sum(self@.lots, LotTerm::Closed),
    {
        sum_lots(&self.lots, LotTerm::Closed)
    }

    /// Returns the number of lots that still have open quantity.
    pub fn open_lot_count(&self) -> (r: usize)
        ensures
            r == open_lot_count_of(self@.lots),
    {
        let ghost views = self@.lots;
        let mut count: usize = 0;
        let mut i: usize = 0;
        assert(views.take(0) =~= Seq::<LotView>::empty());
        while i < self.lots.len()
            invariant
                i <= self.lots.len(),
                views == lot_views(self.lots@),
                count == open_lot_count_of(views.take(i as int)),
                count <= i,
            decreases self.lots.len() - i,
        {
            assert(views.take(i + 1).drop_last() =~= views.take(i as int));
            if self.lots[i].is_open() {
                count += 1;
            }
            i += 1;
        }
        assert(views.take(self.lots.len() as int) =~= views);
        count
    }

    /// Returns `true` when no lot has open quantity.
    pub fn is_flat(&self) -> (r: bool)
        ensures
            r == (first_open_side(self@.lots) is None),
    {
        self.side().is_none()
    }

    /// Returns cumulative realized gross PnL across all lots; `None` on overflow.
    pub fn realized_gross_pnl(&self) -> (r: Option<Dec>)
        ensures
            r == lots_sum(self@.lots, LotTerm::RealizedGross),
    {
        sum_lots(&self.lots, LotTerm::RealizedGross)
    }

    /// Returns cumulative realized net PnL across all lots; `None` on overflow.
    pub fn realized_net_pnl(&self) -> (r: Option<Dec>)
        ensures
            r == lots_sum(self@.lots, LotTerm::RealizedNet),
    {
        sum_lots(&self.lots, LotTerm::RealizedNet)
    }

    /// Returns mark-to-market gross PnL across all open lots; `None` on overflow.
    pub fn unrealized_gross_pnl(&self, mark_price: Dec) -> (r: Option<Dec>)
        ensures
            r == lots_sum(self@.lots, LotTerm::UnrealizedGross(mark_price)),
    {
        sum_lots(&self.lots, LotTerm::UnrealizedGross(mark_price))
    }

    /// Returns still-unrealized open fees across all open lots; `None` on overflow.
    pub fn unrealized_open_fees(&self) -> (r: Option<Dec>)
        ensures
            r == lots_sum(self@.lots, LotTerm::OpenFeesLeft),
    {
        sum_lots(&self.lots, LotTerm::OpenFeesLeft)
    }

    /// Returns mark-to-market PnL net of the remaining open-side fees; `None`
    /// on overflow.
    pub fn unrealized_net_pnl(&self, mark_price: Dec) -> (r: Option<Dec>)
        ensures
            r == match (lots_sum(self@.lots, LotTerm::UnrealizedGross(mark_price)), lots_sum(self@.lots, LotTerm::OpenFeesLeft)) {
                (Some(g), Some(f)) => dec_sub(g, f),
                _ => None,
            },
    {
        let gross = self.unrealized_gross_pnl(mark_price)?;
        let fees = self.unrealized_open_fees()?;
        gross.sub(fees)
    }

    /// Returns a point-in-time PnL snapshot for the holding; `None` on overflow.
    pub fn pnl(&self, mark_price: Dec) -> (r: Option<HoldingPnl>)
        ensures
            r is Some <==> (lots_sum(self@.lots, LotTerm::RealizedGross) is Some
                && lots_sum(self@.lots, LotTerm::RealizedNet) is Some
                && lots_sum(self@.lots, LotTerm::UnrealizedGross(mark_price)) is Some
                && lots_sum(self@.lots, LotTerm::OpenFeesLeft) is Some
                && dec_sub(lots_sum(self@.lots, LotTerm::UnrealizedGross(mark_price)).unwrap(), lots_sum(self@.lots, LotTerm::OpenFeesLeft).unwrap()) is Some
                && lots_sum(self@.lots, LotTerm::Remaining) is Some),
            r is Some ==> {
                let p = r.unwrap();
                &&& p.symbol@ == self@.symbol
                &&& p.side == first_open_side(self@.lots)
                &&& Some(p.open_qty) == lots_sum(self@.lots, LotTerm::Remaining)
                &&& p.mark_price == mark_price
                &&& Some(p.realized_gross_pnl) == lots_sum(self@.lots, LotTerm::RealizedGross)
                &&& Some(p.realized_net_pnl) == lots_sum(self@.lots, LotTerm::RealizedNet)
                &&& Some(p.unrealized_gross_pnl) == lots_sum(self@.lots, LotTerm::UnrealizedGross(mark_price))
                &&& Some(p.unrealized_open_fees) == lots_sum(self@.lots, LotTerm::OpenFeesLeft)
                &&& Some(p.unrealized_net_pnl) == dec_sub(p.unrealized_gross_pnl, p.unrealized_open_fees)
            },
    {
        let realized_gross_pnl = self.realized_gross_pnl()?;
        let realized_net_pnl = self.realized_net_pnl()?;
        let unrealized_gross_pnl = self.unrealized_gross_pnl(mark_price)?;
        let unrealized_open_fees = self.unrealized_open_fees()?;
        let unrealized_net_pnl = unrealized_gross_pnl.sub(unrealized_open_fees)?;
        let open_qty = self.open_qty()?;
        Some(HoldingPnl {
            symbol: self.symbol.clone(),
            side: self.side(),
            open_qty,
            mark_price,
            realized_gross_pnl,
            realized_net_pnl,
            unrealized_gross_pnl,
            unrealized_open_fees,
            unrealized_net_pnl,
        })
    }
}

} // verus!
