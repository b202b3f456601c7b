//! High-level order-system facade.
//!
//! [`OrderSystem`] stitches orders, fills, holdings and execution reports
//! into one API that can:
//!
//! - submit new orders and emit `PendingNew` execution reports,
//! - infer close-side orders from current holdings,
//! - reserve close quantity so overlapping close orders are rejected early,
//! - apply fills to both the order state machine and the symbol holding,
//! - keep a complete in-memory audit trail of fills and execution reports.
//!
//! This facade is not a matching engine: fills arrive from an external
//! simulator, exchange adapter or broker connector.
//!
//! Orders are kept in identifier order, holdings in symbol order and fills in
//! identifier order, so every listing comes out sorted by its key.

use vstd::prelude::*;

use crate::decimal::{dec_add, dec_mul, dec_sub, Dec};
use crate::order_sys::holding::dec_min;
use crate::order_sys::lot::Lot;
use crate::order_sys::execution_report::{snapshot, zero_dec, ExecutionReport, ExecutionReportType, ExecutionReportView};
use crate::order_sys::fill::{Fill, FillView};
use crate::order_sys::holding::{
    close_accepted, close_applied, close_rejection, close_result_view, fill_applied, lot_from_fill, lot_views, lots_sum,
    open_fill_rejection, open_lot_error,
    plan_outcome, Holding, HoldingClose, HoldingCloseView, HoldingError, HoldingView, LotReliefMethod, LotTerm,
    ReliefView,
};
use crate::order_sys::lot::{lot_is_open, LotSide, LotView};
use crate::order_sys::order::{
    event_check_error, fill_accepted, fill_amounts, fill_rejection, filled_state, is_terminal, leaves_of, Order, OrderError,
    OrderSide, OrderStatus, OrderType, OrderView, PositionEffect, TimeInForce,
};
use crate::order_sys::{ExecutionReportId, FillId, HoldingId, LotId, OrderId, Timestamp};
use crate::matcher::is_live_status;
use crate::text::{char_seq_lt, is_blank, is_blank_spec, str_eq, str_lt};

verus! {

/// Input for generic order submission.
///
/// `lot_relief_method` is only used by close orders: the override is
/// remembered on the submitted order and applied when its close fills arrive.
#[derive(Clone, Debug, PartialEq, Eq)]
pub struct SubmitOrderRequest {
    pub symbol: String,
    pub side: OrderSide,
    pub position_effect: PositionEffect,
    pub order_type: OrderType,
    pub time_in_force: TimeInForce,
    pub submitted_at: Timestamp,
    pub qty: Dec,
    pub limit_price: Option<Dec>,
    pub stop_price: Option<Dec>,
    pub lot_relief_method: Option<LotReliefMethod>,
    /// Whether opposite exposure should be auto-reversed instead of rejected.
    pub allow_reversal: bool,
}

/// Abstract value of a [`SubmitOrderRequest`].
pub struct RequestView {
    pub symbol: Seq<char>,
    pub side: OrderSide,
    pub position_effect: PositionEffect,
    pub order_type: OrderType,
    pub time_in_force: TimeInForce,
    pub submitted_at: Timestamp,
    pub qty: Dec,
    pub limit_price: Option<Dec>,
    pub stop_price: Option<Dec>,
    pub lot_relief_method: Option<ReliefView>,
    pub allow_reversal: bool,
}

pub open spec fn opt_relief_view(m: Option<LotReliefMethod>) -> Option<ReliefView> {
    match m {
        Some(x) => Some(x@),
        None => None,
    }
}

impl View for SubmitOrderRequest {
    type V = RequestView;

    open spec fn view(&self) -> RequestView {
        RequestView {
            symbol: self.symbol@,
            side: self.side,
            position_effect: self.position_effect,
            order_type: self.order_type,
            time_in_force: self.time_in_force,
            submitted_at: self.submitted_at,
            qty: self.qty,
            limit_price: self.limit_price,
            stop_price: self.stop_price,
            lot_relief_method: opt_relief_view(self.lot_relief_method),
            allow_reversal: self.allow_reversal,
        }
    }
}

impl SubmitOrderRequest {
    /// Creates a request with no lot-relief override and no auto-reversal.
    pub fn new(
        symbol: &str,
        side: OrderSide,
        position_effect: PositionEffect,
        order_type: OrderType,
        time_in_force: TimeInForce,
        submitted_at: Timestamp,
        qty: Dec,
        limit_price: Option<Dec>,
        stop_price: Option<Dec>,
    ) -> (r: SubmitOrderRequest)
        ensures
            r@ == (RequestView {
                symbol: symbol@,
                side,
                position_effect,
                order_type,
                time_in_force,
                submitted_at,
                qty,
                limit_price,
                stop_price,
                lot_relief_method: None,
                allow_reversal: false,
            }),
    {
        SubmitOrderRequest {
            symbol: symbol.to_string(),
            side,
            position_effect,
            order_type,
            time_in_force,
            submitted_at,
            qty,
            limit_price,
            stop_price,
            lot_relief_method: None,
            allow_reversal: false,
        }
    }

    /// Attaches a close-specific lot-relief override.
    pub fn with_lot_relief_method(self, lot_relief_method: LotReliefMethod) -> (r: SubmitOrderRequest)
        ensures
            r@ == (RequestView { lot_relief_method: Some(lot_relief_method@), ..self@ }),
    {
        SubmitOrderRequest { lot_relief_method: Some(lot_relief_method), ..self }
    }

    /// Enables or disables automatic reversal for opposite exposure.
    pub fn with_allow_reversal(self, allow_reversal: bool) -> (r: SubmitOrderRequest)
        ensures
            r@ == (RequestView { allow_reversal, ..self@ }),
    {
        SubmitOrderRequest { allow_reversal, ..self }
    }

    /// Replaces the lot-relief override, possibly with none.
    pub fn with_lot_relief_method_option(self, lot_relief_method: Option<LotReliefMethod>) -> (r: SubmitOrderRequest)
        ensures
            r@ == (RequestView { lot_relief_method: opt_relief_view(lot_relief_method), ..self@ }),
    {
        SubmitOrderRequest { lot_relief_method, ..self }
    }
}

/// Input for a close order whose side is inferred from the holding.
#[derive(Clone, Debug, PartialEq, Eq)]
pub struct SubmitCloseOrderRequest {
    pub symbol: String,
    pub submitted_at: Timestamp,
    pub qty: Dec,
    pub order_type: OrderType,
    pub time_in_force: TimeInForce,
    pub limit_price: Option<Dec>,
    pub stop_price: Option<Dec>,
    pub lot_relief_method: Option<LotReliefMethod>,
}

impl SubmitCloseOrderRequest {
    /// Creates a close-order request with inferred side.
    pub fn new(
        symbol: &str,
        submitted_at: Timestamp,
        qty: Dec,
        order_type: OrderType,
        time_in_force: TimeInForce,
        limit_price: Option<Dec>,
        stop_price: Option<Dec>,
    ) -> (r: SubmitCloseOrderRequest)
        ensures
            r.symbol@ == symbol@,
            r.submitted_at == submitted_at,
            r.qty == qty,
            r.order_type == order_type,
            r.time_in_force == time_in_force,
            r.limit_price == limit_price,
            r.stop_price == stop_price,
            r.lot_relief_method is None,
    {
        SubmitCloseOrderRequest {
            symbol: symbol.to_string(),
            submitted_at,
            qty,
            order_type,
            time_in_force,
            limit_price,
            stop_price,
            lot_relief_method: None,
        }
    }

    /// Attaches a close-specific lot-relief override.
    pub fn with_lot_relief_method(self, lot_relief_method: LotReliefMethod) -> (r: SubmitCloseOrderRequest)
        ensures
            r.symbol@ == self.symbol@,
            r.submitted_at == self.submitted_at,
            r.qty == self.qty,
            r.order_type == self.order_type,
            r.time_in_force == self.time_in_force,
            r.limit_price == self.limit_price,
            r.stop_price == self.stop_price,
            opt_relief_view(r.lot_relief_method) == Some(lot_relief_method@),
    {
        SubmitCloseOrderRequest { lot_relief_method: Some(lot_relief_method), ..self }
    }
}

/// Input for flattening the unreserved open quantity of one symbol.
#[derive(Clone, Debug, PartialEq, Eq)]
pub struct FlattenPositionRequest {
    pub symbol: String,
    pub submitted_at: Timestamp,
    pub order_type: OrderType,
    pub time_in_force: TimeInForce,
    pub limit_price: Option<Dec>,
    pub stop_price: Option<Dec>,
    pub lot_relief_method: Option<LotReliefMethod>,
}

impl FlattenPositionRequest {
    /// Creates a request that closes every currently unreserved unit.
    pub fn new(symbol: &str, submitted_at: Timestamp, order_type: OrderType, time_in_force: TimeInForce) -> (r: FlattenPositionRequest)
        ensures
            r.symbol@ == symbol@,
            r.submitted_at == submitted_at,
            r.order_type == order_type,
            r.time_in_force == time_in_force,
            r.limit_price is None,
            r.stop_price is None,
            r.lot_relief_method is None,
    {
        FlattenPositionRequest {
            symbol: symbol.to_string(),
            submitted_at,
            order_type,
            time_in_force,
            limit_price: None,
            stop_price: None,
            lot_relief_method: None,
        }
    }

    /// Replaces the limit price on the request.
    pub fn with_limit_price(self, limit_price: Dec) -> (r: FlattenPositionRequest)
        ensures
            r == (FlattenPositionRequest { limit_price: Some(limit_price), ..self }),
    {
        FlattenPositionRequest { limit_price: Some(limit_price), ..self }
    }

    /// Replaces the stop price on the request.
    pub fn with_stop_price(self, stop_price: Dec) -> (r: FlattenPositionRequest)
        ensures
            r == (FlattenPositionRequest { stop_price: Some(stop_price), ..self }),
    {
        FlattenPositionRequest { stop_price: Some(stop_price), ..self }
    }

    /// Attaches a close-specific lot-relief override.
    pub fn with_lot_relief_method(self, lot_relief_method: LotReliefMethod) -> (r: FlattenPositionRequest)
        ensures
            r.symbol == self.symbol,
            r.submitted_at == self.submitted_at,
            r.order_type == self.order_type,
            r.time_in_force == self.time_in_force,
            r.limit_price == self.limit_price,
            r.stop_price == self.stop_price,
            opt_relief_view(r.lot_relief_method) == Some(lot_relief_method@),
    {
        FlattenPositionRequest { lot_relief_method: Some(lot_relief_method), ..self }
    }
}

/// Errors raised by the order-system facade.
#[derive(Clone, Debug, PartialEq, Eq)]
pub enum OrderSystemError {
    /// Unknown order identifier.
    UnknownOrderId { order_id: OrderId },
    /// The same fill identifier was applied to the system twice.
    DuplicateFillId { fill_id: FillId },
    /// There is no open position for the requested symbol.
    NoOpenPosition { symbol: String },
    /// An opening order tried to add exposure on the opposite side.
    OpenSideMismatch { symbol: String, requested: OrderSide, holding_side: LotSide },
    /// A live opening order already reserves the opposite opening side.
    LiveOpenOrderSideConflict { symbol: String, requested: OrderSide, live_order_side: OrderSide },
    /// A contingent reversal open order cannot accept fills or
    /// acknowledgements before its prerequisite close order completes.
    OrderNotActive { order_id: OrderId, waiting_on_order_id: OrderId },
    /// Automatic reversal is blocked while other live open orders exist.
    ReversalBlockedByLiveOpenOrders { symbol: String },
    /// A closing order side did not match the open position side.
    CloseSideMismatch { symbol: String, requested: OrderSide, holding_side: LotSide },
    /// The requested close quantity exceeded unreserved closeable quantity.
    CloseQuantityExceedsAvailable { symbol: String, requested: Dec, available: Dec },
    /// The symbol has an open position, but all of it is already reserved.
    NoClosableQuantity { symbol: String },
    /// Wrapped order-level error.
    Order(OrderError),
    /// Wrapped holding-level error.
    Holding(HoldingError),
    /// A decimal result or an identifier counter fell outside its range.
    ArithmeticOverflow,
}

/// Abstract value of an [`OrderSystemError`]: symbols as character
/// sequences, wrapped errors as they are.
pub enum SysErrorView {
    UnknownOrderId { order_id: OrderId },
    DuplicateFillId { fill_id: FillId },
    NoOpenPosition { symbol: Seq<char> },
    OpenSideMismatch { symbol: Seq<char>, requested: OrderSide, holding_side: LotSide },
    LiveOpenOrderSideConflict { symbol: Seq<char>, requested: OrderSide, live_order_side: OrderSide },
    OrderNotActive { order_id: OrderId, waiting_on_order_id: OrderId },
    ReversalBlockedByLiveOpenOrders { symbol: Seq<char> },
    CloseSideMismatch { symbol: Seq<char>, requested: OrderSide, holding_side: LotSide },
    CloseQuantityExceedsAvailable { symbol: Seq<char>, requested: Dec, available: Dec },
    NoClosableQuantity { symbol: Seq<char> },
    Order(OrderError),
    Holding(HoldingError),
    ArithmeticOverflow,
}

impl View for OrderSystemError {
    type V = SysErrorView;

    open spec fn view(&self) -> SysErrorView {
        match self {
            OrderSystemError::UnknownOrderId { order_id } => SysErrorView::UnknownOrderId { order_id: *order_id },
            OrderSystemError::DuplicateFillId { fill_id } => SysErrorView::DuplicateFillId { fill_id: *fill_id },
            OrderSystemError::NoOpenPosition { symbol } => SysErrorView::NoOpenPosition { symbol: symbol@ },
            OrderSystemError::OpenSideMismatch { symbol, requested, holding_side } => SysErrorView::OpenSideMismatch {
                symbol: symbol@,
                requested: *requested,
                holding_side: *holding_side,
            },
            OrderSystemError::LiveOpenOrderSideConflict { symbol, requested, live_order_side } => SysErrorView::LiveOpenOrderSideConflict {
                symbol: symbol@,
                requested: *requested,
                live_order_side: *live_order_side,
            },
            OrderSystemError::OrderNotActive { order_id, waiting_on_order_id } => SysErrorView::OrderNotActive {
                order_id: *order_id,
                waiting_on_order_id: *waiting_on_order_id,
            },
            OrderSystemError::ReversalBlockedByLiveOpenOrders { symbol } => SysErrorView::ReversalBlockedByLiveOpenOrders { symbol: symbol@ },
            OrderSystemError::CloseSideMismatch { symbol, requested, holding_side } => SysErrorView::CloseSideMismatch {
                symbol: symbol@,
                requested: *requested,
                holding_side: *holding_side,
            },
            OrderSystemError::CloseQuantityExceedsAvailable { symbol, requested, available } => SysErrorView::CloseQuantityExceedsAvailable {
                symbol: symbol@,
                requested: *requested,
                available: *available,
            },
            OrderSystemError::NoClosableQuantity { symbol } => SysErrorView::NoClosableQuantity { symbol: symbol@ },
            OrderSystemError::Order(e) => SysErrorView::Order(*e),
            OrderSystemError::Holding(e) => SysErrorView::Holding(*e),
            OrderSystemError::ArithmeticOverflow => SysErrorView::ArithmeticOverflow,
        }
    }
}

/// View of a result whose error is an [`OrderSystemError`].
pub open spec fn res_view<T>(r: Result<T, OrderSystemError>) -> Result<T, SysErrorView> {
    match r {
        Ok(v) => Ok(v),
        Err(e) => Err(e@),
    }
}

/// Tracked order entry that remembers per-order close overrides and, for a
/// staged reversal open order, the close order it waits on.
#[derive(Debug, PartialEq, Eq)]
struct TrackedOrder {
    order: Order,
    close_lot_relief_method: Option<LotReliefMethod>,
    contingent_on_order_id: Option<OrderId>,
}

/// Abstract value of a tracked order.
pub struct TrackedView {
    pub order: OrderView,
    pub close_method: Option<ReliefView>,
    pub contingent_on: Option<OrderId>,
}

impl View for TrackedOrder {
    type V = TrackedView;

    closed spec fn view(&self) -> TrackedView {
        TrackedView {
            order: self.order@,
            close_method: opt_relief_view(self.close_lot_relief_method),
            contingent_on: self.contingent_on_order_id,
        }
    }
}

/// Abstract state of an order system.
pub struct OrderSystemView {
    pub default_method: ReliefView,
    pub next_order_id: u64,
    pub next_holding_id: u64,
    pub next_lot_id: u64,
    pub next_report_id: u64,
    /// Tracked orders in identifier order.
    pub orders: Seq<TrackedView>,
    /// Holdings in symbol order.
    pub holdings: Seq<HoldingView>,
    /// Applied fills in identifier order.
    pub fills: Seq<FillView>,
    /// Execution reports in emission order.
    pub reports: Seq<ExecutionReportView>,
}

/// In-memory facade that wires order submission, fills, holdings and reports.
#[derive(Debug)]
pub struct OrderSystem {
    default_lot_relief_method: LotReliefMethod,
    next_order_id: u64,
    next_holding_id: u64,
    next_lot_id: u64,
    next_execution_report_id: u64,
    orders: Vec<TrackedOrder>,
    holdings: Vec<Holding>,
    fills: Vec<Fill>,
    execution_reports: Vec<ExecutionReport>,
}

spec fn tracked_views(s: Seq<TrackedOrder>) -> Seq<TrackedView> {
    s.map_values(|t: TrackedOrder| t@)
}

pub open spec fn holding_views(s: Seq<Holding>) -> Seq<HoldingView> {
    s.map_values(|h: Holding| h@)
}

pub open spec fn fill_views(s: Seq<Fill>) -> Seq<FillView> {
    s.map_values(|f: Fill| f@)
}

pub open spec fn report_views(s: Seq<ExecutionReport>) -> Seq<ExecutionReportView> {
    s.map_values(|r: ExecutionReport| r@)
}

impl View for OrderSystem {
    type V = OrderSystemView;

    closed spec fn view(&self) -> OrderSystemView {
        OrderSystemView {
            default_method: self.default_lot_relief_method@,
            next_order_id: self.next_order_id,
            next_holding_id: self.next_holding_id,
            next_lot_id: self.next_lot_id,
            next_report_id: self.next_execution_report_id,
            orders: tracked_views(self.orders@),
            holdings: holding_views(self.holdings@),
            fills: fill_views(self.fills@),
            reports: report_views(self.execution_reports@),
        }
    }
}

/// Invariant of every order system: orders sorted by strictly increasing
/// identifier, all below the next identifier to allocate; holdings sorted by
/// strictly increasing symbol; fills sorted by strictly increasing identifier.
pub open spec fn system_valid(s: OrderSystemView) -> bool {
    &&& forall|i: int, j: int|
        0 <= i < j < s.orders.len() ==> (#[trigger] s.orders[i]).order.id.0 < (#[trigger] s.orders[j]).order.id.0
    &&& forall|i: int| 0 <= i < s.orders.len() ==> (#[trigger] s.orders[i]).order.id.0 < s.next_order_id
    &&& forall|i: int, j: int|
        0 <= i < j < s.holdings.len() ==> char_seq_lt((#[trigger] s.holdings[i]).symbol, (#[trigger] s.holdings[j]).symbol)
    &&& forall|i: int, j: int|
        0 <= i < j < s.fills.len() ==> (#[trigger] s.fills[i]).id.0 < (#[trigger] s.fills[j]).id.0
}

/// A fresh order system: nothing tracked, every identifier starting at 1.
pub open spec fn empty_system(m: ReliefView) -> OrderSystemView {
    OrderSystemView {
        default_method: m,
        next_order_id: 1,
        next_holding_id: 1,
        next_lot_id: 1,
        next_report_id: 1,
        orders: Seq::empty(),
        holdings: Seq::empty(),
        fills: Seq::empty(),
        reports: Seq::empty(),
    }
}

/// Position of the order with identifier `id`, if tracked.
pub open spec fn order_pos(s: OrderSystemView, id: OrderId) -> Option<int> {
    if exists|i: int| 0 <= i < s.orders.len() && s.orders[i].order.id == id {
        Some(choose|i: int| 0 <= i < s.orders.len() && s.orders[i].order.id == id)
    } else {
        None
    }
}

/// The tracked order with identifier `id`, if any.
pub open spec fn tracked_of(s: OrderSystemView, id: OrderId) -> Option<TrackedView> {
    match order_pos(s, id) {
        Some(i) => Some(s.orders[i]),
        None => None,
    }
}

/// Position of the holding for `symbol`, if any.
pub open spec fn holding_pos(s: OrderSystemView, symbol: Seq<char>) -> Option<int> {
    if exists|i: int| 0 <= i < s.holdings.len() && s.holdings[i].symbol == symbol {
        Some(choose|i: int| 0 <= i < s.holdings.len() && s.holdings[i].symbol == symbol)
    } else {
        None
    }
}

/// The holding for `symbol`, if any.
pub open spec fn holding_of(s: OrderSystemView, symbol: Seq<char>) -> Option<HoldingView> {
    match holding_pos(s, symbol) {
        Some(i) => Some(s.holdings[i]),
        None => None,
    }
}

/// Whether a fill with identifier `id` was applied.
pub open spec fn has_fill(s: OrderSystemView, id: FillId) -> bool {
    exists|i: int| 0 <= i < s.fills.len() && s.fills[i].id == id
}

/// The applied fill with identifier `id`, if any.
pub open spec fn fill_of(s: OrderSystemView, id: FillId) -> Option<FillView> {
    if has_fill(s, id) {
        Some(s.fills[choose|i: int| 0 <= i < s.fills.len() && s.fills[i].id == id])
    } else {
        None
    }
}

/// Live statuses: the order can still be acknowledged, filled or canceled.
pub open spec fn is_live(s: OrderStatus) -> bool {
    !is_terminal(s)
}

/// A live close order on `symbol`.
pub open spec fn is_working_close(t: TrackedView, symbol: Seq<char>) -> bool {
    &&& t.order.symbol == symbol
    &&& t.order.position_effect == PositionEffect::Close
    &&& is_live(t.order.status)
}

/// A live open order on `symbol`.
pub open spec fn is_live_open(t: TrackedView, symbol: Seq<char>) -> bool {
    &&& t.order.symbol == symbol
    &&& t.order.position_effect == PositionEffect::Open
    &&& is_live(t.order.status)
}

/// Sum, in order, of the leaves quantities of the live close orders on
/// `symbol`; `None` on overflow.
pub open spec fn working_close_qty(orders: Seq<TrackedView>, symbol: Seq<char>) -> Option<Dec>
    decreases orders.len(),
{
    if orders.len() == 0 {
        Some(zero_dec())
    } else {
        match working_close_qty(orders.drop_last(), symbol) {
            None => None,
            Some(acc) => if is_working_close(orders.last(), symbol) {
                dec_add(acc, leaves_of(orders.last().order))
            } else {
                Some(acc)
            },
        }
    }
}

/// Whether a live open order exists on `symbol`.
pub open spec fn has_live_open(orders: Seq<TrackedView>, symbol: Seq<char>) -> bool {
    exists|i: int| 0 <= i < orders.len() && is_live_open(#[trigger] orders[i], symbol)
}

/// Side of the first live open order on `symbol` whose side is not `side`.
pub open spec fn conflicting_open_side(orders: Seq<TrackedView>, symbol: Seq<char>, side: OrderSide) -> Option<OrderSide>
    decreases orders.len(),
{
    if orders.len() == 0 {
        None
    } else if is_live_open(orders[0], symbol) && orders[0].order.side != side {
        Some(orders[0].order.side)
    } else {
        conflicting_open_side(orders.drop_first(), symbol, side)
    }
}

/// Closeable quantity of `symbol` after subtracting the leaves of working
/// close orders (zero when they reserve everything), or the error.
pub open spec fn available_close(s: OrderSystemView, symbol: Seq<char>) -> Result<Dec, SysErrorView> {
    if is_blank_spec(symbol) {
        Err(SysErrorView::Order(OrderError::EmptySymbol))
    } else {
        match holding_of(s, symbol) {
            None => Err(SysErrorView::NoOpenPosition { symbol }),
            Some(h) => match lots_sum(h.lots, LotTerm::Remaining) {
                None => Err(SysErrorView::ArithmeticOverflow),
                Some(open) => if open.value() == 0 {
                    Err(SysErrorView::NoOpenPosition { symbol })
                } else {
                    match working_close_qty(s.orders, symbol) {
                        None => Err(SysErrorView::ArithmeticOverflow),
                        Some(w) => match dec_sub(open, w) {
                            None => Err(SysErrorView::ArithmeticOverflow),
                            Some(a) => if a.value() <= 0 {
                                Ok(zero_dec())
                            } else {
                                Ok(a)
                            },
                        },
                    }
                },
            },
        }
    }
}

/// The order side that closes the open exposure of `symbol`, or the error.
pub open spec fn close_side_for(s: OrderSystemView, symbol: Seq<char>) -> Result<OrderSide, SysErrorView> {
    if is_blank_spec(symbol) {
        Err(SysErrorView::Order(OrderError::EmptySymbol))
    } else {
        match holding_of(s, symbol) {
            None => Err(SysErrorView::NoOpenPosition { symbol }),
            Some(h) => match crate::order_sys::holding::first_open_side(h.lots) {
                Some(LotSide::Long) => Ok(OrderSide::Sell),
                Some(LotSide::Short) => Ok(OrderSide::Buy),
                None => Err(SysErrorView::NoOpenPosition { symbol }),
            },
        }
    }
}

/// Once a prefix of the working-close sum overflows, the whole sum does.
pub proof fn lemma_working_close_none(orders: Seq<TrackedView>, symbol: Seq<char>, j: int)
    requires
        0 <= j <= orders.len(),
        working_close_qty(orders.take(j), symbol) is None,
    ensures
        working_close_qty(orders, symbol) is None,
    decreases orders.len() - j,
{
    if j < orders.len() {
        assert(orders.take(j + 1).drop_last() =~= orders.take(j));
        lemma_working_close_none(orders, symbol, j + 1);
    } else {
        assert(orders.take(j) =~= orders);
    }
}

/// The first conflicting side found from position `k` on is the first one overall
/// when none occurs before `k`.
pub proof fn lemma_conflicting_skip(orders: Seq<TrackedView>, symbol: Seq<char>, side: OrderSide, k: int)
    requires
        0 <= k <= orders.len(),
        forall|m: int| 0 <= m < k ==> !(is_live_open(#[trigger] orders[m], symbol) && orders[m].order.side != side),
    ensures
        conflicting_open_side(orders, symbol, side) == conflicting_open_side(orders.skip(k), symbol, side),
    decreases k,
{
    if k > 0 {
        lemma_conflicting_skip(orders, symbol, side, k - 1);
        assert(orders.skip(k - 1).drop_first() =~= orders.skip(k));
        assert(orders.skip(k - 1)[0] == orders[k - 1]);
    } else {
        assert(orders.skip(0) =~= orders);
    }
}

/// Position of the first lot carrying `id` that is open (when `open_only`)
/// or any lot carrying `id`.
pub open spec fn lot_pos(lots: Seq<LotView>, id: LotId, open_only: bool) -> Option<int>
    decreases lots.len(),
{
    if lots.len() == 0 {
        None
    } else if lots[0].id == id && (!open_only || lot_is_open(lots[0])) {
        Some(0)
    } else {
        match lot_pos(lots.drop_first(), id, open_only) {
            Some(i) => Some(i + 1),
            None => None,
        }
    }
}

/// Reservations of a `SpecificLot` close order with unreserved quantity
/// `remaining`: walking the selected ids, each open selected lot reserves the
/// smaller of its remaining quantity and what is still unreserved.
pub open spec fn reservations(lots: Seq<LotView>, ids: Seq<LotId>, remaining: Dec) -> Seq<(LotId, Dec)>
    decreases ids.len(),
{
    if ids.len() == 0 || remaining.value() <= 0 {
        Seq::empty()
    } else {
        match lot_pos(lots, ids[0], true) {
            None => reservations(lots, ids.drop_first(), remaining),
            Some(p) => {
                let reserved = dec_min(remaining, lots[p].remaining_qty);
                if reserved.value() > 0 {
                    seq![(ids[0], reserved)].add(reservations(lots, ids.drop_first(), dec_sub(remaining, reserved).unwrap()))
                } else {
                    reservations(lots, ids.drop_first(), remaining)
                }
            },
        }
    }
}

/// Reservations of one tracked order on the lots of a holding.
pub open spec fn order_reservations(lots: Seq<LotView>, t: TrackedView) -> Seq<(LotId, Dec)> {
    match t.close_method {
        Some(ReliefView::SpecificLot(ids)) => reservations(lots, ids, leaves_of(t.order)),
        _ => Seq::empty(),
    }
}

/// Quantity the first reservation on `id` holds, zero when none does.
pub open spec fn reserved_on(res: Seq<(LotId, Dec)>, id: LotId) -> Dec
    decreases res.len(),
{
    if res.len() == 0 {
        zero_dec()
    } else if res[0].0 == id {
        res[0].1
    } else {
        reserved_on(res.drop_first(), id)
    }
}

/// Sum, in order, of what the live close orders on the holding's symbol
/// reserve on lot `id`; `None` on overflow.
pub open spec fn reserved_qty(orders: Seq<TrackedView>, h: HoldingView, id: LotId) -> Option<Dec>
    decreases orders.len(),
{
    if orders.len() == 0 {
        Some(zero_dec())
    } else {
        match reserved_qty(orders.drop_last(), h, id) {
            None => None,
            Some(acc) => if is_working_close(orders.last(), h.symbol) {
                dec_add(acc, reserved_on(order_reservations(h.lots, orders.last()), id))
            } else {
                Some(acc)
            },
        }
    }
}

/// Validation of a `SpecificLot` selection from position `k` on, with
/// `available` the unreserved quantity found so far: duplicates, unknown and
/// closed lots are errors; otherwise the total unreserved quantity.
pub open spec fn selection_available(
    orders: Seq<TrackedView>,
    h: HoldingView,
    ids: Seq<LotId>,
    k: int,
    available: Dec,
) -> Result<Dec, SysErrorView>
    decreases ids.len() - k,
{
    if k < 0 || k >= ids.len() {
        Ok(available)
    } else {
        let id = ids[k];
        if ids.take(k).contains(id) {
            Err(SysErrorView::Holding(HoldingError::DuplicateLotIdSelection { lot_id: id }))
        } else {
            match lot_pos(h.lots, id, false) {
                None => Err(SysErrorView::Holding(HoldingError::UnknownLotId { lot_id: id })),
                Some(p) => if !lot_is_open(h.lots[p]) {
                    Err(SysErrorView::Holding(HoldingError::LotNotOpen { lot_id: id }))
                } else {
                    match reserved_qty(orders, h, id) {
                        None => Err(SysErrorView::ArithmeticOverflow),
                        Some(reserved) => match dec_sub(h.lots[p].remaining_qty, reserved) {
                            None => Err(SysErrorView::ArithmeticOverflow),
                            Some(on_lot) => if on_lot.value() > 0 {
                                match dec_add(available, on_lot) {
                                    None => Err(SysErrorView::ArithmeticOverflow),
                                    Some(a) => selection_available(orders, h, ids, k + 1, a),
                                }
                            } else {
                                selection_available(orders, h, ids, k + 1, available)
                            },
                        },
                    }
                },
            }
        }
    }
}

/// Validation of a close order's lot-relief override before any fill: only
/// a `SpecificLot` selection is checked, and it must cover `requested`.
pub open spec fn relief_check(orders: Seq<TrackedView>, h: HoldingView, requested: Dec, m: Option<ReliefView>) -> Result<(), SysErrorView> {
    match m {
        Some(ReliefView::SpecificLot(ids)) => match selection_available(orders, h, ids, 0, zero_dec()) {
            Err(e) => Err(e),
            Ok(a) => if a.value() < requested.value() {
                Err(SysErrorView::Holding(HoldingError::SpecificLotQuantityInsufficient { requested, available: a }))
            } else {
                Ok(())
            },
        },
        _ => Ok(()),
    }
}

/// Once a prefix of the reserved sum overflows, the whole sum does.
pub proof fn lemma_reserved_none(orders: Seq<TrackedView>, h: HoldingView, id: LotId, j: int)
    requires
        0 <= j <= orders.len(),
        reserved_qty(orders.take(j), h, id) is None,
    ensures
        reserved_qty(orders, h, id) is None,
    decreases orders.len() - j,
{
    if j < orders.len() {
        assert(orders.take(j + 1).drop_last() =~= orders.take(j));
        lemma_reserved_none(orders, h, id, j + 1);
    } else {
        assert(orders.take(j) =~= orders);
    }
}

/// `lot_pos` found from position `k` on, shifted, when no earlier lot matches.
pub proof fn lemma_lot_pos_skip(lots: Seq<LotView>, id: LotId, open_only: bool, k: int)
    requires
        0 <= k <= lots.len(),
        forall|m: int| 0 <= m < k ==> !((#[trigger] lots[m]).id == id && (!open_only || lot_is_open(lots[m]))),
    ensures
        lot_pos(lots, id, open_only) == match lot_pos(lots.skip(k), id, open_only) {
            Some(i) => Some(i + k),
            None => None::<int>,
        },
    decreases k,
{
    if k > 0 {
        lemma_lot_pos_skip(lots, id, open_only, k - 1);
        assert(lots.skip(k - 1).drop_first() =~= lots.skip(k));
        assert(lots.skip(k - 1)[0] == lots[k - 1]);
    } else {
        assert(lots.skip(0) =~= lots);
    }
}

/// `reserved_on` from position `k` on equals the whole when no earlier
/// reservation is on `id`.
pub proof fn lemma_reserved_on_skip(res: Seq<(LotId, Dec)>, id: LotId, k: int)
    requires
        0 <= k <= res.len(),
        forall|m: int| 0 <= m < k ==> (#[trigger] res[m]).0 != id,
    ensures
        reserved_on(res, id) == reserved_on(res.skip(k), id),
    decreases k,
{
    if k > 0 {
        lemma_reserved_on_skip(res, id, k - 1);
        assert(res.skip(k - 1).drop_first() =~= res.skip(k));
        assert(res.skip(k - 1)[0] == res[k - 1]);
    } else {
        assert(res.skip(0) =~= res);
    }
}

/// Result of one order submission: the submitted order and its `PendingNew`
/// report, plus the auto-generated close order of a staged reversal.
#[derive(Debug, PartialEq, Eq)]
pub struct SubmittedOrder {
    /// Snapshot of the submitted order after insertion.
    pub order: Order,
    /// `PendingNew` execution report emitted for the submission.
    pub report: ExecutionReport,
    /// Auto-generated close order that must complete before this order can
    /// open opposite-side exposure, when reversal was requested.
    pub auto_close_order: Option<Box<SubmittedOrder>>,
}

/// Abstract value of a successful submission: order, report and, for a
/// staged reversal, the auto-close order and its report.
pub type SubmissionView = (OrderView, ExecutionReportView, Option<(OrderView, ExecutionReportView)>);

/// `r` carries exactly the submission `v`.
pub open spec fn submitted_matches(r: SubmittedOrder, v: SubmissionView) -> bool {
    &&& r.order@ == v.0
    &&& r.report@ == v.1
    &&& match v.2 {
        None => r.auto_close_order is None,
        Some(c) => r.auto_close_order is Some && r.auto_close_order.unwrap().order@ == c.0
            && r.auto_close_order.unwrap().report@ == c.1 && r.auto_close_order.unwrap().auto_close_order is None,
    }
}

/// `r` is the submission outcome `v`.
pub open spec fn submit_result_is(r: Result<SubmittedOrder, OrderSystemError>, v: Result<SubmissionView, SysErrorView>) -> bool {
    match v {
        Ok(x) => r is Ok && submitted_matches(r.unwrap(), x),
        Err(e) => r is Err && r->Err_0@ == e,
    }
}

/// The lot side an opening order side creates.
pub open spec fn open_lot_side(side: OrderSide) -> LotSide {
    match side {
        OrderSide::Buy => LotSide::Long,
        OrderSide::Sell => LotSide::Short,
    }
}

/// The order `Order::new` builds with identifier `id` for request `q`.
pub open spec fn new_order_view(id: OrderId, q: RequestView) -> OrderView {
    OrderView {
        id,
        symbol: q.symbol,
        side: q.side,
        position_effect: q.position_effect,
        order_type: q.order_type,
        time_in_force: q.time_in_force,
        submitted_at: q.submitted_at,
        last_event_at: q.submitted_at,
        requested_qty: q.qty,
        limit_price: q.limit_price,
        stop_price: q.stop_price,
        status: OrderStatus::Pending,
        filled_qty: zero_dec(),
        average_fill_price: None,
        cumulative_fees: zero_dec(),
        fill_ids: Seq::empty(),
        canceled_at: None,
        rejected_at: None,
        reject_reason: None,
    }
}

/// Inserting one already-validated order: an order identifier is spent
/// first (even when `Order::new` then rejects the request), then a report
/// identifier; the order and its `PendingNew` report are appended.
pub open spec fn single_submission(s: OrderSystemView, q: RequestView, contingent: Option<OrderId>) -> (OrderSystemView, Result<(OrderView, ExecutionReportView), SysErrorView>) {
    if s.next_order_id == u64::MAX {
        (s, Err(SysErrorView::ArithmeticOverflow))
    } else {
        let id = OrderId(s.next_order_id);
        let s1 = OrderSystemView { next_order_id: (s.next_order_id + 1) as u64, ..s };
        match crate::order_sys::order::new_order_error(q.symbol, q.order_type, q.qty, q.limit_price, q.stop_price) {
            Some(e) => (s1, Err(SysErrorView::Order(e))),
            None => if s1.next_report_id == u64::MAX {
                (s1, Err(SysErrorView::ArithmeticOverflow))
            } else {
                let o = new_order_view(id, q);
                let rep = snapshot(ExecutionReportId(s1.next_report_id), o, None, ExecutionReportType::PendingNew, q.submitted_at, zero_dec(), None, zero_dec(), None);
                (
                    OrderSystemView {
                        next_report_id: (s1.next_report_id + 1) as u64,
                        orders: s1.orders.push(TrackedView { order: o, close_method: q.lot_relief_method, contingent_on: contingent }),
                        reports: s1.reports.push(rep),
                        ..s1
                    },
                    Ok((o, rep)),
                )
            },
        }
    }
}

/// Validation of a new opening order against live open orders and the
/// current exposure of its symbol.
pub open spec fn open_check(s: OrderSystemView, q: RequestView) -> Result<(), SysErrorView> {
    match conflicting_open_side(s.orders, q.symbol, q.side) {
        Some(ls) => Err(SysErrorView::LiveOpenOrderSideConflict { symbol: q.symbol, requested: q.side, live_order_side: ls }),
        None => match holding_of(s, q.symbol) {
            Some(h) => match crate::order_sys::holding::first_open_side(h.lots) {
                Some(hs) => if hs != open_lot_side(q.side) {
                    Err(SysErrorView::OpenSideMismatch { symbol: q.symbol, requested: q.side, holding_side: hs })
                } else {
                    Ok(())
                },
                None => Ok(()),
            },
            None => Ok(()),
        },
    }
}

/// Validation of a new close order against the open exposure, its
/// lot-relief override and the unreserved closeable quantity.
pub open spec fn close_check(s: OrderSystemView, q: RequestView) -> Result<(), SysErrorView> {
    match holding_of(s, q.symbol) {
        None => Err(SysErrorView::NoOpenPosition { symbol: q.symbol }),
        Some(h) => match crate::order_sys::holding::first_open_side(h.lots) {
            None => Err(SysErrorView::NoOpenPosition { symbol: q.symbol }),
            Some(hs) => if crate::order_sys::holding::closing_side(q.side) != hs {
                Err(SysErrorView::CloseSideMismatch { symbol: q.symbol, requested: q.side, holding_side: hs })
            } else {
                match relief_check(s.orders, h, q.qty, q.lot_relief_method) {
                    Err(e) => Err(e),
                    Ok(_) => match available_close(s, q.symbol) {
                        Err(e) => Err(e),
                        Ok(a) => if q.qty.value() > a.value() {
                            Err(SysErrorView::CloseQuantityExceedsAvailable { symbol: q.symbol, requested: q.qty, available: a })
                        } else {
                            Ok(())
                        },
                    },
                }
            },
        },
    }
}

/// Validation of a submission: a non-blank symbol, then the open or close checks.
pub open spec fn submission_check(s: OrderSystemView, q: RequestView) -> Result<(), SysErrorView> {
    if is_blank_spec(q.symbol) {
        Err(SysErrorView::Order(OrderError::EmptySymbol))
    } else if q.position_effect == PositionEffect::Open {
        open_check(s, q)
    } else {
        close_check(s, q)
    }
}

/// The request of the given fields with no override and no reversal.
pub open spec fn plain_request(q: RequestView, side: OrderSide, effect: PositionEffect, qty: Dec) -> RequestView {
    RequestView { side, position_effect: effect, qty, lot_relief_method: None, allow_reversal: false, ..q }
}

/// Staging of an automatic reversal: when an opening request with
/// `allow_reversal` faces opposite exposure, a close order for the whole
/// open quantity is submitted, then the open order, waiting on the close.
/// `Ok(None)` when no reversal applies.
pub open spec fn reversal_submission(s: OrderSystemView, q: RequestView) -> (OrderSystemView, Result<Option<SubmissionView>, SysErrorView>) {
    if q.position_effect != PositionEffect::Open || !q.allow_reversal {
        (s, Ok(None))
    } else if is_blank_spec(q.symbol) {
        (s, Err(SysErrorView::Order(OrderError::EmptySymbol)))
    } else {
        match holding_of(s, q.symbol) {
            None => (s, Ok(None)),
            Some(h) => match crate::order_sys::holding::first_open_side(h.lots) {
                None => (s, Ok(None)),
                Some(hs) => if hs == open_lot_side(q.side) {
                    (s, Ok(None))
                } else if has_live_open(s.orders, q.symbol) {
                    (s, Err(SysErrorView::ReversalBlockedByLiveOpenOrders { symbol: q.symbol }))
                } else {
                    match lots_sum(h.lots, LotTerm::Remaining) {
                        None => (s, Err(SysErrorView::ArithmeticOverflow)),
                        Some(open) => match available_close(s, q.symbol) {
                            Err(e) => (s, Err(e)),
                            Ok(a) => if a.value() != open.value() {
                                (s, Err(SysErrorView::CloseQuantityExceedsAvailable { symbol: q.symbol, requested: open, available: a }))
                            } else {
                                let cq = plain_request(q, q.side, PositionEffect::Close, open);
                                match close_check(s, cq) {
                                    Err(e) => (s, Err(e)),
                                    Ok(_) => {
                                        let (s1, r1) = single_submission(s, cq, None);
                                        match r1 {
                                            Err(e) => (s1, Err(e)),
                                            Ok(c) => {
                                                let oq = plain_request(q, q.side, PositionEffect::Open, q.qty);
                                                let (s2, r2) = single_submission(s1, oq, Some(c.0.id));
                                                match r2 {
                                                    Err(e) => (s2, Err(e)),
                                                    Ok(o) => (s2, Ok(Some((o.0, o.1, Some(c))))),
                                                }
                                            },
                                        }
                                    },
                                }
                            },
                        },
                    }
                },
            },
        }
    }
}

/// Outcome of `submit_order`: a staged reversal when one applies, otherwise
/// validation and a single submission.
pub open spec fn order_submission(s: OrderSystemView, q: RequestView) -> (OrderSystemView, Result<SubmissionView, SysErrorView>) {
    let (s1, rv) = reversal_submission(s, q);
    match rv {
        Err(e) => (s1, Err(e)),
        Ok(Some(x)) => (s1, Ok(x)),
        Ok(None) => match submission_check(s, q) {
            Err(e) => (s, Err(e)),
            Ok(_) => {
                let (s2, r2) = single_submission(s, q, None);
                match r2 {
                    Err(e) => (s2, Err(e)),
                    Ok(o) => (s2, Ok((o.0, o.1, None))),
                }
            },
        },
    }
}

/// Order state after `acknowledge` at `t`.
pub open spec fn ack_view(o: OrderView, t: Timestamp) -> OrderView {
    OrderView {
        status: if o.filled_qty.value() == 0 { OrderStatus::Working } else { o.status },
        last_event_at: t,
        ..o
    }
}

/// Order state after `cancel` at `t`.
pub open spec fn cancel_view(o: OrderView, t: Timestamp) -> OrderView {
    OrderView { status: OrderStatus::Canceled, canceled_at: Some(t), last_event_at: t, ..o }
}

/// Order state after `reject` at `t` with `reason`.
pub open spec fn reject_view(o: OrderView, t: Timestamp, reason: Seq<char>) -> OrderView {
    OrderView {
        status: OrderStatus::Rejected,
        rejected_at: Some(t),
        reject_reason: Some(reason),
        last_event_at: t,
        ..o
    }
}

/// The error `reject` reports at `t`, if any.
pub open spec fn reject_error(o: OrderView, t: Timestamp) -> Option<OrderError> {
    if is_terminal(o.status) {
        Some(OrderError::TerminalStatus { order_id: o.id, status: o.status })
    } else if o.filled_qty.value() != 0 {
        Some(OrderError::RejectAfterFill { order_id: o.id, filled_qty: o.filled_qty })
    } else if t < o.last_event_at {
        Some(OrderError::EventOutOfOrder { previous_timestamp: o.last_event_at, new_timestamp: t })
    } else {
        None
    }
}

/// `s` with a report appended when a report identifier is left.
pub open spec fn with_report(s: OrderSystemView, make: spec_fn(ExecutionReportId) -> ExecutionReportView) -> OrderSystemView {
    if s.next_report_id == u64::MAX {
        s
    } else {
        OrderSystemView {
            next_report_id: (s.next_report_id + 1) as u64,
            reports: s.reports.push(make(ExecutionReportId(s.next_report_id))),
            ..s
        }
    }
}

/// Text of the reports that cascade a canceled reversal close order.
pub open spec fn cascade_cancel_text() -> Seq<char> {
    "canceled because reversal close order was canceled"@
}

/// Reason given to orders rejected because their reversal close order was.
pub open spec fn cascade_reject_reason() -> Seq<char> {
    "parent reversal close order failed"@
}

/// Cascading a cancel from `parent` to the live orders staged on it, from
/// position `k` on: each is canceled at `t`, stops waiting, and gets a
/// `Canceled` report while report identifiers last. An order whose cancel at
/// `t` would be out of order is left as it is.
pub open spec fn cascade_cancel(s: OrderSystemView, parent: OrderId, t: Timestamp, k: int) -> OrderSystemView
    decreases s.orders.len() - k,
{
    if k < 0 || k >= s.orders.len() {
        s
    } else {
        let e = s.orders[k];
        let s2 = if e.contingent_on == Some(parent) && is_live(e.order.status) && event_check_error(e.order, t) is None {
            let o2 = cancel_view(e.order, t);
            with_report(
                OrderSystemView { orders: s.orders.update(k, TrackedView { order: o2, contingent_on: None, ..e }), ..s },
                |rid: ExecutionReportId| snapshot(rid, o2, None, ExecutionReportType::Canceled, t, zero_dec(), None, zero_dec(), Some(cascade_cancel_text())),
            )
        } else {
            s
        };
        cascade_cancel(s2, parent, t, k + 1)
    }
}

/// Cascading a reject from `parent` to the live orders staged on it, from
/// position `k` on, as [`cascade_cancel`] does for cancels.
pub open spec fn cascade_reject(s: OrderSystemView, parent: OrderId, t: Timestamp, reason: Seq<char>, k: int) -> OrderSystemView
    decreases s.orders.len() - k,
{
    if k < 0 || k >= s.orders.len() {
        s
    } else {
        let e = s.orders[k];
        let s2 = if e.contingent_on == Some(parent) && is_live(e.order.status) && reject_error(e.order, t) is None {
            let o2 = reject_view(e.order, t, reason);
            with_report(
                OrderSystemView { orders: s.orders.update(k, TrackedView { order: o2, contingent_on: None, ..e }), ..s },
                |rid: ExecutionReportId| snapshot(rid, o2, None, ExecutionReportType::Rejected, t, zero_dec(), None, zero_dec(), Some(reason)),
            )
        } else {
            s
        };
        cascade_reject(s2, parent, t, reason, k + 1)
    }
}

/// Outcome of acknowledging order `id` at `t`: a report identifier is spent
/// first, then the order must exist, not wait on a reversal close order and
/// accept the acknowledgement.
pub open spec fn acknowledge_outcome(s: OrderSystemView, id: OrderId, t: Timestamp) -> (OrderSystemView, Result<ExecutionReportView, SysErrorView>) {
    if s.next_report_id == u64::MAX {
        (s, Err(SysErrorView::ArithmeticOverflow))
    } else {
        let rid = ExecutionReportId(s.next_report_id);
        let s1 = OrderSystemView { next_report_id: (s.next_report_id + 1) as u64, ..s };
        match order_pos(s, id) {
            None => (s1, Err(SysErrorView::UnknownOrderId { order_id: id })),
            Some(i) => {
                let e = s.orders[i];
                match e.contingent_on {
                    Some(w) => (s1, Err(SysErrorView::OrderNotActive { order_id: id, waiting_on_order_id: w })),
                    None => match event_check_error(e.order, t) {
                        Some(err) => (s1, Err(SysErrorView::Order(err))),
                        None => {
                            let o2 = ack_view(e.order, t);
                            let rep = snapshot(rid, o2, None, ExecutionReportType::New, t, zero_dec(), None, zero_dec(), None);
                            (
                                OrderSystemView {
                                    orders: s1.orders.update(i, TrackedView { order: o2, ..e }),
                                    reports: s1.reports.push(rep),
                                    ..s1
                                },
                                Ok(rep),
                            )
                        },
                    },
                }
            },
        }
    }
}

/// Outcome of canceling order `id` at `t`: a report identifier is spent
/// first; on success the orders staged on it are canceled too.
pub open spec fn cancel_outcome(s: OrderSystemView, id: OrderId, t: Timestamp) -> (OrderSystemView, Result<ExecutionReportView, SysErrorView>) {
    if s.next_report_id == u64::MAX {
        (s, Err(SysErrorView::ArithmeticOverflow))
    } else {
        let rid = ExecutionReportId(s.next_report_id);
        let s1 = OrderSystemView { next_report_id: (s.next_report_id + 1) as u64, ..s };
        match order_pos(s, id) {
            None => (s1, Err(SysErrorView::UnknownOrderId { order_id: id })),
            Some(i) => {
                let e = s.orders[i];
                match event_check_error(e.order, t) {
                    Some(err) => (s1, Err(SysErrorView::Order(err))),
                    None => {
                        let o2 = cancel_view(e.order, t);
                        let rep = snapshot(rid, o2, None, ExecutionReportType::Canceled, t, zero_dec(), None, zero_dec(), None);
                        let s2 = OrderSystemView {
                            orders: s1.orders.update(i, TrackedView { order: o2, ..e }),
                            reports: s1.reports.push(rep),
                            ..s1
                        };
                        (cascade_cancel(s2, id, t, 0), Ok(rep))
                    },
                }
            },
        }
    }
}

/// Outcome of rejecting order `id` at `t` with `reason`: a report
/// identifier is spent first; on success the orders staged on it are
/// rejected too.
pub open spec fn reject_outcome(s: OrderSystemView, id: OrderId, t: Timestamp, reason: Seq<char>) -> (OrderSystemView, Result<ExecutionReportView, SysErrorView>) {
    if s.next_report_id == u64::MAX {
        (s, Err(SysErrorView::ArithmeticOverflow))
    } else {
        let rid = ExecutionReportId(s.next_report_id);
        let s1 = OrderSystemView { next_report_id: (s.next_report_id + 1) as u64, ..s };
        match order_pos(s, id) {
            None => (s1, Err(SysErrorView::UnknownOrderId { order_id: id })),
            Some(i) => {
                let e = s.orders[i];
                match reject_error(e.order, t) {
                    Some(err) => (s1, Err(SysErrorView::Order(err))),
                    None => {
                        let o2 = reject_view(e.order, t, reason);
                        let rep = snapshot(rid, o2, None, ExecutionReportType::Rejected, t, zero_dec(), None, zero_dec(), Some(reason));
                        let s2 = OrderSystemView {
                            orders: s1.orders.update(i, TrackedView { order: o2, ..e }),
                            reports: s1.reports.push(rep),
                            ..s1
                        };
                        (cascade_reject(s2, id, t, cascade_reject_reason(), 0), Ok(rep))
                    },
                }
            },
        }
    }
}

/// `r` is the report outcome `v`.
pub open spec fn report_result_is(r: Result<ExecutionReport, OrderSystemError>, v: Result<ExecutionReportView, SysErrorView>) -> bool {
    match v {
        Ok(x) => r is Ok && r.unwrap()@ == x,
        Err(e) => r is Err && r->Err_0@ == e,
    }
}

/// Updating orders without changing identifiers keeps a system valid.
pub proof fn lemma_same_ids_valid(s: OrderSystemView, orders2: Seq<TrackedView>)
    requires
        system_valid(s),
        orders2.len() == s.orders.len(),
        forall|i: int| 0 <= i < s.orders.len() ==> (#[trigger] orders2[i]).order.id == s.orders[i].order.id,
    ensures
        system_valid(OrderSystemView { orders: orders2, ..s }),
{
    assert forall|i: int, j: int| 0 <= i < j < orders2.len() implies (#[trigger] orders2[i]).order.id.0 < (#[trigger] orders2[j]).order.id.0 by {
        assert(s.orders[i].order.id.0 < s.orders[j].order.id.0);
    }
}

/// Result of applying one fill through the facade.
#[derive(Debug, PartialEq, Eq)]
pub struct AppliedFill {
    /// Snapshot of the order after the fill.
    pub order: Order,
    /// `Trade` execution report emitted for the fill.
    pub report: ExecutionReport,
    /// Lot opened by an opening fill.
    pub opened_lot_id: Option<LotId>,
    /// Holding-level close summary of a closing fill.
    pub holding_close: Option<HoldingClose>,
}

/// Abstract value of an [`AppliedFill`].
pub type AppliedView = (OrderView, ExecutionReportView, Option<LotId>, Option<HoldingCloseView>);

pub open spec fn applied_view(a: AppliedFill) -> AppliedView {
    (
        a.order@,
        a.report@,
        a.opened_lot_id,
        match a.holding_close {
            Some(c) => Some(c@),
            None => None,
        },
    )
}

pub open spec fn applied_result_view(r: Result<AppliedFill, OrderSystemError>) -> Result<AppliedView, SysErrorView> {
    match r {
        Ok(a) => Ok(applied_view(a)),
        Err(e) => Err(e@),
    }
}

/// Position at which a holding for `symbol` is inserted to keep symbol order.
pub open spec fn holding_insert_pos(hs: Seq<HoldingView>, symbol: Seq<char>) -> int
    decreases hs.len(),
{
    if hs.len() == 0 {
        0
    } else if char_seq_lt(hs[0].symbol, symbol) {
        1 + holding_insert_pos(hs.drop_first(), symbol)
    } else {
        0
    }
}

/// Holdings with `h` stored under its symbol: replacing the holding of that
/// symbol, or inserted in symbol order.
pub open spec fn put_holding(hs: Seq<HoldingView>, h: HoldingView) -> Seq<HoldingView> {
    if exists|i: int| 0 <= i < hs.len() && hs[i].symbol == h.symbol {
        hs.update(choose|i: int| 0 <= i < hs.len() && hs[i].symbol == h.symbol, h)
    } else {
        hs.insert(holding_insert_pos(hs, h.symbol), h)
    }
}

/// Position at which a fill with identifier `id` is inserted to keep
/// identifier order.
pub open spec fn fill_insert_pos(fs: Seq<FillView>, id: FillId) -> int
    decreases fs.len(),
{
    if fs.len() == 0 {
        0
    } else if fs[0].id.0 < id.0 {
        1 + fill_insert_pos(fs.drop_first(), id)
    } else {
        0
    }
}

/// Selected lot ids that still name an open lot of `lots`, in order.
pub open spec fn retain_open(lots: Seq<LotView>, ids: Seq<LotId>) -> Seq<LotId>
    decreases ids.len(),
{
    if ids.len() == 0 {
        Seq::empty()
    } else if lot_pos(lots, ids.last(), true) is Some {
        retain_open(lots, ids.drop_last()).push(ids.last())
    } else {
        retain_open(lots, ids.drop_last())
    }
}

/// An order's close override after one of its close fills: dropped once
/// nothing is left to fill; a `SpecificLot` selection keeps only the lots
/// still open, so later fills skip fully consumed ones.
pub open spec fn advanced_method(o: OrderView, h: HoldingView, m: Option<ReliefView>) -> Option<ReliefView> {
    if leaves_of(o).value() == 0 {
        None
    } else {
        match m {
            Some(ReliefView::SpecificLot(ids)) => Some(ReliefView::SpecificLot(retain_open(h.lots, ids))),
            _ => m,
        }
    }
}

/// Orders with the wait on `parent` lifted.
pub open spec fn activate(orders: Seq<TrackedView>, parent: OrderId) -> Seq<TrackedView> {
    Seq::new(
        orders.len(),
        |i: int| if orders[i].contingent_on == Some(parent) {
            TrackedView { contingent_on: None, ..orders[i] }
        } else {
            orders[i]
        },
    )
}

/// What opening a lot for opening fill `f` (of the holding's symbol) with
/// lot id `lid` does to holding `h`: the new holding and the error, if any.
pub open spec fn open_step(h: HoldingView, lid: LotId, f: FillView) -> (HoldingView, Option<HoldingError>) {
    if fill_applied(h.lots, f.id) {
        (h, Some(HoldingError::DuplicateFillId { fill_id: f.id }))
    } else if dec_mul(f.qty, f.price) is None {
        (h, Some(HoldingError::Lot(crate::order_sys::lot::LotError::ArithmeticOverflow)))
    } else {
        match open_lot_error(h.lots, lot_from_fill(lid, f)) {
            Some(e) => (h, Some(e)),
            None => (HoldingView { lots: h.lots.push(lot_from_fill(lid, f)), ..h }, None),
        }
    }
}

/// What closing with fill `f` and relief method `m` does to holding `h`.
pub open spec fn close_step(h: HoldingView, f: FillView, m: ReliefView, h2: HoldingView, hc: Result<HoldingCloseView, HoldingError>) -> bool {
    if close_accepted(h, f) {
        exists|pr: Result<Seq<crate::order_sys::holding::ClosePlanEntry>, HoldingError>|
            plan_outcome(h.lots, f, m, pr) && #[trigger] close_applied(h, f, pr, h2, hc)
    } else {
        h2 == h && (hc matches Err(e) && close_rejection(h, f, e))
    }
}

/// Committing an applied fill: a report identifier is spent, the order, its
/// override, the holding, the fill and the `Trade` report are stored, and
/// a filled order releases the orders staged on it.
pub open spec fn commit_fill(
    s: OrderSystemView,
    i: int,
    e: TrackedView,
    o2: OrderView,
    method: Option<ReliefView>,
    h2: HoldingView,
    f: FillView,
) -> (OrderSystemView, Result<ExecutionReportView, SysErrorView>) {
    if s.next_report_id == u64::MAX {
        (s, Err(SysErrorView::ArithmeticOverflow))
    } else {
        let rep = snapshot(ExecutionReportId(s.next_report_id), o2, Some(f.id), ExecutionReportType::Trade, f.executed_at, f.qty, Some(f.price), f.fees, None);
        let orders = s.orders.update(i, TrackedView { order: o2, close_method: method, ..e });
        (
            OrderSystemView {
                next_report_id: (s.next_report_id + 1) as u64,
                orders: if o2.status == OrderStatus::Filled { activate(orders, o2.id) } else { orders },
                holdings: put_holding(s.holdings, h2),
                fills: s.fills.insert(fill_insert_pos(s.fills, f.id), f),
                reports: s.reports.push(rep),
                ..s
            },
            Ok(rep),
        )
    }
}

/// Outcome of `apply_fill`: `s2` and `r` are a state and result that
/// applying fill `f` to `s` can give (the holding step of a close is the
/// one [`close_step`] describes).
pub open spec fn fill_outcome(s: OrderSystemView, f: FillView, s2: OrderSystemView, r: Result<AppliedView, SysErrorView>) -> bool {
    if has_fill(s, f.id) {
        s2 == s && r == Err::<AppliedView, SysErrorView>(SysErrorView::DuplicateFillId { fill_id: f.id })
    } else {
        match order_pos(s, f.order_id) {
            None => s2 == s && r == Err::<AppliedView, SysErrorView>(SysErrorView::UnknownOrderId { order_id: f.order_id }),
            Some(i) => {
                let e = s.orders[i];
                if e.contingent_on is Some {
                    s2 == s && r == Err::<AppliedView, SysErrorView>(SysErrorView::OrderNotActive {
                        order_id: f.order_id,
                        waiting_on_order_id: e.contingent_on.unwrap(),
                    })
                } else if !fill_accepted(e.order, f) {
                    s2 == s && (r matches Err(SysErrorView::Order(oe)) && fill_rejection(e.order, f, oe))
                } else if fill_amounts(e.order, f) is None {
                    s2 == s && r == Err::<AppliedView, SysErrorView>(SysErrorView::Order(OrderError::ArithmeticOverflow))
                } else {
                    let o2 = filled_state(e.order, f, fill_amounts(e.order, f).unwrap());
                    if f.position_effect == PositionEffect::Open {
                        open_fill_outcome(s, i, e, o2, f, s2, r)
                    } else {
                        close_fill_outcome(s, i, e, o2, f, s2, r)
                    }
                }
            },
        }
    }
}

/// The opening branch of [`fill_outcome`]: a holding identifier is spent
/// when the symbol has no holding yet, then a lot identifier, then the lot
/// is opened and the fill committed.
pub open spec fn open_fill_outcome(s: OrderSystemView, i: int, e: TrackedView, o2: OrderView, f: FillView, s2: OrderSystemView, r: Result<AppliedView, SysErrorView>) -> bool {
    let existing = holding_of(s, f.symbol);
    if existing is None && s.next_holding_id == u64::MAX {
        s2 == s && r == Err::<AppliedView, SysErrorView>(SysErrorView::ArithmeticOverflow)
    } else {
        let h = match existing {
            Some(h) => h,
            None => HoldingView { id: HoldingId(s.next_holding_id), symbol: f.symbol, lot_relief_method: s.default_method, lots: Seq::empty() },
        };
        let sa = if existing is None { OrderSystemView { next_holding_id: (s.next_holding_id + 1) as u64, ..s } } else { s };
        if sa.next_lot_id == u64::MAX {
            s2 == sa && r == Err::<AppliedView, SysErrorView>(SysErrorView::ArithmeticOverflow)
        } else {
            let lid = LotId(sa.next_lot_id);
            let sb = OrderSystemView { next_lot_id: (sa.next_lot_id + 1) as u64, ..sa };
            let (h2, hr) = open_step(h, lid, f);
            match hr {
                Some(he) => s2 == sb && r == Err::<AppliedView, SysErrorView>(SysErrorView::Holding(he)),
                None => {
                    let c = commit_fill(sb, i, e, o2, e.close_method, h2, f);
                    s2 == c.0 && match c.1 {
                        Err(x) => r == Err::<AppliedView, SysErrorView>(x),
                        Ok(rep) => r == Ok::<AppliedView, SysErrorView>((o2, rep, Some(lid), None)),
                    }
                },
            }
        }
    }
}

/// The relief method a close fill of order `e` uses on holding `h`: the
/// order's override, or the holding's own method.
pub open spec fn relief_for(e: TrackedView, h: HoldingView) -> ReliefView {
    match e.close_method {
        Some(m) => m,
        None => h.lot_relief_method,
    }
}

/// Given the holding step of a close fill (`h2`, `hc`), the state and
/// result: a holding error is returned as is, a close is committed.
pub open spec fn close_commit(
    s: OrderSystemView,
    i: int,
    e: TrackedView,
    o2: OrderView,
    f: FillView,
    h2: HoldingView,
    hc: Result<HoldingCloseView, HoldingError>,
    s2: OrderSystemView,
    r: Result<AppliedView, SysErrorView>,
) -> bool {
    match hc {
        Err(he) => s2 == s && r == Err::<AppliedView, SysErrorView>(SysErrorView::Holding(he)),
        Ok(close) => {
            let c = commit_fill(s, i, e, o2, advanced_method(o2, h2, e.close_method), h2, f);
            s2 == c.0 && match c.1 {
                Err(x) => r == Err::<AppliedView, SysErrorView>(x),
                Ok(rep) => r == Ok::<AppliedView, SysErrorView>((o2, rep, None, Some(close))),
            }
        },
    }
}

/// The closing branch of [`fill_outcome`]: the holding closes with the
/// order's override (or its own method), then the fill is committed.
pub open spec fn close_fill_outcome(s: OrderSystemView, i: int, e: TrackedView, o2: OrderView, f: FillView, s2: OrderSystemView, r: Result<AppliedView, SysErrorView>) -> bool {
    match holding_of(s, f.symbol) {
        None => s2 == s && r == Err::<AppliedView, SysErrorView>(SysErrorView::NoOpenPosition { symbol: f.symbol }),
        Some(h) => exists|h2: HoldingView, hc: Result<HoldingCloseView, HoldingError>|
            close_step(h, f, relief_for(e, h), h2, hc) && #[trigger] close_commit(s, i, e, o2, f, h2, hc, s2, r),
    }
}

/// The insert position is the first holding whose symbol does not sort
/// before `symbol`.
pub proof fn lemma_holding_insert_pos(hs: Seq<HoldingView>, symbol: Seq<char>, p: int)
    requires
        0 <= p <= hs.len(),
        forall|k: int| 0 <= k < p ==> char_seq_lt((#[trigger] hs[k]).symbol, symbol),
        p < hs.len() ==> !char_seq_lt(hs[p].symbol, symbol),
    ensures
        holding_insert_pos(hs, symbol) == p,
    decreases p,
{
    if p > 0 {
        let t = hs.drop_first();
        assert forall|k: int| 0 <= k < p - 1 implies char_seq_lt((#[trigger] t[k]).symbol, symbol) by {
            assert(t[k] == hs[k + 1]);
        }
        if p - 1 < t.len() {
            assert(t[p - 1] == hs[p]);
        }
        lemma_holding_insert_pos(t, symbol, p - 1);
        assert(char_seq_lt(hs[0].symbol, symbol));
    }
}

/// The insert position is the first fill whose identifier is not below `id`.
pub proof fn lemma_fill_insert_pos(fs: Seq<FillView>, id: FillId, p: int)
    requires
        0 <= p <= fs.len(),
        forall|k: int| 0 <= k < p ==> (#[trigger] fs[k]).id.0 < id.0,
        p < fs.len() ==> fs[p].id.0 >= id.0,
    ensures
        fill_insert_pos(fs, id) == p,
    decreases p,
{
    if p > 0 {
        let t = fs.drop_first();
        assert forall|k: int| 0 <= k < p - 1 implies (#[trigger] t[k]).id.0 < id.0 by {
            assert(t[k] == fs[k + 1]);
        }
        if p - 1 < t.len() {
            assert(t[p - 1] == fs[p]);
        }
        lemma_fill_insert_pos(t, id, p - 1);
    }
}

/// The insert position of a fill lies within the stored fills.
pub proof fn lemma_fill_insert_pos_bounds(fs: Seq<FillView>, id: FillId)
    ensures
        0 <= fill_insert_pos(fs, id) <= fs.len(),
    decreases fs.len(),
{
    if fs.len() > 0 {
        lemma_fill_insert_pos_bounds(fs.drop_first(), id);
    }
}

/// `retain_open` over a prefix extended by one id.
pub proof fn lemma_retain_open_step(lots: Seq<LotView>, ids: Seq<LotId>, j: int)
    requires
        0 <= j < ids.len(),
    ensures
        retain_open(lots, ids.take(j + 1)) == if lot_pos(lots, ids[j], true) is Some {
            retain_open(lots, ids.take(j)).push(ids[j])
        } else {
            retain_open(lots, ids.take(j))
        },
{
    assert(ids.take(j + 1).drop_last() =~= ids.take(j));
}

/// A fill whose identifier was already applied is refused as a duplicate
/// and changes nothing.
pub proof fn law_duplicate_fill_is_refused(s: OrderSystemView, f: FillView, s2: OrderSystemView, r: Result<AppliedView, SysErrorView>)
    requires
        has_fill(s, f.id),
        fill_outcome(s, f, s2, r),
    ensures
        s2 == s,
        r == Err::<AppliedView, SysErrorView>(SysErrorView::DuplicateFillId { fill_id: f.id }),
{
}

/// Applying a fill is atomic: when it fails, the orders, holdings, fills
/// and reports are exactly as before (only identifier counters may have
/// advanced).
pub proof fn law_failed_fill_changes_nothing(s: OrderSystemView, f: FillView, s2: OrderSystemView, r: Result<AppliedView, SysErrorView>)
    requires
        fill_outcome(s, f, s2, r),
        r is Err,
    ensures
        s2.orders == s.orders,
        s2.holdings == s.holdings,
        s2.fills == s.fills,
        s2.reports == s.reports,
        s2.default_method == s.default_method,
        s2.next_order_id == s.next_order_id,
{
    if !has_fill(s, f.id) {
        if let Some(i) = order_pos(s, f.order_id) {
            let e = s.orders[i];
            if e.contingent_on is None && fill_accepted(e.order, f) && fill_amounts(e.order, f) is Some {
                let o2 = filled_state(e.order, f, fill_amounts(e.order, f).unwrap());
                if f.position_effect != PositionEffect::Open {
                    if let Some(h) = holding_of(s, f.symbol) {
                        let (h2, hc) = choose|h2: HoldingView, hc: Result<HoldingCloseView, HoldingError>|
                            close_step(h, f, relief_for(e, h), h2, hc) && #[trigger] close_commit(s, i, e, o2, f, h2, hc, s2, r);
                        assert(close_commit(s, i, e, o2, f, h2, hc, s2, r));
                    }
                }
            }
        }
    }
}

/// A successful fill keeps every earlier report and appends exactly one
/// `Trade` report.
pub proof fn law_fill_appends_one_report(s: OrderSystemView, f: FillView, s2: OrderSystemView, r: Result<AppliedView, SysErrorView>)
    requires
        fill_outcome(s, f, s2, r),
        r is Ok,
    ensures
        s2.reports.len() == s.reports.len() + 1,
        s2.reports.take(s.reports.len() as int) == s.reports,
        s2.reports.last() == (r->Ok_0).1,
        s2.reports.last().report_type == ExecutionReportType::Trade,
        s2.fills.len() == s.fills.len() + 1,
{
    lemma_fill_insert_pos_bounds(s.fills, f.id);
    let i = order_pos(s, f.order_id).unwrap();
    let e = s.orders[i];
    let o2 = filled_state(e.order, f, fill_amounts(e.order, f).unwrap());
    if f.position_effect == PositionEffect::Open {
    } else {
        let h = holding_of(s, f.symbol).unwrap();
        let (h2, hc) = choose|h2: HoldingView, hc: Result<HoldingCloseView, HoldingError>|
            close_step(h, f, relief_for(e, h), h2, hc) && #[trigger] close_commit(s, i, e, o2, f, h2, hc, s2, r);
        assert(close_commit(s, i, e, o2, f, h2, hc, s2, r));
    }
    assert(s2.reports.take(s.reports.len() as int) =~= s.reports);
}

/// An order staged behind a reversal close order can be neither
/// acknowledged nor filled until that close order completes.
pub proof fn law_staged_order_is_inactive(s: OrderSystemView, id: OrderId, t: Timestamp, f: FillView, s2: OrderSystemView, r: Result<AppliedView, SysErrorView>)
    requires
        tracked_of(s, id) is Some,
        tracked_of(s, id).unwrap().contingent_on is Some,
        s.next_report_id < u64::MAX,
        f.order_id == id,
        !has_fill(s, f.id),
        fill_outcome(s, f, s2, r),
    ensures
        acknowledge_outcome(s, id, t).1 == Err::<ExecutionReportView, SysErrorView>(SysErrorView::OrderNotActive {
            order_id: id,
            waiting_on_order_id: tracked_of(s, id).unwrap().contingent_on.unwrap(),
        }),
        r == Err::<AppliedView, SysErrorView>(SysErrorView::OrderNotActive {
            order_id: id,
            waiting_on_order_id: tracked_of(s, id).unwrap().contingent_on.unwrap(),
        }),
        s2 == s,
{
}

/// The closeable quantity the system reports is never negative.
pub proof fn law_available_close_is_not_negative(s: OrderSystemView, symbol: Seq<char>)
    requires
        available_close(s, symbol) is Ok,
    ensures
        (available_close(s, symbol)->Ok_0).value() >= 0,
{
    crate::decimal::lemma_repr_zero();
}

/// A cascade only ever appends reports.
pub proof fn lemma_cascade_cancel_appends(s: OrderSystemView, parent: OrderId, t: Timestamp, k: int)
    ensures
        cascade_cancel(s, parent, t, k).reports.len() >= s.reports.len(),
        cascade_cancel(s, parent, t, k).reports.take(s.reports.len() as int) == s.reports,
        cascade_cancel(s, parent, t, k).orders.len() == s.orders.len(),
    decreases s.orders.len() - k,
{
    if 0 <= k < s.orders.len() {
        let e = s.orders[k];
        let s2 = if e.contingent_on == Some(parent) && is_live(e.order.status) && event_check_error(e.order, t) is None {
            let o2 = cancel_view(e.order, t);
            with_report(
                OrderSystemView { orders: s.orders.update(k, TrackedView { order: o2, contingent_on: None, ..e }), ..s },
                |rid: ExecutionReportId| snapshot(rid, o2, None, ExecutionReportType::Canceled, t, zero_dec(), None, zero_dec(), Some(cascade_cancel_text())),
            )
        } else {
            s
        };
        lemma_cascade_cancel_appends(s2, parent, t, k + 1);
        assert(s2.reports.take(s.reports.len() as int) =~= s.reports);
        assert(cascade_cancel(s2, parent, t, k + 1).reports.take(s.reports.len() as int) =~= cascade_cancel(s2, parent, t, k + 1).reports.take(s2.reports.len() as int).take(s.reports.len() as int));
    } else {
        assert(s.reports.take(s.reports.len() as int) =~= s.reports);
    }
}

/// A reject cascade only ever appends reports.
pub proof fn lemma_cascade_reject_appends(s: OrderSystemView, parent: OrderId, t: Timestamp, reason: Seq<char>, k: int)
    ensures
        cascade_reject(s, parent, t, reason, k).reports.len() >= s.reports.len(),
        cascade_reject(s, parent, t, reason, k).reports.take(s.reports.len() as int) == s.reports,
        cascade_reject(s, parent, t, reason, k).orders.len() == s.orders.len(),
    decreases s.orders.len() - k,
{
    if 0 <= k < s.orders.len() {
        let e = s.orders[k];
        let s2 = if e.contingent_on == Some(parent) && is_live(e.order.status) && reject_error(e.order, t) is None {
            let o2 = reject_view(e.order, t, reason);
            with_report(
                OrderSystemView { orders: s.orders.update(k, TrackedView { order: o2, contingent_on: None, ..e }), ..s },
                |rid: ExecutionReportId| snapshot(rid, o2, None, ExecutionReportType::Rejected, t, zero_dec(), None, zero_dec(), Some(reason)),
            )
        } else {
            s
        };
        lemma_cascade_reject_appends(s2, parent, t, reason, k + 1);
        assert(s2.reports.take(s.reports.len() as int) =~= s.reports);
        assert(cascade_reject(s2, parent, t, reason, k + 1).reports.take(s.reports.len() as int) =~= cascade_reject(s2, parent, t, reason, k + 1).reports.take(s2.reports.len() as int).take(s.reports.len() as int));
    } else {
        assert(s.reports.take(s.reports.len() as int) =~= s.reports);
    }
}

/// The report history is append-only: acknowledging, canceling and
/// rejecting keep every earlier report, and a successful one ends with the
/// report it returns right after them.
pub proof fn law_lifecycle_reports_are_append_only(s: OrderSystemView, id: OrderId, t: Timestamp, reason: Seq<char>)
    ensures
        acknowledge_outcome(s, id, t).0.reports.take(s.reports.len() as int) == s.reports,
        cancel_outcome(s, id, t).0.reports.take(s.reports.len() as int) == s.reports,
        reject_outcome(s, id, t, reason).0.reports.take(s.reports.len() as int) == s.reports,
        acknowledge_outcome(s, id, t).1 is Ok ==> acknowledge_outcome(s, id, t).0.reports[s.reports.len() as int] == (acknowledge_outcome(s, id, t).1->Ok_0),
        cancel_outcome(s, id, t).1 is Ok ==> cancel_outcome(s, id, t).0.reports[s.reports.len() as int] == (cancel_outcome(s, id, t).1->Ok_0),
        reject_outcome(s, id, t, reason).1 is Ok ==> reject_outcome(s, id, t, reason).0.reports[s.reports.len() as int] == (reject_outcome(s, id, t, reason).1->Ok_0),
{
    assert(s.reports.take(s.reports.len() as int) =~= s.reports);
    if s.next_report_id < u64::MAX {
        if let Some(i) = order_pos(s, id) {
            let e = s.orders[i];
            let rid = ExecutionReportId(s.next_report_id);
            let s1 = OrderSystemView { next_report_id: (s.next_report_id + 1) as u64, ..s };
            if event_check_error(e.order, t) is None {
                let o2 = cancel_view(e.order, t);
                let rep = snapshot(rid, o2, None, ExecutionReportType::Canceled, t, zero_dec(), None, zero_dec(), None);
                let s2 = OrderSystemView { orders: s1.orders.update(i, TrackedView { order: o2, ..e }), reports: s1.reports.push(rep), ..s1 };
                lemma_cascade_cancel_appends(s2, id, t, 0);
                assert(s2.reports.take(s.reports.len() as int) =~= s.reports);
                let c = cascade_cancel(s2, id, t, 0);
                assert(c.reports.take(s.reports.len() as int) =~= c.reports.take(s2.reports.len() as int).take(s.reports.len() as int));
                assert(c.reports[s.reports.len() as int] == c.reports.take(s2.reports.len() as int)[s.reports.len() as int]);
                if e.contingent_on is None {
                    let o3 = ack_view(e.order, t);
                    let rep3 = snapshot(rid, o3, None, ExecutionReportType::New, t, zero_dec(), None, zero_dec(), None);
                    assert(s1.reports.push(rep3).take(s.reports.len() as int) =~= s.reports);
                }
            }
            if reject_error(e.order, t) is None {
                let o2 = reject_view(e.order, t, reason);
                let rep = snapshot(rid, o2, None, ExecutionReportType::Rejected, t, zero_dec(), None, zero_dec(), Some(reason));
                let s2 = OrderSystemView { orders: s1.orders.update(i, TrackedView { order: o2, ..e }), reports: s1.reports.push(rep), ..s1 };
                lemma_cascade_reject_appends(s2, id, t, cascade_reject_reason(), 0);
                assert(s2.reports.take(s.reports.len() as int) =~= s.reports);
                let c = cascade_reject(s2, id, t, cascade_reject_reason(), 0);
                assert(c.reports.take(s.reports.len() as int) =~= c.reports.take(s2.reports.len() as int).take(s.reports.len() as int));
                assert(c.reports[s.reports.len() as int] == c.reports.take(s2.reports.len() as int)[s.reports.len() as int]);
            }
        }
    }
}

/// What a cancel cascade from `parent` at `t` does to one tracked order.
pub open spec fn cascade_cancel_step(e: TrackedView, parent: OrderId, t: Timestamp) -> TrackedView {
    if e.contingent_on == Some(parent) && is_live(e.order.status) && event_check_error(e.order, t) is None {
        TrackedView { order: cancel_view(e.order, t), contingent_on: None, ..e }
    } else {
        e
    }
}

/// What a reject cascade from `parent` at `t` does to one tracked order.
pub open spec fn cascade_reject_step(e: TrackedView, parent: OrderId, t: Timestamp, reason: Seq<char>) -> TrackedView {
    if e.contingent_on == Some(parent) && is_live(e.order.status) && reject_error(e.order, t) is None {
        TrackedView { order: reject_view(e.order, t, reason), contingent_on: None, ..e }
    } else {
        e
    }
}

/// A cancel cascade from position `k` leaves the earlier orders alone and
/// applies [`cascade_cancel_step`] to each later one.
pub proof fn lemma_cascade_cancel_positions(s: OrderSystemView, parent: OrderId, t: Timestamp, k: int)
    requires
        0 <= k,
    ensures
        cascade_cancel(s, parent, t, k).orders.len() == s.orders.len(),
        forall|j: int| 0 <= j < k && j < s.orders.len() ==> #[trigger] cascade_cancel(s, parent, t, k).orders[j] == s.orders[j],
        forall|j: int|
            k <= j < s.orders.len() ==> #[trigger] cascade_cancel(s, parent, t, k).orders[j] == cascade_cancel_step(s.orders[j], parent, t),
    decreases s.orders.len() - k,
{
    if k < s.orders.len() {
        let e = s.orders[k];
        let s2 = if e.contingent_on == Some(parent) && is_live(e.order.status) && event_check_error(e.order, t) is None {
            let o2 = cancel_view(e.order, t);
            with_report(
                OrderSystemView { orders: s.orders.update(k, TrackedView { order: o2, contingent_on: None, ..e }), ..s },
                |rid: ExecutionReportId| snapshot(rid, o2, None, ExecutionReportType::Canceled, t, zero_dec(), None, zero_dec(), Some(cascade_cancel_text())),
            )
        } else {
            s
        };
        assert(s2.orders == s.orders.update(k, cascade_cancel_step(e, parent, t)));
        lemma_cascade_cancel_positions(s2, parent, t, k + 1);
        assert(cascade_cancel(s, parent, t, k) == cascade_cancel(s2, parent, t, k + 1));
    }
}

/// A reject cascade from position `k` leaves the earlier orders alone and
/// applies [`cascade_reject_step`] to each later one.
pub proof fn lemma_cascade_reject_positions(s: OrderSystemView, parent: OrderId, t: Timestamp, reason: Seq<char>, k: int)
    requires
        0 <= k,
    ensures
        cascade_reject(s, parent, t, reason, k).orders.len() == s.orders.len(),
        forall|j: int| 0 <= j < k && j < s.orders.len() ==> #[trigger] cascade_reject(s, parent, t, reason, k).orders[j] == s.orders[j],
        forall|j: int|
            k <= j < s.orders.len() ==> #[trigger] cascade_reject(s, parent, t, reason, k).orders[j] == cascade_reject_step(s.orders[j], parent, t, reason),
    decreases s.orders.len() - k,
{
    if k < s.orders.len() {
        let e = s.orders[k];
        let s2 = if e.contingent_on == Some(parent) && is_live(e.order.status) && reject_error(e.order, t) is None {
            let o2 = reject_view(e.order, t, reason);
            with_report(
                OrderSystemView { orders: s.orders.update(k, TrackedView { order: o2, contingent_on: None, ..e }), ..s },
                |rid: ExecutionReportId| snapshot(rid, o2, None, ExecutionReportType::Rejected, t, zero_dec(), None, zero_dec(), Some(reason)),
            )
        } else {
            s
        };
        assert(s2.orders == s.orders.update(k, cascade_reject_step(e, parent, t, reason)));
        lemma_cascade_reject_positions(s2, parent, t, reason, k + 1);
        assert(cascade_reject(s, parent, t, reason, k) == cascade_reject(s2, parent, t, reason, k + 1));
    }
}

/// Canceling an order cancels at the same time every other live order
/// staged behind it (the open order of a reversal waiting on its close
/// order) that can still be canceled then; that order stops waiting. Every
/// other order is left as it was.
pub proof fn law_cancel_cascades_to_staged_orders(s: OrderSystemView, id: OrderId, t: Timestamp, j: int)
    requires
        cancel_outcome(s, id, t).1 is Ok,
        0 <= j < s.orders.len(),
        s.orders[j].order.id != id,
    ensures
        cancel_outcome(s, id, t).0.orders[j] == cascade_cancel_step(s.orders[j], id, t),
        s.orders[j].contingent_on == Some(id) && is_live(s.orders[j].order.status) && event_check_error(s.orders[j].order, t) is None
            ==> cancel_outcome(s, id, t).0.orders[j].order.status == OrderStatus::Canceled
                && cancel_outcome(s, id, t).0.orders[j].contingent_on is None,
{
    let i = order_pos(s, id).unwrap();
    let e = s.orders[i];
    let rid = ExecutionReportId(s.next_report_id);
    let s1 = OrderSystemView { next_report_id: (s.next_report_id + 1) as u64, ..s };
    let o2 = cancel_view(e.order, t);
    let rep = snapshot(rid, o2, None, ExecutionReportType::Canceled, t, zero_dec(), None, zero_dec(), None);
    let s2 = OrderSystemView { orders: s1.orders.update(i, TrackedView { order: o2, ..e }), reports: s1.reports.push(rep), ..s1 };
    lemma_cascade_cancel_positions(s2, id, t, 0);
    assert(i != j);
    assert(s2.orders[j] == s.orders[j]);
    assert(cancel_outcome(s, id, t).0.orders[j] == cascade_cancel(s2, id, t, 0).orders[j]);
}

/// Rejecting an order rejects at the same time every other live order
/// staged behind it that can still be rejected then, with the reason
/// "parent reversal close order failed"; that order stops waiting. Every
/// other order is left as it was.
pub proof fn law_reject_cascades_to_staged_orders(s: OrderSystemView, id: OrderId, t: Timestamp, reason: Seq<char>, j: int)
    requires
        reject_outcome(s, id, t, reason).1 is Ok,
        0 <= j < s.orders.len(),
        s.orders[j].order.id != id,
    ensures
        reject_outcome(s, id, t, reason).0.orders[j] == cascade_reject_step(s.orders[j], id, t, cascade_reject_reason()),
        s.orders[j].contingent_on == Some(id) && is_live(s.orders[j].order.status) && reject_error(s.orders[j].order, t) is None
            ==> reject_outcome(s, id, t, reason).0.orders[j].order.status == OrderStatus::Rejected
                && reject_outcome(s, id, t, reason).0.orders[j].contingent_on is None,
{
    let i = order_pos(s, id).unwrap();
    let e = s.orders[i];
    let rid = ExecutionReportId(s.next_report_id);
    let s1 = OrderSystemView { next_report_id: (s.next_report_id + 1) as u64, ..s };
    let o2 = reject_view(e.order, t, reason);
    let rep = snapshot(rid, o2, None, ExecutionReportType::Rejected, t, zero_dec(), None, zero_dec(), Some(reason));
    let s2 = OrderSystemView { orders: s1.orders.update(i, TrackedView { order: o2, ..e }), reports: s1.reports.push(rep), ..s1 };
    lemma_cascade_reject_positions(s2, id, t, cascade_reject_reason(), 0);
    assert(i != j);
    assert(s2.orders[j] == s.orders[j]);
    assert(reject_outcome(s, id, t, reason).0.orders[j] == cascade_reject(s2, id, t, cascade_reject_reason(), 0).orders[j]);
}

/// Working-close sums agree on sequences that differ only in orders that
/// are working closes in neither.
pub proof fn lemma_working_close_congruent(a: Seq<TrackedView>, b: Seq<TrackedView>, symbol: Seq<char>)
    requires
        a.len() == b.len(),
        forall|j: int|
            0 <= j < a.len() ==> #[trigger] a[j] == #[trigger] b[j] || (!is_working_close(a[j], symbol) && !is_working_close(b[j], symbol)),
    ensures
        working_close_qty(a, symbol) == working_close_qty(b, symbol),
    decreases a.len(),
{
    if a.len() > 0 {
        let (a2, b2) = (a.drop_last(), b.drop_last());
        assert forall|j: int| 0 <= j < a2.len() implies #[trigger] a2[j] == #[trigger] b2[j] || (!is_working_close(a2[j], symbol)
            && !is_working_close(b2[j], symbol)) by {
            assert(a2[j] == a[j] && b2[j] == b[j]);
        }
        lemma_working_close_congruent(a2, b2, symbol);
        assert(a.last() == a[a.len() - 1] && b.last() == b[b.len() - 1]);
    }
}

/// Replacing an order by one that is not a working close gives the sum
/// without that order.
pub proof fn lemma_working_close_without(orders: Seq<TrackedView>, i: int, x: TrackedView, symbol: Seq<char>)
    requires
        0 <= i < orders.len(),
        !is_working_close(x, symbol),
    ensures
        working_close_qty(orders.update(i, x), symbol) == working_close_qty(orders.remove(i), symbol),
    decreases orders.len(),
{
    let u = orders.update(i, x);
    if i == orders.len() - 1 {
        assert(u.drop_last() =~= orders.remove(i));
        assert(u.last() == x);
    } else {
        let p = orders.drop_last();
        lemma_working_close_without(p, i, x, symbol);
        assert(u.drop_last() =~= p.update(i, x));
        assert(orders.remove(i).drop_last() =~= p.remove(i));
        assert(u.last() == orders.last());
        assert(orders.remove(i).last() == orders.last());
        assert(orders.remove(i).len() > 0);
    }
}

/// Canceling an order releases what it reserved: afterwards the working
/// close quantity of any symbol is the sum over the other orders, as if the
/// canceled order were gone (the orders staged behind it being no working
/// closes of that symbol).
pub proof fn law_cancel_releases_reservation(s: OrderSystemView, id: OrderId, t: Timestamp, symbol: Seq<char>)
    requires
        system_valid(s),
        cancel_outcome(s, id, t).1 is Ok,
        forall|j: int|
            0 <= j < s.orders.len() && s.orders[j].order.id != id && s.orders[j].contingent_on == Some(id)
                ==> !is_working_close(#[trigger] s.orders[j], symbol),
    ensures
        working_close_qty(cancel_outcome(s, id, t).0.orders, symbol) == working_close_qty(
            s.orders.remove(order_pos(s, id).unwrap()),
            symbol,
        ),
{
    let i = order_pos(s, id).unwrap();
    let e = s.orders[i];
    let rid = ExecutionReportId(s.next_report_id);
    let s1 = OrderSystemView { next_report_id: (s.next_report_id + 1) as u64, ..s };
    let o2 = cancel_view(e.order, t);
    let rep = snapshot(rid, o2, None, ExecutionReportType::Canceled, t, zero_dec(), None, zero_dec(), None);
    let s2 = OrderSystemView { orders: s1.orders.update(i, TrackedView { order: o2, ..e }), reports: s1.reports.push(rep), ..s1 };
    let x = TrackedView { order: o2, ..e };
    lemma_cascade_cancel_positions(s2, id, t, 0);
    let out = cancel_outcome(s, id, t).0.orders;
    assert(out == cascade_cancel(s2, id, t, 0).orders);
    let u = s.orders.update(i, x);
    assert forall|j: int| 0 <= j < out.len() implies #[trigger] out[j] == #[trigger] u[j] || (!is_working_close(out[j], symbol)
        && !is_working_close(u[j], symbol)) by {
        assert(out[j] == cascade_cancel_step(s2.orders[j], id, t));
        if j == i {
            assert(s2.orders[j] == x);
        } else {
            assert(s2.orders[j] == s.orders[j]);
            assert(u[j] == s.orders[j]);
            if s.orders[j].contingent_on == Some(id) && is_live(s.orders[j].order.status) && event_check_error(s.orders[j].order, t) is None {
                if j < i {
                    assert(s.orders[j].order.id.0 < s.orders[i].order.id.0);
                } else {
                    assert(s.orders[i].order.id.0 < s.orders[j].order.id.0);
                }
                assert(!is_working_close(s.orders[j], symbol));
            }
        }
    }
    lemma_working_close_congruent(out, u, symbol);
    lemma_working_close_without(s.orders, i, x, symbol);
}

/// A close order's lot-relief override survives its partial fills: after a
/// successful close fill that leaves quantity on the order, the order keeps
/// its override (a `SpecificLot` override stays a `SpecificLot` selection,
/// narrowed to the lots still open), and an order without an override still
/// has none; once the order is completely filled its override is dropped.
pub proof fn law_close_override_survives_partial_fills(s: OrderSystemView, f: FillView, s2: OrderSystemView, r: Result<AppliedView, SysErrorView>)
    requires
        fill_outcome(s, f, s2, r),
        r is Ok,
        f.position_effect == PositionEffect::Close,
    ensures
        order_pos(s, f.order_id) is Some,
        ({
            let i = order_pos(s, f.order_id).unwrap();
            let before = s.orders[i].close_method;
            let after = s2.orders[i].close_method;
            let left = leaves_of((r->Ok_0).0).value();
            &&& (left != 0 && before is None ==> after is None)
            &&& (left != 0 && before is Some && !(before->Some_0 is SpecificLot) ==> after == before)
            &&& (left != 0 && before is Some && before->Some_0 is SpecificLot ==> after is Some && after->Some_0 is SpecificLot)
            &&& (left == 0 ==> after is None)
        }),
{
    let i = order_pos(s, f.order_id).unwrap();
    let e = s.orders[i];
    let o2 = filled_state(e.order, f, fill_amounts(e.order, f).unwrap());
    let h = holding_of(s, f.symbol).unwrap();
    let (h2, hc) = choose|h2: HoldingView, hc: Result<HoldingCloseView, HoldingError>|
        close_step(h, f, relief_for(e, h), h2, hc) && #[trigger] close_commit(s, i, e, o2, f, h2, hc, s2, r);
    assert(close_commit(s, i, e, o2, f, h2, hc, s2, r));
    let m = advanced_method(o2, h2, e.close_method);
    let orders = s.orders.update(i, TrackedView { order: o2, close_method: m, ..e });
    assert(orders[i].close_method == m);
    if o2.status == OrderStatus::Filled {
        assert(activate(orders, o2.id)[i].close_method == m);
    }
    assert(s2.orders[i].close_method == m);
    assert((r->Ok_0).0 == o2);
}

/// Exact sum, over the live close orders on `symbol`, of what each still
/// has to fill: its requested quantity less its filled quantity.
pub open spec fn open_close_value(orders: Seq<TrackedView>, symbol: Seq<char>) -> int
    decreases orders.len(),
{
    if orders.len() == 0 {
        0
    } else {
        open_close_value(orders.drop_last(), symbol) + if is_working_close(orders.last(), symbol) {
            orders.last().order.requested_qty.value() - orders.last().order.filled_qty.value()
        } else {
            0
        }
    }
}

/// No decimal step of the working-close sum on `symbol` has to round: each
/// leaves quantity is exactly requested less filled, and each partial sum
/// is exact.
pub open spec fn working_close_exact(orders: Seq<TrackedView>, symbol: Seq<char>) -> bool
    decreases orders.len(),
{
    if orders.len() == 0 {
        true
    } else {
        &&& working_close_exact(orders.drop_last(), symbol)
        &&& is_working_close(orders.last(), symbol) ==> {
            let o = orders.last().order;
            &&& leaves_of(o).value() == o.requested_qty.value() - o.filled_qty.value()
            &&& (working_close_qty(orders.drop_last(), symbol) matches Some(acc) ==> dec_add(acc, leaves_of(o)) is Some && dec_add(
                acc,
                leaves_of(o),
            ).unwrap().value() == acc.value() + leaves_of(o).value())
        }
    }
}

/// When no decimal step rounds, the quantity reserved on `symbol` by its
/// live close orders is what they still have to fill: the sum of their
/// requested quantities less their filled quantities.
pub proof fn law_reserved_close_is_unfilled_quantity(orders: Seq<TrackedView>, symbol: Seq<char>)
    requires
        working_close_exact(orders, symbol),
    ensures
        working_close_qty(orders, symbol) is Some,
        working_close_qty(orders, symbol).unwrap().value() == open_close_value(orders, symbol),
    decreases orders.len(),
{
    if orders.len() == 0 {
        crate::decimal::lemma_repr_zero();
    } else {
        law_reserved_close_is_unfilled_quantity(orders.drop_last(), symbol);
    }
}

/// No decimal step of the closeable quantity of `symbol` has to round: the
/// working-close sum is exact, and so is the open quantity less it.
pub open spec fn available_exact(s: OrderSystemView, symbol: Seq<char>) -> bool {
    &&& working_close_exact(s.orders, symbol)
    &&& forall|h: HoldingView, open: Dec, w: Dec|
        holding_of(s, symbol) == Some(h) && lots_sum(h.lots, LotTerm::Remaining) == Some(open) && #[trigger] working_close_qty(
            s.orders,
            symbol,
        ) == Some(w) ==> dec_sub(open, w) is Some && dec_sub(open, w).unwrap().value() == open.value() - w.value()
}

/// When no decimal step rounds, the closeable quantity of a symbol is its
/// open quantity less what its live close orders still have to fill
/// (requested less filled), and zero when they reserve everything.
pub proof fn law_available_close_is_open_less_unfilled(s: OrderSystemView, symbol: Seq<char>)
    requires
        available_close(s, symbol) is Ok,
        available_exact(s, symbol),
    ensures
        ({
            let open = lots_sum(holding_of(s, symbol).unwrap().lots, LotTerm::Remaining).unwrap().value();
            let rest = open - open_close_value(s.orders, symbol);
            (available_close(s, symbol)->Ok_0).value() == if rest > 0 { rest } else { 0 }
        }),
{
    law_reserved_close_is_unfilled_quantity(s.orders, symbol);
    let h = holding_of(s, symbol).unwrap();
    let open = lots_sum(h.lots, LotTerm::Remaining).unwrap();
    let w = working_close_qty(s.orders, symbol).unwrap();
    assert(working_close_qty(s.orders, symbol) == Some(w));
    crate::decimal::lemma_repr_zero();
}

pub open spec fn opt_order_view(o: Option<&Order>) -> Option<OrderView> {
    match o {
        Some(x) => Some(x@),
        None => None,
    }
}

pub open spec fn opt_holding_view(h: Option<&Holding>) -> Option<HoldingView> {
    match h {
        Some(x) => Some(x@),
        None => None,
    }
}

pub open spec fn opt_fill_view(f: Option<&Fill>) -> Option<FillView> {
    match f {
        Some(x) => Some(x@),
        None => None,
    }
}

/// Quantity the first reservation on `lot_id` holds, zero when none does.
fn reserved_on_lot(res: &Vec<(LotId, Dec)>, lot_id: LotId) -> (r: Dec)
    ensures
        r == reserved_on(res@, lot_id),
{
    let mut q: usize = 0;
    while q < res.len()
        invariant
            q <= res.len(),
            forall|m: int| 0 <= m < q ==> (#[trigger] res@[m]).0 != lot_id,
        decreases res.len() - q,
    {
        if res[q].0 == lot_id {
            proof {
                lemma_reserved_on_skip(res@, lot_id, q as int);
                assert(res@.skip(q as int)[0] == res@[q as int]);
            }
            return res[q].1;
        }
        q += 1;
    }
    proof {
        lemma_reserved_on_skip(res@, lot_id, q as int);
        assert(res@.skip(q as int).len() == 0);
        crate::decimal::lemma_repr_zero();
    }
    Dec::zero()
}

impl OrderSystem {
    #[verifier::type_invariant]
    closed spec fn inv(self) -> bool {
        system_valid(self@)
    }

    /// Every order system satisfies [`system_valid`].
    pub fn lemma_valid(&self)
        ensures
            system_valid(self@),
    {
        proof {
            use_type_invariant(self);
        }
    }

    /// Creates an empty order system; identifiers start at 1.
    pub fn new(default_lot_relief_method: LotReliefMethod) -> (r: OrderSystem)
        ensures
            r@ == empty_system(default_lot_relief_method@),
    {
        let r = OrderSystem {
            default_lot_relief_method,
            next_order_id: 1,
            next_holding_id: 1,
            next_lot_id: 1,
            next_execution_report_id: 1,
            orders: Vec::new(),
            holdings: Vec::new(),
            fills: Vec::new(),
            execution_reports: Vec::new(),
        };
        assert(tracked_views(r.orders@) =~= Seq::<TrackedView>::empty());
        assert(holding_views(r.holdings@) =~= Seq::<HoldingView>::empty());
        assert(fill_views(r.fills@) =~= Seq::<FillView>::empty());
        assert(report_views(r.execution_reports@) =~= Seq::<ExecutionReportView>::empty());
        r
    }

    /// Returns the default lot-relief policy for newly created holdings.
    pub fn default_lot_relief_method(&self) -> (r: &LotReliefMethod)
        ensures
            r@ == self@.default_method,
    {
        &self.default_lot_relief_method
    }

    /// Position of the order with identifier `order_id`.
    fn find_order(&self, order_id: OrderId) -> (r: Option<usize>)
        ensures
            match r {
                Some(i) => order_pos(self@, order_id) == Some(i as int) && i < self.orders.len(),
                None => order_pos(self@, order_id) is None,
            },
    {
        proof {
            use_type_invariant(self);
        }
        let ghost v = self@;
        let mut i: usize = 0;
        while i < self.orders.len()
            invariant
                i <= self.orders.len(),
                v == self@,
                v.orders == tracked_views(self.orders@),
                system_valid(v),
                forall|k: int| 0 <= k < i ==> v.orders[k].order.id != order_id,
            decreases self.orders.len() - i,
        {
            assert(v.orders[i as int] == self.orders@[i as int]@);
            if self.orders[i].order.id() == order_id {
                proof {
                    assert(exists|k: int| 0 <= k < v.orders.len() && v.orders[k].order.id == order_id);
                    let c = choose|k: int| 0 <= k < v.orders.len() && v.orders[k].order.id == order_id;
                    if c != i {
                        if c < i {
                            assert(v.orders[c].order.id.0 < v.orders[i as int].order.id.0);
                        } else {
                            assert(v.orders[i as int].order.id.0 < v.orders[c].order.id.0);
                        }
                    }
                }
                return Some(i);
            }
            i += 1;
        }
        None
    }

    /// Returns one tracked order by identifier.
    pub fn order(&self, order_id: OrderId) -> (r: Option<&Order>)
        ensures
            opt_order_view(r) == match tracked_of(self@, order_id) {
                Some(t) => Some(t.order),
                None => None::<OrderView>,
            },
    {
        match self.find_order(order_id) {
            Some(i) => {
                assert(self@.orders[i as int] == self.orders@[i as int]@);
                Some(&self.orders[i].order)
            },
            None => None,
        }
    }

    /// Returns every tracked order, in identifier order.
    pub fn orders(&self) -> (r: Vec<&Order>)
        ensures
            r.len() == self@.orders.len(),
            forall|i: int| 0 <= i < r.len() ==> (#[trigger] r@[i])@ == self@.orders[i].order,
    {
        let ghost v = self@;
        let mut out: Vec<&Order> = Vec::new();
        let mut i: usize = 0;
        while i < self.orders.len()
            invariant
                i <= self.orders.len(),
                v == self@,
                v.orders == tracked_views(self.orders@),
                out.len() == i,
                forall|k: int| 0 <= k < i ==> (#[trigger] out@[k])@ == v.orders[k].order,
            decreases self.orders.len() - i,
        {
            out.push(&self.orders[i].order);
            i += 1;
        }
        out
    }

    /// Position of the holding for `symbol`.
    fn find_holding(&self, symbol: &str) -> (r: Option<usize>)
        ensures
            match r {
                Some(i) => holding_pos(self@, symbol@) == Some(i as int) && i < self.holdings.len(),
                None => holding_pos(self@, symbol@) is None,
            },
    {
        proof {
            use_type_invariant(self);
        }
        let ghost v = self@;
        let mut i: usize = 0;
        while i < self.holdings.len()
            invariant
                i <= self.holdings.len(),
                v == self@,
                v.holdings == holding_views(self.holdings@),
                system_valid(v),
                forall|k: int| 0 <= k < i ==> v.holdings[k].symbol != symbol@,
            decreases self.holdings.len() - i,
        {
            assert(v.holdings[i as int] == self.holdings@[i as int]@);
            if str_eq(self.holdings[i].symbol(), symbol) {
                proof {
                    assert(exists|k: int| 0 <= k < v.holdings.len() && v.holdings[k].symbol == symbol@);
                    let c = choose|k: int| 0 <= k < v.holdings.len() && v.holdings[k].symbol == symbol@;
                    if c != i {
                        if c < i {
                            assert(char_seq_lt(v.holdings[c].symbol, v.holdings[i as int].symbol));
                        } else {
                            assert(char_seq_lt(v.holdings[i as int].symbol, v.holdings[c].symbol));
                        }
                        crate::text::lemma_char_seq_lt_irreflexive(symbol@);
                    }
                }
                return Some(i);
            }
            i += 1;
        }
        None
    }

    /// Returns one holding by symbol.
    pub fn holding(&self, symbol: &str) -> (r: Option<&Holding>)
        ensures
            opt_holding_view(r) == holding_of(self@, symbol@),
    {
        match self.find_holding(symbol) {
            Some(i) => {
                assert(self@.holdings[i as int] == self.holdings@[i as int]@);
                Some(&self.holdings[i])
            },
            None => None,
        }
    }

    /// Returns every holding, in symbol order.
    pub fn holdings(&self) -> (r: Vec<&Holding>)
        ensures
            r.len() == self@.holdings.len(),
            forall|i: int| 0 <= i < r.len() ==> (#[trigger] r@[i])@ == self@.holdings[i],
    {
        let ghost v = self@;
        let mut out: Vec<&Holding> = Vec::new();
        let mut i: usize = 0;
        while i < self.holdings.len()
            invariant
                i <= self.holdings.len(),
                v == self@,
                v.holdings == holding_views(self.holdings@),
                out.len() == i,
                forall|k: int| 0 <= k < i ==> (#[trigger] out@[k])@ == v.holdings[k],
            decreases self.holdings.len() - i,
        {
            out.push(&self.holdings[i]);
            i += 1;
        }
        out
    }

    /// Position of the fill with identifier `fill_id`.
    fn find_fill(&self, fill_id: FillId) -> (r: Option<usize>)
        ensures
            r is Some <==> has_fill(self@, fill_id),
            r is Some ==> r.unwrap() < self.fills.len() && self@.fills[r.unwrap() as int].id == fill_id
                && fill_of(self@, fill_id) == Some(self@.fills[r.unwrap() as int]),
    {
        proof {
            use_type_invariant(self);
        }
        let ghost v = self@;
        let mut i: usize = 0;
        while i < self.fills.len()
            invariant
                i <= self.fills.len(),
                v == self@,
                v.fills == fill_views(self.fills@),
                system_valid(v),
                forall|k: int| 0 <= k < i ==> v.fills[k].id != fill_id,
            decreases self.fills.len() - i,
        {
            assert(v.fills[i as int] == self.fills@[i as int]@);
            if self.fills[i].id() == fill_id {
                proof {
                    let c = choose|k: int| 0 <= k < v.fills.len() && v.fills[k].id == fill_id;
                    if c != i {
                        if c < i {
                            assert(v.fills[c].id.0 < v.fills[i as int].id.0);
                        } else {
                            assert(v.fills[i as int].id.0 < v.fills[c].id.0);
                        }
                    }
                }
                return Some(i);
            }
            i += 1;
        }
        None
    }

    /// Returns one applied fill by identifier.
    pub fn fill(&self, fill_id: FillId) -> (r: Option<&Fill>)
        ensures
            opt_fill_view(r) == fill_of(self@, fill_id),
    {
        match self.find_fill(fill_id) {
            Some(i) => {
                assert(self@.fills[i as int] == self.fills@[i as int]@);
                Some(&self.fills[i])
            },
            None => None,
        }
    }

    /// Returns every applied fill, in identifier order.
    pub fn fills(&self) -> (r: Vec<&Fill>)
        ensures
            r.len() == self@.fills.len(),
            forall|i: int| 0 <= i < r.len() ==> (#[trigger] r@[i])@ == self@.fills[i],
    {
        let ghost v = self@;
        let mut out: Vec<&Fill> = Vec::new();
        let mut i: usize = 0;
        while i < self.fills.len()
            invariant
                i <= self.fills.len(),
                v == self@,
                v.fills == fill_views(self.fills@),
                out.len() == i,
                forall|k: int| 0 <= k < i ==> (#[trigger] out@[k])@ == v.fills[k],
            decreases self.fills.len() - i,
        {
            out.push(&self.fills[i]);
            i += 1;
        }
        out
    }

    /// Rejects blank symbols before more specific validation runs.
    fn ensure_symbol_not_blank(&self, symbol: &str) -> (r: Result<(), OrderSystemError>)
        ensures
            is_blank_spec(symbol@) ==> res_view(r) == Err::<(), SysErrorView>(SysErrorView::Order(OrderError::EmptySymbol)),
            !is_blank_spec(symbol@) ==> r is Ok,
    {
        if is_blank(symbol) {
            return Err(OrderSystemError::Order(OrderError::EmptySymbol));
        }
        Ok(())
    }

    /// Total leaves quantity of the live close orders on `symbol`.
    fn working_close_qty(&self, symbol: &str) -> (r: Option<Dec>)
        ensures
            r == working_close_qty(self@.orders, symbol@),
    {
        let ghost v = self@;
        let mut sum = Dec::zero();
        let mut i: usize = 0;
        assert(v.orders.take(0) =~= Seq::<TrackedView>::empty());
        while i < self.orders.len()
            invariant
                i <= self.orders.len(),
                v == self@,
                v.orders == tracked_views(self.orders@),
                working_close_qty(v.orders.take(i as int), symbol@) == Some(sum),
            decreases self.orders.len() - i,
        {
            assert(v.orders.take(i + 1).drop_last() =~= v.orders.take(i as int));
            let t = &self.orders[i];
            assert(v.orders[i as int] == t@);
            if str_eq(t.order.symbol(), symbol) && t.order.position_effect() == PositionEffect::Close
                && is_live_status(t.order.status()) {
                sum = match sum.add(t.order.leaves_qty()) {
                    Some(v2) => v2,
                    None => {
                        proof {
                            lemma_working_close_none(v.orders, symbol@, i + 1);
                        }
                        return None;
                    },
                };
            }
            i += 1;
        }
        assert(v.orders.take(self.orders.len() as int) =~= v.orders);
        Some(sum)
    }

    /// Whether any live open order exists for `symbol`.
    fn has_live_open_orders(&self, symbol: &str) -> (r: bool)
        ensures
            r == has_live_open(self@.orders, symbol@),
    {
        let ghost v = self@;
        let mut i: usize = 0;
        while i < self.orders.len()
            invariant
                i <= self.orders.len(),
                v == self@,
                v.orders == tracked_views(self.orders@),
                forall|k: int| 0 <= k < i ==> !is_live_open(#[trigger] v.orders[k], symbol@),
            decreases self.orders.len() - i,
        {
            let t = &self.orders[i];
            assert(v.orders[i as int] == t@);
            if str_eq(t.order.symbol(), symbol) && t.order.position_effect() == PositionEffect::Open
                && is_live_status(t.order.status()) {
                return true;
            }
            i += 1;
        }
        false
    }

    /// The side of the first live open order on `symbol` whose side differs
    /// from `requested_side`.
    fn live_conflicting_open_order_side(&self, symbol: &str, requested_side: OrderSide) -> (r: Option<OrderSide>)
        ensures
            r == conflicting_open_side(self@.orders, symbol@, requested_side),
    {
        let ghost v = self@;
        let mut i: usize = 0;
        while i < self.orders.len()
            invariant
                i <= self.orders.len(),
                v == self@,
                v.orders == tracked_views(self.orders@),
                forall|m: int| 0 <= m < i ==> !(is_live_open(#[trigger] v.orders[m], symbol@) && v.orders[m].order.side != requested_side),
            decreases self.orders.len() - i,
        {
            let t = &self.orders[i];
            assert(v.orders[i as int] == t@);
            if str_eq(t.order.symbol(), symbol) && t.order.position_effect() == PositionEffect::Open
                && is_live_status(t.order.status()) && t.order.side() != requested_side {
                proof {
                    lemma_conflicting_skip(v.orders, symbol@, requested_side, i as int);
                }
                return Some(t.order.side());
            }
            i += 1;
        }
        proof {
            lemma_conflicting_skip(v.orders, symbol@, requested_side, i as int);
        }
        None
    }

    /// Returns closeable quantity after subtracting working close-order
    /// leaves; zero when those reserve everything.
    pub fn available_close_qty(&self, symbol: &str) -> (r: Result<Dec, OrderSystemError>)
        ensures
            res_view(r) == available_close(self@, symbol@),
    {
        self.ensure_symbol_not_blank(symbol)?;
        let holding = match self.holding(symbol) {
            Some(h) => h,
            None => return Err(OrderSystemError::NoOpenPosition { symbol: symbol.to_string() }),
        };
        let open_qty = match holding.open_qty() {
            Some(q) => q,
            None => return Err(OrderSystemError::ArithmeticOverflow),
        };
        if open_qty.is_zero() {
            return Err(OrderSystemError::NoOpenPosition { symbol: symbol.to_string() });
        }
        let working = match self.working_close_qty(symbol) {
            Some(w) => w,
            None => return Err(OrderSystemError::ArithmeticOverflow),
        };
        let available = match open_qty.sub(working) {
            Some(a) => a,
            None => return Err(OrderSystemError::ArithmeticOverflow),
        };
        if !available.is_positive() {
            proof {
                crate::decimal::lemma_repr_zero();
            }
            return Ok(Dec::zero());
        }
        Ok(available)
    }

    /// The order side needed to close the open holding of `symbol`.
    fn infer_close_side(&self, symbol: &str) -> (r: Result<OrderSide, OrderSystemError>)
        ensures
            res_view(r) == close_side_for(self@, symbol@),
    {
        self.ensure_symbol_not_blank(symbol)?;
        let holding = match self.holding(symbol) {
            Some(h) => h,
            None => return Err(OrderSystemError::NoOpenPosition { symbol: symbol.to_string() }),
        };
        match holding.side() {
            Some(LotSide::Long) => Ok(OrderSide::Sell),
            Some(LotSide::Short) => Ok(OrderSide::Buy),
            None => Err(OrderSystemError::NoOpenPosition { symbol: symbol.to_string() }),
        }
    }

    /// Position in `lots` of the first lot carrying `lot_id` (that is open,
    /// when `open_only`).
    fn lot_position(lots: &[Lot], lot_id: LotId, open_only: bool) -> (r: Option<usize>)
        ensures
            match r {
                Some(i) => lot_pos(lot_views(lots@), lot_id, open_only) == Some(i as int) && i < lots.len(),
                None => lot_pos(lot_views(lots@), lot_id, open_only) is None,
            },
    {
        let ghost views = lot_views(lots@);
        let mut i: usize = 0;
        while i < lots.len()
            invariant
                i <= lots.len(),
                views == lot_views(lots@),
                forall|m: int| 0 <= m < i ==> !((#[trigger] views[m]).id == lot_id && (!open_only || lot_is_open(views[m]))),
            decreases lots.len() - i,
        {
            assert(views[i as int] == lots@[i as int]@);
            if lots[i].id() == lot_id && (!open_only || lots[i].is_open()) {
                proof {
                    lemma_lot_pos_skip(views, lot_id, open_only, i as int);
                }
                return Some(i);
            }
            i += 1;
        }
        proof {
            lemma_lot_pos_skip(views, lot_id, open_only, i as int);
        }
        None
    }

    /// Current per-lot reservations of one live `SpecificLot` close order.
    fn specific_lot_reservations(holding: &Holding, entry: &TrackedOrder) -> (r: Vec<(LotId, Dec)>)
        ensures
            r@ == order_reservations(holding@.lots, entry@),
    {
        let ids = match &entry.close_lot_relief_method {
            Some(LotReliefMethod::SpecificLot(ids)) => ids,
            _ => return Vec::new(),
        };
        let ghost lots = holding@.lots;
        let ghost whole = order_reservations(lots, entry@);
        assert(whole == reservations(lots, ids@, leaves_of(entry@.order)));
        let mut remaining = entry.order.leaves_qty();
        let mut out: Vec<(LotId, Dec)> = Vec::new();
        let mut k: usize = 0;
        assert(ids@.skip(0) =~= ids@);
        while k < ids.len()
            invariant
                k <= ids.len(),
                lots == holding@.lots,
                whole == order_reservations(holding@.lots, entry@),
                out@.add(reservations(lots, ids@.skip(k as int), remaining)) == whole,
            decreases ids.len() - k,
        {
            let ghost rest = ids@.skip(k as int);
            assert(rest.drop_first() =~= ids@.skip(k + 1));
            if !remaining.is_positive() {
                assert(out@.add(Seq::empty()) =~= out@);
                return out;
            }
            let lot_id = ids[k];
            let lots_slice = holding.lots();
            match Self::lot_position(lots_slice, lot_id, true) {
                None => {},
                Some(p) => {
                    assert(lot_views(lots_slice@)[p as int] == lots_slice@[p as int]@);
                    let lot_qty = lots_slice[p].remaining_qty();
                    let reserved = remaining.min(lot_qty);
                    if reserved.is_positive() {
                        let next = remaining.sub(reserved).unwrap();
                        let entry = (lot_id, reserved);
                        proof {
                            assert(out@.push(entry).add(reservations(lots, ids@.skip(k + 1), next)) =~= out@.add(seq![entry].add(reservations(lots, ids@.skip(k + 1), next))));
                        }
                        out.push(entry);
                        remaining = next;
                    }
                },
            }
            k += 1;
        }
        assert(ids@.skip(k as int) =~= Seq::<LotId>::empty());
        assert(out@.add(Seq::empty()) =~= out@);
        out
    }

    /// Quantity already reserved on lot `lot_id` by live `SpecificLot` close
    /// orders on the holding's symbol.
    fn live_specific_lot_reserved_qty(&self, holding: &Holding, lot_id: LotId) -> (r: Option<Dec>)
        ensures
            r == reserved_qty(self@.orders, holding@, lot_id),
    {
        let ghost v = self@;
        let mut sum = Dec::zero();
        let mut i: usize = 0;
        assert(v.orders.take(0) =~= Seq::<TrackedView>::empty());
        while i < self.orders.len()
            invariant
                i <= self.orders.len(),
                v == self@,
                v.orders == tracked_views(self.orders@),
                reserved_qty(v.orders.take(i as int), holding@, lot_id) == Some(sum),
            decreases self.orders.len() - i,
        {
            assert(v.orders.take(i + 1).drop_last() =~= v.orders.take(i as int));
            let t = &self.orders[i];
            assert(v.orders[i as int] == t@);
            if str_eq(t.order.symbol(), holding.symbol()) && t.order.position_effect() == PositionEffect::Close
                && is_live_status(t.order.status()) {
                let res = Self::specific_lot_reservations(holding, t);
                let reserved = reserved_on_lot(&res, lot_id);
                sum = match sum.add(reserved) {
                    Some(v2) => v2,
                    None => {
                        proof {
                            lemma_reserved_none(v.orders, holding@, lot_id, i + 1);
                        }
                        return None;
                    },
                };
            }
            i += 1;
        }
        assert(v.orders.take(self.orders.len() as int) =~= v.orders);
        Some(sum)
    }

    /// Validates a close order's lot-relief override before any fill: a
    /// `SpecificLot` selection must name distinct open lots of the holding
    /// whose unreserved quantity covers the request.
    fn validate_close_lot_relief_method(
        &self,
        holding: &Holding,
        requested_qty: Dec,
        lot_relief_method: &Option<LotReliefMethod>,
    ) -> (r: Result<(), OrderSystemError>)
        ensures
            res_view(r) == relief_check(self@.orders, holding@, requested_qty, opt_relief_view(*lot_relief_method)),
    {
        let ids = match lot_relief_method {
            Some(LotReliefMethod::SpecificLot(ids)) => ids,
            _ => return Ok(()),
        };
        let ghost v = self@;
        let mut available = Dec::zero();
        let mut k: usize = 0;
        while k < ids.len()
            invariant
                k <= ids.len(),
                v == self@,
                opt_relief_view(*lot_relief_method) == Some(ReliefView::SpecificLot(ids@)),
                selection_available(v.orders, holding@, ids@, 0, zero_dec()) == selection_available(v.orders, holding@, ids@, k as int, available),
            decreases ids.len() - k,
        {
            let lot_id = ids[k];
            let mut q: usize = 0;
            while q < k
                invariant
                    q <= k,
                    k < ids.len(),
                    lot_id == ids@[k as int],
                    forall|m: int| 0 <= m < q ==> ids@[m] != lot_id,
                    v == self@,
                    opt_relief_view(*lot_relief_method) == Some(ReliefView::SpecificLot(ids@)),
                    selection_available(v.orders, holding@, ids@, 0, zero_dec()) == selection_available(v.orders, holding@, ids@, k as int, available),
                decreases k - q,
            {
                if ids[q] == lot_id {
                    assert(ids@.take(k as int)[q as int] == lot_id);
                    return Err(OrderSystemError::Holding(HoldingError::DuplicateLotIdSelection { lot_id }));
                }
                q += 1;
            }
            assert(!ids@.take(k as int).contains(lot_id)) by {
                if ids@.take(k as int).contains(lot_id) {
                    let m = choose|m: int| 0 <= m < k && ids@.take(k as int)[m] == lot_id;
                    assert(ids@[m] == lot_id);
                }
            }
            let lots = holding.lots();
            let p = match Self::lot_position(lots, lot_id, false) {
                Some(p) => p,
                None => return Err(OrderSystemError::Holding(HoldingError::UnknownLotId { lot_id })),
            };
            assert(lot_views(lots@)[p as int] == lots@[p as int]@);
            if !lots[p].is_open() {
                return Err(OrderSystemError::Holding(HoldingError::LotNotOpen { lot_id }));
            }
            let reserved = match self.live_specific_lot_reserved_qty(holding, lot_id) {
                Some(x) => x,
                None => return Err(OrderSystemError::ArithmeticOverflow),
            };
            let on_lot = match lots[p].remaining_qty().sub(reserved) {
                Some(x) => x,
                None => return Err(OrderSystemError::ArithmeticOverflow),
            };
            if on_lot.is_positive() {
                available = match available.add(on_lot) {
                    Some(x) => x,
                    None => return Err(OrderSystemError::ArithmeticOverflow),
                };
            }
            k += 1;
        }
        if available.lt(&requested_qty) {
            return Err(
                OrderSystemError::Holding(
                    HoldingError::SpecificLotQuantityInsufficient { requested: requested_qty, available },
                ),
            );
        }
        Ok(())
    }

    /// Allocates the next order identifier; `None` once the counter is exhausted.
    fn allocate_order_id(&mut self) -> (r: Option<OrderId>)
        ensures
            old(self)@.next_order_id == u64::MAX ==> r is None && final(self)@ == old(self)@,
            old(self)@.next_order_id < u64::MAX ==> r == Some(OrderId(old(self)@.next_order_id))
                && final(self)@ == (OrderSystemView { next_order_id: (old(self)@.next_order_id + 1) as u64, ..old(self)@ }),
    {
        proof {
            use_type_invariant(&*self);
        }
        if self.next_order_id == u64::MAX {
            return None;
        }
        let id = OrderId::new(self.next_order_id);
        self.next_order_id = self.next_order_id + 1;
        Some(id)
    }

    /// Allocates the next execution-report identifier; `None` once the counter is exhausted.
    fn allocate_report_id(&mut self) -> (r: Option<ExecutionReportId>)
        ensures
            old(self)@.next_report_id == u64::MAX ==> r is None && final(self)@ == old(self)@,
            old(self)@.next_report_id < u64::MAX ==> r == Some(ExecutionReportId(old(self)@.next_report_id))
                && final(self)@ == (OrderSystemView { next_report_id: (old(self)@.next_report_id + 1) as u64, ..old(self)@ }),
    {
        proof {
            use_type_invariant(&*self);
        }
        if self.next_execution_report_id == u64::MAX {
            return None;
        }
        let id = ExecutionReportId::new(self.next_execution_report_id);
        self.next_execution_report_id = self.next_execution_report_id + 1;
        Some(id)
    }

    /// Allocates the next holding identifier; `None` once the counter is exhausted.
    fn allocate_holding_id(&mut self) -> (r: Option<HoldingId>)
        ensures
            old(self)@.next_holding_id == u64::MAX ==> r is None && final(self)@ == old(self)@,
            old(self)@.next_holding_id < u64::MAX ==> r == Some(HoldingId(old(self)@.next_holding_id))
                && final(self)@ == (OrderSystemView { next_holding_id: (old(self)@.next_holding_id + 1) as u64, ..old(self)@ }),
    {
        proof {
            use_type_invariant(&*self);
        }
        if self.next_holding_id == u64::MAX {
            return None;
        }
        let id = HoldingId::new(self.next_holding_id);
        self.next_holding_id = self.next_holding_id + 1;
        Some(id)
    }

    /// Allocates the next lot identifier; `None` once the counter is exhausted.
    fn allocate_lot_id(&mut self) -> (r: Option<LotId>)
        ensures
            old(self)@.next_lot_id == u64::MAX ==> r is None && final(self)@ == old(self)@,
            old(self)@.next_lot_id < u64::MAX ==> r == Some(LotId(old(self)@.next_lot_id))
                && final(self)@ == (OrderSystemView { next_lot_id: (old(self)@.next_lot_id + 1) as u64, ..old(self)@ }),
    {
        proof {
            use_type_invariant(&*self);
        }
        if self.next_lot_id == u64::MAX {
            return None;
        }
        let id = LotId::new(self.next_lot_id);
        self.next_lot_id = self.next_lot_id + 1;
        Some(id)
    }

    /// Submits one already-validated order and emits its `PendingNew` report.
    fn submit_single_order(&mut self, request: SubmitOrderRequest, contingent_on_order_id: Option<OrderId>) -> (r: Result<SubmittedOrder, OrderSystemError>)
        ensures
            final(self)@ == single_submission(old(self)@, request@, contingent_on_order_id).0,
            match single_submission(old(self)@, request@, contingent_on_order_id).1 {
                Ok(x) => r is Ok && r.unwrap().order@ == x.0 && r.unwrap().report@ == x.1 && r.unwrap().auto_close_order is None,
                Err(e) => r is Err && r->Err_0@ == e,
            },
    {
        proof {
            use_type_invariant(&*self);
        }
        let ghost s0 = self@;
        let order_id = match self.allocate_order_id() {
            Some(i) => i,
            None => return Err(OrderSystemError::ArithmeticOverflow),
        };
        let order = match Order::new(
            order_id,
            request.symbol.as_str(),
            request.side,
            request.position_effect,
            request.order_type,
            request.time_in_force,
            request.submitted_at,
            request.qty,
            request.limit_price,
            request.stop_price,
        ) {
            Ok(o) => o,
            Err(e) => return Err(OrderSystemError::Order(e)),
        };
        let report_id = match self.allocate_report_id() {
            Some(i) => i,
            None => return Err(OrderSystemError::ArithmeticOverflow),
        };
        let report = ExecutionReport::pending_new(report_id, &order);
        proof {
            use_type_invariant(&*self);
            crate::decimal::lemma_repr_zero();
        }
        let entry = TrackedOrder {
            order: order.duplicate(),
            close_lot_relief_method: request.lot_relief_method,
            contingent_on_order_id,
        };
        let ghost old_orders = self.orders@;
        let mut orders: Vec<TrackedOrder> = Vec::new();
        std::mem::swap(&mut orders, &mut self.orders);
        orders.push(entry);
        assert(tracked_views(orders@) =~= tracked_views(old_orders).push(entry@));
        self.orders = orders;
        let ghost old_reports = self.execution_reports@;
        let report_copy = report.duplicate();
        let mut reports: Vec<ExecutionReport> = Vec::new();
        std::mem::swap(&mut reports, &mut self.execution_reports);
        reports.push(report_copy);
        assert(report_views(reports@) =~= report_views(old_reports).push(report_copy@));
        self.execution_reports = reports;
        Ok(SubmittedOrder { order, report, auto_close_order: None })
    }

    /// Validates that a new opening order does not cross live open orders or
    /// the current open exposure.
    fn validate_open_submission(&self, request: &SubmitOrderRequest) -> (r: Result<(), OrderSystemError>)
        ensures
            res_view(r) == open_check(self@, request@),
    {
        if let Some(live_order_side) = self.live_conflicting_open_order_side(request.symbol.as_str(), request.side) {
            return Err(
                OrderSystemError::LiveOpenOrderSideConflict {
                    symbol: request.symbol.clone(),
                    requested: request.side,
                    live_order_side,
                },
            );
        }
        if let Some(holding) = self.holding(request.symbol.as_str()) {
            if let Some(holding_side) = holding.side() {
                if holding_side != request.side.to_open_lot_side() {
                    return Err(
                        OrderSystemError::OpenSideMismatch {
                            symbol: request.symbol.clone(),
                            requested: request.side,
                            holding_side,
                        },
                    );
                }
            }
        }
        Ok(())
    }

    /// Validates that a new close order matches the open exposure, its
    /// lot-relief override and the available-to-close quantity.
    fn validate_close_submission(&self, request: &SubmitOrderRequest) -> (r: Result<(), OrderSystemError>)
        ensures
            res_view(r) == close_check(self@, request@),
    {
        let holding = match self.holding(request.symbol.as_str()) {
            Some(h) => h,
            None => return Err(OrderSystemError::NoOpenPosition { symbol: request.symbol.clone() }),
        };
        let holding_side = match holding.side() {
            Some(s) => s,
            None => return Err(OrderSystemError::NoOpenPosition { symbol: request.symbol.clone() }),
        };
        if request.side.closing_lot_side() != holding_side {
            return Err(
                OrderSystemError::CloseSideMismatch {
                    symbol: request.symbol.clone(),
                    requested: request.side,
                    holding_side,
                },
            );
        }
        self.validate_close_lot_relief_method(holding, request.qty, &request.lot_relief_method)?;
        let available = self.available_close_qty(request.symbol.as_str())?;
        if available.lt(&request.qty) {
            return Err(
                OrderSystemError::CloseQuantityExceedsAvailable {
                    symbol: request.symbol.clone(),
                    requested: request.qty,
                    available,
                },
            );
        }
        Ok(())
    }

    /// Validates a submission against current holdings and reservations.
    fn validate_submission(&self, request: &SubmitOrderRequest) -> (r: Result<(), OrderSystemError>)
        ensures
            res_view(r) == submission_check(self@, request@),
    {
        self.ensure_symbol_not_blank(request.symbol.as_str())?;
        match request.position_effect {
            PositionEffect::Open => self.validate_open_submission(request),
            PositionEffect::Close => self.validate_close_submission(request),
        }
    }

    /// Stages a two-leg reversal when an opening request with
    /// `allow_reversal` faces exposure on the opposite side.
    fn try_submit_reversal(&mut self, request: &SubmitOrderRequest) -> (r: Result<Option<SubmittedOrder>, OrderSystemError>)
        ensures
            final(self)@ == reversal_submission(old(self)@, request@).0,
            match reversal_submission(old(self)@, request@).1 {
                Ok(None) => r matches Ok(None),
                Ok(Some(x)) => r matches Ok(Some(so)) && submitted_matches(so, x),
                Err(e) => r is Err && r->Err_0@ == e,
            },
    {
        if request.position_effect != PositionEffect::Open || !request.allow_reversal {
            return Ok(None);
        }
        self.ensure_symbol_not_blank(request.symbol.as_str())?;
        let (open_qty, available) = {
            let holding = match self.holding(request.symbol.as_str()) {
                Some(h) => h,
                None => return Ok(None),
            };
            let holding_side = match holding.side() {
                Some(s) => s,
                None => return Ok(None),
            };
            if holding_side == request.side.to_open_lot_side() {
                return Ok(None);
            }
            if self.has_live_open_orders(request.symbol.as_str()) {
                return Err(OrderSystemError::ReversalBlockedByLiveOpenOrders { symbol: request.symbol.clone() });
            }
            let open_qty = match holding.open_qty() {
                Some(q) => q,
                None => return Err(OrderSystemError::ArithmeticOverflow),
            };
            let available = self.available_close_qty(request.symbol.as_str())?;
            (open_qty, available)
        };
        if !available.num_eq(&open_qty) {
            return Err(
                OrderSystemError::CloseQuantityExceedsAvailable {
                    symbol: request.symbol.clone(),
                    requested: open_qty,
                    available,
                },
            );
        }
        let close_request = SubmitOrderRequest::new(
            request.symbol.as_str(),
            request.side,
            PositionEffect::Close,
            request.order_type,
            request.time_in_force,
            request.submitted_at,
            open_qty,
            request.limit_price,
            request.stop_price,
        );
        self.validate_close_submission(&close_request)?;
        let close_submission = self.submit_single_order(close_request, None)?;
        let open_request = SubmitOrderRequest::new(
            request.symbol.as_str(),
            request.side,
            PositionEffect::Open,
            request.order_type,
            request.time_in_force,
            request.submitted_at,
            request.qty,
            request.limit_price,
            request.stop_price,
        );
        let close_id = close_submission.order.id();
        let open_submission = self.submit_single_order(open_request, Some(close_id))?;
        Ok(
            Some(
                SubmittedOrder {
                    order: open_submission.order,
                    report: open_submission.report,
                    auto_close_order: Some(Box::new(close_submission)),
                },
            ),
        )
    }

    /// Submits an order and emits a `PendingNew` report. Close requests are
    /// checked against the holding and the working close orders, so that
    /// over-closing is rejected before the order goes live; an opening
    /// request with `allow_reversal` facing opposite exposure is staged as a
    /// reversal.
    pub fn submit_order(&mut self, request: SubmitOrderRequest) -> (r: Result<SubmittedOrder, OrderSystemError>)
        ensures
            final(self)@ == order_submission(old(self)@, request@).0,
            submit_result_is(r, order_submission(old(self)@, request@).1),
    {
        if let Some(reversal) = self.try_submit_reversal(&request)? {
            return Ok(reversal);
        }
        self.validate_submission(&request)?;
        let submitted = self.submit_single_order(request, None)?;
        Ok(submitted)
    }

    /// Submits a close order whose side is inferred from the holding.
    pub fn submit_close_order(&mut self, request: SubmitCloseOrderRequest) -> (r: Result<SubmittedOrder, OrderSystemError>)
        ensures
            match close_side_for(old(self)@, request.symbol@) {
                Err(e) => r is Err && r->Err_0@ == e && final(self)@ == old(self)@,
                Ok(side) => {
                    let q = RequestView {
                        symbol: request.symbol@,
                        side,
                        position_effect: PositionEffect::Close,
                        order_type: request.order_type,
                        time_in_force: request.time_in_force,
                        submitted_at: request.submitted_at,
                        qty: request.qty,
                        limit_price: request.limit_price,
                        stop_price: request.stop_price,
                        lot_relief_method: opt_relief_view(request.lot_relief_method),
                        allow_reversal: false,
                    };
                    final(self)@ == order_submission(old(self)@, q).0 && submit_result_is(r, order_submission(old(self)@, q).1)
                },
            },
    {
        let side = self.infer_close_side(request.symbol.as_str())?;
        let q = SubmitOrderRequest::new(
            request.symbol.as_str(),
            side,
            PositionEffect::Close,
            request.order_type,
            request.time_in_force,
            request.submitted_at,
            request.qty,
            request.limit_price,
            request.stop_price,
        ).with_lot_relief_method_option(request.lot_relief_method);
        self.submit_order(q)
    }

    /// Submits a close order for every currently unreserved unit of a symbol.
    pub fn flatten_position(&mut self, request: FlattenPositionRequest) -> (r: Result<SubmittedOrder, OrderSystemError>)
        ensures
            match close_side_for(old(self)@, request.symbol@) {
                Err(e) => r is Err && r->Err_0@ == e && final(self)@ == old(self)@,
                Ok(side) => match available_close(old(self)@, request.symbol@) {
                    Err(e) => r is Err && r->Err_0@ == e && final(self)@ == old(self)@,
                    Ok(qty) => if qty.value() == 0 {
                        r is Err && r->Err_0@ == (SysErrorView::NoClosableQuantity { symbol: request.symbol@ }) && final(self)@ == old(self)@
                    } else {
                        let q = RequestView {
                            symbol: request.symbol@,
                            side,
                            position_effect: PositionEffect::Close,
                            order_type: request.order_type,
                            time_in_force: request.time_in_force,
                            submitted_at: request.submitted_at,
                            qty,
                            limit_price: request.limit_price,
                            stop_price: request.stop_price,
                            lot_relief_method: opt_relief_view(request.lot_relief_method),
                            allow_reversal: false,
                        };
                        final(self)@ == order_submission(old(self)@, q).0 && submit_result_is(r, order_submission(old(self)@, q).1)
                    },
                },
            },
    {
        let side = self.infer_close_side(request.symbol.as_str())?;
        let qty = self.available_close_qty(request.symbol.as_str())?;
        if qty.is_zero() {
            return Err(OrderSystemError::NoClosableQuantity { symbol: request.symbol });
        }
        let q = SubmitOrderRequest::new(
            request.symbol.as_str(),
            side,
            PositionEffect::Close,
            request.order_type,
            request.time_in_force,
            request.submitted_at,
            qty,
            request.limit_price,
            request.stop_price,
        ).with_lot_relief_method_option(request.lot_relief_method);
        self.submit_order(q)
    }

    /// Takes the order list out, leaving an empty one.
    fn take_orders(&mut self) -> (r: Vec<TrackedOrder>)
        ensures
            tracked_views(r@) == old(self)@.orders,
            final(self)@ == (OrderSystemView { orders: Seq::empty(), ..old(self)@ }),
            system_valid(old(self)@),
    {
        proof {
            use_type_invariant(&*self);
        }
        let mut orders: Vec<TrackedOrder> = Vec::new();
        std::mem::swap(&mut orders, &mut self.orders);
        assert(tracked_views(self.orders@) =~= Seq::<TrackedView>::empty());
        orders
    }

    /// Puts back an order list whose identifiers are those of `base`.
    fn put_orders(&mut self, orders: Vec<TrackedOrder>, Ghost(base): Ghost<OrderSystemView>)
        requires
            old(self)@ == (OrderSystemView { orders: Seq::empty(), ..base }),
            system_valid(base),
            orders.len() == base.orders.len(),
            forall|i: int| 0 <= i < base.orders.len() ==> (#[trigger] tracked_views(orders@)[i]).order.id == base.orders[i].order.id,
        ensures
            final(self)@ == (OrderSystemView { orders: tracked_views(orders@), ..base }),
    {
        proof {
            lemma_same_ids_valid(base, tracked_views(orders@));
        }
        self.orders = orders;
    }

    /// Appends one report to the history.
    fn push_report(&mut self, report: ExecutionReport)
        ensures
            final(self)@ == (OrderSystemView { reports: old(self)@.reports.push(report@), ..old(self)@ }),
    {
        proof {
            use_type_invariant(&*self);
        }
        let ghost old_reports = self.execution_reports@;
        let mut reports: Vec<ExecutionReport> = Vec::new();
        std::mem::swap(&mut reports, &mut self.execution_reports);
        let ghost r0 = report@;
        reports.push(report);
        assert(report_views(reports@) =~= report_views(old_reports).push(r0));
        self.execution_reports = reports;
    }

    /// Marks a submitted order as acknowledged and emits a `New` report.
    pub fn acknowledge_order(&mut self, order_id: OrderId, acknowledged_at: Timestamp) -> (r: Result<ExecutionReport, OrderSystemError>)
        ensures
            final(self)@ == acknowledge_outcome(old(self)@, order_id, acknowledged_at).0,
            report_result_is(r, acknowledge_outcome(old(self)@, order_id, acknowledged_at).1),
    {
        proof {
            use_type_invariant(&*self);
        }
        let report_id = match self.allocate_report_id() {
            Some(i) => i,
            None => return Err(OrderSystemError::ArithmeticOverflow),
        };
        let i = match self.find_order(order_id) {
            Some(i) => i,
            None => return Err(OrderSystemError::UnknownOrderId { order_id }),
        };
        assert(self@.orders[i as int] == self.orders@[i as int]@);
        if let Some(waiting_on_order_id) = self.orders[i].contingent_on_order_id {
            return Err(OrderSystemError::OrderNotActive { order_id, waiting_on_order_id });
        }
        proof {
            use_type_invariant(&*self);
        }
        let ghost s1 = self@;
        let mut orders = self.take_orders();
        let outcome = orders[i].order.acknowledge(acknowledged_at);
        assert(tracked_views(orders@) =~= s1.orders.update(i as int, orders@[i as int]@));
        self.put_orders(orders, Ghost(s1));
        if let Err(e) = outcome {
            assert(self@.orders =~= s1.orders);
            return Err(OrderSystemError::Order(e));
        }
        assert(self@.orders[i as int] == self.orders@[i as int]@);
        let report = ExecutionReport::acknowledged(report_id, &self.orders[i].order, acknowledged_at);
        self.push_report(report.duplicate());
        Ok(report)
    }

    /// Cancels the live orders staged on reversal close order `parent`.
    fn cancel_contingent_orders(&mut self, parent: OrderId, canceled_at: Timestamp)
        ensures
            final(self)@ == cascade_cancel(old(self)@, parent, canceled_at, 0),
    {
        let mut k: usize = 0;
        while k < self.orders.len()
            invariant
                k <= self.orders.len(),
                cascade_cancel(old(self)@, parent, canceled_at, 0) == cascade_cancel(self@, parent, canceled_at, k as int),
            decreases self.orders.len() - k,
        {
            let ghost s1 = self@;
            assert(s1.orders[k as int] == self.orders@[k as int]@);
            let waiting = match self.orders[k].contingent_on_order_id {
                Some(p) => p == parent,
                None => false,
            };
            if waiting && is_live_status(self.orders[k].order.status()) && self.orders[k].order.last_event_at() <= canceled_at {
                let mut orders = self.take_orders();
                let _ = orders[k].order.cancel(canceled_at);
                orders[k].contingent_on_order_id = None;
                assert(tracked_views(orders@) =~= s1.orders.update(k as int, orders@[k as int]@));
                self.put_orders(orders, Ghost(s1));
                assert(self@.orders[k as int] == self.orders@[k as int]@);
                let ghost s2 = self@;
                match self.allocate_report_id() {
                    Some(report_id) => {
                        let report = ExecutionReport::canceled(
                            report_id,
                            &self.orders[k].order,
                            canceled_at,
                            Some("canceled because reversal close order was canceled".to_string()),
                        );
                        self.push_report(report);
                    },
                    None => {},
                }
            }
            k += 1;
        }
    }

    /// Rejects the live orders staged on reversal close order `parent`.
    fn reject_contingent_orders(&mut self, parent: OrderId, rejected_at: Timestamp, reason: &str)
        ensures
            final(self)@ == cascade_reject(old(self)@, parent, rejected_at, reason@, 0),
    {
        let mut k: usize = 0;
        while k < self.orders.len()
            invariant
                k <= self.orders.len(),
                cascade_reject(old(self)@, parent, rejected_at, reason@, 0) == cascade_reject(self@, parent, rejected_at, reason@, k as int),
            decreases self.orders.len() - k,
        {
            let ghost s1 = self@;
            assert(s1.orders[k as int] == self.orders@[k as int]@);
            let waiting = match self.orders[k].contingent_on_order_id {
                Some(p) => p == parent,
                None => false,
            };
            if waiting && is_live_status(self.orders[k].order.status()) && self.orders[k].order.filled_qty().is_zero()
                && self.orders[k].order.last_event_at() <= rejected_at {
                let mut orders = self.take_orders();
                let _ = orders[k].order.reject(rejected_at, reason.to_string());
                orders[k].contingent_on_order_id = None;
                assert(tracked_views(orders@) =~= s1.orders.update(k as int, orders@[k as int]@));
                self.put_orders(orders, Ghost(s1));
                assert(self@.orders[k as int] == self.orders@[k as int]@);
                match self.allocate_report_id() {
                    Some(report_id) => {
                        let report = ExecutionReport::rejected(report_id, &self.orders[k].order, rejected_at, reason.to_string());
                        self.push_report(report);
                    },
                    None => {},
                }
            }
            k += 1;
        }
    }

    /// Cancels a working order and emits a `Canceled` report; the orders
    /// staged on it are canceled too.
    pub fn cancel_order(&mut self, order_id: OrderId, canceled_at: Timestamp) -> (r: Result<ExecutionReport, OrderSystemError>)
        ensures
            final(self)@ == cancel_outcome(old(self)@, order_id, canceled_at).0,
            report_result_is(r, cancel_outcome(old(self)@, order_id, canceled_at).1),
    {
        proof {
            use_type_invariant(&*self);
        }
        let report_id = match self.allocate_report_id() {
            Some(i) => i,
            None => return Err(OrderSystemError::ArithmeticOverflow),
        };
        let i = match self.find_order(order_id) {
            Some(i) => i,
            None => return Err(OrderSystemError::UnknownOrderId { order_id }),
        };
        proof {
            use_type_invariant(&*self);
        }
        let ghost s1 = self@;
        let mut orders = self.take_orders();
        let outcome = orders[i].order.cancel(canceled_at);
        assert(tracked_views(orders@) =~= s1.orders.update(i as int, orders@[i as int]@));
        self.put_orders(orders, Ghost(s1));
        if let Err(e) = outcome {
            assert(self@.orders =~= s1.orders);
            return Err(OrderSystemError::Order(e));
        }
        assert(self@.orders[i as int] == self.orders@[i as int]@);
        let report = ExecutionReport::canceled(report_id, &self.orders[i].order, canceled_at, None);
        self.push_report(report.duplicate());
        self.cancel_contingent_orders(order_id, canceled_at);
        Ok(report)
    }

    /// Rejects a submitted order and emits a `Rejected` report; the orders
    /// staged on it are rejected too.
    pub fn reject_order(&mut self, order_id: OrderId, rejected_at: Timestamp, reason: &str) -> (r: Result<ExecutionReport, OrderSystemError>)
        ensures
            final(self)@ == reject_outcome(old(self)@, order_id, rejected_at, reason@).0,
            report_result_is(r, reject_outcome(old(self)@, order_id, rejected_at, reason@).1),
    {
        proof {
            use_type_invariant(&*self);
        }
        let report_id = match self.allocate_report_id() {
            Some(i) => i,
            None => return Err(OrderSystemError::ArithmeticOverflow),
        };
        let i = match self.find_order(order_id) {
            Some(i) => i,
            None => return Err(OrderSystemError::UnknownOrderId { order_id }),
        };
        proof {
            use_type_invariant(&*self);
        }
        let ghost s1 = self@;
        let mut orders = self.take_orders();
        let outcome = orders[i].order.reject(rejected_at, reason.to_string());
        assert(tracked_views(orders@) =~= s1.orders.update(i as int, orders@[i as int]@));
        self.put_orders(orders, Ghost(s1));
        if let Err(e) = outcome {
            assert(self@.orders =~= s1.orders);
            return Err(OrderSystemError::Order(e));
        }
        assert(self@.orders[i as int] == self.orders@[i as int]@);
        let report = ExecutionReport::rejected(report_id, &self.orders[i].order, rejected_at, reason.to_string());
        self.push_report(report.duplicate());
        self.reject_contingent_orders(order_id, rejected_at, "parent reversal close order failed");
        Ok(report)
    }

    /// Stores `h` under its symbol, replacing the holding of that symbol or
    /// inserting it in symbol order.
    fn store_holding(&mut self, h: Holding)
        ensures
            final(self)@ == (OrderSystemView { holdings: put_holding(old(self)@.holdings, h@), ..old(self)@ }),
    {
        proof {
            use_type_invariant(&*self);
        }
        let ghost s0 = self@;
        let ghost hv = h@;
        match self.find_holding(h.symbol()) {
            Some(p) => {
                let mut holdings: Vec<Holding> = Vec::new();
                std::mem::swap(&mut holdings, &mut self.holdings);
                holdings.set(p, h);
                proof {
                    assert(holding_views(holdings@) =~= s0.holdings.update(p as int, hv));
                    let ns = holding_views(holdings@);
                    assert forall|i: int, j: int| 0 <= i < j < ns.len() implies char_seq_lt((#[trigger] ns[i]).symbol, (#[trigger] ns[j]).symbol) by {
                        assert(s0.holdings[p as int].symbol == hv.symbol);
                        assert(char_seq_lt(s0.holdings[i].symbol, s0.holdings[j].symbol));
                    }
                }
                self.holdings = holdings;
            },
            None => {
                let mut p: usize = 0;
                while p < self.holdings.len() && str_lt(self.holdings[p].symbol(), h.symbol())
                    invariant
                        p <= self.holdings.len(),
                        self@ == s0,
                        s0.holdings == holding_views(self.holdings@),
                        hv == h@,
                        forall|k: int| 0 <= k < p ==> char_seq_lt((#[trigger] s0.holdings[k]).symbol, hv.symbol),
                    decreases self.holdings.len() - p,
                {
                    assert(s0.holdings[p as int] == self.holdings@[p as int]@);
                    p += 1;
                }
                proof {
                    if p < self.holdings.len() {
                        assert(s0.holdings[p as int] == self.holdings@[p as int]@);
                    }
                    lemma_holding_insert_pos(s0.holdings, hv.symbol, p as int);
                }
                let mut holdings: Vec<Holding> = Vec::new();
                std::mem::swap(&mut holdings, &mut self.holdings);
                holdings.insert(p, h);
                proof {
                    assert(holding_views(holdings@) =~= s0.holdings.insert(p as int, hv));
                    let ns = holding_views(holdings@);
                    assert forall|i: int, j: int| 0 <= i < j < ns.len() implies char_seq_lt((#[trigger] ns[i]).symbol, (#[trigger] ns[j]).symbol) by {
                        if j < p {
                            assert(char_seq_lt(s0.holdings[i].symbol, s0.holdings[j].symbol));
                        } else if j == p {
                            assert(ns[i] == s0.holdings[i]);
                        } else if i > p {
                            assert(char_seq_lt(s0.holdings[i - 1].symbol, s0.holdings[j - 1].symbol));
                        } else {
                            assert(ns[j] == s0.holdings[j - 1]);
                            assert(s0.holdings[p as int].symbol != hv.symbol);
                            crate::text::lemma_char_seq_lt_total(s0.holdings[p as int].symbol, hv.symbol);
                            if j - 1 > p {
                                assert(char_seq_lt(s0.holdings[p as int].symbol, s0.holdings[j - 1].symbol));
                                crate::text::lemma_char_seq_lt_transitive(hv.symbol, s0.holdings[p as int].symbol, s0.holdings[j - 1].symbol);
                            }
                            if i < p {
                                assert(ns[i] == s0.holdings[i]);
                                crate::text::lemma_char_seq_lt_transitive(s0.holdings[i].symbol, hv.symbol, s0.holdings[j - 1].symbol);
                            }
                        }
                    }
                }
                self.holdings = holdings;
            },
        }
    }

    /// Stores a fill not applied before, in identifier order.
    fn store_fill(&mut self, f: Fill)
        requires
            !has_fill(old(self)@, f@.id),
        ensures
            final(self)@ == (OrderSystemView { fills: old(self)@.fills.insert(fill_insert_pos(old(self)@.fills, f@.id), f@), ..old(self)@ }),
    {
        proof {
            use_type_invariant(&*self);
        }
        let ghost s0 = self@;
        let ghost fv = f@;
        let mut p: usize = 0;
        while p < self.fills.len() && self.fills[p].id().value() < f.id().value()
            invariant
                p <= self.fills.len(),
                self@ == s0,
                s0.fills == fill_views(self.fills@),
                fv == f@,
                forall|k: int| 0 <= k < p ==> (#[trigger] s0.fills[k]).id.0 < fv.id.0,
            decreases self.fills.len() - p,
        {
            assert(s0.fills[p as int] == self.fills@[p as int]@);
            p += 1;
        }
        proof {
            if p < self.fills.len() {
                assert(s0.fills[p as int] == self.fills@[p as int]@);
                assert(s0.fills[p as int].id != fv.id);
            }
            lemma_fill_insert_pos(s0.fills, fv.id, p as int);
        }
        let mut fills: Vec<Fill> = Vec::new();
        std::mem::swap(&mut fills, &mut self.fills);
        fills.insert(p, f);
        proof {
            assert(fill_views(fills@) =~= s0.fills.insert(p as int, fv));
            let ns = fill_views(fills@);
            assert forall|i: int, j: int| 0 <= i < j < ns.len() implies (#[trigger] ns[i]).id.0 < (#[trigger] ns[j]).id.0 by {
                if j < p {
                } else if j == p {
                    assert(ns[i] == s0.fills[i]);
                } else if i > p {
                    assert(s0.fills[i - 1].id.0 < s0.fills[j - 1].id.0);
                } else {
                    assert(ns[j] == s0.fills[j - 1]);
                    if j - 1 > p {
                        assert(s0.fills[p as int].id.0 < s0.fills[j - 1].id.0);
                    }
                    if i < p {
                        assert(ns[i] == s0.fills[i]);
                    }
                }
            }
        }
        self.fills = fills;
    }

    /// Lifts the wait on `parent` from every order staged on it.
    fn activate_contingent_orders(&mut self, parent: OrderId)
        ensures
            final(self)@ == (OrderSystemView { orders: activate(old(self)@.orders, parent), ..old(self)@ }),
    {
        proof {
            use_type_invariant(&*self);
        }
        let ghost s0 = self@;
        let mut orders = self.take_orders();
        let mut k: usize = 0;
        while k < orders.len()
            invariant
                k <= orders.len(),
                orders.len() == s0.orders.len(),
                forall|m: int| 0 <= m < k ==> (#[trigger] tracked_views(orders@)[m]) == activate(s0.orders, parent)[m],
                forall|m: int| k <= m < orders.len() ==> (#[trigger] tracked_views(orders@)[m]) == s0.orders[m],
            decreases orders.len() - k,
        {
            let ghost before = orders@;
            assert(tracked_views(before)[k as int] == before[k as int]@);
            let waiting = match orders[k].contingent_on_order_id {
                Some(p) => p == parent,
                None => false,
            };
            if waiting {
                orders[k].contingent_on_order_id = None;
            }
            proof {
                assert(orders@ =~= before.update(k as int, orders@[k as int]));
                assert(tracked_views(orders@) =~= tracked_views(before).update(k as int, orders@[k as int]@));
                assert(orders@[k as int]@ == activate(s0.orders, parent)[k as int]);
            }
            k += 1;
        }
        assert(tracked_views(orders@) =~= activate(s0.orders, parent));
        self.put_orders(orders, Ghost(s0));
    }

    /// Advances an order's close override after one of its close fills:
    /// dropped once the order has nothing left to fill; a `SpecificLot`
    /// selection keeps only the lots still open.
    fn advance_close_lot_relief_method(order: &Order, holding: &Holding, lot_relief_method: Option<LotReliefMethod>) -> (r: Option<LotReliefMethod>)
        ensures
            opt_relief_view(r) == advanced_method(order@, holding@, opt_relief_view(lot_relief_method)),
    {
        if order.leaves_qty().is_zero() {
            return None;
        }
        match lot_relief_method {
            Some(LotReliefMethod::SpecificLot(ids)) => {
                let lots = holding.lots();
                let mut kept: Vec<LotId> = Vec::new();
                let mut j: usize = 0;
                assert(ids@.take(0) =~= Seq::<LotId>::empty());
                while j < ids.len()
                    invariant
                        j <= ids.len(),
                        lot_views(lots@) == holding@.lots,
                        kept@ == retain_open(holding@.lots, ids@.take(j as int)),
                    decreases ids.len() - j,
                {
                    proof {
                        lemma_retain_open_step(holding@.lots, ids@, j as int);
                    }
                    if Self::lot_position(lots, ids[j], true).is_some() {
                        kept.push(ids[j]);
                    }
                    j += 1;
                }
                assert(ids@.take(ids.len() as int) =~= ids@);
                Some(LotReliefMethod::SpecificLot(kept))
            },
            other => other,
        }
    }

    /// Commits an applied fill: spends a report identifier, stores the order
    /// snapshot and override, the holding, the fill and the `Trade` report,
    /// and releases the orders staged on a filled order.
    fn commit_fill(
        &mut self,
        i: usize,
        order: &Order,
        method: Option<LotReliefMethod>,
        holding: Holding,
        fill: Fill,
    ) -> (r: Result<ExecutionReport, OrderSystemError>)
        requires
            i < old(self)@.orders.len(),
            order@.id == old(self)@.orders[i as int].order.id,
            !has_fill(old(self)@, fill@.id),
        ensures
            final(self)@ == commit_fill(old(self)@, i as int, old(self)@.orders[i as int], order@, opt_relief_view(method), holding@, fill@).0,
            report_result_is(r, commit_fill(old(self)@, i as int, old(self)@.orders[i as int], order@, opt_relief_view(method), holding@, fill@).1),
    {
        proof {
            use_type_invariant(&*self);
        }
        let ghost s0 = self@;
        let report_id = match self.allocate_report_id() {
            Some(x) => x,
            None => return Err(OrderSystemError::ArithmeticOverflow),
        };
        let report = ExecutionReport::trade(report_id, order, &fill);
        let ghost s1 = self@;
        let mut orders = self.take_orders();
        let contingent = orders[i].contingent_on_order_id;
        assert(tracked_views(orders@)[i as int] == orders@[i as int]@);
        orders.set(i, TrackedOrder { order: order.duplicate(), close_lot_relief_method: method, contingent_on_order_id: contingent });
        assert(tracked_views(orders@) =~= s1.orders.update(i as int, orders@[i as int]@));
        self.put_orders(orders, Ghost(s1));
        self.store_holding(holding);
        self.store_fill(fill);
        self.push_report(report.duplicate());
        if order.status() == OrderStatus::Filled {
            self.activate_contingent_orders(order.id());
        }
        Ok(report)
    }

    /// Applies one fill to its order and to the holding of its symbol.
    ///
    /// The fill is validated against copies of the order and the holding,
    /// which are stored back only when everything succeeded, so a failure
    /// leaves orders, holdings, fills and reports untouched (identifiers
    /// already spent stay spent).
    pub fn apply_fill(&mut self, fill: Fill) -> (r: Result<AppliedFill, OrderSystemError>)
        ensures
            fill_outcome(old(self)@, fill@, final(self)@, applied_result_view(r)),
    {
        proof {
            use_type_invariant(&*self);
        }
        let ghost s0 = self@;
        fill.lemma_valid();
        if self.find_fill(fill.id()).is_some() {
            return Err(OrderSystemError::DuplicateFillId { fill_id: fill.id() });
        }
        let i = match self.find_order(fill.order_id()) {
            Some(i) => i,
            None => return Err(OrderSystemError::UnknownOrderId { order_id: fill.order_id() }),
        };
        assert(s0.orders[i as int] == self.orders@[i as int]@);
        if let Some(waiting_on_order_id) = self.orders[i].contingent_on_order_id {
            return Err(OrderSystemError::OrderNotActive { order_id: fill.order_id(), waiting_on_order_id });
        }
        let mut order_snapshot = self.orders[i].order.duplicate();
        if let Err(e) = order_snapshot.record_fill(&fill) {
            return Err(OrderSystemError::Order(e));
        }
        let method = match &self.orders[i].close_lot_relief_method {
            Some(m) => Some(m.duplicate()),
            None => None,
        };
        let position = self.find_holding(fill.symbol());
        match fill.position_effect() {
            PositionEffect::Open => {
                let mut holding = match position {
                    Some(p) => {
                        assert(s0.holdings[p as int] == self.holdings@[p as int]@);
                        self.holdings[p].duplicate()
                    },
                    None => {
                        let holding_id = match self.allocate_holding_id() {
                            Some(x) => x,
                            None => return Err(OrderSystemError::ArithmeticOverflow),
                        };
                        match Holding::new(holding_id, fill.symbol(), self.default_lot_relief_method.duplicate()) {
                            Ok(h) => h,
                            Err(e) => return Err(OrderSystemError::Holding(e)),
                        }
                    },
                };
                let ghost h = holding@;
                let ghost sa = self@;
                proof {
                    let existing = holding_of(s0, fill@.symbol);
                    assert(h == match existing {
                        Some(x) => x,
                        None => HoldingView { id: HoldingId(s0.next_holding_id), symbol: fill@.symbol, lot_relief_method: s0.default_method, lots: Seq::empty() },
                    });
                    assert(sa == if existing is None { OrderSystemView { next_holding_id: (s0.next_holding_id + 1) as u64, ..s0 } } else { s0 });
                }
                let lot_id = match self.allocate_lot_id() {
                    Some(x) => x,
                    None => return Err(OrderSystemError::ArithmeticOverflow),
                };
                let opened = match holding.open_lot_from_fill(lot_id, &fill) {
                    Ok(_) => None,
                    Err(e) => Some(e),
                };
                proof {
                    assert(holding@ == open_step(h, lot_id, fill@).0);
                    assert(opened == open_step(h, lot_id, fill@).1);
                }
                if let Some(e) = opened {
                    let r: Result<AppliedFill, OrderSystemError> = Err(OrderSystemError::Holding(e));
                    proof {
                        let sb = OrderSystemView { next_lot_id: (sa.next_lot_id + 1) as u64, ..sa };
                        assert(self@ == sb);
                        assert(open_fill_outcome(s0, i as int, s0.orders[i as int], order_snapshot@, fill@, self@, applied_result_view(r)));
                    }
                    return r;
                }
                let ghost h2 = holding@;
                let ghost sb = self@;
                let ghost mv = opt_relief_view(method);
                let ghost fv = fill@;
                let committed = self.commit_fill(i, &order_snapshot, method, holding, fill);
                let r: Result<AppliedFill, OrderSystemError> = match committed {
                    Ok(report) => Ok(AppliedFill { order: order_snapshot, report, opened_lot_id: Some(lot_id), holding_close: None }),
                    Err(e) => Err(e),
                };
                proof {
                    let c = commit_fill(sb, i as int, s0.orders[i as int], order_snapshot@, mv, h2, fv);
                    assert(sb == (OrderSystemView { next_lot_id: (sa.next_lot_id + 1) as u64, ..sa }));
                    assert(open_fill_outcome(s0, i as int, s0.orders[i as int], order_snapshot@, fv, self@, applied_result_view(r)));
                }
                r
            },
            PositionEffect::Close => {
                let p = match position {
                    Some(p) => p,
                    None => return Err(OrderSystemError::NoOpenPosition { symbol: fill.symbol().to_string() }),
                };
                assert(s0.holdings[p as int] == self.holdings@[p as int]@);
                let mut holding = self.holdings[p].duplicate();
                let ghost h = holding@;
                let closed = match &method {
                    Some(m) => holding.close_with_fill_using(&fill, m),
                    None => holding.close_with_fill(&fill),
                };
                let ghost m_used = match opt_relief_view(method) {
                    Some(m) => m,
                    None => h.lot_relief_method,
                };
                assert(close_step(h, fill@, m_used, holding@, close_result_view(closed)));
                let ghost hc = close_result_view(closed);
                let close = match closed {
                    Ok(c) => c,
                    Err(e) => {
                        let r: Result<AppliedFill, OrderSystemError> = Err(OrderSystemError::Holding(e));
                        proof {
                            assert(close_step(h, fill@, relief_for(s0.orders[i as int], h), holding@, hc));
                            assert(close_commit(s0, i as int, s0.orders[i as int], order_snapshot@, fill@, holding@, hc, self@, applied_result_view(r)));
                            assert(close_fill_outcome(s0, i as int, s0.orders[i as int], order_snapshot@, fill@, self@, applied_result_view(r)));
                        }
                        return r;
                    },
                };
                let next_method = Self::advance_close_lot_relief_method(&order_snapshot, &holding, method);
                let ghost h2 = holding@;
                let ghost mv = opt_relief_view(next_method);
                let ghost fv = fill@;
                let ghost cv = close@;
                let committed = self.commit_fill(i, &order_snapshot, next_method, holding, fill);
                let r: Result<AppliedFill, OrderSystemError> = match committed {
                    Ok(report) => Ok(AppliedFill { order: order_snapshot, report, opened_lot_id: None, holding_close: Some(close) }),
                    Err(e) => Err(e),
                };
                proof {
                    let c = commit_fill(s0, i as int, s0.orders[i as int], order_snapshot@, mv, h2, fv);
                    assert(close_step(h, fv, relief_for(s0.orders[i as int], h), h2, hc));
                    assert(close_commit(s0, i as int, s0.orders[i as int], order_snapshot@, fv, h2, hc, self@, applied_result_view(r)));
                    assert(close_fill_outcome(s0, i as int, s0.orders[i as int], order_snapshot@, fv, self@, applied_result_view(r)));
                }
                r
            },
        }
    }

    /// Returns the append-only execution-report history.
    pub fn execution_reports(&self) -> (r: &[ExecutionReport])
        ensures
            report_views(r@) == self@.reports,
    {
        self.execution_reports.as_slice()
    }
}

} // verus!
