//! Strategy-facing convenience layer over the order system.
//!
//! A [`Strategy`] owns an [`OrderSystem`] together with the current bar's
//! timestamp and index and an optional default symbol, so that strategy code
//! can submit, close and flatten with the bar time filled in.

use vstd::prelude::*;

use crate::decimal::Dec;
use crate::order_sys::execution_report::ExecutionReport;
use crate::order_sys::fill::Fill;
use crate::order_sys::holding::{Holding, LotReliefMethod, ReliefView};
use crate::order_sys::order::{Order, OrderSide, OrderType, PositionEffect, TimeInForce};
use crate::order_sys::system::{
    acknowledge_outcome, applied_result_view, available_close, empty_system, cancel_outcome, close_side_for, fill_of, fill_outcome,
    holding_of, opt_fill_view, opt_holding_view, opt_order_view, opt_relief_view, order_submission, reject_outcome,
    report_result_is, report_views, res_view, submit_result_is, tracked_of, AppliedFill, FlattenPositionRequest,
    OrderSystem, OrderSystemError, OrderSystemView, RequestView, SubmitCloseOrderRequest, SubmitOrderRequest,
    SubmittedOrder, SysErrorView,
};
use crate::order_sys::{FillId, OrderId, Timestamp};

verus! {

/// Strategy-facing exposure direction for opening orders.
#[derive(Clone, Copy, Debug, PartialEq, Eq, Structural)]
pub enum Side {
    /// Open or add long exposure.
    Long,
    /// Open or add short exposure.
    Short,
}

impl Side {
    /// The order side that opens this exposure.
    pub fn to_open_order_side(self) -> (r: OrderSide)
        ensures
            r == (match self {
                Side::Long => OrderSide::Buy,
                Side::Short => OrderSide::Sell,
            }),
    {
        match self {
            Side::Long => OrderSide::Buy,
            Side::Short => OrderSide::Sell,
        }
    }
}

/// Strategy-facing order style.
#[derive(Clone, Copy, Debug, PartialEq, Eq)]
pub enum OrderKind {
    /// Immediate execution at the best available price.
    Market,
    /// Execute only at the limit price or better.
    Limit { limit_price: Dec },
    /// Trigger when the stop price is crossed.
    Stop { stop_price: Dec },
    /// Trigger at the stop price, then behave like a limit order.
    StopLimit { stop_price: Dec, limit_price: Dec },
}

/// Order type, limit price and stop price of an order style.
pub open spec fn order_params(k: OrderKind) -> (OrderType, Option<Dec>, Option<Dec>) {
    match k {
        OrderKind::Market => (OrderType::Market, None, None),
        OrderKind::Limit { limit_price } => (OrderType::Limit, Some(limit_price), None),
        OrderKind::Stop { stop_price } => (OrderType::Stop, None, Some(stop_price)),
        OrderKind::StopLimit { stop_price, limit_price } => (OrderType::StopLimit, Some(limit_price), Some(stop_price)),
    }
}

impl OrderKind {
    /// Converts the order style into order-system parameters.
    pub fn to_order_params(self) -> (r: (OrderType, Option<Dec>, Option<Dec>))
        ensures
            r == order_params(self),
    {
        match self {
            OrderKind::Market => (OrderType::Market, None, None),
            OrderKind::Limit { limit_price } => (OrderType::Limit, Some(limit_price), None),
            OrderKind::Stop { stop_price } => (OrderType::Stop, None, Some(stop_price)),
            OrderKind::StopLimit { stop_price, limit_price } => (OrderType::StopLimit, Some(limit_price), Some(stop_price)),
        }
    }
}

/// Errors raised by the strategy convenience layer.
#[derive(Clone, Debug, PartialEq, Eq)]
pub enum StrategyError {
    /// A bar-dependent method was called before any bar was entered.
    MissingBarContext,
    /// A symbol-dependent shorthand was called without a default symbol.
    MissingDefaultSymbol,
    /// Error from the order system.
    OrderSystem(OrderSystemError),
}

/// Abstract value of a [`StrategyError`].
pub enum StrategyErrorView {
    MissingBarContext,
    MissingDefaultSymbol,
    OrderSystem(SysErrorView),
}

impl View for StrategyError {
    type V = StrategyErrorView;

    open spec fn view(&self) -> StrategyErrorView {
        match self {
            StrategyError::MissingBarContext => StrategyErrorView::MissingBarContext,
            StrategyError::MissingDefaultSymbol => StrategyErrorView::MissingDefaultSymbol,
            StrategyError::OrderSystem(e) => StrategyErrorView::OrderSystem(e@),
        }
    }
}

/// Abstract state of a strategy context.
pub struct StrategyView {
    pub system: OrderSystemView,
    pub default_symbol: Option<Seq<char>>,
    pub bar_time: Option<Timestamp>,
    pub bar_index: Option<usize>,
}

/// Strategy runtime context: an order system, the current bar's time and
/// index, and an optional default symbol.
#[derive(Debug)]
pub struct Strategy {
    order_system: OrderSystem,
    default_symbol: Option<String>,
    current_bar_time: Option<Timestamp>,
    current_bar_index: Option<usize>,
}

impl View for Strategy {
    type V = StrategyView;

    closed spec fn view(&self) -> StrategyView {
        StrategyView {
            system: self.order_system@,
            default_symbol: match self.default_symbol {
                Some(s) => Some(s@),
                None => None,
            },
            bar_time: self.current_bar_time,
            bar_index: self.current_bar_index,
        }
    }
}

/// The request of an opening order for `symbol` at bar time `t`.
pub open spec fn open_request(symbol: Seq<char>, side: Side, kind: OrderKind, qty: Dec, allow_reversal: bool, t: Timestamp) -> RequestView {
    RequestView {
        symbol,
        side: match side {
            Side::Long => OrderSide::Buy,
            Side::Short => OrderSide::Sell,
        },
        position_effect: PositionEffect::Open,
        order_type: order_params(kind).0,
        time_in_force: TimeInForce::Day,
        submitted_at: t,
        qty,
        limit_price: order_params(kind).1,
        stop_price: order_params(kind).2,
        lot_relief_method: None,
        allow_reversal,
    }
}

/// The request of a closing order of `side` for `symbol` at bar time `t`.
pub open spec fn close_request(symbol: Seq<char>, side: OrderSide, kind: OrderKind, qty: Dec, t: Timestamp) -> RequestView {
    RequestView {
        symbol,
        side,
        position_effect: PositionEffect::Close,
        order_type: order_params(kind).0,
        time_in_force: TimeInForce::Day,
        submitted_at: t,
        qty,
        limit_price: order_params(kind).1,
        stop_price: order_params(kind).2,
        lot_relief_method: None,
        allow_reversal: false,
    }
}

/// `r` is the strategy-level result of a submission outcome `v`.
pub open spec fn strategy_submit_is(r: Result<SubmittedOrder, StrategyError>, v: Result<crate::order_sys::system::SubmissionView, SysErrorView>) -> bool {
    match v {
        Ok(x) => r is Ok && crate::order_sys::system::submitted_matches(r.unwrap(), x),
        Err(e) => r is Err && r->Err_0@ == StrategyErrorView::OrderSystem(e),
    }
}

/// Submitting an opening request for `symbol`: needs a current bar.
pub open spec fn open_outcome(
    st: StrategyView,
    symbol: Seq<char>,
    side: Side,
    kind: OrderKind,
    qty: Dec,
    allow_reversal: bool,
    st2: StrategyView,
    r: Result<SubmittedOrder, StrategyError>,
) -> bool {
    match st.bar_time {
        None => st2 == st && r is Err && r->Err_0@ == StrategyErrorView::MissingBarContext,
        Some(t) => {
            let o = order_submission(st.system, open_request(symbol, side, kind, qty, allow_reversal, t));
            st2 == (StrategyView { system: o.0, ..st }) && strategy_submit_is(r, o.1)
        },
    }
}

/// Submitting a closing request for `symbol`: needs a current bar, then the
/// side is inferred from the holding.
pub open spec fn close_outcome(st: StrategyView, symbol: Seq<char>, qty: Dec, kind: OrderKind, st2: StrategyView, r: Result<SubmittedOrder, StrategyError>) -> bool {
    match st.bar_time {
        None => st2 == st && r is Err && r->Err_0@ == StrategyErrorView::MissingBarContext,
        Some(t) => match close_side_for(st.system, symbol) {
            Err(e) => st2 == st && r is Err && r->Err_0@ == StrategyErrorView::OrderSystem(e),
            Ok(side) => {
                let o = order_submission(st.system, close_request(symbol, side, kind, qty, t));
                st2 == (StrategyView { system: o.0, ..st }) && strategy_submit_is(r, o.1)
            },
        },
    }
}

/// Flattening `symbol`: needs a current bar, then closes every unreserved
/// unit.
pub open spec fn flatten_outcome(st: StrategyView, symbol: Seq<char>, kind: OrderKind, st2: StrategyView, r: Result<SubmittedOrder, StrategyError>) -> bool {
    match st.bar_time {
        None => st2 == st && r is Err && r->Err_0@ == StrategyErrorView::MissingBarContext,
        Some(t) => match close_side_for(st.system, symbol) {
            Err(e) => st2 == st && r is Err && r->Err_0@ == StrategyErrorView::OrderSystem(e),
            Ok(side) => match available_close(st.system, symbol) {
                Err(e) => st2 == st && r is Err && r->Err_0@ == StrategyErrorView::OrderSystem(e),
                Ok(qty) => if qty.value() == 0 {
                    st2 == st && r is Err && r->Err_0@ == StrategyErrorView::OrderSystem(SysErrorView::NoClosableQuantity { symbol })
                } else {
                    let o = order_submission(st.system, close_request(symbol, side, kind, qty, t));
                    st2 == (StrategyView { system: o.0, ..st }) && strategy_submit_is(r, o.1)
                },
            },
        },
    }
}

impl Default for Strategy {
    /// A context whose order system relieves lots first in, first out.
    fn default() -> (r: Strategy)
        ensures
            r@.system == empty_system(ReliefView::Fifo),
            r@.default_symbol is None,
            r@.bar_time is None,
            r@.bar_index is None,
    {
        Strategy::new(LotReliefMethod::Fifo)
    }
}

impl Strategy {
    /// Creates a context with an empty order system and no bar or symbol.
    pub fn new(default_lot_relief_method: LotReliefMethod) -> (r: Strategy)
        ensures
            r@.system == empty_system(default_lot_relief_method@),
            r@.default_symbol is None,
            r@.bar_time is None,
            r@.bar_index is None,
    {
        Strategy {
            order_system: OrderSystem::new(default_lot_relief_method),
            default_symbol: None,
            current_bar_time: None,
            current_bar_index: None,
        }
    }

    /// Replaces the default symbol used by the shorthand methods.
    pub fn set_default_symbol(&mut self, symbol: &str)
        ensures
            final(self)@ == (StrategyView { default_symbol: Some(symbol@), ..old(self)@ }),
    {
        self.default_symbol = Some(symbol.to_string());
    }

    pub fn default_symbol(&self) -> (r: Option<&str>)
        ensures
            match r {
                Some(s) => self@.default_symbol == Some(s@),
                None => self@.default_symbol is None,
            },
    {
        match &self.default_symbol {
            Some(s) => Some(s.as_str()),
            None => None,
        }
    }

    pub fn current_bar_time(&self) -> (r: Option<Timestamp>)
        ensures
            r == self@.bar_time,
    {
        self.current_bar_time
    }

    pub fn current_bar_index(&self) -> (r: Option<usize>)
        ensures
            r == self@.bar_index,
    {
        self.current_bar_index
    }

    /// The underlying order system.
    pub fn order_system(&self) -> (r: &OrderSystem)
        ensures
            r@ == self@.system,
    {
        &self.order_system
    }

    /// Mutable access to the underlying order system.
    pub fn order_system_mut(&mut self) -> (r: &mut OrderSystem)
        ensures
            r@ == old(self)@.system,
            final(self)@ == (StrategyView { system: final(r)@, ..old(self)@ }),
    {
        &mut self.order_system
    }

    pub fn order(&self, order_id: OrderId) -> (r: Option<&Order>)
        ensures
            opt_order_view(r) == match tracked_of(self@.system, order_id) {
                Some(t) => Some(t.order),
                None => None::<crate::order_sys::order::OrderView>,
            },
    {
        self.order_system.order(order_id)
    }

    pub fn fill(&self, fill_id: FillId) -> (r: Option<&Fill>)
        ensures
            opt_fill_view(r) == fill_of(self@.system, fill_id),
    {
        self.order_system.fill(fill_id)
    }

    pub fn holding(&self, symbol: &str) -> (r: Option<&Holding>)
        ensures
            opt_holding_view(r) == holding_of(self@.system, symbol@),
    {
        self.order_system.holding(symbol)
    }

    pub fn execution_reports(&self) -> (r: &[ExecutionReport])
        ensures
            report_views(r@) == self@.system.reports,
    {
        self.order_system.execution_reports()
    }

    /// Enters a bar: its timestamp and index become the current context.
    pub fn begin_bar(&mut self, time: Timestamp, index: usize)
        ensures
            final(self)@ == (StrategyView { bar_time: Some(time), bar_index: Some(index), ..old(self)@ }),
    {
        self.current_bar_time = Some(time);
        self.current_bar_index = Some(index);
    }

    /// The default symbol, or `MissingDefaultSymbol`.
    fn require_default_symbol(&self) -> (r: Result<&str, StrategyError>)
        ensures
            match self@.default_symbol {
                Some(s) => r is Ok && r.unwrap()@ == s,
                None => r == Err::<&str, StrategyError>(StrategyError::MissingDefaultSymbol),
            },
    {
        match &self.default_symbol {
            Some(s) => Ok(s.as_str()),
            None => Err(StrategyError::MissingDefaultSymbol),
        }
    }

    /// The current bar time, or `MissingBarContext`.
    fn require_current_bar_time(&self) -> (r: Result<Timestamp, StrategyError>)
        ensures
            match self@.bar_time {
                Some(t) => r == Ok::<Timestamp, StrategyError>(t),
                None => r == Err::<Timestamp, StrategyError>(StrategyError::MissingBarContext),
            },
    {
        match self.current_bar_time {
            Some(t) => Ok(t),
            None => Err(StrategyError::MissingBarContext),
        }
    }

    /// The current bar index, or `MissingBarContext`.
    pub fn require_current_bar_index(&self) -> (r: Result<usize, StrategyError>)
        ensures
            match self@.bar_index {
                Some(i) => r == Ok::<usize, StrategyError>(i),
                None => r == Err::<usize, StrategyError>(StrategyError::MissingBarContext),
            },
    {
        match self.current_bar_index {
            Some(i) => Ok(i),
            None => Err(StrategyError::MissingBarContext),
        }
    }

    /// Submits an opening order for an explicit symbol at the current bar time.
    pub fn submit_order_for(&mut self, symbol: &str, side: Side, order_kind: OrderKind, qty: Dec, allow_reversal: bool) -> (r: Result<SubmittedOrder, StrategyError>)
        ensures
            open_outcome(old(self)@, symbol@, side, order_kind, qty, allow_reversal, final(self)@, r),
    {
        let submitted_at = self.require_current_bar_time()?;
        let (order_type, limit_price, stop_price) = order_kind.to_order_params();
        let request = SubmitOrderRequest::new(
            symbol,
            side.to_open_order_side(),
            PositionEffect::Open,
            order_type,
            TimeInForce::Day,
            submitted_at,
            qty,
            limit_price,
            stop_price,
        ).with_allow_reversal(allow_reversal);
        match self.order_system.submit_order(request) {
            Ok(s) => Ok(s),
            Err(e) => Err(StrategyError::OrderSystem(e)),
        }
    }

    /// Submits an opening order for the default symbol at the current bar time.
    pub fn submit_order(&mut self, side: Side, order_kind: OrderKind, qty: Dec, allow_reversal: bool) -> (r: Result<SubmittedOrder, StrategyError>)
        ensures
            match old(self)@.default_symbol {
                None => final(self)@ == old(self)@ && r is Err && r->Err_0@ == StrategyErrorView::MissingDefaultSymbol,
                Some(s) => open_outcome(old(self)@, s, side, order_kind, qty, allow_reversal, final(self)@, r),
            },
    {
        let symbol = self.require_default_symbol()?.to_string();
        self.submit_order_for(symbol.as_str(), side, order_kind, qty, allow_reversal)
    }

    /// Submits a closing order for an explicit symbol at the current bar time.
    pub fn close_for(&mut self, symbol: &str, qty: Dec, order_kind: OrderKind) -> (r: Result<SubmittedOrder, StrategyError>)
        ensures
            close_outcome(old(self)@, symbol@, qty, order_kind, final(self)@, r),
    {
        let submitted_at = self.require_current_bar_time()?;
        let (order_type, limit_price, stop_price) = order_kind.to_order_params();
        let request = SubmitCloseOrderRequest::new(symbol, submitted_at, qty, order_type, TimeInForce::Day, limit_price, stop_price);
        match self.order_system.submit_close_order(request) {
            Ok(s) => Ok(s),
            Err(e) => Err(StrategyError::OrderSystem(e)),
        }
    }

    /// Submits a closing order for the default symbol at the current bar time.
    pub fn close(&mut self, qty: Dec, order_kind: OrderKind) -> (r: Result<SubmittedOrder, StrategyError>)
        ensures
            match old(self)@.default_symbol {
                None => final(self)@ == old(self)@ && r is Err && r->Err_0@ == StrategyErrorView::MissingDefaultSymbol,
                Some(s) => close_outcome(old(self)@, s, qty, order_kind, final(self)@, r),
            },
    {
        let symbol = self.require_default_symbol()?.to_string();
        self.close_for(symbol.as_str(), qty, order_kind)
    }

    /// Flattens an explicit symbol at the current bar time.
    pub fn flatten_for(&mut self, symbol: &str, order_kind: OrderKind) -> (r: Result<SubmittedOrder, StrategyError>)
        ensures
            flatten_outcome(old(self)@, symbol@, order_kind, final(self)@, r),
    {
        let submitted_at = self.require_current_bar_time()?;
        let (order_type, limit_price, stop_price) = order_kind.to_order_params();
        let mut request = FlattenPositionRequest::new(symbol, submitted_at, order_type, TimeInForce::Day);
        if let Some(l) = limit_price {
            request = request.with_limit_price(l);
        }
        if let Some(s) = stop_price {
            request = request.with_stop_price(s);
        }
        match self.order_system.flatten_position(request) {
            Ok(s) => Ok(s),
            Err(e) => Err(StrategyError::OrderSystem(e)),
        }
    }

    /// Flattens the default symbol at the current bar time.
    pub fn flatten(&mut self, order_kind: OrderKind) -> (r: Result<SubmittedOrder, StrategyError>)
        ensures
            match old(self)@.default_symbol {
                None => final(self)@ == old(self)@ && r is Err && r->Err_0@ == StrategyErrorView::MissingDefaultSymbol,
                Some(s) => flatten_outcome(old(self)@, s, order_kind, final(self)@, r),
            },
    {
        let symbol = self.require_default_symbol()?.to_string();
        self.flatten_for(symbol.as_str(), order_kind)
    }

    /// Applies one fill to the underlying order system.
    pub fn apply_fill(&mut self, fill: Fill) -> (r: Result<AppliedFill, StrategyError>)
        ensures
            final(self)@.default_symbol == old(self)@.default_symbol,
            final(self)@.bar_time == old(self)@.bar_time,
            final(self)@.bar_index == old(self)@.bar_index,
            fill_outcome(old(self)@.system, fill@, final(self)@.system, match r {
                Ok(a) => Ok(crate::order_sys::system::applied_view(a)),
                Err(StrategyError::OrderSystem(e)) => Err(e@),
                Err(_) => Err(SysErrorView::ArithmeticOverflow),
            }),
            r is Err ==> r->Err_0 is OrderSystem,
    {
        match self.order_system.apply_fill(fill) {
            Ok(a) => Ok(a),
            Err(e) => Err(StrategyError::OrderSystem(e)),
        }
    }

    /// Marks one order as acknowledged.
    pub fn acknowledge_order(&mut self, order_id: OrderId, acknowledged_at: Timestamp) -> (r: Result<ExecutionReport, StrategyError>)
        ensures
            final(self)@ == (StrategyView { system: acknowledge_outcome(old(self)@.system, order_id, acknowledged_at).0, ..old(self)@ }),
            strategy_report_is(r, acknowledge_outcome(old(self)@.system, order_id, acknowledged_at).1),
    {
        match self.order_system.acknowledge_order(order_id, acknowledged_at) {
            Ok(x) => Ok(x),
            Err(e) => Err(StrategyError::OrderSystem(e)),
        }
    }

    /// Cancels one order.
    pub fn cancel_order(&mut self, order_id: OrderId, canceled_at: Timestamp) -> (r: Result<ExecutionReport, StrategyError>)
        ensures
            final(self)@ == (StrategyView { system: cancel_outcome(old(self)@.system, order_id, canceled_at).0, ..old(self)@ }),
            strategy_report_is(r, cancel_outcome(old(self)@.system, order_id, canceled_at).1),
    {
        match self.order_system.cancel_order(order_id, canceled_at) {
            Ok(x) => Ok(x),
            Err(e) => Err(StrategyError::OrderSystem(e)),
        }
    }

    /// Rejects one order with a reason.
    pub fn reject_order(&mut self, order_id: OrderId, rejected_at: Timestamp, reason: &str) -> (r: Result<ExecutionReport, StrategyError>)
        ensures
            final(self)@ == (StrategyView { system: reject_outcome(old(self)@.system, order_id, rejected_at, reason@).0, ..old(self)@ }),
            strategy_report_is(r, reject_outcome(old(self)@.system, order_id, rejected_at, reason@).1),
    {
        match self.order_system.reject_order(order_id, rejected_at, reason) {
            Ok(x) => Ok(x),
            Err(e) => Err(StrategyError::OrderSystem(e)),
        }
    }

    /// Unreserved closeable quantity of one symbol.
    pub fn available_close_qty(&self, symbol: &str) -> (r: Result<Dec, StrategyError>)
        ensures
            match available_close(self@.system, symbol@) {
                Ok(q) => r == Ok::<Dec, StrategyError>(q),
                Err(e) => r is Err && r->Err_0@ == StrategyErrorView::OrderSystem(e),
            },
    {
        match self.order_system.available_close_qty(symbol) {
            Ok(x) => Ok(x),
            Err(e) => Err(StrategyError::OrderSystem(e)),
        }
    }
}

/// `r` is the strategy-level result of a report outcome `v`.
pub open spec fn strategy_report_is(r: Result<ExecutionReport, StrategyError>, v: Result<crate::order_sys::execution_report::ExecutionReportView, SysErrorView>) -> bool {
    match v {
        Ok(x) => r is Ok && r.unwrap()@ == x,
        Err(e) => r is Err && r->Err_0@ == StrategyErrorView::OrderSystem(e),
    }
}

} // verus!
