//! Order intent and order-state transitions.
//!
//! The [`Order`] aggregate models what the strategy or client asked the system
//! to do. It tracks requested quantity, order type, time in force, fills
//! applied so far, and terminal states such as cancel and reject.

use vstd::prelude::*;

use crate::decimal::{dec_add, dec_div, dec_mul, dec_sub, no_growth, Dec};
use crate::order_sys::fill::{fill_valid, Fill, FillView};
use crate::order_sys::lot::LotSide;
use crate::order_sys::{FillId, OrderId, Timestamp};
use crate::text::{is_blank, is_blank_spec, str_eq};

verus! {

/// Direction of the order.
#[derive(Clone, Copy, Debug, PartialEq, Eq, Structural)]
pub enum OrderSide {
    /// Buy side order.
    Buy,
    /// Sell side order.
    Sell,
}

impl OrderSide {
    /// Maps an opening order side to the resulting lot side.
    pub fn to_open_lot_side(self) -> (r: LotSide)
        ensures
            r == (match self {
                OrderSide::Buy => LotSide::Long,
                OrderSide::Sell => LotSide::Short,
            }),
    {
        match self {
            OrderSide::Buy => LotSide::Long,
            OrderSide::Sell => LotSide::Short,
        }
    }

    /// Returns which lot side this order would close.
    pub fn closing_lot_side(self) -> (r: LotSide)
        ensures
            r == (match self {
                OrderSide::Buy => LotSide::Short,
                OrderSide::Sell => LotSide::Long,
            }),
    {
        match self {
            OrderSide::Buy => LotSide::Short,
            OrderSide::Sell => LotSide::Long,
        }
    }
}

/// Whether an order opens or closes exposure.
#[derive(Clone, Copy, Debug, PartialEq, Eq, Structural)]
pub enum PositionEffect {
    /// The order adds new position exposure.
    Open,
    /// The order reduces or removes existing position exposure.
    Close,
}

/// Execution style requested by the order.
#[derive(Clone, Copy, Debug, PartialEq, Eq, Structural)]
pub enum OrderType {
    /// Immediate execution at the best available price.
    Market,
    /// Execution limited by a limit price.
    Limit,
    /// Triggered by a stop price and then behaves like a market order.
    Stop,
    /// Triggered by a stop price and then behaves like a limit order.
    StopLimit,
}

/// Time-in-force policy requested by the order.
#[derive(Clone, Copy, Debug, PartialEq, Eq, Structural)]
pub enum TimeInForce {
    /// Valid for the current trading day or session.
    Day,
    /// Good until canceled.
    Gtc,
    /// Immediate-or-cancel.
    Ioc,
    /// Fill-or-kill.
    Fok,
}

/// Current lifecycle state of the order aggregate.
#[derive(Clone, Copy, Debug, PartialEq, Eq, Structural)]
pub enum OrderStatus {
    /// Created locally but not yet acknowledged.
    Pending,
    /// Live and working in the market.
    Working,
    /// At least one fill and still some leaves quantity.
    PartiallyFilled,
    /// Fully filled.
    Filled,
    /// Canceled before completion.
    Canceled,
    /// Rejected.
    Rejected,
}

/// Filled, canceled and rejected orders accept no further events.
pub open spec fn is_terminal(s: OrderStatus) -> bool {
    s == OrderStatus::Filled || s == OrderStatus::Canceled || s == OrderStatus::Rejected
}

/// Domain errors raised while validating or mutating an order.
#[allow(inconsistent_fields)]
#[derive(Clone, Debug, PartialEq, Eq)]
pub enum OrderError {
    /// The symbol string was empty or whitespace.
    EmptySymbol,
    /// Requested quantity must be strictly positive.
    NonPositiveQuantity { quantity: Dec },
    /// Prices must be strictly positive when present.
    NonPositivePrice { price: Dec },
    /// A limit order requires a limit price.
    MissingLimitPrice,
    /// A stop order requires a stop price.
    MissingStopPrice,
    /// A limit price was supplied to an order type that does not use one.
    UnexpectedLimitPrice,
    /// A stop price was supplied to an order type that does not use one.
    UnexpectedStopPrice,
    /// Order events must be applied in non-decreasing timestamp order.
    EventOutOfOrder { previous_timestamp: Timestamp, new_timestamp: Timestamp },
    /// The fill referenced a different order.
    FillOrderMismatch { expected: OrderId, actual: OrderId },
    /// The fill symbol did not match the order symbol.
    FillSymbolMismatch { expected: String, actual: String },
    /// The fill side did not match the order side.
    FillSideMismatch { expected: OrderSide, actual: OrderSide },
    /// The fill position effect did not match the order position effect.
    FillPositionEffectMismatch { expected: PositionEffect, actual: PositionEffect },
    /// The fill quantity exceeded the order's remaining leaves quantity.
    FillQuantityExceedsLeaves { fill_qty: Dec, leaves_qty: Dec },
    /// The same fill identifier was applied more than once.
    DuplicateFillId { fill_id: FillId },
    /// The order is already terminal and cannot accept more lifecycle events.
    TerminalStatus { order_id: OrderId, status: OrderStatus },
    /// A rejection after any fills would destroy audit consistency.
    RejectAfterFill { order_id: OrderId, filled_qty: Dec },
    /// A decimal result fell outside the range `rust_decimal` can hold.
    ArithmeticOverflow,
}

/// Abstract state of an order.
pub struct OrderView {
    pub id: OrderId,
    pub symbol: Seq<char>,
    pub side: OrderSide,
    pub position_effect: PositionEffect,
    pub order_type: OrderType,
    pub time_in_force: TimeInForce,
    pub submitted_at: Timestamp,
    pub last_event_at: Timestamp,
    pub requested_qty: Dec,
    pub limit_price: Option<Dec>,
    pub stop_price: Option<Dec>,
    pub status: OrderStatus,
    pub filled_qty: Dec,
    pub average_fill_price: Option<Dec>,
    pub cumulative_fees: Dec,
    pub fill_ids: Seq<FillId>,
    pub canceled_at: Option<Timestamp>,
    pub rejected_at: Option<Timestamp>,
    pub reject_reason: Option<Seq<char>>,
}

/// Order aggregate and state machine.
#[derive(Debug, PartialEq, Eq)]
pub struct Order {
    id: OrderId,
    symbol: String,
    side: OrderSide,
    position_effect: PositionEffect,
    order_type: OrderType,
    time_in_force: TimeInForce,
    submitted_at: Timestamp,
    last_event_at: Timestamp,
    requested_qty: Dec,
    limit_price: Option<Dec>,
    stop_price: Option<Dec>,
    status: OrderStatus,
    filled_qty: Dec,
    average_fill_price: Option<Dec>,
    cumulative_fees: Dec,
    fill_ids: Vec<FillId>,
    canceled_at: Option<Timestamp>,
    rejected_at: Option<Timestamp>,
    reject_reason: Option<String>,
}

impl View for Order {
    type V = OrderView;

    closed spec fn view(&self) -> OrderView {
        OrderView {
            id: self.id,
            symbol: self.symbol@,
            side: self.side,
            position_effect: self.position_effect,
            order_type: self.order_type,
            time_in_force: self.time_in_force,
            submitted_at: self.submitted_at,
            last_event_at: self.last_event_at,
            requested_qty: self.requested_qty,
            limit_price: self.limit_price,
            stop_price: self.stop_price,
            status: self.status,
            filled_qty: self.filled_qty,
            average_fill_price: self.average_fill_price,
            cumulative_fees: self.cumulative_fees,
            fill_ids: self.fill_ids@,
            canceled_at: self.canceled_at,
            rejected_at: self.rejected_at,
            reject_reason: match self.reject_reason {
                Some(s) => Some(s@),
                None => None,
            },
        }
    }
}

/// The error `validate_price_requirements` reports, if any.
pub open spec fn price_requirements_error(
    order_type: OrderType,
    limit_price: Option<Dec>,
    stop_price: Option<Dec>,
) -> Option<OrderError> {
    if limit_price is Some && limit_price.unwrap().value() <= 0 {
        Some(OrderError::NonPositivePrice { price: limit_price.unwrap() })
    } else if stop_price is Some && stop_price.unwrap().value() <= 0 {
        Some(OrderError::NonPositivePrice { price: stop_price.unwrap() })
    } else {
        match order_type {
            OrderType::Market => if limit_price is Some {
                Some(OrderError::UnexpectedLimitPrice)
            } else if stop_price is Some {
                Some(OrderError::UnexpectedStopPrice)
            } else {
                None
            },
            OrderType::Limit => if limit_price is None {
                Some(OrderError::MissingLimitPrice)
            } else if stop_price is Some {
                Some(OrderError::UnexpectedStopPrice)
            } else {
                None
            },
            OrderType::Stop => if stop_price is None {
                Some(OrderError::MissingStopPrice)
            } else if limit_price is Some {
                Some(OrderError::UnexpectedLimitPrice)
            } else {
                None
            },
            OrderType::StopLimit => if limit_price is None {
                Some(OrderError::MissingLimitPrice)
            } else if stop_price is None {
                Some(OrderError::MissingStopPrice)
            } else {
                None
            },
        }
    }
}

/// The error `Order::new` reports for these inputs, if any.
pub open spec fn new_order_error(
    symbol: Seq<char>,
    order_type: OrderType,
    requested_qty: Dec,
    limit_price: Option<Dec>,
    stop_price: Option<Dec>,
) -> Option<OrderError> {
    if is_blank_spec(symbol) {
        Some(OrderError::EmptySymbol)
    } else if requested_qty.value() <= 0 {
        Some(OrderError::NonPositiveQuantity { quantity: requested_qty })
    } else {
        price_requirements_error(order_type, limit_price, stop_price)
    }
}

/// Invariant of every order: a valid symbol, prices that fit the order type,
/// and a filled quantity between zero and the requested quantity.
pub open spec fn order_valid(o: OrderView) -> bool {
    &&& !is_blank_spec(o.symbol)
    &&& o.requested_qty.value() > 0
    &&& 0 <= o.filled_qty.value() <= o.requested_qty.value()
    &&& price_requirements_error(o.order_type, o.limit_price, o.stop_price) is None
}

/// Remaining quantity of an order: `requested - filled`.
pub open spec fn leaves_of(o: OrderView) -> Dec {
    dec_sub(o.requested_qty, o.filled_qty).unwrap()
}

/// The error the non-terminal and chronology checks report for an event at `t`.
pub open spec fn event_check_error(o: OrderView, t: Timestamp) -> Option<OrderError> {
    if is_terminal(o.status) {
        Some(OrderError::TerminalStatus { order_id: o.id, status: o.status })
    } else if t < o.last_event_at {
        Some(OrderError::EventOutOfOrder { previous_timestamp: o.last_event_at, new_timestamp: t })
    } else {
        None
    }
}

/// `e` is the error that `record_fill` reports because of the first failing
/// validation of `f` against `o`.
pub open spec fn fill_rejection(o: OrderView, f: FillView, e: OrderError) -> bool {
    if is_terminal(o.status) {
        e == OrderError::TerminalStatus { order_id: o.id, status: o.status }
    } else if f.order_id != o.id {
        e == OrderError::FillOrderMismatch { expected: o.id, actual: f.order_id }
    } else if f.symbol != o.symbol {
        e matches OrderError::FillSymbolMismatch { expected, actual } && expected@ == o.symbol
            && actual@ == f.symbol
    } else if f.order_side != o.side {
        e == OrderError::FillSideMismatch { expected: o.side, actual: f.order_side }
    } else if f.position_effect != o.position_effect {
        e == OrderError::FillPositionEffectMismatch {
            expected: o.position_effect,
            actual: f.position_effect,
        }
    } else if o.fill_ids.contains(f.id) {
        e == OrderError::DuplicateFillId { fill_id: f.id }
    } else if f.executed_at < o.last_event_at {
        e == OrderError::EventOutOfOrder {
            previous_timestamp: o.last_event_at,
            new_timestamp: f.executed_at,
        }
    } else if f.qty.value() > leaves_of(o).value() {
        e == OrderError::FillQuantityExceedsLeaves { fill_qty: f.qty, leaves_qty: leaves_of(o) }
    } else {
        false
    }
}

/// All validations of `record_fill` pass.
pub open spec fn fill_accepted(o: OrderView, f: FillView) -> bool {
    &&& !is_terminal(o.status)
    &&& f.order_id == o.id
    &&& f.symbol == o.symbol
    &&& f.order_side == o.side
    &&& f.position_effect == o.position_effect
    &&& !o.fill_ids.contains(f.id)
    &&& f.executed_at >= o.last_event_at
    &&& f.qty.value() <= leaves_of(o).value()
}

/// The decimal results of applying `f`: new filled quantity, new average
/// price `(avg * filled + price * qty) / new_filled` and new cumulative fees,
/// as `rust_decimal` computes them; `None` when a step overflows or the new
/// filled quantity would exceed the requested quantity.
pub open spec fn fill_amounts(o: OrderView, f: FillView) -> Option<(Dec, Dec, Dec)> {
    let avg = match o.average_fill_price {
        Some(a) => a,
        None => Dec::from_repr((0, 0)),
    };
    match dec_add(o.filled_qty, f.qty) {
        None => None,
        Some(nf) => if nf.value() > o.requested_qty.value() {
            None
        } else {
            match dec_mul(avg, o.filled_qty) {
                None => None,
                Some(a) => match dec_mul(f.price, f.qty) {
                    None => None,
                    Some(b) => match dec_add(a, b) {
                        None => None,
                        Some(notional) => match dec_div(notional, nf) {
                            None => None,
                            Some(avg2) => match dec_add(o.cumulative_fees, f.fees) {
                                None => None,
                                Some(fees) => Some((nf, avg2, fees)),
                            },
                        },
                    },
                },
            }
        },
    }
}

/// Order state after a fill with the given new amounts.
pub open spec fn filled_state(o: OrderView, f: FillView, amounts: (Dec, Dec, Dec)) -> OrderView {
    OrderView {
        filled_qty: amounts.0,
        average_fill_price: Some(amounts.1),
        cumulative_fees: amounts.2,
        fill_ids: o.fill_ids.push(f.id),
        last_event_at: f.executed_at,
        status: if dec_sub(o.requested_qty, amounts.0).unwrap().value() == 0 {
            OrderStatus::Filled
        } else {
            OrderStatus::PartiallyFilled
        },
        ..o
    }
}

/// A filled, canceled or rejected order is final: every later lifecycle
/// event is refused with `TerminalStatus`, and no fill is accepted.
pub proof fn law_terminal_order_is_final(o: OrderView, t: Timestamp, f: FillView)
    requires
        is_terminal(o.status),
    ensures
        event_check_error(o, t) == Some(OrderError::TerminalStatus { order_id: o.id, status: o.status }),
        !fill_accepted(o, f),
        fill_rejection(o, f, OrderError::TerminalStatus { order_id: o.id, status: o.status }),
{
}

impl Order {
    #[verifier::type_invariant]
    closed spec fn inv(self) -> bool {
        order_valid(self@)
    }

    /// Every order satisfies [`order_valid`].
    pub fn lemma_valid(&self)
        ensures
            order_valid(self@),
    {
        proof {
            use_type_invariant(self);
        }
    }

    /// Creates a new order in `Pending` status, validating the symbol, the
    /// quantity and the prices the order type requires.
    pub fn new(
        id: OrderId,
        symbol: &str,
        side: OrderSide,
        position_effect: PositionEffect,
        order_type: OrderType,
        time_in_force: TimeInForce,
        submitted_at: Timestamp,
        requested_qty: Dec,
        limit_price: Option<Dec>,
        stop_price: Option<Dec>,
    ) -> (r: Result<Order, OrderError>)
        ensures
            new_order_error(symbol@, order_type, requested_qty, limit_price, stop_price) matches Some(e) ==> r == Err::<Order, OrderError>(e),
            new_order_error(symbol@, order_type, requested_qty, limit_price, stop_price) is None ==> r is Ok && r.unwrap()@ == (OrderView {
                id,
                symbol: symbol@,
                side,
                position_effect,
                order_type,
                time_in_force,
                submitted_at,
                last_event_at: submitted_at,
                requested_qty,
                limit_price,
                stop_price,
                status: OrderStatus::Pending,
                filled_qty: Dec::from_repr((0, 0)),
                average_fill_price: None,
                cumulative_fees: Dec::from_repr((0, 0)),
                fill_ids: Seq::empty(),
                canceled_at: None,
                rejected_at: None,
                reject_reason: None,
            }),
    {
        if is_blank(symbol) {
            return Err(OrderError::EmptySymbol);
        }
        validate_positive_quantity(requested_qty)?;
        validate_price_requirements(order_type, limit_price, stop_price)?;
        let zero = Dec::zero();
        proof {
            crate::decimal::lemma_repr_zero();
        }
        Ok(Order {
            id,
            symbol: symbol.to_owned(),
            side,
            position_effect,
            order_type,
            time_in_force,
            submitted_at,
            last_event_at: submitted_at,
            requested_qty,
            limit_price,
            stop_price,
            status: OrderStatus::Pending,
            filled_qty: zero,
            average_fill_price: None,
            cumulative_fees: zero,
            fill_ids: Vec::new(),
            canceled_at: None,
            rejected_at: None,
            reject_reason: None,
        })
    }

    /// Returns the order identifier.
    pub fn id(&self) -> (r: OrderId)
        ensures
            r == self@.id,
    {
        self.id
    }

    /// Returns the order symbol.
    pub fn symbol(&self) -> (r: &str)
        ensures
            r@ == self@.symbol,
    {
        self.symbol.as_str()
    }

    /// Returns the order side.
    pub fn side(&self) -> (r: OrderSide)
        ensures
            r == self@.side,
    {
        self.side
    }

    /// Returns whether the order opens or closes exposure.
    pub fn position_effect(&self) -> (r: PositionEffect)
        ensures
            r == self@.position_effect,
    {
        self.position_effect
    }

    /// Returns the order type.
    pub fn order_type(&self) -> (r: OrderType)
        ensures
            r == self@.order_type,
    {
        self.order_type
    }

    /// Returns the time-in-force policy.
    pub fn time_in_force(&self) -> (r: TimeInForce)
        ensures
            r == self@.time_in_force,
    {
        self.time_in_force
    }

    /// Returns the submission timestamp.
    pub fn submitted_at(&self) -> (r: Timestamp)
        ensures
            r == self@.submitted_at,
    {
        self.submitted_at
    }

    /// Returns the timestamp of the most recent lifecycle event.
    pub fn last_event_at(&self) -> (r: Timestamp)
        ensures
            r == self@.last_event_at,
    {
        self.last_event_at
    }

    /// Returns the originally requested quantity.
    pub fn requested_qty(&self) -> (r: Dec)
        ensures
            r == self@.requested_qty,
    {
        self.requested_qty
    }

    /// Returns the limit price if the order type uses one.
    pub fn limit_price(&self) -> (r: Option<Dec>)
        ensures
            r == self@.limit_price,
    {
        self.limit_price
    }

    /// Returns the stop price if the order type uses one.
    pub fn stop_price(&self) -> (r: Option<Dec>)
        ensures
            r == self@.stop_price,
    {
        self.stop_price
    }

    /// Returns the current status.
    pub fn status(&self) -> (r: OrderStatus)
        ensures
            r == self@.status,
    {
        self.status
    }

    /// Returns cumulative filled quantity.
    pub fn filled_qty(&self) -> (r: Dec)
        ensures
            r == self@.filled_qty,
    {
        self.filled_qty
    }

    /// Returns remaining quantity still open on the order, `requested - filled`.
    pub fn leaves_qty(&self) -> (r: Dec)
        ensures
            dec_sub(self@.requested_qty, self@.filled_qty) == Some(r),
            r == leaves_of(self@),
    {
        proof {
            use_type_invariant(self);
            assert(no_growth(self.requested_qty, self.filled_qty, self.requested_qty.value() - self.filled_qty.value()));
        }
        self.requested_qty.sub(self.filled_qty).unwrap()
    }

    /// Returns weighted average fill price if at least one fill exists.
    pub fn average_fill_price(&self) -> (r: Option<Dec>)
        ensures
            r == self@.average_fill_price,
    {
        self.average_fill_price
    }

    /// Returns cumulative fees charged by all fills.
    pub fn cumulative_fees(&self) -> (r: Dec)
        ensures
            r == self@.cumulative_fees,
    {
        self.cumulative_fees
    }

    /// Returns identifiers of fills already applied to the order.
    pub fn fill_ids(&self) -> (r: &[FillId])
        ensures
            r@ == self@.fill_ids,
    {
        self.fill_ids.as_slice()
    }

    /// Returns cancellation timestamp when the order was canceled.
    pub fn canceled_at(&self) -> (r: Option<Timestamp>)
        ensures
            r == self@.canceled_at,
    {
        self.canceled_at
    }

    /// Returns rejection timestamp when the order was rejected.
    pub fn rejected_at(&self) -> (r: Option<Timestamp>)
        ensures
            r == self@.rejected_at,
    {
        self.rejected_at
    }

    /// Returns reject reason text when the order was rejected.
    pub fn reject_reason(&self) -> (r: Option<&str>)
        ensures
            r is Some == self@.reject_reason is Some,
            r is Some ==> r.unwrap()@ == self@.reject_reason.unwrap(),
    {
        match &self.reject_reason {
            Some(s) => Some(s.as_str()),
            None => None,
        }
    }

    /// Marks the order as acknowledged: it becomes `Working` when nothing has
    /// been filled yet; only legal while non-terminal and in chronological order.
    pub fn acknowledge(&mut self, acknowledged_at: Timestamp) -> (r: Result<(), OrderError>)
        ensures
            event_check_error(old(self)@, acknowledged_at) matches Some(e) ==> r == Err::<(), OrderError>(e) && final(self)@ == old(self)@,
            event_check_error(old(self)@, acknowledged_at) is None ==> r is Ok && final(self)@ == (OrderView {
                status: if old(self)@.filled_qty.value() == 0 {
                    OrderStatus::Working
                } else {
                    old(self)@.status
                },
                last_event_at: acknowledged_at,
                ..old(self)@
            }),
    {
        proof {
            use_type_invariant(&*self);
        }
        self.ensure_non_terminal()?;
        ensure_event_order(self.last_event_at, acknowledged_at)?;
        if self.filled_qty.is_zero() {
            self.status = OrderStatus::Working;
        }
        self.last_event_at = acknowledged_at;
        Ok(())
    }

    /// Applies one fill, validating order identity, symbol, side, position
    /// effect, duplicate replay, chronology and leaves quantity first.
    pub fn record_fill(&mut self, fill: &Fill) -> (r: Result<(), OrderError>)
        ensures
            r matches Err(e) ==> final(self)@ == old(self)@,
            !fill_accepted(old(self)@, fill@) ==> (r matches Err(e) && fill_rejection(old(self)@, fill@, e)),
            fill_accepted(old(self)@, fill@) && fill_amounts(old(self)@, fill@) is None ==> r == Err::<(), OrderError>(OrderError::ArithmeticOverflow),
            fill_accepted(old(self)@, fill@) && fill_amounts(old(self)@, fill@) is Some ==> r is Ok && final(self)@ == filled_state(old(self)@, fill@, fill_amounts(old(self)@, fill@).unwrap()),
    {
        proof {
            use_type_invariant(&*self);
        }
        fill.lemma_valid();
        self.ensure_non_terminal()?;
        if fill.order_id() != self.id {
            return Err(OrderError::FillOrderMismatch { expected: self.id, actual: fill.order_id() });
        }
        if !str_eq(fill.symbol(), self.symbol.as_str()) {
            return Err(
                OrderError::FillSymbolMismatch {
                    expected: self.symbol.clone(),
                    actual: fill.symbol().to_owned(),
                },
            );
        }
        if fill.order_side() != self.side {
            return Err(OrderError::FillSideMismatch { expected: self.side, actual: fill.order_side() });
        }
        if fill.position_effect() != self.position_effect {
            return Err(
                OrderError::FillPositionEffectMismatch {
                    expected: self.position_effect,
                    actual: fill.position_effect(),
                },
            );
        }
        if contains_fill_id(&self.fill_ids, fill.id()) {
            return Err(OrderError::DuplicateFillId { fill_id: fill.id() });
        }
        ensure_event_order(self.last_event_at, fill.executed_at())?;
        let leaves = self.leaves_qty();
        if leaves.lt(&fill.qty()) {
            return Err(OrderError::FillQuantityExceedsLeaves { fill_qty: fill.qty(), leaves_qty: leaves });
        }
        let previous_qty = self.filled_qty;
        let new_filled_qty = match previous_qty.add(fill.qty()) {
            Some(v) => v,
            None => return Err(OrderError::ArithmeticOverflow),
        };
        if self.requested_qty.lt(&new_filled_qty) {
            return Err(OrderError::ArithmeticOverflow);
        }
        let average = match self.average_fill_price {
            Some(a) => a,
            None => Dec::zero(),
        };
        proof {
            crate::decimal::lemma_repr_zero();
        }
        let previous_notional = match average.mul(previous_qty) {
            Some(v) => v,
            None => return Err(OrderError::ArithmeticOverflow),
        };
        let fill_notional = match fill.price().mul(fill.qty()) {
            Some(v) => v,
            None => return Err(OrderError::ArithmeticOverflow),
        };
        let new_notional = match previous_notional.add(fill_notional) {
            Some(v) => v,
            None => return Err(OrderError::ArithmeticOverflow),
        };
        let new_average = match new_notional.div(new_filled_qty) {
            Some(v) => v,
            None => return Err(OrderError::ArithmeticOverflow),
        };
        let new_fees = match self.cumulative_fees.add(fill.fees()) {
            Some(v) => v,
            None => return Err(OrderError::ArithmeticOverflow),
        };
        new_filled_qty.lemma_wf();
        let fill_qty = fill.qty();
        fill_qty.lemma_wf();
        self.filled_qty = new_filled_qty;
        self.average_fill_price = Some(new_average);
        self.cumulative_fees = new_fees;
        let mut fill_ids: Vec<FillId> = Vec::new();
        std::mem::swap(&mut fill_ids, &mut self.fill_ids);
        fill_ids.push(fill.id());
        self.fill_ids = fill_ids;
        self.last_event_at = fill.executed_at();
        let new_leaves = self.leaves_qty();
        self.status = if new_leaves.is_zero() {
            OrderStatus::Filled
        } else {
            OrderStatus::PartiallyFilled
        };
        Ok(())
    }

    /// Cancels the order; only legal while non-terminal and in chronological order.
    pub fn cancel(&mut self, canceled_at: Timestamp) -> (r: Result<(), OrderError>)
        ensures
            event_check_error(old(self)@, canceled_at) matches Some(e) ==> r == Err::<(), OrderError>(e) && final(self)@ == old(self)@,
            event_check_error(old(self)@, canceled_at) is None ==> r is Ok && final(self)@ == (OrderView {
                status: OrderStatus::Canceled,
                canceled_at: Some(canceled_at),
                last_event_at: canceled_at,
                ..old(self)@
            }),
    {
        proof {
            use_type_invariant(&*self);
        }
        self.ensure_non_terminal()?;
        ensure_event_order(self.last_event_at, canceled_at)?;
        self.status = OrderStatus::Canceled;
        self.canceled_at = Some(canceled_at);
        self.last_event_at = canceled_at;
        Ok(())
    }

    /// Rejects the order with a free-form reason; blocked after any fill.
    pub fn reject(&mut self, rejected_at: Timestamp, reason: String) -> (r: Result<(), OrderError>)
        ensures
            is_terminal(old(self)@.status) ==> r == Err::<(), OrderError>(OrderError::TerminalStatus { order_id: old(self)@.id, status: old(self)@.status }) && final(self)@ == old(self)@,
            !is_terminal(old(self)@.status) && old(self)@.filled_qty.value() != 0 ==> r == Err::<(), OrderError>(OrderError::RejectAfterFill { order_id: old(self)@.id, filled_qty: old(self)@.filled_qty }) && final(self)@ == old(self)@,
            !is_terminal(old(self)@.status) && old(self)@.filled_qty.value() == 0 && rejected_at < old(self)@.last_event_at ==> r == Err::<(), OrderError>(OrderError::EventOutOfOrder { previous_timestamp: old(self)@.last_event_at, new_timestamp: rejected_at }) && final(self)@ == old(self)@,
            !is_terminal(old(self)@.status) && old(self)@.filled_qty.value() == 0 && rejected_at >= old(self)@.last_event_at ==> r is Ok && final(self)@ == (OrderView {
                status: OrderStatus::Rejected,
                rejected_at: Some(rejected_at),
                reject_reason: Some(reason@),
                last_event_at: rejected_at,
                ..old(self)@
            }),
    {
        proof {
            use_type_invariant(&*self);
        }
        self.ensure_non_terminal()?;
        if !self.filled_qty.is_zero() {
            return Err(OrderError::RejectAfterFill { order_id: self.id, filled_qty: self.filled_qty });
        }
        ensure_event_order(self.last_event_at, rejected_at)?;
        self.status = OrderStatus::Rejected;
        self.rejected_at = Some(rejected_at);
        self.reject_reason = Some(reason);
        self.last_event_at = rejected_at;
        Ok(())
    }

    /// Rejects transitions out of terminal states.
    fn ensure_non_terminal(&self) -> (r: Result<(), OrderError>)
        ensures
            is_terminal(self@.status) ==> r == Err::<(), OrderError>(OrderError::TerminalStatus { order_id: self@.id, status: self@.status }),
            !is_terminal(self@.status) ==> r is Ok,
    {
        match self.status {
            OrderStatus::Filled | OrderStatus::Canceled | OrderStatus::Rejected => {
                Err(OrderError::TerminalStatus { order_id: self.id, status: self.status })
            },
            OrderStatus::Pending | OrderStatus::Working | OrderStatus::PartiallyFilled => Ok(()),
        }
    }

    /// A copy of the order with the same abstract state.
    pub fn duplicate(&self) -> (r: Order)
        ensures
            r@ == self@,
    {
        proof {
            use_type_invariant(self);
        }
        let mut fill_ids: Vec<FillId> = Vec::new();
        let mut i: usize = 0;
        while i < self.fill_ids.len()
            invariant
                i <= self.fill_ids.len(),
                fill_ids@ == self.fill_ids@.subrange(0, i as int),
            decreases self.fill_ids.len() - i,
        {
            fill_ids.push(self.fill_ids[i]);
            i += 1;
            assert(fill_ids@ =~= self.fill_ids@.subrange(0, i as int));
        }
        assert(fill_ids@ =~= self.fill_ids@);
        Order {
            id: self.id,
            symbol: self.symbol.clone(),
            side: self.side,
            position_effect: self.position_effect,
            order_type: self.order_type,
            time_in_force: self.time_in_force,
            submitted_at: self.submitted_at,
            last_event_at: self.last_event_at,
            requested_qty: self.requested_qty,
            limit_price: self.limit_price,
            stop_price: self.stop_price,
            status: self.status,
            filled_qty: self.filled_qty,
            average_fill_price: self.average_fill_price,
            cumulative_fees: self.cumulative_fees,
            fill_ids,
            canceled_at: self.canceled_at,
            rejected_at: self.rejected_at,
            reject_reason: match &self.reject_reason {
                Some(s) => Some(s.clone()),
                None => None,
            },
        }
    }
}

/// Whether `ids` holds `id`.
pub fn contains_fill_id(ids: &Vec<FillId>, id: FillId) -> (r: bool)
    ensures
        r == ids@.contains(id),
{
    let mut i: usize = 0;
    while i < ids.len()
        invariant
            i <= ids.len(),
            forall|k: int| 0 <= k < i ==> ids@[k] != id,
        decreases ids.len() - i,
    {
        if ids[i] == id {
            assert(ids@[i as int] == id);
            return true;
        }
        i += 1;
    }
    false
}

/// Validates that quantity is strictly positive.
fn validate_positive_quantity(quantity: Dec) -> (r: Result<(), OrderError>)
    ensures
        quantity.value() <= 0 ==> r == Err::<(), OrderError>(OrderError::NonPositiveQuantity { quantity }),
        quantity.value() > 0 ==> r is Ok,
{
    if !quantity.is_positive() {
        return Err(OrderError::NonPositiveQuantity { quantity });
    }
    Ok(())
}

/// Validates that price is strictly positive.
fn validate_positive_price(price: Dec) -> (r: Result<(), OrderError>)
    ensures
        price.value() <= 0 ==> r == Err::<(), OrderError>(OrderError::NonPositivePrice { price }),
        price.value() > 0 ==> r is Ok,
{
    if !price.is_positive() {
        return Err(OrderError::NonPositivePrice { price });
    }
    Ok(())
}

/// Validates limit and stop price requirements implied by the order type.
pub fn validate_price_requirements(
    order_type: OrderType,
    limit_price: Option<Dec>,
    stop_price: Option<Dec>,
) -> (r: Result<(), OrderError>)
    ensures
        price_requirements_error(order_type, limit_price, stop_price) matches Some(e) ==> r == Err::<(), OrderError>(e),
        price_requirements_error(order_type, limit_price, stop_price) is None ==> r is Ok,
{
    if let Some(price) = limit_price {
        validate_positive_price(price)?;
    }
    if let Some(price) = stop_price {
        validate_positive_price(price)?;
    }
    match order_type {
        OrderType::Market => {
            if limit_price.is_some() {
                return Err(OrderError::UnexpectedLimitPrice);
            }
            if stop_price.is_some() {
                return Err(OrderError::UnexpectedStopPrice);
            }
        },
        OrderType::Limit => {
            if limit_price.is_none() {
                return Err(OrderError::MissingLimitPrice);
            }
            if stop_price.is_some() {
                return Err(OrderError::UnexpectedStopPrice);
            }
        },
        OrderType::Stop => {
            if stop_price.is_none() {
                return Err(OrderError::MissingStopPrice);
            }
            if limit_price.is_some() {
                return Err(OrderError::UnexpectedLimitPrice);
            }
        },
        OrderType::StopLimit => {
            if limit_price.is_none() {
                return Err(OrderError::MissingLimitPrice);
            }
            if stop_price.is_none() {
                return Err(OrderError::MissingStopPrice);
            }
        },
    }
    Ok(())
}

/// Validates chronological ordering for order lifecycle events.
pub fn ensure_event_order(previous_timestamp: Timestamp, new_timestamp: Timestamp) -> (r: Result<(), OrderError>)
    ensures
        new_timestamp < previous_timestamp ==> r == Err::<(), OrderError>(OrderError::EventOutOfOrder { previous_timestamp, new_timestamp }),
        new_timestamp >= previous_timestamp ==> r is Ok,
{
    if new_timestamp < previous_timestamp {
        return Err(OrderError::EventOutOfOrder { previous_timestamp, new_timestamp });
    }
    Ok(())
}

} // verus!
