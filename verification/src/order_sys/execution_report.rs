//! Order-state snapshots for downstream consumers.
//!
//! An [`ExecutionReport`] is a denormalized view of an order at a specific
//! event boundary, useful for event sourcing, logging, host callbacks and
//! integration surfaces that expect FIX-like execution reports.

use vstd::prelude::*;

use crate::decimal::Dec;
use crate::order_sys::fill::Fill;
use crate::order_sys::order::{leaves_of, Order, OrderStatus, OrderView};
use crate::order_sys::{ExecutionReportId, FillId, OrderId, Timestamp};

verus! {

/// High-level meaning of an execution report snapshot.
#[derive(Clone, Copy, Debug, PartialEq, Eq, Structural)]
pub enum ExecutionReportType {
    /// The order was created locally but not yet acknowledged.
    PendingNew,
    /// The order was acknowledged and is now working.
    New,
    /// The order received a fill.
    Trade,
    /// The order was canceled.
    Canceled,
    /// The order was rejected.
    Rejected,
}

/// Abstract content of an execution report.
pub struct ExecutionReportView {
    pub id: ExecutionReportId,
    pub order_id: OrderId,
    pub fill_id: Option<FillId>,
    pub report_type: ExecutionReportType,
    pub status: OrderStatus,
    pub occurred_at: Timestamp,
    pub last_qty: Dec,
    pub last_price: Option<Dec>,
    pub last_fees: Dec,
    pub cumulative_qty: Dec,
    pub leaves_qty: Dec,
    pub average_price: Option<Dec>,
    pub cumulative_fees: Dec,
    pub text: Option<Seq<char>>,
}

/// Snapshot of order state at one event boundary.
#[derive(Debug, PartialEq, Eq)]
pub struct ExecutionReport {
    id: ExecutionReportId,
    order_id: OrderId,
    fill_id: Option<FillId>,
    report_type: ExecutionReportType,
    status: OrderStatus,
    occurred_at: Timestamp,
    last_qty: Dec,
    last_price: Option<Dec>,
    last_fees: Dec,
    cumulative_qty: Dec,
    leaves_qty: Dec,
    average_price: Option<Dec>,
    cumulative_fees: Dec,
    text: Option<String>,
}

impl View for ExecutionReport {
    type V = ExecutionReportView;

    closed spec fn view(&self) -> ExecutionReportView {
        ExecutionReportView {
            id: self.id,
            order_id: self.order_id,
            fill_id: self.fill_id,
            report_type: self.report_type,
            status: self.status,
            occurred_at: self.occurred_at,
            last_qty: self.last_qty,
            last_price: self.last_price,
            last_fees: self.last_fees,
            cumulative_qty: self.cumulative_qty,
            leaves_qty: self.leaves_qty,
            average_price: self.average_price,
            cumulative_fees: self.cumulative_fees,
            text: match self.text {
                Some(t) => Some(t@),
                None => None,
            },
        }
    }
}

/// The report that copies the order-level fields of `o` and the given
/// event-level fields.
pub open spec fn snapshot(
    id: ExecutionReportId,
    o: OrderView,
    fill_id: Option<FillId>,
    report_type: ExecutionReportType,
    occurred_at: Timestamp,
    last_qty: Dec,
    last_price: Option<Dec>,
    last_fees: Dec,
    text: Option<Seq<char>>,
) -> ExecutionReportView {
    ExecutionReportView {
        id,
        order_id: o.id,
        fill_id,
        report_type,
        status: o.status,
        occurred_at,
        last_qty,
        last_price,
        last_fees,
        cumulative_qty: o.filled_qty,
        leaves_qty: leaves_of(o),
        average_price: o.average_fill_price,
        cumulative_fees: o.cumulative_fees,
        text,
    }
}

pub open spec fn zero_dec() -> Dec {
    Dec::from_repr((0, 0))
}

impl ExecutionReport {
    /// Builds a `PendingNew` report from an order snapshot.
    pub fn pending_new(id: ExecutionReportId, order: &Order) -> (r: ExecutionReport)
        ensures
            r@ == snapshot(id, order@, None, ExecutionReportType::PendingNew, order@.submitted_at, zero_dec(), None, zero_dec(), None),
    {
        Self::from_snapshot(
            id,
            order,
            None,
            ExecutionReportType::PendingNew,
            order.submitted_at(),
            Dec::zero(),
            None,
            Dec::zero(),
            None,
        )
    }

    /// Builds a `New` report from an acknowledged order snapshot.
    pub fn acknowledged(id: ExecutionReportId, order: &Order, occurred_at: Timestamp) -> (r: ExecutionReport)
        ensures
            r@ == snapshot(id, order@, None, ExecutionReportType::New, occurred_at, zero_dec(), None, zero_dec(), None),
    {
        Self::from_snapshot(
            id,
            order,
            None,
            ExecutionReportType::New,
            occurred_at,
            Dec::zero(),
            None,
            Dec::zero(),
            None,
        )
    }

    /// Builds a `Trade` report from an order snapshot and the triggering fill.
    pub fn trade(id: ExecutionReportId, order: &Order, fill: &Fill) -> (r: ExecutionReport)
        ensures
            r@ == snapshot(id, order@, Some(fill@.id), ExecutionReportType::Trade, fill@.executed_at, fill@.qty, Some(fill@.price), fill@.fees, None),
    {
        Self::from_snapshot(
            id,
            order,
            Some(fill.id()),
            ExecutionReportType::Trade,
            fill.executed_at(),
            fill.qty(),
            Some(fill.price()),
            fill.fees(),
            None,
        )
    }

    /// Builds a `Canceled` report from an order snapshot.
    pub fn canceled(id: ExecutionReportId, order: &Order, occurred_at: Timestamp, text: Option<String>) -> (r: ExecutionReport)
        ensures
            r@ == snapshot(id, order@, None, ExecutionReportType::Canceled, occurred_at, zero_dec(), None, zero_dec(), crate::order_sys::fill::opt_string_view(text)),
    {
        Self::from_snapshot(
            id,
            order,
            None,
            ExecutionReportType::Canceled,
            occurred_at,
            Dec::zero(),
            None,
            Dec::zero(),
            text,
        )
    }

    /// Builds a `Rejected` report from an order snapshot.
    pub fn rejected(id: ExecutionReportId, order: &Order, occurred_at: Timestamp, text: String) -> (r: ExecutionReport)
        ensures
            r@ == snapshot(id, order@, None, ExecutionReportType::Rejected, occurred_at, zero_dec(), None, zero_dec(), Some(text@)),
    {
        Self::from_snapshot(
            id,
            order,
            None,
            ExecutionReportType::Rejected,
            occurred_at,
            Dec::zero(),
            None,
            Dec::zero(),
            Some(text),
        )
    }

    /// Returns the report identifier.
    pub fn id(&self) -> (r: ExecutionReportId)
        ensures
            r == self@.id,
    {
        self.id
    }

    /// Returns the parent order identifier.
    pub fn order_id(&self) -> (r: OrderId)
        ensures
            r == self@.order_id,
    {
        self.order_id
    }

    /// Returns the triggering fill identifier, if one exists.
    pub fn fill_id(&self) -> (r: Option<FillId>)
        ensures
            r == self@.fill_id,
    {
        self.fill_id
    }

    /// Returns the high-level report category.
    pub fn report_type(&self) -> (r: ExecutionReportType)
        ensures
            r == self@.report_type,
    {
        self.report_type
    }

    /// Returns the order status captured by the snapshot.
    pub fn status(&self) -> (r: OrderStatus)
        ensures
            r == self@.status,
    {
        self.status
    }

    /// Returns the event timestamp.
    pub fn occurred_at(&self) -> (r: Timestamp)
        ensures
            r == self@.occurred_at,
    {
        self.occurred_at
    }

    /// Returns the last event quantity.
    pub fn last_qty(&self) -> (r: Dec)
        ensures
            r == self@.last_qty,
    {
        self.last_qty
    }

    /// Returns the last event price, if any.
    pub fn last_price(&self) -> (r: Option<Dec>)
        ensures
            r == self@.last_price,
    {
        self.last_price
    }

    /// Returns the last event fees.
    pub fn last_fees(&self) -> (r: Dec)
        ensures
            r == self@.last_fees,
    {
        self.last_fees
    }

    /// Returns cumulative filled quantity.
    pub fn cumulative_qty(&self) -> (r: Dec)
        ensures
            r == self@.cumulative_qty,
    {
        self.cumulative_qty
    }

    /// Returns remaining open quantity.
    pub fn leaves_qty(&self) -> (r: Dec)
        ensures
            r == self@.leaves_qty,
    {
        self.leaves_qty
    }

    /// Returns weighted average fill price, if any fills exist.
    pub fn average_price(&self) -> (r: Option<Dec>)
        ensures
            r == self@.average_price,
    {
        self.average_price
    }

    /// Returns cumulative fees recorded on the order.
    pub fn cumulative_fees(&self) -> (r: Dec)
        ensures
            r == self@.cumulative_fees,
    {
        self.cumulative_fees
    }

    /// Returns optional free-form text.
    pub fn text(&self) -> (r: Option<&str>)
        ensures
            r is Some == self@.text is Some,
            r is Some ==> r.unwrap()@ == self@.text.unwrap(),
    {
        match &self.text {
            Some(t) => Some(t.as_str()),
            None => None,
        }
    }

    /// A copy of the report with the same content.
    pub fn duplicate(&self) -> (r: ExecutionReport)
        ensures
            r@ == self@,
    {
        ExecutionReport {
            id: self.id,
            order_id: self.order_id,
            fill_id: self.fill_id,
            report_type: self.report_type,
            status: self.status,
            occurred_at: self.occurred_at,
            last_qty: self.last_qty,
            last_price: self.last_price,
            last_fees: self.last_fees,
            cumulative_qty: self.cumulative_qty,
            leaves_qty: self.leaves_qty,
            average_price: self.average_price,
            cumulative_fees: self.cumulative_fees,
            text: match &self.text {
                Some(t) => Some(t.clone()),
                None => None,
            },
        }
    }

    /// Copies all order-level snapshot data into a report.
    fn from_snapshot(
        id: ExecutionReportId,
        order: &Order,
        fill_id: Option<FillId>,
        report_type: ExecutionReportType,
        occurred_at: Timestamp,
        last_qty: Dec,
        last_price: Option<Dec>,
        last_fees: Dec,
        text: Option<String>,
    ) -> (r: ExecutionReport)
        ensures
            r@ == snapshot(id, order@, fill_id, report_type, occurred_at, last_qty, last_price, last_fees, crate::order_sys::fill::opt_string_view(text)),
    {
        ExecutionReport {
            id,
            order_id: order.id(),
            fill_id,
            report_type,
            status: order.status(),
            occurred_at,
            last_qty,
            last_price,
            last_fees,
            cumulative_qty: order.filled_qty(),
            leaves_qty: order.leaves_qty(),
            average_price: order.average_fill_price(),
            cumulative_fees: order.cumulative_fees(),
            text,
        }
    }
}

} // verus!
