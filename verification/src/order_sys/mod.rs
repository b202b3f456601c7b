//! Order-management domain: identifiers, orders, fills, lots, holdings,
//! execution reports, accounts and the order-system facade.

pub mod account;
pub mod execution_report;
pub mod fill;
pub mod holding;
pub mod lot;
pub mod order;
pub mod system;

use vstd::prelude::*;

verus! {

/// UTC instant in nanoseconds since the Unix epoch.
pub type Timestamp = i64;

/// Identifier of a holding.
#[derive(Clone, Copy, Debug, PartialEq, Eq, Structural, PartialOrd, Ord, Hash)]
pub struct HoldingId(pub u64);

/// Identifier of a lot.
#[derive(Clone, Copy, Debug, PartialEq, Eq, Structural, PartialOrd, Ord, Hash)]
pub struct LotId(pub u64);

/// Identifier of an order.
#[derive(Clone, Copy, Debug, PartialEq, Eq, Structural, PartialOrd, Ord, Hash)]
pub struct OrderId(pub u64);

/// Identifier of a fill.
#[derive(Clone, Copy, Debug, PartialEq, Eq, Structural, PartialOrd, Ord, Hash)]
pub struct FillId(pub u64);

/// Identifier of an execution report.
#[derive(Clone, Copy, Debug, PartialEq, Eq, Structural, PartialOrd, Ord, Hash)]
pub struct ExecutionReportId(pub u64);

/// Identifier of an account.
#[derive(Clone, Copy, Debug, PartialEq, Eq, Structural, PartialOrd, Ord, Hash)]
pub struct AccountId(pub u64);

impl HoldingId {
    pub fn new(value: u64) -> (r: Self)
        ensures
            r.0 == value,
    {
        HoldingId(value)
    }

    pub fn value(self) -> (r: u64)
        ensures
            r == self.0,
    {
        self.0
    }
}

impl LotId {
    pub fn new(value: u64) -> (r: Self)
        ensures
            r.0 == value,
    {
        LotId(value)
    }

    pub fn value(self) -> (r: u64)
        ensures
            r == self.0,
    {
        self.0
    }
}

impl OrderId {
    pub fn new(value: u64) -> (r: Self)
        ensures
            r.0 == value,
    {
        OrderId(value)
    }

    pub fn value(self) -> (r: u64)
        ensures
            r == self.0,
    {
        self.0
    }
}

impl FillId {
    pub fn new(value: u64) -> (r: Self)
        ensures
            r.0 == value,
    {
        FillId(value)
    }

    pub fn value(self) -> (r: u64)
        ensures
            r == self.0,
    {
        self.0
    }
}

impl ExecutionReportId {
    pub fn new(value: u64) -> (r: Self)
        ensures
            r.0 == value,
    {
        ExecutionReportId(value)
    }

    pub fn value(self) -> (r: u64)
        ensures
            r == self.0,
    {
        self.0
    }
}

impl AccountId {
    pub fn new(value: u64) -> (r: Self)
        ensures
            r.0 == value,
    {
        AccountId(value)
    }

    pub fn value(self) -> (r: u64)
        ensures
            r == self.0,
    {
        self.0
    }
}

} // verus!
