//! Plain enums of the host-side strategy context.

use vstd::prelude::*;

verus! {

/// Direction of a position in the host context.
#[derive(Debug, Clone, Copy, PartialEq, Eq, Structural)]
pub enum Side {
    Long,
    Short,
}

/// Shape of a chart annotation.
#[derive(Debug, Clone, Copy, PartialEq, Eq, Structural)]
pub enum AnnotationKind {
    ArrowUp,
    ArrowDown,
    HLine,
}

/// Source of position identifiers, handed out in increasing order from 1.
#[derive(Clone, Debug)]
pub struct PositionIds {
    next: u64,
}

impl View for PositionIds {
    type V = u64;

    /// The identifier handed out next.
    closed spec fn view(&self) -> u64 {
        self.next
    }
}

impl PositionIds {
    /// A source whose first identifier is 1.
    pub fn new() -> (r: PositionIds)
        ensures
            r@ == 1,
    {
        PositionIds { next: 1 }
    }

    /// Hands out the next identifier; `None` once every `u64` has been used.
    pub fn allocate(&mut self) -> (r: Option<u64>)
        ensures
            old(self)@ < u64::MAX ==> r == Some(old(self)@) && final(self)@ == old(self)@ + 1,
            old(self)@ == u64::MAX ==> r is None && final(self)@ == old(self)@,
    {
        if self.next == u64::MAX {
            None
        } else {
            let id = self.next;
            self.next = self.next + 1;
            Some(id)
        }
    }
}

} // verus!
