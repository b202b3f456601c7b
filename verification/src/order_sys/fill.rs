//! Immutable execution facts.
//!
//! A [`Fill`] represents what actually happened in the market or simulator.
//! Unlike an order, which models intent and state transitions, a fill is an
//! immutable record of one executed slice.

use vstd::prelude::*;

use crate::decimal::Dec;
use crate::order_sys::order::{OrderSide, PositionEffect};
use crate::order_sys::{FillId, OrderId, Timestamp};
use crate::text::{is_blank, is_blank_spec};

verus! {

/// Whether the fill provided or removed liquidity.
#[derive(Clone, Copy, Debug, PartialEq, Eq, Structural)]
pub enum FillLiquidity {
    /// The fill added liquidity to the venue book.
    Maker,
    /// The fill removed liquidity from the venue book.
    Taker,
    /// Liquidity side is unknown or was not reported.
    Unknown,
}

/// Domain errors raised while constructing a fill.
#[derive(Clone, Debug, PartialEq, Eq)]
pub enum FillError {
    /// The symbol string was empty or whitespace.
    EmptySymbol,
    /// The executed quantity must be strictly positive.
    NonPositiveQuantity { quantity: Dec },
    /// The execution price must be strictly positive.
    NonPositivePrice { price: Dec },
    /// Fees must not be negative.
    NegativeFees { fees: Dec },
}

/// Abstract state of a fill.
pub struct FillView {
    pub id: FillId,
    pub order_id: OrderId,
    pub symbol: Seq<char>,
    pub order_side: OrderSide,
    pub position_effect: PositionEffect,
    pub executed_at: Timestamp,
    pub qty: Dec,
    pub price: Dec,
    pub fees: Dec,
    pub liquidity: FillLiquidity,
    pub venue_execution_id: Option<Seq<char>>,
    pub venue_order_id: Option<Seq<char>>,
}

/// Immutable record of one execution slice.
#[derive(Debug, PartialEq, Eq)]
pub struct Fill {
    id: FillId,
    order_id: OrderId,
    symbol: String,
    order_side: OrderSide,
    position_effect: PositionEffect,
    executed_at: Timestamp,
    qty: Dec,
    price: Dec,
    fees: Dec,
    liquidity: FillLiquidity,
    venue_execution_id: Option<String>,
    venue_order_id: Option<String>,
}

pub open spec fn opt_string_view(s: Option<String>) -> Option<Seq<char>> {
    match s {
        Some(x) => Some(x@),
        None => None,
    }
}

impl View for Fill {
    type V = FillView;

    closed spec fn view(&self) -> FillView {
        FillView {
            id: self.id,
            order_id: self.order_id,
            symbol: self.symbol@,
            order_side: self.order_side,
            position_effect: self.position_effect,
            executed_at: self.executed_at,
            qty: self.qty,
            price: self.price,
            fees: self.fees,
            liquidity: self.liquidity,
            venue_execution_id: opt_string_view(self.venue_execution_id),
            venue_order_id: opt_string_view(self.venue_order_id),
        }
    }
}

/// The validation a fill passes at construction.
pub open spec fn fill_valid(f: FillView) -> bool {
    &&& !is_blank_spec(f.symbol)
    &&& f.qty.value() > 0
    &&& f.price.value() > 0
    &&& f.fees.value() >= 0
}

/// The error `Fill::new_with_metadata` reports for these inputs, if any,
/// checking symbol, quantity, price and fees in that order.
pub open spec fn fill_input_error(symbol: Seq<char>, qty: Dec, price: Dec, fees: Dec) -> Option<FillError> {
    if is_blank_spec(symbol) {
        Some(FillError::EmptySymbol)
    } else if qty.value() <= 0 {
        Some(FillError::NonPositiveQuantity { quantity: qty })
    } else if price.value() <= 0 {
        Some(FillError::NonPositivePrice { price })
    } else if fees.value() < 0 {
        Some(FillError::NegativeFees { fees })
    } else {
        None
    }
}

impl Fill {
    #[verifier::type_invariant]
    closed spec fn inv(self) -> bool {
        fill_valid(self@)
    }

    /// Every fill satisfies the construction-time validation.
    pub fn lemma_valid(&self)
        ensures
            fill_valid(self@),
    {
        proof {
            use_type_invariant(self);
        }
    }

    /// Creates a fill with unknown liquidity and no venue identifiers.
    pub fn new(
        id: FillId,
        order_id: OrderId,
        symbol: &str,
        order_side: OrderSide,
        position_effect: PositionEffect,
        executed_at: Timestamp,
        qty: Dec,
        price: Dec,
        fees: Dec,
    ) -> (r: Result<Fill, FillError>)
        ensures
            fill_input_error(symbol@, qty, price, fees) matches Some(e) ==> r == Err::<Fill, FillError>(e),
            fill_input_error(symbol@, qty, price, fees) is None ==> r is Ok && (r.unwrap()@ == FillView {
                id,
                order_id,
                symbol: symbol@,
                order_side,
                position_effect,
                executed_at,
                qty,
                price,
                fees,
                liquidity: FillLiquidity::Unknown,
                venue_execution_id: None,
                venue_order_id: None,
            }),
    {
        Self::new_with_metadata(
            id,
            order_id,
            symbol,
            order_side,
            position_effect,
            executed_at,
            qty,
            price,
            fees,
            FillLiquidity::Unknown,
            None,
            None,
        )
    }

    /// Creates a fill with full optional venue metadata, validating symbol,
    /// quantity, price and fees.
    pub fn new_with_metadata(
        id: FillId,
        order_id: OrderId,
        symbol: &str,
        order_side: OrderSide,
        position_effect: PositionEffect,
        executed_at: Timestamp,
        qty: Dec,
        price: Dec,
        fees: Dec,
        liquidity: FillLiquidity,
        venue_execution_id: Option<String>,
        venue_order_id: Option<String>,
    ) -> (r: Result<Fill, FillError>)
        ensures
            fill_input_error(symbol@, qty, price, fees) matches Some(e) ==> r == Err::<Fill, FillError>(e),
            fill_input_error(symbol@, qty, price, fees) is None ==> r is Ok && (r.unwrap()@ == FillView {
                id,
                order_id,
                symbol: symbol@,
                order_side,
                position_effect,
                executed_at,
                qty,
                price,
                fees,
                liquidity,
                venue_execution_id: opt_string_view(venue_execution_id),
                venue_order_id: opt_string_view(venue_order_id),
            }),
    {
        if is_blank(symbol) {
            return Err(FillError::EmptySymbol);
        }
        if !qty.is_positive() {
            return Err(FillError::NonPositiveQuantity { quantity: qty });
        }
        if !price.is_positive() {
            return Err(FillError::NonPositivePrice { price });
        }
        if fees.is_negative() {
            return Err(FillError::NegativeFees { fees });
        }
        Ok(Fill {
            id,
            order_id,
            symbol: symbol.to_owned(),
            order_side,
            position_effect,
            executed_at,
            qty,
            price,
            fees,
            liquidity,
            venue_execution_id,
            venue_order_id,
        })
    }

    /// Returns the fill identifier.
    pub fn id(&self) -> (r: FillId)
        ensures
            r == self@.id,
    {
        self.id
    }

    /// Returns the parent order identifier.
    pub fn order_id(&self) -> (r: OrderId)
        ensures
            r == self@.order_id,
    {
        self.order_id
    }

    /// Returns the instrument symbol.
    pub fn symbol(&self) -> (r: &str)
        ensures
            r@ == self@.symbol,
    {
        self.symbol.as_str()
    }

    /// Returns the side of the parent order.
    pub fn order_side(&self) -> (r: OrderSide)
        ensures
            r == self@.order_side,
    {
        self.order_side
    }

    /// Returns whether the fill opens or closes exposure.
    pub fn position_effect(&self) -> (r: PositionEffect)
        ensures
            r == self@.position_effect,
    {
        self.position_effect
    }

    /// Returns the execution timestamp.
    pub fn executed_at(&self) -> (r: Timestamp)
        ensures
            r == self@.executed_at,
    {
        self.executed_at
    }

    /// Returns the executed quantity.
    pub fn qty(&self) -> (r: Dec)
        ensures
            r == self@.qty,
    {
        self.qty
    }

    /// Returns the execution price.
    pub fn price(&self) -> (r: Dec)
        ensures
            r == self@.price,
    {
        self.price
    }

    /// Returns the execution fees.
    pub fn fees(&self) -> (r: Dec)
        ensures
            r == self@.fees,
    {
        self.fees
    }

    /// Returns gross executed notional `qty * price`; `None` only when the
    /// product overflows the decimal range.
    pub fn gross_notional(&self) -> (r: Option<Dec>)
        ensures
            r == crate::decimal::dec_mul(self@.qty, self@.price),
    {
        self.qty.mul(self.price)
    }

    /// Returns the liquidity side.
    pub fn liquidity(&self) -> (r: FillLiquidity)
        ensures
            r == self@.liquidity,
    {
        self.liquidity
    }

    /// Returns the venue execution identifier, if any.
    pub fn venue_execution_id(&self) -> (r: Option<&str>)
        ensures
            r is Some == self@.venue_execution_id is Some,
            r is Some ==> r.unwrap()@ == self@.venue_execution_id.unwrap(),
    {
        match &self.venue_execution_id {
            Some(s) => Some(s.as_str()),
            None => None,
        }
    }

    /// Returns the venue order identifier, if any.
    pub fn venue_order_id(&self) -> (r: Option<&str>)
        ensures
            r is Some == self@.venue_order_id is Some,
            r is Some ==> r.unwrap()@ == self@.venue_order_id.unwrap(),
    {
        match &self.venue_order_id {
            Some(s) => Some(s.as_str()),
            None => None,
        }
    }

    /// A copy of the fill with the same abstract state.
    pub fn duplicate(&self) -> (r: Fill)
        ensures
            r@ == self@,
    {
        proof {
            use_type_invariant(self);
        }
        Fill {
            id: self.id,
            order_id: self.order_id,
            symbol: self.symbol.clone(),
            order_side: self.order_side,
            position_effect: self.position_effect,
            executed_at: self.executed_at,
            qty: self.qty,
            price: self.price,
            fees: self.fees,
            liquidity: self.liquidity,
            venue_execution_id: match &self.venue_execution_id {
                Some(s) => Some(s.clone()),
                None => None,
            },
            venue_order_id: match &self.venue_order_id {
                Some(s) => Some(s.clone()),
                None => None,
            },
        }
    }
}

} // verus!
