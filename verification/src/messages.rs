//! Human-readable texts of the library's errors and of the enum values
//! they mention. Each `message` method states its exact text.

use vstd::prelude::*;
use vstd::string::StringExecFns;

use crate::decimal::{decimal_display, Dec};
use crate::matcher::{MatchError, TickError};
use crate::order_sys::account::AccountError;
use crate::order_sys::fill::FillError;
use crate::order_sys::holding::HoldingError;
use crate::order_sys::lot::{LotError, LotSide};
use crate::order_sys::order::{OrderError, OrderSide, OrderStatus, PositionEffect};
use crate::order_sys::system::OrderSystemError;
use crate::strategy::StrategyError;
use crate::text::{digits_of, u64_text, utc_display, utc_text};

verus! {

/// Text of a decimal amount.
pub open spec fn dec_text(d: Dec) -> Seq<char> {
    decimal_display(d@)
}

/// Text of an identifier value.
pub open spec fn id_text(v: u64) -> Seq<char> {
    digits_of(v as nat)
}

/// `Debug` name of an order side.
pub open spec fn order_side_text(s: OrderSide) -> Seq<char> {
    match s {
        OrderSide::Buy => "Buy"@,
        OrderSide::Sell => "Sell"@,
    }
}

/// `Debug` name of a lot side.
pub open spec fn lot_side_text(s: LotSide) -> Seq<char> {
    match s {
        LotSide::Long => "Long"@,
        LotSide::Short => "Short"@,
    }
}

/// `Debug` name of a position effect.
pub open spec fn position_effect_text(p: PositionEffect) -> Seq<char> {
    match p {
        PositionEffect::Open => "Open"@,
        PositionEffect::Close => "Close"@,
    }
}

/// `Debug` name of an order status.
pub open spec fn order_status_text(s: OrderStatus) -> Seq<char> {
    match s {
        OrderStatus::Pending => "Pending"@,
        OrderStatus::Working => "Working"@,
        OrderStatus::PartiallyFilled => "PartiallyFilled"@,
        OrderStatus::Filled => "Filled"@,
        OrderStatus::Canceled => "Canceled"@,
        OrderStatus::Rejected => "Rejected"@,
    }
}

impl OrderSide {
    /// The variant's name.
    pub fn debug_name(self) -> (r: &'static str)
        ensures
            r@ == order_side_text(self),
    {
        match self {
            OrderSide::Buy => "Buy",
            OrderSide::Sell => "Sell",
        }
    }
}

impl LotSide {
    /// The variant's name.
    pub fn debug_name(self) -> (r: &'static str)
        ensures
            r@ == lot_side_text(self),
    {
        match self {
            LotSide::Long => "Long",
            LotSide::Short => "Short",
        }
    }
}

impl PositionEffect {
    /// The variant's name.
    pub fn debug_name(self) -> (r: &'static str)
        ensures
            r@ == position_effect_text(self),
    {
        match self {
            PositionEffect::Open => "Open",
            PositionEffect::Close => "Close",
        }
    }
}

impl OrderStatus {
    /// The variant's name.
    pub fn debug_name(self) -> (r: &'static str)
        ensures
            r@ == order_status_text(self),
    {
        match self {
            OrderStatus::Pending => "Pending",
            OrderStatus::Working => "Working",
            OrderStatus::PartiallyFilled => "PartiallyFilled",
            OrderStatus::Filled => "Filled",
            OrderStatus::Canceled => "Canceled",
            OrderStatus::Rejected => "Rejected",
        }
    }
}

/// `prefix`, then `a`, then `middle`, then `b`.
fn join4(prefix: &str, a: &str, middle: &str, b: &str) -> (r: String)
    ensures
        r@ == prefix@ + a@ + middle@ + b@,
{
    let mut s = prefix.to_owned();
    s.append(a);
    s.append(middle);
    s.append(b);
    s
}

/// `prefix`, then `a`.
fn join2(prefix: &str, a: &str) -> (r: String)
    ensures
        r@ == prefix@ + a@,
{
    let mut s = prefix.to_owned();
    s.append(a);
    s
}

/// `prefix`, then `a`, then `suffix`.
fn join3(prefix: &str, a: &str, suffix: &str) -> (r: String)
    ensures
        r@ == prefix@ + a@ + suffix@,
{
    let mut s = prefix.to_owned();
    s.append(a);
    s.append(suffix);
    s
}

/// Text of an order error.
pub open spec fn order_error_text(e: OrderError) -> Seq<char> {
    match e {
        OrderError::EmptySymbol => "order symbol cannot be empty"@,
        OrderError::NonPositiveQuantity { quantity } => "order quantity must be positive, got "@ + dec_text(quantity),
        OrderError::NonPositivePrice { price } => "order price must be positive, got "@ + dec_text(price),
        OrderError::MissingLimitPrice => "limit order requires a limit price"@,
        OrderError::MissingStopPrice => "stop order requires a stop price"@,
        OrderError::UnexpectedLimitPrice => "limit price is not valid for this order type"@,
        OrderError::UnexpectedStopPrice => "stop price is not valid for this order type"@,
        OrderError::EventOutOfOrder { previous_timestamp, new_timestamp } => "order event timestamp "@
            + utc_display(new_timestamp as int) + " is earlier than the previous order event "@
            + utc_display(previous_timestamp as int),
        OrderError::FillOrderMismatch { expected, actual } => "fill order mismatch: expected "@ + id_text(expected.0)
            + ", got "@ + id_text(actual.0),
        OrderError::FillSymbolMismatch { expected, actual } => "fill symbol mismatch: expected "@ + expected@ + ", got "@
            + actual@,
        OrderError::FillSideMismatch { expected, actual } => "fill side mismatch: expected "@ + order_side_text(expected)
            + ", got "@ + order_side_text(actual),
        OrderError::FillPositionEffectMismatch { expected, actual } => "fill position effect mismatch: expected "@
            + position_effect_text(expected) + ", got "@ + position_effect_text(actual),
        OrderError::FillQuantityExceedsLeaves { fill_qty, leaves_qty } => "fill quantity "@ + dec_text(fill_qty)
            + " exceeds order leaves quantity "@ + dec_text(leaves_qty),
        OrderError::DuplicateFillId { fill_id } => "fill "@ + id_text(fill_id.0) + " was already applied to this order"@,
        OrderError::TerminalStatus { order_id, status } => "order "@ + id_text(order_id.0) + " is in terminal status "@
            + order_status_text(status),
        OrderError::RejectAfterFill { order_id, filled_qty } => "order "@ + id_text(order_id.0)
            + " cannot be rejected after fills; filled quantity is "@ + dec_text(filled_qty),
        OrderError::ArithmeticOverflow => "order arithmetic overflowed"@,
    }
}

impl OrderError {
    /// The error's text.
    pub fn message(&self) -> (r: String)
        ensures
            r@ == order_error_text(*self),
    {
        match self {
            OrderError::EmptySymbol => "order symbol cannot be empty".to_owned(),
            OrderError::NonPositiveQuantity { quantity } => join2("order quantity must be positive, got ", quantity.text().as_str()),
            OrderError::NonPositivePrice { price } => join2("order price must be positive, got ", price.text().as_str()),
            OrderError::MissingLimitPrice => "limit order requires a limit price".to_owned(),
            OrderError::MissingStopPrice => "stop order requires a stop price".to_owned(),
            OrderError::UnexpectedLimitPrice => "limit price is not valid for this order type".to_owned(),
            OrderError::UnexpectedStopPrice => "stop price is not valid for this order type".to_owned(),
            OrderError::EventOutOfOrder { previous_timestamp, new_timestamp } => join4(
                "order event timestamp ",
                utc_text(*new_timestamp).as_str(),
                " is earlier than the previous order event ",
                utc_text(*previous_timestamp).as_str(),
            ),
            OrderError::FillOrderMismatch { expected, actual } => join4(
                "fill order mismatch: expected ",
                u64_text(expected.0).as_str(),
                ", got ",
                u64_text(actual.0).as_str(),
            ),
            OrderError::FillSymbolMismatch { expected, actual } => join4(
                "fill symbol mismatch: expected ",
                expected.as_str(),
                ", got ",
                actual.as_str(),
            ),
            OrderError::FillSideMismatch { expected, actual } => join4(
                "fill side mismatch: expected ",
                expected.debug_name(),
                ", got ",
                actual.debug_name(),
            ),
            OrderError::FillPositionEffectMismatch { expected, actual } => join4(
                "fill position effect mismatch: expected ",
                expected.debug_name(),
                ", got ",
                actual.debug_name(),
            ),
            OrderError::FillQuantityExceedsLeaves { fill_qty, leaves_qty } => join4(
                "fill quantity ",
                fill_qty.text().as_str(),
                " exceeds order leaves quantity ",
                leaves_qty.text().as_str(),
            ),
            OrderError::DuplicateFillId { fill_id } => join3("fill ", u64_text(fill_id.0).as_str(), " was already applied to this order"),
            OrderError::TerminalStatus { order_id, status } => join4(
                "order ",
                u64_text(order_id.0).as_str(),
                " is in terminal status ",
                status.debug_name(),
            ),
            OrderError::RejectAfterFill { order_id, filled_qty } => join4(
                "order ",
                u64_text(order_id.0).as_str(),
                " cannot be rejected after fills; filled quantity is ",
                filled_qty.text().as_str(),
            ),
            OrderError::ArithmeticOverflow => "order arithmetic overflowed".to_owned(),
        }
    }
}

/// Text of a fill error.
pub open spec fn fill_error_text(e: FillError) -> Seq<char> {
    match e {
        FillError::EmptySymbol => "fill symbol cannot be empty"@,
        FillError::NonPositiveQuantity { quantity } => "fill quantity must be positive, got "@ + dec_text(quantity),
        FillError::NonPositivePrice { price } => "fill price must be positive, got "@ + dec_text(price),
        FillError::NegativeFees { fees } => "fill fees cannot be negative, got "@ + dec_text(fees),
    }
}

impl FillError {
    /// The error's text.
    pub fn message(&self) -> (r: String)
        ensures
            r@ == fill_error_text(*self),
    {
        match self {
            FillError::EmptySymbol => "fill symbol cannot be empty".to_owned(),
            FillError::NonPositiveQuantity { quantity } => join2("fill quantity must be positive, got ", quantity.text().as_str()),
            FillError::NonPositivePrice { price } => join2("fill price must be positive, got ", price.text().as_str()),
            FillError::NegativeFees { fees } => join2("fill fees cannot be negative, got ", fees.text().as_str()),
        }
    }
}

/// Text of a lot error.
pub open spec fn lot_error_text(e: LotError) -> Seq<char> {
    match e {
        LotError::NonPositiveQuantity { quantity } => "quantity must be positive, got "@ + dec_text(quantity),
        LotError::NonPositivePrice { price } => "price must be positive, got "@ + dec_text(price),
        LotError::NegativeFees { fees } => "fees cannot be negative, got "@ + dec_text(fees),
        LotError::CloseExceedsRemaining { requested, remaining } => "close quantity "@ + dec_text(requested)
            + " exceeds remaining quantity "@ + dec_text(remaining),
        LotError::EventOutOfOrder { previous_timestamp, new_timestamp } => "event timestamp "@
            + utc_display(new_timestamp as int) + " is earlier than the previous audit timestamp "@
            + utc_display(previous_timestamp as int),
        LotError::LotAlreadyClosed { lot_id } => "lot "@ + id_text(lot_id.0) + " is already closed"@,
        LotError::ArithmeticOverflow => "lot arithmetic overflowed"@,
    }
}

impl LotError {
    /// The error's text.
    pub fn message(&self) -> (r: String)
        ensures
            r@ == lot_error_text(*self),
    {
        match self {
            LotError::NonPositiveQuantity { quantity } => join2("quantity must be positive, got ", quantity.text().as_str()),
            LotError::NonPositivePrice { price } => join2("price must be positive, got ", price.text().as_str()),
            LotError::NegativeFees { fees } => join2("fees cannot be negative, got ", fees.text().as_str()),
            LotError::CloseExceedsRemaining { requested, remaining } => join4(
                "close quantity ",
                requested.text().as_str(),
                " exceeds remaining quantity ",
                remaining.text().as_str(),
            ),
            LotError::EventOutOfOrder { previous_timestamp, new_timestamp } => join4(
                "event timestamp ",
                utc_text(*new_timestamp).as_str(),
                " is earlier than the previous audit timestamp ",
                utc_text(*previous_timestamp).as_str(),
            ),
            LotError::LotAlreadyClosed { lot_id } => join3("lot ", u64_text(lot_id.0).as_str(), " is already closed"),
            LotError::ArithmeticOverflow => "lot arithmetic overflowed".to_owned(),
        }
    }
}

/// Text of a holding error; a wrapped lot error shows its own text.
pub open spec fn holding_error_text(e: HoldingError) -> Seq<char> {
    match e {
        HoldingError::EmptySymbol => "holding symbol cannot be empty"@,
        HoldingError::SymbolMismatch { expected, actual } => "holding symbol mismatch: expected "@ + expected@ + ", got "@
            + actual@,
        HoldingError::MixedLotSide { expected, actual } => "holding mixes lot sides: expected "@ + lot_side_text(expected)
            + ", got "@ + lot_side_text(actual),
        HoldingError::PositionEffectMismatch { expected, actual } => "holding expected position effect "@
            + position_effect_text(expected) + ", got "@ + position_effect_text(actual),
        HoldingError::CloseSideMismatch { holding_side, fill_side } => "fill side "@ + order_side_text(fill_side)
            + " does not close "@ + lot_side_text(holding_side) + " lots"@,
        HoldingError::NoOpenLots { symbol } => "holding for "@ + symbol@ + " has no open lots"@,
        HoldingError::CloseExceedsOpenQuantity { requested, available } => "requested close quantity "@ + dec_text(requested)
            + " exceeds open quantity "@ + dec_text(available),
        HoldingError::DuplicateFillId { fill_id } => "fill "@ + id_text(fill_id.0) + " was already applied to this holding"@,
        HoldingError::DuplicateLotId { lot_id } => "lot "@ + id_text(lot_id.0) + " already exists in this holding"@,
        HoldingError::UnknownLotId { lot_id } => "lot "@ + id_text(lot_id.0) + " does not exist in this holding"@,
        HoldingError::LotNotOpen { lot_id } => "lot "@ + id_text(lot_id.0) + " is not open"@,
        HoldingError::DuplicateLotIdSelection { lot_id } => "lot "@ + id_text(lot_id.0)
            + " was selected more than once in SpecificLot"@,
        HoldingError::SpecificLotQuantityInsufficient { requested, available } => "specific lot selection covers "@
            + dec_text(available) + ", below requested close quantity "@ + dec_text(requested),
        HoldingError::Lot(l) => lot_error_text(l),
        HoldingError::ArithmeticOverflow => "holding arithmetic overflowed"@,
    }
}

impl HoldingError {
    /// The error's text.
    pub fn message(&self) -> (r: String)
        ensures
            r@ == holding_error_text(*self),
    {
        match self {
            HoldingError::EmptySymbol => "holding symbol cannot be empty".to_owned(),
            HoldingError::SymbolMismatch { expected, actual } => join4(
                "holding symbol mismatch: expected ",
                expected.as_str(),
                ", got ",
                actual.as_str(),
            ),
            HoldingError::MixedLotSide { expected, actual } => join4(
                "holding mixes lot sides: expected ",
                expected.debug_name(),
                ", got ",
                actual.debug_name(),
            ),
            HoldingError::PositionEffectMismatch { expected, actual } => join4(
                "holding expected position effect ",
                expected.debug_name(),
                ", got ",
                actual.debug_name(),
            ),
            HoldingError::CloseSideMismatch { holding_side, fill_side } => {
                let mut s = join4("fill side ", fill_side.debug_name(), " does not close ", holding_side.debug_name());
                s.append(" lots");
                s
            },
            HoldingError::NoOpenLots { symbol } => join3("holding for ", symbol.as_str(), " has no open lots"),
            HoldingError::CloseExceedsOpenQuantity { requested, available } => join4(
                "requested close quantity ",
                requested.text().as_str(),
                " exceeds open quantity ",
                available.text().as_str(),
            ),
            HoldingError::DuplicateFillId { fill_id } => join3("fill ", u64_text(fill_id.0).as_str(), " was already applied to this holding"),
            HoldingError::DuplicateLotId { lot_id } => join3("lot ", u64_text(lot_id.0).as_str(), " already exists in this holding"),
            HoldingError::UnknownLotId { lot_id } => join3("lot ", u64_text(lot_id.0).as_str(), " does not exist in this holding"),
            HoldingError::LotNotOpen { lot_id } => join3("lot ", u64_text(lot_id.0).as_str(), " is not open"),
            HoldingError::DuplicateLotIdSelection { lot_id } => join3(
                "lot ",
                u64_text(lot_id.0).as_str(),
                " was selected more than once in SpecificLot",
            ),
            HoldingError::SpecificLotQuantityInsufficient { requested, available } => join4(
                "specific lot selection covers ",
                available.text().as_str(),
                ", below requested close quantity ",
                requested.text().as_str(),
            ),
            HoldingError::Lot(l) => l.message(),
            HoldingError::ArithmeticOverflow => "holding arithmetic overflowed".to_owned(),
        }
    }
}

/// Text of an account error.
pub open spec fn account_error_text(e: AccountError) -> Seq<char> {
    match e {
        AccountError::EmptyBaseCurrency => "account base currency cannot be empty"@,
        AccountError::NegativeCashBalance { cash_balance } => "cash balance cannot be negative, got "@ + dec_text(cash_balance),
        AccountError::CashBalanceWouldBecomeNegative { current_balance, delta, attempted_balance } =>
            "cash balance would become negative: current "@ + dec_text(current_balance) + ", delta "@ + dec_text(delta)
                + ", attempted "@ + dec_text(attempted_balance),
        AccountError::ArithmeticOverflow => "cash balance arithmetic overflowed"@,
    }
}

impl AccountError {
    /// The error's text.
    pub fn message(&self) -> (r: String)
        ensures
            r@ == account_error_text(*self),
    {
        match self {
            AccountError::EmptyBaseCurrency => "account base currency cannot be empty".to_owned(),
            AccountError::NegativeCashBalance { cash_balance } => join2("cash balance cannot be negative, got ", cash_balance.text().as_str()),
            AccountError::CashBalanceWouldBecomeNegative { current_balance, delta, attempted_balance } => {
                let mut s = join4(
                    "cash balance would become negative: current ",
                    current_balance.text().as_str(),
                    ", delta ",
                    delta.text().as_str(),
                );
                s.append(", attempted ");
                s.append(attempted_balance.text().as_str());
                s
            },
            AccountError::ArithmeticOverflow => "cash balance arithmetic overflowed".to_owned(),
        }
    }
}

/// Text of a tick error.
pub open spec fn tick_error_text(e: TickError) -> Seq<char> {
    match e {
        TickError::NonPositiveBid { bid } => "tick bid must be positive, got "@ + dec_text(bid),
        TickError::NonPositiveAsk { ask } => "tick ask must be positive, got "@ + dec_text(ask),
        TickError::CrossedBook { bid, ask } => "tick ask "@ + dec_text(ask) + " is below bid "@ + dec_text(bid),
        TickError::NonPositiveLast { last } => "tick last price must be positive, got "@ + dec_text(last),
        TickError::NegativeVolume { volume } => "tick volume cannot be negative, got "@ + dec_text(volume),
    }
}

impl TickError {
    /// The error's text.
    pub fn message(&self) -> (r: String)
        ensures
            r@ == tick_error_text(*self),
    {
        match self {
            TickError::NonPositiveBid { bid } => join2("tick bid must be positive, got ", bid.text().as_str()),
            TickError::NonPositiveAsk { ask } => join2("tick ask must be positive, got ", ask.text().as_str()),
            TickError::CrossedBook { bid, ask } => join4("tick ask ", ask.text().as_str(), " is below bid ", bid.text().as_str()),
            TickError::NonPositiveLast { last } => join2("tick last price must be positive, got ", last.text().as_str()),
            TickError::NegativeVolume { volume } => join2("tick volume cannot be negative, got ", volume.text().as_str()),
        }
    }
}

/// Text of an order-system error; wrapped order and holding errors show
/// their own text.
pub open spec fn sys_error_text(e: OrderSystemError) -> Seq<char> {
    match e {
        OrderSystemError::UnknownOrderId { order_id } => "order "@ + id_text(order_id.0) + " does not exist"@,
        OrderSystemError::DuplicateFillId { fill_id } => "fill "@ + id_text(fill_id.0)
            + " was already applied to the order system"@,
        OrderSystemError::NoOpenPosition { symbol } => "symbol "@ + symbol@ + " has no open position"@,
        OrderSystemError::OpenSideMismatch { symbol, requested, holding_side } => "cannot open "@ + order_side_text(requested)
            + " exposure for "@ + symbol@ + " while "@ + lot_side_text(holding_side) + " exposure is already open"@,
        OrderSystemError::LiveOpenOrderSideConflict { symbol, requested, live_order_side } => "cannot open "@
            + order_side_text(requested) + " exposure for "@ + symbol@ + " while a live open order already reserves "@
            + order_side_text(live_order_side) + " exposure"@,
        OrderSystemError::OrderNotActive { order_id, waiting_on_order_id } => "order "@ + id_text(order_id.0)
            + " is not active yet; it is waiting on order "@ + id_text(waiting_on_order_id.0) + " to complete"@,
        OrderSystemError::ReversalBlockedByLiveOpenOrders { symbol } => "automatic reversal for "@ + symbol@
            + " is blocked while other live open orders exist"@,
        OrderSystemError::CloseSideMismatch { symbol, requested, holding_side } => "close order side "@
            + order_side_text(requested) + " does not match "@ + lot_side_text(holding_side) + " exposure in "@ + symbol@,
        OrderSystemError::CloseQuantityExceedsAvailable { symbol, requested, available } => "close quantity "@
            + dec_text(requested) + " exceeds currently available quantity "@ + dec_text(available) + " for "@ + symbol@,
        OrderSystemError::NoClosableQuantity { symbol } => "symbol "@ + symbol@ + " has no unreserved quantity left to close"@,
        OrderSystemError::Order(o) => order_error_text(o),
        OrderSystemError::Holding(h) => holding_error_text(h),
        OrderSystemError::ArithmeticOverflow => "order-system arithmetic overflowed"@,
    }
}

impl OrderSystemError {
    /// The error's text.
    pub fn message(&self) -> (r: String)
        ensures
            r@ == sys_error_text(*self),
    {
        match self {
            OrderSystemError::UnknownOrderId { order_id } => join3("order ", u64_text(order_id.0).as_str(), " does not exist"),
            OrderSystemError::DuplicateFillId { fill_id } => join3(
                "fill ",
                u64_text(fill_id.0).as_str(),
                " was already applied to the order system",
            ),
            OrderSystemError::NoOpenPosition { symbol } => join3("symbol ", symbol.as_str(), " has no open position"),
            OrderSystemError::OpenSideMismatch { symbol, requested, holding_side } => {
                let mut s = join4("cannot open ", requested.debug_name(), " exposure for ", symbol.as_str());
                s.append(" while ");
                s.append(holding_side.debug_name());
                s.append(" exposure is already open");
                s
            },
            OrderSystemError::LiveOpenOrderSideConflict { symbol, requested, live_order_side } => {
                let mut s = join4("cannot open ", requested.debug_name(), " exposure for ", symbol.as_str());
                s.append(" while a live open order already reserves ");
                s.append(live_order_side.debug_name());
                s.append(" exposure");
                s
            },
            OrderSystemError::OrderNotActive { order_id, waiting_on_order_id } => {
                let mut s = join4(
                    "order ",
                    u64_text(order_id.0).as_str(),
                    " is not active yet; it is waiting on order ",
                    u64_text(waiting_on_order_id.0).as_str(),
                );
                s.append(" to complete");
                s
            },
            OrderSystemError::ReversalBlockedByLiveOpenOrders { symbol } => join3(
                "automatic reversal for ",
                symbol.as_str(),
                " is blocked while other live open orders exist",
            ),
            OrderSystemError::CloseSideMismatch { symbol, requested, holding_side } => {
                let mut s = join4("close order side ", requested.debug_name(), " does not match ", holding_side.debug_name());
                s.append(" exposure in ");
                s.append(symbol.as_str());
                s
            },
            OrderSystemError::CloseQuantityExceedsAvailable { symbol, requested, available } => {
                let mut s = join4(
                    "close quantity ",
                    requested.text().as_str(),
                    " exceeds currently available quantity ",
                    available.text().as_str(),
                );
                s.append(" for ");
                s.append(symbol.as_str());
                s
            },
            OrderSystemError::NoClosableQuantity { symbol } => join3(
                "symbol ",
                symbol.as_str(),
                " has no unreserved quantity left to close",
            ),
            OrderSystemError::Order(o) => o.message(),
            OrderSystemError::Holding(h) => h.message(),
            OrderSystemError::ArithmeticOverflow => "order-system arithmetic overflowed".to_owned(),
        }
    }
}

/// Text of a matching error; wrapped errors show their own text.
pub open spec fn match_error_text(e: MatchError) -> Seq<char> {
    match e {
        MatchError::Fill(f) => fill_error_text(f),
        MatchError::Tick(t) => tick_error_text(t),
        MatchError::OrderSystem(o) => sys_error_text(o),
        MatchError::ArithmeticOverflow => "fill identifier counter is exhausted"@,
    }
}

impl MatchError {
    /// The error's text.
    pub fn message(&self) -> (r: String)
        ensures
            r@ == match_error_text(*self),
    {
        match self {
            MatchError::Fill(f) => f.message(),
            MatchError::Tick(t) => t.message(),
            MatchError::OrderSystem(o) => o.message(),
            MatchError::ArithmeticOverflow => "fill identifier counter is exhausted".to_owned(),
        }
    }
}

/// Text of a strategy error; a wrapped order-system error shows its own text.
pub open spec fn strategy_error_text(e: StrategyError) -> Seq<char> {
    match e {
        StrategyError::MissingBarContext =>
            "strategy context has no current bar; call from `on_bar` or set time explicitly through the lower-level order system"@,
        StrategyError::MissingDefaultSymbol =>
            "strategy context has no default symbol; call `set_default_symbol` or use the lower-level order system"@,
        StrategyError::OrderSystem(o) => sys_error_text(o),
    }
}

impl StrategyError {
    /// The error's text.
    pub fn message(&self) -> (r: String)
        ensures
            r@ == strategy_error_text(*self),
    {
        match self {
            StrategyError::MissingBarContext =>
                "strategy context has no current bar; call from `on_bar` or set time explicitly through the lower-level order system".to_owned(),
            StrategyError::MissingDefaultSymbol =>
                "strategy context has no default symbol; call `set_default_symbol` or use the lower-level order system".to_owned(),
            StrategyError::OrderSystem(o) => o.message(),
        }
    }
}

} // verus!
