//! Execution models that turn market data into fills.
//!
//! [`OrderSystem`] is not a matching engine. The matchers here inspect the
//! live orders, decide whether one market event executes them, build the
//! fills and feed them back into the order system.
//!
//! - [`BarMatcher`] matches OHLC bars with conservative stop-limit
//!   semantics: a stop-limit touched intrabar becomes active only from the
//!   next bar on, while a gap through the stop at the open can trigger and
//!   fill immediately.
//! - [`TickMatcher`] matches tick by tick; a stop-limit may trigger and fill
//!   on the same tick because the event order is no longer ambiguous.

use vstd::prelude::*;

use crate::decimal::Dec;
use crate::order_sys::execution_report::{zero_dec, ExecutionReport, ExecutionReportView};
use crate::order_sys::fill::{fill_input_error, Fill, FillError, FillLiquidity, FillView};
use crate::order_sys::order::{is_terminal, leaves_of, Order, OrderSide, OrderStatus, OrderType, OrderView};
use crate::order_sys::system::{
    acknowledge_outcome, applied_view, fill_outcome, tracked_of, AppliedFill, AppliedView, OrderSystem,
    OrderSystemError, OrderSystemView, SysErrorView, TrackedView,
};
use crate::order_sys::holding::{key_before, lemma_sorted_order_unique, same_indices, sort_indices, sorted_by, SortKey};
use crate::order_sys::system::{opt_order_view, report_views, system_valid};
use crate::order_sys::{FillId, OrderId, Timestamp};

verus! {

/// Whether touching a price level is enough to execute, or whether the
/// market must trade strictly through it.
#[derive(Clone, Copy, Debug, PartialEq, Eq, Structural)]
pub enum PriceTrigger {
    /// The first touch of the price level executes the order.
    Touch,
    /// The market must move strictly beyond the price level.
    TradeThrough,
}

/// Price used for market orders in bar mode.
#[derive(Clone, Copy, Debug, PartialEq, Eq, Structural)]
pub enum BarMarketFillPrice {
    /// Fill at the bar open once the order is eligible.
    Open,
    /// Fill at the bar close once the order is eligible.
    Close,
}

/// Configuration of a [`BarMatcher`].
#[derive(Clone, Copy, Debug, PartialEq, Eq, Structural)]
pub struct BarMatcherConfig {
    /// Whether touches are enough to execute limit and stop orders intrabar.
    pub price_trigger: PriceTrigger,
    /// Price used to fill market orders.
    pub market_fill_price: BarMarketFillPrice,
    /// Whether orders submitted at the bar's own timestamp may execute on it.
    pub allow_same_bar_fill: bool,
}

impl Default for BarMatcherConfig {
    /// Touch triggers, market orders at the open, no same-bar fills.
    fn default() -> (r: BarMatcherConfig)
        ensures
            r == (BarMatcherConfig {
                price_trigger: PriceTrigger::Touch,
                market_fill_price: BarMarketFillPrice::Open,
                allow_same_bar_fill: false,
            }),
    {
        BarMatcherConfig {
            price_trigger: PriceTrigger::Touch,
            market_fill_price: BarMarketFillPrice::Open,
            allow_same_bar_fill: false,
        }
    }
}

/// Configuration of a [`TickMatcher`].
#[derive(Clone, Copy, Debug, PartialEq, Eq, Structural)]
pub struct TickMatcherConfig {
    /// Whether touching a price level is enough to execute.
    pub price_trigger: PriceTrigger,
    /// Whether orders submitted at the tick's own timestamp may execute on it.
    pub allow_same_tick_fill: bool,
}

impl Default for TickMatcherConfig {
    /// Touch triggers, no same-tick fills.
    fn default() -> (r: TickMatcherConfig)
        ensures
            r == (TickMatcherConfig { price_trigger: PriceTrigger::Touch, allow_same_tick_fill: false }),
    {
        TickMatcherConfig { price_trigger: PriceTrigger::Touch, allow_same_tick_fill: false }
    }
}

/// One OHLC bar with decimal prices.
#[derive(Clone, Copy, Debug, PartialEq, Eq)]
pub struct BarPrices {
    pub time: Timestamp,
    pub open: Dec,
    pub high: Dec,
    pub low: Dec,
    pub close: Dec,
}

/// Top-of-book market event for tick matching.
#[derive(Clone, Copy, Debug, PartialEq, Eq)]
pub struct Tick {
    pub time: Timestamp,
    /// Best bid price.
    pub bid: Dec,
    /// Best ask price.
    pub ask: Dec,
    /// Last traded price, if known.
    pub last: Option<Dec>,
    /// Event volume, if known.
    pub volume: Option<Dec>,
}

/// Errors raised while constructing ticks.
#[derive(Clone, Copy, Debug, PartialEq, Eq)]
pub enum TickError {
    /// Best bid must be strictly positive.
    NonPositiveBid { bid: Dec },
    /// Best ask must be strictly positive.
    NonPositiveAsk { ask: Dec },
    /// Best ask must not be below best bid.
    CrossedBook { bid: Dec, ask: Dec },
    /// Last-traded price must be strictly positive when present.
    NonPositiveLast { last: Dec },
    /// Volume must not be negative when present.
    NegativeVolume { volume: Dec },
}

/// The error `Tick::new` reports, if any, checking bid, ask, their order,
/// last price and volume in that order.
pub open spec fn tick_error(bid: Dec, ask: Dec, last: Option<Dec>, volume: Option<Dec>) -> Option<TickError> {
    if bid.value() <= 0 {
        Some(TickError::NonPositiveBid { bid })
    } else if ask.value() <= 0 {
        Some(TickError::NonPositiveAsk { ask })
    } else if ask.value() < bid.value() {
        Some(TickError::CrossedBook { bid, ask })
    } else if last is Some && last.unwrap().value() <= 0 {
        Some(TickError::NonPositiveLast { last: last.unwrap() })
    } else if volume is Some && volume.unwrap().value() < 0 {
        Some(TickError::NegativeVolume { volume: volume.unwrap() })
    } else {
        None
    }
}

impl Tick {
    /// Creates one validated tick.
    pub fn new(time: Timestamp, bid: Dec, ask: Dec, last: Option<Dec>, volume: Option<Dec>) -> (r: Result<Tick, TickError>)
        ensures
            tick_error(bid, ask, last, volume) matches Some(e) ==> r == Err::<Tick, TickError>(e),
            tick_error(bid, ask, last, volume) is None ==> r == Ok::<Tick, TickError>(Tick { time, bid, ask, last, volume }),
    {
        if !bid.is_positive() {
            return Err(TickError::NonPositiveBid { bid });
        }
        if !ask.is_positive() {
            return Err(TickError::NonPositiveAsk { ask });
        }
        if ask.lt(&bid) {
            return Err(TickError::CrossedBook { bid, ask });
        }
        if let Some(l) = last {
            if !l.is_positive() {
                return Err(TickError::NonPositiveLast { last: l });
            }
        }
        if let Some(v) = volume {
            if v.is_negative() {
                return Err(TickError::NegativeVolume { volume: v });
            }
        }
        Ok(Tick { time, bid, ask, last, volume })
    }
}

/// Whether `status` is live: `Pending`, `Working` or `PartiallyFilled`.
pub fn is_live_status(status: OrderStatus) -> (r: bool)
    ensures
        r == !is_terminal(status),
{
    match status {
        OrderStatus::Pending | OrderStatus::Working | OrderStatus::PartiallyFilled => true,
        OrderStatus::Filled | OrderStatus::Canceled | OrderStatus::Rejected => false,
    }
}

/// `observed` reaches `threshold` from below.
pub open spec fn touches_up_spec(observed: Dec, threshold: Dec, trigger: PriceTrigger) -> bool {
    match trigger {
        PriceTrigger::Touch => observed.value() >= threshold.value(),
        PriceTrigger::TradeThrough => observed.value() > threshold.value(),
    }
}

/// `observed` reaches `threshold` from above.
pub open spec fn touches_down_spec(observed: Dec, threshold: Dec, trigger: PriceTrigger) -> bool {
    match trigger {
        PriceTrigger::Touch => observed.value() <= threshold.value(),
        PriceTrigger::TradeThrough => observed.value() < threshold.value(),
    }
}

pub fn touches_up(observed: Dec, threshold: Dec, trigger: PriceTrigger) -> (r: bool)
    ensures
        r == touches_up_spec(observed, threshold, trigger),
{
    match trigger {
        PriceTrigger::Touch => threshold.le(&observed),
        PriceTrigger::TradeThrough => threshold.lt(&observed),
    }
}

pub fn touches_down(observed: Dec, threshold: Dec, trigger: PriceTrigger) -> (r: bool)
    ensures
        r == touches_down_spec(observed, threshold, trigger),
{
    match trigger {
        PriceTrigger::Touch => observed.le(&threshold),
        PriceTrigger::TradeThrough => observed.lt(&threshold),
    }
}

/// Bar fill price of a limit order: the open when it already crosses the
/// limit, the limit when the bar reaches it, otherwise none.
pub open spec fn bar_limit_price(side: OrderSide, limit: Dec, p: BarPrices, trigger: PriceTrigger) -> Option<Dec> {
    match side {
        OrderSide::Buy => if p.open.value() <= limit.value() {
            Some(p.open)
        } else if touches_down_spec(p.low, limit, trigger) {
            Some(limit)
        } else {
            None
        },
        OrderSide::Sell => if p.open.value() >= limit.value() {
            Some(p.open)
        } else if touches_up_spec(p.high, limit, trigger) {
            Some(limit)
        } else {
            None
        },
    }
}

/// Bar fill price of a stop order: the open when it gaps through the stop,
/// the stop when the bar reaches it, otherwise none.
pub open spec fn bar_stop_price(side: OrderSide, stop: Dec, p: BarPrices, trigger: PriceTrigger) -> Option<Dec> {
    match side {
        OrderSide::Buy => if p.open.value() >= stop.value() {
            Some(p.open)
        } else if touches_up_spec(p.high, stop, trigger) {
            Some(stop)
        } else {
            None
        },
        OrderSide::Sell => if p.open.value() <= stop.value() {
            Some(p.open)
        } else if touches_down_spec(p.low, stop, trigger) {
            Some(stop)
        } else {
            None
        },
    }
}

/// The bar opens at or through the stop.
pub open spec fn stop_at_open(side: OrderSide, stop: Dec, open: Dec) -> bool {
    match side {
        OrderSide::Buy => open.value() >= stop.value(),
        OrderSide::Sell => open.value() <= stop.value(),
    }
}

/// The bar reaches the stop intrabar.
pub open spec fn stop_intrabar(side: OrderSide, stop: Dec, p: BarPrices, trigger: PriceTrigger) -> bool {
    match side {
        OrderSide::Buy => touches_up_spec(p.high, stop, trigger),
        OrderSide::Sell => touches_down_spec(p.low, stop, trigger),
    }
}

/// Tick fill price of a limit order: the touched side of the book.
pub open spec fn tick_limit_price(side: OrderSide, limit: Dec, t: Tick, trigger: PriceTrigger) -> Option<Dec> {
    match side {
        OrderSide::Buy => if touches_down_spec(t.ask, limit, trigger) { Some(t.ask) } else { None },
        OrderSide::Sell => if touches_up_spec(t.bid, limit, trigger) { Some(t.bid) } else { None },
    }
}

/// Tick fill price of a stop order: the touched side of the book.
pub open spec fn tick_stop_price(side: OrderSide, stop: Dec, t: Tick, trigger: PriceTrigger) -> Option<Dec> {
    match side {
        OrderSide::Buy => if touches_up_spec(t.ask, stop, trigger) { Some(t.ask) } else { None },
        OrderSide::Sell => if touches_down_spec(t.bid, stop, trigger) { Some(t.bid) } else { None },
    }
}

/// The tick reaches the stop.
pub open spec fn stop_on_tick(side: OrderSide, stop: Dec, t: Tick, trigger: PriceTrigger) -> bool {
    match side {
        OrderSide::Buy => touches_up_spec(t.ask, stop, trigger),
        OrderSide::Sell => touches_down_spec(t.bid, stop, trigger),
    }
}

pub fn match_bar_limit(side: OrderSide, limit_price: Dec, prices: &BarPrices, trigger: PriceTrigger) -> (r: Option<Dec>)
    ensures
        r == bar_limit_price(side, limit_price, *prices, trigger),
{
    match side {
        OrderSide::Buy => {
            if prices.open.le(&limit_price) {
                Some(prices.open)
            } else if touches_down(prices.low, limit_price, trigger) {
                Some(limit_price)
            } else {
                None
            }
        },
        OrderSide::Sell => {
            if limit_price.le(&prices.open) {
                Some(prices.open)
            } else if touches_up(prices.high, limit_price, trigger) {
                Some(limit_price)
            } else {
                None
            }
        },
    }
}

pub fn match_bar_stop(side: OrderSide, stop_price: Dec, prices: &BarPrices, trigger: PriceTrigger) -> (r: Option<Dec>)
    ensures
        r == bar_stop_price(side, stop_price, *prices, trigger),
{
    match side {
        OrderSide::Buy => {
            if stop_price.le(&prices.open) {
                Some(prices.open)
            } else if touches_up(prices.high, stop_price, trigger) {
                Some(stop_price)
            } else {
                None
            }
        },
        OrderSide::Sell => {
            if prices.open.le(&stop_price) {
                Some(prices.open)
            } else if touches_down(prices.low, stop_price, trigger) {
                Some(stop_price)
            } else {
                None
            }
        },
    }
}

pub fn stop_triggers_at_open(side: OrderSide, stop_price: Dec, open_price: Dec) -> (r: bool)
    ensures
        r == stop_at_open(side, stop_price, open_price),
{
    match side {
        OrderSide::Buy => stop_price.le(&open_price),
        OrderSide::Sell => open_price.le(&stop_price),
    }
}

pub fn stop_triggers_intrabar(side: OrderSide, stop_price: Dec, prices: &BarPrices, trigger: PriceTrigger) -> (r: bool)
    ensures
        r == stop_intrabar(side, stop_price, *prices, trigger),
{
    match side {
        OrderSide::Buy => touches_up(prices.high, stop_price, trigger),
        OrderSide::Sell => touches_down(prices.low, stop_price, trigger),
    }
}

pub fn match_tick_limit(side: OrderSide, limit_price: Dec, tick: &Tick, trigger: PriceTrigger) -> (r: Option<Dec>)
    ensures
        r == tick_limit_price(side, limit_price, *tick, trigger),
{
    match side {
        OrderSide::Buy => if touches_down(tick.ask, limit_price, trigger) { Some(tick.ask) } else { None },
        OrderSide::Sell => if touches_up(tick.bid, limit_price, trigger) { Some(tick.bid) } else { None },
    }
}

pub fn match_tick_stop(side: OrderSide, stop_price: Dec, tick: &Tick, trigger: PriceTrigger) -> (r: Option<Dec>)
    ensures
        r == tick_stop_price(side, stop_price, *tick, trigger),
{
    match side {
        OrderSide::Buy => if touches_up(tick.ask, stop_price, trigger) { Some(tick.ask) } else { None },
        OrderSide::Sell => if touches_down(tick.bid, stop_price, trigger) { Some(tick.bid) } else { None },
    }
}

pub fn stop_triggers_on_tick(side: OrderSide, stop_price: Dec, tick: &Tick, trigger: PriceTrigger) -> (r: bool)
    ensures
        r == stop_on_tick(side, stop_price, *tick, trigger),
{
    match side {
        OrderSide::Buy => touches_up(tick.ask, stop_price, trigger),
        OrderSide::Sell => touches_down(tick.bid, stop_price, trigger),
    }
}

/// An order submitted at `submitted_at` may execute on an event at
/// `event_time`: strictly later, or at the same time when allowed.
pub open spec fn eligible(submitted_at: Timestamp, event_time: Timestamp, allow_same: bool) -> bool {
    submitted_at < event_time || (allow_same && submitted_at == event_time)
}

pub fn is_event_eligible(submitted_at: Timestamp, event_time: Timestamp, allow_same: bool) -> (r: bool)
    ensures
        r == eligible(submitted_at, event_time, allow_same),
{
    submitted_at < event_time || (allow_same && submitted_at == event_time)
}

/// Errors raised by bar or tick matching.
#[derive(Debug, PartialEq, Eq)]
pub enum MatchError {
    /// Wrapped fill-construction error.
    Fill(FillError),
    /// Wrapped tick-construction error.
    Tick(TickError),
    /// Wrapped order-system error.
    OrderSystem(OrderSystemError),
    /// The fill identifier counter is exhausted.
    ArithmeticOverflow,
}

/// Abstract value of a [`MatchError`].
pub enum MatchErrView {
    Fill(FillError),
    Tick(TickError),
    OrderSystem(SysErrorView),
    ArithmeticOverflow,
}

impl View for MatchError {
    type V = MatchErrView;

    open spec fn view(&self) -> MatchErrView {
        match self {
            MatchError::Fill(e) => MatchErrView::Fill(*e),
            MatchError::Tick(e) => MatchErrView::Tick(*e),
            MatchError::OrderSystem(e) => MatchErrView::OrderSystem(e@),
            MatchError::ArithmeticOverflow => MatchErrView::ArithmeticOverflow,
        }
    }
}

/// Reports produced while matching one market event.
#[derive(Debug, PartialEq, Eq)]
pub struct MatchResult {
    /// `New` reports emitted when pending orders first become live.
    pub acknowledged_reports: Vec<ExecutionReport>,
    /// Fill applications made while processing the event.
    pub applied_fills: Vec<AppliedFill>,
}

pub open spec fn applied_views(s: Seq<AppliedFill>) -> Seq<AppliedView> {
    s.map_values(|a: AppliedFill| applied_view(a))
}

/// One market event with the configuration of the matcher processing it.
#[derive(Clone, Copy)]
pub enum MarketEvent {
    Bar(BarPrices, BarMatcherConfig),
    Tick(Tick, TickMatcherConfig),
}

pub open spec fn event_time(ev: MarketEvent) -> Timestamp {
    match ev {
        MarketEvent::Bar(p, _) => p.time,
        MarketEvent::Tick(t, _) => t.time,
    }
}

pub open spec fn event_allows_same(ev: MarketEvent) -> bool {
    match ev {
        MarketEvent::Bar(_, c) => c.allow_same_bar_fill,
        MarketEvent::Tick(_, c) => c.allow_same_tick_fill,
    }
}

/// Execution price of order `o` on event `ev`, if it executes, and the set
/// of triggered stop-limit orders afterwards. On a bar a stop-limit
/// triggered intrabar waits for the next bar; a gap through the stop at the
/// open triggers and may fill at once. On a tick a stop-limit may trigger
/// and fill together.
pub open spec fn order_price(ev: MarketEvent, trig: Seq<OrderId>, o: OrderView) -> (Seq<OrderId>, Option<Dec>) {
    match ev {
        MarketEvent::Bar(p, c) => match o.order_type {
            OrderType::Market => (trig, Some(if c.market_fill_price == BarMarketFillPrice::Open { p.open } else { p.close })),
            OrderType::Limit => (trig, bar_limit_price(o.side, o.limit_price.unwrap(), p, c.price_trigger)),
            OrderType::Stop => (trig, bar_stop_price(o.side, o.stop_price.unwrap(), p, c.price_trigger)),
            OrderType::StopLimit => if trig.contains(o.id) {
                (trig, bar_limit_price(o.side, o.limit_price.unwrap(), p, c.price_trigger))
            } else if stop_at_open(o.side, o.stop_price.unwrap(), p.open) {
                (trig.push(o.id), bar_limit_price(o.side, o.limit_price.unwrap(), p, c.price_trigger))
            } else if stop_intrabar(o.side, o.stop_price.unwrap(), p, c.price_trigger) {
                (trig.push(o.id), None)
            } else {
                (trig, None)
            },
        },
        MarketEvent::Tick(t, c) => match o.order_type {
            OrderType::Market => (trig, Some(if o.side == OrderSide::Buy { t.ask } else { t.bid })),
            OrderType::Limit => (trig, tick_limit_price(o.side, o.limit_price.unwrap(), t, c.price_trigger)),
            OrderType::Stop => (trig, tick_stop_price(o.side, o.stop_price.unwrap(), t, c.price_trigger)),
            OrderType::StopLimit => if trig.contains(o.id) {
                (trig, tick_limit_price(o.side, o.limit_price.unwrap(), t, c.price_trigger))
            } else if stop_on_tick(o.side, o.stop_price.unwrap(), t, c.price_trigger) {
                (trig.push(o.id), tick_limit_price(o.side, o.limit_price.unwrap(), t, c.price_trigger))
            } else {
                (trig, None)
            },
        },
    }
}

/// `ids` without `id`.
pub open spec fn without(ids: Seq<OrderId>, id: OrderId) -> Seq<OrderId>
    decreases ids.len(),
{
    if ids.len() == 0 {
        Seq::empty()
    } else if ids.last() == id {
        without(ids.drop_last(), id)
    } else {
        without(ids.drop_last(), id).push(ids.last())
    }
}

/// Triggered stop-limit orders that are still live stop-limit orders of `s`.
pub open spec fn cleanup(ids: Seq<OrderId>, s: OrderSystemView) -> Seq<OrderId>
    decreases ids.len(),
{
    if ids.len() == 0 {
        Seq::empty()
    } else {
        let t = tracked_of(s, ids.last());
        let keep = t is Some && !is_terminal(t.unwrap().order.status) && t.unwrap().order.order_type == OrderType::StopLimit;
        if keep {
            cleanup(ids.drop_last(), s).push(ids.last())
        } else {
            cleanup(ids.drop_last(), s)
        }
    }
}

/// Identifier of the next fill a matcher builds: one above the largest
/// applied fill identifier (fills are kept in identifier order), or 1;
/// `None` when that would pass `u64::MAX`.
pub open spec fn next_fill_of(s: OrderSystemView) -> Option<u64> {
    if s.fills.len() == 0 {
        Some(1)
    } else if s.fills.last().id.0 == u64::MAX {
        None
    } else {
        Some((s.fills.last().id.0 + 1) as u64)
    }
}

/// Positions of the live orders, in order.
pub open spec fn live_positions(orders: Seq<TrackedView>) -> Seq<usize>
    decreases orders.len(),
{
    if orders.len() == 0 {
        Seq::empty()
    } else if !is_terminal(orders.last().order.status) {
        live_positions(orders.drop_last()).push((orders.len() - 1) as usize)
    } else {
        live_positions(orders.drop_last())
    }
}

/// Order `a` is processed before `b`: earlier submission, then lower id.
pub open spec fn processed_before(a: OrderView, b: OrderView) -> bool {
    a.submitted_at < b.submitted_at || (a.submitted_at == b.submitted_at && a.id.0 < b.id.0)
}

/// `cands` are the live orders of `orders`, each once, sorted by
/// submission time and then identifier.
pub open spec fn candidates(orders: Seq<TrackedView>, cands: Seq<OrderView>) -> bool {
    exists|idx: Seq<usize>|
        #![trigger idx.to_set()]
        idx.len() == live_positions(orders).len() && idx.no_duplicates() && idx.to_set() == live_positions(orders).to_set()
            && cands.len() == idx.len()
            && (forall|m: int| 0 <= m < idx.len() ==> idx[m] < orders.len() && #[trigger] cands[m] == orders[idx[m] as int].order)
            && (forall|a: int, b: int| 0 <= a < b < cands.len() ==> !processed_before(#[trigger] cands[b], #[trigger] cands[a]))
}

/// Processing key of the order at each position: submission time, then
/// identifier.
pub open spec fn processing_keys(orders: Seq<TrackedView>) -> Seq<SortKey> {
    Seq::new(
        orders.len(),
        |i: int| SortKey { primary: Dec::from_repr((0, 0)), opened_at: orders[i].order.submitted_at, id: orders[i].order.id.0 },
    )
}

/// Live orders are processed in a single order: by submission time, then
/// by identifier (identifiers never repeat).
pub proof fn law_candidate_order_is_unique(s: OrderSystemView, c1: Seq<OrderView>, c2: Seq<OrderView>)
    requires
        system_valid(s),
        candidates(s.orders, c1),
        candidates(s.orders, c2),
    ensures
        c1 == c2,
{
    let orders = s.orders;
    let keys = processing_keys(orders);
    let lp = live_positions(orders);
    let i1 = choose|idx: Seq<usize>|
        #![trigger idx.to_set()]
        idx.len() == lp.len() && idx.no_duplicates() && idx.to_set() == lp.to_set() && c1.len() == idx.len()
            && (forall|m: int| 0 <= m < idx.len() ==> idx[m] < orders.len() && #[trigger] c1[m] == orders[idx[m] as int].order)
            && (forall|a: int, b: int| 0 <= a < b < c1.len() ==> !processed_before(#[trigger] c1[b], #[trigger] c1[a]));
    let i2 = choose|idx: Seq<usize>|
        #![trigger idx.to_set()]
        idx.len() == lp.len() && idx.no_duplicates() && idx.to_set() == lp.to_set() && c2.len() == idx.len()
            && (forall|m: int| 0 <= m < idx.len() ==> idx[m] < orders.len() && #[trigger] c2[m] == orders[idx[m] as int].order)
            && (forall|a: int, b: int| 0 <= a < b < c2.len() ==> !processed_before(#[trigger] c2[b], #[trigger] c2[a]));
    assert forall|x: usize| i1.contains(x) <==> i2.contains(x) by {
        assert(i1.to_set().contains(x) == i1.contains(x));
        assert(i2.to_set().contains(x) == i2.contains(x));
        assert(lp.to_set().contains(x) == lp.contains(x));
    }
    assert forall|k: int| 0 <= k < i1.len() implies (#[trigger] i1[k] as int) < keys.len() by {
        assert(c1[k] == orders[i1[k] as int].order);
    }
    assert forall|x: int, y: int| 0 <= x < keys.len() && 0 <= y < keys.len() && x != y implies #[trigger] keys[x].id
        != #[trigger] keys[y].id by {
        if x < y {
            assert(orders[x].order.id.0 < orders[y].order.id.0);
        } else {
            assert(orders[y].order.id.0 < orders[x].order.id.0);
        }
    }
    assert forall|a: int, b: int| 0 <= a < b < i1.len() implies !key_before(keys[#[trigger] i1[b] as int], keys[#[trigger] i1[a] as int], false, false) by {
        assert(c1[a] == orders[i1[a] as int].order && c1[b] == orders[i1[b] as int].order);
        assert(!processed_before(c1[b], c1[a]));
    }
    assert forall|a: int, b: int| 0 <= a < b < i2.len() implies !key_before(keys[#[trigger] i2[b] as int], keys[#[trigger] i2[a] as int], false, false) by {
        assert(c2[a] == orders[i2[a] as int].order && c2[b] == orders[i2[b] as int].order);
        assert(!processed_before(c2[b], c2[a]));
    }
    lemma_sorted_order_unique(i1, i2, keys, false, false);
    assert(c1 =~= c2) by {
        assert forall|m: int| 0 <= m < c1.len() implies c1[m] == c2[m] by {
            assert(c1[m] == orders[i1[m] as int].order);
            assert(c2[m] == orders[i2[m] as int].order);
        }
    }
}

/// State of a matching run: triggered stop-limits, the order system, the
/// reports and fill applications so far, and the next fill identifier.
pub struct RunState {
    pub trig: Seq<OrderId>,
    pub sys: OrderSystemView,
    pub acks: Seq<ExecutionReportView>,
    pub fills: Seq<AppliedView>,
    pub next_fill: u64,
}

/// The fill a matcher builds for order `o` at price `px` with identifier `id`:
/// the whole leaves quantity, no fees.
pub open spec fn built_fill(o: OrderView, id: u64, t: Timestamp, px: Dec) -> FillView {
    FillView {
        id: FillId(id),
        order_id: o.id,
        symbol: o.symbol,
        order_side: o.side,
        position_effect: o.position_effect,
        executed_at: t,
        qty: leaves_of(o),
        price: px,
        fees: zero_dec(),
        liquidity: FillLiquidity::Unknown,
        venue_execution_id: None,
        venue_order_id: None,
    }
}

/// Processing candidates from position `k` on, from state `st`, can end in
/// state `end` with error `out` (none for success). Each eligible order is
/// acknowledged when pending (an order still waiting on a reversal close
/// order is skipped), priced, and, when it executes, filled for its whole
/// leaves quantity through the order system; a fill refused because the
/// order is not active is skipped, any other error stops the run.
pub open spec fn run(ev: MarketEvent, cands: Seq<OrderView>, k: int, st: RunState, end: RunState, out: Option<MatchErrView>) -> bool
    decreases cands.len() - k, 3int,
{
    if k < 0 || k >= cands.len() {
        end == st && out is None
    } else {
        let o = cands[k];
        if !eligible(o.submitted_at, event_time(ev), event_allows_same(ev)) {
            run(ev, cands, k + 1, st, end, out)
        } else if o.status == OrderStatus::Pending {
            let (sa, ra) = acknowledge_outcome(st.sys, o.id, event_time(ev));
            match ra {
                Ok(rep) => price_step(ev, cands, k, RunState { sys: sa, acks: st.acks.push(rep), ..st }, end, out),
                Err(SysErrorView::OrderNotActive { .. }) => run(ev, cands, k + 1, RunState { sys: sa, ..st }, end, out),
                Err(e) => end == (RunState { sys: sa, ..st }) && out == Some(MatchErrView::OrderSystem(e)),
            }
        } else {
            price_step(ev, cands, k, st, end, out)
        }
    }
}

/// `st` with triggered stop-limits `trig`.
pub open spec fn with_trig(st: RunState, trig: Seq<OrderId>) -> RunState {
    RunState { trig, ..st }
}

/// The pricing and filling part of [`run`] for the candidate at `k`.
pub open spec fn price_step(ev: MarketEvent, cands: Seq<OrderView>, k: int, st: RunState, end: RunState, out: Option<MatchErrView>) -> bool
    decreases cands.len() - k, 2int,
{
    if k < 0 || k >= cands.len() {
        false
    } else {
        match order_price(ev, st.trig, cands[k]).1 {
            None => run(ev, cands, k + 1, with_trig(st, order_price(ev, st.trig, cands[k]).0), end, out),
            Some(px) => match fill_input_error(cands[k].symbol, leaves_of(cands[k]), px, zero_dec()) {
                Some(fe) => end == with_trig(st, order_price(ev, st.trig, cands[k]).0) && out == Some(MatchErrView::Fill(fe)),
                None => if st.next_fill == u64::MAX {
                    end == with_trig(st, order_price(ev, st.trig, cands[k]).0) && out == Some(MatchErrView::ArithmeticOverflow)
                } else {
                    fill_exists(ev, cands, k, st, px, end, out)
                },
            },
        }
    }
}

/// The order system can answer the fill of candidate `k` at price `px` so
/// that the run continues to `end` and `out`.
pub open spec fn fill_exists(ev: MarketEvent, cands: Seq<OrderView>, k: int, st: RunState, px: Dec, end: RunState, out: Option<MatchErrView>) -> bool
    decreases cands.len() - k, 1int,
{
    if k < 0 || k >= cands.len() {
        false
    } else {
        exists|s2: OrderSystemView, ra: Result<AppliedView, SysErrorView>|
            #[trigger] fill_outcome(st.sys, built_fill(cands[k], st.next_fill, event_time(ev), px), s2, ra)
                && fill_step(ev, cands, k, with_trig(st, order_price(ev, st.trig, cands[k]).0), s2, ra, end, out)
    }
}

/// After the order system answered a fill with `s2` and `ra`.
pub open spec fn fill_step(
    ev: MarketEvent,
    cands: Seq<OrderView>,
    k: int,
    st1: RunState,
    s2: OrderSystemView,
    ra: Result<AppliedView, SysErrorView>,
    end: RunState,
    out: Option<MatchErrView>,
) -> bool
    decreases cands.len() - k, 0int,
{
    if k < 0 || k >= cands.len() || st1.next_fill == u64::MAX {
        false
    } else {
        let nf = (st1.next_fill + 1) as u64;
        match ra {
            Ok(af) => run(ev, cands, k + 1, RunState { trig: without(st1.trig, cands[k].id), sys: s2, fills: st1.fills.push(af), next_fill: nf, ..st1 }, end, out),
            Err(SysErrorView::OrderNotActive { .. }) => run(ev, cands, k + 1, RunState { sys: s2, next_fill: nf, ..st1 }, end, out),
            Err(e) => end == (RunState { sys: s2, next_fill: nf, ..st1 }) && out == Some(MatchErrView::OrderSystem(e)),
        }
    }
}

/// The state a run starts from.
pub open spec fn start_state(trig: Seq<OrderId>, s: OrderSystemView, nf: u64) -> RunState {
    RunState { trig, sys: s, acks: Seq::empty(), fills: Seq::empty(), next_fill: nf }
}

/// `trig1`, `s1` and `r` are the triggered set, system and result a run
/// `end`, `out` leaves.
pub open spec fn run_result(
    end: RunState,
    out: Option<MatchErrView>,
    trig1: Seq<OrderId>,
    s1: OrderSystemView,
    r: Result<(Seq<ExecutionReportView>, Seq<AppliedView>), MatchErrView>,
) -> bool {
    &&& trig1 == end.trig
    &&& s1 == end.sys
    &&& r == match out {
        None => Ok::<(Seq<ExecutionReportView>, Seq<AppliedView>), MatchErrView>((end.acks, end.fills)),
        Some(e) => Err(e),
    }
}

/// Outcome of processing event `ev` with triggered stop-limits `trig0` on
/// system `s0`: stale triggers are dropped, the next fill identifier is
/// computed, then the live orders are processed in candidate order.
pub open spec fn event_outcome(
    ev: MarketEvent,
    trig0: Seq<OrderId>,
    s0: OrderSystemView,
    trig1: Seq<OrderId>,
    s1: OrderSystemView,
    r: Result<(Seq<ExecutionReportView>, Seq<AppliedView>), MatchErrView>,
) -> bool {
    match next_fill_of(s0) {
        None => trig1 == cleanup(trig0, s0) && s1 == s0 && r == Err::<(Seq<ExecutionReportView>, Seq<AppliedView>), MatchErrView>(MatchErrView::ArithmeticOverflow),
        Some(nf) => exists|cands: Seq<OrderView>, end: RunState, out: Option<MatchErrView>|
            candidates(s0.orders, cands) && #[trigger] run(ev, cands, 0, start_state(cleanup(trig0, s0), s0, nf), end, out)
                && run_result(end, out, trig1, s1, r),
    }
}

/// A fill answered by the order system continues a run from its pricing step.
pub proof fn lemma_price_fill(
    ev: MarketEvent,
    cands: Seq<OrderView>,
    k: int,
    st: RunState,
    s2: OrderSystemView,
    ra: Result<AppliedView, SysErrorView>,
    end: RunState,
    out: Option<MatchErrView>,
)
    requires
        0 <= k < cands.len(),
        order_price(ev, st.trig, cands[k]).1 is Some,
        fill_input_error(cands[k].symbol, leaves_of(cands[k]), order_price(ev, st.trig, cands[k]).1.unwrap(), zero_dec()) is None,
        st.next_fill != u64::MAX,
        fill_outcome(st.sys, built_fill(cands[k], st.next_fill, event_time(ev), order_price(ev, st.trig, cands[k]).1.unwrap()), s2, ra),
        fill_step(ev, cands, k, with_trig(st, order_price(ev, st.trig, cands[k]).0), s2, ra, end, out),
    ensures
        price_step(ev, cands, k, st, end, out),
{
    let px = order_price(ev, st.trig, cands[k]).1->Some_0;
    assert(fill_outcome(st.sys, built_fill(cands[k], st.next_fill, event_time(ev), px), s2, ra));
    assert(fill_exists(ev, cands, k, st, px, end, out));
}

/// `px` is at `limit` or better for an order on `side`: no higher for a
/// buy, no lower for a sell.
pub open spec fn at_or_better(side: OrderSide, px: Dec, limit: Dec) -> bool {
    match side {
        OrderSide::Buy => px.value() <= limit.value(),
        OrderSide::Sell => px.value() >= limit.value(),
    }
}

/// A limit order executes only at its limit price or better, on bars and
/// on ticks, whatever the trigger mode.
pub proof fn law_limit_fills_at_limit_or_better(side: OrderSide, limit: Dec, p: BarPrices, t: Tick, trigger: PriceTrigger)
    ensures
        bar_limit_price(side, limit, p, trigger) matches Some(px) ==> at_or_better(side, px, limit),
        tick_limit_price(side, limit, t, trigger) matches Some(px) ==> at_or_better(side, px, limit),
{
}

/// On a bar, a stop-limit order whose stop is reached only intrabar is
/// triggered but does not execute on that bar; from the next bar on it is
/// priced as a limit order.
pub proof fn law_intrabar_stop_limit_waits_for_next_bar(
    p: BarPrices,
    c: BarMatcherConfig,
    next: BarPrices,
    c2: BarMatcherConfig,
    trig: Seq<OrderId>,
    o: OrderView,
)
    requires
        o.order_type == OrderType::StopLimit,
        !trig.contains(o.id),
        !stop_at_open(o.side, o.stop_price.unwrap(), p.open),
        stop_intrabar(o.side, o.stop_price.unwrap(), p, c.price_trigger),
    ensures
        order_price(MarketEvent::Bar(p, c), trig, o) == (trig.push(o.id), None::<Dec>),
        order_price(MarketEvent::Bar(next, c2), trig.push(o.id), o)
            == (trig.push(o.id), bar_limit_price(o.side, o.limit_price.unwrap(), next, c2.price_trigger)),
{
    assert(trig.push(o.id).contains(o.id)) by {
        assert(trig.push(o.id)[trig.len() as int] == o.id);
    }
}

/// On a bar that opens at or through the stop of a stop-limit order, the
/// order triggers and may execute on that same bar as a limit order.
pub proof fn law_gap_through_stop_limit_fills_at_once(p: BarPrices, c: BarMatcherConfig, trig: Seq<OrderId>, o: OrderView)
    requires
        o.order_type == OrderType::StopLimit,
        !trig.contains(o.id),
        stop_at_open(o.side, o.stop_price.unwrap(), p.open),
    ensures
        order_price(MarketEvent::Bar(p, c), trig, o)
            == (trig.push(o.id), bar_limit_price(o.side, o.limit_price.unwrap(), p, c.price_trigger)),
{
}

/// On a tick, a stop-limit order whose stop is reached triggers and is
/// priced as a limit order on that same tick.
pub proof fn law_tick_stop_limit_triggers_and_fills_together(t: Tick, c: TickMatcherConfig, trig: Seq<OrderId>, o: OrderView)
    requires
        o.order_type == OrderType::StopLimit,
        !trig.contains(o.id),
        stop_on_tick(o.side, o.stop_price.unwrap(), t, c.price_trigger),
    ensures
        order_price(MarketEvent::Tick(t, c), trig, o)
            == (trig.push(o.id), tick_limit_price(o.side, o.limit_price.unwrap(), t, c.price_trigger)),
{
}

/// A stop order on a bar executes exactly when the bar reaches the stop:
/// a buy stop when the bar opens at or above it or its high reaches it (a
/// touch, or a move strictly through it, as the trigger mode asks), a sell
/// stop likewise with the open and the low. It then fills at the open when
/// the bar gaps through the stop, otherwise at the stop itself; so a buy
/// never fills below its stop and a sell never above it.
pub proof fn law_bar_stop_follows_the_range(side: OrderSide, stop: Dec, p: BarPrices, trigger: PriceTrigger)
    ensures
        side == OrderSide::Buy && p.open.value() >= stop.value() ==> bar_stop_price(side, stop, p, trigger) == Some(p.open),
        side == OrderSide::Buy && p.open.value() < stop.value() && (p.high.value() > stop.value() || (trigger
            == PriceTrigger::Touch && p.high.value() == stop.value())) ==> bar_stop_price(side, stop, p, trigger) == Some(stop),
        side == OrderSide::Buy && p.open.value() < stop.value() && (p.high.value() < stop.value() || (trigger
            == PriceTrigger::TradeThrough && p.high.value() == stop.value())) ==> bar_stop_price(side, stop, p, trigger) is None,
        side == OrderSide::Sell && p.open.value() <= stop.value() ==> bar_stop_price(side, stop, p, trigger) == Some(p.open),
        side == OrderSide::Sell && p.open.value() > stop.value() && (p.low.value() < stop.value() || (trigger
            == PriceTrigger::Touch && p.low.value() == stop.value())) ==> bar_stop_price(side, stop, p, trigger) == Some(stop),
        side == OrderSide::Sell && p.open.value() > stop.value() && (p.low.value() > stop.value() || (trigger
            == PriceTrigger::TradeThrough && p.low.value() == stop.value())) ==> bar_stop_price(side, stop, p, trigger) is None,
        bar_stop_price(side, stop, p, trigger) matches Some(px) ==> (side == OrderSide::Buy ==> px.value() >= stop.value())
            && (side == OrderSide::Sell ==> px.value() <= stop.value()),
{
}

/// On a tick a market order takes the touched side of the book: a buy pays
/// the ask and a sell receives the bid, whatever the triggered stop-limits.
pub proof fn law_tick_market_order_takes_the_book(t: Tick, c: TickMatcherConfig, trig: Seq<OrderId>, o: OrderView)
    requires
        o.order_type == OrderType::Market,
    ensures
        o.side == OrderSide::Buy ==> order_price(MarketEvent::Tick(t, c), trig, o) == (trig, Some(t.ask)),
        o.side == OrderSide::Sell ==> order_price(MarketEvent::Tick(t, c), trig, o) == (trig, Some(t.bid)),
{
}

/// On a bar a market order fills at the bar's open or close, as the
/// configuration chooses, whatever its side.
pub proof fn law_bar_market_order_fills_at_configured_price(p: BarPrices, c: BarMatcherConfig, trig: Seq<OrderId>, o: OrderView)
    requires
        o.order_type == OrderType::Market,
    ensures
        c.market_fill_price == BarMarketFillPrice::Open ==> order_price(MarketEvent::Bar(p, c), trig, o) == (trig, Some(p.open)),
        c.market_fill_price == BarMarketFillPrice::Close ==> order_price(MarketEvent::Bar(p, c), trig, o) == (trig, Some(p.close)),
{
}

/// A stop order on a bar is priced by [`law_bar_stop_follows_the_range`]'s
/// rule, whatever the triggered stop-limits.
pub proof fn law_bar_stop_order_price(p: BarPrices, c: BarMatcherConfig, trig: Seq<OrderId>, o: OrderView)
    requires
        o.order_type == OrderType::Stop,
    ensures
        order_price(MarketEvent::Bar(p, c), trig, o) == (trig, bar_stop_price(o.side, o.stop_price.unwrap(), p, c.price_trigger)),
{
}

pub open spec fn order_views(s: Seq<Order>) -> Seq<OrderView> {
    s.map_values(|o: Order| o@)
}

/// Drops the triggered stop-limits that are no longer live stop-limit orders.
fn cleanup_triggered_stop_limits(triggered: &mut Vec<OrderId>, system: &OrderSystem)
    ensures
        final(triggered)@ == cleanup(old(triggered)@, system@),
{
    let ghost ids = triggered@;
    let mut kept: Vec<OrderId> = Vec::new();
    let mut i: usize = 0;
    assert(ids.take(0) =~= Seq::<OrderId>::empty());
    while i < triggered.len()
        invariant
            i <= triggered.len(),
            ids == triggered@,
            kept@ == cleanup(ids.take(i as int), system@),
        decreases triggered.len() - i,
    {
        assert(ids.take(i + 1).drop_last() =~= ids.take(i as int));
        let id = triggered[i];
        let keep = match system.order(id) {
            Some(o) => is_live_status(o.status()) && o.order_type() == OrderType::StopLimit,
            None => false,
        };
        if keep {
            kept.push(id);
        }
        i += 1;
    }
    assert(ids.take(triggered.len() as int) =~= ids);
    *triggered = kept;
}

/// The live orders of the system, sorted by submission time and then
/// identifier.
fn collect_live_orders(system: &OrderSystem) -> (r: Vec<Order>)
    ensures
        candidates(system@.orders, order_views(r@)),
{
    let ghost tv = system@.orders;
    let orders = system.orders();
    let mut live: Vec<usize> = Vec::new();
    let mut keys: Vec<SortKey> = Vec::new();
    let mut i: usize = 0;
    assert(tv.take(0) =~= Seq::<TrackedView>::empty());
    while i < orders.len()
        invariant
            i <= orders.len(),
            orders.len() == tv.len(),
            forall|m: int| 0 <= m < orders.len() ==> (#[trigger] orders@[m])@ == tv[m].order,
            live@ == live_positions(tv.take(i as int)),
            forall|m: int| 0 <= m < live.len() ==> #[trigger] live@[m] < i,
            forall|a: int, b: int| 0 <= a < b < live.len() ==> #[trigger] live@[a] < #[trigger] live@[b],
            keys.len() == i,
            forall|m: int| 0 <= m < i ==> (#[trigger] keys@[m]) == (SortKey {
                primary: zero_dec(),
                opened_at: tv[m].order.submitted_at,
                id: tv[m].order.id.0,
            }),
        decreases orders.len() - i,
    {
        assert(tv.take(i + 1).drop_last() =~= tv.take(i as int));
        assert(tv.take(i + 1).last() == tv[i as int]);
        let o = orders[i];
        if is_live_status(o.status()) {
            live.push(i);
        }
        proof {
            crate::decimal::lemma_repr_zero();
        }
        keys.push(SortKey { primary: Dec::zero(), opened_at: o.submitted_at(), id: o.id().value() });
        i += 1;
    }
    assert(tv.take(orders.len() as int) =~= tv);
    assert(live@.no_duplicates()) by {
        assert forall|a: int, b: int| 0 <= a < b < live@.len() implies live@[a] != live@[b] by {
            assert(live@[a] < live@[b]);
        }
    }
    let sorted = sort_indices(&live, &keys, false, false);
    let mut out: Vec<Order> = Vec::new();
    let mut j: usize = 0;
    while j < sorted.len()
        invariant
            j <= sorted.len(),
            forall|m: int| 0 <= m < sorted.len() ==> #[trigger] sorted@[m] < keys.len(),
            keys.len() == orders.len(),
            orders.len() == tv.len(),
            forall|m: int| 0 <= m < orders.len() ==> (#[trigger] orders@[m])@ == tv[m].order,
            out.len() == j,
            forall|m: int| 0 <= m < j ==> (#[trigger] order_views(out@)[m]) == tv[sorted@[m] as int].order,
        decreases sorted.len() - j,
    {
        let ghost before = out@;
        let copy = orders[sorted[j]].duplicate();
        out.push(copy);
        assert(order_views(out@) =~= order_views(before).push(copy@));
        j += 1;
    }
    proof {
        let cands = order_views(out@);
        let idx = sorted@;
        assert(idx.to_set() == live@.to_set());
        assert forall|a: int, b: int| 0 <= a < b < cands.len() implies !processed_before(#[trigger] cands[b], #[trigger] cands[a]) by {
            assert(!key_before(keys@[idx[b] as int], keys@[idx[a] as int], false, false));
        }
        assert(forall|m: int| 0 <= m < idx.len() ==> idx[m] < tv.len() && #[trigger] cands[m] == tv[idx[m] as int].order);
        assert(candidates(tv, cands));
    }
    out
}

/// Identifier of the next fill to build: one above the largest applied
/// fill identifier, or 1; `None` when that would pass `u64::MAX`.
fn next_fill_value(system: &OrderSystem) -> (r: Option<u64>)
    ensures
        r == next_fill_of(system@),
{
    let fills = system.fills();
    if fills.len() == 0 {
        return Some(1);
    }
    let last = fills[fills.len() - 1].id().value();
    if last == u64::MAX {
        None
    } else {
        Some(last + 1)
    }
}

/// Execution price of `order` on `ev`, updating the triggered stop-limits.
fn match_order(ev: &MarketEvent, triggered: &mut Vec<OrderId>, order: &Order) -> (r: Option<Dec>)
    ensures
        (final(triggered)@, r) == order_price(*ev, old(triggered)@, order@),
{
    order.lemma_valid();
    let side = order.side();
    match ev {
        MarketEvent::Bar(prices, config) => match order.order_type() {
            OrderType::Market => Some(
                match config.market_fill_price {
                    BarMarketFillPrice::Open => prices.open,
                    BarMarketFillPrice::Close => prices.close,
                },
            ),
            OrderType::Limit => match_bar_limit(side, order.limit_price().unwrap(), prices, config.price_trigger),
            OrderType::Stop => match_bar_stop(side, order.stop_price().unwrap(), prices, config.price_trigger),
            OrderType::StopLimit => {
                let stop_price = order.stop_price().unwrap();
                let limit_price = order.limit_price().unwrap();
                if contains_id(triggered, order.id()) {
                    return match_bar_limit(side, limit_price, prices, config.price_trigger);
                }
                if stop_triggers_at_open(side, stop_price, prices.open) {
                    triggered.push(order.id());
                    return match_bar_limit(side, limit_price, prices, config.price_trigger);
                }
                if stop_triggers_intrabar(side, stop_price, prices, config.price_trigger) {
                    triggered.push(order.id());
                }
                None
            },
        },
        MarketEvent::Tick(tick, config) => match order.order_type() {
            OrderType::Market => Some(
                match side {
                    OrderSide::Buy => tick.ask,
                    OrderSide::Sell => tick.bid,
                },
            ),
            OrderType::Limit => match_tick_limit(side, order.limit_price().unwrap(), tick, config.price_trigger),
            OrderType::Stop => match_tick_stop(side, order.stop_price().unwrap(), tick, config.price_trigger),
            OrderType::StopLimit => {
                let stop_price = order.stop_price().unwrap();
                let limit_price = order.limit_price().unwrap();
                if contains_id(triggered, order.id()) {
                    return match_tick_limit(side, limit_price, tick, config.price_trigger);
                }
                if stop_triggers_on_tick(side, stop_price, tick, config.price_trigger) {
                    triggered.push(order.id());
                    return match_tick_limit(side, limit_price, tick, config.price_trigger);
                }
                None
            },
        },
    }
}

/// The fill a matcher builds for `order` at `price`: the whole leaves
/// quantity, identifier `fill_id`, executed at `time`, without fees.
fn build_fill(order: &Order, fill_id: u64, time: Timestamp, price: Dec) -> (r: Result<Fill, FillError>)
    ensures
        fill_input_error(order@.symbol, leaves_of(order@), price, zero_dec()) matches Some(e) ==> r == Err::<Fill, FillError>(e),
        fill_input_error(order@.symbol, leaves_of(order@), price, zero_dec()) is None ==> r is Ok && r.unwrap()@ == built_fill(order@, fill_id, time, price),
{
    proof {
        crate::decimal::lemma_repr_zero();
    }
    Fill::new(
        FillId::new(fill_id),
        order.id(),
        order.symbol(),
        order.side(),
        order.position_effect(),
        time,
        order.leaves_qty(),
        price,
        Dec::zero(),
    )
}

/// Whether `ids` holds `id`.
fn contains_id(ids: &Vec<OrderId>, id: OrderId) -> (r: bool)
    ensures
        r == ids@.contains(id),
{
    let mut i: usize = 0;
    while i < ids.len()
        invariant
            i <= ids.len(),
            forall|m: int| 0 <= m < i ==> ids@[m] != id,
        decreases ids.len() - i,
    {
        if ids[i] == id {
            assert(ids@[i as int] == id);
            return true;
        }
        i += 1;
    }
    false
}

/// Removes `id` from `ids`.
fn remove_id(ids: &mut Vec<OrderId>, id: OrderId)
    ensures
        final(ids)@ == without(old(ids)@, id),
{
    let ghost src = ids@;
    let mut kept: Vec<OrderId> = Vec::new();
    let mut i: usize = 0;
    assert(src.take(0) =~= Seq::<OrderId>::empty());
    while i < ids.len()
        invariant
            i <= ids.len(),
            src == ids@,
            kept@ == without(src.take(i as int), id),
        decreases ids.len() - i,
    {
        assert(src.take(i + 1).drop_last() =~= src.take(i as int));
        if ids[i] != id {
            kept.push(ids[i]);
        }
        i += 1;
    }
    assert(src.take(ids.len() as int) =~= src);
    *ids = kept;
}

pub open spec fn run_state(trig: Seq<OrderId>, sys: OrderSystemView, acks: Seq<ExecutionReport>, fills: Seq<AppliedFill>, nf: u64) -> RunState {
    RunState { trig, sys, acks: report_views(acks), fills: applied_views(fills), next_fill: nf }
}

/// Processes one market event: drops stale stop-limit triggers, then
/// acknowledges, prices and fills the eligible live orders in candidate order.
fn process_event(ev: MarketEvent, triggered: &mut Vec<OrderId>, system: &mut OrderSystem) -> (r: Result<MatchResult, MatchError>)
    ensures
        event_outcome(
            ev,
            old(triggered)@,
            old(system)@,
            final(triggered)@,
            final(system)@,
            match r {
                Ok(m) => Ok((report_views(m.acknowledged_reports@), applied_views(m.applied_fills@))),
                Err(e) => Err(e@),
            },
        ),
{
    let ghost s0 = system@;
    cleanup_triggered_stop_limits(triggered, system);
    let ghost t0 = triggered@;
    let candidates_list = collect_live_orders(system);
    let ghost cv = order_views(candidates_list@);
    let mut nf = match next_fill_value(system) {
        Some(v) => v,
        None => return Err(MatchError::ArithmeticOverflow),
    };
    let ghost st0 = start_state(t0, s0, nf);
    let time = match ev {
        MarketEvent::Bar(p, _) => p.time,
        MarketEvent::Tick(t, _) => t.time,
    };
    let allow_same = match ev {
        MarketEvent::Bar(_, c) => c.allow_same_bar_fill,
        MarketEvent::Tick(_, c) => c.allow_same_tick_fill,
    };
    let mut acks: Vec<ExecutionReport> = Vec::new();
    let mut fills: Vec<AppliedFill> = Vec::new();
    assert(report_views(acks@) =~= Seq::<ExecutionReportView>::empty());
    assert(applied_views(fills@) =~= Seq::<AppliedView>::empty());
    let mut k: usize = 0;
    while k < candidates_list.len()
        invariant
            k <= candidates_list.len(),
            cv == order_views(candidates_list@),
            candidates(s0.orders, cv),
            time == event_time(ev),
            allow_same == event_allows_same(ev),
            t0 == cleanup(old(triggered)@, s0),
            s0 == old(system)@,
            st0 == start_state(t0, s0, st0.next_fill),
            next_fill_of(s0) == Some(st0.next_fill),
            forall|e: RunState, o: Option<MatchErrView>|
                #[trigger] run(ev, cv, k as int, run_state(triggered@, system@, acks@, fills@, nf), e, o) ==> run(ev, cv, 0, st0, e, o),
        decreases candidates_list.len() - k,
    {
        let ghost cur = run_state(triggered@, system@, acks@, fills@, nf);
        let order = &candidates_list[k];
        assert(cv[k as int] == order@);
        if !is_event_eligible(order.submitted_at(), time, allow_same) {
            assert forall|e: RunState, o: Option<MatchErrView>|
                #[trigger] run(ev, cv, k + 1, cur, e, o) implies run(ev, cv, k as int, cur, e, o) by {}
            k += 1;
            continue;
        }
        if order.status() == OrderStatus::Pending {
            let ghost sys_before = system@;
            match system.acknowledge_order(order.id(), time) {
                Ok(report) => {
                    let ghost before = acks@;
                    let ghost rv = report@;
                    acks.push(report);
                    assert(report_views(acks@) =~= report_views(before).push(rv));
                },
                Err(OrderSystemError::OrderNotActive { order_id, waiting_on_order_id }) => {
                    assert forall|e: RunState, o: Option<MatchErrView>|
                        #[trigger] run(ev, cv, k + 1, run_state(triggered@, system@, acks@, fills@, nf), e, o) implies run(ev, cv, k as int, cur, e, o) by {}
                    k += 1;
                    continue;
                },
                Err(e) => {
                    let r: Result<MatchResult, MatchError> = Err(MatchError::OrderSystem(e));
                    proof {
                        let end = run_state(triggered@, system@, acks@, fills@, nf);
                        assert(run(ev, cv, k as int, cur, end, Some(MatchErrView::OrderSystem(e@))));
                        assert(run(ev, cv, 0, st0, end, Some(MatchErrView::OrderSystem(e@))));
                        assert(candidates(s0.orders, cv) && run(ev, cv, 0, st0, end, Some(MatchErrView::OrderSystem(e@))));
                    }
                    return r;
                },
            }
        }
        let ghost acked = run_state(triggered@, system@, acks@, fills@, nf);
        proof {
            assert forall|e: RunState, o: Option<MatchErrView>|
                price_step(ev, cv, k as int, acked, e, o) implies run(ev, cv, k as int, cur, e, o) by {}
        }
        let price = match_order(&ev, triggered, order);
        let ghost st1 = run_state(triggered@, system@, acks@, fills@, nf);
        let px = match price {
            Some(p) => p,
            None => {
                assert forall|e: RunState, o: Option<MatchErrView>|
                    #[trigger] run(ev, cv, k + 1, st1, e, o) implies price_step(ev, cv, k as int, acked, e, o) by {}
                k += 1;
                continue;
            },
        };
        let fill = match build_fill(order, nf, time, px) {
            Ok(f) => f,
            Err(e) => {
                let r: Result<MatchResult, MatchError> = Err(MatchError::Fill(e));
                proof {
                    crate::decimal::lemma_repr_zero();
                    assert(st1 == with_trig(acked, order_price(ev, acked.trig, cv[k as int]).0));
                    assert(price_step(ev, cv, k as int, acked, st1, Some(MatchErrView::Fill(e))));
                    assert(run(ev, cv, 0, st0, st1, Some(MatchErrView::Fill(e))));
                    assert(candidates(s0.orders, cv) && run(ev, cv, 0, st0, st1, Some(MatchErrView::Fill(e))));
                }
                return r;
            },
        };
        proof {
            crate::decimal::lemma_repr_zero();
        }
        if nf == u64::MAX {
            let r: Result<MatchResult, MatchError> = Err(MatchError::ArithmeticOverflow);
            proof {
                assert(st1 == with_trig(acked, order_price(ev, acked.trig, cv[k as int]).0));
                assert(price_step(ev, cv, k as int, acked, st1, Some(MatchErrView::ArithmeticOverflow)));
                assert(run(ev, cv, 0, st0, st1, Some(MatchErrView::ArithmeticOverflow)));
                assert(candidates(s0.orders, cv) && run(ev, cv, 0, st0, st1, Some(MatchErrView::ArithmeticOverflow)));
            }
            return r;
        }
        let ghost fv = fill@;
        assert(fv == built_fill(order@, nf, event_time(ev), px));
        assert(st1 == with_trig(acked, order_price(ev, acked.trig, cv[k as int]).0));
        let order_id = order.id();
        let outcome = system.apply_fill(fill);
        let ghost s2 = system@;
        let ghost ra = crate::order_sys::system::applied_result_view(outcome);
        assert(fill_outcome(acked.sys, fv, s2, ra));
        nf = nf + 1;
        match outcome {
            Ok(applied) => {
                remove_id(triggered, order_id);
                let ghost before = fills@;
                let ghost av = applied_view(applied);
                fills.push(applied);
                assert(applied_views(fills@) =~= applied_views(before).push(av));
                proof {
                    assert forall|e: RunState, o: Option<MatchErrView>|
                        #[trigger] run(ev, cv, k + 1, run_state(triggered@, system@, acks@, fills@, nf), e, o) implies price_step(ev, cv, k as int, acked, e, o) by {
                        assert(fill_step(ev, cv, k as int, st1, s2, ra, e, o));
                        lemma_price_fill(ev, cv, k as int, acked, s2, ra, e, o);
                    }
                }
            },
            Err(OrderSystemError::OrderNotActive { order_id: _, waiting_on_order_id: _ }) => {
                proof {
                    assert forall|e: RunState, o: Option<MatchErrView>|
                        #[trigger] run(ev, cv, k + 1, run_state(triggered@, system@, acks@, fills@, nf), e, o) implies price_step(ev, cv, k as int, acked, e, o) by {
                        assert(fill_step(ev, cv, k as int, st1, s2, ra, e, o));
                        lemma_price_fill(ev, cv, k as int, acked, s2, ra, e, o);
                    }
                }
            },
            Err(e) => {
                let r: Result<MatchResult, MatchError> = Err(MatchError::OrderSystem(e));
                proof {
                    let end = run_state(triggered@, system@, acks@, fills@, nf);
                    assert(fill_step(ev, cv, k as int, st1, s2, ra, end, Some(MatchErrView::OrderSystem(e@))));
                    lemma_price_fill(ev, cv, k as int, acked, s2, ra, end, Some(MatchErrView::OrderSystem(e@)));
                    assert(run(ev, cv, 0, st0, end, Some(MatchErrView::OrderSystem(e@))));
                    assert(candidates(s0.orders, cv) && run(ev, cv, 0, st0, end, Some(MatchErrView::OrderSystem(e@))));
                }
                return r;
            },
        }
        k += 1;
    }
    proof {
        let end = run_state(triggered@, system@, acks@, fills@, nf);
        assert(run(ev, cv, k as int, end, end, None));
        assert(run(ev, cv, 0, st0, end, None));
        assert(candidates(s0.orders, cv) && run(ev, cv, 0, st0, end, None));
    }
    Ok(MatchResult { acknowledged_reports: acks, applied_fills: fills })
}

pub open spec fn match_result_view(r: Result<MatchResult, MatchError>) -> Result<(Seq<ExecutionReportView>, Seq<AppliedView>), MatchErrView> {
    match r {
        Ok(m) => Ok((report_views(m.acknowledged_reports@), applied_views(m.applied_fills@))),
        Err(e) => Err(e@),
    }
}

/// OHLC-bar matcher that turns eligible orders into fills.
#[derive(Clone, Debug)]
pub struct BarMatcher {
    config: BarMatcherConfig,
    /// Stop-limit orders whose stop has triggered and whose limit now rests.
    triggered_stop_limits: Vec<OrderId>,
}

impl View for BarMatcher {
    type V = (BarMatcherConfig, Seq<OrderId>);

    closed spec fn view(&self) -> (BarMatcherConfig, Seq<OrderId>) {
        (self.config, self.triggered_stop_limits@)
    }
}

impl Default for BarMatcher {
    fn default() -> (r: BarMatcher)
        ensures
            r@ == (BarMatcherConfig {
                price_trigger: PriceTrigger::Touch,
                market_fill_price: BarMarketFillPrice::Open,
                allow_same_bar_fill: false,
            }, Seq::<OrderId>::empty()),
    {
        BarMatcher::new(BarMatcherConfig::default())
    }
}

impl BarMatcher {
    /// Creates a bar matcher with the given configuration and no triggered
    /// stop-limits.
    pub fn new(config: BarMatcherConfig) -> (r: BarMatcher)
        ensures
            r@ == (config, Seq::<OrderId>::empty()),
    {
        BarMatcher { config, triggered_stop_limits: Vec::new() }
    }

    /// Returns the matcher configuration.
    pub fn config(&self) -> (r: BarMatcherConfig)
        ensures
            r == self@.0,
    {
        self.config
    }

    /// Matches one bar against the live orders and applies the fills it
    /// generates.
    pub fn process_bar(&mut self, prices: &BarPrices, system: &mut OrderSystem) -> (r: Result<MatchResult, MatchError>)
        ensures
            final(self)@.0 == old(self)@.0,
            event_outcome(
                MarketEvent::Bar(*prices, old(self)@.0),
                old(self)@.1,
                old(system)@,
                final(self)@.1,
                final(system)@,
                match_result_view(r),
            ),
    {
        let ev = MarketEvent::Bar(*prices, self.config);
        process_event(ev, &mut self.triggered_stop_limits, system)
    }
}

/// Tick-by-tick matcher that turns eligible orders into fills.
#[derive(Clone, Debug)]
pub struct TickMatcher {
    config: TickMatcherConfig,
    /// Stop-limit orders whose stop has triggered and whose limit now rests.
    triggered_stop_limits: Vec<OrderId>,
}

impl View for TickMatcher {
    type V = (TickMatcherConfig, Seq<OrderId>);

    closed spec fn view(&self) -> (TickMatcherConfig, Seq<OrderId>) {
        (self.config, self.triggered_stop_limits@)
    }
}

impl Default for TickMatcher {
    fn default() -> (r: TickMatcher)
        ensures
            r@ == (TickMatcherConfig { price_trigger: PriceTrigger::Touch, allow_same_tick_fill: false }, Seq::<OrderId>::empty()),
    {
        TickMatcher::new(TickMatcherConfig::default())
    }
}

impl TickMatcher {
    /// Creates a tick matcher with the given configuration and no triggered
    /// stop-limits.
    pub fn new(config: TickMatcherConfig) -> (r: TickMatcher)
        ensures
            r@ == (config, Seq::<OrderId>::empty()),
    {
        TickMatcher { config, triggered_stop_limits: Vec::new() }
    }

    /// Returns the matcher configuration.
    pub fn config(&self) -> (r: TickMatcherConfig)
        ensures
            r == self@.0,
    {
        self.config
    }

    /// Matches one tick against the live orders and applies the fills it
    /// generates.
    pub fn process_tick(&mut self, tick: &Tick, system: &mut OrderSystem) -> (r: Result<MatchResult, MatchError>)
        ensures
            final(self)@.0 == old(self)@.0,
            event_outcome(
                MarketEvent::Tick(*tick, old(self)@.0),
                old(self)@.1,
                old(system)@,
                final(self)@.1,
                final(system)@,
                match_result_view(r),
            ),
    {
        let ev = MarketEvent::Tick(*tick, self.config);
        process_event(ev, &mut self.triggered_stop_limits, system)
    }
}

} // verus!
