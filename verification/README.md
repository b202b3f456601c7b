# strategy_api

Order-management core for strategy back-testing, written in Verus: the
library's functions carry `requires`/`ensures` contracts that Verus proves
(the `eq` of the hand-written `PartialEq` impls excepted, whose meaning is
given by `eq_spec`), and the library's laws stand as proof functions beside
the code.

## Layout

- `src/decimal.rs` — `Dec`, a fixed-point decimal kept as `(mantissa, scale)`;
  rounding arithmetic, comparison and display go through `rust_decimal`.
- `src/text.rs` — whitespace and ordering helpers for symbols, integer and
  timestamp text.
- `src/order_sys/` — identifiers, `Order` (lifecycle state machine), `Fill`,
  `Lot` (open/close audit trail), `Holding` (per-symbol lots and the
  lot-relief planner: FIFO, LIFO, HIFO, max-loss, max-gain, specific lots,
  average cost), `ExecutionReport`, cash `Account`, and `OrderSystem`, the
  facade that validates submissions, reserves closeable quantity, stages
  reversals and applies fills atomically.
- `src/matcher.rs` — bar and tick matchers that turn live orders into fills.
- `src/strategy.rs` — the strategy context: default symbol, current bar and
  shorthand order calls.
- `src/messages.rs` — the exact text of every error.
- `src/ctx.rs` — plain enums and the position-identifier counter of the host context.
- `app/` — the host-facing layer: ABI bar and chart types, floating-point
  entry points, plugin traits and export macros, `std::error::Error` forms of
  the errors.
- `tests/` — unit and scenario tests of the library.

Each abstract state is a view (`OrderView`, `HoldingView`,
`OrderSystemView`, ...); the outcome of each operation is a spec function
over views (`fill_outcome`, `cancel_outcome`, `event_outcome`, ...), and the
executable methods are proved to produce exactly those outcomes.
