//! Order-management core of a strategy back-testing API: orders, fills,
//! lots, holdings, execution reports, a cash account, an order-system facade
//! and bar/tick matchers, all with verified contracts.

pub mod ctx;
pub mod decimal;
pub mod matcher;
pub mod messages;
pub mod order_sys;
pub mod strategy;
pub mod text;
