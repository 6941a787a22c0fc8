//! Verified core of a binary-options trading client: decimal trade amounts,
//! the duplicate-trade guard and reconciliation of market orders, and the
//! rules that pick endpoints and read replies of network helpers.
pub mod amount;
pub mod keyed;
pub mod error;
pub mod ids;
pub mod trade;
pub mod utils;
pub mod client;
