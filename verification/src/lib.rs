//! A ledger for deferred-payment ("cost-plus") financing deals.
//!
//! The ledger records, for each deal, the agreed asset price, the profit
//! margin, the derived total debt, and whether the debt has been settled.
//! Deals are keyed by identifiers that the ledger itself allocates from a
//! monotonically increasing counter; they are never deleted.

pub mod deal;
pub mod laws;
pub mod service;
pub mod store;

pub use crate::deal::MurabahaDeal;
pub use crate::service::Error;
pub use crate::service::MurabahaContract;
pub use crate::store::DealStore;
