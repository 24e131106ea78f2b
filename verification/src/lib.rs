//! A verified ownership ledger for externally created stock instances.
//!
//! Stock instances are opaque addresses handed out by an external factory.
//! They are grouped by symbol and move between one unowned pool and
//! per-owner holdings; a conservation invariant guarantees that a
//! registered instance is never lost and never duplicated.

pub mod contract;
pub mod error;
pub mod laws;
pub mod msg;
pub mod state;
