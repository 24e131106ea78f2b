use vstd::prelude::*;

verus! {

/// The error taxonomy of the ledger.
///
/// Only `Std` (a pass-through failure carrying a message), `StockNotFound`
/// and `NoField` are ever produced by this crate; the remaining kinds are
/// declared for checks that the ledger does not currently perform.
#[derive(Debug, Clone, PartialEq, Eq)]
pub enum ContractError {
    Std(String),
    StockAlreadyExists,
    InsufficientFunds,
    NoBalance,
    InsufficientShares,
    OrderAlreadyExists,
    InvalidInput,
    InternalError,
    Unauthorized,
    NotEnoughShares,
    StockNotFound,
    AlreadyInstantiated,
    NoField,
}

} // verus!
