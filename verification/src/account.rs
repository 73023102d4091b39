use vstd::prelude::*;

verus! {

/// A named balance holder within the ledger.
///
/// Accounts are created implicitly, on first mint or on first receipt of a
/// transfer, and are never deleted: an account whose balance has returned to
/// zero remains a valid, addressable record.
pub struct Account {
    /// Unique identifier, immutable once the account is created.
    pub id: String,
    /// Current balance. Never negative, by the unsigned representation and by
    /// the balance check that guards every debit.
    pub balance: u64,
}

} // verus!
