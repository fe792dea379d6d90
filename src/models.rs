//! The records of the allowlist table.
use vstd::prelude::*;

verus! {

/// A stored allowlist row: a surrogate id and the identifier it admits.
pub struct AllowlistEntry {
    pub id: i32,
    pub wallet_address: String,
}

/// A row to be inserted; the store assigns its id.
pub struct NewEntry {
    pub wallet_address: String,
}

} // verus!
