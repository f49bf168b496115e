//! Fixed size budgets of the storage layout.

use vstd::prelude::*;

verus! {

/// Width in bytes of one slot identifier.
pub const PUBKEY_BYTES: usize = 32;

/// Largest number of record slots a diary may reference.
pub const MAX_RECORDS: usize = 318;

/// A diary name must be strictly shorter than this many bytes.
pub const MAX_NAME_LENGHT: usize = 20;

/// Bytes reserved for a stored diary: identity, list length, the slot
/// identifiers, the name and the derivation nonce.
pub const DIARY_LEN: usize = 4 + 4 + PUBKEY_BYTES * MAX_RECORDS + MAX_NAME_LENGHT + 1;

/// Physical size in bytes of every record slot.
pub const RECORD_LEN: usize = 10_000_000;

/// Bytes the store puts in front of a stored diary to tag its type.
pub const ACCOUNT_TAG_LEN: usize = 8;

/// Largest allocation the store grants to a derived address.
pub const MAX_DERIVED_ALLOCATION: usize = 10240;

/// `MAX_RECORDS` is the storage budget's limit: a tagged diary with that many
/// slot identifiers fits the largest derived allocation, and one identifier
/// more would not.
pub proof fn lemma_record_limit_fills_allocation()
    ensures
        ACCOUNT_TAG_LEN + DIARY_LEN <= MAX_DERIVED_ALLOCATION,
        ACCOUNT_TAG_LEN + DIARY_LEN + PUBKEY_BYTES > MAX_DERIVED_ALLOCATION,
        DIARY_LEN == 10205,
{
}

} // verus!
