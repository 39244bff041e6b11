//! Public keys as the ledger stores them: 32 raw bytes, or base58 text.

use solana_sdk::pubkey::Pubkey;
use std::str::FromStr;
use vstd::prelude::*;

verus! {

/// The number of bytes of a public key.
pub const KEY_BYTES: usize = 32;

/// The bytes that `Pubkey::from_str` decodes from base58 text, or `None`
/// where it rejects the text.
pub uninterp spec fn base58_pubkey(text: Seq<char>) -> Option<Seq<u8>>;

/// What an optional byte vector holds, as a sequence.
pub open spec fn option_bytes(bytes: Option<Vec<u8>>) -> Option<Seq<u8>> {
    match bytes {
        Some(b) => Some(b@),
        None => None,
    }
}

/// Calls `solana_sdk::pubkey::Pubkey::from_str` and hands back the key's
/// bytes. Trusted: the result is the named decoding of the text, and a
/// decoded key has exactly 32 bytes.
#[verifier::external_body]
pub(crate) fn decode_base58_key(text: &str) -> (key: Option<Vec<u8>>)
    ensures
        option_bytes(key) == base58_pubkey(text@),
        key matches Some(k) ==> k@.len() == KEY_BYTES,
{
    match Pubkey::from_str(text) {
        Ok(pubkey) => Some(pubkey.to_bytes().to_vec()),
        Err(_) => None,
    }
}

/// Calls `Pubkey::try_from` on a byte slice and hands back the key's bytes.
/// Trusted: the call succeeds exactly on slices of 32 bytes, and the key
/// then holds those bytes unchanged.
#[verifier::external_body]
pub(crate) fn decode_raw_key(bytes: &[u8]) -> (key: Option<Vec<u8>>)
    ensures
        key is Some <==> bytes@.len() == KEY_BYTES,
        key matches Some(k) ==> k@ == bytes@,
{
    match Pubkey::try_from(bytes) {
        Ok(pubkey) => Some(pubkey.to_bytes().to_vec()),
        Err(_) => None,
    }
}

/// Whether a byte sequence has the shape of a public key.
pub open spec fn is_key(bytes: Seq<u8>) -> bool {
    bytes.len() == KEY_BYTES
}

/// Whether two byte strings are the same.
pub fn same_bytes(a: &Vec<u8>, b: &Vec<u8>) -> (same: bool)
    ensures
        same == (a@ == b@),
{
    if a.len() != b.len() {
        return false;
    }
    let mut i: usize = 0;
    while i < a.len()
        invariant
            a.len() == b.len(),
            i <= a.len(),
            forall|j: int| 0 <= j < i ==> a@[j] == b@[j],
        decreases a.len() - i,
    {
        if a[i] != b[i] {
            return false;
        }
        i += 1;
    }
    assert(a@ =~= b@);
    true
}

} // verus!
