//! Common utility functions.

use vstd::prelude::*;
use crate::text::hex_lower;
use crate::trusted::{sha256_digest, sha256_of};

verus! {

/// The SHA-256 hash of a text, rendered as 64 lowercase hexadecimal
/// digits.
pub open spec fn sha256_hex(s: Seq<char>) -> Seq<char> {
    hex_lower(sha256_of(s))
}

/// Generates the SHA-256 hash of a string, as lowercase hexadecimal text.
pub fn calculate_sha256(data: &str) -> (r: String)
    ensures
        r@ == sha256_hex(data@),
        r@.len() == 64,
{
    let digest = sha256_digest(data);
    crate::text::hex_of_bytes(&digest)
}

} // verus!
