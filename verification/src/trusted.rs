//! Declarations whose contracts are taken on trust: each function's body
//! makes one call into an outside crate (or an unspecified part of std) and
//! converts its arguments and result, nothing more.

use vstd::prelude::*;
use rand::RngExt;
use rand::seq::IndexedRandom;
use sha2::Digest;

verus! {

/// Draws a fresh 64-bit identifier.
///
/// Relies on `uuid::Uuid::new_v4`: the identifier is random, so nothing is
/// promised of its value.
#[verifier::external_body]
pub(crate) fn fresh_id() -> u64 {
    uuid::Uuid::new_v4().as_u64_pair().0
}

/// Renders a fresh version-4 UUID in its hyphenated form.
///
/// Relies on `uuid::Uuid::new_v4` and its `Display` rendering: the
/// hyphenated form is documented to take 36 characters; the value itself is
/// random, so nothing more is promised.
#[verifier::external_body]
pub(crate) fn fresh_uuid_string() -> (r: String)
    ensures
        r@.len() == 36,
{
    uuid::Uuid::new_v4().to_string()
}

/// The current wall-clock instant as milliseconds since the Unix epoch.
///
/// Relies on `chrono::Utc::now` and `timestamp_millis`; the result depends
/// on the clock, so nothing is promised of its value.
#[verifier::external_body]
pub(crate) fn now_millis() -> i64 {
    chrono::Utc::now().timestamp_millis()
}

/// The RFC 3339 rendering of the UTC instant `t` milliseconds from the Unix
/// epoch, or the empty text where `t` lies outside the representable range.
pub uninterp spec fn rfc3339_of(t: int) -> Seq<char>;

/// Relies on `chrono::DateTime::from_timestamp_millis` and `to_rfc3339`:
/// the rendering is a function of the timestamp alone.
#[verifier::external_body]
pub(crate) fn rfc3339_of_millis(t: i64) -> (r: String)
    ensures
        r@ == rfc3339_of(t as int),
{
    match chrono::DateTime::<chrono::Utc>::from_timestamp_millis(t) {
        Some(d) => d.to_rfc3339(),
        None => String::new(),
    }
}

/// Draws an initial synaptic weight, uniform over the narrow positive band
/// `[0.01, 0.1)` of the fixed-point grid.
///
/// Relies on `rand::Rng::random_range`, documented to sample uniformly from
/// the given half-open range.
#[verifier::external_body]
pub(crate) fn random_initial_weight() -> (r: i64)
    ensures
        10_000 <= r < 100_000,
{
    rand::rng().random_range(10_000..100_000)
}

/// Chooses `amount` elements of the pool at random, without repetition of
/// positions.
///
/// Relies on `rand::seq::IndexedRandom::sample`, documented to sample
/// `min(amount, len)` distinct indices — so a pool of pairwise-distinct
/// values yields pairwise-distinct values; which positions come out is
/// random, so nothing more is promised.
#[verifier::external_body]
pub(crate) fn choose_from(pool: &Vec<u64>, amount: usize) -> (r: Vec<u64>)
    ensures
        r@.len() == if amount <= pool@.len() {
            amount as int
        } else {
            pool@.len() as int
        },
        forall|i: int| 0 <= i < r@.len() ==> pool@.contains(#[trigger] r@[i]),
        pool@.no_duplicates() ==> r@.no_duplicates(),
{
    pool.as_slice().sample(&mut rand::rng(), amount).copied().collect()
}

/// The lowercase form a text maps to, following the full Unicode lowering
/// that `str::to_lowercase` performs.
pub uninterp spec fn lower_of(s: Seq<char>) -> Seq<char>;

/// Relies on `str::to_lowercase`: the result is a function of the
/// characters alone, and on purely ASCII text it lowers exactly the ASCII
/// uppercase letters.
#[verifier::external_body]
pub(crate) fn to_lowercase(s: &str) -> (r: String)
    ensures
        r@ == lower_of(s@),
        crate::text::all_ascii(s@) ==> r@ == s@.map_values(
            |c: char| crate::text::ascii_lower_char(c),
        ),
{
    s.to_lowercase()
}

/// The SHA-256 digest of the UTF-8 encoding of a text.
pub uninterp spec fn sha256_of(s: Seq<char>) -> Seq<u8>;

/// Relies on `sha2::Sha256`: the digest is a function of the input alone
/// and is documented to be exactly 32 bytes long.
#[verifier::external_body]
pub(crate) fn sha256_digest(data: &str) -> (r: Vec<u8>)
    ensures
        r@ == sha256_of(data@),
        r@.len() == 32,
{
    let mut hasher = sha2::Sha256::new();
    hasher.update(data.as_bytes());
    hasher.finalize().to_vec()
}

} // verus!
