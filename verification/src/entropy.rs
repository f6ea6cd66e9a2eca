//! Sources of fresh randomness: high-entropy codes and tokens, and
//! time-ordered identifiers. Nothing is promised about which values come
//! back, only their shape.

use rand::Rng;
use vstd::prelude::*;

use crate::ledger::TimeOrderedId;

verus! {

/// `c` is an ASCII letter or digit.
pub open spec fn is_alnum_char(c: char) -> bool {
    (48 <= c as u32 && c as u32 <= 57) || (65 <= c as u32 && c as u32 <= 90) || (97 <= c as u32
        && c as u32 <= 122)
}

/// A 32-character alphanumeric string, about 190 bits of entropy.
pub open spec fn alnum32(s: Seq<char>) -> bool {
    s.len() == 32 && forall|i: int| 0 <= i < s.len() ==> is_alnum_char(s[i])
}

/// Relies on rand's `Alphanumeric` distribution: every sample is an ASCII
/// letter or digit; 32 samples are taken.
#[verifier::external_body]
pub fn random_alphanumeric32() -> (r: String)
    ensures
        alnum32(r@),
{
    rand::thread_rng().sample_iter(&rand::distributions::Alphanumeric).take(32).map(
        char::from,
    ).collect()
}

/// Relies on `ulid::Ulid::from_parts` and `Ulid::timestamp_ms`/`Ulid::random`:
/// the timestamp keeps its low 48 bits, the random part its low 80 bits.
/// The random part comes from `rand::random`, so nothing is promised of it
/// beyond its width.
#[verifier::external_body]
pub fn fresh_id_at(timestamp_ms: u64) -> (r: TimeOrderedId)
    ensures
        r.timestamp_ms == timestamp_ms as int % 0x1000000000000,
        r.wf(),
{
    let u = ulid::Ulid::from_parts(timestamp_ms, rand::random::<u128>());
    TimeOrderedId { timestamp_ms: u.timestamp_ms(), random: u.random() }
}

} // verus!
