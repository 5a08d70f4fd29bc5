//! Identifiers and timestamps that come from outside the library.

use vstd::prelude::*;

verus! {

/// Fresh random macro id: the value of `uuid::Uuid::new_v4()` as a big-endian
/// `u128`. The uuid source masks random bits and then sets the version nibble
/// (bits 76..80) to 4 and the two variant bits (62..64) to `10`; the contract
/// states exactly that and nothing about the random bits. The random bits
/// come from the operating system's random source, and the call panics when
/// that source fails; no argument can rule that out.
#[verifier::external_body]
pub(crate) fn new_macro_id() -> (r: u128)
    ensures
        (r >> 76u128) & 0xfu128 == 4u128,
        (r >> 62u128) & 0x3u128 == 2u128,
{
    uuid::Uuid::new_v4().as_u128()
}

/// A point in time: whole seconds since the Unix epoch and the nanoseconds
/// past that second, at the clock's full precision.
#[derive(Debug, Clone, Copy, PartialEq, Eq, PartialOrd, Ord, Hash, Structural)]
pub struct Timestamp {
    pub secs: i64,
    pub nanos: u32,
}

/// The current time, from one reading of `chrono::Utc::now()`: its
/// `timestamp()` and `timestamp_subsec_nanos()`. Nothing is stated of the
/// value: it depends on the clock. (`Utc::now` panics when the system clock
/// reads before the epoch.)
#[verifier::external_body]
pub(crate) fn now() -> (r: Timestamp) {
    let t = chrono::Utc::now();
    Timestamp { secs: t.timestamp(), nanos: t.timestamp_subsec_nanos() }
}

/// The lowercase hex digit of `n`, for `n < 16`.
pub open spec fn hex_digit(n: u128) -> char {
    if n < 10 {
        ((n + 48) as u32) as char
    } else {
        ((n + 87) as u32) as char
    }
}

/// Hex digit `k` of `id`, counting from the most significant (`k` in 0..32).
pub open spec fn nibble(id: u128, k: int) -> u128 {
    (id >> ((31 - k) * 4) as u128) & 0xfu128
}

/// Which of the 32 hex digits character `i` of the hyphenated form shows.
pub open spec fn digit_index(i: int) -> int {
    if i < 8 {
        i
    } else if i < 13 {
        i - 1
    } else if i < 18 {
        i - 2
    } else if i < 23 {
        i - 3
    } else {
        i - 4
    }
}

/// The hyphenated lowercase text of a 128-bit id, as in
/// `67e55044-10b1-426f-9247-bb680e5fe0c8`: 32 hex digits, most significant
/// first, grouped 8-4-4-4-12.
pub open spec fn spec_id_text(id: u128) -> Seq<char> {
    Seq::new(
        36,
        |i: int|
            if i == 8 || i == 13 || i == 18 || i == 23 {
                '-'
            } else {
                hex_digit(nibble(id, digit_index(i)))
            },
    )
}

/// The text of an id: `uuid::Uuid::from_u128(id).to_string()`, whose
/// `Display` writes the hyphenated lowercase form (32 hex digits of the
/// big-endian value, grouped 8-4-4-4-12).
#[verifier::external_body]
pub(crate) fn id_text(id: u128) -> (r: String)
    ensures
        r@ == spec_id_text(id),
{
    uuid::Uuid::from_u128(id).to_string()
}

/// A version-4 id is never the nil id.
pub proof fn lemma_v4_id_not_nil(r: u128)
    requires
        (r >> 76u128) & 0xfu128 == 4u128,
    ensures
        r != 0,
{
    assert((r >> 76u128) & 0xfu128 == 4u128 ==> r != 0) by (bit_vector);
}

} // verus!
