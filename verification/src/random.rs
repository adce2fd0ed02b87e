//! Random numbers and identifiers for synthetic data.

use vstd::prelude::*;

use crate::clock;
use crate::text;

verus! {

/// The generator `rand::rngs::StdRng`. What is inside it is not visible here.
#[verifier::external_type_specification]
#[verifier::external_body]
pub struct ExStdRng(rand::rngs::StdRng);

/// The generator that `StdRng::seed_from_u64` makes of a seed.
pub uninterp spec fn seeded_generator(seed: u64) -> rand::rngs::StdRng;

/// Calls `StdRng::seed_from_u64`: the generator depends on the seed alone, which is spread over
/// the key of a block cipher. Nothing is claimed of the numbers that it gives: `rand` does not
/// promise them.
#[verifier::external_body]
fn seeded(seed: u64) -> (r: rand::rngs::StdRng)
    ensures
        r == seeded_generator(seed),
{
    rand::SeedableRng::seed_from_u64(seed)
}

/// Calls `Rng::gen_range` on `lo..=hi`: a number in this range. Which it is, is left to chance.
#[verifier::external_body]
pub(crate) fn draw(rng: &mut rand::rngs::StdRng, lo: i128, hi: i128) -> (r: i128)
    requires
        lo <= hi,
    ensures
        lo <= r <= hi,
{
    rand::Rng::gen_range(rng, lo..=hi)
}

/// Calls `Rng::gen_ratio`: true in `numerator` of `denominator` cases, always where all cases
/// are named and never where none is. Which it is otherwise, is left to chance.
#[verifier::external_body]
pub(crate) fn chance(rng: &mut rand::rngs::StdRng, numerator: u32, denominator: u32) -> (r: bool)
    requires
        0 < denominator,
        numerator <= denominator,
    ensures
        numerator == 0 ==> !r,
        numerator == denominator ==> r,
{
    rand::Rng::gen_ratio(rng, numerator, denominator)
}

/// Whether `c` is a hexadecimal digit in lower case.
pub open spec fn hex_digit(c: char) -> bool {
    '0' <= c <= '9' || 'a' <= c <= 'f'
}

/// Whether `i` is the position of a hyphen in an identifier.
pub open spec fn hyphen_at(i: int) -> bool {
    i == 8 || i == 13 || i == 18 || i == 23
}

/// Whether `s` is a random identifier: 32 hexadecimal digits in groups of 8, 4, 4, 4 and 12,
/// the first of the third group a 4.
pub open spec fn is_uuid(s: Seq<char>) -> bool {
    &&& s.len() == 36
    &&& s[14] == '4'
    &&& forall|i: int|
        0 <= i < 36 ==> if hyphen_at(i) {
            #[trigger] s[i] == '-'
        } else {
            hex_digit(s[i])
        }
}

/// Calls `Uuid::new_v4` and formats the result: 36 characters, hyphens between the groups of
/// hexadecimal digits. Which digits they are, but for the version, is left to chance.
#[verifier::external_body]
pub(crate) fn new_uuid() -> (r: String)
    ensures
        is_uuid(r@),
{
    uuid::Uuid::new_v4().to_string()
}

/// A random identifier without hyphens.
pub(crate) fn new_simple_uuid() -> (r: String)
    ensures
        exists|u: Seq<char>| is_uuid(u) && r@ == #[trigger] text::without(u, '-'),
{
    let u = new_uuid();
    text::remove_char(u.as_str(), '-')
}

/// The generator of the time `now_micros`, in microseconds since 1970: its seed is the number of
/// whole milliseconds.
pub open spec fn generator_at(now_micros: i64) -> rand::rngs::StdRng {
    seeded_generator((now_micros / 1000) as u64)
}

/// A generator that is seeded with the time `now_micros`.
pub fn rng_at(now_micros: i64) -> (r: rand::rngs::StdRng)
    requires
        now_micros >= 0,
    ensures
        r == generator_at(now_micros),
{
    seeded((now_micros / 1000) as u64)
}

/// A generator that is seeded with the current time.
pub fn fresh_rng() -> (r: rand::rngs::StdRng)
    ensures
        exists|now_micros: i64| now_micros >= 0 && r == #[trigger] generator_at(now_micros),
{
    rng_at(clock::now_micros())
}

} // verus!
