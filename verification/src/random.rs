//! The crate's randomness: thin wrappers over the rand crate.

use vstd::prelude::*;
use vstd::pervasive::unreached;

use rand::seq::IndexedRandom;

use crate::corpus::in_lines;

verus! {

/// Relies on rand::random_range: a uniform draw from a non-empty
/// half-open range; it panics on an empty one.
#[verifier::external_body]
pub(crate) fn random_in_range(lo: usize, hi: usize) -> (r: usize)
    requires
        lo < hi,
    ensures
        lo <= r < hi,
{
    rand::random_range(lo..hi)
}

/// Relies on rand::random_ratio: true with probability
/// `numerator / denominator`; it panics when the ratio is no probability.
#[verifier::external_body]
pub(crate) fn random_chance(numerator: u32, denominator: u32) -> (r: bool)
    requires
        0 < denominator,
        numerator <= denominator,
    ensures
        numerator == denominator ==> r,
        numerator == 0 ==> !r,
{
    rand::random_ratio(numerator, denominator)
}

/// Relies on rand::seq::IndexedRandom::choose: Some of a uniformly drawn
/// element of a non-empty slice, None for an empty one.
#[verifier::external_body]
fn choose_line(lines: &Vec<String>) -> (r: Option<String>)
    ensures
        r is Some <==> lines@.len() > 0,
        r matches Some(s) ==> exists|i: int| 0 <= i < lines@.len() && s@ == #[trigger] lines@[i]@,
{
    lines.choose(&mut rand::rng()).cloned()
}

/// Draw one line uniformly from a non-empty corpus.
pub(crate) fn pick(lines: &Vec<String>) -> (r: String)
    requires
        lines@.len() > 0,
    ensures
        in_lines(r@, lines@),
{
    match choose_line(lines) {
        Some(s) => s,
        None => unreached(),
    }
}

} // verus!
