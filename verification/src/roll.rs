//! The stat roller: a level names one of sixteen ranges of scores, and a
//! roll draws a score from the range.

use rand::{thread_rng, Rng};
use vstd::prelude::*;

verus! {

/// The lowest score of a level's range.
pub open spec fn range_low(level: u8) -> int {
    16 * level
}

/// The highest score of a level's range.
pub open spec fn range_high(level: u8) -> int {
    16 * level + 15
}

/// Draws a number from `low` up to, but not including, `high`.
///
/// Trusted: calls `Rng::gen_range` on `rand::thread_rng()`. The crate
/// documents that the value lies in the half-open range and that the call
/// panics unless `low < high`. Nothing more is claimed: which value comes is
/// left open. `thread_rng` itself panics when the system offers no entropy.
#[verifier::external_body]
pub(crate) fn random_in_range(low: u16, high: u16) -> (r: u16)
    requires
        low < high,
    ensures
        low <= r < high,
{
    thread_rng().gen_range(low, high)
}

/// Draws a truth value that is true one time in `n`.
///
/// Trusted: calls `Rng::gen_weighted_bool` on `rand::thread_rng()`. Nothing
/// is claimed of the value.
#[verifier::external_body]
pub(crate) fn random_chance(n: u32) -> bool {
    thread_rng().gen_weighted_bool(n)
}

/// The range of scores of a level: its lowest and its highest score.
pub fn stat_range(level: u8) -> (range: (u8, u8))
    requires
        level <= 15,
    ensures
        range.0 == range_low(level),
        range.1 == range_high(level),
{
    let low: u8 = level * 16;
    (low, low + 15)
}

/// Rolls the highest score that a card of the given level can reach in one
/// battle. A value above 15 is no level and gets no score.
pub fn stat(level: u8) -> (score: Option<u8>)
    ensures
        level > 15 ==> score.is_none(),
        level <= 15 ==> score.is_some() && range_low(level) <= score.unwrap() <= range_high(level),
{
    if level > 15 {
        return None;
    }
    let range = stat_range(level);
    let drawn: u16 = random_in_range(range.0 as u16, range.1 as u16 + 1);
    Some(drawn as u8)
}

/// Rolls a score from 0 up to and including `max`.
pub fn roll_up_to(max: u8) -> (score: u8)
    ensures
        score <= max,
{
    let drawn: u16 = random_in_range(0, max as u16 + 1);
    drawn as u8
}

} // verus!
