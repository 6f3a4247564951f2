//! Trusted access to randomness, through the rand crate.
//!
//! Probabilities are integer ratios: where the game wants "with probability
//! p", it draws over `numerator / denominator` with both in whole units of
//! [`PROB_SCALE`]. Nothing is promised of an individual draw beyond its
//! range; every decision built on a draw is verified for every value the
//! draw can take.

use vstd::prelude::*;

use rand::Rng;
use rand::distr::Distribution;

verus! {

/// The denominator the game's probabilities are stated over: a probability
/// is `p / PROB_SCALE` with `0 <= p <= PROB_SCALE`.
pub const PROB_SCALE: u32 = 1000;

/// Relies on rand's `Rng::random_range` over `0..n`: a draw below `n`. The
/// call panics on an empty range, which the precondition rules out.
#[verifier::external_body]
pub(crate) fn random_below(n: u64) -> (r: u64)
    requires
        n > 0,
    ensures
        r < n,
{
    rand::rng().random_range(0..n)
}

/// Relies on rand's `random_ratio`: true with probability
/// `numerator / denominator`; guaranteed true when they are equal and false
/// at a zero numerator. The call panics when the denominator is zero or the
/// numerator exceeds it, which the precondition rules out.
#[verifier::external_body]
pub(crate) fn random_chance(numerator: u32, denominator: u32) -> (r: bool)
    requires
        denominator > 0,
        numerator <= denominator,
    ensures
        numerator == denominator ==> r,
        numerator == 0 ==> !r,
{
    rand::random_ratio(numerator, denominator)
}

/// Relies on rand's `random_ratio` at one in two: a fair coin. Nothing is
/// promised of the outcome.
#[verifier::external_body]
pub(crate) fn coin() -> bool {
    rand::random_ratio(1, 2)
}

#[verifier::external_type_specification]
#[verifier::external_body]
pub struct ExWeightedError(rand::distr::weighted::Error);

/// A weighted distribution over indices, wrapping rand's `WeightedIndex`
/// (whose own declaration Verus refuses for its trait bounds).
#[verifier::external_body]
pub struct WeightedTable {
    table: rand::distr::weighted::WeightedIndex<u32>,
}

/// What building a weighted table yields.
pub type WeightedTableResult = Result<WeightedTable, rand::distr::weighted::Error>;

/// The weights a `WeightedTable` was built over.
pub uninterp spec fn weighted_table_weights(w: WeightedTable) -> Seq<u32>;

/// The sum of a weight sequence.
pub open spec fn weight_total(s: Seq<u32>) -> int
    decreases s.len(),
{
    if s.len() == 0 {
        0
    } else {
        weight_total(s.drop_last()) + s.last()
    }
}

/// Relies on `WeightedIndex::new`: it accepts exactly a nonempty list of
/// weights whose sum is positive and fits the weight type, and keeps those
/// weights.
#[verifier::external_body]
pub(crate) fn weighted_table_new(weights: &Vec<u32>) -> (r: WeightedTableResult)
    ensures
        (r is Ok) == (weights@.len() > 0 && 0 < weight_total(weights@) <= u32::MAX),
        r matches Ok(w) ==> weighted_table_weights(w) == weights@,
{
    match rand::distr::weighted::WeightedIndex::new(weights.iter()) {
        Ok(table) => Ok(WeightedTable { table }),
        Err(e) => Err(e),
    }
}

/// Relies on `Distribution::<usize>::sample` for `WeightedIndex`: the drawn
/// index always names a weight, and one that is positive.
#[verifier::external_body]
pub(crate) fn weighted_table_sample(w: &WeightedTable) -> (r: usize)
    ensures
        r < weighted_table_weights(*w).len(),
        weighted_table_weights(*w)[r as int] > 0,
{
    w.table.sample(&mut rand::rng())
}

} // verus!
