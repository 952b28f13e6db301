//! Strategies that turn evidence and child scores into a reputation score.
//!
//! A calculator is chosen by whoever sets up the aggregation and handed in; the
//! ledger is not tied to one. `MarketplaceCalculator` is the calculator of the
//! marketplace: a weighted mean of child scores and a linear decay over time.

use crate::types::Address;
use vstd::prelude::*;

verus! {

/// The score that stands for "nothing known": the middle of the scale.
pub const NEUTRAL_SCORE: u64 = 50;

/// The score of a non-empty payload.
pub const FULL_SCORE: u64 = 100;

/// The sum of the products of each score with its weight.
pub open spec fn weighted_sum(scores: Seq<u64>, weights: Seq<u32>) -> nat
    recommends
        scores.len() == weights.len(),
    decreases scores.len(),
{
    if scores.len() == 0 || weights.len() == 0 {
        0
    } else {
        weighted_sum(scores.drop_last(), weights.drop_last()) + (scores.last() as nat) * (
        weights.last() as nat)
    }
}

/// The sum of the weights.
pub open spec fn weight_sum(weights: Seq<u32>) -> nat
    decreases weights.len(),
{
    if weights.len() == 0 {
        0
    } else {
        weight_sum(weights.drop_last()) + weights.last() as nat
    }
}

/// The weighted mean of the child scores, rounded down. Without children,
/// with weights that do not match the scores one to one, or with weights that
/// sum to zero, it is the neutral score.
pub open spec fn weighted_mean(scores: Seq<u64>, weights: Seq<u32>) -> nat {
    if scores.len() == 0 || scores.len() != weights.len() || weight_sum(weights) == 0 {
        NEUTRAL_SCORE as nat
    } else {
        weighted_sum(scores, weights) / weight_sum(weights)
    }
}

/// A score after linear decay: it loses half of itself over one half-life,
/// in proportion to the time elapsed, and no more after that. A half-life of
/// zero switches decay off.
pub open spec fn decayed(score: u64, elapsed_time: u32, half_life: u32) -> nat {
    if half_life == 0 {
        score as nat
    } else {
        let elapsed = if elapsed_time < half_life {
            elapsed_time
        } else {
            half_life
        };
        (score - (score as nat * elapsed as nat) / (half_life as nat * 2)) as nat
    }
}

/// The score of a payload: neutral for an empty one, full otherwise.
pub open spec fn payload_score(payload: Seq<u8>) -> nat {
    if payload.len() == 0 {
        NEUTRAL_SCORE as nat
    } else {
        FULL_SCORE as nat
    }
}

/// A weighted sum is at most the largest possible score times the sum of the
/// weights.
proof fn lemma_weighted_sum_bound(scores: Seq<u64>, weights: Seq<u32>)
    requires
        scores.len() == weights.len(),
    ensures
        weighted_sum(scores, weights) <= 0xffff_ffff_ffff_ffff * weight_sum(weights),
    decreases scores.len(),
{
    if scores.len() > 0 {
        lemma_weighted_sum_bound(scores.drop_last(), weights.drop_last());
        let s = scores.last() as nat;
        let w = weights.last() as nat;
        assert(s * w <= 0xffff_ffff_ffff_ffff * w) by (nonlinear_arith)
            requires
                s <= 0xffff_ffff_ffff_ffff,
        ;
    }
}

/// The sum of `n` weights is at most `n` times the largest weight.
proof fn lemma_weight_sum_bound(weights: Seq<u32>)
    ensures
        weight_sum(weights) <= 0xffff_ffff * weights.len(),
    decreases weights.len(),
{
    if weights.len() > 0 {
        lemma_weight_sum_bound(weights.drop_last());
    }
}

/// A weighted sum grows with the number of terms.
proof fn lemma_weighted_sum_grows(scores: Seq<u64>, weights: Seq<u32>, i: int)
    requires
        scores.len() == weights.len(),
        0 <= i <= scores.len(),
    ensures
        weighted_sum(scores.take(i), weights.take(i)) <= weighted_sum(scores, weights),
    decreases scores.len() - i,
{
    if i < scores.len() {
        lemma_weighted_sum_grows(scores, weights, i + 1);
        assert(scores.take(i + 1).drop_last() =~= scores.take(i));
        assert(weights.take(i + 1).drop_last() =~= weights.take(i));
    } else {
        assert(scores.take(i) =~= scores);
        assert(weights.take(i) =~= weights);
    }
}

/// Whether the weighted sum of the child scores fits into 128 bits, as
/// `aggregate_hierarchical` needs it to. Scores and weights that do not match
/// one to one have no weighted sum to fit.
pub fn weighted_sum_fits(child_scores: &Vec<u64>, weights: &Vec<u32>) -> (fits: bool)
    ensures
        fits == (child_scores@.len() == weights@.len() ==> weighted_sum(child_scores@, weights@)
            <= u128::MAX),
{
    if child_scores.len() != weights.len() {
        return true;
    }
    let mut num: u128 = 0;
    let mut i: usize = 0;
    while i < child_scores.len()
        invariant
            i <= child_scores.len(),
            child_scores@.len() == weights@.len(),
            num == weighted_sum(child_scores@.take(i as int), weights@.take(i as int)),
        decreases child_scores.len() - i,
    {
        proof {
            assert(child_scores@.take(i + 1).drop_last() =~= child_scores@.take(i as int));
            assert(weights@.take(i + 1).drop_last() =~= weights@.take(i as int));
            lemma_weighted_sum_grows(child_scores@, weights@, i + 1);
            assert((child_scores@[i as int] as nat) * (weights@[i as int] as nat) <= u128::MAX)
                by (nonlinear_arith)
                requires
                    child_scores@[i as int] <= 0xffff_ffff_ffff_ffff,
                    weights@[i as int] <= 0xffff_ffff,
            ;
        }
        let term: u128 = (child_scores[i] as u128) * (weights[i] as u128);
        match num.checked_add(term) {
            Some(sum) => {
                num = sum;
            },
            None => {
                return false;
            },
        }
        i += 1;
    }
    assert(child_scores@.take(child_scores@.len() as int) =~= child_scores@);
    assert(weights@.take(weights@.len() as int) =~= weights@);
    true
}

/// A strategy for computing reputation scores.
pub trait ReputationCalculator {
    /// Whether `proof` shows that `rater` may rate `ratee`.
    fn validate_transaction_proof(&self, rater: Address, ratee: Address, proof: Vec<u8>) -> bool;

    /// The score that a payload of the application stands for.
    fn calculate_score(&self, payload: Vec<u8>) -> u64;

    /// The score of a parent, from the scores of its children and their
    /// weights. The weighted sum of the scores has to fit into 128 bits.
    fn aggregate_hierarchical(&self, child_scores: Vec<u64>, weights: Vec<u32>) -> u64
        requires
            child_scores@.len() == weights@.len() ==> weighted_sum(child_scores@, weights@)
                <= u128::MAX,
    ;

    /// The score after `elapsed_time` has passed.
    fn apply_decay(&self, score: u64, elapsed_time: u32, half_life: u32) -> u64;
}

/// The calculator of the marketplace.
pub struct MarketplaceCalculator {}

impl MarketplaceCalculator {
    /// The calculator of the marketplace.
    pub fn new() -> Self {
        MarketplaceCalculator {  }
    }
}

impl ReputationCalculator for MarketplaceCalculator {
    /// A proof is valid when it is not empty and nobody rates themselves.
    fn validate_transaction_proof(&self, rater: Address, ratee: Address, proof: Vec<u8>) -> (valid:
        bool)
        ensures
            valid == (proof@.len() > 0 && rater != ratee),
    {
        proof.len() > 0 && rater != ratee
    }

    /// The neutral score for an empty payload, the full score otherwise.
    fn calculate_score(&self, payload: Vec<u8>) -> (score: u64)
        ensures
            score == payload_score(payload@),
    {
        if payload.len() == 0 {
            NEUTRAL_SCORE
        } else {
            FULL_SCORE
        }
    }

    /// The weighted mean of the child scores, rounded down, or the neutral
    /// score where there is no such mean.
    fn aggregate_hierarchical(&self, child_scores: Vec<u64>, weights: Vec<u32>) -> (score: u64)
        ensures
            score == weighted_mean(child_scores@, weights@),
    {
        if child_scores.len() == 0 || child_scores.len() != weights.len() {
            return NEUTRAL_SCORE;
        }
        let mut num: u128 = 0;
        let mut den: u128 = 0;
        let mut i: usize = 0;
        while i < child_scores.len()
            invariant
                i <= child_scores.len(),
                child_scores@.len() == weights@.len(),
                weighted_sum(child_scores@, weights@) <= u128::MAX,
                num == weighted_sum(child_scores@.take(i as int), weights@.take(i as int)),
                den == weight_sum(weights@.take(i as int)),
            decreases child_scores.len() - i,
        {
            proof {
                assert(child_scores@.take(i + 1).drop_last() =~= child_scores@.take(i as int));
                assert(weights@.take(i + 1).drop_last() =~= weights@.take(i as int));
                lemma_weighted_sum_grows(child_scores@, weights@, i + 1);
                lemma_weight_sum_bound(weights@.take(i + 1));
                assert((child_scores@[i as int] as nat) * (weights@[i as int] as nat) <= u128::MAX)
                    by (nonlinear_arith)
                    requires
                        child_scores@[i as int] <= 0xffff_ffff_ffff_ffff,
                        weights@[i as int] <= 0xffff_ffff,
                ;
            }
            let term: u128 = (child_scores[i] as u128) * (weights[i] as u128);
            num = num + term;
            den = den + weights[i] as u128;
            i += 1;
        }
        proof {
            assert(child_scores@.take(child_scores@.len() as int) =~= child_scores@);
            assert(weights@.take(weights@.len() as int) =~= weights@);
            lemma_weighted_sum_bound(child_scores@, weights@);
        }
        if den == 0 {
            NEUTRAL_SCORE
        } else {
            assert(num / den <= 0xffff_ffff_ffff_ffff) by (nonlinear_arith)
                requires
                    den > 0,
                    num <= 0xffff_ffff_ffff_ffff * den,
            ;
            (num / den) as u64
        }
    }

    /// The score after linear decay over `elapsed_time`.
    fn apply_decay(&self, score: u64, elapsed_time: u32, half_life: u32) -> (left: u64)
        ensures
            left == decayed(score, elapsed_time, half_life),
    {
        if half_life == 0 {
            return score;
        }
        let elapsed: u32 = if elapsed_time < half_life {
            elapsed_time
        } else {
            half_life
        };
        assert((score as int) * (elapsed as int) <= 0xffff_ffff_ffff_ffff * 0xffff_ffff)
            by (nonlinear_arith)
            requires
                0 <= score <= 0xffff_ffff_ffff_ffff,
                0 <= elapsed <= 0xffff_ffff,
        ;
        let decay: u128 = ((score as u128) * (elapsed as u128)) / ((half_life as u128) * 2);
        assert(decay <= score) by (nonlinear_arith)
            requires
                decay == ((score as int) * (elapsed as int)) / ((half_life as int) * 2),
                0 <= elapsed <= half_life,
                half_life > 0,
                score >= 0,
        ;
        ((score as u128) - decay) as u64
    }
}

} // verus!
