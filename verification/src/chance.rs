//! What a draw leaves to chance: the sampled index and the redeem code.

use vstd::prelude::*;
use rand::distributions::{Distribution, WeightedIndex};
use rand::rngs::StdRng;
use rand::SeedableRng;
use uuid::Uuid;

verus! {

/// The sum of the weights.
pub open spec fn weight_sum(weights: Seq<u32>) -> nat
    decreases weights.len(),
{
    if weights.len() == 0 {
        0
    } else {
        weight_sum(weights.drop_last()) + weights.last() as nat
    }
}

/// The shape of a redeem code: thirty-six characters, hyphens after the
/// eighth, twelfth, sixteenth and twentieth digit, and lower-case hexadecimal
/// digits elsewhere.
pub open spec fn is_code_text(s: Seq<char>) -> bool {
    &&& s.len() == 36
    &&& forall|i: int|
        0 <= i < 36 ==> if i == 8 || i == 13 || i == 18 || i == 23 {
            #[trigger] s[i] == '-'
        } else {
            ('0' <= s[i] <= '9') || ('a' <= s[i] <= 'f')
        }
}

/// `rand::distributions::WeightedIndex::new` on the weights and one `sample`
/// of it, with a `rand::rngs::StdRng` that `from_entropy` seeds from the
/// operating system. The constructor fails exactly on no weights and on
/// weights that are all zero; the sampled index is a place in the weights
/// whose weight is not zero. Which of them it is, is left open. The sum of
/// the weights must fit their type, as the constructor adds them up. The
/// call panics where the operating system gives no entropy.
#[verifier::external_body]
fn sample_weighted(weights: &Vec<u32>) -> (r: Option<usize>)
    requires
        weight_sum(weights@) <= u32::MAX,
    ensures
        r.is_some() <==> weight_sum(weights@) > 0,
        r matches Some(k) ==> k < weights@.len() && weights@[k as int] > 0,
{
    match WeightedIndex::new(weights) {
        Ok(distribution) => Some(distribution.sample(&mut StdRng::from_entropy())),
        Err(_) => None,
    }
}

/// `uuid::Uuid::new_v4` as text, by the crate's `From<Uuid> for String`: a
/// random identifier of 128 bits in its hyphenated lower-case form. Which
/// identifier it is, is left open. The call panics where the operating
/// system gives no entropy.
#[verifier::external_body]
pub(crate) fn random_code() -> (r: String)
    ensures
        is_code_text(r@),
{
    String::from(Uuid::new_v4())
}

/// The sum of a front part of the weights is at most the sum of all.
pub proof fn lemma_weight_sum_grows(weights: Seq<u32>, upto: int)
    requires
        0 <= upto <= weights.len(),
    ensures
        weight_sum(weights.subrange(0, upto)) <= weight_sum(weights),
    decreases weights.len(),
{
    if upto == weights.len() {
        assert(weights.subrange(0, upto) =~= weights);
    } else {
        lemma_weight_sum_grows(weights.drop_last(), upto);
        assert(weights.drop_last().subrange(0, upto) =~= weights.subrange(0, upto));
    }
}

/// Samples an index with the given weights. There is a result exactly when
/// the weights are not all zero and their sum fits 32 bits; it is a place
/// whose weight is not zero, so that a weight of zero is never chosen.
pub fn pick(weights: &Vec<u32>) -> (r: Option<usize>)
    ensures
        r.is_some() <==> 0 < weight_sum(weights@) <= u32::MAX,
        r matches Some(k) ==> k < weights@.len() && weights@[k as int] > 0,
{
    let mut sum: u64 = 0;
    let mut i: usize = 0;
    while i < weights.len()
        invariant
            i <= weights.len(),
            sum == weight_sum(weights@.subrange(0, i as int)),
            sum <= u32::MAX,
        decreases weights.len() - i,
    {
        proof {
            let next = weights@.subrange(0, i + 1);
            assert(next.drop_last() =~= weights@.subrange(0, i as int));
            assert(next.last() == weights@[i as int]);
        }
        sum = sum + weights[i] as u64;
        if sum > u32::MAX as u64 {
            proof {
                lemma_weight_sum_grows(weights@, i + 1);
            }
            return None;
        }
        i += 1;
    }
    assert(weights@.subrange(0, weights.len() as int) =~= weights@);
    sample_weighted(weights)
}

} // verus!
