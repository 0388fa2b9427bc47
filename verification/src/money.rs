//! Sums of amounts. An amount is a whole number of minor units in an `i64`;
//! a sum is taken over the integers and must fit an `i64` to be reported.

use crate::Error;
use vstd::prelude::*;

verus! {

/// The sum of a run of integers.
pub open spec fn sum(values: Seq<int>) -> int
    decreases values.len(),
{
    if values.len() == 0 {
        0
    } else {
        sum(values.drop_last()) + values.last()
    }
}

/// Whether an integer can be held as an amount.
pub open spec fn fits_amount(value: int) -> bool {
    i64::MIN <= value <= i64::MAX
}

/// The amounts held in a vector, as integers.
pub open spec fn amounts(values: Seq<i64>) -> Seq<int> {
    values.map_values(|v: i64| v as int)
}

/// Summing one more value adds it to the sum.
pub proof fn lemma_sum_push(values: Seq<int>, value: int)
    ensures
        sum(values.push(value)) == sum(values) + value,
{
    assert(values.push(value).drop_last() =~= values);
}

/// The sum of two runs laid end to end is the sum of their sums.
pub proof fn lemma_sum_concat(left: Seq<int>, right: Seq<int>)
    ensures
        sum(left + right) == sum(left) + sum(right),
    decreases right.len(),
{
    if right.len() == 0 {
        assert(left + right =~= left);
    } else {
        assert((left + right).drop_last() =~= left + right.drop_last());
        lemma_sum_concat(left, right.drop_last());
    }
}

/// Taking one value out of a run lowers the sum by that value.
pub proof fn lemma_sum_remove(values: Seq<int>, at: int)
    requires
        0 <= at < values.len(),
    ensures
        sum(values.remove(at)) == sum(values) - values[at],
{
    let left = values.take(at);
    let right = values.skip(at + 1);
    assert(values =~= left.push(values[at]) + right);
    assert(values.remove(at) =~= left + right);
    lemma_sum_concat(left, right);
    lemma_sum_concat(left.push(values[at]), right);
    lemma_sum_push(left, values[at]);
}

/// The sum of the amounts in `values`.
pub fn sum_amounts(values: &Vec<i64>) -> (r: i128)
    ensures
        r == sum(amounts(values@)),
{
    let mut total: i128 = 0;
    let mut i: usize = 0;
    while i < values.len()
        invariant
            i <= values.len(),
            total == sum(amounts(values@.take(i as int))),
            i * i64::MIN <= total <= i * i64::MAX,
        decreases values.len() - i,
    {
        proof {
            assert(values@.take(i + 1) =~= values@.take(i as int).push(values@[i as int]));
            assert(amounts(values@.take(i + 1)) =~= amounts(values@.take(i as int)).push(
                values@[i as int] as int,
            ));
            lemma_sum_push(amounts(values@.take(i as int)), values@[i as int] as int);
        }
        total = total + (values[i] as i128);
        i += 1;
    }
    assert(values@.take(values.len() as int) =~= values@);
    total
}

/// `total` as an amount, where it fits.
pub fn checked_amount(total: i128) -> (r: Result<i64, Error>)
    ensures
        fits_amount(total as int) ==> r == Ok::<i64, Error>(total as i64),
        !fits_amount(total as int) ==> r == Err::<i64, Error>(Error::AmountOutOfRange),
{
    if total < (i64::MIN as i128) || total > (i64::MAX as i128) {
        Err(Error::AmountOutOfRange)
    } else {
        Ok(total as i64)
    }
}

/// The weight of what passes a test, and zero for the rest.
pub open spec fn weight_if<A>(test: spec_fn(A) -> bool, weight: spec_fn(A) -> int) -> spec_fn(
    A,
) -> int {
    |a: A|
        if test(a) {
            weight(a)
        } else {
            0
        }
}

/// Summing the weights of what passes a test is summing, over everything,
/// the weight where the test passes and zero where it does not.
pub proof fn lemma_sum_of_filtered<A>(s: Seq<A>, test: spec_fn(A) -> bool, weight: spec_fn(A) -> int)
    ensures
        sum(s.filter(test).map_values(weight)) == sum(s.map_values(weight_if(test, weight))),
    decreases s.len(),
{
    reveal(Seq::filter);
    if s.len() == 0 {
        assert(s.filter(test).map_values(weight) =~= Seq::empty());
        assert(s.map_values(weight_if(test, weight)) =~= Seq::empty());
    } else {
        let rest = s.drop_last();
        let last = s.last();
        lemma_sum_of_filtered(rest, test, weight);
        assert(s.map_values(weight_if(test, weight)) =~= rest.map_values(
            weight_if(test, weight),
        ).push(weight_if(test, weight)(last)));
        lemma_sum_push(rest.map_values(weight_if(test, weight)), weight_if(test, weight)(last));
        if test(last) {
            assert(s.filter(test).map_values(weight) =~= rest.filter(test).map_values(weight).push(
                weight(last),
            ));
            lemma_sum_push(rest.filter(test).map_values(weight), weight(last));
        }
    }
}

/// The sum of the weights of a run does not depend on its order.
pub proof fn lemma_weighted_sum_permutation<A>(
    first: Seq<A>,
    second: Seq<A>,
    weight: spec_fn(A) -> int,
)
    requires
        first.to_multiset() == second.to_multiset(),
    ensures
        sum(first.map_values(weight)) == sum(second.map_values(weight)),
    decreases first.len(),
{
    broadcast use vstd::seq_lib::group_to_multiset_ensures;

    first.to_multiset_ensures();
    second.to_multiset_ensures();
    if first.len() == 0 {
        assert(second.len() == 0);
        assert(first.map_values(weight) =~= second.map_values(weight));
    } else {
        let last = first.last();
        assert(first.to_multiset().count(last) > 0) by {
            assert(first.contains(last));
        }
        assert(second.contains(last));
        let at = second.index_of(last);
        assert(first.drop_last() =~= first.remove(first.len() - 1));
        assert(first.drop_last().to_multiset() =~= first.to_multiset().remove(last));
        assert(second.remove(at).to_multiset() =~= second.to_multiset().remove(last));
        lemma_weighted_sum_permutation(first.drop_last(), second.remove(at), weight);
        assert(second.map_values(weight).remove(at) =~= second.remove(at).map_values(weight));
        lemma_sum_remove(second.map_values(weight), at);
        assert(first.map_values(weight) =~= first.drop_last().map_values(weight).push(weight(last)));
        lemma_sum_push(first.drop_last().map_values(weight), weight(last));
    }
}

/// The sum of the weights of what passes a test does not depend on the order
/// of the run.
pub proof fn lemma_filtered_sum_permutation<A>(
    first: Seq<A>,
    second: Seq<A>,
    test: spec_fn(A) -> bool,
    weight: spec_fn(A) -> int,
)
    requires
        first.to_multiset() == second.to_multiset(),
    ensures
        sum(first.filter(test).map_values(weight)) == sum(second.filter(test).map_values(weight)),
{
    lemma_sum_of_filtered(first, test, weight);
    lemma_sum_of_filtered(second, test, weight);
    lemma_weighted_sum_permutation(first, second, weight_if(test, weight));
}

} // verus!
