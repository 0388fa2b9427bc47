//! Facts about filtered sequences that the queries rest on.

use vstd::prelude::*;

verus! {

/// Where no element passes the test, nothing is kept.
pub proof fn lemma_filter_none<A>(s: Seq<A>, test: spec_fn(A) -> bool)
    requires
        forall|j: int| 0 <= j < s.len() ==> !test(#[trigger] s[j]),
    ensures
        s.filter(test).len() == 0,
    decreases s.len(),
{
    reveal(Seq::filter);
    if s.len() > 0 {
        lemma_filter_none(s.drop_last(), test);
    }
}

/// The first element that passes the test is the first that is kept.
pub proof fn lemma_filter_first<A>(s: Seq<A>, test: spec_fn(A) -> bool, at: int)
    requires
        0 <= at < s.len(),
        test(s[at]),
        forall|j: int| 0 <= j < at ==> !test(#[trigger] s[j]),
    ensures
        s.filter(test).len() > 0,
        s.filter(test).first() == s[at],
{
    let head = s.take(at);
    let tail = s.skip(at + 1);
    lemma_filter_none(head, test);
    head.lemma_filter_push(s[at], test);
    assert(s =~= head.push(s[at]) + tail);
    Seq::filter_distributes_over_add(head.push(s[at]), tail, test);
    assert(head.filter(test) =~= Seq::empty());
    assert(head.push(s[at]).filter(test) =~= seq![s[at]]);
}

/// Every element kept passes the test and stands in the sequence.
pub proof fn lemma_filter_kept<A>(s: Seq<A>, test: spec_fn(A) -> bool, k: int)
    requires
        0 <= k < s.filter(test).len(),
    ensures
        test(s.filter(test)[k]),
        s.contains(s.filter(test)[k]),
{
    s.lemma_filter_pred(test, k);
    assert(s.filter(test).contains(s.filter(test)[k]));
    s.lemma_filter_contains_rev(test, s.filter(test)[k]);
}

/// Whether no two elements of the sequence have the same key.
pub open spec fn apart<A, K>(s: Seq<A>, key: spec_fn(A) -> K) -> bool {
    forall|i: int, j: int| 0 <= i < j < s.len() ==> key(#[trigger] s[i]) != key(#[trigger] s[j])
}

/// What is kept of a sequence without repeated keys has none either.
pub proof fn lemma_filter_keeps_apart<A, K>(
    s: Seq<A>,
    test: spec_fn(A) -> bool,
    key: spec_fn(A) -> K,
)
    requires
        apart(s, key),
    ensures
        apart(s.filter(test), key),
    decreases s.len(),
{
    reveal(Seq::filter);
    if s.len() > 0 {
        let rest = s.drop_last();
        let last = s.last();
        assert(apart(rest, key)) by {
            assert forall|i: int, j: int| 0 <= i < j < rest.len() implies key(#[trigger] rest[i])
                != key(#[trigger] rest[j]) by {
                assert(rest[i] == s[i]);
                assert(rest[j] == s[j]);
            }
        }
        lemma_filter_keeps_apart(rest, test, key);
        if test(last) {
            let kept = rest.filter(test);
            assert forall|i: int, j: int| 0 <= i < j < kept.push(last).len() implies key(
                #[trigger] kept.push(last)[i],
            ) != key(#[trigger] kept.push(last)[j]) by {
                if j == kept.len() {
                    lemma_filter_kept(rest, test, i);
                    let at = choose|at: int| 0 <= at < rest.len() && rest[at] == kept[i];
                    assert(s[at] == kept[i]);
                    assert(s[s.len() - 1] == last);
                }
            }
        }
    }
}

/// What is kept is exactly what stands in the sequence and passes the test.
pub proof fn lemma_filter_membership<A>(s: Seq<A>, test: spec_fn(A) -> bool)
    ensures
        forall|x: A| #[trigger] s.filter(test).contains(x) <==> s.contains(x) && test(x),
{
    assert forall|x: A| #[trigger] s.filter(test).contains(x) <==> s.contains(x) && test(x) by {
        if s.filter(test).contains(x) {
            let k = choose|k: int| 0 <= k < s.filter(test).len() && s.filter(test)[k] == x;
            lemma_filter_kept(s, test, k);
        }
        if s.contains(x) && test(x) {
            let i = choose|i: int| 0 <= i < s.len() && s[i] == x;
            s.lemma_filter_contains(test, i);
        }
    }
}

} // verus!
