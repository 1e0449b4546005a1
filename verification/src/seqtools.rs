//! Small sequence lemmas shared by the registry operations.

use vstd::prelude::*;

verus! {

/// A filter that keeps every element is the identity.
pub proof fn lemma_filter_all_kept<A>(s: Seq<A>, pred: spec_fn(A) -> bool)
    requires
        forall|i: int| 0 <= i < s.len() ==> pred(#[trigger] s[i]),
    ensures
        s.filter(pred) =~= s,
    decreases s.len(),
{
    reveal(Seq::filter);
    if s.len() > 0 {
        lemma_filter_all_kept(s.drop_last(), pred);
    }
}

/// Removing the only element that the filter drops is the same as
/// filtering the whole sequence.
pub proof fn lemma_remove_one_is_filter<A>(s: Seq<A>, pred: spec_fn(A) -> bool, i: int)
    requires
        0 <= i < s.len(),
        !pred(s[i]),
        forall|j: int| 0 <= j < s.len() && j != i ==> pred(#[trigger] s[j]),
    ensures
        s.remove(i) =~= s.filter(pred),
{
    reveal_with_fuel(Seq::filter, 3);
    let left = s.take(i);
    let mid = seq![s[i]];
    let right = s.skip(i + 1);
    assert(s =~= left + mid + right);
    Seq::filter_distributes_over_add(left + mid, right, pred);
    Seq::filter_distributes_over_add(left, mid, pred);
    assert(mid.drop_last() =~= Seq::<A>::empty());
    assert(mid.filter(pred) =~= Seq::<A>::empty());
    lemma_filter_all_kept(left, pred);
    lemma_filter_all_kept(right, pred);
    assert(s.filter(pred) =~= left + right);
    assert(s.remove(i) =~= left + right);
}

/// Pushing an element the filter drops leaves the filtered sequence as it
/// was.
pub proof fn lemma_filter_push_dropped<A>(s: Seq<A>, pred: spec_fn(A) -> bool, x: A)
    requires
        !pred(x),
    ensures
        s.push(x).filter(pred) =~= s.filter(pred),
{
    reveal(Seq::filter);
    assert(s.push(x).drop_last() =~= s);
    assert(s.push(x).last() == x);
}

/// Filtering keeps keys unique, and every surviving element stems from the
/// original sequence.
pub proof fn lemma_filter_unique_keys<A>(s: Seq<A>, pred: spec_fn(A) -> bool, key: spec_fn(A) -> u32)
    requires
        forall|i: int, j: int| 0 <= i < j < s.len() ==> key(s[i]) != key(s[j]),
    ensures
        forall|i: int, j: int|
            0 <= i < j < s.filter(pred).len() ==> key(s.filter(pred)[i]) != key(s.filter(pred)[j]),
        forall|i: int|
            0 <= i < s.filter(pred).len() ==> exists|k: int|
                0 <= k < s.len() && #[trigger] s.filter(pred)[i] == s[k],
    decreases s.len(),
{
    reveal(Seq::filter);
    if s.len() > 0 {
        let head = s.drop_last();
        lemma_filter_unique_keys(head, pred, key);
        assert(forall|i: int| 0 <= i < head.len() ==> head[i] == s[i]);
        let sub = head.filter(pred);
        if pred(s.last()) {
            let out = s.filter(pred);
            assert(out == sub.push(s.last()));
            assert forall|i: int|
                0 <= i < out.len() implies exists|k: int|
                0 <= k < s.len() && #[trigger] out[i] == s[k] by {
                if i < sub.len() {
                    let k = choose|k: int| 0 <= k < head.len() && sub[i] == head[k];
                    assert(out[i] == s[k]);
                } else {
                    assert(out[i] == s[s.len() - 1]);
                }
            }
            assert forall|i: int, j: int|
                0 <= i < j < out.len() implies key(out[i]) != key(out[j]) by {
                if j == out.len() - 1 {
                    let k = choose|k: int| 0 <= k < head.len() && sub[i] == head[k];
                    assert(key(out[i]) == key(s[k]));
                    assert(key(out[j]) == key(s[s.len() - 1]));
                }
            }
        } else {
            let out = s.filter(pred);
            assert(out == sub);
            assert forall|i: int|
                0 <= i < out.len() implies exists|k: int|
                0 <= k < s.len() && #[trigger] out[i] == s[k] by {
                let k = choose|k: int| 0 <= k < head.len() && sub[i] == head[k];
                assert(out[i] == s[k]);
            }
            assert forall|i: int, j: int|
                0 <= i < j < out.len() implies key(out[i]) != key(out[j]) by {
                assert(key(sub[i]) != key(sub[j]));
            }
        }
    }
}

} // verus!
