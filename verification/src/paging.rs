//! The keyset pagination contract, stated over sequences.
//!
//! A scan order is a strict total order on records. A source hands out one
//! page at a time: the first `limit` records that lie strictly after the
//! cursor position, in scan order. These lemmas connect "filter the stream
//! by the cursor" with "skip the records already seen", which is what makes
//! a scan resumable: as long as already-returned records keep their sort
//! keys, no record is revisited and none is skipped.

use vstd::prelude::*;
use vstd::seq_lib::group_seq_properties;

verus! {

/// Every pair of positions in `s` is ordered by `lt`: the sequence is
/// strictly sorted.
pub open spec fn pairwise<T>(s: Seq<T>, lt: spec_fn(T, T) -> bool) -> bool {
    forall|i: int, j: int| 0 <= i < j < s.len() ==> #[trigger] lt(s[i], s[j])
}

/// A filter that keeps nothing returns the empty sequence.
pub proof fn lemma_filter_of_none<T>(s: Seq<T>, p: spec_fn(T) -> bool)
    requires
        forall|i: int| 0 <= i < s.len() ==> !p(#[trigger] s[i]),
    ensures
        s.filter(p) =~= Seq::<T>::empty(),
    decreases s.len(),
{
    reveal(Seq::filter);
    if s.len() > 0 {
        lemma_filter_of_none(s.drop_last(), p);
    }
}

/// A filter that keeps everything returns the sequence unchanged.
pub proof fn lemma_filter_of_all<T>(s: Seq<T>, p: spec_fn(T) -> bool)
    requires
        forall|i: int| 0 <= i < s.len() ==> p(#[trigger] s[i]),
    ensures
        s.filter(p) =~= s,
    decreases s.len(),
{
    reveal(Seq::filter);
    if s.len() > 0 {
        lemma_filter_of_all(s.drop_last(), p);
    }
}

/// When the first `k` records fail the filter and all later records pass
/// it, filtering is the same as skipping the first `k` records. This is the
/// resumability of a keyset scan: the records at or before the cursor are
/// exactly the ones already seen.
pub proof fn lemma_filter_is_skip<T>(s: Seq<T>, p: spec_fn(T) -> bool, k: int)
    requires
        0 <= k <= s.len(),
        forall|i: int| 0 <= i < k ==> !p(#[trigger] s[i]),
        forall|i: int| k <= i < s.len() ==> p(#[trigger] s[i]),
    ensures
        s.filter(p) =~= s.skip(k),
    decreases s.len(),
{
    reveal(Seq::filter);
    if s.len() == 0 {
    } else if k == s.len() {
        lemma_filter_of_none(s, p);
    } else {
        lemma_filter_is_skip(s.drop_last(), p, k);
        assert(s.filter(p) =~= s.drop_last().filter(p).push(s.last()));
        assert(s.skip(k) =~= s.drop_last().skip(k).push(s.last()));
    }
}

/// Filtering a one-record sequence keeps or drops that record.
pub proof fn lemma_filter_singleton<T>(x: T, p: spec_fn(T) -> bool)
    ensures
        seq![x].filter(p) == if p(x) {
            seq![x]
        } else {
            Seq::<T>::empty()
        },
{
    reveal(Seq::filter);
    assert(seq![x].drop_last() =~= Seq::<T>::empty());
    assert(Seq::<T>::empty().filter(p) =~= Seq::<T>::empty());
    if p(x) {
        assert(seq![x].filter(p) =~= seq![x]);
    } else {
        assert(seq![x].filter(p) =~= Seq::<T>::empty());
    }
}

/// Extending a prefix by one record extends its filtered image by that
/// record, when the record passes the filter.
pub proof fn lemma_filter_take_step<T>(s: Seq<T>, p: spec_fn(T) -> bool, i: int)
    requires
        0 <= i < s.len(),
    ensures
        s.take(i + 1).filter(p) == s.take(i).filter(p) + if p(s[i]) {
            seq![s[i]]
        } else {
            Seq::<T>::empty()
        },
{
    assert(s.take(i + 1) =~= s.take(i) + seq![s[i]]);
    Seq::filter_distributes_over_add(s.take(i), seq![s[i]], p);
    lemma_filter_singleton(s[i], p);
}

/// Filtering by a conjunction is filtering by one conjunct, then the other.
pub proof fn lemma_filter_compose<T>(
    s: Seq<T>,
    p: spec_fn(T) -> bool,
    q: spec_fn(T) -> bool,
    r: spec_fn(T) -> bool,
)
    requires
        forall|x: T| #[trigger] r(x) == (p(x) && q(x)),
    ensures
        s.filter(r) == s.filter(p).filter(q),
    decreases s.len(),
{
    reveal(Seq::filter);
    if s.len() > 0 {
        lemma_filter_compose(s.drop_last(), p, q, r);
        let dl = s.drop_last();
        let last = s.last();
        if p(last) {
            assert(s.filter(p) =~= dl.filter(p).push(last));
            assert(dl.filter(p).push(last) =~= dl.filter(p) + seq![last]);
            Seq::filter_distributes_over_add(dl.filter(p), seq![last], q);
            lemma_filter_singleton(last, q);
            if q(last) {
                assert(s.filter(r) =~= dl.filter(r).push(last));
                assert(s.filter(p).filter(q) =~= dl.filter(p).filter(q).push(last));
            } else {
                assert(s.filter(r) =~= dl.filter(r));
                assert(s.filter(p).filter(q) =~= dl.filter(p).filter(q));
            }
        } else {
            assert(s.filter(r) =~= dl.filter(r));
            assert(s.filter(p) =~= dl.filter(p));
        }
    }
}

/// Every record of a filtered sequence occurs in the original.
pub proof fn lemma_filter_subset<T>(s: Seq<T>, p: spec_fn(T) -> bool)
    ensures
        forall|i: int|
            0 <= i < s.filter(p).len() ==> s.contains(#[trigger] s.filter(p)[i]),
    decreases s.len(),
{
    reveal(Seq::filter);
    if s.len() > 0 {
        lemma_filter_subset(s.drop_last(), p);
        let out = s.filter(p);
        let sub = s.drop_last().filter(p);
        assert forall|i: int| 0 <= i < out.len() implies s.contains(out[i]) by {
            if i < sub.len() {
                assert(sub[i] == out[i]);
                let j = choose|j: int| 0 <= j < s.drop_last().len() && s.drop_last()[j] == sub[i];
                assert(s[j] == out[i]);
            } else {
                assert(out[i] == s[s.len() - 1]);
            }
        }
    }
}

/// Filtering a strictly sorted sequence leaves it strictly sorted.
pub proof fn lemma_filter_pairwise<T>(s: Seq<T>, p: spec_fn(T) -> bool, lt: spec_fn(T, T) -> bool)
    requires
        pairwise(s, lt),
    ensures
        pairwise(s.filter(p), lt),
    decreases s.len(),
{
    broadcast use group_seq_properties;

    reveal(Seq::filter);
    if s.len() > 0 {
        let dl = s.drop_last();
        assert(pairwise(dl, lt)) by {
            assert forall|i: int, j: int| 0 <= i < j < dl.len() implies #[trigger] lt(
                dl[i],
                dl[j],
            ) by {
                assert(lt(s[i], s[j]));
            }
        }
        lemma_filter_pairwise(dl, p, lt);
        let out = s.filter(p);
        let sub = dl.filter(p);
        if p(s.last()) {
            assert(out =~= sub.push(s.last()));
            lemma_filter_subset(dl, p);
            assert forall|i: int, j: int| 0 <= i < j < out.len() implies #[trigger] lt(
                out[i],
                out[j],
            ) by {
                if j < out.len() - 1 {
                    assert(lt(sub[i], sub[j]));
                } else {
                    assert(dl.contains(sub[i]));
                    let k = choose|k: int| 0 <= k < dl.len() && dl[k] == sub[i];
                    assert(lt(s[k], s[s.len() - 1]));
                }
            }
        } else {
            assert(out =~= sub);
        }
    }
}

} // verus!
