//! Stable sorting by a total preorder: the insertion that the agenda and the account list use,
//! and what it guarantees.
use vstd::prelude::*;

verus! {

/// `le` orders every two values, and transitively.
pub open spec fn is_total_preorder<T>(le: spec_fn(T, T) -> bool) -> bool {
    &&& forall|a: T, b: T| #[trigger] le(a, b) || le(b, a)
    &&& forall|a: T, b: T, c: T| #[trigger] le(a, b) && #[trigger] le(b, c) ==> le(a, c)
}

/// Inserts `e` into `sorted` after every value that `le` does not put after it.
pub open spec fn insert_by<T>(sorted: Seq<T>, e: T, le: spec_fn(T, T) -> bool) -> Seq<T>
    decreases sorted.len(),
{
    if sorted.len() == 0 {
        seq![e]
    } else if le(sorted.last(), e) {
        sorted.push(e)
    } else {
        insert_by(sorted.drop_last(), e, le).push(sorted.last())
    }
}

/// `s` sorted by `le`, one value after the other; values that tie keep the order they came in
/// (a stable sort).
pub open spec fn sort_by<T>(s: Seq<T>, le: spec_fn(T, T) -> bool) -> Seq<T>
    decreases s.len(),
{
    if s.len() == 0 {
        seq![]
    } else {
        insert_by(sort_by(s.drop_last(), le), s.last(), le)
    }
}

/// `s` is in the order `le`.
pub open spec fn ordered_by<T>(s: Seq<T>, le: spec_fn(T, T) -> bool) -> bool {
    forall|i: int, j: int| 0 <= i < j < s.len() ==> le(#[trigger] s[i], #[trigger] s[j])
}

/// Inserting at position `pos`, after which `le` puts nothing before `e`, and where `pos` is the
/// first such position from the back, gives `insert_by`: the step of an insertion loop.
pub proof fn insert_by_split<T>(s: Seq<T>, e: T, le: spec_fn(T, T) -> bool, pos: int)
    requires
        0 < pos <= s.len(),
        !le(s[pos - 1], e),
        insert_by(s, e, le) == insert_by(s.take(pos), e, le) + s.skip(pos),
    ensures
        insert_by(s, e, le) == insert_by(s.take(pos - 1), e, le) + s.skip(pos - 1),
{
    let t = s.take(pos);
    assert(t.drop_last() =~= s.take(pos - 1));
    assert(t.last() == s[pos - 1]);
    assert(insert_by(t, e, le) == insert_by(t.drop_last(), e, le).push(t.last()));
    assert(s.skip(pos - 1) =~= seq![s[pos - 1]] + s.skip(pos));
    assert(insert_by(s.take(pos - 1), e, le).push(s[pos - 1]) + s.skip(pos) =~= insert_by(
        s.take(pos - 1),
        e,
        le,
    ) + s.skip(pos - 1));
}

/// Where the insertion loop stops (at the front, or after a value `le` puts before `e`),
/// `insert_by` is the plain insertion at that position.
pub proof fn insert_by_at<T>(s: Seq<T>, e: T, le: spec_fn(T, T) -> bool, pos: int)
    requires
        0 <= pos <= s.len(),
        pos == 0 || le(s[pos - 1], e),
        insert_by(s, e, le) == insert_by(s.take(pos), e, le) + s.skip(pos),
    ensures
        insert_by(s, e, le) == s.insert(pos, e),
{
    let t = s.take(pos);
    if pos == 0 {
        assert(insert_by(t, e, le) == seq![e]);
    } else {
        assert(t.last() == s[pos - 1]);
        assert(insert_by(t, e, le) == t.push(e));
    }
    assert(insert_by(s, e, le) =~= s.insert(pos, e));
}

/// The start of an insertion loop: nothing passed yet.
pub proof fn insert_by_whole<T>(s: Seq<T>, e: T, le: spec_fn(T, T) -> bool)
    ensures
        insert_by(s, e, le) == insert_by(s.take(s.len() as int), e, le) + s.skip(s.len() as int),
{
    assert(s.take(s.len() as int) =~= s);
    assert(insert_by(s, e, le) + s.skip(s.len() as int) =~= insert_by(s, e, le));
}

proof fn lemma_insert_by<T>(s: Seq<T>, e: T, le: spec_fn(T, T) -> bool)
    requires
        is_total_preorder(le),
    ensures
        insert_by(s, e, le).to_multiset() == s.to_multiset().insert(e),
        insert_by(s, e, le).len() == s.len() + 1,
        forall|k: int|
            0 <= k < insert_by(s, e, le).len() ==> #[trigger] insert_by(s, e, le)[k] == e
                || s.contains(insert_by(s, e, le)[k]),
        ordered_by(s, le) ==> ordered_by(insert_by(s, e, le), le),
    decreases s.len(),
{
    broadcast use vstd::seq_lib::group_seq_properties;

    if s.len() == 0 {
        assert(seq![e] =~= Seq::<T>::empty().push(e));
    } else if le(s.last(), e) {
        assert forall|k: int| 0 <= k < s.push(e).len() implies #[trigger] s.push(e)[k] == e
            || s.contains(s.push(e)[k]) by {
            if k < s.len() {
                assert(s.contains(s[k]));
            }
        }
        if ordered_by(s, le) {
            let r = s.push(e);
            assert forall|i: int, j: int| 0 <= i < j < r.len() implies le(
                #[trigger] r[i],
                #[trigger] r[j],
            ) by {
                if j == s.len() && i < s.len() - 1 {
                    assert(le(s[i], s[s.len() - 1]));
                    assert(le(s[i], s.last()) && le(s.last(), e));
                }
            }
        }
    } else {
        let d = s.drop_last();
        lemma_insert_by(d, e, le);
        let m = insert_by(d, e, le);
        let r = m.push(s.last());
        assert(s =~= d.push(s.last()));
        assert forall|k: int| 0 <= k < r.len() implies #[trigger] r[k] == e || s.contains(r[k]) by {
            if k < m.len() {
                if m[k] != e {
                    let w = choose|w: int| 0 <= w < d.len() && d[w] == m[k];
                    assert(s[w] == m[k]);
                }
            } else {
                assert(s[s.len() - 1] == r[k]);
            }
        }
        if ordered_by(s, le) {
            assert(ordered_by(d, le));
            assert(le(s.last(), e) || le(e, s.last()));
            assert forall|i: int, j: int| 0 <= i < j < r.len() implies le(
                #[trigger] r[i],
                #[trigger] r[j],
            ) by {
                if j == m.len() && m[i] != e {
                    let w = choose|w: int| 0 <= w < d.len() && d[w] == m[i];
                    assert(le(s[w], s[s.len() - 1]));
                }
            }
        }
    }
}

/// Law: sorting by a total preorder puts the values in that order, and keeps every value, each
/// as often as it came (a permutation).
pub proof fn sort_by_sorts<T>(s: Seq<T>, le: spec_fn(T, T) -> bool)
    requires
        is_total_preorder(le),
    ensures
        ordered_by(sort_by(s, le), le),
        sort_by(s, le).to_multiset() == s.to_multiset(),
        sort_by(s, le).len() == s.len(),
    decreases s.len(),
{
    broadcast use vstd::seq_lib::group_seq_properties;

    if s.len() > 0 {
        sort_by_sorts(s.drop_last(), le);
        lemma_insert_by(sort_by(s.drop_last(), le), s.last(), le);
        assert(s =~= s.drop_last().push(s.last()));
    }
}

/// Law: sorting values that are already in order leaves them as they are.
pub proof fn sort_by_keeps_ordered<T>(s: Seq<T>, le: spec_fn(T, T) -> bool)
    requires
        ordered_by(s, le),
    ensures
        sort_by(s, le) == s,
    decreases s.len(),
{
    if s.len() > 0 {
        let d = s.drop_last();
        assert(ordered_by(d, le));
        sort_by_keeps_ordered(d, le);
        if d.len() > 0 {
            assert(le(s[d.len() - 1], s[s.len() - 1]));
        }
        assert(d.push(s.last()) =~= s);
    }
}

} // verus!
