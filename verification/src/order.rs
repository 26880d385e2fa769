//! Stable ordering by a numeric rank, highest rank first: the order in which
//! recommendations and top repositories are listed.
use vstd::prelude::*;

verus! {

/// A value with a numeric rank, read from its view.
pub trait Ranked: View + Sized {
    /// The rank of a view.
    spec fn rank_of(v: Self::V) -> int;

    /// The rank of this value.
    fn rank(&self) -> (r: i64)
        ensures
            r as int == Self::rank_of(self@),
    ;
}

/// The position of the first element of `s` whose rank is below `k`
/// (`s.len()` when there is none).
pub open spec fn first_below<V>(s: Seq<V>, k: int, rank: spec_fn(V) -> int) -> int
    decreases s.len(),
{
    if s.len() == 0 {
        0
    } else if rank(s[0]) < k {
        0
    } else {
        1 + first_below(s.drop_first(), k, rank)
    }
}

/// `x` put into `s` after every element whose rank is at least that of `x`.
pub open spec fn insert_ranked<V>(s: Seq<V>, x: V, rank: spec_fn(V) -> int) -> Seq<V> {
    s.insert(first_below(s, rank(x), rank), x)
}

/// `s` ordered by rank, highest first; elements of equal rank keep the
/// order they have in `s` (a stable sort, as `sort_by` with a descending
/// comparison performs it).
pub open spec fn sort_by_rank<V>(s: Seq<V>, rank: spec_fn(V) -> int) -> Seq<V>
    decreases s.len(),
{
    if s.len() == 0 {
        s
    } else {
        insert_ranked(sort_by_rank(s.drop_last(), rank), s.last(), rank)
    }
}

/// Ranks never increase from one element to a later one.
pub open spec fn is_rank_descending<V>(s: Seq<V>, rank: spec_fn(V) -> int) -> bool {
    forall|i: int, j: int| 0 <= i < j < s.len() ==> rank(#[trigger] s[i]) >= rank(#[trigger] s[j])
}

/// The elements of `s` of rank `k`, in the order of `s`.
pub open spec fn of_rank<V>(s: Seq<V>, k: int, rank: spec_fn(V) -> int) -> Seq<V> {
    s.filter(rank_is(rank, k))
}

/// The test "has rank `k`".
pub open spec fn rank_is<V>(rank: spec_fn(V) -> int, k: int) -> spec_fn(V) -> bool {
    |x: V| rank(x) == k
}

/// The views of the values of `s`.
pub open spec fn views_of<T: View>(s: Seq<T>) -> Seq<T::V> {
    s.map_values(|x: T| x@)
}

/// The rank function of `T`, on views.
pub open spec fn rank_fn<T: Ranked>() -> spec_fn(T::V) -> int {
    |w: T::V| T::rank_of(w)
}

/// Orders `v` by rank, highest first, keeping the order of equal ranks.
pub fn sort_by_rank_desc<T: Ranked>(v: Vec<T>) -> (out: Vec<T>)
    ensures
        views_of(out@) == sort_by_rank(views_of(v@), rank_fn::<T>()),
        out@.len() == v@.len(),
{
    let ghost orig = views_of(v@);
    let ghost rank = rank_fn::<T>();
    let mut input = v;
    let mut out: Vec<T> = Vec::new();
    let ghost mut consumed: int = 0;
    proof {
        assert(views_of(input@) =~= orig.skip(0));
        assert(orig.take(0) =~= Seq::<T::V>::empty());
    }
    while input.len() > 0
        invariant
            0 <= consumed <= orig.len(),
            orig == views_of(v@),
            rank == rank_fn::<T>(),
            views_of(input@) == orig.skip(consumed),
            views_of(out@) == sort_by_rank(orig.take(consumed), rank),
            out@.len() == consumed,
        decreases input.len(),
    {
        let ghost vo = views_of(out@);
        let ghost before = input@;
        let x = input.remove(0);
        assert(before.len() > 0);
        assert(views_of(before).len() == before.len());
        assert(orig.skip(consumed).len() == orig.len() - consumed);
        assert(consumed < orig.len());
        assert(x@ == orig[consumed]) by {
            assert(x == before[0]);
            assert(views_of(before)[0] == before[0]@);
            assert(orig.skip(consumed)[0] == orig[consumed]);
            assert(views_of(before)[0] == orig.skip(consumed)[0]);
        }
        let k = x.rank();
        let mut p: usize = 0;
        assert(vo.skip(0) =~= vo);
        while p < out.len() && out[p].rank() >= k
            invariant
                p <= out.len(),
                vo == views_of(out@),
                rank == rank_fn::<T>(),
                k as int == rank(x@),
                first_below(vo, k as int, rank) == p + first_below(vo.skip(p as int), k as int, rank),
            decreases out.len() - p,
        {
            assert(vo.skip(p as int)[0] == vo[p as int]);
            assert(vo.skip(p as int).drop_first() =~= vo.skip(p + 1));
            p = p + 1;
        }
        proof {
            if p < out.len() {
                assert(vo.skip(p as int)[0] == vo[p as int]);
            } else {
                assert(vo.skip(p as int).len() == 0);
            }
            assert(first_below(vo, k as int, rank) == p);
        }
        out.insert(p, x);
        proof {
            assert(views_of(out@) =~= vo.insert(p as int, x@));
            let t = orig.take(consumed + 1);
            assert(t.drop_last() =~= orig.take(consumed));
            assert(t.last() == orig[consumed]);
            assert forall|i: int| 0 <= i < input@.len() implies #[trigger] views_of(input@)[i]
                == orig.skip(consumed + 1)[i] by {
                assert(input@[i] == before[i + 1]);
                assert(views_of(before)[i + 1] == before[i + 1]@);
                assert(orig.skip(consumed)[i + 1] == orig[consumed + 1 + i]);
            }
            consumed = consumed + 1;
            assert(views_of(input@) =~= orig.skip(consumed));
        }
    }
    proof {
        assert(orig.take(consumed) =~= orig);
    }
    out
}

/// Where `first_below` stands: everything before it ranks at least `k`, and
/// the element at it (if any) ranks below `k`.
pub proof fn lemma_first_below<V>(s: Seq<V>, k: int, rank: spec_fn(V) -> int)
    ensures
        0 <= first_below(s, k, rank) <= s.len(),
        forall|i: int| 0 <= i < first_below(s, k, rank) ==> rank(#[trigger] s[i]) >= k,
        first_below(s, k, rank) < s.len() ==> rank(s[first_below(s, k, rank)]) < k,
    decreases s.len(),
{
    if s.len() > 0 && rank(s[0]) >= k {
        lemma_first_below(s.drop_first(), k, rank);
        assert forall|i: int| 0 <= i < first_below(s, k, rank) implies rank(#[trigger] s[i]) >= k by {
            if i > 0 {
                assert(s[i] == s.drop_first()[i - 1]);
            }
        }
    }
}

/// Sorting by rank keeps the length.
pub proof fn lemma_sort_len<V>(s: Seq<V>, rank: spec_fn(V) -> int)
    ensures
        sort_by_rank(s, rank).len() == s.len(),
    decreases s.len(),
{
    if s.len() > 0 {
        lemma_sort_len(s.drop_last(), rank);
        lemma_first_below(sort_by_rank(s.drop_last(), rank), rank(s.last()), rank);
    }
}

/// The result of sorting by rank is ordered by rank, highest first.
pub proof fn lemma_sort_descending<V>(s: Seq<V>, rank: spec_fn(V) -> int)
    ensures
        is_rank_descending(sort_by_rank(s, rank), rank),
    decreases s.len(),
{
    if s.len() > 0 {
        let t = sort_by_rank(s.drop_last(), rank);
        let x = s.last();
        lemma_sort_descending(s.drop_last(), rank);
        lemma_first_below(t, rank(x), rank);
        let p = first_below(t, rank(x), rank);
        let r = t.insert(p, x);
        assert forall|i: int, j: int| 0 <= i < j < r.len() implies rank(#[trigger] r[i]) >= rank(
            #[trigger] r[j],
        ) by {
            if i < p && j < p {
                assert(r[i] == t[i] && r[j] == t[j]);
            } else if i < p && j == p {
                assert(r[i] == t[i]);
            } else if i < p {
                assert(r[i] == t[i] && r[j] == t[j - 1]);
            } else if i == p {
                assert(r[j] == t[j - 1]);
                assert(rank(t[j - 1]) <= rank(t[p]));
            } else {
                assert(r[i] == t[i - 1] && r[j] == t[j - 1]);
            }
        }
    }
}

/// Filtering a sequence extended by one element.
pub proof fn lemma_filter_push<V>(s: Seq<V>, x: V, pred: spec_fn(V) -> bool)
    ensures
        s.push(x).filter(pred) == (if pred(x) {
            s.filter(pred).push(x)
        } else {
            s.filter(pred)
        }),
{
    reveal(Seq::filter);
    assert(s.push(x).drop_last() =~= s);
}

/// Filtering keeps nothing of a sequence none of whose elements qualify.
pub proof fn lemma_filter_none<V>(s: Seq<V>, pred: spec_fn(V) -> bool)
    requires
        forall|i: int| 0 <= i < s.len() ==> !pred(#[trigger] s[i]),
    ensures
        s.filter(pred) == Seq::<V>::empty(),
    decreases s.len(),
{
    reveal(Seq::filter);
    if s.len() > 0 {
        lemma_filter_none(s.drop_last(), pred);
    }
    assert(s.filter(pred) =~= Seq::<V>::empty());
}

/// Sorting by rank keeps, for every rank, the elements of that rank and
/// their order: it neither adds, drops nor reorders equally ranked items.
pub proof fn lemma_sort_keeps_each_rank<V>(s: Seq<V>, k: int, rank: spec_fn(V) -> int)
    ensures
        of_rank(sort_by_rank(s, rank), k, rank) == of_rank(s, k, rank),
    decreases s.len(),
{
    let pred = rank_is(rank, k);
    if s.len() == 0 {
    } else {
        let t = sort_by_rank(s.drop_last(), rank);
        let x = s.last();
        lemma_sort_keeps_each_rank(s.drop_last(), k, rank);
        lemma_sort_descending(s.drop_last(), rank);
        lemma_first_below(t, rank(x), rank);
        let p = first_below(t, rank(x), rank);
        let head = t.subrange(0, p);
        let tail = t.subrange(p, t.len() as int);
        assert(t =~= head + tail);
        assert(t.insert(p, x) =~= head.push(x) + tail);
        Seq::filter_distributes_over_add(head, tail, pred);
        Seq::filter_distributes_over_add(head.push(x), tail, pred);
        lemma_filter_push(head, x, pred);
        lemma_filter_push(s.drop_last(), x, pred);
        assert(s.drop_last().push(x) =~= s);
        if rank(x) == k {
            assert forall|i: int| 0 <= i < tail.len() implies !pred(#[trigger] tail[i]) by {
                assert(tail[i] == t[p + i]);
                assert(rank(t[p + i]) <= rank(t[p]));
            }
            lemma_filter_none(tail, pred);
            assert(head.filter(pred) + tail.filter(pred) =~= head.filter(pred));
            assert(head.filter(pred).push(x) + tail.filter(pred) =~= head.filter(pred).push(x));
        } else {
            assert(head.filter(pred).push(x) =~= head.filter(pred) + seq![x]);
        }
    }
}

} // verus!
