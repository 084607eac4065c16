//! Ordering a run of sealed headers from the highest block number to the
//! lowest. Responders need not send a run in order, so it is ordered here
//! before anything is read from it.

use crate::primitives::SealedHeader;
use vstd::prelude::*;

verus! {

/// The block numbers never rise from one position to the next.
pub open spec fn is_descending<H>(s: Seq<SealedHeader<H>>) -> bool {
    forall|i: int, j: int| 0 <= i < j < s.len() ==> s[i].number >= s[j].number
}

/// How many headers at the front of `s` carry a number above `number`.
pub open spec fn rank_desc<H>(s: Seq<SealedHeader<H>>, number: u64) -> int
    decreases s.len(),
{
    if s.len() == 0 || s[0].number <= number {
        0
    } else {
        1 + rank_desc(s.drop_first(), number)
    }
}

/// `s` ordered by descending block number. Headers with the same number keep
/// the order in which they stood in `s`.
pub open spec fn sort_desc<H>(s: Seq<SealedHeader<H>>) -> Seq<SealedHeader<H>>
    decreases s.len(),
{
    if s.len() == 0 {
        s
    } else {
        let rest = sort_desc(s.drop_first());
        rest.insert(rank_desc(rest, s[0].number), s[0])
    }
}

/// The rank is a position in `s`, every header before it is above `number`,
/// and the header at it, if there is one, is not.
pub proof fn lemma_rank_desc_bounds<H>(s: Seq<SealedHeader<H>>, number: u64)
    ensures
        0 <= rank_desc(s, number) <= s.len(),
        forall|j: int| 0 <= j < rank_desc(s, number) ==> s[j].number > number,
        rank_desc(s, number) < s.len() ==> s[rank_desc(s, number)].number <= number,
    decreases s.len(),
{
    if s.len() == 0 || s[0].number <= number {
    } else {
        let t = s.drop_first();
        lemma_rank_desc_bounds(t, number);
        assert forall|j: int| 0 <= j < rank_desc(s, number) implies s[j].number > number by {
            if j > 0 {
                assert(s[j] == t[j - 1]);
            }
        }
        if rank_desc(s, number) < s.len() {
            assert(s[rank_desc(s, number)] == t[rank_desc(t, number)]);
        }
    }
}

/// A position with only larger numbers before it, and none larger at it, is
/// the rank.
pub proof fn lemma_rank_desc_is<H>(s: Seq<SealedHeader<H>>, number: u64, p: int)
    requires
        0 <= p <= s.len(),
        forall|j: int| 0 <= j < p ==> s[j].number > number,
        p < s.len() ==> s[p].number <= number,
    ensures
        rank_desc(s, number) == p,
    decreases p,
{
    if p > 0 {
        let t = s.drop_first();
        assert forall|j: int| 0 <= j < p - 1 implies t[j].number > number by {
            assert(t[j] == s[j + 1]);
        }
        if p - 1 < t.len() {
            assert(t[p - 1] == s[p]);
        }
        lemma_rank_desc_is(t, number, p - 1);
    }
}

/// Ordering keeps every header, as often as it occurred, adds none, and the
/// numbers of the result never rise.
pub proof fn lemma_sort_desc<H>(s: Seq<SealedHeader<H>>)
    ensures
        sort_desc(s).len() == s.len(),
        sort_desc(s).to_multiset() == s.to_multiset(),
        is_descending(sort_desc(s)),
    decreases s.len(),
{
    broadcast use vstd::multiset::group_multiset_axioms;

    if s.len() == 0 {
    } else {
        let rest = sort_desc(s.drop_first());
        let x = s[0];
        let p = rank_desc(rest, x.number);
        lemma_sort_desc(s.drop_first());
        lemma_rank_desc_bounds(rest, x.number);
        let out = rest.insert(p, x);
        rest.insert_ensures(p, x);
        vstd::seq_lib::to_multiset_insert(rest, p, x);
        assert(s.drop_first().insert(0, x) =~= s);
        vstd::seq_lib::to_multiset_insert(s.drop_first(), 0, x);
        assert forall|i: int, j: int| 0 <= i < j < out.len() implies out[i].number
            >= out[j].number by {
            if j < p {
                assert(out[i] == rest[i] && out[j] == rest[j]);
            } else if j == p {
                assert(out[i] == rest[i]);
            } else if i < p {
                assert(out[i] == rest[i] && out[j] == rest[j - 1]);
            } else if i == p {
                assert(out[j] == rest[j - 1]);
            } else {
                assert(out[i] == rest[i - 1] && out[j] == rest[j - 1]);
            }
        }
    }
}

/// Every header of the ordered run is one of `s`, and every header of `s` is
/// in the ordered run.
pub proof fn lemma_sort_desc_same_headers<H>(s: Seq<SealedHeader<H>>)
    ensures
        forall|i: int|
            0 <= i < s.len() ==> exists|j: int|
                0 <= j < s.len() && s[j] == #[trigger] sort_desc(s)[i],
        forall|j: int|
            0 <= j < s.len() ==> exists|i: int|
                0 <= i < s.len() && sort_desc(s)[i] == #[trigger] s[j],
{
    lemma_sort_desc(s);
    let t = sort_desc(s);
    assert forall|i: int| 0 <= i < s.len() implies exists|j: int|
        0 <= j < s.len() && s[j] == #[trigger] t[i] by {
        vstd::seq_lib::to_multiset_contains(t, t[i]);
        vstd::seq_lib::to_multiset_contains(s, t[i]);
        assert(t.contains(t[i]));
    }
    assert forall|j: int| 0 <= j < s.len() implies exists|i: int|
        0 <= i < s.len() && t[i] == #[trigger] s[j] by {
        vstd::seq_lib::to_multiset_contains(t, s[j]);
        vstd::seq_lib::to_multiset_contains(s, s[j]);
        assert(s.contains(s[j]));
    }
}

/// Orders `headers` from the highest block number to the lowest.
pub fn sort_descending<H>(headers: Vec<SealedHeader<H>>) -> (out: Vec<SealedHeader<H>>)
    ensures
        out@ == sort_desc(headers@),
{
    let ghost all = headers@;
    let mut input = headers;
    let mut out: Vec<SealedHeader<H>> = Vec::new();
    assert(all.subrange(all.len() as int, all.len() as int) =~= Seq::empty());
    while input.len() > 0
        invariant
            input@ == all.subrange(0, input.len() as int),
            input.len() <= all.len(),
            out@ == sort_desc(all.subrange(input.len() as int, all.len() as int)),
        decreases input.len(),
    {
        let ghost k = input.len() as int;
        let ghost rest = out@;
        let x = input.pop().unwrap();
        assert(x == all[k - 1]);
        let mut p: usize = 0;
        while p < out.len() && out[p].number > x.number
            invariant
                p <= out.len(),
                forall|j: int| 0 <= j < p ==> out@[j].number > x.number,
            decreases out.len() - p,
        {
            p += 1;
        }
        proof {
            lemma_rank_desc_is(out@, x.number, p as int);
            let tail = all.subrange(k - 1, all.len() as int);
            assert(tail.drop_first() =~= all.subrange(k, all.len() as int));
            assert(tail[0] == x);
            assert(input@ =~= all.subrange(0, k - 1));
        }
        out.insert(p, x);
    }
    assert(all.subrange(0, all.len() as int) =~= all);
    out
}

} // verus!
