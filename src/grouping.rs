//! The partition of a match sequence into maximal runs of equal query index.

use vstd::prelude::*;
use std::ops::Range;
use crate::order::{Match, sorted_by_query};

verus! {

/// `r` splits the first `n` positions of `s` into nonempty, contiguous,
/// ordered ranges, each a run of one query index, with a change of query
/// index at every boundary between two ranges.
pub open spec fn groups_prefix(s: Seq<Match>, r: Seq<Range<usize>>, n: int) -> bool {
    &&& (r.len() == 0 <==> n == 0)
    &&& r.len() > 0 ==> r[0].start == 0 && r.last().end == n
    &&& forall|i: int| 0 <= i < r.len() ==> (#[trigger] r[i]).start < r[i].end <= n
    &&& forall|i: int| 0 < i < r.len() ==> (#[trigger] r[i]).start == r[i - 1].end
    &&& forall|i: int, k: int|
        #![trigger r[i], s[k]]
        0 <= i < r.len() && r[i].start <= k < r[i].end ==> s[k].query_index
            == s[r[i].start as int].query_index
    &&& forall|i: int|
        0 < i < r.len() ==> s[(#[trigger] r[i]).start - 1].query_index != s[r[i].start as int].query_index
}

/// `r` is the partition of the whole of `s` into its maximal runs of equal
/// query index, in the order in which they stand in `s`.
pub open spec fn is_grouping(s: Seq<Match>, r: Seq<Range<usize>>) -> bool {
    groups_prefix(s, r, s.len() as int)
}

/// The run of matches that a range selects.
pub open spec fn group_of(s: Seq<Match>, g: Range<usize>) -> Seq<Match> {
    s.subrange(g.start as int, g.end as int)
}

/// The runs of matches that a sequence of ranges selects.
pub open spec fn groups_of(s: Seq<Match>, r: Seq<Range<usize>>) -> Seq<Seq<Match>> {
    Seq::new(r.len(), |i: int| group_of(s, r[i]))
}

/// Position `k` lies in range `g`.
pub open spec fn range_holds(g: Range<usize>, k: int) -> bool {
    g.start <= k < g.end
}

/// Position `k` lies in one of the ranges of `r`.
pub open spec fn in_some_range(r: Seq<Range<usize>>, k: int) -> bool {
    exists|i: int| 0 <= i < r.len() && #[trigger] range_holds(r[i], k)
}

/// Tells whether two matches answer the same query term.
pub fn match_query_index(a: &Match, b: &Match) -> (r: bool)
    ensures
        r == (a.query_index == b.query_index),
{
    a.query_index == b.query_index
}

/// Splits `s` into its maximal runs of equal query index, in one pass.
pub fn group_ranges(s: &Vec<Match>) -> (r: Vec<Range<usize>>)
    ensures
        is_grouping(s@, r@),
{
    let mut slices: Vec<Range<usize>> = Vec::new();
    if s.len() == 0 {
        return slices;
    }
    let mut start: usize = 0;
    let mut i: usize = 1;
    while i < s.len()
        invariant
            start < i <= s.len(),
            groups_prefix(s@, slices@, start as int),
            forall|k: int| start <= k < i ==> (#[trigger] s@[k]).query_index == s@[start as int].query_index,
            start > 0 ==> s@[start - 1].query_index != s@[start as int].query_index,
        decreases s.len() - i,
    {
        if !match_query_index(&s[i - 1], &s[i]) {
            slices.push(Range { start, end: i });
            start = i;
        }
        i = i + 1;
    }
    slices.push(Range { start, end: s.len() });
    slices
}

/// Each range ends no later than any later range starts.
proof fn lemma_range_before(r: Seq<Range<usize>>, i: int, j: int)
    requires
        forall|x: int| 0 <= x < r.len() ==> (#[trigger] r[x]).start < r[x].end,
        forall|x: int| 0 < x < r.len() ==> (#[trigger] r[x]).start == r[x - 1].end,
        0 <= i < j < r.len(),
    ensures
        r[i].end <= r[j].start,
    decreases j - i,
{
    assert(r[j].start == r[j - 1].end);
    if j > i + 1 {
        lemma_range_before(r, i, j - 1);
        assert(r[j - 1].start < r[j - 1].end);
    }
}

/// Finds, from range `j` on, the range that holds position `k`.
proof fn lemma_find_range(s: Seq<Match>, r: Seq<Range<usize>>, n: int, k: int, j: int) -> (i: int)
    requires
        groups_prefix(s, r, n),
        0 <= j < r.len(),
        r[j].start <= k < n,
    ensures
        0 <= i < r.len(),
        r[i].start <= k < r[i].end,
    decreases r.len() - j,
{
    if k < r[j].end {
        j
    } else {
        assert(r[j + 1].start == r[j].end);
        lemma_find_range(s, r, n, k, j + 1)
    }
}

/// The runs of a grouping cover every position of the sequence, each in
/// exactly one run, and every run holds one query index.
pub proof fn lemma_grouping_partitions(s: Seq<Match>, r: Seq<Range<usize>>)
    requires
        is_grouping(s, r),
    ensures
        forall|k: int| 0 <= k < s.len() ==> #[trigger] in_some_range(r, k),
        forall|i: int, j: int, k: int|
            0 <= i < r.len() && 0 <= j < r.len() && #[trigger] range_holds(r[i], k)
                && #[trigger] range_holds(r[j], k) ==> i == j,
        forall|i: int, k: int|
            #![trigger r[i], s[k]]
            0 <= i < r.len() && r[i].start <= k < r[i].end ==> s[k].query_index
                == s[r[i].start as int].query_index,
{
    let n = s.len() as int;
    assert forall|k: int| 0 <= k < s.len() implies #[trigger] in_some_range(r, k) by {
        let i = lemma_find_range(s, r, n, k, 0);
        assert(range_holds(r[i], k));
    }
    assert forall|i: int, j: int, k: int|
        0 <= i < r.len() && 0 <= j < r.len() && #[trigger] range_holds(r[i], k)
            && #[trigger] range_holds(r[j], k) implies i == j by {
        if i < j {
            lemma_range_before(r, i, j);
        } else if j < i {
            lemma_range_before(r, j, i);
        }
    }
}

/// Where the matches are sorted by query index, the runs of a grouping come
/// in strictly increasing order of query index.
pub proof fn lemma_grouping_increasing(s: Seq<Match>, r: Seq<Range<usize>>)
    requires
        is_grouping(s, r),
        sorted_by_query(s),
    ensures
        forall|i: int, j: int|
            0 <= i < j < r.len() ==> s[(#[trigger] r[i]).start as int].query_index
                < s[(#[trigger] r[j]).start as int].query_index,
{
    assert forall|i: int, j: int| 0 <= i < j < r.len() implies s[(#[trigger] r[i]).start as int].query_index
        < s[(#[trigger] r[j]).start as int].query_index by {
        lemma_range_before(r, i, j);
        let a = r[i].start as int;
        let b = r[j].start as int;
        assert(s[a].query_index <= s[b - 1].query_index || a == b - 1);
        assert(s[b - 1].query_index <= s[b].query_index);
    }
}

} // verus!
