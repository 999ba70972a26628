//! The grouped matches of a document and the cursor over their groups.

use vstd::prelude::*;
use vstd::slice::slice_subrange;
use std::ops::Range;
use sdset::SetBuf;
use crate::order::{Match, sorted, sort_matches};
use crate::set_buf::{set_buf_items, set_buf_unchecked, set_buf_into_vec};
use crate::grouping::{is_grouping, group_of, groups_of, group_ranges};

verus! {

/// The matches of a document, sorted, with their runs of equal query index.
#[derive(Debug, Clone)]
pub struct Matches {
    matches: Vec<Match>,
    slices: Vec<Range<usize>>,
}

impl Matches {
    /// The matches, in their order.
    pub closed spec fn items(&self) -> Seq<Match> {
        self.matches@
    }

    /// The ranges of the runs of equal query index.
    pub closed spec fn ranges(&self) -> Seq<Range<usize>> {
        self.slices@
    }

    /// The ranges are the maximal runs of the matches.
    pub open spec fn wf(&self) -> bool {
        is_grouping(self.items(), self.ranges())
    }

    /// The runs of matches, one for each range.
    pub open spec fn groups(&self) -> Seq<Seq<Match>> {
        groups_of(self.items(), self.ranges())
    }

    /// Groups matches that the caller has sorted already. Nothing is checked:
    /// out of order, the runs are still maximal but a query index may stand in
    /// more than one of them.
    pub fn new(matches: SetBuf<Match>) -> (r: Matches)
        ensures
            r.items() == set_buf_items(matches),
            r.wf(),
    {
        let matches = set_buf_into_vec(matches);
        let slices = group_ranges(&matches);
        Matches { matches, slices }
    }

    /// Sorts the matches, keeping equal ones, then groups them.
    pub fn from_unsorted(matches: Vec<Match>) -> (r: Matches)
        ensures
            sorted(r.items()),
            r.items().to_multiset() == matches@.to_multiset(),
            r.items().len() == matches@.len(),
            r.wf(),
    {
        let matches = sort_matches(matches);
        let matches = set_buf_unchecked(matches);
        Matches::new(matches)
    }

    /// A cursor over the runs, from the first to the last.
    pub fn query_index_groups(&self) -> (r: QueryIndexGroups<'_, '_>)
        requires
            self.wf(),
        ensures
            r.wf(),
            r.remaining() == self.groups(),
    {
        let r = QueryIndexGroups {
            matches: self.matches.as_slice(),
            slices: self.slices.as_slice(),
            front: 0,
            back: self.slices.len(),
        };
        assert(r.slices@.subrange(0, r.back as int) =~= self.slices@);
        r
    }

    /// All the matches, in their order.
    pub fn as_matches(&self) -> (r: &[Match])
        ensures
            r@ == self.items(),
    {
        self.matches.as_slice()
    }
}

/// A cursor over the runs of a `Matches`, that yields each run as a slice
/// and can be read from both ends.
pub struct QueryIndexGroups<'a, 'b> {
    matches: &'a [Match],
    slices: &'b [Range<usize>],
    front: usize,
    back: usize,
}

impl<'a, 'b> QueryIndexGroups<'a, 'b> {
    /// The runs not yet consumed lie between `front` and `back`, and every
    /// range lies within the matches.
    pub closed spec fn wf(&self) -> bool {
        &&& self.front <= self.back <= self.slices@.len()
        &&& forall|i: int|
            0 <= i < self.slices@.len() ==> (#[trigger] self.slices@[i]).start <= self.slices@[i].end
                <= self.matches@.len()
    }

    /// The runs not yet consumed, in order.
    pub closed spec fn remaining(&self) -> Seq<Seq<Match>> {
        groups_of(self.matches@, self.slices@.subrange(self.front as int, self.back as int))
    }

    fn group(&self, i: usize) -> (r: &'a [Match])
        requires
            self.wf(),
            i < self.slices@.len(),
        ensures
            r@ == group_of(self.matches@, self.slices@[i as int]),
    {
        let start = self.slices[i].start;
        let end = self.slices[i].end;
        slice_subrange(self.matches, start, end)
    }

    /// Yields the first run not yet consumed.
    pub fn next(&mut self) -> (r: Option<&'a [Match]>)
        requires
            old(self).wf(),
        ensures
            final(self).wf(),
            match r {
                None => old(self).remaining().len() == 0 && final(self).remaining()
                    == old(self).remaining(),
                Some(g) => old(self).remaining().len() > 0 && g@ == old(self).remaining()[0]
                    && final(self).remaining() == old(self).remaining().drop_first(),
            },
    {
        if self.front < self.back {
            let g = self.group(self.front);
            self.front = self.front + 1;
            assert(self.remaining() =~= old(self).remaining().drop_first());
            Some(g)
        } else {
            None
        }
    }

    /// Yields the last run not yet consumed.
    pub fn next_back(&mut self) -> (r: Option<&'a [Match]>)
        requires
            old(self).wf(),
        ensures
            final(self).wf(),
            match r {
                None => old(self).remaining().len() == 0 && final(self).remaining()
                    == old(self).remaining(),
                Some(g) => old(self).remaining().len() > 0 && g@ == old(self).remaining().last()
                    && final(self).remaining() == old(self).remaining().drop_last(),
            },
    {
        if self.front < self.back {
            self.back = self.back - 1;
            let g = self.group(self.back);
            assert(self.remaining() =~= old(self).remaining().drop_last());
            Some(g)
        } else {
            None
        }
    }

    /// Skips `n` runs and yields the next one, without visiting the skipped
    /// ones. Where fewer than `n + 1` runs remain, none are left after it.
    pub fn nth(&mut self, n: usize) -> (r: Option<&'a [Match]>)
        requires
            old(self).wf(),
        ensures
            final(self).wf(),
            match r {
                None => old(self).remaining().len() <= n && final(self).remaining().len() == 0,
                Some(g) => n < old(self).remaining().len() && g@ == old(self).remaining()[n as int]
                    && final(self).remaining() == old(self).remaining().skip(n + 1),
            },
    {
        if n < self.back - self.front {
            let i = self.front + n;
            let g = self.group(i);
            self.front = i + 1;
            assert(self.remaining() =~= old(self).remaining().skip(n + 1));
            Some(g)
        } else {
            self.front = self.back;
            None
        }
    }

    /// The number of runs not yet consumed.
    pub fn len(&self) -> (r: usize)
        requires
            self.wf(),
        ensures
            r == self.remaining().len(),
    {
        self.back - self.front
    }

    /// The number of runs not yet consumed, as lower and upper bound.
    pub fn size_hint(&self) -> (r: (usize, Option<usize>))
        requires
            self.wf(),
        ensures
            r.0 == self.remaining().len(),
            r.1 == Some(r.0),
    {
        let n = self.len();
        (n, Some(n))
    }

    /// Consumes the cursor and gives the number of runs it had left.
    pub fn count(self) -> (r: usize)
        requires
            self.wf(),
        ensures
            r == self.remaining().len(),
    {
        self.len()
    }

    /// Consumes the cursor and gives the last run it had left.
    pub fn last(self) -> (r: Option<&'a [Match]>)
        requires
            self.wf(),
        ensures
            match r {
                None => self.remaining().len() == 0,
                Some(g) => self.remaining().len() > 0 && g@ == self.remaining().last(),
            },
    {
        if self.front < self.back {
            Some(self.group(self.back - 1))
        } else {
            None
        }
    }
}

} // verus!

verus! {

/// The runs that forward steps yield, one after the other, from a cursor
/// whose remaining runs are `q`: each step yields the first and drops it.
pub open spec fn forward_collect(q: Seq<Seq<Match>>) -> Seq<Seq<Match>>
    decreases q.len(),
{
    if q.len() == 0 {
        seq![]
    } else {
        seq![q[0]] + forward_collect(q.drop_first())
    }
}

/// The runs that backward steps yield, one after the other, from a cursor
/// whose remaining runs are `q`: each step yields the last and drops it.
pub open spec fn backward_collect(q: Seq<Seq<Match>>) -> Seq<Seq<Match>>
    decreases q.len(),
{
    if q.len() == 0 {
        seq![]
    } else {
        seq![q.last()] + backward_collect(q.drop_last())
    }
}

/// The number of forward steps that take a cursor whose remaining runs are
/// `q` to exhaustion.
pub open spec fn forward_steps(q: Seq<Seq<Match>>) -> nat
    decreases q.len(),
{
    if q.len() == 0 {
        0
    } else {
        1 + forward_steps(q.drop_first())
    }
}

proof fn lemma_forward_collect(q: Seq<Seq<Match>>)
    ensures
        forward_collect(q) == q,
    decreases q.len(),
{
    if q.len() > 0 {
        lemma_forward_collect(q.drop_first());
        assert(seq![q[0]] + q.drop_first() =~= q);
    }
}

proof fn lemma_backward_collect(q: Seq<Seq<Match>>)
    ensures
        backward_collect(q) == q.reverse(),
    decreases q.len(),
{
    if q.len() > 0 {
        lemma_backward_collect(q.drop_last());
        assert(seq![q.last()] + q.drop_last().reverse() =~= q.reverse());
    }
}

/// Collecting every run by forward steps gives the reverse of collecting
/// every run by backward steps.
pub proof fn lemma_forward_backward_symmetry(g: QueryIndexGroups)
    ensures
        forward_collect(g.remaining()) == backward_collect(g.remaining()).reverse(),
{
    let q = g.remaining();
    lemma_forward_collect(q);
    lemma_backward_collect(q);
    assert(q.reverse().reverse() =~= q);
}

/// The number of runs that a cursor reports as left is the number of
/// forward steps that exhaust it.
pub proof fn lemma_count_consistency(g: QueryIndexGroups)
    ensures
        forward_steps(g.remaining()) == g.remaining().len(),
{
    lemma_forward_steps(g.remaining());
}

proof fn lemma_forward_steps(q: Seq<Seq<Match>>)
    ensures
        forward_steps(q) == q.len(),
    decreases q.len(),
{
    if q.len() > 0 {
        lemma_forward_steps(q.drop_first());
    }
}

} // verus!
