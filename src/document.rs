//! A candidate document with its grouped matches.

use vstd::prelude::*;
use sdset::SetBuf;
use crate::order::{DocumentId, Match, sorted};
use crate::set_buf::{set_buf_items, set_buf_unchecked};
use crate::groups::Matches;

verus! {

/// A document identifier with the matches found in that document.
#[derive(Debug, Clone)]
pub struct Document {
    pub id: DocumentId,
    pub matches: Matches,
}

impl Document {
    /// A document with one match, which forms one run.
    pub fn new(id: DocumentId, match_: Match) -> (r: Self)
        ensures
            r.id == id,
            r.matches.items() == seq![match_],
            r.matches.wf(),
            r.matches.groups() == seq![seq![match_]],
    {
        let mut v: Vec<Match> = Vec::new();
        v.push(match_);
        let matches = set_buf_unchecked(v);
        let r = Self::from_matches(id, matches);
        proof {
            let s = r.matches.items();
            let g = r.matches.ranges();
            if g.len() > 1 {
                assert(g[1].start == g[0].end);
            }
            assert(r.matches.groups()[0] =~= seq![match_]);
            assert(r.matches.groups() =~= seq![seq![match_]]);
        }
        r
    }

    /// A document whose matches the caller has sorted already; they are not
    /// checked.
    pub fn from_matches(id: DocumentId, matches: SetBuf<Match>) -> (r: Self)
        ensures
            r.id == id,
            r.matches.items() == set_buf_items(matches),
            r.matches.wf(),
    {
        let matches = Matches::new(matches);
        Self { id, matches }
    }

    /// A document whose matches are sorted here, equal ones kept.
    pub fn from_unsorted_matches(id: DocumentId, matches: Vec<Match>) -> (r: Self)
        ensures
            r.id == id,
            sorted(r.matches.items()),
            r.matches.items().to_multiset() == matches@.to_multiset(),
            r.matches.items().len() == matches@.len(),
            r.matches.wf(),
    {
        let matches = Matches::from_unsorted(matches);
        Self { id, matches }
    }
}

} // verus!
