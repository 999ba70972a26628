//! Matches, document identifiers, and the total order on matches whose
//! primary key is the query index.

use vstd::prelude::*;
use vstd::seq_lib::to_multiset_insert;

verus! {

/// Identifier of a document.
#[derive(Clone, Copy, Debug, PartialEq, Eq, PartialOrd, Ord, Hash)]
pub struct DocumentId(pub u64);

/// One occurrence of a query term in a document.
///
/// Matches are ordered field by field, in the order in which the fields are
/// declared: `query_index` is the primary key.
#[derive(Clone, Copy, Debug, PartialEq, Eq, PartialOrd, Ord, Hash)]
pub struct Match {
    pub query_index: u32,
    pub distance: u8,
    pub attribute: u16,
    pub word_index: u16,
    pub is_exact: bool,
    pub char_index: u16,
    pub char_length: u16,
}

/// `a` comes before `b` or is equal to it, comparing field by field.
pub open spec fn match_le(a: Match, b: Match) -> bool {
    if a.query_index != b.query_index {
        a.query_index < b.query_index
    } else if a.distance != b.distance {
        a.distance < b.distance
    } else if a.attribute != b.attribute {
        a.attribute < b.attribute
    } else if a.word_index != b.word_index {
        a.word_index < b.word_index
    } else if a.is_exact != b.is_exact {
        !a.is_exact
    } else if a.char_index != b.char_index {
        a.char_index < b.char_index
    } else {
        a.char_length <= b.char_length
    }
}

/// Every match of `s` comes before or equals every match that follows it.
pub open spec fn sorted(s: Seq<Match>) -> bool {
    forall|i: int, j: int| 0 <= i < j < s.len() ==> match_le(#[trigger] s[i], #[trigger] s[j])
}

/// The query indices of `s` never decrease.
pub open spec fn sorted_by_query(s: Seq<Match>) -> bool {
    forall|i: int, j: int|
        0 <= i < j < s.len() ==> (#[trigger] s[i]).query_index <= (#[trigger] s[j]).query_index
}

/// Any two matches are comparable.
pub proof fn lemma_match_le_total(a: Match, b: Match)
    ensures
        match_le(a, b) || match_le(b, a),
{
}

/// The order is transitive.
pub proof fn lemma_match_le_transitive(a: Match, b: Match, c: Match)
    requires
        match_le(a, b),
        match_le(b, c),
    ensures
        match_le(a, c),
{
}

/// A sequence sorted by the whole order is sorted by its primary key.
pub proof fn lemma_sorted_by_query(s: Seq<Match>)
    requires
        sorted(s),
    ensures
        sorted_by_query(s),
{
    assert forall|i: int, j: int| 0 <= i < j < s.len() implies (#[trigger] s[i]).query_index
        <= (#[trigger] s[j]).query_index by {
        assert(match_le(s[i], s[j]));
    }
}

/// Compares two matches field by field.
pub fn match_precedes(a: &Match, b: &Match) -> (r: bool)
    ensures
        r == match_le(*a, *b),
{
    if a.query_index != b.query_index {
        a.query_index < b.query_index
    } else if a.distance != b.distance {
        a.distance < b.distance
    } else if a.attribute != b.attribute {
        a.attribute < b.attribute
    } else if a.word_index != b.word_index {
        a.word_index < b.word_index
    } else if a.is_exact != b.is_exact {
        !a.is_exact
    } else if a.char_index != b.char_index {
        a.char_index < b.char_index
    } else {
        a.char_length <= b.char_length
    }
}

/// Sorts `v` by the order on matches. Equal matches are all kept.
pub fn sort_matches(v: Vec<Match>) -> (r: Vec<Match>)
    ensures
        sorted(r@),
        r@.to_multiset() == v@.to_multiset(),
        r@.len() == v@.len(),
{
    let mut out: Vec<Match> = Vec::new();
    let mut i: usize = 0;
    assert(out@ =~= v@.subrange(0, 0));
    while i < v.len()
        invariant
            i <= v.len(),
            sorted(out@),
            out@.to_multiset() == v@.subrange(0, i as int).to_multiset(),
        decreases v.len() - i,
    {
        let x = v[i];
        let mut pos: usize = 0;
        while pos < out.len() && match_precedes(&out[pos], &x)
            invariant
                pos <= out.len(),
                forall|k: int| 0 <= k < pos ==> match_le(#[trigger] out@[k], x),
            decreases out.len() - pos,
        {
            pos = pos + 1;
        }
        let ghost before = out@;
        out.insert(pos, x);
        proof {
            let p = pos as int;
            assert forall|a: int, b: int| 0 <= a < b < out@.len() implies match_le(
                #[trigger] out@[a],
                #[trigger] out@[b],
            ) by {
                if b < p {
                    assert(match_le(before[a], before[b]));
                } else if b == p {
                    assert(match_le(before[a], x));
                } else if a == p {
                    lemma_match_le_total(before[p], x);
                    if b - 1 > p {
                        assert(match_le(before[p], before[b - 1]));
                        lemma_match_le_transitive(x, before[p], before[b - 1]);
                    }
                } else if a < p {
                    assert(match_le(before[a], before[b - 1]));
                } else {
                    assert(match_le(before[a - 1], before[b - 1]));
                }
            }
            to_multiset_insert(before, p, x);
            assert(v@.subrange(0, i + 1) =~= v@.subrange(0, i as int).push(x));
            v@.subrange(0, i as int).to_multiset_ensures();
        }
        i = i + 1;
    }
    assert(v@.subrange(0, v.len() as int) =~= v@);
    proof {
        v@.to_multiset_ensures();
        out@.to_multiset_ensures();
    }
    out
}

} // verus!
