use rank::{Document, DocumentId, Match, Matches};
use rank::grouping::{group_ranges, match_query_index};
use rank::order::{match_precedes, sort_matches};
use sdset::SetBuf;

fn m(query_index: u32) -> Match {
    Match {
        query_index,
        distance: 0,
        attribute: 0,
        word_index: 0,
        is_exact: false,
        char_index: 0,
        char_length: 0,
    }
}

fn mw(query_index: u32, word_index: u16) -> Match {
    Match { word_index, ..m(query_index) }
}

fn query_indices(s: &[Match]) -> Vec<u32> {
    s.iter().map(|x| x.query_index).collect()
}

#[test]
fn unsorted_matches_are_sorted_then_grouped() {
    let doc = Document::from_unsorted_matches(DocumentId(7), vec![m(1), m(0), m(0)]);
    assert_eq!(doc.id, DocumentId(7));
    assert_eq!(query_indices(doc.matches.as_matches()), vec![0, 0, 1]);
    let mut groups = doc.matches.query_index_groups();
    let first = groups.next().unwrap();
    assert_eq!(first.len(), 2);
    assert_eq!(query_indices(first), vec![0, 0]);
    let second = groups.next().unwrap();
    assert_eq!(second.len(), 1);
    assert_eq!(query_indices(second), vec![1]);
    assert!(groups.next().is_none());
}

#[test]
fn empty_matches_have_no_groups() {
    let matches = Matches::from_unsorted(Vec::new());
    assert!(matches.as_matches().is_empty());
    let mut groups = matches.query_index_groups();
    assert_eq!(groups.len(), 0);
    assert!(groups.next().is_none());
    assert!(groups.next_back().is_none());
}

#[test]
fn single_match_forms_one_group() {
    let doc = Document::new(DocumentId(3), mw(4, 9));
    let all = doc.matches.as_matches();
    assert_eq!(all, &[mw(4, 9)][..]);
    let mut groups = doc.matches.query_index_groups();
    assert_eq!(groups.len(), 1);
    assert_eq!(groups.next().unwrap(), all);
    assert!(groups.next().is_none());
}

fn five_groups() -> Matches {
    Matches::from_unsorted(vec![m(4), m(2), m(0), m(3), m(1), m(2), m(4), m(4)])
}

#[test]
fn nth_skips_to_the_third_group() {
    let matches = five_groups();
    let mut stepped = matches.query_index_groups();
    stepped.next();
    stepped.next();
    let third = stepped.next().unwrap();
    let mut skipped = matches.query_index_groups();
    let direct = skipped.nth(2).unwrap();
    assert_eq!(direct, third);
    assert_eq!(query_indices(direct), vec![2, 2]);
    assert_eq!(skipped.len(), 2);
    assert_eq!(query_indices(skipped.next().unwrap()), vec![3]);
}

#[test]
fn nth_past_the_end_exhausts() {
    let matches = five_groups();
    let mut groups = matches.query_index_groups();
    assert!(groups.nth(5).is_none());
    assert_eq!(groups.len(), 0);
    assert!(groups.next().is_none());
}

#[test]
fn sorting_keeps_every_match_in_order() {
    let input = vec![mw(2, 5), mw(0, 3), mw(2, 1), mw(1, 0), mw(0, 3), mw(0, 1)];
    let matches = Matches::from_unsorted(input.clone());
    let mut expected = input;
    expected.sort();
    assert_eq!(matches.as_matches(), &expected[..]);
    assert_eq!(query_indices(matches.as_matches()), vec![0, 0, 0, 1, 2, 2]);
}

#[test]
fn duplicate_matches_are_kept() {
    let matches = Matches::from_unsorted(vec![m(1), m(1), m(1)]);
    assert_eq!(matches.as_matches().len(), 3);
    let mut groups = matches.query_index_groups();
    assert_eq!(groups.next().unwrap().len(), 3);
    assert!(groups.next().is_none());
}

#[test]
fn sort_orders_by_every_field() {
    let a = Match { is_exact: true, ..m(1) };
    let b = Match { distance: 1, ..m(1) };
    let c = Match { char_length: 2, ..m(1) };
    let d = Match { char_index: 1, ..m(1) };
    let sorted = sort_matches(vec![b, a, d, c, m(1)]);
    assert_eq!(sorted, vec![m(1), c, d, a, b]);
    assert!(match_precedes(&m(1), &c));
    assert!(!match_precedes(&b, &a));
    assert!(match_precedes(&a, &a));
}

#[test]
fn groups_partition_the_matches() {
    let matches = five_groups();
    let all = matches.as_matches();
    let mut covered = 0;
    let mut last: Option<u32> = None;
    let mut groups = matches.query_index_groups();
    while let Some(g) = groups.next() {
        assert!(!g.is_empty());
        assert_eq!(g, &all[covered..covered + g.len()]);
        assert!(g.iter().all(|x| x.query_index == g[0].query_index));
        if let Some(q) = last {
            assert!(q < g[0].query_index);
        }
        last = Some(g[0].query_index);
        covered += g.len();
    }
    assert_eq!(covered, all.len());
}

#[test]
fn forward_and_backward_steps_agree() {
    let matches = five_groups();
    let mut forward = Vec::new();
    let mut groups = matches.query_index_groups();
    while let Some(g) = groups.next() {
        forward.push(g);
    }
    let mut backward = Vec::new();
    let mut groups = matches.query_index_groups();
    while let Some(g) = groups.next_back() {
        backward.push(g);
    }
    backward.reverse();
    assert_eq!(forward.len(), 5);
    assert_eq!(forward, backward);
}

#[test]
fn remaining_count_equals_forward_steps() {
    let matches = five_groups();
    let mut groups = matches.query_index_groups();
    groups.next_back();
    let reported = groups.len();
    assert_eq!(groups.size_hint(), (reported, Some(reported)));
    let mut steps = 0;
    while groups.next().is_some() {
        steps += 1;
    }
    assert_eq!(reported, 4);
    assert_eq!(steps, reported);
}

#[test]
fn count_and_last_consume_the_cursor() {
    let matches = five_groups();
    let mut groups = matches.query_index_groups();
    groups.next();
    assert_eq!(groups.count(), 4);
    let last = matches.query_index_groups().last().unwrap();
    assert_eq!(query_indices(last), vec![4, 4, 4]);
    let empty = Matches::from_unsorted(Vec::new());
    assert!(empty.query_index_groups().last().is_none());
}

#[test]
fn exhausted_cursor_stays_exhausted() {
    let matches = Matches::from_unsorted(vec![m(0)]);
    let mut groups = matches.query_index_groups();
    assert!(groups.next().is_some());
    assert!(groups.next().is_none());
    assert!(groups.next().is_none());
    assert!(groups.next_back().is_none());
}

#[test]
fn presorted_matches_are_taken_as_given() {
    let set = SetBuf::new_unchecked(vec![m(0), m(2), m(0)]);
    let doc = Document::from_matches(DocumentId(1), set);
    assert_eq!(query_indices(doc.matches.as_matches()), vec![0, 2, 0]);
    let lens: Vec<usize> = {
        let mut v = Vec::new();
        let mut groups = doc.matches.query_index_groups();
        while let Some(g) = groups.next() {
            v.push(g.len());
        }
        v
    };
    assert_eq!(lens, vec![1, 1, 1]);
}

#[test]
fn presorted_matches_keep_their_runs() {
    let set = SetBuf::new_unchecked(vec![m(0), m(0), m(3), m(5), m(5)]);
    let matches = Matches::new(set);
    let mut groups = matches.query_index_groups();
    assert_eq!(query_indices(groups.next().unwrap()), vec![0, 0]);
    assert_eq!(query_indices(groups.next().unwrap()), vec![3]);
    assert_eq!(query_indices(groups.next().unwrap()), vec![5, 5]);
    assert!(groups.next().is_none());
}

#[test]
fn ranges_are_maximal_runs() {
    let ranges = group_ranges(&vec![m(1), m(1), m(2), m(1)]);
    let pairs: Vec<(usize, usize)> = ranges.iter().map(|r| (r.start, r.end)).collect();
    assert_eq!(pairs, vec![(0, 2), (2, 3), (3, 4)]);
    assert!(group_ranges(&Vec::new()).is_empty());
}

#[test]
fn same_query_index_is_detected() {
    assert!(match_query_index(&mw(3, 1), &mw(3, 8)));
    assert!(!match_query_index(&m(3), &m(4)));
}
