use fuzzy_matcher::FuzzyMatcher;
use vstd::prelude::*;
use vstd::string::*;
use crate::note::Note;
use crate::order::{is_stable_sort_desc, lemma_stable_sort_unique, sort_items_desc};

verus! {

broadcast use vstd::string::group_string_axioms;

/// The score that `fuzzy_matcher`'s default `SkimMatcherV2` gives `choice`
/// for `pattern`, or `None` where `pattern` does not match.
pub uninterp spec fn skim_score(choice: Seq<char>, pattern: Seq<char>) -> Option<i64>;

/// Scores `choice` against `pattern` with `SkimMatcherV2::default()` and
/// `FuzzyMatcher::fuzzy_match`. The default matcher's settings are fixed (smart
/// case, no element limit) and its caches are scratch space, so the score is a
/// function of the two strings; `SkimMatcherV2::fuzzy` answers `Some(0)` at
/// once for an empty pattern.
#[verifier::external_body]
fn fuzzy_match(choice: &str, pattern: &str) -> (r: Option<i64>)
    ensures
        r == skim_score(choice@, pattern@),
        pattern@.len() == 0 ==> r == Some(0i64),
{
    fuzzy_matcher::skim::SkimMatcherV2::default().fuzzy_match(choice, pattern)
}

/// The text that a search looks in: the title, a space, and the body.
pub open spec fn search_target(n: Note) -> Seq<char> {
    n.title@ + seq![' '] + n.content@
}

/// The score of a note for a query.
pub open spec fn note_score(n: Note, query: Seq<char>) -> Option<i64> {
    skim_score(search_target(n), query)
}

/// The score of each note for a query, in note order.
pub open spec fn note_scores(notes: Seq<Note>, query: Seq<char>) -> Seq<Option<i64>> {
    Seq::new(notes.len(), |i: int| note_score(notes[i], query))
}

/// The positions that hold a score, in increasing order.
pub open spec fn matched_positions(scores: Seq<Option<i64>>) -> Seq<usize>
    decreases scores.len(),
{
    if scores.len() == 0 {
        Seq::empty()
    } else {
        let r = matched_positions(scores.drop_last());
        if scores.last() is Some {
            r.push((scores.len() - 1) as usize)
        } else {
            r
        }
    }
}

/// The score held at a position.
pub open spec fn score_at(scores: Seq<Option<i64>>) -> spec_fn(usize) -> int {
    |i: usize|
        match scores[i as int] {
            Some(s) => s as int,
            None => 0,
        }
}

/// The positions `0..n` in increasing order.
pub open spec fn all_positions(n: nat) -> Seq<usize> {
    Seq::new(n, |i: int| i as usize)
}

/// What the filter shows for the notes and the query: every note in order
/// when the query is empty, otherwise the notes that match, best score first,
/// notes with equal scores in their list order.
pub open spec fn is_filter_of(notes: Seq<Note>, query: Seq<char>, shown: Seq<usize>) -> bool {
    if query.len() == 0 {
        shown == all_positions(notes.len())
    } else {
        is_stable_sort_desc(
            matched_positions(note_scores(notes, query)),
            shown,
            score_at(note_scores(notes, query)),
        )
    }
}

pub(crate) proof fn lemma_matched_positions_bounded(scores: Seq<Option<i64>>)
    requires
        scores.len() <= usize::MAX,
    ensures
        forall|k: int|
            0 <= k < matched_positions(scores).len() ==> #[trigger] matched_positions(scores)[k]
                < scores.len() && scores[matched_positions(scores)[k] as int] is Some,
    decreases scores.len(),
{
    if scores.len() > 0 {
        let d = scores.drop_last();
        lemma_matched_positions_bounded(d);
        let r = matched_positions(d);
        let m = matched_positions(scores);
        assert forall|k: int| 0 <= k < m.len() implies #[trigger] m[k] < scores.len() && scores[m[k] as int] is Some by {
            if k < r.len() {
                assert(m[k] == r[k]);
                assert(d[r[k] as int] == scores[r[k] as int]);
            }
        }
    }
}

/// Every position that the filter shows is a position of a note, and none is
/// shown twice.
pub proof fn lemma_filter_shows_notes(notes: Seq<Note>, query: Seq<char>, shown: Seq<usize>)
    requires
        notes.len() <= usize::MAX,
        is_filter_of(notes, query, shown),
    ensures
        forall|k: int| 0 <= k < shown.len() ==> #[trigger] shown[k] < notes.len(),
        forall|k1: int, k2: int| 0 <= k1 < k2 < shown.len() ==> shown[k1] != shown[k2],
{
    if query.len() > 0 {
        let scores = note_scores(notes, query);
        let m = matched_positions(scores);
        lemma_matched_positions_bounded(scores);
        lemma_matched_positions_distinct(scores);
        let key = score_at(scores);
        let p = choose|p: Seq<int>|
            #[trigger] crate::order::rearranged_by(m, shown, p) && crate::order::keys_descending(
                shown,
                key,
            ) && crate::order::keeps_ties_in_order(shown, p, key);
        assert forall|k: int| 0 <= k < shown.len() implies #[trigger] shown[k] < notes.len() by {
            assert(shown[k] == m[p[k]]);
        }
        assert forall|k1: int, k2: int| 0 <= k1 < k2 < shown.len() implies shown[k1]
            != shown[k2] by {
            assert(shown[k1] == m[p[k1]]);
            assert(shown[k2] == m[p[k2]]);
            if p[k1] < p[k2] {
                assert(m[p[k1]] < m[p[k2]]);
            } else {
                assert(m[p[k2]] < m[p[k1]]);
            }
        }
    }
}

/// A search with a query shows only notes that match it, best score first;
/// notes with equal scores keep their list order.
pub proof fn lemma_filter_best_match_first(notes: Seq<Note>, query: Seq<char>, shown: Seq<usize>)
    requires
        query.len() > 0,
        notes.len() <= usize::MAX,
        is_filter_of(notes, query, shown),
    ensures
        forall|k: int|
            0 <= k < shown.len() ==> #[trigger] shown[k] < notes.len() && note_score(
                notes[shown[k] as int],
                query,
            ) is Some,
        forall|k1: int, k2: int|
            0 <= k1 < k2 < shown.len() ==> note_score(notes[#[trigger] shown[k1] as int], query)->0
                >= note_score(notes[#[trigger] shown[k2] as int], query)->0,
        forall|k1: int, k2: int|
            0 <= k1 < k2 < shown.len() && note_score(notes[#[trigger] shown[k1] as int], query)->0
                == note_score(notes[#[trigger] shown[k2] as int], query)->0 ==> shown[k1] < shown[k2],
{
    let scores = note_scores(notes, query);
    let m = matched_positions(scores);
    lemma_matched_positions_bounded(scores);
    lemma_matched_positions_distinct(scores);
    let key = score_at(scores);
    let p = choose|p: Seq<int>|
        #[trigger] crate::order::rearranged_by(m, shown, p) && crate::order::keys_descending(shown, key)
            && crate::order::keeps_ties_in_order(shown, p, key);
    assert forall|k: int| 0 <= k < shown.len() implies #[trigger] shown[k] < notes.len() && note_score(
        notes[shown[k] as int],
        query,
    ) is Some by {
        assert(shown[k] == m[p[k]]);
        assert(scores[m[p[k]] as int] is Some);
    }
    assert forall|k1: int, k2: int| 0 <= k1 < k2 < shown.len() implies note_score(
        notes[#[trigger] shown[k1] as int],
        query,
    )->0 >= note_score(notes[#[trigger] shown[k2] as int], query)->0 by {
        assert(shown[k1] == m[p[k1]]);
        assert(shown[k2] == m[p[k2]]);
        assert(scores[m[p[k1]] as int] is Some);
        assert(scores[m[p[k2]] as int] is Some);
        assert(key(shown[k1]) >= key(shown[k2]));
    }
    assert forall|k1: int, k2: int|
        0 <= k1 < k2 < shown.len() && note_score(notes[#[trigger] shown[k1] as int], query)->0
            == note_score(notes[#[trigger] shown[k2] as int], query)->0 implies shown[k1] < shown[k2] by {
        assert(shown[k1] == m[p[k1]]);
        assert(shown[k2] == m[p[k2]]);
        assert(scores[m[p[k1]] as int] is Some);
        assert(scores[m[p[k2]] as int] is Some);
        assert(key(shown[k1]) == key(shown[k2]));
        assert(p[k1] < p[k2]);
    }
}

proof fn lemma_matched_positions_distinct(scores: Seq<Option<i64>>)
    requires
        scores.len() <= usize::MAX,
    ensures
        forall|k1: int, k2: int|
            0 <= k1 < k2 < matched_positions(scores).len() ==> matched_positions(scores)[k1]
                < matched_positions(scores)[k2],
    decreases scores.len(),
{
    if scores.len() > 0 {
        let d = scores.drop_last();
        lemma_matched_positions_distinct(d);
        lemma_matched_positions_bounded(d);
        let r = matched_positions(d);
        let m = matched_positions(scores);
        assert forall|k1: int, k2: int| 0 <= k1 < k2 < m.len() implies m[k1] < m[k2] by {
            assert(m[k1] == r[k1]);
            if k2 < r.len() {
                assert(m[k2] == r[k2]);
            } else {
                assert(r[k1] < d.len());
            }
        }
    }
}

/// The search target of a note.
pub fn search_target_of(n: &Note) -> (r: String)
    ensures
        r@ == search_target(*n),
{
    proof {
        reveal_strlit(" ");
    }
    let mut r = n.title.clone();
    r.append(" ");
    r.append(n.content.as_str());
    r
}

/// The positions that hold a score, best score first; equal scores keep
/// their position order.
pub fn rank_matches(scores: &Vec<Option<i64>>) -> (order: Vec<usize>)
    ensures
        is_stable_sort_desc(matched_positions(scores@), order@, score_at(scores@)),
{
    let ghost all = scores@;
    let n = scores.len();
    let mut items: Vec<usize> = Vec::new();
    let mut keys: Vec<i128> = Vec::new();
    let mut i: usize = 0;
    while i < n
        invariant
            n == all.len(),
            all == scores@,
            i <= n,
            items@ == matched_positions(all.take(i as int)),
            keys@.len() == items@.len(),
            forall|k: int| 0 <= k < items@.len() ==> #[trigger] items@[k] < i,
            forall|k: int|
                0 <= k < items@.len() ==> keys@[k] as int == score_at(all)(#[trigger] items@[k]),
        decreases n - i,
    {
        proof {
            assert(all.take(i + 1).drop_last() =~= all.take(i as int));
            assert(all.take(i + 1).last() == all[i as int]);
        }
        match scores[i] {
            Some(s) => {
                items.push(i);
                keys.push(s as i128);
            },
            None => {},
        }
        i = i + 1;
    }
    assert(all.take(n as int) =~= all);
    sort_items_desc(items, &keys, Ghost(score_at(all)))
}

/// The positions `0..n`.
pub fn all_positions_vec(n: usize) -> (r: Vec<usize>)
    ensures
        r@ == all_positions(n as nat),
{
    let mut r: Vec<usize> = Vec::new();
    let mut i: usize = 0;
    while i < n
        invariant
            i <= n,
            r@ == all_positions(i as nat),
        decreases n - i,
    {
        r.push(i);
        assert(r@ =~= all_positions((i + 1) as nat));
        i = i + 1;
    }
    r
}

/// The notes that a query shows, as positions into `notes`.
pub fn filter_notes(notes: &Vec<Note>, query: &str) -> (shown: Vec<usize>)
    ensures
        is_filter_of(notes@, query@, shown@),
{
    if query.is_empty() {
        return all_positions_vec(notes.len());
    }
    let n = notes.len();
    let mut scores: Vec<Option<i64>> = Vec::new();
    let mut i: usize = 0;
    while i < n
        invariant
            n == notes@.len(),
            i <= n,
            scores@.len() == i,
            forall|k: int| 0 <= k < i ==> #[trigger] scores@[k] == note_score(notes@[k], query@),
        decreases n - i,
    {
        let target = search_target_of(&notes[i]);
        let s = fuzzy_match(target.as_str(), query);
        scores.push(s);
        i = i + 1;
    }
    assert(scores@ =~= note_scores(notes@, query@));
    rank_matches(&scores)
}


/// The notes that a query shows are settled by the notes and the query.
pub proof fn lemma_filter_unique(notes: Seq<Note>, query: Seq<char>, s1: Seq<usize>, s2: Seq<usize>)
    requires
        is_filter_of(notes, query, s1),
        is_filter_of(notes, query, s2),
    ensures
        s1 == s2,
{
    if query.len() > 0 {
        lemma_stable_sort_unique(
            matched_positions(note_scores(notes, query)),
            s1,
            s2,
            score_at(note_scores(notes, query)),
        );
    }
}

} // verus!
