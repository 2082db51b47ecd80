//! The search coordinator: one live search at a time, each tagged with a
//! generation, short queries answered at once, longer ones after a pause by
//! fuzzy matching over the candidates.

use crate::common::{clone_path, clone_paths, Entry};
use crate::file_selector::{listing, read_views, FileList};
use fuzzy_matcher::FuzzyMatcher;
use vstd::prelude::*;
use vstd::string::*;

verus! {

/// Pause before matching over a cached listing, in milliseconds.
pub const CACHED_DELAY_MS: u64 = 200;

/// Pause before walking and matching where nothing is cached, in
/// milliseconds.
pub const WALK_DELAY_MS: u64 = 300;

/// Longest query, in bytes, that is answered without matching.
pub const SHORT_QUERY_LEN: usize = 2;

/// Longest candidate, in bytes, that is handed to the matcher. The matcher
/// keeps its scores in thirty-two bits, which a candidate of this length
/// cannot exhaust.
pub const MATCH_LIMIT: usize = 0x0010_0000;

/// A search expression.
#[derive(Debug)]
pub enum SearchDSL {
    Literal(String),
    Metadata(String, String),
    Negate(Box<SearchDSL>),
}

/// The outcome of a search that a later one replaced.
#[derive(Clone, Copy, Debug, PartialEq, Eq, Structural)]
pub struct Aborted;

/// The score that the skim matcher, as configured by default, gives to
/// `choice` for `pattern`; `None` where `pattern` does not match.
pub uninterp spec fn skim_score(choice: Seq<char>, pattern: Seq<char>) -> Option<i64>;

/// Whether a candidate is short enough for the matcher.
pub open spec fn within_match_limit(choice: Seq<char>) -> bool {
    vstd::utf8::encode_utf8(choice).len() <= MATCH_LIMIT
}

/// Calls `fuzzy_match` of `fuzzy_matcher::skim::SkimMatcherV2`, built by
/// `default()` for this one call. Nothing is proved of it: the result is
/// taken to be a function of the two strings alone, named `skim_score`.
/// Candidates beyond `MATCH_LIMIT` are kept away from it.
#[verifier::external_body]
fn fuzzy_match(choice: &str, pattern: &str) -> (score: Option<i64>)
    requires
        within_match_limit(choice@),
    ensures
        score == skim_score(choice@, pattern@),
{
    fuzzy_matcher::skim::SkimMatcherV2::default().fuzzy_match(choice, pattern)
}

/// The score of a candidate for a query: that of the matcher, and none for
/// a candidate beyond `MATCH_LIMIT`.
pub open spec fn match_score(choice: Seq<char>, pattern: Seq<char>) -> Option<i64> {
    if within_match_limit(choice) {
        skim_score(choice, pattern)
    } else {
        None
    }
}

/// The scores of each candidate for a query.
pub open spec fn scores_of(candidates: Seq<Seq<char>>, query: Seq<char>) -> Seq<Option<i64>> {
    Seq::new(candidates.len(), |i: int| match_score(candidates[i], query))
}

/// The candidates that have a score, in their own order.
pub open spec fn selected(candidates: Seq<Seq<char>>, scores: Seq<Option<i64>>) -> Seq<Seq<char>>
    decreases candidates.len(),
{
    if candidates.len() == 0 || scores.len() != candidates.len() {
        Seq::empty()
    } else if scores.last().is_some() {
        selected(candidates.drop_last(), scores.drop_last()).push(candidates.last())
    } else {
        selected(candidates.drop_last(), scores.drop_last())
    }
}

/// The candidates that the matcher gives any score for `query`.
pub open spec fn matching(candidates: Seq<Seq<char>>, query: Seq<char>) -> Seq<Seq<char>> {
    selected(candidates, scores_of(candidates, query))
}

/// Length of a query in bytes.
pub open spec fn query_len(query: Seq<char>) -> nat {
    vstd::utf8::encode_utf8(query).len()
}

/// Whether a query is answered without matching.
pub open spec fn is_short(query: Seq<char>) -> bool {
    query_len(query) <= SHORT_QUERY_LEN
}

/// The generation after `generation`. It starts over at zero after the
/// greatest value.
pub open spec fn next_generation(generation: u64) -> u64 {
    if generation == u64::MAX {
        0
    } else {
        (generation + 1) as u64
    }
}

/// What is to be done for a search.
#[derive(Debug)]
pub enum SearchPlan {
    /// Show the whole listing of the directory now: the cached children, or
    /// a fresh listing where there are none.
    ShowAll { cached: Option<Vec<String>> },
    /// Wait, then match over the cached children.
    FilterCached { generation: u64, delay_ms: u64, candidates: Vec<String> },
    /// Wait, then walk the directory and match over what the walk yields.
    WalkAndFilter { generation: u64, delay_ms: u64 },
}

/// A plan with its strings as character sequences.
pub enum SearchPlanView {
    ShowAll { cached: Option<Seq<Seq<char>>> },
    FilterCached { generation: u64, delay_ms: u64, candidates: Seq<Seq<char>> },
    WalkAndFilter { generation: u64, delay_ms: u64 },
}

impl View for SearchPlan {
    type V = SearchPlanView;

    open spec fn view(&self) -> SearchPlanView {
        match *self {
            SearchPlan::ShowAll { cached } => SearchPlanView::ShowAll {
                cached: match cached {
                    Some(list) => Some(list.deep_view()),
                    None => None,
                },
            },
            SearchPlan::FilterCached {
                generation,
                delay_ms,
                candidates,
            } => SearchPlanView::FilterCached {
                generation,
                delay_ms,
                candidates: candidates.deep_view(),
            },
            SearchPlan::WalkAndFilter { generation, delay_ms } => SearchPlanView::WalkAndFilter {
                generation,
                delay_ms,
            },
        }
    }
}

/// The plan for `query` issued under `generation`, given the cached
/// children of the directory shown.
pub open spec fn plan_for(
    query: Seq<char>,
    cached: Option<Seq<Seq<char>>>,
    generation: u64,
) -> SearchPlanView {
    if is_short(query) {
        SearchPlanView::ShowAll { cached }
    } else {
        match cached {
            Some(candidates) => SearchPlanView::FilterCached {
                generation,
                delay_ms: CACHED_DELAY_MS,
                candidates,
            },
            None => SearchPlanView::WalkAndFilter { generation, delay_ms: WALK_DELAY_MS },
        }
    }
}

/// What becomes of a result that arrives under `generation` while `live`
/// is the generation of the latest search.
pub open spec fn outcome(
    live: u64,
    generation: u64,
    found: Seq<Seq<char>>,
) -> Result<Seq<Seq<char>>, Aborted> {
    if generation == live {
        Ok(found)
    } else {
        Err(Aborted)
    }
}

/// Issues generations and tells live results from superseded ones.
#[derive(Clone, Copy, Debug, PartialEq, Eq, Structural)]
pub struct SearchCoordinator {
    pub generation: u64,
}

/// Whether a candidate with this score is kept: any score will do.
pub fn is_match(score: Option<i64>) -> (kept: bool)
    ensures
        kept == score.is_some(),
{
    score.is_some()
}

/// The candidates that have a score, in their own order.
pub fn select_matches(candidates: &Vec<String>, scores: &Vec<Option<i64>>) -> (kept: Vec<String>)
    requires
        scores@.len() == candidates@.len(),
    ensures
        kept.deep_view() == selected(candidates.deep_view(), scores@),
{
    let mut kept: Vec<String> = Vec::new();
    let mut i: usize = 0;
    let ghost views = candidates.deep_view();
    assert(views.subrange(0, 0) =~= Seq::empty());
    while i < candidates.len()
        invariant
            i <= candidates@.len(),
            scores@.len() == candidates@.len(),
            views == candidates.deep_view(),
            kept.deep_view() == selected(views.subrange(0, i as int), scores@.subrange(0, i as int)),
        decreases candidates@.len() - i,
    {
        proof {
            let next = views.subrange(0, i + 1);
            let next_scores = scores@.subrange(0, i + 1);
            assert(next.drop_last() =~= views.subrange(0, i as int));
            assert(next_scores.drop_last() =~= scores@.subrange(0, i as int));
            assert(next.last() == candidates@[i as int]@);
            assert(next_scores.last() == scores@[i as int]);
        }
        let ghost before = kept.deep_view();
        if is_match(scores[i]) {
            kept.push(clone_path(&candidates[i]));
            assert(kept.deep_view() =~= before.push(candidates@[i as int]@));
        }
        i = i + 1;
    }
    assert(views.subrange(0, i as int) =~= views);
    assert(scores@.subrange(0, i as int) =~= scores@);
    kept
}

/// The score of `choice` for `pattern`.
pub fn score_of(choice: &str, pattern: &str) -> (score: Option<i64>)
    ensures
        score == match_score(choice@, pattern@),
{
    if choice.as_bytes().len() <= MATCH_LIMIT {
        fuzzy_match(choice, pattern)
    } else {
        None
    }
}

/// The candidates whose full path the matcher gives any score for `query`,
/// in their own order; no ranking is applied.
pub fn filter_matches(candidates: &Vec<String>, query: &str) -> (kept: Vec<String>)
    ensures
        kept.deep_view() == matching(candidates.deep_view(), query@),
{
    let mut scores: Vec<Option<i64>> = Vec::new();
    let mut i: usize = 0;
    while i < candidates.len()
        invariant
            i <= candidates@.len(),
            scores@.len() == i,
            forall|k: int| 0 <= k < i ==> #[trigger] scores@[k] == match_score(candidates@[k]@, query@),
        decreases candidates@.len() - i,
    {
        scores.push(score_of(candidates[i].as_str(), query));
        i = i + 1;
    }
    assert(scores@ =~= scores_of(candidates.deep_view(), query@));
    select_matches(candidates, &scores)
}

/// The search over a directory that is not indexed: of what a walk of it
/// yields, the entries that the filter accepts and whose full path the
/// matcher gives any score for `query`, in the order of the walk.
pub fn filter_walked(walked: &Vec<Option<Entry>>, query: &str) -> (kept: Vec<String>)
    ensures
        kept.deep_view() == matching(listing(read_views(walked@)), query@),
{
    let shown = FileList::list_dir(walked);
    filter_matches(&shown.files, query)
}

impl SearchCoordinator {
    /// A coordinator that has issued no search.
    pub fn new() -> (coordinator: SearchCoordinator)
        ensures
            coordinator.generation == 0,
    {
        SearchCoordinator { generation: 0 }
    }

    /// Starts a search: whatever was in flight is superseded, and the plan
    /// for the query is returned under a new generation.
    pub fn search(&mut self, query: &str, cached: Option<&Vec<String>>) -> (plan: SearchPlan)
        ensures
            final(self).generation == next_generation(old(self).generation),
            plan@ == plan_for(
                query@,
                match cached {
                    Some(list) => Some(list.deep_view()),
                    None => None,
                },
                final(self).generation,
            ),
    {
        self.generation = if self.generation == u64::MAX {
            0
        } else {
            self.generation + 1
        };
        if query.as_bytes().len() <= SHORT_QUERY_LEN {
            SearchPlan::ShowAll {
                cached: match cached {
                    Some(list) => Some(clone_paths(list)),
                    None => None,
                },
            }
        } else {
            match cached {
                Some(list) => SearchPlan::FilterCached {
                    generation: self.generation,
                    delay_ms: CACHED_DELAY_MS,
                    candidates: clone_paths(list),
                },
                None => SearchPlan::WalkAndFilter {
                    generation: self.generation,
                    delay_ms: WALK_DELAY_MS,
                },
            }
        }
    }

    /// Judges a result that arrives under `generation`: it stands if that is
    /// the latest search, and is aborted otherwise.
    pub fn complete(&self, generation: u64, found: Vec<String>) -> (result: Result<
        Vec<String>,
        Aborted,
    >)
        ensures
            match result {
                Ok(list) => outcome(self.generation, generation, found.deep_view()) == Ok::<
                    Seq<Seq<char>>,
                    Aborted,
                >(list.deep_view()),
                Err(e) => outcome(self.generation, generation, found.deep_view()) == Err::<
                    Seq<Seq<char>>,
                    Aborted,
                >(e),
            },
    {
        if generation == self.generation {
            Ok(found)
        } else {
            Err(Aborted)
        }
    }
}

/// Of two searches issued one after the other, only the second is live:
/// the result of the first is aborted whenever it arrives, that of the
/// second stands.
pub proof fn lemma_superseded_search_is_aborted(
    start: u64,
    first_found: Seq<Seq<char>>,
    second_found: Seq<Seq<char>>,
)
    ensures
        ({
            let first = next_generation(start);
            let second = next_generation(first);
            &&& first != second
            &&& outcome(second, first, first_found) == Err::<Seq<Seq<char>>, Aborted>(Aborted)
            &&& outcome(second, second, second_found) == Ok::<Seq<Seq<char>>, Aborted>(
                second_found,
            )
        }),
{
}

/// A short query never leads to matching: whatever the generation and the
/// cache, the plan is to show the whole listing.
pub proof fn lemma_short_query_shows_all(
    query: Seq<char>,
    cached: Option<Seq<Seq<char>>>,
    generation: u64,
)
    requires
        is_short(query),
    ensures
        plan_for(query, cached, generation) == (SearchPlanView::ShowAll { cached }),
{
}

/// Matching keeps the order of the candidates and adds nothing: what is
/// kept is a subsequence of the candidates, each kept one with a score.
pub proof fn lemma_selected_is_filter(candidates: Seq<Seq<char>>, scores: Seq<Option<i64>>)
    requires
        scores.len() == candidates.len(),
    ensures
        selected(candidates, scores).len() <= candidates.len(),
        forall|path: Seq<char>|
            selected(candidates, scores).contains(path) <==> exists|i: int|
                0 <= i < candidates.len() && candidates[i] == path && scores[i].is_some(),
    decreases candidates.len(),
{
    if candidates.len() > 0 {
        let head = candidates.drop_last();
        let head_scores = scores.drop_last();
        lemma_selected_is_filter(head, head_scores);
        let kept = selected(candidates, scores);
        let kept_head = selected(head, head_scores);
        assert forall|path: Seq<char>| kept.contains(path) <==> exists|i: int|
            0 <= i < candidates.len() && candidates[i] == path && scores[i].is_some() by {
            if kept.contains(path) {
                let at = choose|k: int| 0 <= k < kept.len() && kept[k] == path;
                if scores.last().is_some() && at == kept.len() - 1 {
                    let i = candidates.len() - 1;
                    assert(candidates[i] == path && scores[i].is_some());
                } else {
                    assert(kept_head[at] == path);
                    assert(kept_head.contains(path));
                    let i = choose|i: int|
                        0 <= i < head.len() && head[i] == path && head_scores[i].is_some();
                    assert(candidates[i] == path && scores[i].is_some());
                }
            }
            if exists|i: int|
                0 <= i < candidates.len() && candidates[i] == path && scores[i].is_some() {
                let i = choose|i: int|
                    0 <= i < candidates.len() && candidates[i] == path && scores[i].is_some();
                if i == candidates.len() - 1 {
                    assert(kept[kept.len() - 1] == path);
                } else {
                    assert(head[i] == path && head_scores[i].is_some());
                    assert(kept_head.contains(path));
                    let at = choose|k: int| 0 <= k < kept_head.len() && kept_head[k] == path;
                    assert(kept[at] == path);
                }
            }
        }
    } else {
        assert forall|path: Seq<char>| !selected(candidates, scores).contains(path) by {}
    }
}

} // verus!
