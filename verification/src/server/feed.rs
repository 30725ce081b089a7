//! A feed page: which candidates are admitted, and how the ranked ones are laid out
//! on the page that was asked for.

use std::collections::{HashMap, HashSet};

use vstd::prelude::*;

use crate::score::{Score, INFINITY_KEY};
use crate::server::feed_query::{
    cursor_text, encode_cursor, FeedPlan, FeedSort, FeedSortOrder,
};
use crate::server::ranking::{
    apply_feed_sort, context_percentile_indices_for_window, cover_of, fit_band, fit_band_name,
    is_index_map, recall_ids, resolve_feed_cover_url, row_ids, select_internal_recall_candidates,
    sortable, visible_index, visible_recommendation_index, window, FeedOrder, FeedPresentation,
    FeedRow, RankedCandidate,
};
use crate::sort::stable_sorted;
use crate::text::{opt_view, str_eq, views};

verus! {

broadcast use vstd::std_specs::hash::group_hash_axioms;

// ---------------------------------------------------------------------------
// Admission
// ---------------------------------------------------------------------------

/// Feedback that takes a game out of the feed.
pub open spec fn excludes(feedback: Seq<char>) -> bool {
    feedback == "not_interested"@ || feedback == "party_size_mismatch"@
}

/// None of what was said about the game turns it down.
pub open spec fn none_excludes(feedback: Seq<String>) -> bool {
    forall|i: int| 0 <= i < feedback.len() ==> !excludes((#[trigger] feedback[i])@)
}

/// Whether a game enters the ranking: it has a demo where one is asked for, no
/// feedback excludes it, and it belongs to the section.
pub fn admit_candidate(
    demo_only: bool,
    has_demo: bool,
    feedback: &Vec<String>,
    matches_section: bool,
) -> (r: bool)
    ensures
        r <==> (demo_only ==> has_demo) && matches_section && none_excludes(feedback@),
{
    if (demo_only && !has_demo) || !matches_section {
        return false;
    }
    let mut i: usize = 0;
    while i < feedback.len()
        invariant
            0 <= i <= feedback@.len(),
            forall|j: int| 0 <= j < i ==> !excludes((#[trigger] feedback@[j])@),
        decreases feedback@.len() - i,
    {
        let kind = feedback[i].as_str();
        if str_eq(kind, "not_interested") || str_eq(kind, "party_size_mismatch") {
            assert(excludes(feedback@[i as int]@));
            return false;
        }
        i = i + 1;
    }
    true
}

/// How much one piece of feedback moves a game, in hundredths. `competitive` says that
/// matchmaking is at the core of the game.
pub open spec fn feedback_hundredths(feedback: Seq<char>, competitive: bool) -> int {
    if feedback == "like"@ {
        20
    } else if feedback == "played"@ {
        -10
    } else if feedback == "too_competitive"@ && competitive {
        -30
    } else if feedback == "too_competitive"@ || feedback == "hosting_friction"@ {
        -15
    } else {
        0
    }
}

/// The least value of matchmaking that makes a game competitive: the key of `0.5`.
pub const COMPETITIVE_KEY: i64 = 0x3fe0_0000_0000_0000;

pub open spec fn is_competitive(matchmaking_core: Score) -> bool {
    matchmaking_core.at_least(Score { key: COMPETITIVE_KEY })
}

pub fn feedback_personal_adjustment(feedback: Option<&str>, matchmaking_core: Score) -> (r: i32)
    ensures
        r == (match feedback {
            Some(kind) => feedback_hundredths(kind@, is_competitive(matchmaking_core)),
            None => 0,
        }),
{
    match feedback {
        Some(kind) => {
            if str_eq(kind, "like") {
                20
            } else if str_eq(kind, "played") {
                -10
            } else if str_eq(kind, "too_competitive") {
                if matchmaking_core.reaches(Score { key: COMPETITIVE_KEY }) {
                    -30
                } else {
                    -15
                }
            } else if str_eq(kind, "hosting_friction") {
                -15
            } else {
                0
            }
        },
        None => 0,
    }
}

pub open spec fn feedback_sum(feedback: Seq<Seq<char>>, competitive: bool) -> int
    decreases feedback.len(),
{
    if feedback.len() == 0 {
        0
    } else {
        feedback_sum(feedback.drop_last(), competitive) + feedback_hundredths(
            feedback.last(),
            competitive,
        )
    }
}

pub open spec fn clamped(value: int, low: int, high: int) -> int {
    if value < low {
        low
    } else if value > high {
        high
    } else {
        value
    }
}

/// All feedback on a game together, in hundredths, at most half a point either way.
pub fn combined_feedback_personal_adjustment(feedback: &Vec<String>, matchmaking_core: Score) -> (r:
    i32)
    ensures
        r == clamped(feedback_sum(views(feedback@), is_competitive(matchmaking_core)), -50, 50),
{
    let mut total: i128 = 0;
    let mut i: usize = 0;
    let n: usize = feedback.len();
    assert(views(feedback@).take(0) =~= Seq::empty());
    while i < n
        invariant
            0 <= i <= n == feedback@.len(),
            total == feedback_sum(views(feedback@).take(i as int), is_competitive(matchmaking_core)),
            -30 * i <= total <= 20 * i,
        decreases n - i,
    {
        proof {
            let next = views(feedback@).take(i + 1);
            assert(next.drop_last() =~= views(feedback@).take(i as int));
            assert(next.last() == feedback@[i as int]@);
        }
        let one: i32 = feedback_personal_adjustment(Some(feedback[i].as_str()), matchmaking_core);
        total = total + one as i128;
        i = i + 1;
    }
    assert(views(feedback@).take(n as int) =~= views(feedback@));
    if total < -50 {
        -50
    } else if total > 50 {
        50
    } else {
        total as i32
    }
}

/// The facts of a game from which its independent features are counted.
#[derive(Debug)]
pub struct FeatureFacts {
    pub total_reviews: Option<u32>,
    pub total_positive: Option<u32>,
    pub latest_ccu: Option<u32>,
    pub typical_ccu_7d: Option<u32>,
    pub has_release_date: bool,
    pub has_demo: bool,
    /// The confidence in each of the multiplayer signals.
    pub multiplayer_confidence: Vec<Score>,
}

/// A number greater than zero.
pub open spec fn positive(score: Score) -> bool {
    0 < score.key <= INFINITY_KEY
}

pub open spec fn one_if(b: bool) -> int {
    if b {
        1
    } else {
        0
    }
}

/// Reviews, activity, release date, multiplayer profile, demo: one feature each.
pub open spec fn feature_count(facts: FeatureFacts) -> int {
    one_if(facts.total_reviews is Some && facts.total_reviews->0 > 0 && facts.total_positive is Some)
        + one_if(facts.latest_ccu is Some || facts.typical_ccu_7d is Some) + one_if(
        facts.has_release_date,
    ) + one_if(
        exists|i: int|
            0 <= i < facts.multiplayer_confidence@.len() && positive(
                #[trigger] facts.multiplayer_confidence@[i],
            ),
    ) + one_if(facts.has_demo)
}

pub fn effective_feature_count(facts: &FeatureFacts) -> (r: usize)
    ensures
        r == feature_count(*facts),
        r <= 5,
{
    let mut profile = false;
    let mut i: usize = 0;
    while i < facts.multiplayer_confidence.len()
        invariant
            0 <= i <= facts.multiplayer_confidence@.len(),
            profile <==> exists|j: int|
                0 <= j < i && positive(#[trigger] facts.multiplayer_confidence@[j]),
        decreases facts.multiplayer_confidence@.len() - i,
    {
        let key: i64 = facts.multiplayer_confidence[i].key;
        if 0 < key && key <= INFINITY_KEY {
            assert(positive(facts.multiplayer_confidence@[i as int]));
            profile = true;
        }
        i = i + 1;
    }
    let reviewed = match facts.total_reviews {
        Some(n) => n > 0 && facts.total_positive.is_some(),
        None => false,
    };
    let active = facts.latest_ccu.is_some() || facts.typical_ccu_7d.is_some();
    let mut count: usize = 0;
    if reviewed {
        count = count + 1;
    }
    if active {
        count = count + 1;
    }
    if facts.has_release_date {
        count = count + 1;
    }
    if profile {
        count = count + 1;
    }
    if facts.has_demo {
        count = count + 1;
    }
    count
}

// ---------------------------------------------------------------------------
// The page
// ---------------------------------------------------------------------------

/// One item of a feed answer. What is not computed here stands in the candidate and
/// its presentation.
#[derive(Debug)]
pub struct FeedItem {
    pub candidate: RankedCandidate,
    pub presentation: Option<FeedPresentation>,
    /// One-based position in the final ordering.
    pub rank: usize,
    pub cover_url: Option<String>,
    pub data_confidence: Score,
    pub recommendation_index: Option<u8>,
    pub fit_band: &'static str,
    pub play_intent_count: u32,
    pub play_intent_voted: bool,
    /// Internal recall also sees tags, publisher and series.
    pub with_ranking_metadata: bool,
}

/// Who wants to play what.
#[derive(Debug)]
pub struct PlayIntent {
    pub counts: HashMap<u32, u32>,
    pub user_votes: HashSet<u32>,
    pub revision: u64,
}

pub open spec fn confidence_of(presentation: Option<FeedPresentation>) -> Score {
    match presentation {
        Some(p) => p.data_confidence,
        None => Score { key: 0 },
    }
}

pub open spec fn cover_shown(app_id: u32, presentation: Option<FeedPresentation>) -> Option<
    Seq<char>,
> {
    match presentation {
        Some(p) => match p.cover_url {
            Some(url) => Some(url@),
            None => Some(cover_of(app_id, None)),
        },
        None => Some(cover_of(app_id, None)),
    }
}

pub open spec fn intent_count(intent: PlayIntent, app_id: u32) -> u32 {
    if intent.counts@.dom().contains(app_id) {
        intent.counts@[app_id]
    } else {
        0
    }
}

/// The item that shows `row` at `rank`.
pub open spec fn shows(
    item: FeedItem,
    row: FeedRow,
    rank: int,
    indices: Map<u32, u8>,
    intent: PlayIntent,
    internal: bool,
) -> bool {
    let id = row.candidate.app_id;
    &&& item.candidate == row.candidate
    &&& item.presentation == row.presentation
    &&& item.rank == rank
    &&& opt_view(item.cover_url) == cover_shown(id, row.presentation)
    &&& item.data_confidence == confidence_of(row.presentation)
    &&& item.recommendation_index == visible_index(id, indices, row.presentation)
    &&& item.fit_band@ == fit_band_name(item.recommendation_index)
    &&& item.play_intent_count == intent_count(intent, id)
    &&& item.play_intent_voted == intent.user_votes@.contains(id)
    &&& item.with_ranking_metadata == internal
}

fn show_row(
    row: FeedRow,
    rank: usize,
    indices: &HashMap<u32, u8>,
    intent: &PlayIntent,
    internal: bool,
) -> (r: FeedItem)
    ensures
        shows(r, row, rank as int, indices@, *intent, internal),
{
    let id: u32 = row.candidate.app_id;
    let recommendation_index = visible_recommendation_index(id, indices, row.presentation.as_ref());
    let own_cover: Option<String> = match &row.presentation {
        Some(p) => match &p.cover_url {
            Some(url) => Some(url.clone()),
            None => None,
        },
        None => None,
    };
    let cover_url = match own_cover {
        Some(url) => Some(url),
        None => resolve_feed_cover_url(id, None),
    };
    let data_confidence: Score = match &row.presentation {
        Some(p) => p.data_confidence,
        None => Score { key: 0 },
    };
    let play_intent_count: u32 = match intent.counts.get(&id) {
        Some(count) => *count,
        None => 0,
    };
    let play_intent_voted = intent.user_votes.contains(&id);
    FeedItem {
        candidate: row.candidate,
        presentation: row.presentation,
        rank,
        cover_url,
        data_confidence,
        recommendation_index,
        fit_band: fit_band(recommendation_index),
        play_intent_count,
        play_intent_voted,
        with_ranking_metadata: internal,
    }
}

/// The numbers of a page.
#[derive(Debug)]
pub struct FeedBody {
    pub items: Vec<FeedItem>,
    pub next_cursor: Option<String>,
    pub total: usize,
    pub limit: usize,
    pub offset: usize,
    pub page: usize,
    pub total_pages: usize,
    pub sort: FeedSort,
    /// Absent for the recommended ranking, which has no direction.
    pub order: Option<FeedSortOrder>,
    /// Every ranked game, in order.
    pub candidate_ids: Vec<u32>,
}

pub open spec fn score_entries(rows: Seq<FeedRow>) -> Seq<(u32, Score)> {
    rows.map_values(|row: FeedRow| (row.candidate.app_id, row.candidate.score.relevance_score))
}

/// How many pages of `limit` hold `total` items.
pub open spec fn page_count(total: nat, limit: nat) -> int {
    (total + limit - 1) / limit as int
}

/// The feed in final order: sorted, and for an internal recall cut down to its page.
pub open spec fn final_ids(rows: Seq<FeedRow>, plan: FeedPlan, retrieval: Option<Seq<u32>>) -> Seq<
    u32,
> {
    let sorted = stable_sorted(rows, &(FeedOrder { sort: plan.sort, order: plan.order }));
    match retrieval {
        Some(ids) => recall_ids(sorted, ids, plan.limit as nat),
        None => row_ids(sorted),
    }
}

fn entries_of(rows: &Vec<FeedRow>) -> (r: (Vec<(u32, Score)>, Vec<u32>))
    ensures
        r.0@ == score_entries(rows@),
        r.1@ == row_ids(rows@),
{
    let mut entries: Vec<(u32, Score)> = Vec::new();
    let mut ids: Vec<u32> = Vec::new();
    let mut i: usize = 0;
    while i < rows.len()
        invariant
            0 <= i <= rows@.len(),
            entries@ == score_entries(rows@).take(i as int),
            ids@ == row_ids(rows@).take(i as int),
        decreases rows@.len() - i,
    {
        let id: u32 = rows[i].candidate.app_id;
        entries.push((id, rows[i].candidate.score.relevance_score));
        ids.push(id);
        i = i + 1;
        assert(entries@ =~= score_entries(rows@).take(i as int));
        assert(ids@ =~= row_ids(rows@).take(i as int));
    }
    assert(entries@ =~= score_entries(rows@));
    assert(ids@ =~= row_ids(rows@));
    (entries, ids)
}

/// The rows from `offset` on, at most `limit` of them.
fn rows_in_window(rows: Vec<FeedRow>, offset: usize, limit: usize) -> (r: Vec<FeedRow>)
    ensures
        r@ == window(rows@, offset as nat, limit as nat),
{
    let mut rows = rows;
    let ghost all = rows@;
    let n: usize = rows.len();
    let from: usize = if offset <= n {
        offset
    } else {
        n
    };
    let mut page = rows.split_off(from);
    assert(page@ =~= all.subrange(from as int, n as int));
    if page.len() > limit {
        page.truncate(limit);
        assert(page@ =~= window(all, offset as nat, limit as nat));
    } else {
        assert(page@ =~= window(all, offset as nat, limit as nat));
    }
    page
}

/// The page of a window of `rows`.
pub open spec fn is_page(
    body: FeedBody,
    rows: Seq<FeedRow>,
    plan: FeedPlan,
    offset: nat,
    intent: PlayIntent,
    internal: bool,
    section: Seq<char>,
    snapshot_ms: int,
    context: Seq<char>,
) -> bool {
    let shown = window(rows, offset, plan.limit as nat);
    &&& body.total == rows.len()
    &&& body.limit == plan.limit
    &&& body.offset == offset
    &&& body.page == offset / plan.limit as nat + 1
    &&& body.total_pages == page_count(rows.len(), plan.limit as nat)
    &&& body.sort == plan.sort
    &&& body.order == (if plan.sort is Recommended {
        None
    } else {
        Some(plan.order)
    })
    &&& body.candidate_ids@ == row_ids(rows)
    &&& body.items@.len() == shown.len()
    &&& exists|indices: Map<u32, u8>| #[trigger]
        is_index_map(indices, window(score_entries(rows), offset, plan.limit as nat)) && forall|
            i: int,
        |
            0 <= i < body.items@.len() ==> shows(
                #[trigger] body.items@[i],
                shown[i],
                offset + i + 1,
                indices,
                intent,
                internal,
            )
    &&& opt_view(body.next_cursor) == (if offset + plan.limit < rows.len() {
        Some(
            cursor_text(
                section,
                snapshot_ms,
                context,
                intent.revision as nat,
                (offset + plan.limit) as nat,
            ),
        )
    } else {
        None
    })
}

/// Lays out one page of rows that are already in final order.
pub fn lay_out_page(
    rows: Vec<FeedRow>,
    plan: &FeedPlan,
    offset: usize,
    intent: &PlayIntent,
    internal: bool,
    section: &str,
    snapshot_ms: i64,
    context: &str,
) -> (r: FeedBody)
    requires
        plan.limit >= 1,
        offset / plan.limit < usize::MAX,
    ensures
        is_page(
            r,
            rows@,
            *plan,
            offset as nat,
            *intent,
            internal,
            section@,
            snapshot_ms as int,
            context@,
        ),
{
    let ghost all = rows@;
    let limit: usize = plan.limit;
    let total: usize = rows.len();
    let (entries, candidate_ids) = entries_of(&rows);
    let indices = context_percentile_indices_for_window(&entries, offset, limit);
    let ghost shown = window(all, offset as nat, limit as nat);
    let mut pending = rows_in_window(rows, offset, limit);
    let count: usize = pending.len();
    let mut items: Vec<FeedItem> = Vec::new();
    let mut i: usize = 0;
    let mut rest = pending.split_off(0);
    assert(rest@ =~= shown);
    while i < count
        invariant
            0 <= i <= count == shown.len(),
            shown == window(all, offset as nat, limit as nat),
            all.len() == total,
            rest@ == shown.subrange(i as int, count as int),
            items@.len() == i,
            forall|j: int|
                0 <= j < i ==> shows(
                    #[trigger] items@[j],
                    shown[j],
                    offset + j + 1,
                    indices@,
                    *intent,
                    internal,
                ),
        decreases count - i,
    {
        assert(offset + i + 1 <= total) by {
            assert(shown.len() > 0);
        }
        let row = rest.remove(0);
        assert(row == shown[i as int]);
        assert(rest@ =~= shown.subrange(i + 1, count as int));
        items.push(show_row(row, offset + i + 1, &indices, intent, internal));
        i = i + 1;
    }
    let page: usize = offset / limit + 1;
    let total_pages: usize = if total == 0 {
        0
    } else {
        (total - 1) / limit + 1
    };
    proof {
        let t = total as int;
        let l = limit as int;
        if t == 0 {
            assert((t + l - 1) / l == 0) by (nonlinear_arith)
                requires
                    t == 0,
                    l >= 1,
            ;
        } else {
            assert((t + l - 1) / l == (t - 1) / l + 1) by (nonlinear_arith)
                requires
                    t >= 1,
                    l >= 1,
            ;
        }
    }
    let more = offset < total && limit < total - offset;
    let next_cursor = if more {
        Some(encode_cursor(section, snapshot_ms, context, intent.revision, offset + limit))
    } else {
        None
    };
    let order = if matches!(plan.sort, FeedSort::Recommended) {
        None
    } else {
        Some(plan.order)
    };
    let body = FeedBody {
        items,
        next_cursor,
        total,
        limit,
        offset,
        page,
        total_pages,
        sort: plan.sort,
        order,
        candidate_ids,
    };
    proof {
        assert(is_index_map(indices@, window(score_entries(all), offset as nat, limit as nat)));
    }
    body
}

/// The rows are among the ranked ones.
pub open spec fn all_ranked(rows: Seq<FeedRow>, ranked: Seq<FeedRow>) -> bool {
    forall|i: int| 0 <= i < rows.len() ==> ranked.contains(#[trigger] rows[i])
}

/// The page shows the ranked rows in their final order.
pub open spec fn is_feed_of(
    body: FeedBody,
    ranked: Seq<FeedRow>,
    plan: FeedPlan,
    offset: nat,
    retrieval_ids: Option<Seq<u32>>,
    intent: PlayIntent,
    internal: bool,
    section: Seq<char>,
    snapshot_ms: int,
    context: Seq<char>,
) -> bool {
    exists|rows: Seq<FeedRow>| #[trigger]
        is_page(body, rows, plan, offset, intent, internal, section, snapshot_ms, context)
            && row_ids(rows) == final_ids(ranked, plan, retrieval_ids) && all_ranked(rows, ranked)
}

/// The answer to a feed request whose candidates have been ranked: sorted as asked for,
/// cut down to the recall page where it is an internal recall, and laid out.
pub fn assemble_feed(
    ranked: Vec<FeedRow>,
    plan: &FeedPlan,
    offset: usize,
    retrieval_ids: Option<&Vec<u32>>,
    intent: &PlayIntent,
    internal: bool,
    section: &str,
    snapshot_ms: i64,
    context: &str,
) -> (r: FeedBody)
    requires
        sortable(ranked@),
        plan.limit >= 1,
        offset / plan.limit < usize::MAX,
    ensures
        is_feed_of(
            r,
            ranked@,
            *plan,
            offset as nat,
            match retrieval_ids {
                Some(ids) => Some(ids@),
                None => None,
            },
            *intent,
            internal,
            section@,
            snapshot_ms as int,
            context@,
        ),
        retrieval_ids is None ==> is_page(
            r,
            stable_sorted(ranked@, &(FeedOrder { sort: plan.sort, order: plan.order })),
            *plan,
            offset as nat,
            *intent,
            internal,
            section@,
            snapshot_ms as int,
            context@,
        ),
{
    let ghost by = FeedOrder { sort: plan.sort, order: plan.order };
    let ghost input = ranked@;
    let sorted = apply_feed_sort(ranked, plan.sort, plan.order);
    proof {
        crate::sort::lemma_sorted_members(input, &by);
        assert forall|i: int| 0 <= i < sorted@.len() implies input.contains(#[trigger] sorted@[i]) by {
            assert(sorted@.contains(sorted@[i]));
        }
    }
    let ghost sorted_rows = sorted@;
    let rows = match retrieval_ids {
        Some(ids) => {
            let selected = select_internal_recall_candidates(sorted, ids, plan.limit);
            proof {
                assert forall|i: int| 0 <= i < selected@.len() implies input.contains(
                    #[trigger] selected@[i],
                ) by {
                    assert(sorted_rows.contains(selected@[i]));
                }
            }
            selected
        },
        None => sorted,
    };
    lay_out_page(rows, plan, offset, intent, internal, section, snapshot_ms, context)
}

/// Page after page, every ranked row is shown once and in order: what a page shows,
/// followed by what starts where its cursor points, is what started at the page.
pub proof fn lemma_pages_partition<T>(rows: Seq<T>, offset: nat, limit: nat)
    requires
        offset <= rows.len(),
    ensures
        window(rows, offset, limit) + rows.skip(
            if offset + limit <= rows.len() {
                (offset + limit) as int
            } else {
                rows.len() as int
            },
        ) == rows.skip(offset as int),
        offset + limit >= rows.len() ==> window(rows, offset, limit) == rows.skip(offset as int),
{
}

}
