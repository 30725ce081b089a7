//! Answering a request in plain language: one pool across the sections, one page of it, and
//! the record of an analysis that goes on after the answer.

use vstd::prelude::*;

use crate::numbers::{clamp_i64, saturating_sum};
use crate::server::ai_rank::{
    global_natural_language_rerank, naming, refreshed, reranked, slot_ids,
    strip_internal_ranking_metadata, stripped, Slot,
};
use crate::server::ai_requests::{
    check_analysis_id, plan_search, recorded_status, search_row_status, AiStatus, SearchPlan,
};
use crate::server::enhance::AiEnhanceOutcome;
use crate::server::errors::{api_error, database_missing, refused, ApiError};
use crate::server::feed_query::{FeedQuery, FeedSection, NATURAL_LANGUAGE_RECALL_LIMIT};
use crate::server::intent::{
    apply_intent_delta, corrected, interpret_natural_language, lowercase_of, normalized_query,
    reads, recall_query, recall_sections, recalls, sections_of, IntentDelta,
    NaturalLanguageInterpretation,
};
use crate::server::recall::{
    all_come_from, build_natural_language_candidate_pool, id_or_max, item_ids, json_app_id,
    lemma_pool_only_selects, merge_recalled, merged, merged_with, one_per_game, pool_ids,
    HybridHit, RecalledItem,
};
use crate::sort::{last_position, lemma_last_position, lemma_picks_members, picks};
use crate::text::{byte_len, opt_view, str_eq, trimmed};

verus! {

// ---------------------------------------------------------------------------
// Reading the request
// ---------------------------------------------------------------------------

/// `new` is what an interpretation becomes with the changes that came along.
pub open spec fn after_delta(
    new: NaturalLanguageInterpretation,
    base: NaturalLanguageInterpretation,
    delta: Option<&IntentDelta>,
) -> bool {
    match delta {
        Some(delta) => corrected(new, base, *delta),
        None => new == base,
    }
}

/// The request is read as its words say, and then changed by `delta`.
pub open spec fn is_reading(
    interpreted: NaturalLanguageInterpretation,
    query: Seq<char>,
    delta: Option<&IntentDelta>,
) -> bool {
    exists|base: NaturalLanguageInterpretation| #[trigger]
        reads(base, lowercase_of(query)) && after_delta(interpreted, base, delta)
}

/// Checks a request and reads it. A request that is refused is not read.
pub fn read_request(query: &str, limit: Option<i64>, delta: Option<&IntentDelta>) -> (r: Result<
    (SearchPlan, NaturalLanguageInterpretation),
    ApiError,
>)
    ensures
        match normalized_query(query@) {
            None => refused(r, "query must contain between 3 and 500 characters"@),
            Some(text) => if limit matches Some(n) && !(3 <= n <= 10) {
                refused(r, "limit must be between 3 and 10"@)
            } else {
                r matches Ok((plan, interpreted)) && plan.query@ == text && plan.limit == (
                match limit {
                    Some(n) => n as int,
                    None => 6,
                }) && is_reading(interpreted, text, delta)
            },
        },
{
    let plan = match plan_search(query, limit) {
        Ok(plan) => plan,
        Err(error) => return Err(error),
    };
    let mut interpreted = interpret_natural_language(plan.query.as_str());
    let ghost base = interpreted;
    match delta {
        Some(delta) => apply_intent_delta(&mut interpreted, delta),
        None => {},
    }
    assert(reads(base, lowercase_of(plan.query@)) && after_delta(interpreted, base, delta));
    Ok((plan, interpreted))
}

// ---------------------------------------------------------------------------
// The pool and the page
// ---------------------------------------------------------------------------

/// One pool of what the sections recalled, each game once, the hits of the search first.
pub fn gather_pool(recalled: Vec<RecalledItem>, hits: &Vec<HybridHit>) -> (r: Vec<RecalledItem>)
    ensures
        item_ids(r@) == pool_ids(
            merged(recalled@),
            hits@,
            NATURAL_LANGUAGE_RECALL_LIMIT as nat,
        ),
        all_come_from(r@, merged(recalled@), hits@),
        one_per_game(r@),
{
    let eligible = merge_recalled(recalled);
    build_natural_language_candidate_pool(eligible, hits, NATURAL_LANGUAGE_RECALL_LIMIT)
}

/// What the sections answered, one after another.
pub open spec fn recalled_together(answers: Seq<Vec<RecalledItem>>) -> Seq<RecalledItem>
    decreases answers.len(),
{
    if answers.len() == 0 {
        Seq::empty()
    } else {
        recalled_together(answers.drop_last()) + answers.last()@
    }
}

/// `answers` are what `recall` gave for the first sections, in their order.
pub open spec fn answered_by<
    R: Fn(FeedSection, &FeedQuery) -> Result<Vec<RecalledItem>, ApiError>,
>(recall: R, query: FeedQuery, sections: Seq<FeedSection>, answers: Seq<Vec<RecalledItem>>) -> bool {
    &&& answers.len() <= sections.len()
    &&& forall|i: int|
        0 <= i < answers.len() ==> recall.ensures((sections[i], &query), Ok(#[trigger] answers[i]))
}

/// The pool holds what all the sections answered, or the first section that failed decided.
pub open spec fn is_recalled<
    R: Fn(FeedSection, &FeedQuery) -> Result<Vec<RecalledItem>, ApiError>,
>(
    r: Result<Vec<RecalledItem>, ApiError>,
    interpreted: NaturalLanguageInterpretation,
    hits: Seq<HybridHit>,
    recall: R,
) -> bool {
    exists|query: FeedQuery, answers: Seq<Vec<RecalledItem>>| #[trigger]
        answered_by(recall, query, sections_of(interpreted), answers) && recalls(
            query,
            interpreted,
        ) && match r {
            Ok(pool) => answers.len() == sections_of(interpreted).len() && item_ids(pool@)
                == pool_ids(
                merged(recalled_together(answers)),
                hits,
                NATURAL_LANGUAGE_RECALL_LIMIT as nat,
            ) && one_per_game(pool@) && all_come_from(
                pool@,
                merged(recalled_together(answers)),
                hits,
            ),
            Err(error) => answers.len() < sections_of(interpreted).len() && recall.ensures(
                (sections_of(interpreted)[answers.len() as int], &query),
                Err(error),
            ),
        }
}

/// Asks the sections one after another for what `interpreted` says, and makes one pool of
/// their answers. The first section that fails decides the answer, and no later one is asked.
pub fn recall_pool<R: Fn(FeedSection, &FeedQuery) -> Result<Vec<RecalledItem>, ApiError>>(
    interpreted: &NaturalLanguageInterpretation,
    hits: &Vec<HybridHit>,
    recall: R,
) -> (r: Result<Vec<RecalledItem>, ApiError>)
    requires
        forall|section: FeedSection, query: &FeedQuery| #[trigger]
            recall.requires((section, query)),
    ensures
        is_recalled(r, *interpreted, hits@, recall),
{
    let query = recall_query(interpreted);
    let sections = recall_sections(interpreted);
    let ghost mut answers: Seq<Vec<RecalledItem>> = Seq::empty();
    let mut together: Vec<RecalledItem> = Vec::new();
    let mut i: usize = 0;
    while i < sections.len()
        invariant
            0 <= i <= sections@.len(),
            sections@ == sections_of(*interpreted),
            recalls(query, *interpreted),
            forall|section: FeedSection, query: &FeedQuery| #[trigger]
                recall.requires((section, query)),
            answers.len() == i,
            answered_by(recall, query, sections@, answers),
            together@ == recalled_together(answers),
        decreases sections@.len() - i,
    {
        match recall(sections[i], &query) {
            Ok(items) => {
                let ghost answer = items;
                let mut items = items;
                together.append(&mut items);
                proof {
                    let longer = answers.push(answer);
                    assert(longer.drop_last() =~= answers);
                    answers = longer;
                }
            },
            Err(error) => return Err(error),
        }
        i = i + 1;
    }
    Ok(gather_pool(together, hits))
}

/// What is shown, and every game that was considered for it.
#[derive(Debug)]
pub struct RecommendationPage {
    pub candidate_ids: Vec<u32>,
    pub items: Vec<RecalledItem>,
}

impl RecommendationPage {
    /// The first `limit` of the whole reranked list, without internal metadata.
    pub open spec fn shows(self, whole: Seq<RecalledItem>, limit: nat) -> bool {
        &&& self.candidate_ids@ == item_ids(whole)
        &&& self.items@.len() == (if whole.len() <= limit {
            whole.len()
        } else {
            limit
        })
        &&& forall|i: int|
            0 <= i < self.items@.len() ==> stripped(#[trigger] self.items@[i], whole[i])
    }
}

/// `whole` is the pool in the order of the slots, with its ranking metadata up to date.
pub open spec fn is_answer(
    whole: Seq<RecalledItem>,
    pool: Seq<RecalledItem>,
    slots: Seq<Slot>,
) -> bool {
    exists|ordered: Seq<RecalledItem>| #[trigger]
        reranked(ordered, pool, slots) && refreshed(whole, ordered)
}

/// The page shows the first games of the whole reranked pool.
pub open spec fn is_page_of(
    page: RecommendationPage,
    pool: Seq<RecalledItem>,
    slots: Seq<Slot>,
    limit: nat,
) -> bool {
    exists|whole: Seq<RecalledItem>| #[trigger]
        is_answer(whole, pool, slots) && page.shows(whole, limit)
}

/// Diversifies the pool once, and shows the first games of it.
pub fn recommendation_page(
    pool: Vec<RecalledItem>,
    slots: &Vec<Slot>,
    limit: usize,
) -> (r: RecommendationPage)
    ensures
        is_page_of(r, pool@, slots@, limit as nat),
{
    let ghost input = pool@;
    let mut items = global_natural_language_rerank(pool, slots);
    let ghost whole = items@;
    assert(is_answer(whole, input, slots@));
    let mut candidate_ids: Vec<u32> = Vec::new();
    let mut i: usize = 0;
    while i < items.len()
        invariant
            0 <= i <= items@.len(),
            candidate_ids@ == item_ids(items@).take(i as int),
        decreases items@.len() - i,
    {
        candidate_ids.push(json_app_id(&items[i]));
        i = i + 1;
        assert(candidate_ids@ =~= item_ids(items@).take(i as int));
    }
    assert(candidate_ids@ =~= item_ids(whole));
    items.truncate(limit);
    let items = strip_internal_ranking_metadata(items);
    let page = RecommendationPage { candidate_ids, items };
    assert(page.shows(whole, limit as nat));
    page
}

proof fn lemma_all_name_a_game(items: Seq<RecalledItem>)
    requires
        forall|i: int| 0 <= i < items.len() ==> (#[trigger] items[i]).app_id is Some,
    ensures
        naming(items, true) == items,
        naming(items, false).len() == 0,
    decreases items.len(),
{
    if items.len() > 0 {
        lemma_all_name_a_game(items.drop_last());
        assert(items.drop_last().push(items.last()) =~= items);
    }
}

proof fn lemma_merged_members(items: Seq<RecalledItem>)
    ensures
        forall|id: u32| #[trigger]
            item_ids(merged(items)).contains(id) ==> item_ids(items).contains(id),
    decreases items.len(),
{
    if items.len() > 0 {
        let front = items.drop_last();
        lemma_merged_members(front);
        let union = merged(front);
        let item = items.last();
        let after = merged_with(union, item);
        lemma_last_position(item_ids(union), id_or_max(item));
        assert forall|id: u32| #[trigger]
            item_ids(after).contains(id) implies item_ids(items).contains(id) by {
            let k = choose|k: int| 0 <= k < item_ids(after).len() && item_ids(after)[k] == id;
            if after[k] == item {
                assert(item_ids(items)[items.len() - 1] == id);
            } else {
                assert(after[k] == union[k]);
                assert(item_ids(union)[k] == id);
                assert(item_ids(union).contains(id));
                let n = choose|n: int| 0 <= n < front.len() && item_ids(front)[n] == id;
                assert(item_ids(items)[n] == id);
            }
        }
    }
}

/// Whatever the search found and however the pool was rearranged, by a model or by the slots, a
/// page shows at most as many games as were asked for, none of them twice, and only games that a
/// section recalled. They are numbered from one on, and show nothing that only internal ranking
/// may see.
pub proof fn lemma_page_shows_recalled_games(
    page: RecommendationPage,
    recalled: Seq<RecalledItem>,
    hits: Seq<HybridHit>,
    pool: Seq<RecalledItem>,
    slots: Seq<Slot>,
    whole: Seq<RecalledItem>,
    limit: nat,
)
    requires
        item_ids(pool).to_multiset() == pool_ids(
            merged(recalled),
            hits,
            NATURAL_LANGUAGE_RECALL_LIMIT as nat,
        ).to_multiset(),
        one_per_game(pool),
        is_answer(whole, pool, slots),
        page.shows(whole, limit),
    ensures
        page.items@.len() <= limit,
        page.items@.len() <= NATURAL_LANGUAGE_RECALL_LIMIT,
        item_ids(page.items@).no_duplicates(),
        forall|id: u32| #[trigger]
            item_ids(page.items@).contains(id) ==> item_ids(recalled).contains(id),
        forall|i: int|
            0 <= i < page.items@.len() ==> (#[trigger] page.items@[i]).rank == Some(
                (i + 1) as usize,
            ) && page.items@[i].taxonomy_tags@.len() == 0 && page.items@[i].publisher is None
                && page.items@[i].series is None,
{
    let ordered = choose|ordered: Seq<RecalledItem>| #[trigger]
        reranked(ordered, pool, slots) && refreshed(whole, ordered);
    lemma_all_name_a_game(pool);
    lemma_pool_only_selects(merged(recalled), hits, NATURAL_LANGUAGE_RECALL_LIMIT as nat);
    lemma_merged_members(recalled);
    let available = item_ids(pool);
    let gathered = pool_ids(merged(recalled), hits, NATURAL_LANGUAGE_RECALL_LIMIT as nat);
    available.to_multiset_ensures();
    gathered.to_multiset_ensures();
    let order = picks(slot_ids(slots), available);
    lemma_picks_members(slot_ids(slots), available);
    assert(whole.len() == order.len());
    assert forall|i: int| 0 <= i < whole.len() implies id_or_max(#[trigger] whole[i])
        == order[i] by {
        let p = last_position(available, order[i]);
        lemma_last_position(available, order[i]);
        assert(p is Some);
        assert(available[p->0] == order[i]);
        assert(ordered[i].app_id == pool[p->0].app_id);
        assert(whole[i].app_id == ordered[i].app_id);
    }
    let shown = item_ids(page.items@);
    assert forall|i: int| 0 <= i < shown.len() implies #[trigger] shown[i] == order[i] by {
        assert(stripped(page.items@[i], whole[i]));
        assert(page.items@[i].app_id == whole[i].app_id);
        assert(id_or_max(whole[i]) == order[i]);
    }
    assert forall|id: u32| #[trigger] shown.contains(id) implies item_ids(recalled).contains(
        id,
    ) by {
        let i = choose|i: int| 0 <= i < shown.len() && shown[i] == id;
        assert(order.contains(order[i]));
        assert(available.contains(id));
        assert(available.to_multiset().contains(id));
        assert(gathered.contains(id));
    }
    lemma_distinct_members(order, available);
}

/// A list without repetitions whose members are all in another one is no longer than it.
proof fn lemma_distinct_members(part: Seq<u32>, all: Seq<u32>)
    requires
        part.no_duplicates(),
        forall|id: u32| #[trigger] part.contains(id) ==> all.contains(id),
    ensures
        part.len() <= all.len(),
{
    part.unique_seq_to_set();
    all.lemma_cardinality_of_set();
    assert(part.to_set().subset_of(all.to_set())) by {
        assert forall|id: u32| #[trigger] part.to_set().contains(id) implies all.to_set().contains(
            id,
        ) by {
            assert(part.contains(id));
        }
    }
    vstd::set_lib::lemma_len_subset(part.to_set(), all.to_set());
}

// ---------------------------------------------------------------------------
// Analyses that go on after the answer
// ---------------------------------------------------------------------------

/// How long an analysis can be looked up: six hours.
pub const ANALYSIS_TTL_MS: i64 = 21_600_000;

/// What is recorded of a search. Where the model works on in the background, the answer
/// says that it is pending.
#[derive(Debug)]
pub struct SearchRecord {
    pub status: String,
    pub expires_at_ms: i64,
    pub in_background: bool,
}

/// `status` is what the base answer said of the model.
pub fn record_search(progressive: bool, status: Option<&str>, now_ms: i64) -> (r: SearchRecord)
    ensures
        r.status@ == recorded_status(
            progressive,
            match status {
                Some(text) => text@,
                None => "fallback"@,
            },
        ),
        r.expires_at_ms == clamp_i64(now_ms + ANALYSIS_TTL_MS),
        r.in_background == (progressive && r.status@ == "pending"@),
{
    let status = search_row_status(progressive, status);
    let in_background = progressive && str_eq(status.as_str(), "pending");
    SearchRecord {
        status,
        expires_at_ms: saturating_sum(now_ms, ANALYSIS_TTL_MS),
        in_background,
    }
}

/// What is recorded when the model is done.
#[derive(Debug)]
pub struct CompletedAnalysis {
    pub status: AiStatus,
    pub model: Option<String>,
    pub protocol: Option<String>,
    pub route_version: Option<String>,
    pub error_category: Option<String>,
    pub fallback_reason: Option<String>,
}

/// `route_version` is that of the route for ranking, which stands in for a missing one.
pub fn complete_analysis(
    outcome: AiEnhanceOutcome,
    route_version: Option<String>,
) -> (r: CompletedAnalysis)
    ensures
        r.status == outcome.status,
        r.model == outcome.model,
        r.protocol == outcome.protocol,
        r.route_version == (if outcome.route_version is Some {
            outcome.route_version
        } else {
            route_version
        }),
        opt_view(r.error_category) == (if outcome.fallback_reason is Some {
            Some("ai_fallback"@)
        } else {
            None
        }),
        r.fallback_reason == outcome.fallback_reason,
{
    let error_category = if outcome.fallback_reason.is_some() {
        Some("ai_fallback".to_owned())
    } else {
        None
    };
    let route_version = if outcome.route_version.is_some() {
        outcome.route_version
    } else {
        route_version
    };
    CompletedAnalysis {
        status: outcome.status,
        model: outcome.model,
        protocol: outcome.protocol,
        route_version,
        error_category,
        fallback_reason: outcome.fallback_reason,
    }
}

/// Whether an analysis can be looked up. Without storage none can.
pub fn check_analysis_request(storage_available: bool, analysis_id: &str) -> (r: Result<
    (),
    ApiError,
>)
    ensures
        !storage_available ==> (r matches Err(e) && e.is(
            503,
            "storage_unavailable"@,
            "database is not configured"@,
        )),
        storage_available && (byte_len(analysis_id@) > 64 || trimmed(analysis_id@).len() == 0)
            ==> refused(r, "analysis_id is invalid"@),
        storage_available && byte_len(analysis_id@) <= 64 && trimmed(analysis_id@).len() > 0
            ==> r is Ok,
{
    if !storage_available {
        return Err(database_missing());
    }
    check_analysis_id(analysis_id)
}

/// What came of looking an analysis up.
#[derive(Debug, Clone, Copy, PartialEq, Eq, Structural)]
pub enum AnalysisLookup {
    Found,
    Absent,
    Failed,
}

pub fn analysis_found(lookup: AnalysisLookup) -> (r: Result<(), ApiError>)
    ensures
        match lookup {
            AnalysisLookup::Found => r is Ok,
            AnalysisLookup::Absent => r matches Err(e) && e.is(
                404,
                "not_found"@,
                "analysis not found or expired"@,
            ),
            AnalysisLookup::Failed => r matches Err(e) && e.is(
                500,
                "internal_error"@,
                "failed to load analysis"@,
            ),
        },
{
    match lookup {
        AnalysisLookup::Found => Ok(()),
        AnalysisLookup::Absent => {
            Err(api_error(404, "not_found", "analysis not found or expired"))
        },
        AnalysisLookup::Failed => {
            Err(api_error(500, "internal_error", "failed to load analysis"))
        },
    }
}

}
