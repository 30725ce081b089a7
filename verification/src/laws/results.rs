//! Whole answers: what comes out when the steps are taken one after another.

use vstd::prelude::*;

use crate::ai::error::AiError;
use crate::server::ai_rank::AiRankResult;
use crate::hashing::{hash64, hex_sha256, u64_hex16, weak_etag};
use crate::numbers::{decimal, int_decimal, u64_hex};
use crate::score::Score;
use crate::server::ai_rank::Slot;
use crate::server::ai_requests::{plan_search, CompareFacts, SearchPlan};
use crate::server::candidates::CandidateRow;
use crate::server::enhance::{
    ai_admission_failure_reason, new_analysis_id, nl_ai_cache_key, request_id_from,
    validate_rank_result_with_safe_degradation, AiAdmissionError, AiEnhanceOutcome, EnhanceEvent,
    RawRankAnswer,
};
use crate::server::enhance_flow::finish_enhancement;
use crate::server::errors::ApiError;
use crate::server::fact_matrix::{
    compare_facts, is_loaded, load_compare_rows, loaded_by, CompareLookup, FactMatrix,
};
use crate::server::feed::{assemble_feed, FeedBody, PlayIntent};
use crate::server::feed_query::{
    dated_result_context, feed_etag, feed_result_context, recommendation_context, ActiveFeedback,
    FeedPlan, FeedPreferences, FeedQuery, FeedSection, FeedSort, FeedSortOrder, FeedTag,
};
use crate::server::feed_request::{
    answer_feed, locate_feed, FeedAnswer, FeedPlace, FeedRequest, RankingTask,
};
use crate::server::intent::{
    interpret_natural_language, recall_sections, recalls, IntentDelta,
    NaturalLanguageInterpretation,
};
use crate::server::natural_language::{
    answered_by, gather_pool, is_answer, is_recalled, read_request, recall_pool,
    recommendation_page, RecommendationPage,
};
use crate::server::ranking::{apply_feed_sort, FeedRow, RankedCandidate};
use crate::server::recall::{
    build_natural_language_candidate_pool, merge_recalled, HybridHit, RecalledItem,
};
use crate::text::{opt_view, views};

verus! {

// ---------------------------------------------------------------------------
// Requests in words
// ---------------------------------------------------------------------------

/// A request is checked first, and one that is refused is not read. What was checked is read as
/// it is read on its own.
pub proof fn law_checked_requests_are_read(
    query: &str,
    limit: Option<i64>,
    plan: Result<SearchPlan, ApiError>,
    text: &str,
    base: NaturalLanguageInterpretation,
    r: Result<(SearchPlan, NaturalLanguageInterpretation), ApiError>,
)
    requires
        call_ensures(plan_search, (query, limit), plan),
        plan is Ok ==> text@ == plan->Ok_0.query@,
        call_ensures(interpret_natural_language, (text,), base),
        call_ensures(read_request, (query, limit, None::<&IntentDelta>), r),
    ensures
        r is Ok <==> plan is Ok,
        plan is Err ==> r->Err_0.status == plan->Err_0.status && r->Err_0.message@
            == plan->Err_0.message@,
        plan is Ok ==> {
            let read = (r->Ok_0).1;
            &&& (r->Ok_0).0.query@ == plan->Ok_0.query@
            &&& (r->Ok_0).0.limit == plan->Ok_0.limit
            &&& read.party_size == base.party_size
            &&& read.session_minutes_max == base.session_minutes_max
            &&& read.coop_competitive == base.coop_competitive
            &&& read.selected_section == base.selected_section
            &&& read.demo_only == base.demo_only
            &&& views(read.platforms@) == views(base.platforms@)
            &&& views(read.modes_preferred@) == views(base.modes_preferred@)
            &&& views(read.modes_excluded@) == views(base.modes_excluded@)
            &&& views(read.hard_constraints@) == views(base.hard_constraints@)
        },
{
}

/// A correction goes over what the words say.
pub proof fn law_corrections_go_over_words(
    query: &str,
    limit: Option<i64>,
    delta: IntentDelta,
    r: Result<(SearchPlan, NaturalLanguageInterpretation), ApiError>,
)
    requires
        call_ensures(read_request, (query, limit, Some(&delta)), r),
        r is Ok,
    ensures
        delta.party_size is Some && 1 <= delta.party_size->0 <= 64 ==> (r->Ok_0).1.party_size
            is Some && (r->Ok_0).1.party_size->0 == delta.party_size->0,
{
}

// ---------------------------------------------------------------------------
// Pools and pages
// ---------------------------------------------------------------------------

/// The pool is made of what was recalled, once per game, and holds three hundred games at most.
pub proof fn law_pools_are_merged_first(
    recalled: Vec<RecalledItem>,
    hits: Vec<HybridHit>,
    union: Vec<RecalledItem>,
    pool: Vec<RecalledItem>,
    r: Vec<RecalledItem>,
    i: int,
)
    requires
        call_ensures(merge_recalled, (recalled,), union),
        call_ensures(build_natural_language_candidate_pool, (union, &hits, 300usize), pool),
        call_ensures(gather_pool, (recalled, &hits), r),
    ensures
        r@.len() == pool@.len(),
        r@.len() <= 300,
        0 <= i < r@.len() ==> r@[i].app_id == pool@[i].app_id && r@[i].app_id is Some,
{
    let a = crate::server::recall::item_ids(r@);
    let b = crate::server::recall::item_ids(pool@);
    assert(a.len() == r@.len() && b.len() == pool@.len());
    if 0 <= i < r@.len() {
        assert(a[i] == crate::server::recall::id_or_max(r@[i]));
        assert(b[i] == crate::server::recall::id_or_max(pool@[i]));
        assert(r@[i].app_id is Some && pool@[i].app_id is Some);
    }
}

/// Where every section answers there is a pool; where the first one fails, its failure is the
/// answer.
pub proof fn law_failing_sections_fail_the_pool<
    R: Fn(FeedSection, &FeedQuery) -> Result<Vec<RecalledItem>, ApiError>,
>(
    interpreted: NaturalLanguageInterpretation,
    hits: Vec<HybridHit>,
    recall: R,
    sections: Vec<FeedSection>,
    r: Result<Vec<RecalledItem>, ApiError>,
)
    requires
        call_ensures(recall_sections, (&interpreted,), sections),
        call_ensures(recall_pool::<R>, (&interpreted, &hits, recall), r),
    ensures
        (forall|section: FeedSection, query: &FeedQuery, answer: Result<Vec<RecalledItem>, ApiError>|
            #[trigger] recall.ensures((section, query), answer) ==> answer is Ok) ==> r is Ok,
        sections@.len() > 0 && (forall|query: &FeedQuery, answer: Result<
            Vec<RecalledItem>,
            ApiError,
        >| #[trigger]
            recall.ensures((sections@[0], query), answer) ==> answer is Err) ==> r is Err
            && exists|query: &FeedQuery| #[trigger]
            recall.ensures((sections@[0], query), r),
{
    assert(is_recalled(r, interpreted, hits@, recall));
    let (query, answers) = choose|query: FeedQuery, answers: Seq<Vec<RecalledItem>>| #[trigger]
        answered_by(recall, query, sections@, answers) && recalls(query, interpreted) && match r {
            Ok(pool) => answers.len() == sections@.len(),
            Err(error) => answers.len() < sections@.len() && recall.ensures(
                (sections@[answers.len() as int], &query),
                Err(error),
            ),
        };
    if answers.len() > 0 {
        assert(recall.ensures((sections@[0], &query), Ok(answers[0])));
    }
}

/// A page shows the first games that were considered, no more than asked for, and nothing that
/// is for the ranking alone.
pub proof fn law_pages_show_the_first_games(
    pool: Vec<RecalledItem>,
    slots: Vec<Slot>,
    limit: usize,
    r: RecommendationPage,
    i: int,
)
    requires
        call_ensures(recommendation_page, (pool, &slots, limit), r),
    ensures
        r.items@.len() <= limit,
        r.items@.len() <= r.candidate_ids@.len(),
        r.items@.len() == limit || r.items@.len() == r.candidate_ids@.len(),
        0 <= i < r.items@.len() ==> {
            let item = r.items@[i];
            &&& item.app_id is Some ==> r.candidate_ids@[i] == item.app_id->0
            &&& item.rank == Some((i + 1) as usize)
            &&& item.taxonomy_tags@.len() == 0
            &&& item.publisher is None && item.series is None
        },
{
    let whole = choose|whole: Seq<RecalledItem>| #[trigger]
        is_answer(whole, pool@, slots@) && r.shows(whole, limit as nat);
    assert(crate::server::recall::item_ids(whole).len() == whole.len());
    if 0 <= i < r.items@.len() {
        assert(crate::server::ai_rank::stripped(r.items@[i], whole[i]));
        assert(crate::server::recall::item_ids(whole)[i] == crate::server::recall::id_or_max(
            whole[i],
        ));
        let ordered = choose|ordered: Seq<RecalledItem>| #[trigger]
            crate::server::ai_rank::reranked(ordered, pool@, slots@)
                && crate::server::ai_rank::refreshed(whole, ordered);
        let indices = choose|indices: Map<u32, u8>| #[trigger]
            crate::server::ranking::is_index_map(
                indices,
                crate::server::ai_rank::index_entries(ordered),
            ) && forall|i: int|
                0 <= i < whole.len() ==> crate::server::ai_rank::refreshed_item(
                    #[trigger] whole[i],
                    ordered[i],
                    i + 1,
                    indices,
                );
        assert(crate::server::ai_rank::refreshed_item(whole[i], ordered[i], i + 1, indices));
    }
}

// ---------------------------------------------------------------------------
// Facts for a comparison
// ---------------------------------------------------------------------------

/// A comparison has a row for each game asked for, in their order, with the facts that were
/// found. A game that is never found leaves no comparison.
pub proof fn law_every_game_of_a_comparison_is_loaded<L: Fn(u32) -> CompareLookup>(
    app_ids: Vec<u32>,
    load: L,
    r: Result<FactMatrix, ApiError>,
    i: int,
)
    requires
        call_ensures(load_compare_rows::<L>, (&app_ids, load), r),
        0 <= i < app_ids@.len(),
    ensures
        r is Ok ==> r->Ok_0.rows@.len() == app_ids@.len() && r->Ok_0.rows@[i].app_id
            == app_ids@[i],
        r is Ok ==> exists|answer: CompareLookup| #[trigger]
            load.ensures((app_ids@[i],), answer) && answer is Found,
        (forall|answer: CompareLookup| #[trigger]
            load.ensures((app_ids@[i],), answer) ==> !(answer is Found)) ==> r is Err,
        (forall|id: u32, answer: CompareLookup| #[trigger]
            load.ensures((id,), answer) ==> answer is Found) ==> r is Ok,
        (forall|id: u32, answer: CompareLookup| #[trigger]
            load.ensures((id,), answer) ==> !(answer is Failed)) && r is Err ==> r->Err_0.status
            == 404 && r->Err_0.code@ == "not_found"@,
        (forall|id: u32, answer: CompareLookup| #[trigger]
            load.ensures((id,), answer) ==> !(answer is Missing)) && r is Err ==> r->Err_0.status
            == 500 && r->Err_0.code@ == "internal_error"@,
{
    assert(is_loaded(r, app_ids@, load));
    let answers = choose|answers: Seq<CompareLookup>| #[trigger]
        loaded_by(load, app_ids@, answers) && match r {
            Ok(matrix) => answers.len() == app_ids@.len()
                && crate::server::fact_matrix::all_found(answers) && matrix.rows@
                == crate::server::fact_matrix::facts_rows(app_ids@, answers) && matrix.json@ == "["@
                + crate::text::joined(
                crate::server::fact_matrix::json_rows(app_ids@, answers),
                ","@,
            ) + "]"@,
            Err(error) => answers.len() > 0 && crate::server::fact_matrix::all_found(
                answers.drop_last(),
            ) && (match answers.last() {
                CompareLookup::Missing => error.is(
                    404,
                    "not_found"@,
                    "app_id "@ + decimal(app_ids@[answers.len() - 1] as nat) + " was not found"@,
                ),
                CompareLookup::Failed => error.is(
                    500,
                    "internal_error"@,
                    "failed to load game facts"@,
                ),
                CompareLookup::Found(_) => false,
            }),
        };
    if r is Ok {
        assert(load.ensures((app_ids@[i],), answers[i]));
        assert(answers[i] is Found);
    } else {
        let last = answers.len() - 1;
        assert(load.ensures((app_ids@[last],), answers[last]));
    }
}

/// The row of a game that was found holds the facts of what was found.
pub proof fn law_rows_hold_what_was_found<L: Fn(u32) -> CompareLookup>(
    app_ids: Vec<u32>,
    load: L,
    r: Result<FactMatrix, ApiError>,
    i: int,
    game: crate::server::fact_matrix::StoredGame,
    facts: CompareFacts,
)
    requires
        call_ensures(load_compare_rows::<L>, (&app_ids, load), r),
        r is Ok,
        0 <= i < app_ids@.len(),
        forall|answer: CompareLookup| #[trigger]
            load.ensures((app_ids@[i],), answer) ==> answer == CompareLookup::Found(game),
        game.profile is Some,
        call_ensures(compare_facts, (app_ids@[i], Some(&game.profile->0)), facts),
    ensures
        r->Ok_0.rows@[i] == facts,
{
    assert(is_loaded(r, app_ids@, load));
    let answers = choose|answers: Seq<CompareLookup>| #[trigger]
        loaded_by(load, app_ids@, answers) && answers.len() == app_ids@.len()
            && crate::server::fact_matrix::all_found(answers) && r->Ok_0.rows@
            == crate::server::fact_matrix::facts_rows(app_ids@, answers);
    assert(load.ensures((app_ids@[i],), answers[i]));
}

// ---------------------------------------------------------------------------
// Feeds
// ---------------------------------------------------------------------------

/// A feed holds every ranked game in the order that was asked for, and a page of it.
pub proof fn law_feeds_hold_the_sorted_games(
    ranked: Vec<FeedRow>,
    plan: FeedPlan,
    offset: usize,
    intent: PlayIntent,
    internal: bool,
    section: &str,
    snapshot_ms: i64,
    context: &str,
    sorted: Vec<FeedRow>,
    r: FeedBody,
    i: int,
)
    requires
        call_ensures(apply_feed_sort, (ranked, plan.sort, plan.order), sorted),
        call_ensures(
            assemble_feed,
            (
                ranked,
                &plan,
                offset,
                None::<&Vec<u32>>,
                &intent,
                internal,
                section,
                snapshot_ms,
                context,
            ),
            r,
        ),
    ensures
        r.total == ranked@.len(),
        r.candidate_ids@.len() == ranked@.len(),
        0 <= i < ranked@.len() ==> r.candidate_ids@[i] == sorted@[i].candidate.app_id,
        r.items@.len() <= plan.limit,
        r.items@.len() < plan.limit ==> offset + r.items@.len() >= r.total,
        r.next_cursor is Some <==> offset + plan.limit < r.total,
        r.sort == plan.sort,
        plan.sort is Recommended ==> r.order is None,
        !(plan.sort is Recommended) ==> r.order == Some(plan.order),
{
    assert(opt_view(r.next_cursor) is Some <==> r.next_cursor is Some);
    let ids = crate::server::ranking::row_ids(sorted@);
    assert(ids.len() == sorted@.len());
    if 0 <= i < ranked@.len() {
        assert(ids[i] == sorted@[i].candidate.app_id);
    }
}

/// An internal recall shows only games that were ranked, and no more than asked for.
pub proof fn law_recalls_show_ranked_games(
    ranked: Vec<FeedRow>,
    plan: FeedPlan,
    offset: usize,
    retrieval_ids: Vec<u32>,
    intent: PlayIntent,
    internal: bool,
    section: &str,
    snapshot_ms: i64,
    context: &str,
    r: FeedBody,
    i: int,
)
    requires
        call_ensures(
            assemble_feed,
            (
                ranked,
                &plan,
                offset,
                Some(&retrieval_ids),
                &intent,
                internal,
                section,
                snapshot_ms,
                context,
            ),
            r,
        ),
    ensures
        r.candidate_ids@.len() <= plan.limit,
        r.total == r.candidate_ids@.len(),
        0 <= i < r.candidate_ids@.len() ==> exists|k: int|
            0 <= k < ranked@.len() && (#[trigger] ranked@[k]).candidate.app_id
                == r.candidate_ids@[i],
{
    let rows = choose|rows: Seq<FeedRow>| #[trigger]
        crate::server::feed::is_page(
            r,
            rows,
            plan,
            offset as nat,
            intent,
            internal,
            section@,
            snapshot_ms as int,
            context@,
        ) && crate::server::ranking::row_ids(rows) == crate::server::feed::final_ids(
            ranked@,
            plan,
            Some(retrieval_ids@),
        ) && crate::server::feed::all_ranked(rows, ranked@);
    assert(crate::server::ranking::row_ids(rows).len() == rows.len());
    if 0 <= i < r.candidate_ids@.len() {
        assert(crate::server::ranking::row_ids(rows)[i] == rows[i].candidate.app_id);
        assert(ranked@.contains(rows[i]));
    }
}

/// A feed request is refused exactly where its place is; a page that the client holds is not
/// made again.
pub proof fn law_held_pages_are_not_made_again<R: Fn(&RankingTask) -> Vec<RankedCandidate>>(
    request: FeedRequest,
    prefs: FeedPreferences,
    validated: Result<(), String>,
    rows: Vec<CandidateRow>,
    active: Vec<ActiveFeedback>,
    intent: PlayIntent,
    rank: R,
    place: Result<FeedPlace, ApiError>,
    r: Result<FeedAnswer, ApiError>,
)
    requires
        call_ensures(locate_feed, (&request, prefs, validated, intent.revision), place),
        call_ensures(
            answer_feed::<R>,
            (&request, prefs, validated, rows, &active, &intent, rank),
            r,
        ),
    ensures
        r is Err <==> place is Err,
        r is Err ==> r->Err_0.status == place->Err_0.status && r->Err_0.code@
            == place->Err_0.code@ && r->Err_0.message@ == place->Err_0.message@,
        r is Ok && r->Ok_0 is NotModified ==> opt_view(request.if_none_match) == Some(
            r->Ok_0->NotModified_etag@,
        ),
        r is Ok && request.if_none_match is None ==> r->Ok_0 is Page,
        r is Ok && r->Ok_0 is Page ==> {
            let body = r->Ok_0->Page_body;
            &&& opt_view(request.if_none_match) != Some(r->Ok_0->Page_etag@)
            &&& body.offset == place->Ok_0.offset
            &&& body.limit == place->Ok_0.plan.limit
            &&& body.sort == place->Ok_0.plan.sort
        },
{
    assert(opt_view(request.if_none_match) is Some <==> request.if_none_match is Some);
    if r is Ok && r->Ok_0 is Page {
        let body = r->Ok_0->Page_body;
        let offset = place->Ok_0.offset as nat;
        assert(crate::server::feed_request::is_made_by(
            body,
            request,
            prefs,
            rows@,
            active@,
            intent,
            offset,
            rank,
        ));
        let (task, ranked) = choose|task: &RankingTask, ranked: Vec<RankedCandidate>| #[trigger]
            rank.ensures((task,), ranked) && crate::server::feed_request::is_task_of(
                *task,
                request,
                prefs,
                rows@,
                active@,
                intent,
            ) && crate::server::feed_request::is_answer_of(
                body,
                request,
                intent,
                offset,
                ranked@,
                task.candidates@,
            );
        assert(crate::server::feed_request::is_answer_of(
            body,
            request,
            intent,
            offset,
            ranked@,
            task.candidates@,
        ));
    }
}

// ---------------------------------------------------------------------------
// Names of contexts, tags and calls
// ---------------------------------------------------------------------------

/// The context of a result names the sort, the direction where there is one, and whether only
/// demos are shown.
pub proof fn law_contexts_name_the_sort(
    preference_context: &str,
    sort: FeedSort,
    order: FeedSortOrder,
    demo_only: bool,
    sort_word: &'static str,
    order_word: &'static str,
    text: &str,
    hash: u64,
    digits: String,
    r: String,
)
    requires
        call_ensures(FeedSort::as_str, (sort,), sort_word),
        call_ensures(FeedSortOrder::as_str, (order,), order_word),
        text@ == preference_context@ + "|sort="@ + sort_word@ + "|order="@ + (
        if sort is Recommended {
            "n/a"@
        } else {
            order_word@
        }) + "|demo_only="@ + (if demo_only {
            "true"@
        } else {
            "false"@
        }),
        call_ensures(hash64, (text,), hash),
        call_ensures(u64_hex16, (hash,), digits),
        call_ensures(feed_result_context, (preference_context, sort, order, demo_only), r),
    ensures
        r@ == digits@,
{
}

/// The words for sorts and directions.
pub proof fn law_sorts_have_words(
    sort: FeedSort,
    order: FeedSortOrder,
    sort_word: &'static str,
    order_word: &'static str,
)
    requires
        call_ensures(FeedSort::as_str, (sort,), sort_word),
        call_ensures(FeedSortOrder::as_str, (order,), order_word),
    ensures
        sort is Recommended ==> sort_word@ == "recommended"@,
        sort is FitIndex ==> sort_word@ == "fit_index"@,
        sort is Ccu ==> sort_word@ == "ccu"@,
        sort is Reviews ==> sort_word@ == "reviews"@,
        sort is ReleaseDate ==> sort_word@ == "release_date"@,
        order is Asc ==> order_word@ == "asc"@,
        order is Desc ==> order_word@ == "desc"@,
{
}

/// The context of a day is that of the result and the day.
pub proof fn law_contexts_bear_the_day(
    preference_context: &str,
    plan: FeedPlan,
    utc_day: &str,
    context: String,
    r: String,
)
    requires
        call_ensures(
            feed_result_context,
            (preference_context, plan.sort, plan.order, plan.demo_only),
            context,
        ),
        call_ensures(dated_result_context, (preference_context, &plan, utc_day), r),
    ensures
        r@ == context@ + "|tie_day="@ + utc_day@,
{
}

/// The tag of a feed page stands for everything that the page depends on.
pub proof fn law_tags_name_what_pages_depend_on(
    tag: FeedTag,
    sort_word: &'static str,
    order_word: &'static str,
    text: &str,
    e: String,
    r: String,
)
    requires
        call_ensures(FeedSort::as_str, (tag.sort,), sort_word),
        call_ensures(FeedSortOrder::as_str, (tag.order,), order_word),
        text@ == "feed:v6:"@ + tag.build@ + ":"@ + tag.section@ + ":"@ + int_decimal(
            tag.snapshot_ms as int,
        ) + ":"@ + tag.result_context@ + ":"@ + decimal(tag.offset as nat) + ":"@ + decimal(
            tag.limit as nat,
        ) + ":"@ + tag.config_version@ + ":pi"@ + decimal(tag.play_intent_revision as nat)
            + ":user"@ + (if tag.user_id is Some {
            tag.user_id->0@
        } else {
            "public"@
        }) + ":sort"@ + sort_word@ + ":order"@ + order_word@ + ":demo"@ + (if tag.demo_only {
            "true"@
        } else {
            "false"@
        }),
        call_ensures(weak_etag, (text,), e),
        call_ensures(feed_etag, (&tag,), r),
    ensures
        r@ == e@,
{
}

/// The context of a ranking names the preferences, the algorithm, its configuration and each
/// piece of feedback.
pub proof fn law_contexts_name_the_feedback(
    prefs_json: &str,
    feedback: Vec<ActiveFeedback>,
    algorithm_version: &str,
    config_json: &str,
    text: &str,
    hash: u64,
    digits: String,
    r: String,
)
    requires
        feedback@.len() == 1,
        text@ == prefs_json@ + "|"@ + algorithm_version@ + "|"@ + config_json@ + "|"@ + decimal(
            feedback@[0].app_id as nat,
        ) + ":"@ + feedback@[0].feedback_type@,
        call_ensures(hash64, (text,), hash),
        call_ensures(u64_hex, (hash,), digits),
        call_ensures(
            recommendation_context,
            (prefs_json, &feedback, algorithm_version, config_json),
            r,
        ),
    ensures
        r@ == digits@,
{
    let suffix = crate::server::feed_query::feedback_suffix(feedback@);
    assert(feedback@.drop_last() =~= Seq::empty());
    assert(crate::server::feed_query::feedback_suffix(feedback@.drop_last()) =~= Seq::empty());
    assert(text@ =~= prefs_json@ + "|"@ + algorithm_version@ + "|"@ + config_json@ + suffix);
}

/// A cached ranking is named by the provider, the scope, the versions, the question and the
/// games.
pub proof fn law_cache_keys_name_everything(
    query: &str,
    candidates_json: &str,
    provider_identity: &str,
    cache_scope: &str,
    route_version: &str,
    prompt_version: &str,
    algorithm_version: &str,
    bytes: &[u8],
    digits: String,
    r: String,
)
    requires
        bytes@ == vstd::utf8::encode_utf8(provider_identity@).push(0) + vstd::utf8::encode_utf8(
            cache_scope@,
        ).push(0) + vstd::utf8::encode_utf8(prompt_version@).push(0) + vstd::utf8::encode_utf8(
            route_version@,
        ).push(0) + vstd::utf8::encode_utf8(algorithm_version@).push(0)
            + vstd::utf8::encode_utf8(query@).push(0) + vstd::utf8::encode_utf8(candidates_json@),
        call_ensures(hex_sha256, (bytes,), digits),
        call_ensures(
            nl_ai_cache_key,
            (
                query,
                candidates_json,
                provider_identity,
                cache_scope,
                route_version,
                prompt_version,
                algorithm_version,
            ),
            r,
        ),
    ensures
        r@ == "nl-rank:"@ + digits@,
{
}

/// Without randomness a request is told apart by the process and the count.
pub proof fn law_requests_are_told_apart(process_id: u32, counter: u64, r: String)
    requires
        call_ensures(request_id_from, (None::<Vec<u8>>, process_id, counter), r),
    ensures
        r@ == "req-fallback-"@ + decimal(process_id as nat) + "-"@ + decimal(counter as nat),
{
}

/// The identifier of an analysis has a mark and twenty-four digits.
pub proof fn law_analyses_are_marked(now_ms: i64, entropy: u64, r: String)
    requires
        call_ensures(new_analysis_id, (now_ms, entropy), r),
    ensures
        r@.len() == 27,
        r@.take(3) == "an_"@,
{
    reveal_strlit("an_");
    assert(r@.take(3) =~= "an_"@);
}

/// Whoever used up the budget is told so; otherwise the quota is unavailable for now.
pub proof fn law_admission_failures_are_told(error: AiAdmissionError, exhausted: &str, r: String)
    requires
        call_ensures(ai_admission_failure_reason, (error, exhausted), r),
    ensures
        error is BudgetExhausted ==> r@ == exhausted@,
        error is TemporarilyUnavailable ==> r@
            == "AI account quota is temporarily unavailable; deterministic results are shown"@,
{
}

// ---------------------------------------------------------------------------
// What a model's answer comes to
// ---------------------------------------------------------------------------

/// An answer that stands as it is is taken as it is; a failure that is not about the output is
/// handed on; and what can be sanitised is taken in that form.
pub proof fn law_answers_stand_as_far_as_they_can<
    V: Fn(&RawRankAnswer) -> Result<AiRankResult, AiError>,
    S: Fn(&RawRankAnswer) -> Option<(AiRankResult, bool)>,
>(
    answer: RawRankAnswer,
    validate: V,
    sanitize: S,
    r: Result<(AiRankResult, Option<String>), AiError>,
)
    requires
        call_ensures(
            validate_rank_result_with_safe_degradation::<V, S>,
            (&answer, validate, sanitize),
            r,
        ),
    ensures
        (forall|result: Result<AiRankResult, AiError>| #[trigger]
            validate.ensures((&answer,), result) ==> result is Ok) ==> r is Ok && (r->Ok_0).1
            is None && validate.ensures(
            (&answer,),
            Ok::<AiRankResult, AiError>((r->Ok_0).0),
        ),
        (forall|result: Result<AiRankResult, AiError>| #[trigger]
            validate.ensures((&answer,), result) ==> result is Err && !(result->Err_0
                is InvalidOutput)) ==> r is Err && validate.ensures(
            (&answer,),
            Err::<AiRankResult, AiError>(r->Err_0),
        ),
        (forall|result: Result<AiRankResult, AiError>| #[trigger]
            validate.ensures((&answer,), result) ==> result is Err && result->Err_0
                is InvalidOutput) && (forall|result: Option<(AiRankResult, bool)>| #[trigger]
            sanitize.ensures((&answer,), result) ==> result is Some) ==> r is Ok && (
        sanitize.ensures((&answer,), Some(((r->Ok_0).0, true))) && (r->Ok_0).1 is Some
            || sanitize.ensures((&answer,), Some(((r->Ok_0).0, false))) && (r->Ok_0).1 is None),
        (forall|given: &RawRankAnswer, result: Result<AiRankResult, AiError>| #[trigger]
            validate.ensures((given,), result) ==> result is Err) && (forall|
            result: Option<(AiRankResult, bool)>,
        | #[trigger] sanitize.ensures((&answer,), result) ==> result is None) ==> r is Err,
{
    let attempts = choose|attempts: crate::server::enhance::RankAttempts| #[trigger]
        crate::server::enhance::attempted(attempts, answer, validate, sanitize)
            && crate::server::enhance::degraded(r, attempts);
    assert(validate.ensures((&answer,), attempts.strict));
    if r is Ok {
        let notice = (r->Ok_0).1;
        assert(opt_view(notice) is Some <==> notice is Some);
    }
}

/// Only an answer that was accepted or cached changes the list; and then no game comes or goes.
pub proof fn law_enhancement_keeps_the_games(
    items: Vec<RecalledItem>,
    event: EnhanceEvent,
    blended: Vec<Score>,
    r: (AiEnhanceOutcome, Vec<RecalledItem>),
)
    requires
        call_ensures(finish_enhancement, (items, event, &blended), r),
    ensures
        r.0.status is Cached <==> event is CacheHit,
        r.0.status is Used <==> event is Accepted,
        !(event is CacheHit) && !(event is Accepted) ==> r.1@ == items@ && r.0.status is Fallback
            && r.0.fallback_reason is Some,
        r.1@.len() == items@.len(),
        crate::server::recall::item_ids(r.1@).to_multiset() == crate::server::recall::item_ids(
            items@,
        ).to_multiset(),
{
    let a = crate::server::recall::item_ids(r.1@);
    let b = crate::server::recall::item_ids(items@);
    a.to_multiset_ensures();
    b.to_multiset_ensures();
    assert(a.len() == r.1@.len() && b.len() == items@.len());
    assert(a.to_multiset().len() == a.len() && b.to_multiset().len() == b.len());
}

} // verus!
