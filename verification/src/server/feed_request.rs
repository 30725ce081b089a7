//! A feed request from beginning to end: what is refused and in which order, what has not
//! changed, and the page.

use vstd::prelude::*;

use crate::hashing::{
    hex16, lemma_hex_of_u64, recommendation_tie_seed, text_hash, tie_seed_text, weak_etag_text,
};
use crate::numbers::{decimal, digit_char, hex};
use crate::server::candidates::{are_candidates, prepare_candidates, Candidate, CandidateRow};
use crate::server::errors::{invalid_argument, refused, ApiError};
use crate::server::feed::{assemble_feed, final_ids, is_page, FeedBody, PlayIntent};
use crate::server::feed_query::{
    apply_feed_overrides, csv_message, dated_context, dated_result_context, decoded_cursor,
    feed_etag, feed_offset, feed_tag_text, filter_accepted, given,
    hard_constraints_from_feed_query, if_none_match_ok, lemma_cursor_roundtrip, max_limit,
    named_constraints, or_stored, order_named, overridden, page_offset, party_size_accepted,
    plan_feed_request, result_context_text, sort_named,
    ActiveFeedback, CursorError, FeedPlan, FeedPreferences, FeedQuery, FeedTag, HardConstraints,
};
use crate::server::ranking::{
    row_ids, sortable, FeedOrder, FeedPresentation, FeedRow, RankedCandidate,
};
use crate::sort::{last_position, lemma_sorted_members, stable_sorted};
use crate::text::opt_view;

verus! {

/// A feed request, with what is known when it comes in. `section` is the name of the section,
/// where there is one of that name; `preference_context` stands for the preferences that the
/// request ranks with, the feedback on games, and the configuration. With `retrieval_ids` it is
/// an internal recall.
#[derive(Debug)]
pub struct FeedRequest {
    pub section: Option<String>,
    pub query: FeedQuery,
    pub with_ranking_metadata: bool,
    pub retrieval_ids: Option<Vec<u32>>,
    pub if_none_match: Option<String>,
    pub user_id: Option<String>,
    pub build: String,
    pub config_version: String,
    pub snapshot_ms: i64,
    pub utc_day: String,
    pub preference_context: String,
}

#[derive(Debug)]
pub enum FeedAnswer {
    NotModified { etag: String },
    Page { etag: String, body: FeedBody },
}

// ---------------------------------------------------------------------------
// Where the page starts
// ---------------------------------------------------------------------------

/// What an acceptable query asks for.
pub open spec fn plan_of(query: FeedQuery) -> FeedPlan {
    let sort = sort_named(given(opt_view(query.sort)))->0;
    FeedPlan {
        limit: or_stored(query.limit, 20i64) as usize,
        sort,
        order: order_named(given(opt_view(query.order)), sort)->0,
        demo_only: query.demo_only == Some(true),
    }
}

/// Why the query itself is refused: the first of these that applies.
pub open spec fn query_fault(request: FeedRequest, validated: Result<(), String>) -> Option<
    Seq<char>,
> {
    let query = request.query;
    let limit = or_stored(query.limit, 20i64);
    let sort = sort_named(given(opt_view(query.sort)));
    if request.section is None {
        Some("unknown feed section"@)
    } else if !party_size_accepted(query) {
        Some("party_size must be between 1 and 64"@)
    } else if !filter_accepted(query.platforms) {
        Some(csv_message("platforms"@))
    } else if !filter_accepted(query.languages) {
        Some(csv_message("languages"@))
    } else if !filter_accepted(query.excluded_modes) {
        Some(csv_message("excluded_modes"@))
    } else if validated is Err {
        Some(validated->Err_0@)
    } else if !(1 <= limit <= max_limit(request.retrieval_ids is Some)) {
        Some(
            "limit must be between 1 and "@ + decimal(
                max_limit(request.retrieval_ids is Some) as nat,
            ),
        )
    } else if sort is None {
        Some("sort must be recommended, fit_index, ccu, reviews, or release_date"@)
    } else if order_named(given(opt_view(query.order)), sort->0) is None {
        Some("order must be asc or desc"@)
    } else {
        None
    }
}

/// The result that cursors and tags of the request belong to.
pub open spec fn request_context(request: FeedRequest) -> Seq<char> {
    dated_context(request.preference_context@, plan_of(request.query), request.utc_day@)
}

/// Where the page starts, or which cursor error stands against it. A page number wins.
pub open spec fn page_start(request: FeedRequest, revision: u64) -> Result<nat, CursorError> {
    match request.query.page {
        Some(page) => Ok(page_offset(page as int, plan_of(request.query).limit as nat)),
        None => decoded_cursor(
            opt_view(request.query.cursor),
            request.section->0@,
            request.snapshot_ms as int,
            request_context(request),
            revision as nat,
        ),
    }
}

/// The page that starts there has a number.
pub open spec fn page_is_countable(request: FeedRequest, revision: u64) -> bool {
    match page_start(request, revision) {
        Ok(offset) => (offset / (plan_of(request.query).limit as nat)) < usize::MAX,
        Err(_) => true,
    }
}

/// Why the place of the page is refused.
pub open spec fn place_fault(request: FeedRequest, revision: u64) -> Option<Seq<char>> {
    if request.query.page is Some && request.query.page->0 < 1 {
        Some("page must be >= 1"@)
    } else if request.query.page is None && page_start(request, revision)
        == Err::<nat, CursorError>(CursorError::Invalid) {
        Some("invalid feed cursor"@)
    } else {
        None
    }
}

/// The entity tag of the page.
pub open spec fn tag_of(tag: FeedTag, request: FeedRequest, revision: u64, offset: nat) -> bool {
    let plan = plan_of(request.query);
    &&& tag.build@ == request.build@
    &&& tag.section@ == request.section->0@
    &&& tag.snapshot_ms == request.snapshot_ms
    &&& tag.result_context@ == request_context(request)
    &&& tag.offset == offset
    &&& tag.limit == plan.limit
    &&& tag.config_version@ == request.config_version@
    &&& tag.play_intent_revision == revision
    &&& opt_view(tag.user_id) == opt_view(request.user_id)
    &&& tag.sort == plan.sort
    &&& tag.order == plan.order
    &&& tag.demo_only == plan.demo_only
}

pub open spec fn is_etag(
    etag: Seq<char>,
    request: FeedRequest,
    revision: u64,
    offset: nat,
) -> bool {
    exists|tag: FeedTag| #[trigger]
        tag_of(tag, request, revision, offset) && etag == weak_etag_text(feed_tag_text(tag))
}

/// The place of an acceptable request.
#[derive(Debug)]
pub struct FeedPlace {
    pub prefs: FeedPreferences,
    pub plan: FeedPlan,
    pub context: String,
    pub offset: usize,
    pub etag: String,
}

/// Checks a request, and finds the page that it asks for. `validated` is what the validation
/// of the preferences says that the request ranks with.
pub fn locate_feed(
    request: &FeedRequest,
    prefs: FeedPreferences,
    validated: Result<(), String>,
    revision: u64,
) -> (r: Result<FeedPlace, ApiError>)
    ensures
        match query_fault(*request, validated) {
            Some(message) => refused(r, message),
            None => match place_fault(*request, revision) {
                Some(message) => refused(r, message),
                None => match page_start(*request, revision) {
                    Err(_) => r matches Err(e) && e.is(
                        409,
                        "cursor_stale"@,
                        "feed cursor snapshot is stale; restart pagination"@,
                    ),
                    Ok(offset) => r matches Ok(place) && place.plan == plan_of(request.query)
                        && place.plan.limit >= 1 && place.context@ == request_context(*request)
                        && place.offset == offset && is_etag(
                        place.etag@,
                        *request,
                        revision,
                        offset,
                    ) && overridden(place.prefs, prefs, request.query),
                },
            },
        },
{
    let section: &str = match &request.section {
        Some(section) => section.as_str(),
        None => return Err(invalid_argument("unknown feed section")),
    };
    let prefs = match apply_feed_overrides(prefs, &request.query) {
        Ok(prefs) => prefs,
        Err(error) => return Err(error),
    };
    let internal = match &request.retrieval_ids {
        Some(_) => true,
        None => false,
    };
    let plan = match plan_feed_request(&request.query, internal, validated) {
        Ok(plan) => plan,
        Err(error) => return Err(error),
    };
    let context = dated_result_context(
        request.preference_context.as_str(),
        &plan,
        request.utc_day.as_str(),
    );
    let cursor: Option<&str> = match &request.query.cursor {
        Some(cursor) => Some(cursor.as_str()),
        None => None,
    };
    let offset: usize = match feed_offset(
        request.query.page,
        cursor,
        section,
        request.snapshot_ms,
        context.as_str(),
        revision,
        plan.limit,
    ) {
        Ok(offset) => offset,
        Err(error) => return Err(error),
    };
    let user_id = match &request.user_id {
        Some(id) => Some(id.clone()),
        None => None,
    };
    let tag = FeedTag {
        build: request.build.clone(),
        section: section.to_owned(),
        snapshot_ms: request.snapshot_ms,
        result_context: context.clone(),
        offset,
        limit: plan.limit,
        config_version: request.config_version.clone(),
        play_intent_revision: revision,
        user_id,
        sort: plan.sort,
        order: plan.order,
        demo_only: plan.demo_only,
    };
    let etag = feed_etag(&tag);
    assert(tag_of(tag, *request, revision, offset as nat));
    Ok(FeedPlace { prefs, plan, context, offset, etag })
}

// ---------------------------------------------------------------------------
// What is shown beside the ranking
// ---------------------------------------------------------------------------

pub open spec fn candidate_ids(candidates: Seq<Candidate>) -> Seq<u32> {
    candidates.map_values(|candidate: Candidate| candidate.app_id)
}

/// What is shown of a game: that of the last candidate for it.
pub open spec fn presentation_of(candidates: Seq<Candidate>, app_id: u32) -> Option<
    FeedPresentation,
> {
    match last_position(candidate_ids(candidates), app_id) {
        Some(p) => Some(candidates[p].presentation),
        None => None,
    }
}

/// The ranked games, each with what is shown of it.
pub open spec fn presented(
    ranked: Seq<RankedCandidate>,
    candidates: Seq<Candidate>,
) -> Seq<FeedRow> {
    ranked.map_values(
        |game: RankedCandidate|
            FeedRow {
                candidate: game,
                presentation: presentation_of(candidates, game.app_id),
            },
    )
}

fn copy_text(text: &Option<String>) -> (r: Option<String>)
    ensures
        r == *text,
{
    match text {
        Some(text) => Some(text.clone()),
        None => None,
    }
}

fn copy_presentation(shown: &FeedPresentation) -> (r: FeedPresentation)
    ensures
        r == *shown,
{
    FeedPresentation {
        release_date: copy_text(&shown.release_date),
        release_date_raw: copy_text(&shown.release_date_raw),
        release_date_precision: copy_text(&shown.release_date_precision),
        cover_url: copy_text(&shown.cover_url),
        cover_updated_at_ms: shown.cover_updated_at_ms,
        total_reviews: shown.total_reviews,
        total_positive: shown.total_positive,
        latest_ccu: shown.latest_ccu,
        typical_ccu_7d: shown.typical_ccu_7d,
        data_confidence: shown.data_confidence,
        effective_feature_count: shown.effective_feature_count,
        profile_observed_at_ms: shown.profile_observed_at_ms,
        reviews_observed_at_ms: shown.reviews_observed_at_ms,
        activity_observed_at_ms: shown.activity_observed_at_ms,
        price_observed_at_ms: shown.price_observed_at_ms,
        release_observed_at_ms: shown.release_observed_at_ms,
    }
}

fn find_presentation(candidates: &Vec<Candidate>, app_id: u32) -> (r: Option<FeedPresentation>)
    ensures
        r == presentation_of(candidates@, app_id),
{
    let ghost ids = candidate_ids(candidates@);
    let mut i: usize = candidates.len();
    assert(ids.take(i as int) =~= ids);
    while i > 0
        invariant
            0 <= i <= candidates@.len(),
            ids == candidate_ids(candidates@),
            last_position(ids, app_id) == last_position(ids.take(i as int), app_id),
        decreases i,
    {
        proof {
            assert(ids.take(i as int).last() == candidates@[i - 1].app_id);
            assert(ids.take(i as int).drop_last() =~= ids.take(i - 1));
        }
        if candidates[i - 1].app_id == app_id {
            return Some(copy_presentation(&candidates[i - 1].presentation));
        }
        i = i - 1;
    }
    None
}

fn present(ranked: Vec<RankedCandidate>, candidates: &Vec<Candidate>) -> (r: Vec<FeedRow>)
    ensures
        r@ == presented(ranked@, candidates@),
{
    let ghost input = ranked@;
    let mut rows: Vec<FeedRow> = Vec::new();
    for game in it: ranked
        invariant
            it.seq() == input,
            rows@ == presented(input, candidates@).take(it.index()),
    {
        let ghost before = rows@;
        let presentation = find_presentation(candidates, game.app_id);
        rows.push(FeedRow { candidate: game, presentation });
        assert(rows@ =~= presented(input, candidates@).take(it.index() + 1));
    }
    assert(rows@ =~= presented(input, candidates@));
    rows
}

// ---------------------------------------------------------------------------
// The answer
// ---------------------------------------------------------------------------

/// What is ranked, and by what.
#[derive(Debug)]
pub struct RankingTask {
    pub prefs: FeedPreferences,
    pub constraints: HardConstraints,
    pub tie_seed: u64,
    pub candidates: Vec<Candidate>,
}

/// The task that a request comes to.
pub open spec fn is_task_of(
    task: RankingTask,
    request: FeedRequest,
    prefs: FeedPreferences,
    rows: Seq<CandidateRow>,
    active: Seq<ActiveFeedback>,
    intent: PlayIntent,
) -> bool {
    &&& overridden(task.prefs, prefs, request.query)
    &&& task.constraints == named_constraints(request.query)
    &&& task.tie_seed == text_hash(tie_seed_text(opt_view(request.user_id), request.utc_day@))
    &&& are_candidates(
        task.candidates@,
        rows,
        active,
        plan_of(request.query).demo_only,
        intent,
    )
}

/// Every final score is a number.
pub open spec fn scores_are_numbers(ranked: Seq<RankedCandidate>) -> bool {
    forall|i: int|
        0 <= i < ranked.len() ==> (#[trigger] ranked[i]).score.final_score.is_number()
}

/// The rows in the order that was asked for.
pub open spec fn in_feed_order(rows: Seq<FeedRow>, plan: FeedPlan) -> Seq<FeedRow> {
    stable_sorted(rows, &(FeedOrder { sort: plan.sort, order: plan.order }))
}

/// The page shows what the ranking made of the candidates.
pub open spec fn is_answer_of(
    body: FeedBody,
    request: FeedRequest,
    intent: PlayIntent,
    offset: nat,
    ranked: Seq<RankedCandidate>,
    candidates: Seq<Candidate>,
) -> bool {
    exists|rows: Seq<FeedRow>| #[trigger]
        is_page(
            body,
            rows,
            plan_of(request.query),
            offset,
            intent,
            request.with_ranking_metadata,
            request.section->0@,
            request.snapshot_ms as int,
            request_context(request),
        ) && row_ids(rows) == final_ids(
            presented(ranked, candidates),
            plan_of(request.query),
            match request.retrieval_ids {
                Some(ids) => Some(ids@),
                None => None,
            },
        ) && (forall|i: int|
            0 <= i < rows.len() ==> presented(ranked, candidates).contains(#[trigger] rows[i])) && (
        request.retrieval_ids is None ==> rows == in_feed_order(
            presented(ranked, candidates),
            plan_of(request.query),
        ))
}

/// The page shows what `rank` made of the task that the request comes to.
pub open spec fn is_made_by<R: Fn(&RankingTask) -> Vec<RankedCandidate>>(
    body: FeedBody,
    request: FeedRequest,
    prefs: FeedPreferences,
    rows: Seq<CandidateRow>,
    active: Seq<ActiveFeedback>,
    intent: PlayIntent,
    offset: nat,
    rank: R,
) -> bool {
    exists|task: &RankingTask, ranked: Vec<RankedCandidate>| #[trigger]
        rank.ensures((task,), ranked) && is_task_of(*task, request, prefs, rows, active, intent)
            && is_answer_of(body, request, intent, offset, ranked@, task.candidates@)
}

/// Answers a feed request. What is refused is refused before anything is looked up; a page
/// that the client holds already is not made again; and else the rows that are let in are
/// ranked by `rank`, sorted, and laid out.
pub fn answer_feed<R: Fn(&RankingTask) -> Vec<RankedCandidate>>(
    request: &FeedRequest,
    prefs: FeedPreferences,
    validated: Result<(), String>,
    rows: Vec<CandidateRow>,
    active: &Vec<ActiveFeedback>,
    intent: &PlayIntent,
    rank: R,
) -> (r: Result<FeedAnswer, ApiError>)
    requires
        forall|task: &RankingTask| #[trigger] rank.requires((task,)),
        forall|task: &RankingTask, ranked: Vec<RankedCandidate>| #[trigger]
            rank.ensures((task,), ranked) ==> scores_are_numbers(ranked@),
        query_fault(*request, validated) is None ==> page_is_countable(*request, intent.revision),
    ensures
        match query_fault(*request, validated) {
            Some(message) => refused(r, message),
            None => match place_fault(*request, intent.revision) {
                Some(message) => refused(r, message),
                None => match page_start(*request, intent.revision) {
                    Err(_) => r matches Err(e) && e.is(
                        409,
                        "cursor_stale"@,
                        "feed cursor snapshot is stale; restart pagination"@,
                    ),
                    Ok(offset) => match r {
                        Ok(FeedAnswer::NotModified { etag }) => is_etag(
                            etag@,
                            *request,
                            intent.revision,
                            offset,
                        ) && opt_view(request.if_none_match) == Some(etag@),
                        Ok(FeedAnswer::Page { etag, body }) => is_etag(
                            etag@,
                            *request,
                            intent.revision,
                            offset,
                        ) && opt_view(request.if_none_match) != Some(etag@) && is_made_by(
                            body,
                            *request,
                            prefs,
                            rows@,
                            active@,
                            *intent,
                            offset,
                            rank,
                        ),
                        Err(_) => false,
                    },
                },
            },
        },
{
    let place = match locate_feed(request, prefs, validated, intent.revision) {
        Ok(place) => place,
        Err(error) => return Err(error),
    };
    let held: Option<&str> = match &request.if_none_match {
        Some(held) => Some(held.as_str()),
        None => None,
    };
    if if_none_match_ok(held, place.etag.as_str()) {
        return Ok(FeedAnswer::NotModified { etag: place.etag });
    }
    let section: &str = match &request.section {
        Some(section) => section.as_str(),
        None => "",
    };
    let who: Option<&str> = match &request.user_id {
        Some(id) => Some(id.as_str()),
        None => None,
    };
    let task = RankingTask {
        prefs: place.prefs,
        constraints: hard_constraints_from_feed_query(&request.query),
        tie_seed: recommendation_tie_seed(who, request.utc_day.as_str()),
        candidates: prepare_candidates(rows, active, place.plan.demo_only, intent),
    };
    let ranked = rank(&task);
    let ghost chosen = ranked;
    let shown = present(ranked, &task.candidates);
    let ghost presented_rows = shown@;
    proof {
        assert forall|i: int| 0 <= i < shown@.len() implies (
        #[trigger] shown@[i]).candidate.score.final_score.is_number() by {
            assert(chosen@[i].score.final_score.is_number());
        }
        assert(sortable(shown@));
    }
    let retrieval: Option<&Vec<u32>> = match &request.retrieval_ids {
        Some(ids) => Some(ids),
        None => None,
    };
    let body = assemble_feed(
        shown,
        &place.plan,
        place.offset,
        retrieval,
        intent,
        request.with_ranking_metadata,
        section,
        request.snapshot_ms,
        place.context.as_str(),
    );
    proof {
        let sorted = in_feed_order(presented_rows, place.plan);
        lemma_sorted_members(
            presented_rows,
            &(FeedOrder { sort: place.plan.sort, order: place.plan.order }),
        );
        assert forall|i: int| 0 <= i < sorted.len() implies presented_rows.contains(
            #[trigger] sorted[i],
        ) by {
            assert(sorted.contains(sorted[i]));
        }
        assert(is_answer_of(
            body,
            *request,
            *intent,
            place.offset as nat,
            chosen@,
            task.candidates@,
        ));
        assert(rank.ensures((&task,), chosen));
    }
    Ok(FeedAnswer::Page { etag: place.etag, body })
}

// ---------------------------------------------------------------------------
// From page to page
// ---------------------------------------------------------------------------

/// The two requests page through the same result.
pub open spec fn same_result(a: FeedRequest, b: FeedRequest) -> bool {
    &&& a.section == b.section
    &&& a.snapshot_ms == b.snapshot_ms
    &&& a.utc_day == b.utc_day
    &&& a.preference_context == b.preference_context
    &&& a.query.sort == b.query.sort
    &&& a.query.order == b.query.order
    &&& a.query.demo_only == b.query.demo_only
}

proof fn lemma_hex_has_no_colon(n: nat)
    ensures
        !hex(n).contains(':'),
    decreases n,
{
    if n < 16 {
        assert(hex(n) =~= seq![digit_char(n as int)]);
    } else {
        lemma_hex_has_no_colon(n / 16);
        assert(hex(n) =~= hex(n / 16).push(digit_char((n % 16) as int)));
        assert forall|i: int| 0 <= i < hex(n).len() implies hex(n)[i] != ':' by {
            if i < hex(n / 16).len() {
                assert(hex(n / 16).contains(hex(n / 16)[i]));
            }
        }
    }
}

proof fn lemma_context_has_no_colon(request: FeedRequest)
    requires
        !request.utc_day@.contains(':'),
    ensures
        !request_context(request).contains(':'),
{
    let plan = plan_of(request.query);
    let hash = text_hash(
        result_context_text(request.preference_context@, plan.sort, plan.order, plan.demo_only),
    );
    lemma_hex_has_no_colon(hash as nat);
    lemma_hex_of_u64(hash);
    reveal_strlit("|tie_day=");
    let context = request_context(request);
    let named = hex16(hash) + "|tie_day="@;
    assert forall|i: int| 0 <= i < context.len() implies context[i] != ':' by {
        if i < hex16(hash).len() {
            let digits = hex(hash as nat);
            let pad = hex16(hash).len() - digits.len();
            if i >= pad {
                assert(digits.contains(digits[i - pad]));
                assert(hex16(hash)[i] == digits[i - pad]);
            }
        } else if i >= named.len() {
            assert(request.utc_day@.contains(request.utc_day@[i - named.len()]));
        }
    }
}

/// The cursor of a page leads to the page that follows it: a request for the same result that
/// brings the cursor starts where the page ended.
pub proof fn lemma_cursor_leads_to_the_next_page(
    request: FeedRequest,
    next: FeedRequest,
    body: FeedBody,
    rows: Seq<FeedRow>,
    intent: PlayIntent,
    offset: nat,
)
    requires
        is_page(
            body,
            rows,
            plan_of(request.query),
            offset,
            intent,
            request.with_ranking_metadata,
            request.section->0@,
            request.snapshot_ms as int,
            request_context(request),
        ),
        body.next_cursor is Some,
        same_result(request, next),
        next.query.page is None,
        opt_view(next.query.cursor) == opt_view(body.next_cursor),
        !request.section->0@.contains(':'),
        !request.utc_day@.contains(':'),
    ensures
        page_start(next, intent.revision) == Ok::<nat, CursorError>(
            offset + plan_of(request.query).limit as nat,
        ),
        offset + plan_of(request.query).limit < rows.len(),
{
    lemma_context_has_no_colon(request);
    lemma_cursor_roundtrip(
        request.section->0@,
        request.snapshot_ms as int,
        request_context(request),
        intent.revision as nat,
        offset + plan_of(request.query).limit as nat,
    );
    assert(request_context(next) == request_context(request));
}

} // verus!
