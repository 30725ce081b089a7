//! How a model's ranking is asked for, admitted and applied.

use vstd::prelude::*;

use crate::ai::error::AiError;
use crate::score::Score;
use crate::server::ai_rank::{
    apply_validated_ai_rank, global_natural_language_rerank, placed_items,
    ranked_candidate_from_json, recommendation_ids, refresh_json_ranking_metadata, refreshed,
    reordered, strip_internal_ranking_metadata, AiRankItem, AiRankResult, BlendedOrder, Placed,
    Slot,
};
use crate::server::enhance::{
    accept_most, enhancement_start, next_admission_step, progressive_outcome, ranking_only,
    settle_enhancement, AdmissionEvent, AdmissionStep, AiAdmissionError, AiEnhanceOutcome,
    EnhanceEvent, RankAttempts, RawRankAnswer,
};
use crate::server::enhance_flow::{enhancement_step, model_step, step_outcome, EnhanceStep, ModelStep};
use crate::server::natural_language::{
    analysis_found, check_analysis_request, complete_analysis, record_search, AnalysisLookup,
    CompletedAnalysis, SearchRecord,
};
use crate::server::ranking::RankedCandidate;
use crate::server::recall::RecalledItem;
use crate::text::{byte_len, opt_view, trimmed};

verus! {

// ---------------------------------------------------------------------------
// Admission
// ---------------------------------------------------------------------------

/// A call is granted exactly after a permit, a place within the minute and, where the day is
/// charged, a charge to the day; the first of them that is not to be had denies it.
pub proof fn law_calls_are_granted_step_by_step(
    charge_day: bool,
    permit: AdmissionEvent,
    minute: AdmissionEvent,
    day: AdmissionEvent,
    a: AdmissionStep,
    b: AdmissionStep,
    c: AdmissionStep,
)
    requires
        call_ensures(next_admission_step, (AdmissionStep::TakePermit, permit, charge_day), a),
        call_ensures(next_admission_step, (a, minute, charge_day), b),
        call_ensures(next_admission_step, (b, day, charge_day), c),
    ensures
        c is Granted <==> permit is Passed && minute is Passed && (charge_day ==> day is Passed),
        b is Granted <==> permit is Passed && minute is Passed && !charge_day,
        !(a is Granted),
        !(permit is Passed) ==> a == AdmissionStep::Denied(AiAdmissionError::BudgetExhausted)
            && c == a,
        permit is Passed && !(minute is Passed) ==> b == AdmissionStep::Denied(
            AiAdmissionError::BudgetExhausted,
        ) && c == b,
        permit is Passed && minute is Passed && charge_day && day is Exhausted ==> c
            == AdmissionStep::Denied(AiAdmissionError::BudgetExhausted),
        permit is Passed && minute is Passed && charge_day && day is Unavailable ==> c
            == AdmissionStep::Denied(AiAdmissionError::TemporarilyUnavailable),
{
}

/// A model is called exactly where it is there and the call was granted; a denial is handed on.
pub proof fn law_models_are_called_once_granted(
    available: bool,
    admission: Option<AdmissionStep>,
    r: ModelStep,
)
    requires
        call_ensures(model_step, (available, admission), r),
    ensures
        r is Call <==> available && admission is Some && admission->0 is Granted,
        r is Refused <==> available && admission is Some && admission->0 is Denied,
        r is Refused ==> r->Refused_0 == admission->0->Denied_0,
        r is NotAdmitted <==> !available || admission is None,
{
}

/// The model is called only for an answer that waits for it, on games that are there, without a
/// stored answer, and once granted; a stored answer goes before a call. An answer that does not
/// wait is pending where a model is there.
pub proof fn law_enhancement_steps(
    progressive: bool,
    items: usize,
    candidates: usize,
    online_available: bool,
    cached: bool,
    admission: Option<AdmissionStep>,
    r: EnhanceStep,
)
    requires
        call_ensures(
            enhancement_step,
            (progressive, items, candidates, online_available, cached, admission),
            r,
        ),
    ensures
        r is CallModel <==> !progressive && items > 0 && candidates > 0 && online_available
            && !cached && admission is Some && admission->0 is Granted,
        r is UseCached <==> !progressive && items > 0 && candidates > 0 && online_available
            && cached,
        r is AnswerPending <==> progressive && online_available,
        r is Unavailable <==> !online_available && (progressive || items > 0),
        r is Disabled <==> !online_available && !progressive && items == 0,
        r is NothingToRank <==> online_available && !progressive && items == 0,
        r is NoCandidates <==> online_available && !progressive && items > 0 && candidates == 0,
        r is Refused <==> !progressive && items > 0 && candidates > 0 && online_available && !cached
            && admission is Some && admission->0 is Denied,
{
}

/// Each step that ends the matter has its outcome: pending where the answer comes later, used
/// where there is nothing to rank, disabled where nobody could, and otherwise the ranking without
/// a model, with the reason; the other steps have none yet.
pub proof fn law_steps_have_outcomes(
    step: EnhanceStep,
    disabled_reason: &str,
    exhausted: &str,
    r: Option<AiEnhanceOutcome>,
)
    requires
        call_ensures(step_outcome, (step, disabled_reason, exhausted), r),
    ensures
        r is None <==> step is UseCached || step is Admit || step is CallModel,
        step is AnswerPending <==> r is Some && r->0.status is Pending,
        step is NothingToRank <==> r is Some && r->0.status is Used,
        step is Disabled <==> r is Some && r->0.status is Disabled,
        r is Some && !(step is NothingToRank) ==> r->0.fallback_reason is Some,
        step is Unavailable || step is NotAdmitted ==> r->0.status is Fallback
            && r->0.fallback_reason->0@ == disabled_reason@,
        step == EnhanceStep::Refused(AiAdmissionError::BudgetExhausted)
            ==> r->0.fallback_reason->0@ == exhausted@,
        r is Some ==> r->0.summary is None && r->0.model is None,
{
    if r is Some {
        assert(opt_view(r->0.fallback_reason) is Some <==> r->0.fallback_reason is Some);
    }
}

/// A ranking is applied exactly where a model's answer was accepted or is stored; every other
/// event leaves the ranking without a model, and says why.
pub proof fn law_only_accepted_answers_are_applied(
    event: EnhanceEvent,
    r: (AiEnhanceOutcome, Option<AiRankResult>),
)
    requires
        call_ensures(settle_enhancement, (event,), r),
    ensures
        r.1 is Some <==> event is CacheHit || event is Accepted,
        event is CacheHit <==> r.0.status is Cached,
        event is Accepted <==> r.0.status is Used,
        r.1 is None <==> r.0.status is Fallback,
        r.1 is None ==> r.0.fallback_reason is Some && r.0.summary is None && r.0.model is None,
        event is CacheHit ==> r.1 == Some(event->CacheHit_result) && r.0.fallback_reason is None,
        event is Accepted ==> r.1 == Some(event->Accepted_result) && opt_view(r.0.model) == Some(
            event->Accepted_model@,
        ),
{
    assert(opt_view(r.0.fallback_reason) is Some <==> r.0.fallback_reason is Some);
}

/// The start: with games and a model there is something to do; otherwise the outcome is settled.
pub proof fn law_enhancement_starts(
    items: usize,
    online_available: bool,
    disabled_reason: &str,
    r: Option<AiEnhanceOutcome>,
    later: AiEnhanceOutcome,
)
    requires
        call_ensures(enhancement_start, (items, online_available, disabled_reason), r),
        call_ensures(progressive_outcome, (online_available, disabled_reason), later),
    ensures
        r is None <==> items > 0 && online_available,
        r is Some && r->0.status is Used <==> items == 0 && online_available,
        r is Some && r->0.status is Disabled <==> items == 0 && !online_available,
        r is Some && r->0.status is Fallback <==> items > 0 && !online_available,
        later.status is Pending <==> online_available,
        later.status is Fallback <==> !online_available,
{
}

/// As much of an answer is taken as can be: all of it where it is valid, without a notice; what
/// could be cleaned; or its ranking alone, with a notice. An error that is no fault of the answer
/// is handed on.
pub proof fn law_as_much_as_can_be_is_taken(
    attempts: RankAttempts,
    r: Result<(AiRankResult, Option<String>), AiError>,
)
    requires
        call_ensures(accept_most, (attempts,), r),
    ensures
        attempts.strict is Ok ==> r is Ok && r->Ok_0.0 == attempts.strict->Ok_0 && r->Ok_0.1
            is None,
        attempts.strict is Err && !(attempts.strict->Err_0 is InvalidOutput) ==> r is Err
            && r->Err_0 == attempts.strict->Err_0,
        attempts.strict is Err && attempts.strict->Err_0 is InvalidOutput && attempts.sanitized
            is Some ==> r is Ok && r->Ok_0.0 == (attempts.sanitized->0).0 && (r->Ok_0.1 is Some
            <==> (attempts.sanitized->0).1),
        attempts.strict is Err && attempts.strict->Err_0 is InvalidOutput && attempts.sanitized
            is None && attempts.ranking_only is Some && attempts.ranking_only->0 is Ok ==> r is Ok
            && r->Ok_0.0 == attempts.ranking_only->0->Ok_0 && r->Ok_0.1 is Some,
        attempts.strict is Err && attempts.sanitized is None && !(attempts.ranking_only is Some
            && attempts.ranking_only->0 is Ok) ==> r is Err,
{
    if r is Ok {
        assert(opt_view(r->Ok_0.1) is Some <==> r->Ok_0.1 is Some);
    }
}

/// The ranking alone keeps the games and their scores and drops every word and citation.
pub proof fn law_rankings_alone_say_nothing(
    answer: RawRankAnswer,
    r: Option<RawRankAnswer>,
    i: int,
)
    requires
        call_ensures(ranking_only, (&answer,), r),
        answer.recommendations is Some,
        0 <= i < answer.recommendations->0@.len(),
    ensures
        r is Some,
        r->0.recommendations->0@.len() == answer.recommendations->0@.len(),
        ({
            let new = r->0.recommendations->0@[i];
            let before = answer.recommendations->0@[i];
            &&& before.app_id is Some ==> opt_view(new.app_id) == Some(before.app_id->0@)
            &&& before.fit_score is Some ==> opt_view(new.fit_score) == Some(before.fit_score->0@)
            &&& opt_view(new.reasons) == Some("[]"@)
            &&& opt_view(new.cautions) == Some("[]"@)
            &&& opt_view(new.reason_evidence_ids) == Some("[]"@)
        }),
        opt_view(r->0.summary_evidence_ids) == Some("[]"@),
{
    assert(crate::server::enhance::ranks_only(
        r->0.recommendations->0@[i],
        answer.recommendations->0@[i],
    ));
}

// ---------------------------------------------------------------------------
// Analyses
// ---------------------------------------------------------------------------

/// A search is kept for six hours, and goes on in the background only where its answer did not
/// wait for the model and is pending.
pub proof fn law_searches_are_kept(
    progressive: bool,
    status: Option<&str>,
    now_ms: i64,
    r: SearchRecord,
)
    requires
        call_ensures(record_search, (progressive, status, now_ms), r),
        0 <= now_ms <= 0x7fff_0000_0000_0000,
    ensures
        r.expires_at_ms == now_ms + 6 * 60 * 60 * 1_000,
        r.in_background ==> progressive,
        r.in_background <==> progressive && r.status@ == "pending"@,
{
}

/// What comes back of an analysis is kept, and marked where it fell back.
pub proof fn law_analyses_keep_their_outcome(
    outcome: AiEnhanceOutcome,
    route_version: Option<String>,
    r: CompletedAnalysis,
)
    requires
        call_ensures(complete_analysis, (outcome, route_version), r),
    ensures
        r.status == outcome.status,
        r.model == outcome.model,
        r.fallback_reason == outcome.fallback_reason,
        r.error_category is Some <==> outcome.fallback_reason is Some,
        outcome.route_version is Some ==> r.route_version == outcome.route_version,
        outcome.route_version is None ==> r.route_version == route_version,
{
    assert(opt_view(r.error_category) is Some <==> r.error_category is Some);
}

/// An analysis is looked up only with storage and under a short name that is not blank; one that
/// is not there is not found.
pub proof fn law_analyses_are_looked_up(
    storage_available: bool,
    analysis_id: &str,
    lookup: AnalysisLookup,
    r: Result<(), crate::server::errors::ApiError>,
    s: Result<(), crate::server::errors::ApiError>,
)
    requires
        call_ensures(check_analysis_request, (storage_available, analysis_id), r),
        call_ensures(analysis_found, (lookup,), s),
    ensures
        r is Ok <==> storage_available && byte_len(analysis_id@) <= 64 && trimmed(
            analysis_id@,
        ).len() > 0,
        !storage_available ==> r->Err_0.status == 503,
        storage_available && r is Err ==> r->Err_0.status == 400,
        s is Ok <==> lookup is Found,
        lookup is Absent ==> s->Err_0.status == 404,
        lookup is Failed ==> s->Err_0.status == 500,
{
}

// ---------------------------------------------------------------------------
// A model's ranking on the games
// ---------------------------------------------------------------------------

/// The score by which a game is placed; one without a score comes after all others.
pub open spec fn placing(item: RecalledItem) -> int {
    if item.score is Some {
        item.score->0.key as int
    } else {
        -0x7ff0_0000_0000_0001
    }
}

/// The model has said something of the game.
pub open spec fn is_advised(recommendations: Seq<AiRankItem>, item: RecalledItem) -> bool {
    item.app_id is Some && exists|p: int|
        0 <= p < recommendations.len() && (#[trigger] recommendations[p]).app_id == item.app_id->0
}

/// After a model's ranking the games stand by falling score and are numbered from one. Each is
/// one of the games there were; what the model spoke of has the blended score, its fit, and is
/// otherwise the same game; what it did not speak of keeps its score.
pub proof fn law_blended_scores_order_the_games(
    items: Vec<RecalledItem>,
    recommendations: Vec<AiRankItem>,
    blended: Vec<Score>,
    r: Vec<RecalledItem>,
    i: int,
    j: int,
)
    requires
        blended@.len() == items@.len(),
        call_ensures(apply_validated_ai_rank, (items, &recommendations, &blended), r),
        0 <= i < j < r@.len(),
    ensures
        r@.len() == items@.len(),
        placing(r@[i]) >= placing(r@[j]),
        r@[i].rank == Some((i + 1) as usize),
        exists|q: int| #[trigger]
            comes_from_place(r@[i], items@, recommendations@, blended@, q),
{
    let (placed, ordered) = choose|placed: Seq<Placed>, ordered: Seq<RecalledItem>| #[trigger]
        reordered(ordered, items@, recommendations@, blended@, placed) && refreshed(r@, ordered);
    let by = BlendedOrder;
    let sorted = crate::sort::stable_sorted(placed, &by);
    crate::sort::lemma_sorted_in_order(placed, &by);
    crate::sort::lemma_sorted_rearranges(placed, &by);
    sorted.to_multiset_ensures();
    placed.to_multiset_ensures();
    assert(placed_items(sorted).len() == sorted.len());
    assert(ordered[i] == sorted[i].item && ordered[j] == sorted[j].item);
    assert(r@[i].score == ordered[i].score && r@[j].score == ordered[j].score);
    assert(sorted.contains(sorted[i]));
    assert(placed.to_multiset().count(sorted[i]) > 0);
    assert(placed.contains(sorted[i]));
    let q = choose|q: int| 0 <= q < placed.len() && placed[q] == sorted[i];
    assert(crate::server::ai_rank::advised(
        placed[q].item,
        items@[q],
        recommendations@,
        blended@[q],
    ));
    let ids = recommendation_ids(recommendations@);
    if items@[q].app_id is Some {
        let id = items@[q].app_id->0;
        crate::sort::lemma_last_position(ids, id);
        let place = crate::sort::last_position(ids, id);
        if place is Some {
            assert(ids[place->0] == recommendations@[place->0].app_id);
        } else if is_advised(recommendations@, items@[q]) {
            let p = choose|p: int|
                0 <= p < recommendations@.len() && (#[trigger] recommendations@[p]).app_id == id;
            assert(ids[p] == id);
            assert(ids.contains(id));
        }
    }
    assert(comes_from_place(r@[i], items@, recommendations@, blended@, q));
}

/// The game is the one that stood at the place before.
pub open spec fn comes_from_place(
    item: RecalledItem,
    items: Seq<RecalledItem>,
    recommendations: Seq<AiRankItem>,
    blended: Seq<Score>,
    q: int,
) -> bool {
    &&& 0 <= q < items.len()
    &&& item.app_id == items[q].app_id
    &&& item.source == items[q].source
    &&& item.name == items[q].name
    &&& !is_advised(recommendations, items[q]) ==> item.score == items[q].score && item.ai_fit
        == items[q].ai_fit
    &&& is_advised(recommendations, items[q]) ==> item.score == Some(blended[q]) && exists|p: int|
        0 <= p < recommendations.len() && (#[trigger] recommendations[p]).app_id
            == items[q].app_id->0 && item.ai_fit == Some(recommendations[p].fit_score)
            && item.ai_confidence == Some(recommendations[p].confidence)
}

/// Numbering anew changes a game's number, its index, its band and its slot, and nothing else; an
/// index is shown only where one was shown before and the confidence is at least 0.45.
pub proof fn law_numbering_changes_numbers_only(
    items: Vec<RecalledItem>,
    r: Vec<RecalledItem>,
    i: int,
)
    requires
        call_ensures(refresh_json_ranking_metadata, (items,), r),
        0 <= i < items@.len(),
    ensures
        r@.len() == items@.len(),
        r@[i].rank == Some((i + 1) as usize),
        r@[i].app_id == items@[i].app_id,
        r@[i].score == items@[i].score,
        r@[i].components == items@[i].components,
        r@[i].recommendation_index is Some ==> items@[i].recommendation_index is Some && (
        items@[i].data_confidence is Some ==> 0x3fdc_cccc_cccc_cccd
            <= items@[i].data_confidence->0.key <= 0x7ff0_0000_0000_0000),
        items@[i].slot_reason is Some ==> opt_view(r@[i].slot_reason) == opt_view(
            items@[i].slot_reason,
        ),
        items@[i].slot_reason is None ==> opt_view(r@[i].slot_reason) == Some("base"@),
{
    let indices = choose|indices: Map<u32, u8>| #[trigger]
        crate::server::ranking::is_index_map(
            indices,
            crate::server::ai_rank::index_entries(items@),
        ) && forall|i: int|
            0 <= i < r@.len() ==> crate::server::ai_rank::refreshed_item(
                #[trigger] r@[i],
                items@[i],
                i + 1,
                indices,
            );
    assert(crate::server::ai_rank::refreshed_item(r@[i], items@[i], i + 1, indices));
}

/// Before an answer is shown, what served the ranking alone is taken off it.
pub proof fn law_internal_facts_are_taken_off(
    items: Vec<RecalledItem>,
    r: Vec<RecalledItem>,
    i: int,
)
    requires
        call_ensures(strip_internal_ranking_metadata, (items,), r),
        0 <= i < items@.len(),
    ensures
        r@.len() == items@.len(),
        r@[i].publisher is None,
        r@[i].series is None,
        r@[i].taxonomy_tags@.len() == 0,
        r@[i].app_id == items@[i].app_id,
        r@[i].score == items@[i].score,
        r@[i].rank == items@[i].rank,
        r@[i].reasons == items@[i].reasons,
{
    assert(crate::server::ai_rank::stripped(r@[i], items@[i]));
}

/// A recalled item becomes a candidate exactly where it names a game, with the game's own facts.
pub proof fn law_named_games_become_candidates(
    item: RecalledItem,
    default_version: &str,
    r: Option<RankedCandidate>,
)
    requires
        call_ensures(ranked_candidate_from_json, (&item, default_version), r),
    ensures
        r is Some <==> item.app_id is Some,
        r is Some ==> {
            let c = r->0;
            &&& c.app_id == item.app_id->0
            &&& item.name is Some ==> c.name@ == item.name->0@
            &&& item.score is Some ==> c.score.final_score == item.score->0
            &&& item.recommended_min is Some && item.recommended_min->0 <= 255 ==> c.recommended_min
                is Some && c.recommended_min->0 == item.recommended_min->0
            &&& item.recommended_min is Some && item.recommended_min->0 > 255 ==> c.recommended_min
                is None
            &&& item.data_confidence is Some ==> c.data_confidence == item.data_confidence->0
            &&& item.data_confidence is None && item.confidence is Some ==> c.data_confidence
                == item.confidence->0
        },
{
}

/// The games stand in the order of the slots: before any slot of a game that comes later there
/// is a slot of the one that comes earlier. What names no game comes at the end.
pub proof fn law_slots_order_the_games(
    items: Vec<RecalledItem>,
    slots: Vec<Slot>,
    r: Vec<RecalledItem>,
    i: int,
    j: int,
    b: int,
)
    requires
        call_ensures(global_natural_language_rerank, (items, &slots), r),
        0 <= i < j < r@.len(),
        r@[j].app_id is Some,
        0 <= b < slots@.len(),
        slots@[b].app_id == r@[j].app_id->0,
    ensures
        r@[i].app_id is Some,
        exists|a: int| 0 <= a < b && (#[trigger] slots@[a]).app_id == r@[i].app_id->0,
{
    let ordered = choose|ordered: Seq<RecalledItem>| #[trigger]
        crate::server::ai_rank::reranked(ordered, items@, slots@) && refreshed(r@, ordered);
    let indices = choose|indices: Map<u32, u8>| #[trigger]
        crate::server::ranking::is_index_map(
            indices,
            crate::server::ai_rank::index_entries(ordered),
        ) && forall|i: int|
            0 <= i < r@.len() ==> crate::server::ai_rank::refreshed_item(
                #[trigger] r@[i],
                ordered[i],
                i + 1,
                indices,
            );
    assert(crate::server::ai_rank::refreshed_item(r@[i], ordered[i], i + 1, indices));
    assert(crate::server::ai_rank::refreshed_item(r@[j], ordered[j], j + 1, indices));
    let games = crate::server::ai_rank::naming(items@, true);
    let rest = crate::server::ai_rank::naming(items@, false);
    let wanted = crate::server::ai_rank::slot_ids(slots@);
    let order = crate::sort::picks(wanted, crate::server::recall::item_ids(games));
    lemma_naming(items@, false);
    lemma_naming(items@, true);
    if j >= order.len() {
        let k = j - order.len();
        assert(rest[k] == rest[k]);
        assert(ordered[order.len() + k].app_id == rest[k].app_id);
    }
    let p = crate::sort::last_position(crate::server::recall::item_ids(games), order[i]);
    let q = crate::sort::last_position(crate::server::recall::item_ids(games), order[j]);
    crate::sort::lemma_last_position(crate::server::recall::item_ids(games), order[i]);
    crate::sort::lemma_last_position(crate::server::recall::item_ids(games), order[j]);
    assert(crate::server::recall::item_ids(games)[p->0] == order[i]);
    assert(crate::server::recall::item_ids(games)[q->0] == order[j]);
    assert(r@[i].app_id == Some(order[i]));
    assert(r@[j].app_id == Some(order[j]));
    crate::laws::pages::lemma_picks_order(wanted, crate::server::recall::item_ids(games), i, j, b);
    let a = choose|a: int| 0 <= a < b && wanted[a] == order[i];
    assert(slots@[a].app_id == order[i]);
}

proof fn lemma_naming(items: Seq<RecalledItem>, wanted: bool)
    ensures
        forall|k: int|
            0 <= k < crate::server::ai_rank::naming(items, wanted).len() ==> ((
            #[trigger] crate::server::ai_rank::naming(items, wanted)[k]).app_id is Some) == wanted,
    decreases items.len(),
{
    if items.len() > 0 {
        lemma_naming(items.drop_last(), wanted);
    }
}

} // verus!
