//! Questions that are put to a model, and the answers to them.

use vstd::prelude::*;

use crate::ai::compare::{parse_compare_explanation, CompareExplanation};
use crate::ai::error::AiError;
use crate::ai::group_advice::{AppVoteCount, GroupAdviceRequest, GroupAdviceResult};
use crate::numbers::decimal;
use crate::server::ai_requests::{
    accept_comparison, cache_scope, check_compare_request, check_group_request, compare_answer,
    compare_scope, group_answer, group_evidence, ids_are_unique_positive, plan_search,
    search_row_status, summary_evidence, valid_group_labels, AiStatus, CompareAnswer, CompareFacts,
    GroupAnswer, ModelReply, SearchPlan,
};
use crate::server::errors::ApiError;
use crate::server::fact_matrix::{compare_facts, CompareProfile};
use crate::text::{trimmed, views};

verus! {

// ---------------------------------------------------------------------------
// Comparing games
// ---------------------------------------------------------------------------

/// Two to four different games can be compared.
pub proof fn law_two_to_four_games(app_ids: Vec<u32>, r: Result<(), ApiError>)
    requires
        call_ensures(check_compare_request, (&app_ids,), r),
    ensures
        r is Ok <==> app_ids@.len() >= 2 && app_ids@.len() <= 4 && !app_ids@.contains(0)
            && app_ids@.no_duplicates(),
        r is Err ==> r->Err_0.status == 400,
{
    lemma_positive(app_ids@);
}

proof fn lemma_positive(ids: Seq<u32>)
    ensures
        crate::server::ai_requests::all_positive(ids) <==> !ids.contains(0),
{
    if ids.contains(0) {
        let k = choose|k: int| 0 <= k < ids.len() && ids[k] == 0;
        assert(!(ids[k] != 0));
    }
}

/// Identifiers are usable where none is zero and none occurs twice.
pub proof fn law_identifiers_are_usable(ids: Vec<u32>, r: bool)
    requires
        call_ensures(ids_are_unique_positive, (&ids,), r),
    ensures
        r <==> !ids@.contains(0) && ids@.no_duplicates(),
{
    lemma_positive(ids@);
}

proof fn lemma_row_evidence(facts: CompareFacts, id: Seq<char>)
    ensures
        crate::server::ai_requests::row_evidence(facts).contains(id) ==> exists|column: Seq<char>|
            #[trigger]
            is_known_column(facts, column) && id == "app:"@ + decimal(facts.app_id as nat) + ":"@
                + column,
{
    let columns = crate::server::ai_requests::known_columns(facts);
    let ids = crate::server::ai_requests::row_evidence(facts);
    if ids.contains(id) {
        let k = choose|k: int| 0 <= k < ids.len() && ids[k] == id;
        assert(id == crate::server::ai_requests::fact_evidence(facts.app_id, columns[k]));
        assert(is_known_column(facts, columns[k]));
    }
}

/// The game has something in the column.
pub open spec fn is_known_column(facts: CompareFacts, column: Seq<char>) -> bool {
    ||| column == "party_size"@ && facts.party_size
    ||| column == "multiplayer_mode"@ && facts.multiplayer_mode
    ||| column == "service_dependency"@ && facts.service_dependency
    ||| column == "data_updated_at"@
}

proof fn lemma_all_evidence(rows: Seq<CompareFacts>, id: Seq<char>)
    ensures
        crate::server::ai_requests::all_evidence(rows).contains(id) ==> exists|i: int,
            column: Seq<char>| #[trigger]
            is_fact(rows, i, column, id),
    decreases rows.len(),
{
    if rows.len() > 0 {
        let front = rows.drop_last();
        lemma_all_evidence(front, id);
        lemma_row_evidence(rows.last(), id);
        let all = crate::server::ai_requests::all_evidence(rows);
        let before = crate::server::ai_requests::all_evidence(front);
        let own = crate::server::ai_requests::row_evidence(rows.last());
        if all.contains(id) {
            let k = choose|k: int| 0 <= k < all.len() && all[k] == id;
            if k < before.len() {
                assert(before[k] == id);
                let (i, column) = choose|i: int, column: Seq<char>| #[trigger]
                    is_fact(front, i, column, id);
                assert(is_fact(rows, i, column, id));
            } else {
                assert(own[k - before.len()] == id);
                let column = choose|column: Seq<char>| #[trigger]
                    is_known_column(rows.last(), column) && id == "app:"@ + decimal(
                        rows.last().app_id as nat,
                    ) + ":"@ + column;
                assert(is_fact(rows, rows.len() - 1, column, id));
            }
        }
    }
}

/// The identifier names what a compared game has in a column.
pub open spec fn is_fact(rows: Seq<CompareFacts>, i: int, column: Seq<char>, id: Seq<char>) -> bool {
    &&& 0 <= i < rows.len()
    &&& is_known_column(rows[i], column)
    &&& id == "app:"@ + decimal(rows[i].app_id as nat) + ":"@ + column
}

/// What may be cited in a comparison is what is known of a compared game, and nothing else.
pub proof fn law_citable_is_what_is_known(
    rows: Vec<CompareFacts>,
    r: (Vec<String>, Vec<String>),
    id: Seq<char>,
)
    requires
        call_ensures(compare_scope, (&rows,), r),
        views(r.1@).contains(id),
    ensures
        exists|i: int, column: Seq<char>| #[trigger] is_fact(rows@, i, column, id),
{
    lemma_all_evidence(rows@, id);
}

/// A comparison that is accepted here would be accepted anywhere, and every difference keeps to
/// one of the columns: what it cites ends in the name of its column.
pub proof fn law_comparisons_keep_to_their_columns(
    explanation: CompareExplanation,
    app_ids: Vec<u32>,
    columns: Vec<String>,
    evidence: Vec<String>,
    parsed: Result<CompareExplanation, AiError>,
    r: Result<CompareExplanation, AiError>,
    i: int,
    j: int,
)
    requires
        call_ensures(parse_compare_explanation, (explanation, &app_ids, &evidence), parsed),
        call_ensures(accept_comparison, (explanation, &app_ids, &columns, &evidence), r),
    ensures
        r is Ok ==> parsed is Ok && r->Ok_0 == parsed->Ok_0,
        r is Ok && 0 <= i < explanation.differences@.len() ==> views(columns@).contains(
            explanation.differences@[i].column@,
        ),
        r is Ok && 0 <= i < explanation.differences@.len() && 0 <= j
            < explanation.differences@[i].evidence_ids@.len() ==> (":"@
            + explanation.differences@[i].column@).is_suffix_of(
            explanation.differences@[i].evidence_ids@[j]@,
        ),
        parsed is Ok && explanation.differences@.len() == 0 ==> r is Ok,
        r is Err ==> r->Err_0 is InvalidOutput,
{
    if r is Ok && 0 <= i < explanation.differences@.len() {
        assert(crate::server::ai_requests::keeps_to_column(
            explanation.differences@[i],
            views(columns@),
        ));
    }
}

/// Only an accepted answer is shown, and only then is the model said to have been used; without a
/// model the comparison is off, and after a failure it falls back, with a reason.
pub proof fn law_comparisons_fall_back(reply: ModelReply<CompareExplanation>, r: CompareAnswer)
    requires
        call_ensures(compare_answer, (reply,), r),
    ensures
        r.explanation is Some <==> reply is Answered && reply->content is Ok,
        r.status is Used <==> r.explanation is Some,
        r.status is Disabled <==> reply is NotAdmitted,
        r.status is Fallback <==> !(reply is NotAdmitted) && r.explanation is None,
        r.fallback_reason is None <==> r.explanation is Some,
        r.model is Some <==> reply is Answered,
{
    assert(crate::text::opt_view(r.fallback_reason) is Some <==> r.fallback_reason is Some);
    assert(crate::text::opt_view(r.model) is Some <==> r.model is Some);
}

// ---------------------------------------------------------------------------
// Advising a group
// ---------------------------------------------------------------------------

/// A label is not blank and has at most eighty characters; there are at most sixteen.
pub open spec fn are_labels(labels: Seq<String>) -> bool {
    labels.len() <= 16 && forall|i: int|
        0 <= i < labels.len() ==> trimmed((#[trigger] labels[i])@).len() > 0 && labels[i]@.len()
            <= 80
}

pub proof fn law_labels_are_short(values: Vec<String>, r: bool)
    requires
        call_ensures(valid_group_labels, (&values,), r),
    ensures
        r == are_labels(values@),
{
}

/// A group is advised on two to twelve different games, for one to sixty-four people, with at
/// most one count of votes for a game, and none for any other.
pub proof fn law_groups_are_bounded(q: GroupAdviceRequest, r: Result<(), ApiError>)
    requires
        call_ensures(check_group_request, (&q,), r),
    ensures
        r is Ok <==> {
            &&& q.candidate_app_ids@.len() >= 2
            &&& q.candidate_app_ids@.len() <= 12
            &&& !q.candidate_app_ids@.contains(0)
            &&& q.candidate_app_ids@.no_duplicates()
            &&& q.party_size is None || 1 <= q.party_size->0 <= 64
            &&& are_labels(q.platforms@)
            &&& are_labels(q.modes_preferred@)
            &&& are_labels(q.modes_excluded@)
            &&& q.vote_counts@.len() <= q.candidate_app_ids@.len()
            &&& forall|i: int|
                0 <= i < q.vote_counts@.len() ==> q.candidate_app_ids@.contains(
                    (#[trigger] q.vote_counts@[i]).app_id,
                )
            &&& forall|i: int, j: int|
                0 <= i < j < q.vote_counts@.len() ==> (#[trigger] q.vote_counts@[i]).app_id != (
                #[trigger] q.vote_counts@[j]).app_id
        },
        r is Err ==> r->Err_0.status == 400,
{
    lemma_positive(q.candidate_app_ids@);
}

/// What may be cited in advice is each candidate and each count of votes.
pub proof fn law_group_evidence(
    candidates: Vec<u32>,
    votes: Vec<AppVoteCount>,
    r: Vec<String>,
    i: int,
)
    requires
        call_ensures(group_evidence, (&candidates, &votes), r),
    ensures
        r@.len() == candidates@.len() + votes@.len(),
        0 <= i < candidates@.len() ==> r@[i]@ == "candidate:"@ + decimal(candidates@[i] as nat),
        0 <= i < votes@.len() ==> r@[candidates@.len() + i]@ == "vote:aggregate:"@ + decimal(
            votes@[i].app_id as nat,
        ),
{
    let all = views(r@);
    assert(all.len() == r@.len());
    if 0 <= i < candidates@.len() {
        assert(all[i] == r@[i]@);
    }
    if 0 <= i < votes@.len() {
        assert(all[candidates@.len() + i] == r@[candidates@.len() + i]@);
    }
}

/// A group is always answered: with the model's advice where it was accepted, and otherwise with
/// the advice that needs no model, and a reason.
pub proof fn law_groups_are_always_answered(
    deterministic: Option<GroupAdviceResult>,
    reply: ModelReply<GroupAdviceResult>,
    r: GroupAnswer,
)
    requires
        call_ensures(group_answer, (deterministic, reply), r),
    ensures
        r.status is Used <==> reply is Answered && reply->content is Ok,
        r.status is Fallback <==> !(reply is Answered && reply->content is Ok),
        reply is Answered && reply->content is Ok ==> r.advice == Some(reply->content->Ok_0)
            && r.fallback_reason is None,
        !(reply is Answered && reply->content is Ok) ==> r.advice == deterministic
            && r.fallback_reason is Some,
{
    assert(crate::text::opt_view(r.fallback_reason) is Some <==> r.fallback_reason is Some);
}

// ---------------------------------------------------------------------------
// Searching in words
// ---------------------------------------------------------------------------

/// A search has three to five hundred characters and gives three to ten games, six where nothing
/// is asked for.
pub proof fn law_searches_are_bounded(
    query: &str,
    limit: Option<i64>,
    r: Result<SearchPlan, ApiError>,
)
    requires
        call_ensures(plan_search, (query, limit), r),
    ensures
        r is Ok <==> 3 <= trimmed(query@).len() <= 500 && (limit is None || 3 <= limit->0 <= 10),
        r is Ok ==> r->Ok_0.query@ == trimmed(query@),
        r is Ok && limit is Some ==> r->Ok_0.limit == limit->0,
        r is Ok && limit is None ==> r->Ok_0.limit == 6,
        r is Err ==> r->Err_0.status == 400,
{
}

/// A search whose answer did not wait is pending unless the answer settles what the model did;
/// one without a status counts as fallen back.
pub proof fn law_search_statuses(progressive: bool, status: Option<&str>, r: String)
    requires
        call_ensures(search_row_status, (progressive, status), r),
    ensures
        !progressive && status is Some ==> r@ == status->0@,
        status is None ==> r@ == "fallback"@,
        progressive && status is Some && (status->0@ == "used"@ || status->0@ == "fallback"@
            || status->0@ == "disabled"@) ==> r@ == status->0@,
        progressive && status is Some && status->0@ != "used"@ && status->0@ != "fallback"@
            && status->0@ != "disabled"@ ==> r@ == "pending"@,
{
}

/// Statuses go by their names.
pub proof fn law_ai_statuses_have_names(status: AiStatus, r: &'static str)
    requires
        call_ensures(AiStatus::as_str, (status,), r),
    ensures
        status is Used ==> r@ == "used"@,
        status is Cached ==> r@ == "cached"@,
        status is Fallback ==> r@ == "fallback"@,
        status is Disabled ==> r@ == "disabled"@,
        status is Pending ==> r@ == "pending"@,
{
}

/// Two accounts never share what is stored for them, nor with those who are not signed in.
pub proof fn law_accounts_share_nothing(a: &str, b: &str, x: String, y: String, open: String)
    requires
        call_ensures(cache_scope, (Some(a),), x),
        call_ensures(cache_scope, (Some(b),), y),
        call_ensures(cache_scope, (None::<&str>,), open),
    ensures
        x@ == y@ <==> a@ == b@,
        x@ != open@,
{
    let prefix = "account:"@;
    if x@ == y@ {
        assert(x@.skip(prefix.len() as int) =~= a@);
        assert(y@.skip(prefix.len() as int) =~= b@);
    }
    reveal_strlit("account:");
    reveal_strlit("anonymous");
    assert(x@[1] == 'c');
    assert("anonymous"@[1] == 'n');
}

/// A summary may cite who the game is and what is known of it; a game is named by a positive
/// number.
pub proof fn law_summaries_cite_the_game(app_id: u32, r: Result<Vec<String>, ApiError>)
    requires
        call_ensures(summary_evidence, (app_id,), r),
    ensures
        r is Ok <==> app_id != 0,
        r is Ok ==> r->Ok_0@.len() == 2 && r->Ok_0@[0]@ == "app:"@ + decimal(app_id as nat) + ":"@
            + "identity"@ && r->Ok_0@[1]@ == "app:"@ + decimal(app_id as nat) + ":"@ + "profile"@,
{
    if r is Ok {
        let all = views(r->Ok_0@);
        assert(all.len() == r->Ok_0@.len());
        assert(all[0] == r->Ok_0@[0]@);
        assert(all[1] == r->Ok_0@[1]@);
    }
}

/// What is known of a game for a comparison: its party where either bound is, its modes where any
/// of four facts is, and what it depends on where either of two is.
pub proof fn law_facts_are_known(app_id: u32, profile: Option<&CompareProfile>, r: CompareFacts)
    requires
        call_ensures(compare_facts, (app_id, profile), r),
    ensures
        r.app_id == app_id,
        profile is None ==> !r.party_size && !r.multiplayer_mode && !r.service_dependency,
        profile is Some ==> {
            let p = profile->0;
            &&& !r.party_size <==> p.recommended_min_players is None && p.recommended_max_players
                is None
            &&& !r.multiplayer_mode <==> p.dominant_mode is None && p.online_coop is None
                && p.crossplay is None && p.drop_in_out is None
            &&& !r.service_dependency <==> p.private_session is None && p.self_hosted_server
                is None
        },
{
}

} // verus!
