//! What is accepted of a model's answer, and what is handed to a model.

use vstd::prelude::*;

use crate::ai::compare::{
    difference_fault, differences_fault, first_disallowed, parse_compare_explanation,
    CompareDifference, CompareExplanation,
};
use crate::ai::completion::{
    completion_from_fields, embedding_vectors, plan_embedding_batch, read_completion,
    read_embeddings, row_fault, row_numbers, rows_fault, status_error, Completion, EmbeddingRow,
};
use crate::ai::embedding::{
    EmbeddingInput, EmbeddingProvider, OpenAiCompatEmbeddingProvider, RawEmbedding,
};
use crate::ai::error::{safe_ai_failure_reason, AiError};
use crate::ai::group_advice::{
    deterministic_group_advice, evidence_fault, first_outside, parse_group_advice, votes_for,
    AppVoteCount, GroupAdviceResult,
};
use crate::ai::provider::{
    AiProvider, DisabledProvider, OpenAiCompatProvider, StructuredRequest, StructuredResponse,
};
use crate::ai::route::{route_overridden, RouteOverride, TaskRouteConfig};
use crate::ai::sanitize::{looks_like_html_or_url, sanitize_untrusted_text};
use crate::laws::requests::{lemma_says, says};
use crate::score::Score;
use crate::text::{to_ascii_lower, trimmed, views};

verus! {

// ---------------------------------------------------------------------------
// Text that may be shown
// ---------------------------------------------------------------------------

/// The text holds no markup, no script and no address of a page.
pub open spec fn is_harmless(text: Seq<char>) -> bool {
    &&& !says(to_ascii_lower(text), "<"@)
    &&& !says(to_ascii_lower(text), ">"@)
    &&& !says(to_ascii_lower(text), "javascript:"@)
    &&& !says(to_ascii_lower(text), "http://"@)
    &&& !says(to_ascii_lower(text), "https://"@)
}

proof fn lemma_harmless(text: Seq<char>)
    ensures
        crate::ai::sanitize::html_or_url(text) == !is_harmless(text),
{
    let lower = to_ascii_lower(text);
    lemma_says(lower, "<"@);
    lemma_says(lower, ">"@);
    lemma_says(lower, "javascript:"@);
    lemma_says(lower, "http://"@);
    lemma_says(lower, "https://"@);
}

/// Markup and addresses are recognised whatever their case.
pub proof fn law_markup_is_recognised(text: &str, r: bool)
    requires
        call_ensures(looks_like_html_or_url, (text,), r),
    ensures
        r == !is_harmless(text@),
{
    lemma_harmless(text@);
}

/// What is handed to a model holds no angle bracket and no control character but line ends and
/// tabs, and no more characters than allowed; text that is so already is handed on unchanged.
pub proof fn law_untrusted_text_is_made_harmless(input: &str, max_chars: usize, r: String, i: int)
    requires
        call_ensures(sanitize_untrusted_text, (input, max_chars), r),
    ensures
        r@.len() <= max_chars,
        0 <= i < r@.len() ==> r@[i] != '<' && r@[i] != '>',
        0 <= i < r@.len() && (r@[i] as u32) < 32 ==> r@[i] == '\n' || r@[i] == '\t',
        0 <= i < r@.len() ==> !(127 <= (r@[i] as u32) <= 159),
        input@.len() <= max_chars && (forall|k: int|
            0 <= k < input@.len() ==> (32 <= (#[trigger] input@[k]) as u32 || input@[k] == '\n'
                || input@[k] == '\t') && !(127 <= input@[k] as u32 <= 159) && input@[k] != '<'
                && input@[k] != '>') ==> r@ == input@,
{
    crate::ai::sanitize::lemma_sanitized_is_harmless(input@, max_chars as nat);
    if input@.len() <= max_chars && (forall|k: int|
        0 <= k < input@.len() ==> (32 <= (#[trigger] input@[k]) as u32 || input@[k] == '\n'
            || input@[k] == '\t') && !(127 <= input@[k] as u32 <= 159) && input@[k] != '<'
            && input@[k] != '>') {
        assert(crate::ai::sanitize::clean(input@));
        crate::ai::sanitize::lemma_clean_text_unchanged(input@, max_chars as nat);
    }
}

/// Why an answer was not used is told only where it failed validation; otherwise the reader sees
/// the general words, whatever went wrong.
pub proof fn law_failures_hide_their_detail(error: AiError, general: &str, r: String)
    requires
        call_ensures(safe_ai_failure_reason, (&error, general), r),
    ensures
        !(error is InvalidOutput) ==> r@ == general@,
        error matches AiError::InvalidOutput(detail) ==> says(r@, detail@),
{
    if error is InvalidOutput {
        let detail = error->InvalidOutput_0@;
        let k = "AI output failed validation: "@.len() as int;
        assert(r@.subrange(k, k + detail.len()) =~= detail);
        assert(crate::laws::requests::says_at(r@, detail, k));
    }
}

// ---------------------------------------------------------------------------
// Comparisons
// ---------------------------------------------------------------------------

pub open spec fn is_column(name: Seq<char>) -> bool {
    ||| name == "party_size"@
    ||| name == "platforms"@
    ||| name == "price"@
    ||| name == "multiplayer_mode"@
    ||| name == "service_dependency"@
    ||| name == "content_pacing"@
    ||| name == "review_quality"@
    ||| name == "data_updated_at"@
}

/// The identifier is one of those handed out.
pub open spec fn is_known(ids: Seq<String>, id: Seq<char>) -> bool {
    exists|k: int| 0 <= k < ids.len() && (#[trigger] ids[k])@ == id
}

/// A difference may be shown: it is about a column, short and harmless, and says nothing without
/// evidence, all of which was handed out.
pub open spec fn is_sound_difference(d: CompareDifference, known: Seq<String>) -> bool {
    &&& is_column(d.column@)
    &&& d.text@.len() <= 400
    &&& is_harmless(d.text@)
    &&& d.evidence_ids@.len() > 0 || trimmed(d.text@).len() == 0
    &&& d.evidence_ids@.len() <= 12
    &&& forall|j: int|
        0 <= j < d.evidence_ids@.len() ==> is_known(known, (#[trigger] d.evidence_ids@[j])@)
}

proof fn lemma_columns(name: Seq<char>)
    ensures
        crate::ai::compare::compare_columns().contains(name) <==> is_column(name),
{
    let all = crate::ai::compare::compare_columns();
    assert(all[0] == "party_size"@ && all[1] == "platforms"@ && all[2] == "price"@ && all[3]
        == "multiplayer_mode"@ && all[4] == "service_dependency"@ && all[5] == "content_pacing"@
        && all[6] == "review_quality"@ && all[7] == "data_updated_at"@);
    if all.contains(name) {
        let k = choose|k: int| 0 <= k < all.len() && all[k] == name;
    }
}

proof fn lemma_known(known: Seq<String>, id: Seq<char>)
    ensures
        views(known).contains(id) <==> is_known(known, id),
{
    if views(known).contains(id) {
        let k = choose|k: int| 0 <= k < views(known).len() && views(known)[k] == id;
        assert(known[k]@ == id);
    }
    if is_known(known, id) {
        let k = choose|k: int| 0 <= k < known.len() && (#[trigger] known[k])@ == id;
        assert(views(known)[k] == id);
    }
}

proof fn lemma_disallowed(ids: Seq<String>, known: Seq<String>)
    ensures
        first_disallowed(views(ids), views(known)) is None <==> forall|j: int|
            0 <= j < ids.len() ==> is_known(known, (#[trigger] ids[j])@),
    decreases ids.len(),
{
    if ids.len() > 0 {
        let front = ids.drop_last();
        lemma_disallowed(front, known);
        lemma_known(known, ids.last()@);
        assert(views(ids).drop_last() =~= views(front));
        assert(views(ids).last() == ids.last()@);
        if first_disallowed(views(ids), views(known)) is None {
            assert forall|j: int| 0 <= j < ids.len() implies is_known(
                known,
                (#[trigger] ids[j])@,
            ) by {
                if j < front.len() {
                    assert(front[j] == ids[j]);
                }
            }
        }
        if forall|j: int| 0 <= j < ids.len() ==> is_known(known, (#[trigger] ids[j])@) {
            assert forall|j: int| 0 <= j < front.len() implies is_known(
                known,
                (#[trigger] front[j])@,
            ) by {
                assert(is_known(known, ids[j]@));
            }
            assert(is_known(known, ids[ids.len() - 1]@));
        }
    }
}

proof fn lemma_sound_difference(d: CompareDifference, known: Seq<String>)
    ensures
        difference_fault(d, views(known)) is None <==> is_sound_difference(d, known),
{
    lemma_columns(d.column@);
    lemma_harmless(d.text@);
    lemma_disallowed(d.evidence_ids@, known);
}

proof fn lemma_sound_differences(list: Seq<CompareDifference>, known: Seq<String>)
    ensures
        differences_fault(list, views(known)) is None <==> forall|i: int|
            0 <= i < list.len() ==> is_sound_difference(#[trigger] list[i], known),
    decreases list.len(),
{
    if list.len() > 0 {
        let rest = list.drop_first();
        lemma_sound_difference(list[0], known);
        lemma_sound_differences(rest, known);
        if differences_fault(list, views(known)) is None {
            assert forall|i: int| 0 <= i < list.len() implies is_sound_difference(
                #[trigger] list[i],
                known,
            ) by {
                if i > 0 {
                    assert(list[i] == rest[i - 1]);
                }
            }
        }
        if forall|i: int| 0 <= i < list.len() ==> is_sound_difference(#[trigger] list[i], known) {
            assert forall|i: int| 0 <= i < rest.len() implies is_sound_difference(
                #[trigger] rest[i],
                known,
            ) by {
                assert(is_sound_difference(list[i + 1], known));
            }
        }
    }
}

/// A comparison is accepted only where all of it is sound: a short and harmless summary, at most
/// twelve differences and eight risks, each sound; something said only beside evidence; and a
/// preference only for a game that is compared. What is accepted is what came, but for a reason
/// without a preference. Where all of that holds and no game is preferred, it is accepted.
pub proof fn law_comparisons_are_checked(
    explanation: CompareExplanation,
    allowed_app_ids: Vec<u32>,
    allowed_evidence: Vec<String>,
    r: Result<CompareExplanation, AiError>,
    i: int,
)
    requires
        call_ensures(
            parse_compare_explanation,
            (explanation, &allowed_app_ids, &allowed_evidence),
            r,
        ),
    ensures
        ({
            let e = explanation;
            let sound = {
                &&& e.summary@.len() <= 800
                &&& is_harmless(e.summary@)
                &&& e.differences@.len() <= 12
                &&& e.risks@.len() <= 8
                &&& forall|k: int|
                    0 <= k < e.risks@.len() ==> (#[trigger] e.risks@[k])@.len() <= 400
                        && is_harmless(e.risks@[k]@)
                &&& forall|k: int|
                    0 <= k < e.differences@.len() ==> is_sound_difference(
                        #[trigger] e.differences@[k],
                        allowed_evidence@,
                    )
                &&& trimmed(e.summary@).len() > 0 || (exists|k: int|
                    0 <= k < e.risks@.len() && trimmed((#[trigger] e.risks@[k])@).len() > 0)
                    ==> exists|k: int|
                    0 <= k < e.differences@.len() && (
                    #[trigger] e.differences@[k]).evidence_ids@.len() > 0
            };
            &&& r is Ok ==> sound
            &&& r is Ok && e.preferred_app_id is Some ==> allowed_app_ids@.contains(
                e.preferred_app_id->0,
            )
            &&& sound && e.preferred_app_id is None ==> r is Ok
            &&& sound && e.preferred_app_id is Some && e.preferred_reason is None
                && allowed_app_ids@.contains(e.preferred_app_id->0) ==> r is Ok
            &&& r is Ok ==> r->Ok_0.summary == e.summary && r->Ok_0.differences == e.differences
                && r->Ok_0.risks == e.risks && r->Ok_0.preferred_app_id == e.preferred_app_id
            &&& r is Ok && e.preferred_app_id is None ==> r->Ok_0.preferred_reason is None
            &&& r is Ok && e.preferred_app_id is Some ==> r->Ok_0.preferred_reason
                == e.preferred_reason
            &&& r is Err ==> r->Err_0 is InvalidOutput
        }),
{
    let e = explanation;
    lemma_harmless(e.summary@);
    assert forall|k: int| 0 <= k < e.risks@.len() implies crate::ai::compare::unshowable(
        (#[trigger] e.risks@[k])@,
        400,
    ) == !(e.risks@[k]@.len() <= 400 && is_harmless(e.risks@[k]@)) by {
        lemma_harmless(e.risks@[k]@);
    }
    lemma_sound_differences(e.differences@, allowed_evidence@);
    if !crate::ai::compare::has_bad_risk(e.risks@) {
        assert forall|k: int| 0 <= k < e.risks@.len() implies (#[trigger] e.risks@[k])@.len() <= 400
            && is_harmless(e.risks@[k]@) by {
            assert(!crate::ai::compare::unshowable(e.risks@[k]@, 400));
        }
    }
}

// ---------------------------------------------------------------------------
// Advice to a group
// ---------------------------------------------------------------------------

proof fn lemma_outside(ids: Seq<u32>, candidates: Seq<u32>)
    ensures
        first_outside(ids, candidates) is None <==> forall|k: int|
            0 <= k < ids.len() ==> candidates.contains(#[trigger] ids[k]),
    decreases ids.len(),
{
    if ids.len() > 0 {
        let rest = ids.drop_first();
        lemma_outside(rest, candidates);
        if first_outside(ids, candidates) is None {
            assert forall|k: int| 0 <= k < ids.len() implies candidates.contains(
                #[trigger] ids[k],
            ) by {
                if k > 0 {
                    assert(ids[k] == rest[k - 1]);
                }
            }
        }
        if forall|k: int| 0 <= k < ids.len() ==> candidates.contains(#[trigger] ids[k]) {
            assert forall|k: int| 0 <= k < rest.len() implies candidates.contains(
                #[trigger] rest[k],
            ) by {
                assert(candidates.contains(ids[k + 1]));
            }
        }
    }
}

proof fn lemma_advice_evidence(ids: Seq<String>, known: Seq<String>)
    ensures
        evidence_fault(views(ids), views(known)) is None <==> (forall|j: int|
            0 <= j < ids.len() ==> is_known(known, (#[trigger] ids[j])@) && ids[j]@.len() <= 120)
            && (forall|i: int, j: int|
            0 <= i < j < ids.len() ==> (#[trigger] ids[i])@ != (#[trigger] ids[j])@),
    decreases ids.len(),
{
    if ids.len() > 0 {
        let front = ids.drop_last();
        let last = ids.last();
        lemma_advice_evidence(front, known);
        lemma_known(known, last@);
        lemma_known(front, last@);
        assert(views(ids).drop_last() =~= views(front));
        assert(views(ids).last() == last@);
        let good = forall|j: int|
            0 <= j < ids.len() ==> is_known(known, (#[trigger] ids[j])@) && ids[j]@.len() <= 120;
        let apart = forall|i: int, j: int|
            0 <= i < j < ids.len() ==> (#[trigger] ids[i])@ != (#[trigger] ids[j])@;
        if evidence_fault(views(ids), views(known)) is None {
            assert forall|j: int| 0 <= j < ids.len() implies is_known(known, (#[trigger] ids[j])@)
                && ids[j]@.len() <= 120 by {
                if j < front.len() {
                    assert(front[j] == ids[j]);
                }
            }
            assert forall|i: int, j: int| 0 <= i < j < ids.len() implies (#[trigger] ids[i])@ != (
            #[trigger] ids[j])@ by {
                assert(front[i] == ids[i]);
                if j < front.len() {
                    assert(front[j] == ids[j]);
                } else if ids[i]@ == last@ {
                    assert(is_known(front, last@));
                }
            }
        }
        if good && apart {
            assert(is_known(known, ids[ids.len() - 1]@));
            assert forall|j: int| 0 <= j < front.len() implies is_known(
                known,
                (#[trigger] front[j])@,
            ) && front[j]@.len() <= 120 by {
                assert(is_known(known, ids[j]@));
            }
            assert forall|i: int, j: int| 0 <= i < j < front.len() implies (
            #[trigger] front[i])@ != (#[trigger] front[j])@ by {
                assert(ids[i]@ != ids[j]@);
            }
            if is_known(front, last@) {
                let k = choose|k: int| 0 <= k < front.len() && (#[trigger] front[k])@ == last@;
                assert(ids[k]@ != ids[ids.len() - 1]@);
            }
        }
    }
}

/// Advice is accepted exactly where it names candidates only, each once and at most four beside
/// the first, is short and harmless, cites at most sixteen different identifiers that were
/// handed out, and claims nothing without one; it is then handed on as it came.
pub proof fn law_advice_is_checked(
    advice: GroupAdviceResult,
    allowed_app_ids: Vec<u32>,
    allowed_evidence: Vec<String>,
    r: Result<GroupAdviceResult, AiError>,
)
    requires
        call_ensures(parse_group_advice, (advice, &allowed_app_ids, &allowed_evidence), r),
    ensures
        ({
            let a = advice;
            r is Ok <==> {
                &&& allowed_app_ids@.contains(a.primary_app_id)
                &&& forall|k: int|
                    0 <= k < a.alternatives@.len() ==> allowed_app_ids@.contains(
                        #[trigger] a.alternatives@[k],
                    )
                &&& a.alternatives@.no_duplicates()
                &&& !a.alternatives@.contains(a.primary_app_id)
                &&& a.alternatives@.len() <= 4
                &&& a.compromise_reason@.len() <= 500
                &&& is_harmless(a.compromise_reason@)
                &&& a.conflicts@.len() <= 8
                &&& forall|k: int|
                    0 <= k < a.conflicts@.len() ==> (#[trigger] a.conflicts@[k])@.len() <= 400
                        && is_harmless(a.conflicts@[k]@)
                &&& a.evidence_ids@.len() <= 16
                &&& forall|j: int|
                    0 <= j < a.evidence_ids@.len() ==> is_known(
                        allowed_evidence@,
                        (#[trigger] a.evidence_ids@[j])@,
                    ) && a.evidence_ids@[j]@.len() <= 120
                &&& forall|i: int, j: int|
                    0 <= i < j < a.evidence_ids@.len() ==> (#[trigger] a.evidence_ids@[i])@ != (
                    #[trigger] a.evidence_ids@[j])@
                &&& a.evidence_ids@.len() > 0 || (a.compromise_reason@.len() == 0
                    && a.conflicts@.len() == 0)
            }
        }),
        r is Ok ==> r->Ok_0 == advice,
        r is Err ==> r->Err_0 is InvalidOutput,
{
    let a = advice;
    lemma_outside(a.alternatives@, allowed_app_ids@);
    lemma_harmless(a.compromise_reason@);
    lemma_advice_evidence(a.evidence_ids@, allowed_evidence@);
    assert forall|k: int| 0 <= k < a.conflicts@.len() implies crate::ai::compare::unshowable(
        (#[trigger] a.conflicts@[k])@,
        400,
    ) == !(a.conflicts@[k]@.len() <= 400 && is_harmless(a.conflicts@[k]@)) by {
        lemma_harmless(a.conflicts@[k]@);
    }
    if !crate::ai::group_advice::has_bad_conflict(a.conflicts@) {
        assert forall|k: int| 0 <= k < a.conflicts@.len() implies (
        #[trigger] a.conflicts@[k])@.len() <= 400 && is_harmless(a.conflicts@[k]@) by {
            assert(!crate::ai::compare::unshowable(a.conflicts@[k]@, 400));
        }
    }
}

/// The votes for a game: those of the first entry that names it, none where no entry does.
pub open spec fn ballots(votes: Seq<AppVoteCount>, app_id: u32) -> u32
    decreases votes.len(),
{
    if votes.len() == 0 {
        0
    } else if votes[0].app_id == app_id {
        votes[0].votes
    } else {
        ballots(votes.drop_first(), app_id)
    }
}

proof fn lemma_ballots(votes: Seq<AppVoteCount>, app_id: u32)
    ensures
        votes_for(votes, app_id) is Some ==> ballots(votes, app_id) == votes_for(votes, app_id)->0,
        votes_for(votes, app_id) is None ==> ballots(votes, app_id) == 0,
    decreases votes.len(),
{
    if votes.len() > 0 {
        lemma_ballots(votes.drop_first(), app_id);
    }
}

/// Without a model the advice is the candidate with the most votes, the lower identifier where
/// votes are equal; at most two alternatives follow, by the same order, and there are no
/// conflicts. Only without candidates is there none.
pub proof fn law_votes_decide_without_a_model(
    candidates: &[u32],
    votes: &[AppVoteCount],
    r: Option<GroupAdviceResult>,
    i: int,
)
    requires
        call_ensures(deterministic_group_advice, (candidates, votes), r),
        0 <= i < candidates@.len(),
    ensures
        r is Some,
        ({
            let a = r->0;
            let best = ballots(votes@, a.primary_app_id);
            let other = ballots(votes@, candidates@[i]);
            &&& candidates@.contains(a.primary_app_id)
            &&& best > other || (best == other && a.primary_app_id <= candidates@[i])
            &&& a.alternatives@.len() == if candidates@.len() < 3 {
                candidates@.len() - 1
            } else {
                2
            }
            &&& a.conflicts@.len() == 0
        }),
{
    let t = crate::ai::group_advice::tallies(candidates@, votes@);
    let by = crate::ai::group_advice::VoteOrder;
    let s = crate::sort::stable_sorted(t, &by);
    crate::sort::lemma_sorted_in_order(t, &by);
    crate::sort::lemma_sorted_members(t, &by);
    crate::sort::lemma_sorted_rearranges(t, &by);
    s.to_multiset_ensures();
    t.to_multiset_ensures();
    assert(s.len() == t.len());
    let order = crate::ai::group_advice::by_votes(candidates@, votes@);
    assert(order.len() == s.len());
    assert(order[0] == s[0].app_id);
    assert(s.contains(s[0]));
    assert(t.to_multiset().count(s[0]) > 0);
    assert(t.contains(s[0]));
    let w = choose|w: int| 0 <= w < t.len() && t[w] == s[0];
    assert(candidates@[w] == s[0].app_id);
    assert(t.contains(t[i]));
    assert(s.to_multiset().count(t[i]) > 0);
    assert(s.contains(t[i]));
    let k = choose|k: int| 0 <= k < s.len() && s[k] == t[i];
    lemma_ballots(votes@, candidates@[w]);
    lemma_ballots(votes@, candidates@[i]);
}

// ---------------------------------------------------------------------------
// Replies of a provider
// ---------------------------------------------------------------------------

/// A reply is read only from a status from 200 to 299; too many requests are told apart from any
/// other refusal.
pub proof fn law_statuses_decide(status: u16, body: &str, r: Option<AiError>)
    requires
        call_ensures(status_error, (status, body), r),
    ensures
        r is None <==> 200 <= status < 300,
        status == 429 ==> r is Some && r->0 is RateLimited,
        r is Some && status != 429 ==> r->0 is ProviderRejected,
{
}

/// Nothing is read out of a reply with another status.
pub proof fn law_refused_replies_hold_nothing(
    status: u16,
    body: &[u8],
    r: Result<Completion, AiError>,
)
    requires
        call_ensures(read_completion, (status, body), r),
        status < 200 || status > 299,
    ensures
        r is Err,
        r->Err_0 is RateLimited <==> status == 429,
        r->Err_0 is ProviderRejected <==> status != 429,
{
}

/// A completion is the content of the reply, which has to be there and to be JSON, with the
/// tokens that were counted, or zero.
pub proof fn law_completions_hold_the_content(
    content: Result<Option<String>, String>,
    fault: Option<String>,
    input: Result<Option<u64>, String>,
    output: Result<Option<u64>, String>,
    r: Result<Completion, AiError>,
)
    requires
        call_ensures(completion_from_fields, (content, fault, input, output), r),
    ensures
        r is Ok <==> content is Ok && content->Ok_0 is Some && fault is None,
        r is Ok ==> r->Ok_0.content@ == content->Ok_0->0@,
        r is Ok && input == Ok::<Option<u64>, String>(None) ==> r->Ok_0.usage_input == 0,
        r is Ok && output is Err ==> r->Ok_0.usage_output == 0,
        r is Ok && input is Ok && input->Ok_0 is Some && input->Ok_0->0 <= u32::MAX
            ==> r->Ok_0.usage_input == input->Ok_0->0,
        r is Ok && output is Ok && output->Ok_0 is Some && output->Ok_0->0 <= u32::MAX
            ==> r->Ok_0.usage_output == output->Ok_0->0,
        r is Err ==> r->Err_0 is InvalidOutput,
{
}

/// At most sixty-four texts are embedded at once, and none is no call.
pub proof fn law_batches_are_bounded(inputs: usize, r: Result<bool, AiError>)
    requires
        call_ensures(plan_embedding_batch, (inputs,), r),
    ensures
        r is Ok <==> inputs <= 64,
        r is Ok ==> (r->Ok_0 <==> inputs != 0),
{
}

/// A row of an embedding reply that can be read: there, not empty, and numbers only.
pub open spec fn is_readable(row: EmbeddingRow) -> bool {
    row.values is Some && row.values->0@.len() > 0 && forall|i: int|
        0 <= i < row.values->0@.len() ==> (#[trigger] row.values->0@[i]) is Some
}

proof fn lemma_rows_fault(rows: Seq<EmbeddingRow>, at: int)
    requires
        0 <= at <= rows.len(),
    ensures
        rows_fault(row_numbers(rows), at) is None <==> forall|i: int|
            at <= i < rows.len() ==> is_readable(#[trigger] rows[i]),
    decreases rows.len() - at,
{
    if at < rows.len() {
        lemma_rows_fault(rows, at + 1);
        let row = row_numbers(rows)[at];
        assert(row == rows[at].numbers());
        if rows[at].values is Some {
            let values = rows[at].values->0@;
            if is_readable(rows[at]) {
                assert forall|i: int| 0 <= i < values.len() implies !((#[trigger] values[i])
                    is None) by {
                    assert(rows[at].values->0@[i] is Some);
                }
            } else if values.len() > 0 {
                let i = choose|i: int| 0 <= i < values.len() && !((#[trigger] values[i]) is Some);
                assert(values[i] is None);
            }
        }
        assert(row_fault(row, at) is None <==> is_readable(rows[at]));
    }
}

/// Embeddings are accepted exactly where there is a readable row for every input; each vector is
/// then the numbers of its row.
pub proof fn law_every_input_gets_its_vector(
    inputs: usize,
    data: Option<Vec<EmbeddingRow>>,
    r: Result<Vec<Vec<Score>>, AiError>,
    k: int,
)
    requires
        call_ensures(embedding_vectors, (inputs, data), r),
    ensures
        r is Ok <==> data is Some && data->0@.len() == inputs && forall|i: int|
            0 <= i < data->0@.len() ==> is_readable(#[trigger] data->0@[i]),
        r is Ok ==> r->Ok_0@.len() == inputs,
        r is Ok && 0 <= k < inputs ==> r->Ok_0@[k]@.len() == data->0@[k].values->0@.len()
            && forall|i: int|
            0 <= i < r->Ok_0@[k]@.len() ==> data->0@[k].values->0@[i] == Some(
                #[trigger] r->Ok_0@[k]@[i],
            ),
{
    if data is Some {
        lemma_rows_fault(data->0@, 0);
        if r is Ok && 0 <= k < inputs {
            assert(row_numbers(data->0@)[k] == data->0@[k].numbers());
            assert(crate::ai::completion::row_vector(
                r->Ok_0@[k]@,
                row_numbers(data->0@)[k],
            ));
        }
    }
}

// ---------------------------------------------------------------------------
// Endpoints and routes
// ---------------------------------------------------------------------------

/// A provider is made exactly where its base, without the slashes at its end, is an address over
/// TLS or on this machine, and a key is given; it asks at the base's completions.
pub proof fn law_providers_have_an_allowed_base(
    base_url: &str,
    api_key: &str,
    model: &str,
    timeout_ms: u64,
    r: Result<OpenAiCompatProvider, AiError>,
)
    requires
        call_ensures(OpenAiCompatProvider::new, (base_url, api_key, model, timeout_ms), r),
    ensures
        ({
            let base = crate::text::trim_end_char(base_url@, '/');
            &&& r is Ok <==> trimmed(api_key@).len() > 0 && ("https://"@.is_prefix_of(base)
                || "http://127.0.0.1"@.is_prefix_of(base) || "http://localhost"@.is_prefix_of(
                base,
            ))
            &&& r is Ok ==> r->Ok_0.base_url@ == base && r->Ok_0.api_key@ == api_key@
                && r->Ok_0.model@ == model@ && r->Ok_0.timeout_ms == timeout_ms
            &&& r is Err ==> r->Err_0 is Config
        }),
{
    reveal_strlit("https://");
    reveal_strlit("http://127.0.0.1");
    reveal_strlit("http://localhost");
}

/// Completions are asked for below the base.
pub proof fn law_completions_are_below_the_base(provider: OpenAiCompatProvider, r: String)
    requires
        call_ensures(OpenAiCompatProvider::completions_url, (&provider,), r),
    ensures
        r@ == provider.base_url@ + "/chat/completions"@,
{
}

/// What an operator sets for a task holds: the model without the white space around it, a time
/// limit between one second and two minutes, on exactly where one of the four words for it is
/// given. A model for everything replaces the model of a task that answers people while they
/// wait, unless that task has one of its own.
pub proof fn law_operators_override_routes(
    new: TaskRouteConfig,
    old: TaskRouteConfig,
    global_model: Option<Seq<char>>,
    o: RouteOverride,
)
    requires
        route_overridden(new, old, global_model, o),
    ensures
        new.task == old.task,
        o.model is Some ==> new.primary_model@ == trimmed(o.model->0@),
        o.model is None && global_model is None ==> new.primary_model@ == old.primary_model@,
        o.model is None && global_model is Some && (old.task is IntentParse
            || old.task is RankExplain || old.task is CompareGames || old.task is GroupAdvice)
            ==> new.primary_model@ == global_model->0 && (o.fallbacks is None
            ==> new.fallback_models@.len() == 0),
        o.model is None && (old.task is FeatureExtract || old.task is Embed
            || old.task is GameSummary || old.task is DataQuality) ==> new.primary_model@
            == old.primary_model@,
        o.timeout_secs is None ==> new.timeout_secs == old.timeout_secs,
        o.timeout_secs is Some ==> 1 <= new.timeout_secs <= 120,
        o.enabled is None ==> new.enabled == old.enabled,
        o.enabled is Some ==> (new.enabled <==> {
            let word = to_ascii_lower(trimmed(o.enabled->0@));
            word == "1"@ || word == "true"@ || word == "yes"@ || word == "on"@
        }),
        new.max_output_tokens == old.max_output_tokens,
{
    assert(views(new.fallback_models@).len() == new.fallback_models@.len());
}

// ---------------------------------------------------------------------------
// More on what is handed over
// ---------------------------------------------------------------------------

/// With room enough, each character is handed over by itself: angle brackets by their names,
/// other control characters than line ends and tabs not at all, everything else as it is.
pub open spec fn handed_over(text: Seq<char>) -> Seq<char>
    decreases text.len(),
{
    if text.len() == 0 {
        Seq::empty()
    } else {
        let c = text[0];
        let own = if c == '<' {
            "&lt;"@
        } else if c == '>' {
            "&gt;"@
        } else if ((c as u32) < 32 && c != '\n' && c != '\t') || 127 <= (c as u32) <= 159 {
            Seq::empty()
        } else {
            seq![c]
        };
        own + handed_over(text.drop_first())
    }
}

proof fn lemma_handed_over(out: Seq<char>, rest: Seq<char>, max: nat)
    requires
        out.len() + 4 * rest.len() <= max,
    ensures
        crate::ai::sanitize::sanitized_onto(out, rest, max) == out + handed_over(rest),
    decreases rest.len(),
{
    reveal_strlit("&lt;");
    reveal_strlit("&gt;");
    if rest.len() == 0 {
        assert(out + handed_over(rest) =~= out);
    } else {
        let own = crate::ai::sanitize::neutral(rest[0]);
        assert(own.len() <= 4);
        lemma_handed_over(out + own, rest.drop_first(), max);
        assert(out + handed_over(rest) =~= (out + own) + handed_over(rest.drop_first()));
    }
}

/// Where there is room for it, text is handed over character by character.
pub proof fn law_text_is_handed_over(input: &str, max_chars: usize, r: String)
    requires
        call_ensures(sanitize_untrusted_text, (input, max_chars), r),
        4 * input@.len() <= max_chars,
    ensures
        r@ == handed_over(input@),
{
    lemma_handed_over(Seq::empty(), input@, max_chars as nat);
    assert(Seq::<char>::empty() + handed_over(input@) =~= handed_over(input@));
}

/// A provider that is off answers nothing, and embeds nothing.
pub proof fn law_disabled_providers_answer_nothing(
    provider: DisabledProvider,
    request: StructuredRequest,
    inputs: Vec<EmbeddingInput>,
    available: bool,
    r: Result<StructuredResponse, AiError>,
    s: Result<Vec<RawEmbedding>, AiError>,
)
    requires
        call_ensures(<DisabledProvider as AiProvider>::is_available, (&provider,), available),
        call_ensures(
            <DisabledProvider as AiProvider>::structured_completion,
            (&provider, request),
            r,
        ),
        call_ensures(<DisabledProvider as EmbeddingProvider>::embed, (&provider, &inputs), s),
    ensures
        !available,
        r is Err && r->Err_0 is Disabled,
        s is Err && s->Err_0 is Disabled,
{
}

/// Nothing is read out of an embedding reply with another status than one from 200 to 299.
pub proof fn law_refused_embeddings_hold_nothing(
    status: u16,
    body: &[u8],
    inputs: usize,
    r: Result<Vec<Vec<Score>>, AiError>,
)
    requires
        call_ensures(read_embeddings, (status, body, inputs), r),
        status < 200 || status > 299,
    ensures
        r is Err,
        r->Err_0 is RateLimited <==> status == 429,
{
}

/// An embedding provider needs an allowed base, a key and at least one dimension.
pub proof fn law_embedding_providers(
    base_url: &str,
    api_key: &str,
    model: &str,
    dimensions: usize,
    timeout_ms: u64,
    r: Result<OpenAiCompatEmbeddingProvider, AiError>,
)
    requires
        call_ensures(
            OpenAiCompatEmbeddingProvider::new,
            (base_url, api_key, model, dimensions, timeout_ms),
            r,
        ),
    ensures
        ({
            let base = crate::text::trim_end_char(base_url@, '/');
            &&& r is Ok <==> dimensions > 0 && trimmed(api_key@).len() > 0 && (
            "https://"@.is_prefix_of(base) || "http://127.0.0.1"@.is_prefix_of(base)
                || "http://localhost"@.is_prefix_of(base))
            &&& r is Ok ==> r->Ok_0.base_url@ == base && r->Ok_0.dimensions == dimensions
                && r->Ok_0.model@ == model@
        }),
{
    reveal_strlit("https://");
    reveal_strlit("http://127.0.0.1");
    reveal_strlit("http://localhost");
}

} // verus!
