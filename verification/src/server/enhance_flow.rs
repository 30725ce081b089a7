//! When a model is called: what has to be done next for a request, and what becomes of the
//! candidates in the end.

use vstd::prelude::*;

use crate::score::Score;
use crate::server::ai_rank::{
    apply_validated_ai_rank, identities, identity, refreshed, reordered, AiRankResult, Placed,
};
use crate::server::ai_requests::AiStatus;
use crate::server::enhance::{
    ai_admission_failure_reason, enhancement_start, progressive_outcome, settle_enhancement,
    settles, AdmissionStep, AiAdmissionError, AiEnhanceOutcome, EnhanceEvent,
};
use crate::server::recall::{item_ids, one_per_game, RecalledItem};

verus! {

// ---------------------------------------------------------------------------
// Asking a model
// ---------------------------------------------------------------------------

/// What has to be done next before a model is asked.
#[derive(Debug, Clone, Copy, PartialEq, Eq, Structural)]
pub enum ModelStep {
    /// Nobody may be asked.
    NotAdmitted,
    /// This step of the admission comes next.
    Admit(AdmissionStep),
    /// The admission was denied.
    Refused(AiAdmissionError),
    /// The model is called.
    Call,
}

/// Where the admission stands: nothing where the account may not ask a model at all.
pub open spec fn model_step_of(available: bool, admission: Option<AdmissionStep>) -> ModelStep {
    match admission {
        Some(step) if available => match step {
            AdmissionStep::Granted => ModelStep::Call,
            AdmissionStep::Denied(error) => ModelStep::Refused(error),
            pending => ModelStep::Admit(pending),
        },
        _ => ModelStep::NotAdmitted,
    }
}

/// The next step towards asking a model. It is called only where one is available and the
/// account's admission was granted.
pub fn model_step(available: bool, admission: Option<AdmissionStep>) -> (r: ModelStep)
    ensures
        r == model_step_of(available, admission),
        r is Call <==> available && admission == Some(AdmissionStep::Granted),
{
    match admission {
        Some(step) if available => match step {
            AdmissionStep::Granted => ModelStep::Call,
            AdmissionStep::Denied(error) => ModelStep::Refused(error),
            pending => ModelStep::Admit(pending),
        },
        _ => ModelStep::NotAdmitted,
    }
}

// ---------------------------------------------------------------------------
// Enhancing a list of candidates
// ---------------------------------------------------------------------------

/// What has to be done next for a list of candidates.
#[derive(Debug, Clone, Copy, PartialEq, Eq, Structural)]
pub enum EnhanceStep {
    /// The list is answered now, and the model's part follows later.
    AnswerPending,
    /// No model is available.
    Unavailable,
    /// There is nothing to enhance, and nobody to ask.
    Disabled,
    /// There is nothing to enhance.
    NothingToRank,
    /// No candidate can be shown to a model.
    NoCandidates,
    /// A cached answer that is still valid is taken.
    UseCached,
    /// The account may not ask a model.
    NotAdmitted,
    /// This step of the admission comes next.
    Admit(AdmissionStep),
    /// The admission was denied.
    Refused(AiAdmissionError),
    /// The model is called.
    CallModel,
}

/// The steps in the order in which they are considered: a cached answer costs nothing, so the
/// admission is asked for only without one.
pub open spec fn enhancement_step_of(
    progressive: bool,
    items: usize,
    candidates: usize,
    online_available: bool,
    cached: bool,
    admission: Option<AdmissionStep>,
) -> EnhanceStep {
    if progressive {
        if online_available {
            EnhanceStep::AnswerPending
        } else {
            EnhanceStep::Unavailable
        }
    } else if items == 0 {
        if online_available {
            EnhanceStep::NothingToRank
        } else {
            EnhanceStep::Disabled
        }
    } else if !online_available {
        EnhanceStep::Unavailable
    } else if candidates == 0 {
        EnhanceStep::NoCandidates
    } else if cached {
        EnhanceStep::UseCached
    } else {
        match model_step_of(true, admission) {
            ModelStep::NotAdmitted => EnhanceStep::NotAdmitted,
            ModelStep::Admit(step) => EnhanceStep::Admit(step),
            ModelStep::Refused(error) => EnhanceStep::Refused(error),
            ModelStep::Call => EnhanceStep::CallModel,
        }
    }
}

/// The next step for a list of `items`, of which `candidates` can be shown to a model.
/// `cached` says that a valid answer is in the cache, `admission` how far the account's
/// admission has come. A request that does not wait never calls the model, and without a
/// cached answer only an account whose admission was granted does.
pub fn enhancement_step(
    progressive: bool,
    items: usize,
    candidates: usize,
    online_available: bool,
    cached: bool,
    admission: Option<AdmissionStep>,
) -> (r: EnhanceStep)
    ensures
        r == enhancement_step_of(
            progressive,
            items,
            candidates,
            online_available,
            cached,
            admission,
        ),
        progressive ==> !(r is CallModel) && !(r is Admit),
        !cached && admission is None ==> !(r is CallModel) && !(r is Admit),
        r is CallModel ==> !progressive && !cached && online_available && admission == Some(
            AdmissionStep::Granted,
        ),
        cached ==> !(r is CallModel) && !(r is Admit),
{
    if progressive {
        return if online_available {
            EnhanceStep::AnswerPending
        } else {
            EnhanceStep::Unavailable
        };
    }
    if items == 0 {
        return if online_available {
            EnhanceStep::NothingToRank
        } else {
            EnhanceStep::Disabled
        };
    }
    if !online_available {
        return EnhanceStep::Unavailable;
    }
    if candidates == 0 {
        return EnhanceStep::NoCandidates;
    }
    if cached {
        return EnhanceStep::UseCached;
    }
    match model_step(true, admission) {
        ModelStep::NotAdmitted => EnhanceStep::NotAdmitted,
        ModelStep::Admit(step) => EnhanceStep::Admit(step),
        ModelStep::Refused(error) => EnhanceStep::Refused(error),
        ModelStep::Call => EnhanceStep::CallModel,
    }
}

/// The outcome of a step that ends a request without a model. `disabled_reason` is what a
/// client is told when no model can be asked, `exhausted` when its budget is used up.
pub fn step_outcome(step: EnhanceStep, disabled_reason: &str, exhausted: &str) -> (r: Option<
    AiEnhanceOutcome,
>)
    ensures
        match step {
            EnhanceStep::AnswerPending => r matches Some(o) && o.says(
                AiStatus::Pending,
                Some("base ranking returned; AI enhancement is pending"@),
            ),
            EnhanceStep::Unavailable => r matches Some(o) && o.says(
                AiStatus::Fallback,
                Some(disabled_reason@),
            ),
            EnhanceStep::Disabled => r matches Some(o) && o.says(
                AiStatus::Disabled,
                Some(disabled_reason@),
            ),
            EnhanceStep::NothingToRank => r matches Some(o) && o.says(AiStatus::Used, None),
            EnhanceStep::NoCandidates => r matches Some(o) && o.says(
                AiStatus::Fallback,
                Some("no valid candidates for AI analysis"@),
            ),
            EnhanceStep::NotAdmitted => r matches Some(o) && o.says(
                AiStatus::Fallback,
                Some(disabled_reason@),
            ),
            EnhanceStep::Refused(AiAdmissionError::BudgetExhausted) => r matches Some(o) && o.says(
                AiStatus::Fallback,
                Some(exhausted@),
            ),
            EnhanceStep::Refused(AiAdmissionError::TemporarilyUnavailable) => r matches Some(o)
                && o.says(
                AiStatus::Fallback,
                Some(
                    "AI account quota is temporarily unavailable; deterministic results are shown"@,
                ),
            ),
            EnhanceStep::UseCached | EnhanceStep::Admit(_) | EnhanceStep::CallModel => r is None,
        },
{
    match step {
        EnhanceStep::AnswerPending => Some(progressive_outcome(true, disabled_reason)),
        EnhanceStep::Unavailable => Some(progressive_outcome(false, disabled_reason)),
        EnhanceStep::Disabled => enhancement_start(0, false, disabled_reason),
        EnhanceStep::NothingToRank => enhancement_start(0, true, disabled_reason),
        EnhanceStep::NoCandidates => Some(settle_enhancement(EnhanceEvent::NoCandidates).0),
        EnhanceStep::NotAdmitted => Some(
            settle_enhancement(
                EnhanceEvent::NotAdmitted { reason: disabled_reason.to_owned() },
            ).0,
        ),
        EnhanceStep::Refused(error) => {
            let reason = ai_admission_failure_reason(error, exhausted);
            Some(settle_enhancement(EnhanceEvent::Refused { reason }).0)
        },
        EnhanceStep::UseCached | EnhanceStep::Admit(_) | EnhanceStep::CallModel => None,
    }
}

/// `new` is what a request ends with: the old list as it was, or a list to which an accepted
/// answer was applied.
pub open spec fn enhanced(
    new: Seq<RecalledItem>,
    old: Seq<RecalledItem>,
    applied: Option<AiRankResult>,
    blended: Seq<Score>,
) -> bool {
    match applied {
        None => new == old,
        Some(result) => exists|placed: Seq<Placed>, ordered: Seq<RecalledItem>| #[trigger]
            reordered(ordered, old, result.recommendations@, blended, placed) && refreshed(
                new,
                ordered,
            ),
    }
}

/// Lists of the same items have the same games.
proof fn lemma_same_games(a: Seq<RecalledItem>, b: Seq<RecalledItem>)
    requires
        identities(a).to_multiset() == identities(b).to_multiset(),
    ensures
        item_ids(a).to_multiset() == item_ids(b).to_multiset(),
        one_per_game(a) ==> one_per_game(b),
{
    let game = |id: (usize, Option<u32>)|
        match id.1 {
            Some(app_id) => app_id,
            None => u32::MAX,
        };
    assert(item_ids(a) =~= identities(a).map_values(game));
    assert(item_ids(b) =~= identities(b).map_values(game));
    lemma_mapped_alike(identities(a), identities(b), game);
    identities(a).to_multiset_ensures();
    identities(b).to_multiset_ensures();
    if one_per_game(a) {
        assert forall|i: int| 0 <= i < b.len() implies (#[trigger] b[i]).app_id is Some by {
            assert(identities(b)[i] == identity(b[i]));
            assert(identities(b).contains(identity(b[i])));
            assert(identities(b).to_multiset().contains(identity(b[i])));
            assert(identities(a).contains(identity(b[i])));
            let k = choose|k: int|
                0 <= k < identities(a).len() && identities(a)[k] == identity(b[i]);
            assert(a[k].app_id is Some);
        }
        item_ids(a).lemma_multiset_has_no_duplicates();
        item_ids(b).lemma_multiset_has_no_duplicates_conv();
    }
}

/// Rearranged lists are rearranged still when each item is replaced by what stands for it.
proof fn lemma_mapped_alike<A, B>(a: Seq<A>, b: Seq<A>, f: spec_fn(A) -> B)
    requires
        a.to_multiset() == b.to_multiset(),
    ensures
        a.map_values(f).to_multiset() == b.map_values(f).to_multiset(),
    decreases a.len(),
{
    a.to_multiset_ensures();
    b.to_multiset_ensures();
    if a.len() == 0 {
        assert(a.map_values(f) =~= b.map_values(f));
    } else {
        let last = a.last();
        assert(a.contains(last));
        assert(a.to_multiset().contains(last));
        let at = b.index_of(last);
        assert(b.contains(last));
        assert(a.remove(a.len() - 1) =~= a.drop_last());
        lemma_mapped_alike(a.drop_last(), b.remove(at), f);
        let of_a = a.map_values(f);
        let of_b = b.map_values(f);
        of_a.to_multiset_ensures();
        of_b.to_multiset_ensures();
        assert(of_a.remove(a.len() - 1) =~= a.drop_last().map_values(f));
        assert(of_b.remove(at) =~= b.remove(at).map_values(f));
        assert(of_a.contains(of_a[a.len() - 1]) && of_b.contains(of_b[at]));
        assert(of_a.to_multiset() =~= of_a.remove(a.len() - 1).to_multiset().insert(f(last)));
        assert(of_b.to_multiset() =~= of_b.remove(at).to_multiset().insert(f(last)));
    }
}

/// The outcome settles the event, and the list is what its answer makes of the items.
pub open spec fn is_finished(
    r: (AiEnhanceOutcome, Vec<RecalledItem>),
    items: Seq<RecalledItem>,
    event: EnhanceEvent,
    blended: Seq<Score>,
) -> bool {
    exists|applied: Option<AiRankResult>| #[trigger]
        settles(r.0, applied, event) && enhanced(r.1@, items, applied, blended)
}

/// What the model's part came to: the outcome, and the list. `blended` holds the blended
/// score of each item. Without an accepted or cached answer the list stays as it was.
pub fn finish_enhancement(
    items: Vec<RecalledItem>,
    event: EnhanceEvent,
    blended: &Vec<Score>,
) -> (r: (AiEnhanceOutcome, Vec<RecalledItem>))
    requires
        blended@.len() == items@.len(),
    ensures
        is_finished(r, items@, event, blended@),
        !(r.0.status is Used) && !(r.0.status is Cached) ==> r.1@ == items@
            && r.0.fallback_reason is Some,
        identities(r.1@).to_multiset() == identities(items@).to_multiset(),
        item_ids(r.1@).to_multiset() == item_ids(items@).to_multiset(),
        one_per_game(items@) ==> one_per_game(r.1@),
{
    let ghost input = items@;
    let (outcome, applied) = settle_enhancement(event);
    let ghost result = applied;
    let items = match applied {
        Some(result) => apply_validated_ai_rank(items, &result.recommendations, blended),
        None => items,
    };
    proof {
        assert(settles(outcome, result, event));
        assert(enhanced(items@, input, result, blended@));
        lemma_same_games(input, items@);
    }
    (outcome, items)
}

/// Whatever was asked for, the model is called only by a request that waits for it, that found
/// no valid answer in the cache, and whose admission went through every step that the account
/// needs.
pub proof fn lemma_calls_are_admitted(
    progressive: bool,
    items: usize,
    candidates: usize,
    online_available: bool,
    cached: bool,
    admission: Option<AdmissionStep>,
)
    ensures
        enhancement_step_of(progressive, items, candidates, online_available, cached, admission)
            is CallModel <==> !progressive && items > 0 && candidates > 0 && online_available
            && !cached && admission == Some(AdmissionStep::Granted),
{
}

}
