//! Requests to the model behind the service: which are accepted, what the model is given,
//! and what is answered whether or not it delivers.

use vstd::prelude::*;

use crate::ai::compare::{
    compare_fault, parse_compare_explanation, shown_explanation, CompareDifference,
    CompareExplanation,
};
use crate::ai::error::{failure_reason, invalid, invalid_output, safe_ai_failure_reason, AiError};
use crate::ai::group_advice::{
    advice_fault, by_votes, evidence_fault, first_outside, ids_are_distinct, is_compromise,
    tallies, votes_for, AppVoteCount, GroupAdviceRequest, GroupAdviceResult, VoteOrder,
};
use crate::ai::sanitize::{data_block, html_or_url, sanitized, wrap_untrusted_data_block};
use crate::numbers::{decimal, u64_decimal};
use crate::server::errors::{invalid_argument, refused, ApiError};
use crate::server::fact_matrix::FactMatrix;
use crate::server::intent::{normalized_ai_query, normalized_query, push_if};
use crate::server::model_json::{group_facts_json, group_json, json_list, quote_list};
use crate::sort::{lemma_sorted_members, lemma_sorted_rearranges, stable_sorted};
use crate::text::{
    ascii_lower, byte_len, is_blank, join2, join3, list_contains, occurs_at, occurs_in, opt_view,
    str_byte_len, str_ends_with, str_eq, str_view, to_ascii_lower, trimmed, views,
};

verus! {

/// How far a model took part in an answer.
#[derive(Debug, Clone, Copy, PartialEq, Eq, Structural)]
pub enum AiStatus {
    Used,
    Cached,
    Fallback,
    Disabled,
    Pending,
}

impl AiStatus {
    pub open spec fn name(self) -> Seq<char> {
        match self {
            AiStatus::Used => "used"@,
            AiStatus::Cached => "cached"@,
            AiStatus::Fallback => "fallback"@,
            AiStatus::Disabled => "disabled"@,
            AiStatus::Pending => "pending"@,
        }
    }

    pub fn as_str(self) -> (r: &'static str)
        ensures
            r@ == self.name(),
    {
        match self {
            AiStatus::Used => "used",
            AiStatus::Cached => "cached",
            AiStatus::Fallback => "fallback",
            AiStatus::Disabled => "disabled",
            AiStatus::Pending => "pending",
        }
    }
}

/// What came of asking the model.
#[derive(Debug)]
pub enum ModelReply<T> {
    /// No model may be asked on this account.
    NotAdmitted { reason: String },
    /// The account has no call left, for this reason.
    Refused { reason: String },
    /// The call failed; `general` is the reason that goes with the kind of failure.
    Failed { error: AiError, general: String },
    /// The model answered; its answer was accepted or not.
    Answered { content: Result<T, AiError>, general: String, model: String },
}

// ---------------------------------------------------------------------------
// Comparison
// ---------------------------------------------------------------------------

/// Every identifier is positive.
pub open spec fn all_positive(ids: Seq<u32>) -> bool {
    forall|i: int| 0 <= i < ids.len() ==> #[trigger] ids[i] != 0
}

/// Positive and all different.
pub fn ids_are_unique_positive(ids: &Vec<u32>) -> (r: bool)
    ensures
        r == (all_positive(ids@) && ids@.no_duplicates()),
{
    let mut i: usize = 0;
    while i < ids.len()
        invariant
            0 <= i <= ids@.len(),
            forall|j: int| 0 <= j < i ==> #[trigger] ids@[j] != 0,
        decreases ids@.len() - i,
    {
        if ids[i] == 0 {
            assert(ids@[i as int] == 0);
            return false;
        }
        i = i + 1;
    }
    ids_are_distinct(ids)
}

/// A comparison is of two to four different games.
pub fn check_compare_request(app_ids: &Vec<u32>) -> (r: Result<(), ApiError>)
    ensures
        !(2 <= app_ids@.len() <= 4) ==> refused(r, "app_ids must contain 2 to 4 games"@),
        2 <= app_ids@.len() <= 4 && !(all_positive(app_ids@) && app_ids@.no_duplicates())
            ==> refused(r, "app_ids must be unique positive AppIDs"@),
        2 <= app_ids@.len() <= 4 && all_positive(app_ids@) && app_ids@.no_duplicates() ==> r is Ok,
{
    if app_ids.len() < 2 || app_ids.len() > 4 {
        return Err(invalid_argument("app_ids must contain 2 to 4 games"));
    }
    if !ids_are_unique_positive(app_ids) {
        return Err(invalid_argument("app_ids must be unique positive AppIDs"));
    }
    Ok(())
}

/// Which facts about a game are known.
#[derive(Debug, Clone, Copy, PartialEq, Eq, Structural)]
pub struct CompareFacts {
    pub app_id: u32,
    /// A recommended number of players, at either end.
    pub party_size: bool,
    /// The dominant mode, online co-op, cross-play or drop-in.
    pub multiplayer_mode: bool,
    /// Private sessions or self-hosted servers.
    pub service_dependency: bool,
}

/// Evidence for one column of one game.
pub open spec fn fact_evidence(app_id: u32, column: Seq<char>) -> Seq<char> {
    "app:"@ + decimal(app_id as nat) + ":"@ + column
}

pub(crate) fn fact_evidence_id(app_id: u32, column: &str) -> (r: String)
    ensures
        r@ == fact_evidence(app_id, column@),
{
    let mut out = join3("app:", u64_decimal(app_id as u64).as_str(), ":");
    out.append(column);
    out
}

/// The columns that are known of a game.
pub open spec fn known_columns(facts: CompareFacts) -> Seq<Seq<char>> {
    push_if(
        push_if(
            push_if(Seq::empty(), facts.party_size, "party_size"@),
            facts.multiplayer_mode,
            "multiplayer_mode"@,
        ),
        facts.service_dependency,
        "service_dependency"@,
    ).push("data_updated_at"@)
}

/// The evidence that is known of a game, column by column.
pub open spec fn row_evidence(facts: CompareFacts) -> Seq<Seq<char>> {
    known_columns(facts).map_values(|column: Seq<char>| fact_evidence(facts.app_id, column))
}

/// The columns and the evidence of one game, side by side.
pub fn compare_row(facts: &CompareFacts) -> (r: (Vec<String>, Vec<String>))
    ensures
        views(r.0@) == known_columns(*facts),
        views(r.1@) == row_evidence(*facts),
{
    let mut columns: Vec<String> = Vec::new();
    if facts.party_size {
        columns.push("party_size".to_owned());
    }
    if facts.multiplayer_mode {
        columns.push("multiplayer_mode".to_owned());
    }
    if facts.service_dependency {
        columns.push("service_dependency".to_owned());
    }
    columns.push("data_updated_at".to_owned());
    assert(views(columns@) =~= known_columns(*facts));
    let mut evidence: Vec<String> = Vec::new();
    let mut i: usize = 0;
    while i < columns.len()
        invariant
            0 <= i <= columns@.len(),
            views(columns@) == known_columns(*facts),
            views(evidence@) == row_evidence(*facts).take(i as int),
        decreases columns@.len() - i,
    {
        let id = fact_evidence_id(facts.app_id, columns[i].as_str());
        let ghost before = evidence@;
        assert(known_columns(*facts)[i as int] == columns@[i as int]@);
        evidence.push(id);
        i = i + 1;
        proof {
            assert(views(evidence@) =~= views(before).push(id@));
            assert(views(evidence@) =~= row_evidence(*facts).take(i as int));
        }
    }
    assert(views(evidence@) =~= row_evidence(*facts));
    (columns, evidence)
}

/// All evidence that an explanation may cite.
pub open spec fn all_evidence(rows: Seq<CompareFacts>) -> Seq<Seq<char>>
    decreases rows.len(),
{
    if rows.len() == 0 {
        Seq::empty()
    } else {
        all_evidence(rows.drop_last()) + row_evidence(rows.last())
    }
}

pub open spec fn any_party(rows: Seq<CompareFacts>) -> bool {
    exists|i: int| 0 <= i < rows.len() && (#[trigger] rows[i]).party_size
}

pub open spec fn any_mode(rows: Seq<CompareFacts>) -> bool {
    exists|i: int| 0 <= i < rows.len() && (#[trigger] rows[i]).multiplayer_mode
}

pub open spec fn any_service(rows: Seq<CompareFacts>) -> bool {
    exists|i: int| 0 <= i < rows.len() && (#[trigger] rows[i]).service_dependency
}

/// The columns that some game has a fact in, in alphabetical order.
pub open spec fn all_columns(rows: Seq<CompareFacts>) -> Seq<Seq<char>> {
    push_if(
        push_if(
            push_if(
                push_if(Seq::empty(), rows.len() > 0, "data_updated_at"@),
                any_mode(rows),
                "multiplayer_mode"@,
            ),
            any_party(rows),
            "party_size"@,
        ),
        any_service(rows),
        "service_dependency"@,
    )
}

/// What an explanation of these games may speak of: its columns and its evidence.
pub fn compare_scope(rows: &Vec<CompareFacts>) -> (r: (Vec<String>, Vec<String>))
    ensures
        views(r.0@) == all_columns(rows@),
        views(r.1@) == all_evidence(rows@),
{
    let mut party = false;
    let mut mode = false;
    let mut service = false;
    let mut evidence: Vec<String> = Vec::new();
    let mut i: usize = 0;
    assert(rows@.take(0) =~= Seq::empty());
    assert(views(evidence@) =~= Seq::empty());
    while i < rows.len()
        invariant
            0 <= i <= rows@.len(),
            party <==> exists|j: int| 0 <= j < i && (#[trigger] rows@[j]).party_size,
            mode <==> exists|j: int| 0 <= j < i && (#[trigger] rows@[j]).multiplayer_mode,
            service <==> exists|j: int| 0 <= j < i && (#[trigger] rows@[j]).service_dependency,
            views(evidence@) == all_evidence(rows@.take(i as int)),
        decreases rows@.len() - i,
    {
        let row: CompareFacts = rows[i];
        proof {
            let next = rows@.take(i + 1);
            assert(next.drop_last() =~= rows@.take(i as int));
            assert(next.last() == row);
            assert(rows@[i as int] == row);
        }
        party = party || row.party_size;
        mode = mode || row.multiplayer_mode;
        service = service || row.service_dependency;
        let (columns, ids) = compare_row(&row);
        let ghost before = evidence@;
        let mut more = ids;
        let ghost added = more@;
        evidence.append(&mut more);
        proof {
            assert(views(evidence@) =~= views(before) + views(added));
        }
        i = i + 1;
    }
    assert(rows@.take(i as int) =~= rows@);
    let mut columns: Vec<String> = Vec::new();
    if rows.len() > 0 {
        columns.push("data_updated_at".to_owned());
    }
    if mode {
        columns.push("multiplayer_mode".to_owned());
    }
    if party {
        columns.push("party_size".to_owned());
    }
    if service {
        columns.push("service_dependency".to_owned());
    }
    assert(views(columns@) =~= all_columns(rows@));
    (columns, evidence)
}

/// The difference keeps to a supplied column, and its evidence is about that column.
pub open spec fn keeps_to_column(d: CompareDifference, columns: Seq<Seq<char>>) -> bool {
    columns.contains(d.column@) && forall|i: int|
        0 <= i < d.evidence_ids@.len() ==> (":"@ + d.column@).is_suffix_of(
            (#[trigger] d.evidence_ids@[i])@,
        )
}

pub open spec fn keeps_to_columns(e: CompareExplanation, columns: Seq<Seq<char>>) -> bool {
    forall|i: int|
        0 <= i < e.differences@.len() ==> keeps_to_column(#[trigger] e.differences@[i], columns)
}

fn difference_keeps_to_column(d: &CompareDifference, columns: &Vec<String>) -> (r: bool)
    ensures
        r == keeps_to_column(*d, views(columns@)),
{
    if !list_contains(columns, d.column.as_str()) {
        return false;
    }
    let ending = join2(":", d.column.as_str());
    let mut i: usize = 0;
    while i < d.evidence_ids.len()
        invariant
            0 <= i <= d.evidence_ids@.len(),
            ending@ == ":"@ + d.column@,
            forall|j: int|
                0 <= j < i ==> ending@.is_suffix_of((#[trigger] d.evidence_ids@[j])@),
        decreases d.evidence_ids@.len() - i,
    {
        if !str_ends_with(d.evidence_ids[i].as_str(), ending.as_str()) {
            assert(!ending@.is_suffix_of(d.evidence_ids@[i as int]@));
            return false;
        }
        i = i + 1;
    }
    true
}

fn explanation_keeps_to_columns(e: &CompareExplanation, columns: &Vec<String>) -> (r: bool)
    ensures
        r == keeps_to_columns(*e, views(columns@)),
{
    let mut i: usize = 0;
    while i < e.differences.len()
        invariant
            0 <= i <= e.differences@.len(),
            forall|j: int|
                0 <= j < i ==> keeps_to_column(#[trigger] e.differences@[j], views(columns@)),
        decreases e.differences@.len() - i,
    {
        if !difference_keeps_to_column(&e.differences[i], columns) {
            assert(!keeps_to_column(e.differences@[i as int], views(columns@)));
            return false;
        }
        i = i + 1;
    }
    true
}

/// Why an explanation of these games is refused.
pub open spec fn scoped_fault(
    e: CompareExplanation,
    app_ids: Seq<u32>,
    columns: Seq<Seq<char>>,
    evidence: Seq<Seq<char>>,
) -> Option<Seq<char>> {
    match compare_fault(e, app_ids, evidence) {
        Some(reason) => Some(reason),
        None => if keeps_to_columns(e, columns) {
            None
        } else {
            Some("compare evidence does not match the supplied fact column"@)
        },
    }
}

/// Accepts an explanation that keeps to the facts that the model was given.
pub fn accept_comparison(
    explanation: CompareExplanation,
    app_ids: &Vec<u32>,
    columns: &Vec<String>,
    evidence: &Vec<String>,
) -> (r: Result<CompareExplanation, AiError>)
    ensures
        match scoped_fault(explanation, app_ids@, views(columns@), views(evidence@)) {
            Some(reason) => invalid(r, reason),
            None => r == Ok::<CompareExplanation, AiError>(shown_explanation(explanation)),
        },
{
    let shown = match parse_compare_explanation(explanation, app_ids, evidence) {
        Ok(shown) => shown,
        Err(error) => return Err(error),
    };
    assert(shown.differences == explanation.differences);
    if !explanation_keeps_to_columns(&shown, columns) {
        return Err(invalid_output("compare evidence does not match the supplied fact column"));
    }
    Ok(shown)
}

/// What the model is given to compare: the fact matrix and the allowed columns, both as
/// untrusted data.
pub fn compare_data_prompt(matrix: &FactMatrix) -> (r: String)
    ensures
        r@ == data_block("fact_matrix_json"@, sanitized(matrix.json@, 12_000)) + "\n\n"@
            + data_block("allowed_columns"@, sanitized(json_list(all_columns(matrix.rows@)), 500)),
{
    let (columns, _) = compare_scope(&matrix.rows);
    let columns_json = quote_list(&columns);
    let matrix = wrap_untrusted_data_block("fact_matrix_json", matrix.json.as_str(), 12_000);
    let columns = wrap_untrusted_data_block("allowed_columns", columns_json.as_str(), 500);
    join3(matrix.as_str(), "\n\n", columns.as_str())
}

/// The model's part in the answer to a comparison.
#[derive(Debug)]
pub struct CompareAnswer {
    pub explanation: Option<CompareExplanation>,
    pub status: AiStatus,
    pub fallback_reason: Option<String>,
    pub model: Option<String>,
}

/// The facts are answered in any case; an explanation goes with them only where the model
/// answered and its answer was accepted.
pub fn compare_answer(reply: ModelReply<CompareExplanation>) -> (r: CompareAnswer)
    ensures
        match reply {
            ModelReply::NotAdmitted { reason } => r.explanation is None && r.status is Disabled
                && opt_view(r.fallback_reason) == Some(reason@) && r.model is None,
            ModelReply::Refused { reason } => r.explanation is None && r.status is Fallback
                && opt_view(r.fallback_reason) == Some(reason@) && r.model is None,
            ModelReply::Failed { error, general } => r.explanation is None && r.status is Fallback
                && opt_view(r.fallback_reason) == Some(failure_reason(error, general@))
                && r.model is None,
            ModelReply::Answered { content, general, model } => opt_view(r.model) == Some(model@)
                && match content {
                Ok(explanation) => r.explanation == Some(explanation) && r.status is Used
                    && r.fallback_reason is None,
                Err(error) => r.explanation is None && r.status is Fallback && opt_view(
                    r.fallback_reason,
                ) == Some(failure_reason(error, general@)),
            },
        },
{
    match reply {
        ModelReply::NotAdmitted { reason } => CompareAnswer {
            explanation: None,
            status: AiStatus::Disabled,
            fallback_reason: Some(reason),
            model: None,
        },
        ModelReply::Refused { reason } => CompareAnswer {
            explanation: None,
            status: AiStatus::Fallback,
            fallback_reason: Some(reason),
            model: None,
        },
        ModelReply::Failed { error, general } => CompareAnswer {
            explanation: None,
            status: AiStatus::Fallback,
            fallback_reason: Some(safe_ai_failure_reason(&error, general.as_str())),
            model: None,
        },
        ModelReply::Answered { content, general, model } => match content {
            Ok(explanation) => CompareAnswer {
                explanation: Some(explanation),
                status: AiStatus::Used,
                fallback_reason: None,
                model: Some(model),
            },
            Err(error) => CompareAnswer {
                explanation: None,
                status: AiStatus::Fallback,
                fallback_reason: Some(safe_ai_failure_reason(&error, general.as_str())),
                model: Some(model),
            },
        },
    }
}

// ---------------------------------------------------------------------------
// Group advice
// ---------------------------------------------------------------------------

/// At most 16 labels, none of them blank or longer than 80 characters.
pub open spec fn labels_valid(labels: Seq<String>) -> bool {
    labels.len() <= 16 && forall|i: int|
        0 <= i < labels.len() ==> trimmed((#[trigger] labels[i])@).len() > 0 && labels[i]@.len()
            <= 80
}

pub fn valid_group_labels(values: &Vec<String>) -> (r: bool)
    ensures
        r == labels_valid(values@),
{
    if values.len() > 16 {
        return false;
    }
    let mut i: usize = 0;
    while i < values.len()
        invariant
            0 <= i <= values@.len(),
            forall|j: int|
                0 <= j < i ==> trimmed((#[trigger] values@[j])@).len() > 0 && values@[j]@.len()
                    <= 80,
        decreases values@.len() - i,
    {
        let value = values[i].as_str();
        if is_blank(value) || value.unicode_len() > 80 {
            assert(!(trimmed(values@[i as int]@).len() > 0 && values@[i as int]@.len() <= 80));
            return false;
        }
        i = i + 1;
    }
    true
}

/// The tally has at most one row for each candidate, and rows for candidates only.
pub open spec fn tally_valid(votes: Seq<AppVoteCount>, candidates: Seq<u32>) -> bool {
    &&& forall|i: int| 0 <= i < votes.len() ==> candidates.contains((#[trigger] votes[i]).app_id)
    &&& forall|i: int, j: int|
        0 <= i < j < votes.len() ==> (#[trigger] votes[i]).app_id != (#[trigger] votes[j]).app_id
}

fn is_tally_valid(votes: &Vec<AppVoteCount>, candidates: &Vec<u32>) -> (r: bool)
    ensures
        r == tally_valid(votes@, candidates@),
{
    let mut i: usize = 0;
    while i < votes.len()
        invariant
            0 <= i <= votes@.len(),
            forall|j: int| 0 <= j < i ==> candidates@.contains((#[trigger] votes@[j]).app_id),
            forall|a: int, b: int|
                0 <= a < b < i ==> (#[trigger] votes@[a]).app_id != (#[trigger] votes@[b]).app_id,
        decreases votes@.len() - i,
    {
        let id: u32 = votes[i].app_id;
        if !crate::ai::compare::contains_id(candidates, id) {
            assert(!candidates@.contains(votes@[i as int].app_id));
            return false;
        }
        let mut j: usize = 0;
        while j < i
            invariant
                0 <= j <= i < votes@.len(),
                id == votes@[i as int].app_id,
                forall|a: int| 0 <= a < j ==> (#[trigger] votes@[a]).app_id != id,
            decreases i - j,
        {
            if votes[j].app_id == id {
                assert(votes@[j as int].app_id == votes@[i as int].app_id);
                return false;
            }
            j = j + 1;
        }
        i = i + 1;
    }
    true
}

pub open spec fn group_bounds_valid(q: GroupAdviceRequest) -> bool {
    (q.party_size matches Some(n) ==> 1 <= n <= 64) && labels_valid(q.platforms@) && labels_valid(
        q.modes_preferred@,
    ) && labels_valid(q.modes_excluded@)
}

/// Why a group request is refused: the first fault, in the order of checking.
pub open spec fn group_fault(q: GroupAdviceRequest) -> Option<Seq<char>> {
    let ids = q.candidate_app_ids@;
    if !(2 <= ids.len() <= 12) {
        Some("candidate_app_ids must contain 2 to 12 apps"@)
    } else if !(all_positive(ids) && ids.no_duplicates()) {
        Some("candidate_app_ids must be unique positive AppIDs"@)
    } else if !group_bounds_valid(q) {
        Some("group preferences exceed supported bounds"@)
    } else if q.vote_counts@.len() > ids.len() {
        Some("vote_counts must contain at most one row per candidate"@)
    } else if !tally_valid(q.vote_counts@, ids) {
        Some("vote_counts must be unique and refer to candidate AppIDs"@)
    } else {
        None
    }
}

pub fn check_group_request(q: &GroupAdviceRequest) -> (r: Result<(), ApiError>)
    ensures
        match group_fault(*q) {
            Some(reason) => refused(r, reason),
            None => r is Ok,
        },
{
    let count: usize = q.candidate_app_ids.len();
    if count < 2 || count > 12 {
        return Err(invalid_argument("candidate_app_ids must contain 2 to 12 apps"));
    }
    if !ids_are_unique_positive(&q.candidate_app_ids) {
        return Err(invalid_argument("candidate_app_ids must be unique positive AppIDs"));
    }
    let party_fits = match q.party_size {
        Some(n) => 1 <= n && n <= 64,
        None => true,
    };
    if !party_fits || !valid_group_labels(&q.platforms) || !valid_group_labels(&q.modes_preferred)
        || !valid_group_labels(&q.modes_excluded) {
        return Err(invalid_argument("group preferences exceed supported bounds"));
    }
    if q.vote_counts.len() > count {
        return Err(invalid_argument("vote_counts must contain at most one row per candidate"));
    }
    if !is_tally_valid(&q.vote_counts, &q.candidate_app_ids) {
        return Err(invalid_argument("vote_counts must be unique and refer to candidate AppIDs"));
    }
    Ok(())
}

pub open spec fn candidate_evidence(ids: Seq<u32>) -> Seq<Seq<char>> {
    ids.map_values(|id: u32| "candidate:"@ + decimal(id as nat))
}

pub open spec fn vote_evidence(votes: Seq<AppVoteCount>) -> Seq<Seq<char>> {
    votes.map_values(|row: AppVoteCount| "vote:aggregate:"@ + decimal(row.app_id as nat))
}

/// The evidence that advice may cite: one entry for each candidate, then one for each row
/// of the tally.
pub fn group_evidence(candidates: &Vec<u32>, votes: &Vec<AppVoteCount>) -> (r: Vec<String>)
    ensures
        views(r@) == candidate_evidence(candidates@) + vote_evidence(votes@),
{
    let mut out: Vec<String> = Vec::new();
    let mut i: usize = 0;
    assert(views(out@) =~= candidate_evidence(candidates@).take(0));
    while i < candidates.len()
        invariant
            0 <= i <= candidates@.len(),
            views(out@) == candidate_evidence(candidates@).take(i as int),
        decreases candidates@.len() - i,
    {
        let id = join2("candidate:", u64_decimal(candidates[i] as u64).as_str());
        let ghost before = out@;
        out.push(id);
        i = i + 1;
        proof {
            assert(views(out@) =~= views(before).push(id@));
            assert(views(out@) =~= candidate_evidence(candidates@).take(i as int));
        }
    }
    let ghost head = candidate_evidence(candidates@);
    assert(views(out@) =~= head + vote_evidence(votes@).take(0));
    let mut j: usize = 0;
    while j < votes.len()
        invariant
            0 <= j <= votes@.len(),
            views(out@) == head + vote_evidence(votes@).take(j as int),
        decreases votes@.len() - j,
    {
        let id = join2("vote:aggregate:", u64_decimal(votes[j].app_id as u64).as_str());
        let ghost before = out@;
        out.push(id);
        j = j + 1;
        proof {
            assert(views(out@) =~= views(before).push(id@));
            assert(views(out@) =~= head + vote_evidence(votes@).take(j as int));
        }
    }
    assert(vote_evidence(votes@).take(j as int) =~= vote_evidence(votes@));
    out
}

/// What the model is given to advise on, as untrusted data.
pub fn group_data_prompt(q: &GroupAdviceRequest) -> (r: String)
    ensures
        r@ == data_block("group_aggregate_json"@, sanitized(group_json(*q), 6_000)),
{
    wrap_untrusted_data_block("group_aggregate_json", group_facts_json(q).as_str(), 6_000)
}

/// The digits of a number below ten to the power of `k`, which are at most `k`.
proof fn lemma_decimal_is_short(n: nat, k: nat)
    requires
        n < vstd::arithmetic::power::pow(10, k),
        k >= 1,
    ensures
        decimal(n).len() <= k,
    decreases k,
{
    if n >= 10 {
        vstd::arithmetic::power::lemma_pow1(10);
        assert(k >= 2) by {
            if k == 1 {
                assert(n < 10);
            }
        }
        reveal(vstd::arithmetic::power::pow);
        lemma_decimal_is_short(n / 10, (k - 1) as nat);
    }
}

/// The text of the compromise holds no markup and no address.
proof fn lemma_compromise_text_is_plain()
    ensures
        !html_or_url("按聚合想玩票数与稳定排序给出确定性折中。"@),
        "按聚合想玩票数与稳定排序给出确定性折中。"@.len() <= 500,
{
    let text = "按聚合想玩票数与稳定排序给出确定性折中。"@;
    reveal_strlit("按聚合想玩票数与稳定排序给出确定性折中。");
    reveal_strlit("<");
    reveal_strlit(">");
    reveal_strlit("javascript:");
    reveal_strlit("http://");
    reveal_strlit("https://");
    let lower = to_ascii_lower(text);
    assert forall|i: int| 0 <= i < lower.len() implies (#[trigger] lower[i]) as u32 > 127 by {
        assert(text[i] as u32 > 127);
        assert(lower[i] == ascii_lower(text[i]));
    }
    assert forall|needle: Seq<char>| needle.len() > 0 && needle[0] as u32 <= 127 implies !(
    #[trigger] occurs_in(lower, needle)) by {
        if occurs_in(lower, needle) {
            let i = choose|i: int| occurs_at(lower, needle, i);
            assert(lower.subrange(i, i + needle.len())[0] == lower[i]);
        }
    }
}

/// Whatever the candidates and the votes, the deterministic compromise is advice that a model
/// could have given: it names candidates only, each once, and cites the tally that it rests on.
pub proof fn lemma_compromise_is_acceptable(
    ids: Seq<u32>,
    votes: Seq<AppVoteCount>,
    advice: GroupAdviceResult,
)
    requires
        ids.len() > 0,
        ids.no_duplicates(),
        is_compromise(advice, ids, votes),
    ensures
        advice_fault(advice, ids, candidate_evidence(ids) + vote_evidence(votes)) is None,
{
    let t = tallies(ids, votes);
    let s = stable_sorted(t, &VoteOrder);
    let order = by_votes(ids, votes);
    lemma_sorted_rearranges(t, &VoteOrder);
    lemma_sorted_members(t, &VoteOrder);
    assert(t.no_duplicates());
    t.lemma_multiset_has_no_duplicates();
    s.lemma_multiset_has_no_duplicates_conv();
    assert forall|i: int| 0 <= i < order.len() implies ids.contains(#[trigger] order[i]) by {
        assert(s.contains(s[i]));
        assert(t.contains(s[i]));
        let k = choose|k: int| 0 <= k < t.len() && t[k] == s[i];
        assert(ids[k] == order[i]);
    }
    assert forall|i: int, j: int| 0 <= i < j < order.len() implies order[i] != order[j] by {
        assert(t.contains(s[i]) && t.contains(s[j]));
        let a = choose|a: int| 0 <= a < t.len() && t[a] == s[i];
        let b = choose|b: int| 0 <= b < t.len() && t[b] == s[j];
        if order[i] == order[j] {
            assert(ids[a] == ids[b]);
            assert(a == b);
            assert(s[i] == s[j]);
        }
    }
    let others = advice.alternatives@;
    assert forall|i: int| 0 <= i < others.len() implies others[i] == order[i + 1] by {}
    lemma_all_inside(others, ids);
    lemma_compromise_text_is_plain();
    assert(!html_or_url(Seq::<char>::empty())) by {
        reveal_strlit("<");
        reveal_strlit(">");
        reveal_strlit("javascript:");
        reveal_strlit("http://");
        reveal_strlit("https://");
        assert(to_ascii_lower(Seq::<char>::empty()).len() == 0);
    }
    let allowed = candidate_evidence(ids) + vote_evidence(votes);
    let cited = views(advice.evidence_ids@);
    assert(cited.len() == advice.evidence_ids@.len());
    if votes_for(votes, order[0]) is Some {
        let at = lemma_votes_have_a_row(votes, order[0]);
        assert(vote_evidence(votes)[at] == "vote:aggregate:"@ + decimal(order[0] as nat));
        assert(allowed[candidate_evidence(ids).len() + at] == cited[0]);
        reveal_strlit("vote:aggregate:");
        assert(vstd::arithmetic::power::pow(10, 10) == 10_000_000_000) by {
            reveal_with_fuel(vstd::arithmetic::power::pow, 11);
        }
        lemma_decimal_is_short(order[0] as nat, 10);
        assert(cited.drop_last() =~= Seq::empty());
        assert(evidence_fault(cited.drop_last(), allowed) is None);
    }
}

/// Votes for a game come from one of the rows.
proof fn lemma_votes_have_a_row(votes: Seq<AppVoteCount>, app_id: u32) -> (at: int)
    requires
        votes_for(votes, app_id) is Some,
    ensures
        0 <= at < votes.len(),
        votes[at].app_id == app_id,
    decreases votes.len(),
{
    if votes[0].app_id == app_id {
        0
    } else {
        let at = lemma_votes_have_a_row(votes.drop_first(), app_id);
        assert(votes.drop_first()[at] == votes[at + 1]);
        at + 1
    }
}

/// Identifiers that are all among the candidates leave none outside.
proof fn lemma_all_inside(ids: Seq<u32>, candidates: Seq<u32>)
    requires
        forall|i: int| 0 <= i < ids.len() ==> candidates.contains(#[trigger] ids[i]),
    ensures
        first_outside(ids, candidates) is None,
    decreases ids.len(),
{
    if ids.len() > 0 {
        assert forall|i: int| 0 <= i < ids.drop_first().len() implies candidates.contains(
            #[trigger] ids.drop_first()[i],
        ) by {
            assert(ids.drop_first()[i] == ids[i + 1]);
        }
        lemma_all_inside(ids.drop_first(), candidates);
    }
}

/// The answer to a group request.
#[derive(Debug)]
pub struct GroupAnswer {
    pub advice: Option<GroupAdviceResult>,
    pub status: AiStatus,
    pub fallback_reason: Option<String>,
}

/// The model's advice where it was accepted, and otherwise the deterministic compromise,
/// with the reason.
pub fn group_answer(
    deterministic: Option<GroupAdviceResult>,
    reply: ModelReply<GroupAdviceResult>,
) -> (r: GroupAnswer)
    ensures
        match reply {
            ModelReply::NotAdmitted { reason } => r.advice == deterministic && r.status is Fallback
                && opt_view(r.fallback_reason) == Some(reason@),
            ModelReply::Refused { reason } => r.advice == deterministic && r.status is Fallback
                && opt_view(r.fallback_reason) == Some(reason@),
            ModelReply::Failed { error, general } => r.advice == deterministic
                && r.status is Fallback && opt_view(r.fallback_reason) == Some(
                failure_reason(error, general@),
            ),
            ModelReply::Answered { content, general, model } => match content {
                Ok(advice) => r.advice == Some(advice) && r.status is Used
                    && r.fallback_reason is None,
                Err(error) => r.advice == deterministic && r.status is Fallback && opt_view(
                    r.fallback_reason,
                ) == Some(failure_reason(error, general@)),
            },
        },
{
    match reply {
        ModelReply::NotAdmitted { reason } => GroupAnswer {
            advice: deterministic,
            status: AiStatus::Fallback,
            fallback_reason: Some(reason),
        },
        ModelReply::Refused { reason } => GroupAnswer {
            advice: deterministic,
            status: AiStatus::Fallback,
            fallback_reason: Some(reason),
        },
        ModelReply::Failed { error, general } => GroupAnswer {
            advice: deterministic,
            status: AiStatus::Fallback,
            fallback_reason: Some(safe_ai_failure_reason(&error, general.as_str())),
        },
        ModelReply::Answered { content, general, model } => match content {
            Ok(advice) => GroupAnswer {
                advice: Some(advice),
                status: AiStatus::Used,
                fallback_reason: None,
            },
            Err(error) => GroupAnswer {
                advice: deterministic,
                status: AiStatus::Fallback,
                fallback_reason: Some(safe_ai_failure_reason(&error, general.as_str())),
            },
        },
    }
}

// ---------------------------------------------------------------------------
// Search
// ---------------------------------------------------------------------------

/// An acceptable search: the trimmed query and the number of results.
#[derive(Debug)]
pub struct SearchPlan {
    pub query: String,
    pub limit: usize,
}

/// Checks a natural language request: 3 to 500 characters, 3 to 10 results, 6 by default.
pub fn plan_search(query: &str, limit: Option<i64>) -> (r: Result<SearchPlan, ApiError>)
    ensures
        normalized_query(query@) is None ==> refused(
            r,
            "query must contain between 3 and 500 characters"@,
        ),
        normalized_query(query@) is Some && (limit matches Some(n) && !(3 <= n <= 10)) ==> refused(
            r,
            "limit must be between 3 and 10"@,
        ),
        normalized_query(query@) is Some && (limit matches Some(n) ==> 3 <= n <= 10) ==> (
        r matches Ok(plan) && Some(plan.query@) == normalized_query(query@) && plan.limit == (
        match limit {
            Some(n) => n as int,
            None => 6,
        })),
{
    let query = match normalized_ai_query(query) {
        Some(query) => query,
        None => return Err(invalid_argument("query must contain between 3 and 500 characters")),
    };
    let wanted: i64 = match limit {
        Some(n) => n,
        None => 6,
    };
    if wanted < 3 || wanted > 10 {
        return Err(invalid_argument("limit must be between 3 and 10"));
    }
    Ok(SearchPlan { query, limit: wanted as usize })
}

/// What is recorded of a progressive search: pending, unless the answer already settles
/// what the model contributed.
pub open spec fn recorded_status(progressive: bool, status: Seq<char>) -> Seq<char> {
    if !progressive || status == "used"@ || status == "fallback"@ || status == "disabled"@ {
        status
    } else {
        "pending"@
    }
}

/// `status` is what the base answer said of the model; none counts as a fallback.
pub fn search_row_status(progressive: bool, status: Option<&str>) -> (r: String)
    ensures
        r@ == recorded_status(
            progressive,
            match status {
                Some(text) => text@,
                None => "fallback"@,
            },
        ),
{
    let given: &str = match status {
        Some(text) => text,
        None => "fallback",
    };
    if !progressive || str_eq(given, "used") || str_eq(given, "fallback") || str_eq(
        given,
        "disabled",
    ) {
        given.to_owned()
    } else {
        "pending".to_owned()
    }
}

/// Whose cached answers a request may see.
pub open spec fn cache_scope_of(user_id: Option<Seq<char>>) -> Seq<char> {
    match user_id {
        Some(id) => "account:"@ + id,
        None => "anonymous"@,
    }
}

pub fn cache_scope(user_id: Option<&str>) -> (r: String)
    ensures
        r@ == cache_scope_of(str_view(user_id)),
{
    match user_id {
        Some(id) => join2("account:", id),
        None => "anonymous".to_owned(),
    }
}

/// Two accounts never share a cache scope, and no account has that of anonymous requests.
pub proof fn lemma_cache_scopes_are_separate(a: Option<Seq<char>>, b: Option<Seq<char>>)
    requires
        cache_scope_of(a) == cache_scope_of(b),
    ensures
        a == b,
{
    reveal_strlit("account:");
    reveal_strlit("anonymous");
    match (a, b) {
        (Some(x), Some(y)) => {
            let sx = cache_scope_of(a);
            let sy = cache_scope_of(b);
            assert(x =~= sx.skip(8));
            assert(y =~= sy.skip(8));
        },
        (Some(x), None) => {
            assert(cache_scope_of(a)[1] == 'c');
            assert(cache_scope_of(b)[1] == 'n');
        },
        (None, Some(y)) => {
            assert(cache_scope_of(b)[1] == 'c');
            assert(cache_scope_of(a)[1] == 'n');
        },
        (None, None) => {},
    }
}

/// An analysis is looked up by an identifier of at most 64 bytes that is not blank.
pub fn check_analysis_id(analysis_id: &str) -> (r: Result<(), ApiError>)
    ensures
        r is Ok <==> byte_len(analysis_id@) <= 64 && trimmed(analysis_id@).len() > 0,
        r is Err ==> refused(r, "analysis_id is invalid"@),
{
    if str_byte_len(analysis_id) > 64 || is_blank(analysis_id) {
        return Err(invalid_argument("analysis_id is invalid"));
    }
    Ok(())
}

/// The evidence that a rule-based summary cites.
pub fn summary_evidence(app_id: u32) -> (r: Result<Vec<String>, ApiError>)
    ensures
        app_id == 0 ==> refused(r, "app_id must be positive"@),
        app_id != 0 ==> (r matches Ok(ids) && views(ids@) == seq![
            "app:"@ + decimal(app_id as nat) + ":"@ + "identity"@,
            "app:"@ + decimal(app_id as nat) + ":"@ + "profile"@,
        ]),
{
    if app_id == 0 {
        return Err(invalid_argument("app_id must be positive"));
    }
    let mut ids: Vec<String> = Vec::new();
    ids.push(fact_evidence_id(app_id, "identity"));
    ids.push(fact_evidence_id(app_id, "profile"));
    assert(views(ids@) =~= seq![
        "app:"@ + decimal(app_id as nat) + ":"@ + "identity"@,
        "app:"@ + decimal(app_id as nat) + ":"@ + "profile"@,
    ]);
    Ok(ids)
}

}
