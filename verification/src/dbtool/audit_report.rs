//! What an audit comes to as a whole, what it looks at, and how it is asked for.

use vstd::prelude::*;

use crate::dbtool::audit::AuditRow;
use crate::dbtool::audit_diversity::{
    summarize_diversity, summarize_evidence, DiversityAudit, EvidenceAudit,
};
use crate::dbtool::audit_gates::{
    are_section_gates, evaluate_section_gates, GateStatus, QualityGate,
};
use crate::dbtool::audit_scores::{summarize_scores, ScoreAudit};
use crate::numbers::{
    clamp_i64, decimal, parse_u64, parsed_nat, saturating_difference, u64_decimal,
};
use crate::server::catalog::{feature_evidence_id, review_evidence_id};
use crate::server::feed::one_if;
use crate::server::intent::ModeFamily;
use crate::text::{
    is_blank, join, join2, join3, joined, list_contains, opt_view, str_eq, str_view, trimmed,
    views,
};

verus! {

// ---------------------------------------------------------------------------
// Sections, and the summary of all gates
// ---------------------------------------------------------------------------

/// The audit of a section: how many candidates got how far, and what the ranking of the rest
/// looks like.
#[derive(Debug)]
pub struct SectionAudit {
    pub section: String,
    pub funnel: CandidateFunnel,
    pub ranked: usize,
    pub scores: ScoreAudit,
    pub diversity: DiversityAudit,
    pub evidence: EvidenceAudit,
    pub quality_gates: Vec<QualityGate>,
}

/// Audits a section: its funnel and its ranked games.
pub fn audit_section(
    section: &str,
    funnel: CandidateFunnel,
    rows: &Vec<AuditRow>,
    available: &Vec<String>,
    top: usize,
) -> (r: SectionAudit)
    ensures
        r.section@ == section@,
        r.funnel == funnel,
        r.ranked == rows@.len(),
        r.scores.audits(rows@, top),
        r.diversity.audits(rows@),
        r.evidence.audits(rows@, views(available@)),
        are_section_gates(r.quality_gates@, r.scores, r.diversity, r.evidence),
{
    let scores = summarize_scores(rows, top);
    let diversity = summarize_diversity(rows);
    let evidence = summarize_evidence(rows, available);
    let quality_gates = evaluate_section_gates(&scores, &diversity, &evidence);
    SectionAudit {
        section: section.to_owned(),
        funnel,
        ranked: rows.len(),
        scores,
        diversity,
        evidence,
        quality_gates,
    }
}

#[derive(Debug)]
pub struct QualityGateFailure {
    pub section: String,
    pub gate: String,
    pub detail: String,
}

#[derive(Debug)]
pub struct QualityGateSummary {
    pub strict_compatible: bool,
    pub evaluated: usize,
    pub passed: usize,
    pub failed: usize,
    pub not_applicable: usize,
    pub failures: Vec<QualityGateFailure>,
}

/// How many of the first `n` gates have this status.
pub open spec fn with_status(gates: Seq<QualityGate>, status: GateStatus, n: int) -> nat
    decreases n,
{
    if n <= 0 {
        0
    } else {
        with_status(gates, status, n - 1) + (if gates[n - 1].status == status {
            1nat
        } else {
            0
        })
    }
}

/// How many gates of the first `n` sections have this status.
pub open spec fn total_with_status(sections: Seq<SectionAudit>, status: GateStatus, n: int) -> nat
    decreases n,
{
    if n <= 0 {
        0
    } else {
        let gates = sections[n - 1].quality_gates@;
        total_with_status(sections, status, n - 1) + with_status(
            gates,
            status,
            gates.len() as int,
        )
    }
}

/// How many gates the first `n` sections have.
pub open spec fn gate_count(sections: Seq<SectionAudit>, n: int) -> nat
    decreases n,
{
    if n <= 0 {
        0
    } else {
        gate_count(sections, n - 1) + sections[n - 1].quality_gates@.len()
    }
}

/// The failure as a value: section, gate and detail.
pub open spec fn failure_view(failure: QualityGateFailure) -> (Seq<char>, Seq<char>, Seq<char>) {
    (failure.section@, failure.gate@, failure.detail@)
}

pub open spec fn failure_views(list: Seq<QualityGateFailure>) -> Seq<
    (Seq<char>, Seq<char>, Seq<char>),
> {
    list.map_values(|failure: QualityGateFailure| failure_view(failure))
}

/// The failures among the first `n` gates of a section.
pub open spec fn failures_of(section: SectionAudit, n: int) -> Seq<
    (Seq<char>, Seq<char>, Seq<char>),
>
    decreases n,
{
    if n <= 0 {
        Seq::empty()
    } else {
        let front = failures_of(section, n - 1);
        let gate = section.quality_gates@[n - 1];
        if gate.status is Fail {
            front.push((section.section@, gate.name@, gate.detail@))
        } else {
            front
        }
    }
}

/// The failures of the first `n` sections.
pub open spec fn all_failures(sections: Seq<SectionAudit>, n: int) -> Seq<
    (Seq<char>, Seq<char>, Seq<char>),
>
    decreases n,
{
    if n <= 0 {
        Seq::empty()
    } else {
        all_failures(sections, n - 1) + failures_of(
            sections[n - 1],
            sections[n - 1].quality_gates@.len() as int,
        )
    }
}

proof fn lemma_statuses_add_up(gates: Seq<QualityGate>, n: int)
    requires
        0 <= n <= gates.len(),
    ensures
        with_status(gates, GateStatus::Pass, n) + with_status(gates, GateStatus::Fail, n)
            + with_status(gates, GateStatus::NotApplicable, n) == n,
    decreases n,
{
    if n > 0 {
        lemma_statuses_add_up(gates, n - 1);
    }
}

/// Every gate is counted once: what was evaluated and what was not applicable make up all
/// the gates, and there are as many failures listed as were counted.
pub proof fn lemma_gate_counts_add_up(sections: Seq<SectionAudit>, n: int)
    requires
        0 <= n <= sections.len(),
    ensures
        total_with_status(sections, GateStatus::Pass, n) + total_with_status(
            sections,
            GateStatus::Fail,
            n,
        ) + total_with_status(sections, GateStatus::NotApplicable, n) == gate_count(sections, n),
        all_failures(sections, n).len() == total_with_status(sections, GateStatus::Fail, n),
    decreases n,
{
    if n > 0 {
        lemma_gate_counts_add_up(sections, n - 1);
        let gates = sections[n - 1].quality_gates@;
        lemma_statuses_add_up(gates, gates.len() as int);
        lemma_failures_counted(sections[n - 1], gates.len() as int);
    }
}

proof fn lemma_failures_counted(section: SectionAudit, n: int)
    requires
        0 <= n <= section.quality_gates@.len(),
    ensures
        failures_of(section, n).len() == with_status(
            section.quality_gates@,
            GateStatus::Fail,
            n,
        ),
    decreases n,
{
    if n > 0 {
        lemma_failures_counted(section, n - 1);
    }
}

proof fn lemma_gate_count_grows(sections: Seq<SectionAudit>, n: int)
    requires
        0 <= n < sections.len(),
    ensures
        gate_count(sections, n + 1) <= gate_count(sections, sections.len() as int),
    decreases sections.len() - n,
{
    if n + 1 < sections.len() {
        lemma_gate_count_grows(sections, n + 1);
    }
}

pub fn summarize_quality_gates(sections: &Vec<SectionAudit>) -> (r: QualityGateSummary)
    requires
        gate_count(sections@, sections@.len() as int) <= usize::MAX,
    ensures
        ({
            let n = sections@.len() as int;
            &&& r.passed == total_with_status(sections@, GateStatus::Pass, n)
            &&& r.failed == total_with_status(sections@, GateStatus::Fail, n)
            &&& r.not_applicable == total_with_status(sections@, GateStatus::NotApplicable, n)
            &&& r.evaluated == r.passed + r.failed
            &&& r.strict_compatible == (r.failed == 0)
            &&& failure_views(r.failures@) == all_failures(sections@, n)
            &&& r.failures@.len() == r.failed
        }),
{
    let mut passed: usize = 0;
    let mut failed: usize = 0;
    let mut not_applicable: usize = 0;
    let mut failures: Vec<QualityGateFailure> = Vec::new();
    let mut i: usize = 0;
    assert(failure_views(failures@) =~= Seq::empty());
    while i < sections.len()
        invariant
            0 <= i <= sections@.len(),
            gate_count(sections@, sections@.len() as int) <= usize::MAX,
            passed == total_with_status(sections@, GateStatus::Pass, i as int),
            failed == total_with_status(sections@, GateStatus::Fail, i as int),
            not_applicable == total_with_status(sections@, GateStatus::NotApplicable, i as int),
            failure_views(failures@) == all_failures(sections@, i as int),
        decreases sections@.len() - i,
    {
        let section = &sections[i];
        let gates = &section.quality_gates;
        let ghost (p, f, na) = (passed, failed, not_applicable);
        let ghost before = failure_views(failures@);
        proof {
            lemma_gate_counts_add_up(sections@, i as int);
            lemma_gate_count_grows(sections@, i as int);
            assert(before + failures_of(*section, 0) =~= before);
        }
        let mut j: usize = 0;
        while j < gates.len()
            invariant
                0 <= j <= gates@.len(),
                *gates == section.quality_gates,
                p + f + na + gates@.len() <= usize::MAX,
                passed == p + with_status(gates@, GateStatus::Pass, j as int),
                failed == f + with_status(gates@, GateStatus::Fail, j as int),
                not_applicable == na + with_status(gates@, GateStatus::NotApplicable, j as int),
                failure_views(failures@) == before + failures_of(*section, j as int),
            decreases gates@.len() - j,
        {
            proof {
                lemma_statuses_add_up(gates@, j as int);
                lemma_statuses_add_up(gates@, j + 1);
            }
            match gates[j].status {
                GateStatus::Pass => {
                    passed = passed + 1;
                },
                GateStatus::Fail => {
                    failed = failed + 1;
                    let failure = QualityGateFailure {
                        section: section.section.clone(),
                        gate: gates[j].name.to_owned(),
                        detail: gates[j].detail.clone(),
                    };
                    proof {
                        let front = failures_of(*section, j as int);
                        assert(failure_views(failures@.push(failure)) =~= failure_views(
                            failures@,
                        ).push(failure_view(failure)));
                        assert((before + front).push(failure_view(failure)) =~= before
                            + front.push(failure_view(failure)));
                    }
                    failures.push(failure);
                },
                GateStatus::NotApplicable => {
                    not_applicable = not_applicable + 1;
                },
            }
            j = j + 1;
        }
        i = i + 1;
    }
    proof {
        lemma_gate_counts_add_up(sections@, sections@.len() as int);
        assert(failure_views(failures@).len() == failures@.len());
    }
    QualityGateSummary {
        strict_compatible: failed == 0,
        evaluated: passed + failed,
        passed,
        failed,
        not_applicable,
        failures,
    }
}

/// `section/gate (detail)` of each failure.
pub open spec fn failure_texts(list: Seq<QualityGateFailure>) -> Seq<Seq<char>> {
    list.map_values(
        |f: QualityGateFailure| f.section@ + "/"@ + f.gate@ + " ("@ + f.detail@ + ")"@,
    )
}

/// What a strict audit that failed says.
pub open spec fn failure_message(summary: QualityGateSummary) -> Seq<char> {
    "recommendation audit failed "@ + decimal(summary.failed as nat)
        + " deterministic quality gate(s): "@ + joined(failure_texts(summary.failures@), "; "@)
}

pub fn strict_failure_message(summary: &QualityGateSummary) -> (r: String)
    ensures
        r@ == failure_message(*summary),
{
    let mut texts: Vec<String> = Vec::new();
    let mut i: usize = 0;
    while i < summary.failures.len()
        invariant
            0 <= i <= summary.failures@.len(),
            texts@.len() == i,
            forall|j: int|
                0 <= j < i ==> (#[trigger] texts@[j])@ == failure_texts(summary.failures@)[j],
        decreases summary.failures@.len() - i,
    {
        let failure = &summary.failures[i];
        let mut text = failure.section.clone();
        text.append("/");
        text.append(failure.gate.as_str());
        text.append(" (");
        text.append(failure.detail.as_str());
        text.append(")");
        texts.push(text);
        i = i + 1;
    }
    assert(views(texts@) =~= failure_texts(summary.failures@));
    let mut message = "recommendation audit failed ".to_owned();
    message.append(u64_decimal(summary.failed as u64).as_str());
    message.append(" deterministic quality gate(s): ");
    message.append(join(&texts, "; ").as_str());
    message
}

/// A strict audit fails where a gate does.
pub fn strict_verdict(strict: bool, summary: &QualityGateSummary) -> (r: Result<(), String>)
    ensures
        r is Err <==> strict && summary.failed > 0,
        r matches Err(message) ==> message@ == failure_message(*summary),
{
    if strict && summary.failed > 0 {
        Err(strict_failure_message(summary))
    } else {
        Ok(())
    }
}

// ---------------------------------------------------------------------------
// What is looked at
// ---------------------------------------------------------------------------

/// What decides whether a candidate is ranked.
#[derive(Debug)]
pub struct FunnelFacts {
    pub section_matches: bool,
    pub feedback: Option<String>,
    pub passes_hard_filter: bool,
}

pub open spec fn is_dismissed(feedback: Option<Seq<char>>) -> bool {
    feedback == Some("not_interested"@) || feedback == Some("party_size_mismatch"@)
}

/// How many candidates are left after each step.
#[derive(Debug)]
pub struct CandidateFunnel {
    pub queried: usize,
    pub section_eligible: usize,
    pub feedback_eligible: usize,
    pub hard_filter_eligible: usize,
}

pub open spec fn reaches_feedback(facts: FunnelFacts) -> bool {
    facts.section_matches && !is_dismissed(opt_view(facts.feedback))
}

pub open spec fn reaches_ranking(facts: FunnelFacts) -> bool {
    reaches_feedback(facts) && facts.passes_hard_filter
}

/// How many of the first `n` candidates pass each step: section, feedback, hard filter.
pub open spec fn funnel_before(rows: Seq<FunnelFacts>, n: int) -> (nat, nat, nat)
    decreases n,
{
    if n <= 0 {
        (0, 0, 0)
    } else {
        let (a, b, c) = funnel_before(rows, n - 1);
        let row = rows[n - 1];
        (
            a + one_if(row.section_matches) as nat,
            b + one_if(reaches_feedback(row)) as nat,
            c + one_if(reaches_ranking(row)) as nat,
        )
    }
}

/// The positions of those of the first `n` candidates that are ranked.
pub open spec fn ranked_before(rows: Seq<FunnelFacts>, n: int) -> Seq<usize>
    decreases n,
{
    if n <= 0 {
        Seq::empty()
    } else {
        let front = ranked_before(rows, n - 1);
        if reaches_ranking(rows[n - 1]) {
            front.push((n - 1) as usize)
        } else {
            front
        }
    }
}

/// Counts the candidates that are left after each step, and tells which ones are ranked.
pub fn run_funnel(rows: &Vec<FunnelFacts>) -> (r: (CandidateFunnel, Vec<usize>))
    ensures
        r.0.queried == rows@.len(),
        (
            r.0.section_eligible as nat,
            r.0.feedback_eligible as nat,
            r.0.hard_filter_eligible as nat,
        ) == funnel_before(rows@, rows@.len() as int),
        r.1@ == ranked_before(rows@, rows@.len() as int),
        r.0.hard_filter_eligible <= r.0.feedback_eligible <= r.0.section_eligible <= r.0.queried,
{
    let mut section_eligible: usize = 0;
    let mut feedback_eligible: usize = 0;
    let mut hard_filter_eligible: usize = 0;
    let mut ranked: Vec<usize> = Vec::new();
    let mut i: usize = 0;
    while i < rows.len()
        invariant
            0 <= i <= rows@.len(),
            hard_filter_eligible <= feedback_eligible <= section_eligible <= i,
            (section_eligible as nat, feedback_eligible as nat, hard_filter_eligible as nat)
                == funnel_before(rows@, i as int),
            ranked@ == ranked_before(rows@, i as int),
        decreases rows@.len() - i,
    {
        let dismissed = match &rows[i].feedback {
            Some(kind) => str_eq(kind.as_str(), "not_interested") || str_eq(
                kind.as_str(),
                "party_size_mismatch",
            ),
            None => false,
        };
        assert(dismissed == is_dismissed(opt_view(rows@[i as int].feedback)));
        if rows[i].section_matches {
            section_eligible = section_eligible + 1;
            if !dismissed {
                feedback_eligible = feedback_eligible + 1;
                if rows[i].passes_hard_filter {
                    hard_filter_eligible = hard_filter_eligible + 1;
                    ranked.push(i);
                }
            }
        }
        i = i + 1;
    }
    (
        CandidateFunnel {
            queried: rows.len(),
            section_eligible,
            feedback_eligible,
            hard_filter_eligible,
        },
        ranked,
    )
}

/// What is recorded of a candidate, as far as it counts as a feature.
#[derive(Debug, Clone, Copy, PartialEq, Eq, Structural)]
pub struct RecordedFeatures {
    pub total_reviews: Option<u32>,
    pub total_positive: Option<u32>,
    pub latest_ccu: Option<u32>,
    pub typical_ccu_7d: Option<u32>,
    pub has_release_date: bool,
    pub mode_family: Option<ModeFamily>,
    pub has_multiplayer_field: bool,
    pub has_demo: bool,
}

/// Reviews, activity, release date, something known about multiplayer, demo: one each.
/// `has_multiplayer_field` tells whether any of the single multiplayer fields is recorded.
pub fn effective_feature_count(row: &RecordedFeatures) -> (r: usize)
    ensures
        r == one_if(
            row.total_reviews is Some && row.total_reviews->0 > 0 && row.total_positive is Some,
        ) + one_if(row.latest_ccu is Some || row.typical_ccu_7d is Some) + one_if(
            row.has_release_date,
        ) + one_if(
            (row.mode_family is Some && row.mode_family != Some(ModeFamily::Unknown))
                || row.has_multiplayer_field,
        ) + one_if(row.has_demo),
{
    let mut count: usize = 0;
    let reviewed = match row.total_reviews {
        Some(total) => total > 0 && row.total_positive.is_some(),
        None => false,
    };
    if reviewed {
        count = count + 1;
    }
    if row.latest_ccu.is_some() || row.typical_ccu_7d.is_some() {
        count = count + 1;
    }
    if row.has_release_date {
        count = count + 1;
    }
    let known_mode = match row.mode_family {
        Some(ModeFamily::Unknown) => false,
        Some(_) => true,
        None => false,
    };
    if known_mode || row.has_multiplayer_field {
        count = count + 1;
    }
    if row.has_demo {
        count = count + 1;
    }
    count
}

/// The list with a text added, unless it has it already.
pub open spec fn with_text(list: Seq<Seq<char>>, text: Seq<char>) -> Seq<Seq<char>> {
    if list.contains(text) {
        list
    } else {
        list.push(text)
    }
}

fn add_text(ids: &mut Vec<String>, id: String)
    ensures
        views(final(ids)@) == with_text(views(old(ids)@), id@),
{
    if !list_contains(ids, id.as_str()) {
        proof {
            assert(views(ids@.push(id)) =~= views(ids@).push(id@));
        }
        ids.push(id);
    }
}

fn add_feature(ids: &mut Vec<String>, feature: &str, app_id: u32)
    ensures
        views(final(ids)@) == with_text(
            views(old(ids)@),
            feature_evidence_id(feature@, app_id),
        ),
{
    let mut id = "feature:".to_owned();
    id.append(feature);
    id.append(":");
    id.append(u64_decimal(app_id as u64).as_str());
    add_text(ids, id);
}

/// The identifiers with those of what can be computed from a profile added.
pub open spec fn with_computed(
    ids: Seq<Seq<char>>,
    app_id: u32,
    mode: Option<ModeFamily>,
    service_status: Option<Seq<char>>,
) -> Seq<Seq<char>> {
    let by_mode = match mode {
        Some(ModeFamily::MatchmadePvp) => with_text(
            ids,
            feature_evidence_id("matchmaking_core"@, app_id),
        ),
        Some(ModeFamily::PublicWorld) => with_text(
            ids,
            feature_evidence_id("public_world_dependency"@, app_id),
        ),
        _ => ids,
    };
    if service_status is Some && trimmed(service_status->0).len() > 0 {
        with_text(by_mode, feature_evidence_id("service_shutdown_risk"@, app_id))
    } else {
        by_mode
    }
}

pub fn add_computed_profile_evidence_ids(
    ids: &mut Vec<String>,
    app_id: u32,
    dominant_mode: Option<ModeFamily>,
    service_status: Option<&str>,
)
    ensures
        views(final(ids)@) == with_computed(
            views(old(ids)@),
            app_id,
            dominant_mode,
            str_view(service_status),
        ),
{
    match dominant_mode {
        Some(ModeFamily::MatchmadePvp) => {
            add_feature(ids, "matchmaking_core", app_id);
        },
        Some(ModeFamily::PublicWorld) => {
            add_feature(ids, "public_world_dependency", app_id);
        },
        _ => {},
    }
    match service_status {
        Some(status) => {
            if !is_blank(status) {
                add_feature(ids, "service_shutdown_risk", app_id);
            }
        },
        None => {},
    }
}

/// A feature that evidence is stored for.
#[derive(Debug)]
pub struct StoredFeature {
    pub app_id: u32,
    pub feature: String,
}

/// What the evidence that can be computed depends on.
#[derive(Debug)]
pub struct ProfileFacts {
    pub app_id: u32,
    pub dominant_mode: Option<ModeFamily>,
    pub service_status: Option<String>,
}

/// The identifiers of the first `n` stored features.
pub open spec fn with_stored(features: Seq<StoredFeature>, n: int) -> Seq<Seq<char>>
    decreases n,
{
    if n <= 0 {
        Seq::empty()
    } else {
        let feature = features[n - 1];
        with_text(
            with_stored(features, n - 1),
            feature_evidence_id(feature.feature@, feature.app_id),
        )
    }
}

/// The identifiers with those that the first `n` profiles give.
pub open spec fn with_profiles(
    ids: Seq<Seq<char>>,
    profiles: Seq<ProfileFacts>,
    n: int,
) -> Seq<Seq<char>>
    decreases n,
{
    if n <= 0 {
        ids
    } else {
        let profile = profiles[n - 1];
        with_computed(
            with_profiles(ids, profiles, n - 1),
            profile.app_id,
            profile.dominant_mode,
            opt_view(profile.service_status),
        )
    }
}

/// The identifiers with those of the reviews of the first `n` games.
pub open spec fn with_reviews(ids: Seq<Seq<char>>, reviewed: Seq<u32>, n: int) -> Seq<Seq<char>>
    decreases n,
{
    if n <= 0 {
        ids
    } else {
        with_text(with_reviews(ids, reviewed, n - 1), review_evidence_id(reviewed[n - 1]))
    }
}

/// All the evidence that can be looked up: what is stored, what can be computed from the
/// profiles, and the reviews.
pub fn resolvable_evidence_ids(
    features: &Vec<StoredFeature>,
    profiles: &Vec<ProfileFacts>,
    reviewed: &Vec<u32>,
) -> (r: Vec<String>)
    ensures
        views(r@) == with_reviews(
            with_profiles(
                with_stored(features@, features@.len() as int),
                profiles@,
                profiles@.len() as int,
            ),
            reviewed@,
            reviewed@.len() as int,
        ),
{
    let mut ids: Vec<String> = Vec::new();
    let mut i: usize = 0;
    assert(views(ids@) =~= Seq::empty());
    while i < features.len()
        invariant
            0 <= i <= features@.len(),
            views(ids@) == with_stored(features@, i as int),
        decreases features@.len() - i,
    {
        add_feature(&mut ids, features[i].feature.as_str(), features[i].app_id);
        i = i + 1;
    }
    let ghost stored = views(ids@);
    let mut j: usize = 0;
    while j < profiles.len()
        invariant
            0 <= j <= profiles@.len(),
            views(ids@) == with_profiles(stored, profiles@, j as int),
        decreases profiles@.len() - j,
    {
        let status: Option<&str> = match &profiles[j].service_status {
            Some(text) => Some(text.as_str()),
            None => None,
        };
        add_computed_profile_evidence_ids(
            &mut ids,
            profiles[j].app_id,
            profiles[j].dominant_mode,
            status,
        );
        j = j + 1;
    }
    let ghost profiled = views(ids@);
    let mut k: usize = 0;
    while k < reviewed.len()
        invariant
            0 <= k <= reviewed@.len(),
            views(ids@) == with_reviews(profiled, reviewed@, k as int),
        decreases reviewed@.len() - k,
    {
        let id = join3("review:", u64_decimal(reviewed[k] as u64).as_str(), ":summary");
        add_text(&mut ids, id);
        k = k + 1;
    }
    ids
}

/// The day, in days since the epoch, from which on a game is recent.
pub fn cutoff_days(as_of_days: Option<i64>, recent_days: u32) -> (r: Result<i64, String>)
    ensures
        match as_of_days {
            Some(today) => r matches Ok(days) && days == clamp_i64(today - recent_days),
            None => r matches Err(message) && message@ == "invalid --as-of date"@,
        },
{
    match as_of_days {
        Some(today) => Ok(saturating_difference(today, recent_days as i64)),
        None => Err("invalid --as-of date".to_owned()),
    }
}

// ---------------------------------------------------------------------------
// The command line
// ---------------------------------------------------------------------------

pub const DEFAULT_TOP: usize = 20;

pub const AUDIT_USAGE: &'static str =
    "recommendation-audit <db-path> --as-of YYYY-MM-DD [--user-id ID] [--top N] [--json] [--strict]";

#[derive(Debug)]
pub struct AuditOptions {
    pub db_path: String,
    pub as_of: Option<String>,
    pub user_id: Option<String>,
    pub top: usize,
    pub json: bool,
    pub strict: bool,
}

/// The options, as values.
pub ghost struct OptionsView {
    pub db_path: Seq<char>,
    pub as_of: Option<Seq<char>>,
    pub user_id: Option<Seq<char>>,
    pub top: int,
    pub json: bool,
    pub strict: bool,
}

impl AuditOptions {
    pub open spec fn view_options(self) -> OptionsView {
        OptionsView {
            db_path: self.db_path@,
            as_of: opt_view(self.as_of),
            user_id: opt_view(self.user_id),
            top: self.top as int,
            json: self.json,
            strict: self.strict,
        }
    }
}

/// What the arguments from `k` on make of options, or what is wrong with them.
pub open spec fn read_options(args: Seq<Seq<char>>, k: int, options: OptionsView) -> Result<
    OptionsView,
    Seq<char>,
>
    decreases args.len() - k,
{
    if k >= args.len() {
        Ok(options)
    } else if args[k] == "--as-of"@ {
        if k + 1 >= args.len() {
            Err("--as-of requires YYYY-MM-DD"@)
        } else {
            read_options(args, k + 2, OptionsView { as_of: Some(args[k + 1]), ..options })
        }
    } else if args[k] == "--user-id"@ {
        if k + 1 >= args.len() {
            Err("--user-id requires a value"@)
        } else if trimmed(args[k + 1]).len() == 0 {
            Err("--user-id must not be empty"@)
        } else {
            read_options(args, k + 2, OptionsView { user_id: Some(args[k + 1]), ..options })
        }
    } else if args[k] == "--top"@ {
        if k + 1 >= args.len() {
            Err("--top requires an integer"@)
        } else {
            match parsed_nat(args[k + 1], usize::MAX as nat) {
                None => Err("--top must be an integer"@),
                Some(top) => if 1 <= top <= 100 {
                    read_options(args, k + 2, OptionsView { top: top as int, ..options })
                } else {
                    Err("--top must be between 1 and 100"@)
                },
            }
        }
    } else if args[k] == "--json"@ {
        read_options(args, k + 1, OptionsView { json: true, ..options })
    } else if args[k] == "--strict"@ {
        read_options(args, k + 1, OptionsView { strict: true, ..options })
    } else {
        Err("unknown recommendation-audit option: "@ + args[k])
    }
}

/// The options of an audit of which nothing but the database is said.
pub open spec fn default_options(db_path: Seq<char>) -> OptionsView {
    OptionsView { db_path, as_of: None, user_id: None, top: 20, json: false, strict: false }
}

/// The options as they were read.
pub open spec fn reads(r: Result<AuditOptions, String>, expected: Result<OptionsView, Seq<char>>) -> bool {
    match expected {
        Ok(options) => r matches Ok(read) && read.view_options() == options,
        Err(message) => r matches Err(text) && text@ == message,
    }
}

pub fn parse_options(args: &Vec<String>) -> (r: Result<AuditOptions, String>)
    ensures
        args@.len() == 0 ==> (r matches Err(message) && message@ == AUDIT_USAGE@),
        args@.len() > 0 ==> reads(r, read_options(views(args@), 1, default_options(args@[0]@))),
{
    let n: usize = args.len();
    if n == 0 {
        return Err(AUDIT_USAGE.to_owned());
    }
    let ghost texts = views(args@);
    let mut options = AuditOptions {
        db_path: args[0].clone(),
        as_of: None,
        user_id: None,
        top: DEFAULT_TOP,
        json: false,
        strict: false,
    };
    let mut k: usize = 1;
    while k < n
        invariant
            1 <= k <= n == args@.len(),
            texts == views(args@),
            read_options(texts, 1, default_options(args@[0]@)) == read_options(
                texts,
                k as int,
                options.view_options(),
            ),
        decreases n - k,
    {
        let arg = args[k].as_str();
        assert(texts[k as int] == arg@);
        if str_eq(arg, "--json") {
            options.json = true;
            k = k + 1;
            proof {
                lemma_option_names();
            }
        } else if str_eq(arg, "--strict") {
            options.strict = true;
            k = k + 1;
            proof {
                lemma_option_names();
            }
        } else if str_eq(arg, "--as-of") || str_eq(arg, "--user-id") || str_eq(arg, "--top") {
            let has_value = n - k > 1;
            if str_eq(arg, "--as-of") {
                if !has_value {
                    return Err("--as-of requires YYYY-MM-DD".to_owned());
                }
                assert(texts[k + 1] == args@[k + 1]@);
                options.as_of = Some(args[k + 1].clone());
            } else if str_eq(arg, "--user-id") {
                if !has_value {
                    return Err("--user-id requires a value".to_owned());
                }
                assert(texts[k + 1] == args@[k + 1]@);
                if is_blank(args[k + 1].as_str()) {
                    return Err("--user-id must not be empty".to_owned());
                }
                options.user_id = Some(args[k + 1].clone());
            } else {
                if !has_value {
                    return Err("--top requires an integer".to_owned());
                }
                assert(texts[k + 1] == args@[k + 1]@);
                match parse_u64(args[k + 1].as_str(), usize::MAX as u64) {
                    None => return Err("--top must be an integer".to_owned()),
                    Some(top) => {
                        if top < 1 || top > 100 {
                            return Err("--top must be between 1 and 100".to_owned());
                        }
                        options.top = top as usize;
                    },
                }
            }
            k = k + 2;
        } else {
            return Err(join2("unknown recommendation-audit option: ", arg));
        }
    }
    Ok(options)
}

proof fn lemma_option_names()
    ensures
        "--json"@ != "--as-of"@,
        "--json"@ != "--user-id"@,
        "--json"@ != "--top"@,
        "--json"@ != "--strict"@,
        "--strict"@ != "--as-of"@,
        "--strict"@ != "--user-id"@,
        "--strict"@ != "--top"@,
{
    reveal_strlit("--json");
    reveal_strlit("--strict");
    reveal_strlit("--as-of");
    reveal_strlit("--user-id");
    reveal_strlit("--top");
    assert("--json"@[2] == 'j');
    assert("--strict"@[2] == 's');
    assert("--as-of"@[2] == 'a');
    assert("--user-id"@[2] == 'u');
    assert("--top"@[2] == 't');
}

/// The day of an audit, which has to be given. `is_day` tells whether a text that was given
/// is a day of the calendar.
pub fn audit_day(options: &AuditOptions, is_day: bool) -> (r: Result<String, String>)
    ensures
        match options.as_of {
            None => r matches Err(message) && message@ == "--as-of YYYY-MM-DD is required"@,
            Some(day) => if is_day {
                r matches Ok(text) && text@ == day@
            } else {
                r matches Err(message) && message@
                    == "--as-of must be a valid YYYY-MM-DD calendar date"@
            },
        },
{
    match &options.as_of {
        None => Err("--as-of YYYY-MM-DD is required".to_owned()),
        Some(day) => {
            if is_day {
                Ok(day.clone())
            } else {
                Err("--as-of must be a valid YYYY-MM-DD calendar date".to_owned())
            }
        },
    }
}

} // verus!
