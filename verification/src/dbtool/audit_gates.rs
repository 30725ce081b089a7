//! The quality gates of an audit.

use vstd::prelude::*;

use crate::dbtool::audit::QUALITY_GATE_TOP;
use crate::dbtool::audit_diversity::{DiversityAudit, EvidenceAudit};
use crate::dbtool::audit_scores::ScoreAudit;
use crate::dbtool::tally::tie_size;
use crate::numbers::{decimal, u64_decimal};
use crate::text::{join, joined, views};

verus! {

pub const MIN_DISTINCT_TOP_EVIDENCE_VECTORS: usize = 12;

pub const MIN_TOP_DISTINCT_INDICES: usize = 12;

pub const MAX_TOP_CROSS_VECTOR_EXACT_TIE: usize = 2;

#[derive(Debug, Clone, Copy, PartialEq, Eq, Structural)]
pub enum GateStatus {
    Pass,
    Fail,
    NotApplicable,
}

pub open spec fn gate_status_text(status: GateStatus) -> Seq<char> {
    match status {
        GateStatus::Pass => "pass"@,
        GateStatus::Fail => "fail"@,
        GateStatus::NotApplicable => "not_applicable"@,
    }
}

pub fn gate_status_str(status: GateStatus) -> (r: &'static str)
    ensures
        r@ == gate_status_text(status),
{
    match status {
        GateStatus::Pass => "pass",
        GateStatus::Fail => "fail",
        GateStatus::NotApplicable => "not_applicable",
    }
}

/// A figure as a fraction of two counts.
#[derive(Debug, Clone, Copy, PartialEq, Eq, Structural)]
pub struct Fraction {
    pub part: usize,
    pub whole: usize,
}

#[derive(Debug)]
pub struct QualityGate {
    pub name: &'static str,
    pub status: GateStatus,
    pub observed: Option<Fraction>,
    pub requirement: &'static str,
    pub detail: String,
}

/// A gate that does not apply says nothing, whatever was observed.
pub open spec fn status_of(applicable: bool, passed: bool) -> GateStatus {
    if !applicable {
        GateStatus::NotApplicable
    } else if passed {
        GateStatus::Pass
    } else {
        GateStatus::Fail
    }
}

impl QualityGate {
    pub open spec fn says(
        self,
        name: Seq<char>,
        applicable: bool,
        passed: bool,
        observed: Option<Fraction>,
        requirement: Seq<char>,
        detail: Seq<char>,
    ) -> bool {
        &&& self.name@ == name
        &&& self.status == status_of(applicable, passed)
        &&& self.observed == (if applicable {
            observed
        } else {
            None
        })
        &&& self.requirement@ == requirement
        &&& self.detail@ == detail
    }
}

fn gate(
    name: &'static str,
    applicable: bool,
    passed: bool,
    observed: Option<Fraction>,
    requirement: &'static str,
    detail: String,
) -> (r: QualityGate)
    ensures
        r.says(name@, applicable, passed, observed, requirement@, detail@),
{
    let status = if !applicable {
        GateStatus::NotApplicable
    } else if passed {
        GateStatus::Pass
    } else {
        GateStatus::Fail
    };
    let observed = if applicable {
        observed
    } else {
        None
    };
    QualityGate { name, status, observed, requirement, detail }
}

// ---------------------------------------------------------------------------
// The gates of a section
// ---------------------------------------------------------------------------

/// `label` and a count.
pub open spec fn labelled(label: Seq<char>, count: usize) -> Seq<char> {
    label + decimal(count as nat)
}

fn append_count(out: &mut String, label: &str, count: usize)
    ensures
        final(out)@ == old(out)@ + labelled(label@, count),
{
    out.append(label);
    out.append(u64_decimal(count as u64).as_str());
    assert(out@ =~= old(out)@ + labelled(label@, count));
}

pub open spec fn full_top20(scores: ScoreAudit) -> bool {
    scores.quality_top20_recommendation_index.top_count == QUALITY_GATE_TOP
}

pub open spec fn distinct_evidence(scores: ScoreAudit) -> bool {
    scores.top20_distinct_visible_evidence_vectors >= MIN_DISTINCT_TOP_EVIDENCE_VECTORS
}

pub open spec fn index_gate_applies(scores: ScoreAudit) -> bool {
    full_top20(scores) && distinct_evidence(scores)
        && scores.quality_top20_recommendation_index.top_visible_count >= MIN_TOP_DISTINCT_INDICES
}

/// No more than one score in a hundred is shown as another number than it is.
pub open spec fn is_clamp_gate(g: QualityGate, scores: ScoreAudit) -> bool {
    g.says(
        "clamp_rate"@,
        scores.recommendation_index.pool_size > 0,
        scores.clamp_count * 100 <= scores.count,
        Some(Fraction { part: scores.clamp_count, whole: scores.count }),
        "<= 0.01"@,
        decimal(scores.clamp_count as nat) + labelled(
            " of "@,
            scores.recommendation_index.pool_size,
        ) + " ranked scores are clamped"@,
    )
}

fn clamp_gate(scores: &ScoreAudit) -> (r: QualityGate)
    ensures
        is_clamp_gate(r, *scores),
{
    let mut detail = u64_decimal(scores.clamp_count as u64);
    append_count(&mut detail, " of ", scores.recommendation_index.pool_size);
    detail.append(" ranked scores are clamped");
    gate(
        "clamp_rate",
        scores.recommendation_index.pool_size > 0,
        scores.clamp_count as u128 * 100 <= scores.count as u128,
        Some(Fraction { part: scores.clamp_count, whole: scores.count }),
        "<= 0.01",
        detail,
    )
}

/// Among twenty games with different evidence, twelve have indices of their own.
pub open spec fn is_distinct_gate(g: QualityGate, scores: ScoreAudit) -> bool {
    let top = scores.quality_top20_recommendation_index;
    g.says(
        "top20_distinct_recommendation_indices"@,
        index_gate_applies(scores),
        top.top_distinct_indices >= MIN_TOP_DISTINCT_INDICES,
        Some(Fraction { part: top.top_distinct_indices, whole: 1 }),
        ">= 12 when Top20 has >=12 distinct effective evidence vectors and >=12 visible indices"@,
        labelled("visible="@, top.top_visible_count) + labelled(
            ", distinct_vectors="@,
            scores.top20_distinct_evidence_vectors,
        ) + labelled(
            ", distinct_visible_vectors="@,
            scores.top20_distinct_visible_evidence_vectors,
        ) + labelled(", distinct_indices="@, top.top_distinct_indices),
    )
}

fn applies_to_indices(scores: &ScoreAudit) -> (r: bool)
    ensures
        r == index_gate_applies(*scores),
{
    scores.quality_top20_recommendation_index.top_count == QUALITY_GATE_TOP
        && scores.top20_distinct_visible_evidence_vectors >= MIN_DISTINCT_TOP_EVIDENCE_VECTORS
        && scores.quality_top20_recommendation_index.top_visible_count >= MIN_TOP_DISTINCT_INDICES
}

fn distinct_gate(scores: &ScoreAudit) -> (r: QualityGate)
    ensures
        is_distinct_gate(r, *scores),
{
    let top = &scores.quality_top20_recommendation_index;
    let mut detail = String::new();
    append_count(&mut detail, "visible=", top.top_visible_count);
    append_count(&mut detail, ", distinct_vectors=", scores.top20_distinct_evidence_vectors);
    append_count(
        &mut detail,
        ", distinct_visible_vectors=",
        scores.top20_distinct_visible_evidence_vectors,
    );
    append_count(&mut detail, ", distinct_indices=", top.top_distinct_indices);
    proof {
        assert(Seq::<char>::empty() + labelled("visible="@, top.top_visible_count) =~= labelled(
            "visible="@,
            top.top_visible_count,
        ));
    }
    gate(
        "top20_distinct_recommendation_indices",
        applies_to_indices(scores),
        top.top_distinct_indices >= MIN_TOP_DISTINCT_INDICES,
        Some(Fraction { part: top.top_distinct_indices, whole: 1 }),
        ">= 12 when Top20 has >=12 distinct effective evidence vectors and >=12 visible indices",
        detail,
    )
}

/// No index is shown by more than one fifth of the games that show one.
pub open spec fn is_bucket_gate(g: QualityGate, scores: ScoreAudit) -> bool {
    let top = scores.quality_top20_recommendation_index;
    g.says(
        "top20_largest_recommendation_index_bucket_share"@,
        index_gate_applies(scores),
        top.top_largest_bucket * 5 <= top.top_visible_count,
        Some(Fraction { part: top.top_largest_bucket, whole: top.top_visible_count }),
        "<= 0.20 when Top20 has >=12 distinct effective evidence vectors and >=12 visible indices"@,
        labelled("largest_bucket="@, top.top_largest_bucket) + labelled(
            " of "@,
            top.top_visible_count,
        ) + " visible"@,
    )
}

fn bucket_gate(scores: &ScoreAudit) -> (r: QualityGate)
    ensures
        is_bucket_gate(r, *scores),
{
    let top = &scores.quality_top20_recommendation_index;
    let mut detail = String::new();
    append_count(&mut detail, "largest_bucket=", top.top_largest_bucket);
    append_count(&mut detail, " of ", top.top_visible_count);
    detail.append(" visible");
    proof {
        assert(Seq::<char>::empty() + labelled("largest_bucket="@, top.top_largest_bucket)
            =~= labelled("largest_bucket="@, top.top_largest_bucket));
    }
    gate(
        "top20_largest_recommendation_index_bucket_share",
        applies_to_indices(scores),
        top.top_largest_bucket as u128 * 5 <= top.top_visible_count as u128,
        Some(Fraction { part: top.top_largest_bucket, whole: top.top_visible_count }),
        "<= 0.20 when Top20 has >=12 distinct effective evidence vectors and >=12 visible indices",
        detail,
    )
}

/// No more than two different kinds of evidence come to exactly the same score.
pub open spec fn is_tie_gate(g: QualityGate, scores: ScoreAudit) -> bool {
    g.says(
        "top20_cross_vector_exact_tie_size"@,
        full_top20(scores) && distinct_evidence(scores),
        scores.top20_largest_cross_vector_exact_tie <= MAX_TOP_CROSS_VECTOR_EXACT_TIE,
        Some(Fraction { part: scores.top20_largest_cross_vector_exact_tie, whole: 1 }),
        "<= 2 distinct effective evidence vectors per exact-score tie"@,
        labelled("exact_tie_groups="@, scores.top20_exact.tie_groups) + labelled(
            ", largest_exact_tie="@,
            tie_size(scores.top20_exact.largest as nat) as usize,
        ) + labelled(", cross_vector_groups="@, scores.top20_cross_vector_exact_tie_groups)
            + labelled(
            ", largest_cross_vector_tie="@,
            scores.top20_largest_cross_vector_exact_tie,
        ),
    )
}

fn tie_gate(scores: &ScoreAudit) -> (r: QualityGate)
    ensures
        is_tie_gate(r, *scores),
{
    let mut detail = String::new();
    append_count(&mut detail, "exact_tie_groups=", scores.top20_exact.tie_groups);
    append_count(&mut detail, ", largest_exact_tie=", scores.top20_exact.largest_tie());
    append_count(
        &mut detail,
        ", cross_vector_groups=",
        scores.top20_cross_vector_exact_tie_groups,
    );
    append_count(
        &mut detail,
        ", largest_cross_vector_tie=",
        scores.top20_largest_cross_vector_exact_tie,
    );
    proof {
        assert(Seq::<char>::empty() + labelled("exact_tie_groups="@, scores.top20_exact.tie_groups)
            =~= labelled("exact_tie_groups="@, scores.top20_exact.tie_groups));
    }
    gate(
        "top20_cross_vector_exact_tie_size",
        scores.quality_top20_recommendation_index.top_count == QUALITY_GATE_TOP
            && scores.top20_distinct_visible_evidence_vectors >= MIN_DISTINCT_TOP_EVIDENCE_VECTORS,
        scores.top20_largest_cross_vector_exact_tie <= MAX_TOP_CROSS_VECTOR_EXACT_TIE,
        Some(Fraction { part: scores.top20_largest_cross_vector_exact_tie, whole: 1 }),
        "<= 2 distinct effective evidence vectors per exact-score tie",
        detail,
    )
}

/// No mode takes more than three fifths of the first places, where there are three modes to
/// choose from.
pub open spec fn is_mode_gate(
    g: QualityGate,
    scores: ScoreAudit,
    diversity: DiversityAudit,
) -> bool {
    g.says(
        "top20_single_mode_share"@,
        full_top20(scores) && diversity.pool_known_mode_families >= 3,
        diversity.top_largest_mode_count * 5 <= diversity.top_count * 3,
        Some(Fraction { part: diversity.top_largest_mode_count, whole: diversity.top_count }),
        "<= 0.60 when the ranked pool contains >=3 known mode families"@,
        labelled("pool_modes="@, diversity.pool_known_mode_families) + ", top_largest_mode="@ + (
        match diversity.top_largest_mode {
            Some(mode) => mode@,
            None => "n/a"@,
        }) + labelled(", count="@, diversity.top_largest_mode_count) + labelled(
            "/"@,
            scores.quality_top20_recommendation_index.top_count,
        ),
    )
}

fn mode_gate(scores: &ScoreAudit, diversity: &DiversityAudit) -> (r: QualityGate)
    ensures
        is_mode_gate(r, *scores, *diversity),
{
    let mut detail = String::new();
    append_count(&mut detail, "pool_modes=", diversity.pool_known_mode_families);
    detail.append(", top_largest_mode=");
    let mode: &str = match &diversity.top_largest_mode {
        Some(mode) => mode.as_str(),
        None => "n/a",
    };
    detail.append(mode);
    append_count(&mut detail, ", count=", diversity.top_largest_mode_count);
    append_count(&mut detail, "/", scores.quality_top20_recommendation_index.top_count);
    proof {
        assert(Seq::<char>::empty() + labelled("pool_modes="@, diversity.pool_known_mode_families)
            =~= labelled("pool_modes="@, diversity.pool_known_mode_families));
    }
    gate(
        "top20_single_mode_share",
        scores.quality_top20_recommendation_index.top_count == QUALITY_GATE_TOP
            && diversity.pool_known_mode_families >= 3,
        diversity.top_largest_mode_count as u128 * 5 <= diversity.top_count as u128 * 3,
        Some(Fraction { part: diversity.top_largest_mode_count, whole: diversity.top_count }),
        "<= 0.60 when the ranked pool contains >=3 known mode families",
        detail,
    )
}

/// A game that is placed above a clearly better one says why.
pub open spec fn is_inversion_gate(
    g: QualityGate,
    scores: ScoreAudit,
    diversity: DiversityAudit,
) -> bool {
    g.says(
        "mmr_inversion_slot_reason"@,
        scores.quality_top20_recommendation_index.top_visible_count >= 2,
        diversity.mmr_inversion_pairs_missing_reason == 0,
        Some(Fraction { part: diversity.mmr_inversion_pairs_missing_reason, whole: 1 }),
        "0 inversions over 3 recommendation-index points without diversity/explore slot_reason"@,
        labelled("inversion_pairs="@, diversity.mmr_inversion_pairs_over_3_points) + labelled(
            ", promoted_items="@,
            diversity.mmr_inversion_promoted_items,
        ) + labelled(", justified_pairs="@, diversity.mmr_inversion_pairs_with_reason) + labelled(
            ", missing_reason_pairs="@,
            diversity.mmr_inversion_pairs_missing_reason,
        ),
    )
}

fn inversion_gate(scores: &ScoreAudit, diversity: &DiversityAudit) -> (r: QualityGate)
    ensures
        is_inversion_gate(r, *scores, *diversity),
{
    let mut detail = String::new();
    append_count(
        &mut detail,
        "inversion_pairs=",
        diversity.mmr_inversion_pairs_over_3_points,
    );
    append_count(&mut detail, ", promoted_items=", diversity.mmr_inversion_promoted_items);
    append_count(&mut detail, ", justified_pairs=", diversity.mmr_inversion_pairs_with_reason);
    append_count(
        &mut detail,
        ", missing_reason_pairs=",
        diversity.mmr_inversion_pairs_missing_reason,
    );
    proof {
        assert(Seq::<char>::empty() + labelled(
            "inversion_pairs="@,
            diversity.mmr_inversion_pairs_over_3_points,
        ) =~= labelled("inversion_pairs="@, diversity.mmr_inversion_pairs_over_3_points));
    }
    gate(
        "mmr_inversion_slot_reason",
        scores.quality_top20_recommendation_index.top_visible_count >= 2,
        diversity.mmr_inversion_pairs_missing_reason == 0,
        Some(Fraction { part: diversity.mmr_inversion_pairs_missing_reason, whole: 1 }),
        "0 inversions over 3 recommendation-index points without diversity/explore slot_reason",
        detail,
    )
}

pub open spec fn evidence_detail(evidence: EvidenceAudit) -> Seq<char> {
    if evidence.unresolved_ids@.len() == 0 {
        labelled("resolved "@, evidence.resolvable_count) + labelled(
            "/"@,
            evidence.unique_referenced_count,
        ) + " unique referenced IDs"@
    } else {
        "unresolved IDs: "@ + joined(views(evidence.unresolved_ids@), ", "@) + (
        if evidence.unresolved_ids_truncated == 0 {
            Seq::empty()
        } else {
            labelled(" (and "@, evidence.unresolved_ids_truncated) + " more)"@
        })
    }
}

/// Everything that is cited can be looked up.
pub open spec fn is_evidence_gate(g: QualityGate, evidence: EvidenceAudit) -> bool {
    g.says(
        "evidence_id_resolvability"@,
        evidence.unique_referenced_count > 0,
        evidence.unresolved_count == 0,
        Some(
            Fraction { part: evidence.resolvable_count, whole: evidence.unique_referenced_count },
        ),
        "100% of referenced deterministic explanation evidence IDs resolve locally"@,
        evidence_detail(evidence),
    )
}

fn evidence_gate(evidence: &EvidenceAudit) -> (r: QualityGate)
    ensures
        is_evidence_gate(r, *evidence),
{
    let mut detail = String::new();
    if evidence.unresolved_ids.len() == 0 {
        append_count(&mut detail, "resolved ", evidence.resolvable_count);
        append_count(&mut detail, "/", evidence.unique_referenced_count);
        detail.append(" unique referenced IDs");
        proof {
            assert(Seq::<char>::empty() + labelled("resolved "@, evidence.resolvable_count)
                =~= labelled("resolved "@, evidence.resolvable_count));
        }
    } else {
        detail.append("unresolved IDs: ");
        detail.append(join(&evidence.unresolved_ids, ", ").as_str());
        let ghost listed = "unresolved IDs: "@ + joined(views(evidence.unresolved_ids@), ", "@);
        assert(detail@ =~= listed);
        if evidence.unresolved_ids_truncated != 0 {
            append_count(&mut detail, " (and ", evidence.unresolved_ids_truncated);
            detail.append(" more)");
            assert(detail@ =~= listed + (labelled(" (and "@, evidence.unresolved_ids_truncated)
                + " more)"@));
        } else {
            assert(listed + Seq::<char>::empty() =~= listed);
        }
    }
    gate(
        "evidence_id_resolvability",
        evidence.unique_referenced_count > 0,
        evidence.unresolved_count == 0,
        Some(
            Fraction { part: evidence.resolvable_count, whole: evidence.unique_referenced_count },
        ),
        "100% of referenced deterministic explanation evidence IDs resolve locally",
        detail,
    )
}

/// The seven gates of a section.
pub open spec fn are_section_gates(
    gates: Seq<QualityGate>,
    scores: ScoreAudit,
    diversity: DiversityAudit,
    evidence: EvidenceAudit,
) -> bool {
    &&& gates.len() == 7
    &&& is_clamp_gate(gates[0], scores)
    &&& is_distinct_gate(gates[1], scores)
    &&& is_bucket_gate(gates[2], scores)
    &&& is_tie_gate(gates[3], scores)
    &&& is_mode_gate(gates[4], scores, diversity)
    &&& is_inversion_gate(gates[5], scores, diversity)
    &&& is_evidence_gate(gates[6], evidence)
}

pub fn evaluate_section_gates(
    scores: &ScoreAudit,
    diversity: &DiversityAudit,
    evidence: &EvidenceAudit,
) -> (r: Vec<QualityGate>)
    ensures
        are_section_gates(r@, *scores, *diversity, *evidence),
{
    let mut gates: Vec<QualityGate> = Vec::new();
    gates.push(clamp_gate(scores));
    gates.push(distinct_gate(scores));
    gates.push(bucket_gate(scores));
    gates.push(tie_gate(scores));
    gates.push(mode_gate(scores, diversity));
    gates.push(inversion_gate(scores, diversity));
    gates.push(evidence_gate(evidence));
    gates
}

} // verus!
