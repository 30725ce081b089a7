//! An audit as lines of text. Figures that are not whole numbers come in as text.

use vstd::prelude::*;

use crate::dbtool::audit::RecommendationIndexAudit;
use crate::dbtool::audit_diversity::{DiversityAudit, EvidenceAudit};
use crate::dbtool::audit_gates::{gate_status_str, gate_status_text, QualityGate};
use crate::dbtool::audit_report::{CandidateFunnel, QualityGateSummary, SectionAudit};
use crate::dbtool::audit_scores::ScoreAudit;
use crate::dbtool::tally::{tie_size, Tally};
use crate::numbers::{decimal, u64_decimal};
use crate::text::{bool_str, bool_text, join2, views};

verus! {

// ---------------------------------------------------------------------------
// Lines
// ---------------------------------------------------------------------------

/// A line: its head, and after it each name and value, as ` name=value`.
pub open spec fn line_of(head: Seq<char>, fields: Seq<(Seq<char>, Seq<char>)>) -> Seq<char>
    decreases fields.len(),
{
    if fields.len() == 0 {
        head
    } else {
        let (name, value) = fields.last();
        line_of(head, fields.drop_last()) + " "@ + name + "="@ + value
    }
}

pub open spec fn field_views(fields: Seq<(&'static str, String)>) -> Seq<(Seq<char>, Seq<char>)> {
    fields.map_values(|f: (&'static str, String)| (f.0@, f.1@))
}

fn line(head: &str, fields: &Vec<(&'static str, String)>) -> (r: String)
    ensures
        r@ == line_of(head@, field_views(fields@)),
{
    let mut out = head.to_owned();
    let mut i: usize = 0;
    assert(field_views(fields@).take(0) =~= Seq::empty());
    while i < fields.len()
        invariant
            0 <= i <= fields@.len(),
            out@ == line_of(head@, field_views(fields@).take(i as int)),
        decreases fields@.len() - i,
    {
        proof {
            let next = field_views(fields@).take(i + 1);
            assert(next.drop_last() =~= field_views(fields@).take(i as int));
            assert(next.last() == (fields@[i as int].0@, fields@[i as int].1@));
        }
        let field = &fields[i];
        out.append(" ");
        out.append(field.0);
        out.append("=");
        out.append(field.1.as_str());
        i = i + 1;
    }
    assert(field_views(fields@).take(fields@.len() as int) =~= field_views(fields@));
    out
}

fn count(n: usize) -> (r: String)
    ensures
        r@ == decimal(n as nat),
{
    u64_decimal(n as u64)
}

fn flag(b: bool) -> (r: String)
    ensures
        r@ == bool_text(b),
{
    bool_str(b).to_owned()
}

// ---------------------------------------------------------------------------
// A section
// ---------------------------------------------------------------------------

/// The figures of a section that are not whole numbers, as they are shown.
#[derive(Debug)]
pub struct SectionFigures {
    pub relevance_min: String,
    pub relevance_median: String,
    pub relevance_max: String,
    pub clamp_rate: String,
    pub top_largest_bucket_share: String,
    pub quality_largest_bucket_share: String,
    pub largest_mode_share: String,
    pub resolvability_rate: String,
}

#[derive(Debug)]
pub struct SectionReport {
    pub audit: SectionAudit,
    pub figures: SectionFigures,
}

pub open spec fn funnel_fields(funnel: CandidateFunnel, ranked: usize) -> Seq<
    (Seq<char>, Seq<char>),
> {
    seq![
        ("queried"@, decimal(funnel.queried as nat)),
        ("section_eligible"@, decimal(funnel.section_eligible as nat)),
        ("feedback_eligible"@, decimal(funnel.feedback_eligible as nat)),
        ("hard_filter_eligible"@, decimal(funnel.hard_filter_eligible as nat)),
        ("ranked"@, decimal(ranked as nat)),
    ]
}

pub open spec fn funnel_line(funnel: CandidateFunnel, ranked: usize) -> Seq<char> {
    line_of("  funnel"@, funnel_fields(funnel, ranked))
}

fn show_funnel(funnel: &CandidateFunnel, ranked: usize) -> (r: String)
    ensures
        r@ == funnel_line(*funnel, ranked),
{
    let fields = vec![
        ("queried", count(funnel.queried)),
        ("section_eligible", count(funnel.section_eligible)),
        ("feedback_eligible", count(funnel.feedback_eligible)),
        ("hard_filter_eligible", count(funnel.hard_filter_eligible)),
        ("ranked", count(ranked)),
    ];
    assert(field_views(fields@) =~= funnel_fields(*funnel, ranked));
    line("  funnel", &fields)
}

pub open spec fn relevance_fields(figures: SectionFigures) -> Seq<(Seq<char>, Seq<char>)> {
    seq![
        ("min"@, figures.relevance_min@),
        ("median"@, figures.relevance_median@),
        ("max"@, figures.relevance_max@),
    ]
}

pub open spec fn relevance_line(figures: SectionFigures) -> Seq<char> {
    line_of("  raw_relevance"@, relevance_fields(figures))
}

fn show_relevance(figures: &SectionFigures) -> (r: String)
    ensures
        r@ == relevance_line(*figures),
{
    let fields = vec![
        ("min", figures.relevance_min.clone()),
        ("median", figures.relevance_median.clone()),
        ("max", figures.relevance_max.clone()),
    ];
    assert(field_views(fields@) =~= relevance_fields(*figures));
    line("  raw_relevance", &fields)
}

pub open spec fn exact_ties_fields(exact: Tally) -> Seq<(Seq<char>, Seq<char>)> {
    seq![
        ("groups"@, decimal(exact.tie_groups as nat)),
        ("items"@, decimal(exact.tied_items as nat)),
        ("largest"@, decimal(tie_size(exact.largest as nat))),
    ]
}

pub open spec fn exact_ties_line(exact: Tally) -> Seq<char> {
    line_of("  exact_ties"@, exact_ties_fields(exact))
}

fn show_exact_ties(exact: &Tally) -> (r: String)
    ensures
        r@ == exact_ties_line(*exact),
{
    let fields = vec![
        ("groups", count(exact.tie_groups)),
        ("items", count(exact.tied_items)),
        ("largest", count(exact.largest_tie())),
    ];
    assert(field_views(fields@) =~= exact_ties_fields(*exact));
    line("  exact_ties", &fields)
}

pub open spec fn rounded_ties_fields(rounded: Tally) -> Seq<(Seq<char>, Seq<char>)> {
    seq![
        ("groups"@, decimal(rounded.tie_groups as nat)),
        ("items"@, decimal(rounded.tied_items as nat)),
        ("largest"@, decimal(tie_size(rounded.largest as nat))),
        ("distinct"@, decimal(rounded.distinct as nat)),
    ]
}

pub open spec fn rounded_ties_line(rounded: Tally) -> Seq<char> {
    line_of("  raw_rounded_100_ties"@, rounded_ties_fields(rounded))
}

fn show_rounded_ties(rounded: &Tally) -> (r: String)
    ensures
        r@ == rounded_ties_line(*rounded),
{
    let fields = vec![
        ("groups", count(rounded.tie_groups)),
        ("items", count(rounded.tied_items)),
        ("largest", count(rounded.largest_tie())),
        ("distinct", count(rounded.distinct)),
    ];
    assert(field_views(fields@) =~= rounded_ties_fields(*rounded));
    line("  raw_rounded_100_ties", &fields)
}

pub open spec fn clamp_fields(clamped: usize, rate: Seq<char>) -> Seq<(Seq<char>, Seq<char>)> {
    seq![("count"@, decimal(clamped as nat)), ("rate"@, rate)]
}

pub open spec fn clamp_line(clamped: usize, rate: Seq<char>) -> Seq<char> {
    line_of("  clamp"@, clamp_fields(clamped, rate))
}

fn show_clamp(clamped: usize, rate: &str) -> (r: String)
    ensures
        r@ == clamp_line(clamped, rate@),
{
    let fields = vec![("count", count(clamped)), ("rate", rate.to_owned())];
    assert(field_views(fields@) =~= clamp_fields(clamped, rate@));
    line("  clamp", &fields)
}

pub open spec fn index_fields(indices: RecommendationIndexAudit) -> Seq<(Seq<char>, Seq<char>)> {
    seq![
        ("pool"@, decimal(indices.pool_size as nat)),
        ("eligible"@, bool_text(indices.pool_eligible)),
        ("visible"@, decimal(indices.visible_count as nat)),
        ("hidden"@, decimal(indices.hidden_count as nat)),
        ("distinct"@, decimal(indices.distinct_indices as nat)),
        ("largest_bucket"@, decimal(indices.largest_bucket as nat)),
    ]
}

pub open spec fn index_line(indices: RecommendationIndexAudit) -> Seq<char> {
    line_of("  recommendation_index"@, index_fields(indices))
}

fn show_index(indices: &RecommendationIndexAudit) -> (r: String)
    ensures
        r@ == index_line(*indices),
{
    let fields = vec![
        ("pool", count(indices.pool_size)),
        ("eligible", flag(indices.pool_eligible)),
        ("visible", count(indices.visible_count)),
        ("hidden", count(indices.hidden_count)),
        ("distinct", count(indices.distinct_indices)),
        ("largest_bucket", count(indices.largest_bucket)),
    ];
    assert(field_views(fields@) =~= index_fields(*indices));
    line("  recommendation_index", &fields)
}

pub open spec fn top_index_fields(indices: RecommendationIndexAudit, share: Seq<char>) -> Seq<
    (Seq<char>, Seq<char>),
> {
    seq![
        ("count"@, decimal(indices.top_count as nat)),
        ("visible"@, decimal(indices.top_visible_count as nat)),
        ("hidden"@, decimal(indices.top_hidden_count as nat)),
        ("distinct"@, decimal(indices.top_distinct_indices as nat)),
        ("largest_bucket"@, decimal(indices.top_largest_bucket as nat)),
        ("largest_bucket_share"@, share),
    ]
}

pub open spec fn top_index_line(
    head: Seq<char>,
    indices: RecommendationIndexAudit,
    share: Seq<char>,
) -> Seq<char> {
    line_of(head, top_index_fields(indices, share))
}

fn show_top_index(head: &str, indices: &RecommendationIndexAudit, share: &str) -> (r: String)
    ensures
        r@ == top_index_line(head@, *indices, share@),
{
    let fields = vec![
        ("count", count(indices.top_count)),
        ("visible", count(indices.top_visible_count)),
        ("hidden", count(indices.top_hidden_count)),
        ("distinct", count(indices.top_distinct_indices)),
        ("largest_bucket", count(indices.top_largest_bucket)),
        ("largest_bucket_share", share.to_owned()),
    ];
    assert(field_views(fields@) =~= top_index_fields(*indices, share@));
    line(head, &fields)
}

pub open spec fn top_ties_fields(scores: ScoreAudit) -> Seq<(Seq<char>, Seq<char>)> {
    seq![
        ("groups"@, decimal(scores.top20_exact.tie_groups as nat)),
        ("items"@, decimal(scores.top20_exact.tied_items as nat)),
        ("largest"@, decimal(tie_size(scores.top20_exact.largest as nat))),
        ("distinct_evidence_vectors"@, decimal(scores.top20_distinct_evidence_vectors as nat)),
        (
            "distinct_visible_evidence_vectors"@,
            decimal(scores.top20_distinct_visible_evidence_vectors as nat),
        ),
        ("cross_vector_groups"@, decimal(scores.top20_cross_vector_exact_tie_groups as nat)),
        (
            "largest_cross_vector_tie"@,
            decimal(scores.top20_largest_cross_vector_exact_tie as nat),
        ),
    ]
}

pub open spec fn top_ties_line(scores: ScoreAudit) -> Seq<char> {
    line_of("  top20_exact_ties"@, top_ties_fields(scores))
}

fn show_top_ties(scores: &ScoreAudit) -> (r: String)
    ensures
        r@ == top_ties_line(*scores),
{
    let fields = vec![
        ("groups", count(scores.top20_exact.tie_groups)),
        ("items", count(scores.top20_exact.tied_items)),
        ("largest", count(scores.top20_exact.largest_tie())),
        ("distinct_evidence_vectors", count(scores.top20_distinct_evidence_vectors)),
        (
            "distinct_visible_evidence_vectors",
            count(scores.top20_distinct_visible_evidence_vectors),
        ),
        ("cross_vector_groups", count(scores.top20_cross_vector_exact_tie_groups)),
        ("largest_cross_vector_tie", count(scores.top20_largest_cross_vector_exact_tie)),
    ];
    assert(field_views(fields@) =~= top_ties_fields(*scores));
    line("  top20_exact_ties", &fields)
}

pub open spec fn mode_name(mode: Option<String>) -> Seq<char> {
    match mode {
        Some(name) => name@,
        None => "n/a"@,
    }
}

pub open spec fn diversity_fields(diversity: DiversityAudit, share: Seq<char>) -> Seq<
    (Seq<char>, Seq<char>),
> {
    seq![
        ("pool_modes"@, decimal(diversity.pool_known_mode_families as nat)),
        ("top_modes"@, decimal(diversity.top_known_mode_families as nat)),
        ("top_known_items"@, decimal(diversity.top_known_mode_items as nat)),
        ("largest_mode"@, mode_name(diversity.top_largest_mode)),
        ("largest_mode_count"@, decimal(diversity.top_largest_mode_count as nat)),
        ("largest_mode_share"@, share),
    ]
}

pub open spec fn diversity_line(diversity: DiversityAudit, share: Seq<char>) -> Seq<char> {
    line_of("  diversity"@, diversity_fields(diversity, share))
}

fn show_diversity(diversity: &DiversityAudit, share: &str) -> (r: String)
    ensures
        r@ == diversity_line(*diversity, share@),
{
    let largest = match &diversity.top_largest_mode {
        Some(name) => name.clone(),
        None => "n/a".to_owned(),
    };
    let fields = vec![
        ("pool_modes", count(diversity.pool_known_mode_families)),
        ("top_modes", count(diversity.top_known_mode_families)),
        ("top_known_items", count(diversity.top_known_mode_items)),
        ("largest_mode", largest),
        ("largest_mode_count", count(diversity.top_largest_mode_count)),
        ("largest_mode_share", share.to_owned()),
    ];
    assert(field_views(fields@) =~= diversity_fields(*diversity, share@));
    line("  diversity", &fields)
}

pub open spec fn inversions_fields(diversity: DiversityAudit) -> Seq<(Seq<char>, Seq<char>)> {
    seq![
        ("over_3_points"@, decimal(diversity.mmr_inversion_pairs_over_3_points as nat)),
        ("promoted_items"@, decimal(diversity.mmr_inversion_promoted_items as nat)),
        ("justified_pairs"@, decimal(diversity.mmr_inversion_pairs_with_reason as nat)),
        ("missing_reason_pairs"@, decimal(diversity.mmr_inversion_pairs_missing_reason as nat)),
    ]
}

pub open spec fn inversions_line(diversity: DiversityAudit) -> Seq<char> {
    line_of("  mmr_inversions"@, inversions_fields(diversity))
}

fn show_inversions(diversity: &DiversityAudit) -> (r: String)
    ensures
        r@ == inversions_line(*diversity),
{
    let fields = vec![
        ("over_3_points", count(diversity.mmr_inversion_pairs_over_3_points)),
        ("promoted_items", count(diversity.mmr_inversion_promoted_items)),
        ("justified_pairs", count(diversity.mmr_inversion_pairs_with_reason)),
        ("missing_reason_pairs", count(diversity.mmr_inversion_pairs_missing_reason)),
    ];
    assert(field_views(fields@) =~= inversions_fields(*diversity));
    line("  mmr_inversions", &fields)
}

pub open spec fn evidence_fields(evidence: EvidenceAudit, rate: Seq<char>) -> Seq<
    (Seq<char>, Seq<char>),
> {
    seq![
        ("referenced"@, decimal(evidence.referenced_count as nat)),
        ("unique"@, decimal(evidence.unique_referenced_count as nat)),
        ("resolvable"@, decimal(evidence.resolvable_count as nat)),
        ("unresolved"@, decimal(evidence.unresolved_count as nat)),
        ("unresolved_samples_truncated"@, decimal(evidence.unresolved_ids_truncated as nat)),
        ("rate"@, rate),
    ]
}

pub open spec fn evidence_line(evidence: EvidenceAudit, rate: Seq<char>) -> Seq<char> {
    line_of("  evidence"@, evidence_fields(evidence, rate))
}

fn show_evidence(evidence: &EvidenceAudit, rate: &str) -> (r: String)
    ensures
        r@ == evidence_line(*evidence, rate@),
{
    let fields = vec![
        ("referenced", count(evidence.referenced_count)),
        ("unique", count(evidence.unique_referenced_count)),
        ("resolvable", count(evidence.resolvable_count)),
        ("unresolved", count(evidence.unresolved_count)),
        ("unresolved_samples_truncated", count(evidence.unresolved_ids_truncated)),
        ("rate", rate.to_owned()),
    ];
    assert(field_views(fields@) =~= evidence_fields(*evidence, rate@));
    line("  evidence", &fields)
}

pub open spec fn gate_fields(gate: QualityGate) -> Seq<(Seq<char>, Seq<char>)> {
    seq![
        ("status"@, gate_status_text(gate.status)),
        ("requirement"@, gate.requirement@),
        ("detail"@, gate.detail@),
    ]
}

pub open spec fn gate_line(gate: QualityGate) -> Seq<char> {
    line_of("  gate "@ + gate.name@, gate_fields(gate))
}

fn show_gate(gate: &QualityGate) -> (r: String)
    ensures
        r@ == gate_line(*gate),
{
    let fields = vec![
        ("status", gate_status_str(gate.status).to_owned()),
        ("requirement", gate.requirement.to_owned()),
        ("detail", gate.detail.clone()),
    ];
    assert(field_views(fields@) =~= gate_fields(*gate));
    line(join2("  gate ", gate.name).as_str(), &fields)
}

/// The lines of a section: what was found, then each gate.
pub open spec fn section_lines(report: SectionReport, top: usize) -> Seq<Seq<char>> {
    seq![
        "section="@ + report.audit.section@,
        funnel_line(report.audit.funnel, report.audit.ranked),
        relevance_line(report.figures),
        exact_ties_line(report.audit.scores.exact),
        rounded_ties_line(report.audit.scores.rounded),
        clamp_line(report.audit.scores.clamp_count, report.figures.clamp_rate@),
        index_line(report.audit.scores.recommendation_index),
        top_index_line(
            "  top"@ + decimal(top as nat) + "_recommendation_index"@,
            report.audit.scores.recommendation_index,
            report.figures.top_largest_bucket_share@,
        ),
        top_ties_line(report.audit.scores),
        top_index_line(
            "  quality_top20_recommendation_index"@,
            report.audit.scores.quality_top20_recommendation_index,
            report.figures.quality_largest_bucket_share@,
        ),
        diversity_line(report.audit.diversity, report.figures.largest_mode_share@),
        inversions_line(report.audit.diversity),
        evidence_line(report.audit.evidence, report.figures.resolvability_rate@),
    ] + report.audit.quality_gates@.map_values(|gate: QualityGate| gate_line(gate))
}

/// Adds a line.
fn put(lines: &mut Vec<String>, text: String)
    ensures
        views(final(lines)@) == views(old(lines)@).push(text@),
{
    proof {
        assert(views(lines@.push(text)) =~= views(lines@).push(text@));
    }
    lines.push(text);
}

/// Adds the lines of a section.
fn put_section(lines: &mut Vec<String>, report: &SectionReport, top: usize)
    ensures
        views(final(lines)@) == views(old(lines)@) + section_lines(*report, top),
{
    let ghost before = views(lines@);
    put(lines, join2("section=", report.audit.section.as_str()));
    put(lines, show_funnel(&report.audit.funnel, report.audit.ranked));
    put(lines, show_relevance(&report.figures));
    put(lines, show_exact_ties(&report.audit.scores.exact));
    put(lines, show_rounded_ties(&report.audit.scores.rounded));
    put(lines, show_clamp(report.audit.scores.clamp_count, report.figures.clamp_rate.as_str()));
    put(lines, show_index(&report.audit.scores.recommendation_index));
    let mut head = "  top".to_owned();
    head.append(count(top).as_str());
    head.append("_recommendation_index");
    put(
        lines,
        show_top_index(
            head.as_str(),
            &report.audit.scores.recommendation_index,
            report.figures.top_largest_bucket_share.as_str(),
        ),
    );
    put(lines, show_top_ties(&report.audit.scores));
    put(
        lines,
        show_top_index(
            "  quality_top20_recommendation_index",
            &report.audit.scores.quality_top20_recommendation_index,
            report.figures.quality_largest_bucket_share.as_str(),
        ),
    );
    put(
        lines,
        show_diversity(&report.audit.diversity, report.figures.largest_mode_share.as_str()),
    );
    put(lines, show_inversions(&report.audit.diversity));
    put(lines, show_evidence(&report.audit.evidence, report.figures.resolvability_rate.as_str()));
    let ghost expected = section_lines(*report, top);
    assert(views(lines@) =~= before + expected.take(13));
    let mut i: usize = 0;
    while i < report.audit.quality_gates.len()
        invariant
            0 <= i <= report.audit.quality_gates@.len(),
            expected == section_lines(*report, top),
            views(lines@) == before + expected.take(13 + i as int),
        decreases report.audit.quality_gates@.len() - i,
    {
        put(lines, show_gate(&report.audit.quality_gates[i]));
        proof {
            assert(expected[13 + i as int] == gate_line(report.audit.quality_gates@[i as int]));
            assert(before + expected.take(14 + i as int) =~= (before + expected.take(
                13 + i as int,
            )).push(expected[13 + i as int]));
        }
        i = i + 1;
    }
    assert(expected.take(expected.len() as int) =~= expected);
}

// ---------------------------------------------------------------------------
// The whole audit
// ---------------------------------------------------------------------------

/// What an audit was made of.
#[derive(Debug)]
pub struct AuditHeader {
    pub database: String,
    pub database_mode: String,
    pub as_of: String,
    pub cutoff: String,
    pub algorithm_version: String,
    pub config_version: String,
    pub preference_source: String,
    pub top: usize,
}

pub open spec fn header_lines(header: AuditHeader) -> Seq<Seq<char>> {
    seq![
        "database="@ + header.database@,
        "database_mode="@ + header.database_mode@,
        "as_of="@ + header.as_of@,
        "cutoff="@ + header.cutoff@,
        "algorithm_version="@ + header.algorithm_version@,
        "config_version="@ + header.config_version@,
        "preference_source="@ + header.preference_source@,
        "top="@ + decimal(header.top as nat),
    ]
}

/// The lines of the first `n` sections.
pub open spec fn sections_lines(sections: Seq<SectionReport>, top: usize, n: int) -> Seq<Seq<char>>
    decreases n,
{
    if n <= 0 {
        Seq::empty()
    } else {
        sections_lines(sections, top, n - 1) + section_lines(sections[n - 1], top)
    }
}

pub open spec fn summary_fields(summary: QualityGateSummary) -> Seq<(Seq<char>, Seq<char>)> {
    seq![
        ("strict_compatible"@, bool_text(summary.strict_compatible)),
        ("evaluated"@, decimal(summary.evaluated as nat)),
        ("passed"@, decimal(summary.passed as nat)),
        ("failed"@, decimal(summary.failed as nat)),
        ("not_applicable"@, decimal(summary.not_applicable as nat)),
    ]
}

pub open spec fn summary_line(summary: QualityGateSummary) -> Seq<char> {
    line_of("quality_gates"@, summary_fields(summary))
}

fn show_summary(summary: &QualityGateSummary) -> (r: String)
    ensures
        r@ == summary_line(*summary),
{
    let fields = vec![
        ("strict_compatible", flag(summary.strict_compatible)),
        ("evaluated", count(summary.evaluated)),
        ("passed", count(summary.passed)),
        ("failed", count(summary.failed)),
        ("not_applicable", count(summary.not_applicable)),
    ];
    assert(field_views(fields@) =~= summary_fields(*summary));
    line("quality_gates", &fields)
}

pub open spec fn limitation_lines(limitations: Seq<Seq<char>>) -> Seq<Seq<char>> {
    limitations.map_values(|text: Seq<char>| "limitation="@ + text)
}

/// What an audit was made of.
fn put_header(header: &AuditHeader) -> (r: Vec<String>)
    ensures
        views(r@) == header_lines(*header),
{
    let mut lines: Vec<String> = Vec::new();
    assert(views(lines@) =~= Seq::empty());
    put(&mut lines, join2("database=", header.database.as_str()));
    put(&mut lines, join2("database_mode=", header.database_mode.as_str()));
    put(&mut lines, join2("as_of=", header.as_of.as_str()));
    put(&mut lines, join2("cutoff=", header.cutoff.as_str()));
    put(&mut lines, join2("algorithm_version=", header.algorithm_version.as_str()));
    put(&mut lines, join2("config_version=", header.config_version.as_str()));
    put(&mut lines, join2("preference_source=", header.preference_source.as_str()));
    put(&mut lines, join2("top=", count(header.top).as_str()));
    assert(views(lines@) =~= header_lines(*header));
    lines
}

/// An audit as text: what it was made of, each section, the summary of the gates, and what
/// the audit does not cover.
pub fn audit_lines(
    header: &AuditHeader,
    sections: &Vec<SectionReport>,
    summary: &QualityGateSummary,
    limitations: &Vec<String>,
) -> (r: Vec<String>)
    ensures
        views(r@) == header_lines(*header) + sections_lines(
            sections@,
            header.top,
            sections@.len() as int,
        ) + seq![summary_line(*summary)] + limitation_lines(views(limitations@)),
{
    let mut lines = put_header(header);
    let ghost head = header_lines(*header);
    assert(head + sections_lines(sections@, header.top, 0) =~= head);
    let mut i: usize = 0;
    while i < sections.len()
        invariant
            0 <= i <= sections@.len(),
            views(lines@) == head + sections_lines(sections@, header.top, i as int),
        decreases sections@.len() - i,
    {
        put_section(&mut lines, &sections[i], header.top);
        proof {
            assert(head + sections_lines(sections@, header.top, i + 1) =~= head + sections_lines(
                sections@,
                header.top,
                i as int,
            ) + section_lines(sections@[i as int], header.top));
        }
        i = i + 1;
    }
    put(&mut lines, show_summary(summary));
    let ghost all = limitation_lines(views(limitations@));
    let ghost before = views(lines@);
    assert(before =~= head + sections_lines(sections@, header.top, sections@.len() as int) + seq![
        summary_line(*summary),
    ]);
    assert(before + all.take(0) =~= before);
    let mut k: usize = 0;
    while k < limitations.len()
        invariant
            0 <= k <= limitations@.len(),
            all == limitation_lines(views(limitations@)),
            views(lines@) == before + all.take(k as int),
        decreases limitations@.len() - k,
    {
        put(&mut lines, join2("limitation=", limitations[k].as_str()));
        proof {
            assert(views(limitations@)[k as int] == limitations@[k as int]@);
            assert(before + all.take(k + 1) =~= (before + all.take(k as int)).push(all[k as int]));
        }
        k = k + 1;
    }
    assert(all.take(all.len() as int) =~= all);
    lines
}

} // verus!
