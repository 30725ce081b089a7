use mpgs::dbtool::audit::{
    summarize_recommendation_indices, AuditRow, IndexEligibility,
};
use mpgs::dbtool::audit_diversity::{
    summarize_diversity, summarize_evidence, MAX_UNRESOLVED_EVIDENCE_ID_SAMPLES,
};
use mpgs::dbtool::audit_gates::{
    evaluate_section_gates, gate_status_str, Fraction, GateStatus, QualityGate,
};
use mpgs::dbtool::audit_report::{
    add_computed_profile_evidence_ids, audit_day, audit_section, cutoff_days,
    effective_feature_count, parse_options, resolvable_evidence_ids, run_funnel,
    strict_failure_message, strict_verdict, summarize_quality_gates, FunnelFacts, ProfileFacts,
    QualityGateFailure, QualityGateSummary, RecordedFeatures, SectionAudit, StoredFeature,
    AUDIT_USAGE, DEFAULT_TOP,
};
use mpgs::dbtool::audit_scores::{score_feature_fingerprint, summarize_scores, RankedFacts};
use mpgs::dbtool::audit_text::{audit_lines, AuditHeader, SectionFigures, SectionReport};
use mpgs::dbtool::sorted::sort_texts;
use mpgs::dbtool::tally::tally;
use mpgs::score::Score;
use mpgs::server::intent::ModeFamily;
use mpgs::server::ranking::{context_percentile_indices, SlotReason};

fn score(value: f64) -> Score {
    Score::from_bits(value.to_bits())
}

fn texts(items: &[&str]) -> Vec<String> {
    items.iter().map(|item| item.to_string()).collect()
}

fn scored(app_id: u32, relevance: f64) -> AuditRow {
    AuditRow {
        app_id,
        relevance: score(relevance),
        rounded_100: (relevance * 100.0).round() as i64,
        eligibility: None,
        fingerprint: None,
        mode: None,
        slot_reason: SlotReason::Base,
        evidence_ids: Vec::new(),
    }
}

fn visible() -> Option<IndexEligibility> {
    Some(IndexEligibility { data_confidence: score(0.8), effective_feature_count: 3 })
}

fn ranked_candidate(
    app_id: u32,
    relevance: f64,
    mode: &str,
    slot_reason: SlotReason,
    evidence_ids: &[&str],
) -> AuditRow {
    let facts = RankedFacts {
        score_components: [
            0.6 + f64::from(app_id) / 10_000.0,
            0.8,
            0.7,
            0.6,
            0.5,
            0.4,
            0.75 + f64::from(app_id) / 10_000.0,
            0.6,
            0.5,
            0.1,
        ]
        .into_iter()
        .map(score)
        .collect(),
        mode: Some(mode.to_owned()),
        taxonomy_tags: texts(&[mode]),
        publisher: Some(format!("publisher-{}", app_id % 3)),
        series: None,
        recommended_min: Some(2),
        recommended_max: Some(4),
    };
    AuditRow {
        eligibility: visible(),
        fingerprint: Some(score_feature_fingerprint(facts)),
        mode: Some(mode.to_owned()),
        slot_reason,
        evidence_ids: texts(evidence_ids),
        ..scored(app_id, relevance)
    }
}

// The command line.

fn options(args: &[&str]) -> Result<(String, usize, bool, bool), String> {
    let parsed = parse_options(&texts(args))?;
    let is_day = matches!(parsed.as_of.as_deref(), Some("2026-08-01"));
    let day = audit_day(&parsed, is_day)?;
    Ok((day, parsed.top, parsed.json, parsed.strict))
}

#[test]
fn options_require_a_valid_explicit_as_of_day() {
    assert!(options(&["data.db"]).is_err());
    assert!(options(&["data.db", "--as-of", "2026-02-29"]).is_err());
    let (as_of, top, json, strict) =
        options(&["data.db", "--as-of", "2026-08-01", "--top", "12", "--json", "--strict"])
            .unwrap();
    assert_eq!(as_of, "2026-08-01");
    assert_eq!(top, 12);
    assert!(json);
    assert!(strict);
}

#[test]
fn options_that_make_no_sense_are_named() {
    let refused = |args: &[&str]| options(args).unwrap_err();
    assert_eq!(refused(&[]), AUDIT_USAGE);
    assert_eq!(refused(&["d", "--as-of"]), "--as-of requires YYYY-MM-DD");
    assert_eq!(refused(&["d", "--user-id"]), "--user-id requires a value");
    assert_eq!(refused(&["d", "--user-id", " "]), "--user-id must not be empty");
    assert_eq!(refused(&["d", "--top"]), "--top requires an integer");
    assert_eq!(refused(&["d", "--top", "x"]), "--top must be an integer");
    assert_eq!(refused(&["d", "--top", "101"]), "--top must be between 1 and 100");
    assert_eq!(refused(&["d", "--fast"]), "unknown recommendation-audit option: --fast");
    assert_eq!(refused(&["d"]), "--as-of YYYY-MM-DD is required");
    assert_eq!(
        refused(&["d", "--as-of", "today"]),
        "--as-of must be a valid YYYY-MM-DD calendar date"
    );
    let last = parse_options(&texts(&["d", "--user-id", "a", "--user-id", "b"])).unwrap();
    assert_eq!(last.user_id.as_deref(), Some("b"));
    assert_eq!(last.top, DEFAULT_TOP);
}

#[test]
fn cutoff_uses_the_active_recent_window() {
    // Days since the epoch: 2026-08-01 is 20666 and 2026-02-02 is 20486.
    assert_eq!(cutoff_days(Some(20_666), 180).unwrap(), 20_486);
    assert_eq!(cutoff_days(None, 180).unwrap_err(), "invalid --as-of date");
    assert_eq!(cutoff_days(Some(i64::MIN), 1).unwrap(), i64::MIN);
}

// Scores.

#[test]
fn score_summary_reports_raw_exact_rounded_and_clamp_stats() {
    let rows = vec![
        scored(1, 0.611_3),
        scored(2, 0.611_3),
        scored(3, 0.612_2),
        scored(4, 0.781),
        scored(5, 1.2),
    ];
    let summary = summarize_scores(&rows, 4);
    assert_eq!(summary.min, Some(score(0.611_3)));
    assert_eq!(summary.median_low, Some(score(0.612_2)));
    assert_eq!(summary.median_high, Some(score(0.612_2)));
    assert_eq!(summary.max, Some(score(1.2)));
    assert_eq!(summary.exact.tie_groups, 1);
    assert_eq!(summary.exact.tied_items, 2);
    assert_eq!(summary.exact.largest_tie(), 2);
    assert_eq!(summary.rounded.tie_groups, 1);
    assert_eq!(summary.rounded.tied_items, 3);
    assert_eq!(summary.rounded.largest_tie(), 3);
    assert_eq!(summary.rounded.distinct, 3);
    assert_eq!(summary.clamp_count, 1);
    assert_eq!(summary.clamp_count as f64 / summary.count as f64, 0.2);
    assert!(!summary.recommendation_index.pool_eligible);
    assert_eq!(summary.recommendation_index.top_visible_count, 0);
    assert_eq!(summary.recommendation_index.top_hidden_count, 4);
}

#[test]
fn clamp_rate_counts_out_of_range_raw_relevance_not_exact_boundaries() {
    let rows = vec![scored(1, 0.0), scored(2, 1.0), scored(3, -0.1), scored(4, 1.1)];
    let summary = summarize_scores(&rows, DEFAULT_TOP);
    assert_eq!(summary.clamp_count, 2);
    assert_eq!(summary.clamp_count as f64 / summary.count as f64, 0.5);
}

#[test]
fn recommendation_audit_context_percentile_uses_midrank_for_exact_ties() {
    let scores: Vec<(u32, Score)> = [
        (1, 0.9),
        (2, 0.9),
        (3, 0.8),
        (4, 0.7),
        (5, 0.6),
        (6, 0.5),
        (7, 0.4),
        (8, 0.3),
        (9, 0.2),
        (10, 0.1),
    ]
    .into_iter()
    .map(|(app_id, relevance)| (app_id, score(relevance)))
    .collect();
    let indices = context_percentile_indices(&scores);
    assert_eq!(indices.get(&1), Some(&90));
    assert_eq!(indices.get(&2), Some(&90));
    assert_eq!(indices.get(&3), Some(&75));
    assert_eq!(indices.get(&10), Some(&5));
}

#[test]
fn recommendation_index_summary_applies_public_visibility_rules() {
    let mut rows: Vec<AuditRow> =
        [0.9, 0.9, 0.8, 0.7, 0.6, 0.5, 0.4, 0.3, 0.2, 0.1]
            .into_iter()
            .enumerate()
            .map(|(place, relevance)| AuditRow {
                eligibility: visible(),
                ..scored(place as u32 + 1, relevance)
            })
            .collect();
    rows[2].eligibility =
        Some(IndexEligibility { data_confidence: score(0.44), effective_feature_count: 3 });
    rows[3].eligibility =
        Some(IndexEligibility { data_confidence: score(0.8), effective_feature_count: 2 });

    let summary = summarize_scores(&rows, 10).recommendation_index;
    assert!(summary.pool_eligible);
    assert_eq!(summary.visible_count, 8);
    assert_eq!(summary.hidden_count, 2);
    assert_eq!(summary.distinct_indices, 7);
    assert_eq!(summary.largest_bucket, 2);
    assert_eq!(summary.top_count, 10);
    assert_eq!(summary.top_visible_count, 8);
    assert_eq!(summary.top_hidden_count, 2);
    assert_eq!(summary.top_distinct_indices, 7);
    assert_eq!(summary.top_largest_bucket, 2);
    assert_eq!(summary.top_largest_bucket as f64 / summary.top_visible_count as f64, 0.25);
}

#[test]
fn recommendation_index_summary_uses_the_returned_request_window() {
    let rows: Vec<AuditRow> = (1_u32..=524)
        .map(|app_id| AuditRow {
            eligibility: visible(),
            ..scored(app_id, 1.0 - f64::from(app_id) / 1_000.0)
        })
        .collect();

    let summary = summarize_recommendation_indices(&rows, 20);

    assert_eq!(summary.pool_size, 20);
    assert_eq!(summary.visible_count, 20);
    assert_eq!(summary.distinct_indices, 20);
    assert_eq!(summary.top_largest_bucket as f64 / summary.top_visible_count as f64, 0.05);
}

#[test]
fn top20_exact_ties_distinguish_identical_scores_from_distinct_evidence_vectors() {
    let mut rows: Vec<AuditRow> = (1..=20)
        .map(|app_id| {
            ranked_candidate(
                app_id,
                1.0 - f64::from(app_id) / 100.0,
                "private_coop",
                SlotReason::Base,
                &[],
            )
        })
        .collect();
    for row in &mut rows[..3] {
        row.relevance = score(0.99);
        row.rounded_100 = 99;
    }
    let summary = summarize_scores(&rows, DEFAULT_TOP);

    assert_eq!(summary.top20_exact.tie_groups, 1);
    assert_eq!(summary.top20_exact.tied_items, 3);
    assert_eq!(summary.top20_exact.largest_tie(), 3);
    assert_eq!(summary.top20_distinct_evidence_vectors, 20);
    assert_eq!(summary.top20_distinct_visible_evidence_vectors, 20);
    assert_eq!(summary.top20_cross_vector_exact_tie_groups, 1);
    assert_eq!(summary.top20_largest_cross_vector_exact_tie, 3);
}

#[test]
fn equal_features_make_equal_vectors() {
    let mut rows = vec![
        ranked_candidate(1, 0.9, "private_coop", SlotReason::Base, &[]),
        ranked_candidate(1, 0.9, "private_coop", SlotReason::Base, &[]),
    ];
    rows[1].app_id = 2;
    let summary = summarize_scores(&rows, DEFAULT_TOP);
    assert_eq!(summary.top20_distinct_evidence_vectors, 1);
    assert_eq!(summary.top20_cross_vector_exact_tie_groups, 0);
    assert_eq!(summary.top20_exact.largest_tie(), 2);
}

#[test]
fn values_are_counted() {
    let counted = tally(&vec![3, 1, 3, 2, 3, 1]);
    assert_eq!(counted.distinct, 3);
    assert_eq!(counted.tie_groups, 2);
    assert_eq!(counted.tied_items, 5);
    assert_eq!(counted.largest_tie(), 3);
    assert_eq!(tally(&vec![1, 2]).largest_tie(), 0);
    assert_eq!(sort_texts(&texts(&["b", "a", "b"])), texts(&["a", "b"]));
}

// Diversity and evidence.

#[test]
fn diversity_audit_requires_reasons_for_large_visible_mmr_inversions() {
    let mut items =
        vec![ranked_candidate(20, 0.20, "private_coop", SlotReason::Diversity, &[])];
    for app_id in 1..=19 {
        let mode = match app_id {
            1..=11 => "private_coop",
            12..=15 => "matchmade_pvp",
            _ => "public_world",
        };
        items.push(ranked_candidate(
            app_id,
            1.0 - f64::from(app_id) / 100.0,
            mode,
            SlotReason::Base,
            &[],
        ));
    }
    let diversity = summarize_diversity(&items);
    assert_eq!(diversity.pool_known_mode_families, 3);
    assert_eq!(diversity.top_largest_mode_count, 12);
    assert_eq!(diversity.top_largest_mode_count as f64 / diversity.top_count as f64, 0.6);
    assert!(diversity.mmr_inversion_pairs_over_3_points > 0);
    assert_eq!(diversity.mmr_inversion_pairs_missing_reason, 0);
    assert_eq!(
        diversity.mmr_inversion_pairs_with_reason,
        diversity.mmr_inversion_pairs_over_3_points
    );

    items[0].slot_reason = SlotReason::Base;
    let missing_reason = summarize_diversity(&items);
    assert!(missing_reason.mmr_inversion_pairs_missing_reason > 0);
}

#[test]
fn evidence_audit_reports_unique_unresolvable_ids() {
    let items = vec![
        ranked_candidate(
            1,
            0.9,
            "private_coop",
            SlotReason::Base,
            &["feature:private_session:1", "missing:1"],
        ),
        ranked_candidate(2, 0.8, "matchmade_pvp", SlotReason::Base, &["missing:1"]),
    ];
    let evidence = summarize_evidence(&items, &texts(&["feature:private_session:1"]));
    assert_eq!(evidence.referenced_count, 3);
    assert_eq!(evidence.unique_referenced_count, 2);
    assert_eq!(evidence.resolvable_count, 1);
    assert_eq!(evidence.unresolved_count, 1);
    assert_eq!(evidence.unresolved_ids_truncated, 0);
    let rate = evidence.resolvable_count as f64 / evidence.unique_referenced_count as f64;
    assert_eq!(rate, 0.5);
    assert_eq!(evidence.unresolved_ids, vec!["missing:1"]);
}

#[test]
fn evidence_audit_bounds_unresolved_id_samples_without_hiding_failure_count() {
    let evidence_ids: Vec<String> = (0..(MAX_UNRESOLVED_EVIDENCE_ID_SAMPLES + 3))
        .map(|index| format!("missing:{index}"))
        .collect();
    let mut item = ranked_candidate(1, 0.9, "private_coop", SlotReason::Base, &[]);
    item.evidence_ids = evidence_ids;
    let evidence = summarize_evidence(&vec![item], &Vec::new());

    assert_eq!(evidence.unresolved_count, MAX_UNRESOLVED_EVIDENCE_ID_SAMPLES + 3);
    assert_eq!(evidence.unresolved_ids.len(), MAX_UNRESOLVED_EVIDENCE_ID_SAMPLES);
    assert_eq!(evidence.unresolved_ids_truncated, 3);
}

#[test]
fn computed_profile_resolver_matches_public_evidence_fallbacks() {
    let mut ids: Vec<String> = Vec::new();
    add_computed_profile_evidence_ids(&mut ids, 10, Some(ModeFamily::MatchmadePvp), None);
    add_computed_profile_evidence_ids(&mut ids, 20, Some(ModeFamily::PublicWorld), Some("active"));
    add_computed_profile_evidence_ids(&mut ids, 30, Some(ModeFamily::PrivateCoop), Some("shutdown"));

    let has = |id: &str| ids.iter().any(|found| found == id);
    assert!(has("feature:matchmaking_core:10"));
    assert!(has("feature:public_world_dependency:20"));
    assert!(has("feature:service_shutdown_risk:20"));
    assert!(has("feature:service_shutdown_risk:30"));
    assert!(!has("feature:matchmaking_core:30"));
    assert_eq!(ids.len(), 4);
}

#[test]
fn evidence_can_be_looked_up_once() {
    let features = vec![
        StoredFeature { app_id: 1, feature: "online_coop".to_owned() },
        StoredFeature { app_id: 1, feature: "online_coop".to_owned() },
    ];
    let profiles = vec![ProfileFacts {
        app_id: 2,
        dominant_mode: Some(ModeFamily::MatchmadePvp),
        service_status: Some(" ".to_owned()),
    }];
    assert_eq!(
        resolvable_evidence_ids(&features, &profiles, &vec![3]),
        texts(&["feature:online_coop:1", "feature:matchmaking_core:2", "review:3:summary"])
    );
}

// Gates.

#[test]
fn quality_gates_fail_a_top20_mode_share_above_sixty_percent() {
    let items: Vec<AuditRow> = (1..=20)
        .map(|app_id| {
            let mode = match app_id {
                1..=13 => "private_coop",
                14..=17 => "matchmade_pvp",
                _ => "public_world",
            };
            ranked_candidate(
                app_id,
                1.0 - f64::from(app_id) / 100.0,
                mode,
                SlotReason::Base,
                &[],
            )
        })
        .collect();
    let scores = summarize_scores(&items, DEFAULT_TOP);
    let diversity = summarize_diversity(&items);
    let evidence = summarize_evidence(&items, &Vec::new());
    let gates = evaluate_section_gates(&scores, &diversity, &evidence);
    let status = |name: &str| gates.iter().find(|gate| gate.name == name).unwrap().status;

    assert_eq!(status("top20_distinct_recommendation_indices"), GateStatus::Pass);
    assert_eq!(status("top20_largest_recommendation_index_bucket_share"), GateStatus::Pass);
    assert_eq!(status("top20_single_mode_share"), GateStatus::Fail);
    assert_eq!(diversity.top_largest_mode_count as f64 / diversity.top_count as f64, 0.65);
}

#[test]
fn strict_failure_message_names_deterministic_failed_gates() {
    let summary = QualityGateSummary {
        strict_compatible: false,
        evaluated: 1,
        passed: 0,
        failed: 1,
        not_applicable: 2,
        failures: vec![QualityGateFailure {
            section: "popular".to_owned(),
            gate: "clamp_rate".to_owned(),
            detail: "rate=0.02".to_owned(),
        }],
    };
    let message = strict_failure_message(&summary);
    assert!(message.contains("failed 1 deterministic quality gate"));
    assert!(message.contains("popular/clamp_rate"));
    assert_eq!(
        message,
        "recommendation audit failed 1 deterministic quality gate(s): popular/clamp_rate (rate=0.02)"
    );
}

fn audited(section: &str, quality_gates: Vec<QualityGate>) -> SectionAudit {
    let (funnel, _) = run_funnel(&Vec::new());
    let audit = audit_section(section, funnel, &Vec::new(), &Vec::new(), DEFAULT_TOP);
    SectionAudit { quality_gates, ..audit }
}

fn gate(name: &'static str, status: GateStatus) -> QualityGate {
    QualityGate {
        name,
        status,
        observed: Some(Fraction { part: 1, whole: 2 }),
        requirement: "some",
        detail: "why".to_owned(),
    }
}

#[test]
fn every_gate_is_counted_once() {
    let sections = vec![
        audited(
            "recent",
            vec![
                gate("a", GateStatus::Pass),
                gate("b", GateStatus::Fail),
                gate("c", GateStatus::NotApplicable),
            ],
        ),
        audited("popular", vec![gate("b", GateStatus::Fail), gate("a", GateStatus::Pass)]),
    ];
    let summary = summarize_quality_gates(&sections);
    assert_eq!((summary.passed, summary.failed, summary.not_applicable), (2, 2, 1));
    assert_eq!(summary.evaluated, 4);
    assert!(!summary.strict_compatible);
    let named: Vec<(&str, &str)> =
        summary.failures.iter().map(|f| (f.section.as_str(), f.gate.as_str())).collect();
    assert_eq!(named, vec![("recent", "b"), ("popular", "b")]);
    assert!(summarize_quality_gates(&Vec::new()).strict_compatible);
    assert!(strict_verdict(false, &summary).is_ok());
    assert_eq!(strict_verdict(true, &summary).unwrap_err(), strict_failure_message(&summary));
    assert_eq!(gate_status_str(GateStatus::NotApplicable), "not_applicable");
}

// What is looked at.

#[test]
fn candidates_fall_out_step_by_step() {
    let facts = |section: bool, feedback: Option<&str>, passes: bool| FunnelFacts {
        section_matches: section,
        feedback: feedback.map(|kind| kind.to_owned()),
        passes_hard_filter: passes,
    };
    let (funnel, ranked) = run_funnel(&vec![
        facts(true, None, true),
        facts(false, None, true),
        facts(true, Some("not_interested"), true),
        facts(true, Some("party_size_mismatch"), true),
        facts(true, Some("like"), true),
        facts(true, None, false),
    ]);
    assert_eq!(
        (
            funnel.queried,
            funnel.section_eligible,
            funnel.feedback_eligible,
            funnel.hard_filter_eligible
        ),
        (6, 5, 3, 2)
    );
    assert_eq!(ranked, vec![0, 4]);
}

#[test]
fn recorded_features_count_once_each() {
    let row = RecordedFeatures {
        total_reviews: Some(3),
        total_positive: Some(1),
        latest_ccu: Some(1),
        typical_ccu_7d: Some(1),
        has_release_date: false,
        mode_family: Some(ModeFamily::Unknown),
        has_multiplayer_field: false,
        has_demo: true,
    };
    assert_eq!(effective_feature_count(&row), 3);
    let known = RecordedFeatures { mode_family: Some(ModeFamily::Mixed), ..row };
    assert_eq!(effective_feature_count(&known), 4);
}

// Text.

#[test]
fn an_audit_is_shown_line_by_line() {
    let rows: Vec<AuditRow> = (1..=2)
        .map(|id| ranked_candidate(id, 0.5, "private_coop", SlotReason::Base, &["e"]))
        .collect();
    let (funnel, ranked) = run_funnel(&vec![
        FunnelFacts { section_matches: true, feedback: None, passes_hard_filter: true },
        FunnelFacts { section_matches: true, feedback: None, passes_hard_filter: true },
    ]);
    let mut audit = audit_section("recent", funnel, &rows, &texts(&["e"]), 5);
    assert_eq!(audit.ranked, ranked.len());
    assert_eq!(audit.quality_gates.len(), 7);
    audit.quality_gates = vec![gate("a", GateStatus::Pass)];
    let report = SectionReport {
        audit,
        figures: SectionFigures {
            relevance_min: "0.500000".to_owned(),
            relevance_median: "0.500000".to_owned(),
            relevance_max: "0.500000".to_owned(),
            clamp_rate: "0.00%".to_owned(),
            top_largest_bucket_share: "0.00%".to_owned(),
            quality_largest_bucket_share: "0.00%".to_owned(),
            largest_mode_share: "100.00%".to_owned(),
            resolvability_rate: "100.00%".to_owned(),
        },
    };
    let header = AuditHeader {
        database: "data.db".to_owned(),
        database_mode: "read_only".to_owned(),
        as_of: "2026-08-01".to_owned(),
        cutoff: "2026-02-02".to_owned(),
        algorithm_version: "rules".to_owned(),
        config_version: "v1".to_owned(),
        preference_source: "default".to_owned(),
        top: 5,
    };
    let summary =
        summarize_quality_gates(&vec![audited("recent", vec![gate("a", GateStatus::Pass)])]);
    let lines = audit_lines(&header, &vec![report], &summary, &texts(&["offline"]));
    assert_eq!(lines.len(), 8 + 14 + 1 + 1);
    assert_eq!(lines[0], "database=data.db");
    assert_eq!(lines[7], "top=5");
    assert_eq!(lines[8], "section=recent");
    assert_eq!(
        lines[9],
        "  funnel queried=2 section_eligible=2 feedback_eligible=2 hard_filter_eligible=2 ranked=2"
    );
    assert_eq!(lines[10], "  raw_relevance min=0.500000 median=0.500000 max=0.500000");
    assert_eq!(lines[11], "  exact_ties groups=1 items=2 largest=2");
    assert_eq!(lines[12], "  raw_rounded_100_ties groups=1 items=2 largest=2 distinct=1");
    assert_eq!(lines[13], "  clamp count=0 rate=0.00%");
    assert_eq!(
        lines[14],
        "  recommendation_index pool=2 eligible=false visible=0 hidden=2 distinct=0 largest_bucket=0"
    );
    assert_eq!(
        lines[15],
        "  top5_recommendation_index count=2 visible=0 hidden=2 distinct=0 largest_bucket=0 largest_bucket_share=0.00%"
    );
    assert_eq!(
        lines[16],
        "  top20_exact_ties groups=1 items=2 largest=2 distinct_evidence_vectors=2 distinct_visible_evidence_vectors=0 cross_vector_groups=0 largest_cross_vector_tie=0"
    );
    assert_eq!(
        lines[18],
        "  diversity pool_modes=1 top_modes=1 top_known_items=2 largest_mode=private_coop largest_mode_count=2 largest_mode_share=100.00%"
    );
    assert_eq!(
        lines[20],
        "  evidence referenced=2 unique=1 resolvable=1 unresolved=0 unresolved_samples_truncated=0 rate=100.00%"
    );
    assert_eq!(lines[21], "  gate a status=pass requirement=some detail=why");
    assert_eq!(
        lines[22],
        "quality_gates strict_compatible=true evaluated=1 passed=1 failed=0 not_applicable=0"
    );
    assert_eq!(lines[23], "limitation=offline");
}
