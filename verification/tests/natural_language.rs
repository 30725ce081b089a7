use std::cell::Cell;

use mpgs::ai::error::AiError;
use mpgs::ai::route::{default_task_routes, AiTaskType, ApiProtocol, TaskRouteConfig};
use mpgs::ai::sanitize::wrap_untrusted_data_block;
use mpgs::hashing::hex_sha256;
use mpgs::score::Score;
use mpgs::server::ai_rank::{
    apply_validated_ai_rank, blend_base, find_advice, global_natural_language_rerank,
    ranked_candidate_from_json, refresh_json_ranking_metadata, strip_internal_ranking_metadata,
    AiRankItem, AiRankResult, Slot,
};
use mpgs::server::enhance::{
    accept_most, ai_admission_failure_reason, ai_route_cache_identity, compact_json,
    enhancement_start, intent_data_prompt, new_analysis_id, new_request_id, next_admission_step,
    nl_ai_cache_key, progressive_outcome, rank_data_prompt, ranking_only, request_id_from,
    settle_enhancement, validate_rank_result_with_safe_degradation, AdmissionEvent,
    AdmissionStep, AiAdmissionError, AiEnhanceOutcome, CompactRow, EnhanceEvent, RankAttempts,
    RawRankAnswer, RawRankItem,
};
use mpgs::server::ai_requests::AiStatus;
use mpgs::server::enhance_flow::{
    enhancement_step, finish_enhancement, model_step, step_outcome, EnhanceStep, ModelStep,
};
use mpgs::server::errors::{storage_disabled, valid_request_id};
use mpgs::server::feed_query::FeedSection;
use mpgs::server::intent::{
    apply_intent_delta, apply_structured_intent, extract_party_size, extract_session_minutes,
    finalize_natural_language_constraints, interpret_natural_language, normalized_ai_query,
    recall_query, recall_sections, rule_intent_baseline, IntentDelta, ModeClass, ModeFamily,
    NaturalLanguageInterpretation, StructuredIntent,
};
use mpgs::server::model_json::{compact_row, route_identity_json, CandidateFacts};
use mpgs::server::natural_language::{
    analysis_found, check_analysis_request, complete_analysis, gather_pool, read_request,
    recall_pool, recommendation_page, record_search, AnalysisLookup, ANALYSIS_TTL_MS,
};
use mpgs::server::ranking::{
    select_internal_recall_candidates, Explanation, FeedRow, RankedCandidate, ScoreBreakdown,
    SlotReason,
};
use mpgs::server::recall::{
    build_natural_language_candidate_pool, json_app_id, json_item_relevance, merge_recalled,
    Components, HybridHit, RecalledItem,
};

fn score(value: f64) -> Score {
    Score::from_bits(value.to_bits())
}

fn value(score: Option<Score>) -> f64 {
    f64::from_bits(score.unwrap().to_bits())
}

fn texts(items: &[&str]) -> Vec<String> {
    items.iter().map(|item| item.to_string()).collect()
}

fn ranked_row(app_id: u32, relevance: f64) -> FeedRow {
    let half = score(0.5);
    FeedRow {
        candidate: RankedCandidate {
            app_id,
            name: format!("game-{app_id}"),
            dominant_mode: Some("private_coop".to_owned()),
            taxonomy_tags: texts(&["coop"]),
            publisher: None,
            series: None,
            recommended_min: Some(1),
            recommended_max: Some(4),
            data_confidence: score(0.8),
            score: ScoreBreakdown {
                friend_fit: half,
                section_score: score(relevance),
                personalized_score: score(relevance),
                group_fit: half,
                mode_fit: half,
                access_fit: half,
                hosting_fit: half,
                session_fit: half,
                quality: half,
                activity: half,
                freshness: half,
                risk: score(0.0),
                relevance_score: score(relevance),
                final_score: score(relevance.clamp(0.0, 1.0)),
            },
            explanation: Explanation {
                reasons: Vec::new(),
                cautions: Vec::new(),
                evidence_ids: Vec::new(),
            },
            slot_reason: SlotReason::Base,
            algorithm_version: "rules".to_owned(),
        },
        presentation: None,
    }
}

fn no_components() -> Components {
    Components {
        friend_fit: None,
        section_score: None,
        personalized_score: None,
        group_fit: None,
        mode_fit: None,
        access_fit: None,
        hosting_fit: None,
        session_fit: None,
        quality: None,
        activity: None,
        freshness: None,
        risk: None,
        relevance_score: None,
        final_score: None,
    }
}

fn blank_item() -> RecalledItem {
    RecalledItem {
        source: 0,
        app_id: None,
        name: None,
        dominant_mode: None,
        taxonomy_tags: Vec::new(),
        publisher: None,
        series: None,
        recommended_min: None,
        recommended_max: None,
        score: None,
        friend_fit: None,
        components: None,
        confidence: None,
        data_confidence: None,
        recommendation_index: None,
        rank: None,
        fit_band: None,
        slot_reason: None,
        reasons: Vec::new(),
        cautions: Vec::new(),
        evidence_ids: Vec::new(),
        reason_evidence: Vec::new(),
        ai_fit: None,
        ai_confidence: None,
        ai_reasons: Vec::new(),
        hybrid_score: None,
        algorithm_version: None,
    }
}

fn recalled(app_id: u32, relevance: f64) -> RecalledItem {
    RecalledItem {
        app_id: Some(app_id),
        score: Some(score(relevance.clamp(0.0, 1.0))),
        components: Some(Components {
            relevance_score: Some(score(relevance)),
            ..no_components()
        }),
        ..blank_item()
    }
}

fn from_rows(rows: &[FeedRow]) -> Vec<RecalledItem> {
    rows.iter()
        .map(|row| {
            let relevance = f64::from_bits(row.candidate.score.relevance_score.to_bits());
            recalled(row.candidate.app_id, relevance)
        })
        .collect()
}

fn ids(items: &[RecalledItem]) -> Vec<u32> {
    items.iter().map(json_app_id).collect()
}

// Understanding a request.

#[test]
fn ai_query_limits_count_unicode_characters_not_utf8_bytes() {
    assert_eq!(normalized_ai_query("  三人合作  ").as_deref(), Some("三人合作"));
    assert!(normalized_ai_query("游戏").is_none());
    assert!(normalized_ai_query(&"游".repeat(500)).is_some());
    assert!(normalized_ai_query(&"游".repeat(501)).is_none());
}

#[test]
fn generic_natural_language_recall_is_not_pinned_to_recent() {
    let generic = interpret_natural_language("四人合作，单局一小时以内，不要太竞技");
    assert_eq!(generic.selected_section, None);
    assert!(!generic.selected_section_explicit);

    let classic = interpret_natural_language("想找四人耐玩的经典老游戏");
    assert_eq!(classic.selected_section, Some(FeedSection::ClassicLegacy));
    assert!(classic.selected_section_explicit);

    let upcoming = interpret_natural_language("想玩即将发售的多人 demo");
    assert_eq!(upcoming.selected_section, Some(FeedSection::Upcoming));
    assert!(upcoming.selected_section_explicit);
}

fn classes(names: &[String]) -> Vec<ModeClass> {
    names
        .iter()
        .map(|name| ModeClass {
            family: match name.as_str() {
                "private_coop" => ModeFamily::PrivateCoop,
                "matchmade_pvp" => ModeFamily::MatchmadePvp,
                "self_hosted" => ModeFamily::SelfHosted,
                "public_world" => ModeFamily::PublicWorld,
                _ => ModeFamily::Unknown,
            },
            name: name.clone(),
        })
        .collect()
}

fn finalize(interpreted: &mut NaturalLanguageInterpretation) {
    let preferred = classes(&interpreted.modes_preferred);
    let excluded = classes(&interpreted.modes_excluded);
    finalize_natural_language_constraints(interpreted, &preferred, &excluded);
}

#[test]
fn natural_language_constraints_report_what_is_really_applied() {
    let mut interpreted = interpret_natural_language("四人合作，不要 pvp，想要自建服 demo");
    finalize(&mut interpreted);

    assert_eq!(interpreted.party_size, Some(4));
    assert!(interpreted.demo_only);
    assert!(interpreted.modes_preferred.iter().any(|mode| mode == "private_coop"));
    assert!(interpreted.modes_excluded.iter().any(|mode| mode == "matchmade_pvp"));
    assert!(interpreted.applied_constraints.iter().any(|field| field == "modes_excluded"));
    assert!(interpreted
        .unapplied_constraints
        .iter()
        .any(|field| field == "self_hosting_hard_filter"));
}

#[test]
fn capital_letters_say_the_same() {
    let small = interpret_natural_language("four players on linux, demo please");
    let large = interpret_natural_language("FOUR players on LINUX, DEMO please");
    assert_eq!(small.platforms, large.platforms);
    assert_eq!(small.demo_only, large.demo_only);
    assert!(large.demo_only);
}

#[test]
fn numbers_are_read_from_a_request() {
    assert_eq!(extract_party_size("三人合作"), Some(3));
    assert_eq!(extract_party_size("no number"), None);
    assert_eq!(extract_session_minutes("单局一小时以内"), Some(60));
    assert_eq!(extract_session_minutes("no number"), None);
}

#[test]
fn constraint_lists_hold_nothing_twice() {
    let mut interpreted = interpret_natural_language("四人合作，不要 pvp，想要自建服 demo，四人");
    finalize(&mut interpreted);
    for list in [
        &interpreted.hard_constraints,
        &interpreted.applied_constraints,
        &interpreted.unapplied_constraints,
    ] {
        let mut sorted = list.clone();
        sorted.sort();
        sorted.dedup();
        assert_eq!(sorted.len(), list.len(), "{list:?}");
    }
}

#[test]
fn a_delta_changes_what_it_names() {
    let mut interpreted = interpret_natural_language("四人合作");
    apply_intent_delta(
        &mut interpreted,
        &IntentDelta {
            party_size: Some(3),
            session_minutes_max: Some(45),
            platforms: Some(texts(&["linux"])),
            budget_max_each: Some(5_000),
            budget_currency: Some("CNY".to_owned()),
        },
    );
    assert_eq!(interpreted.party_size, Some(3));
    assert_eq!(interpreted.session_minutes_max, Some(45));
    assert_eq!(interpreted.platforms, texts(&["linux"]));
}

#[test]
fn a_structured_intent_takes_over() {
    let mut interpreted = interpret_natural_language("四人合作");
    let intent = StructuredIntent {
        party_size: Some(2),
        platforms: texts(&["windows"]),
        session_minutes_max: Some(30),
        has_budget: false,
        budget_max_each: None,
        budget_currency: None,
        self_hosting: None,
        demo_required: Some(true),
        modes_preferred: texts(&["private_coop"]),
        modes_excluded: Vec::new(),
        hard_constraints: texts(&["party_size"]),
        confidence: score(0.9),
    };
    assert!(intent.is_hard("party_size") && !intent.is_hard("budget"));
    apply_structured_intent(&mut interpreted, &intent);
    assert_eq!(interpreted.party_size, Some(2));
    assert_eq!(interpreted.intent_confidence, Some(score(0.9)));
    let query = recall_query(&interpreted);
    assert_eq!(query.party_size, Some(2));
    assert_eq!(query.demo_only, Some(true));
    assert_eq!(recall_sections(&interpreted), vec![FeedSection::Upcoming]);
    assert_eq!(recall_sections(&interpret_natural_language("四人合作")).len(), 4);
}

// Recall.

#[test]
fn rrf_hit_beyond_the_old_top_75_is_admitted_from_the_full_ranked_section() {
    let ranked: Vec<FeedRow> = (1..=100)
        .map(|app_id| ranked_row(app_id, 1.0 - f64::from(app_id) / 1_000.0))
        .collect();

    let selected = select_internal_recall_candidates(ranked, &vec![100], 75);
    let selected_ids: Vec<u32> = selected.iter().map(|row| row.candidate.app_id).collect();

    assert_eq!(selected.len(), 75);
    assert_eq!(selected_ids[0], 100, "RRF admission must happen before page truncation");
    assert!(selected_ids.contains(&1), "relevance still fills remaining capacity");

    let hits = vec![HybridHit { app_id: 100, score: score(1.0 / 61.0) }];
    let union = build_natural_language_candidate_pool(from_rows(&selected), &hits, 75);
    assert_eq!(json_app_id(&union[0]), 100);
    assert!(union[0].hybrid_score.is_some());
}

#[test]
fn retrieval_cannot_revive_an_id_absent_after_hard_filters() {
    let ranked = vec![ranked_row(1, 0.9), ranked_row(2, 0.8)];
    let selected = select_internal_recall_candidates(ranked, &vec![999, 2], 2);
    let selected_ids: Vec<u32> = selected.iter().map(|row| row.candidate.app_id).collect();

    assert_eq!(selected_ids, vec![2, 1]);
    assert!(!selected_ids.contains(&999));

    let hits = vec![
        HybridHit { app_id: 999, score: score(1.0) },
        HybridHit { app_id: 2, score: score(0.9) },
    ];
    let union = build_natural_language_candidate_pool(from_rows(&selected), &hits, 2);
    assert_eq!(ids(&union), vec![2, 1]);
}

#[test]
fn the_best_of_several_sections_stays() {
    let merged = merge_recalled(vec![recalled(1, 0.4), recalled(2, 0.5), recalled(1, 0.7)]);
    let mut found = ids(&merged);
    found.sort();
    assert_eq!(found, vec![1, 2]);
    let one = merged.iter().find(|item| json_app_id(item) == 1).unwrap();
    assert_eq!(json_item_relevance(one), score(0.7));
}

// Ranking.

#[test]
fn natural_language_global_mmr_is_stable_and_preserves_honest_slot_reasons() {
    let item = |app_id: u32, relevance: f64, mode: &str, tags: &[&str]| RecalledItem {
        app_id: Some(app_id),
        name: Some(format!("game-{app_id}")),
        score: Some(score(relevance)),
        confidence: Some(score(0.8)),
        data_confidence: Some(score(0.8)),
        recommendation_index: Some(80),
        recommended_min: Some(1),
        recommended_max: Some(4),
        dominant_mode: Some(mode.to_owned()),
        components: Some(Components {
            friend_fit: Some(score(0.8)),
            section_score: Some(score(relevance)),
            personalized_score: Some(score(relevance)),
            relevance_score: Some(score(relevance)),
            final_score: Some(score(relevance)),
            ..no_components()
        }),
        algorithm_version: Some("rules".to_owned()),
        taxonomy_tags: texts(tags),
        ..blank_item()
    };
    let original = || {
        vec![
            item(2, 0.99, "private_coop", &["action", "coop"]),
            item(3, 0.98, "matchmade_pvp", &["strategy", "pvp"]),
            item(1, 1.0, "private_coop", &["action", "coop"]),
        ]
    };
    let slots = vec![
        Slot { app_id: 1, reason: SlotReason::Base },
        Slot { app_id: 3, reason: SlotReason::Diversity },
        Slot { app_id: 2, reason: SlotReason::Base },
    ];
    let forward = global_natural_language_rerank(original(), &slots);
    let reverse = global_natural_language_rerank(original().into_iter().rev().collect(), &slots);

    assert_eq!(ids(&forward), vec![1, 3, 2]);
    assert_eq!(ids(&forward), ids(&reverse));
    assert_eq!(forward[0].slot_reason.as_deref(), Some("base"));
    assert_eq!(forward[1].slot_reason.as_deref(), Some("diversity"));
    assert_eq!(forward[0].rank, Some(1));
    assert_eq!(forward[1].rank, Some(2));
    assert_eq!(forward[2].rank, Some(3));

    let candidate = ranked_candidate_from_json(&original()[1], "rules").unwrap();
    assert_eq!(candidate.app_id, 3);
    assert_eq!(candidate.dominant_mode.as_deref(), Some("matchmade_pvp"));
    assert!(ranked_candidate_from_json(&blank_item(), "rules").is_none());
}

#[test]
fn an_item_without_a_slot_goes_and_one_without_a_game_stays() {
    let slots = vec![Slot { app_id: 2, reason: SlotReason::Base }];
    let items = vec![blank_item(), recalled(1, 0.5), recalled(2, 0.4)];
    let ordered = global_natural_language_rerank(items, &slots);
    assert_eq!(ordered.len(), 2);
    assert_eq!(ordered[0].app_id, Some(2));
    assert_eq!(ordered[1].app_id, None);
    assert_eq!(ordered[1].slot_reason.as_deref(), Some("base"));
}

fn advice(app_id: u32, fit: f64, evidence: &[&str], reasons: &[&str]) -> AiRankItem {
    AiRankItem {
        app_id,
        fit_score: score(fit),
        confidence: score(1.0),
        reason_evidence_ids: texts(evidence),
        reasons: texts(reasons),
        cautions: Vec::new(),
    }
}

/// A blend that leaves the base the larger part.
fn blend(items: &[RecalledItem], recommendations: &Vec<AiRankItem>) -> Vec<Score> {
    items
        .iter()
        .map(|item| {
            let base = f64::from_bits(blend_base(item).to_bits());
            match find_advice(recommendations, item) {
                Some(at) => {
                    let fit = f64::from_bits(recommendations[at].fit_score.to_bits());
                    score(base * 0.85 + fit * 0.15)
                }
                None => score(base),
            }
        })
        .collect()
}

#[test]
fn ai_rank_is_a_bounded_score_adjustment_not_array_order() {
    let item = |app_id: u32, base: f64, personal: f64, index: u8| RecalledItem {
        app_id: Some(app_id),
        score: Some(score(base)),
        confidence: Some(score(0.8)),
        data_confidence: Some(score(0.8)),
        recommendation_index: Some(index),
        components: Some(Components {
            personalized_score: Some(score(personal)),
            final_score: Some(score(base)),
            ..no_components()
        }),
        ..blank_item()
    };
    let items = vec![item(1, 0.9, 0.1, 90), item(2, 0.8, 0.8, 80), item(3, 0.79, 0.79, 70)];
    let recommendations = vec![
        advice(1, 0.0, &[], &[]),
        advice(2, 1.0, &["feature:test:2"], &["evidence-backed reason"]),
        advice(999, 1.0, &[], &[]),
    ];
    let blended = blend(&items, &recommendations);

    let items = apply_validated_ai_rank(items, &recommendations, &blended);

    assert_eq!(ids(&items), vec![2, 3, 1]);
    assert_eq!(items.len(), 3);
    assert!((value(items[2].score) - 0.765).abs() < 1e-12);
    assert!((value(items[0].score) - 0.83).abs() < 1e-12);
    assert_eq!(items[0].rank, Some(1));
    assert_eq!(items[0].evidence_ids, texts(&["feature:test:2"]));
    assert_eq!(items[0].reason_evidence, texts(&["feature:test:2"]));
    assert_eq!(items[1].rank, Some(2));
    assert_eq!(items[2].rank, Some(3));
}

#[test]
fn ranks_follow_the_order_and_internals_are_stripped() {
    let mut first = recalled(5, 0.3);
    first.taxonomy_tags = texts(&["coop"]);
    first.rank = Some(9);
    let refreshed = refresh_json_ranking_metadata(vec![first, recalled(6, 0.2)]);
    assert_eq!(refreshed[0].rank, Some(1));
    assert_eq!(refreshed[1].rank, Some(2));
    let stripped = strip_internal_ranking_metadata(refreshed);
    assert!(stripped[0].taxonomy_tags.is_empty());
}

fn given(json: &str) -> Option<String> {
    Some(json.to_owned())
}

/// Takes rankings of game 42, with the evidence `allowed` and no other.
fn validate(answer: &RawRankAnswer) -> Result<AiRankResult, AiError> {
    let refuse = |reason: &str| Err(AiError::InvalidOutput(reason.to_owned()));
    let number = |json: &Option<String>| json.as_deref().and_then(|text| text.parse::<f64>().ok());
    let is_backed = |json: &Option<String>| {
        matches!(json.as_deref(), None | Some("[]") | Some("[\"allowed\"]"))
    };
    let Some(list) = &answer.recommendations else {
        return refuse("no recommendations");
    };
    let mut recommendations = Vec::new();
    for item in list {
        if item.app_id.as_deref() != Some("42") {
            return refuse("unknown app");
        }
        let (Some(fit), Some(confidence)) = (number(&item.fit_score), number(&item.confidence))
        else {
            return refuse("no score");
        };
        if !is_backed(&item.reason_evidence_ids) {
            return refuse("unknown evidence");
        }
        recommendations.push(AiRankItem {
            app_id: 42,
            fit_score: score(fit),
            confidence: score(confidence),
            reason_evidence_ids: Vec::new(),
            reasons: if item.reasons.as_deref() == Some("[]") {
                Vec::new()
            } else {
                texts(&["a reason"])
            },
            cautions: Vec::new(),
        });
    }
    if !is_backed(&answer.summary_evidence_ids) {
        return refuse("unknown evidence");
    }
    let summary = answer.summary.clone().unwrap_or_default().replace('"', "");
    Ok(AiRankResult { recommendations, summary, summary_evidence_ids: Vec::new() })
}

/// Takes out what is not backed, where the games are known.
fn sanitize(answer: &RawRankAnswer) -> Option<(AiRankResult, bool)> {
    validate(&ranking_only(answer)?).ok().map(|result| (result, true))
}

fn unbacked_answer() -> RawRankAnswer {
    RawRankAnswer {
        recommendations: Some(vec![RawRankItem {
            app_id: given("42"),
            fit_score: given("0.8"),
            confidence: given("0.7"),
            reason_evidence_ids: given("[\"invented\"]"),
            reasons: given("[\"unsupported claim\"]"),
            cautions: given("[]"),
        }]),
        summary: given("\"unsupported summary\""),
        summary_evidence_ids: given("[\"invented\"]"),
    }
}

fn unknown_answer() -> RawRankAnswer {
    RawRankAnswer {
        recommendations: Some(vec![RawRankItem {
            app_id: given("999"),
            fit_score: given("0.8"),
            confidence: given("0.7"),
            reason_evidence_ids: None,
            reasons: None,
            cautions: None,
        }]),
        summary: given("\"\""),
        summary_evidence_ids: given("[]"),
    }
}

#[test]
fn ai_degradation_keeps_safe_scores_and_sanitizes_unverified_evidence() {
    let (result, notice) =
        validate_rank_result_with_safe_degradation(&unbacked_answer(), validate, sanitize).unwrap();
    assert_eq!(value(Some(result.recommendations[0].fit_score)), 0.8);
    assert!(result.recommendations[0].reasons.is_empty());
    assert!(result.recommendations[0].reason_evidence_ids.is_empty());
    assert!(result.summary.is_empty());
    assert!(result.summary_evidence_ids.is_empty());
    assert!(notice.is_some());

    assert!(
        validate_rank_result_with_safe_degradation(&unknown_answer(), validate, sanitize).is_err()
    );
}

#[test]
fn an_answer_that_cannot_be_sanitised_is_reduced_to_its_rankings() {
    let (result, notice) =
        validate_rank_result_with_safe_degradation(&unbacked_answer(), validate, |_| None).unwrap();
    assert_eq!(value(Some(result.recommendations[0].confidence)), 0.7);
    assert!(result.recommendations[0].reasons.is_empty() && result.summary.is_empty());
    assert_eq!(
        notice.as_deref(),
        Some(
            "AI ranking applied; generated explanations were discarded because strict \
             validation reported: unknown evidence"
        )
    );
    // The reason of the first refusal is told, whatever the later ones say.
    let listless = RawRankAnswer { recommendations: None, ..unbacked_answer() };
    let refused = validate_rank_result_with_safe_degradation(&listless, validate, |_| None);
    assert_eq!(refused.unwrap_err(), AiError::InvalidOutput("no recommendations".to_owned()));
    let refused = validate_rank_result_with_safe_degradation(&unknown_answer(), validate, |_| None);
    assert_eq!(refused.unwrap_err(), AiError::InvalidOutput("unknown app".to_owned()));

    // What is no matter of the output is not tried again, and what is in order not either.
    let tried = Cell::new(0);
    let late = |_: &RawRankAnswer| {
        tried.set(tried.get() + 1);
        Err(AiError::Timeout)
    };
    let refused = validate_rank_result_with_safe_degradation(&unbacked_answer(), late, |_| {
        panic!("nothing to sanitise")
    });
    assert_eq!((refused.unwrap_err(), tried.get()), (AiError::Timeout, 1));

    let reduced = ranking_only(&RawRankAnswer {
        recommendations: Some(vec![RawRankItem {
            fit_score: None,
            ..unbacked_answer().recommendations.unwrap().remove(0)
        }]),
        ..unbacked_answer()
    })
    .unwrap();
    let item = &reduced.recommendations.unwrap()[0];
    assert_eq!((item.app_id.as_deref(), item.fit_score.as_deref()), (Some("42"), Some("null")));
    assert_eq!(item.reasons.as_deref(), Some("[]"));
    assert_eq!(item.cautions.as_deref(), Some("[]"));
    assert_eq!(reduced.summary.as_deref(), Some("\"\""));
}

#[test]
fn an_attempt_is_settled_by_what_came_of_it() {
    let refused = || Err(AiError::InvalidOutput("x".to_owned()));
    let rank = || validate(&ranking_only(&unbacked_answer()).unwrap());
    let attempts = RankAttempts { strict: rank(), sanitized: None, ranking_only: None };
    assert_eq!(accept_most(attempts).unwrap().1, None);
    let attempts = RankAttempts {
        strict: refused(),
        sanitized: Some((rank().unwrap(), false)),
        ranking_only: None,
    };
    assert_eq!(accept_most(attempts).unwrap().1, None);
    let attempts = RankAttempts {
        strict: refused(),
        sanitized: None,
        ranking_only: Some(Err(AiError::InvalidOutput("y".to_owned()))),
    };
    assert_eq!(accept_most(attempts).unwrap_err(), AiError::InvalidOutput("x".to_owned()));
}

#[test]
fn the_rules_set_the_baseline() {
    let read = interpret_natural_language("四人合作");
    let at = |willingness: Option<f64>| {
        let rules = NaturalLanguageInterpretation {
            self_hosting_willingness: willingness.map(score),
            ..interpret_natural_language("四人合作")
        };
        rule_intent_baseline(&rules).self_hosting_required
    };
    assert_eq!(
        [at(None), at(Some(0.49)), at(Some(0.5)), at(Some(1.0)), at(Some(f64::NAN))],
        [false, false, true, true, false]
    );
    let baseline = rule_intent_baseline(&read);
    assert_eq!(baseline.party_size, Some(4));
    assert_eq!(baseline.platforms, read.platforms);
    assert_eq!(baseline.demo_required, read.demo_only);
    assert_eq!(baseline.coop_competitive, read.coop_competitive);
    assert_eq!(
        intent_data_prompt("四人合作"),
        wrap_untrusted_data_block("user_query", "四人合作", 500)
    );
}

#[test]
fn a_page_after_the_model_shows_recalled_games_once() {
    let pool = gather_pool(vec![recalled(1, 0.9), recalled(2, 0.5), recalled(3, 0.4)], &Vec::new());
    let event = EnhanceEvent::CacheHit {
        result: AiRankResult {
            recommendations: vec![advice(3, 0.9, &[], &[]), advice(1, 0.1, &[], &[])],
            summary: String::new(),
            summary_evidence_ids: Vec::new(),
        },
        model: "m".to_owned(),
        route_version: "v".to_owned(),
    };
    let blended = vec![score(0.1), score(0.5), score(0.8)];
    let (_, pool) = finish_enhancement(pool, event, &blended);
    assert_eq!(ids(&pool), [3, 2, 1]);
    let slots = vec![
        Slot { app_id: 3, reason: SlotReason::Base },
        Slot { app_id: 1, reason: SlotReason::Diversity },
        Slot { app_id: 2, reason: SlotReason::Base },
    ];
    let page = recommendation_page(pool, &slots, 2);
    assert_eq!(ids(&page.items), [3, 1]);
    assert_eq!(page.items[1].rank, Some(2));
}

// Identities.

fn rank_route(primary: &str, fallbacks: &[&str]) -> TaskRouteConfig {
    TaskRouteConfig {
        task: AiTaskType::RankExplain,
        primary_model: primary.to_owned(),
        fallback_models: texts(fallbacks),
        protocol_preference: vec![ApiProtocol::Responses, ApiProtocol::ChatCompletions],
        timeout_secs: 30,
        max_output_tokens: 1_200,
        enabled: true,
        route_version: "test-route".to_owned(),
    }
}

fn default_rank_route(primary: &str, fallbacks: &[&str]) -> TaskRouteConfig {
    let mut route = default_task_routes()
        .routes
        .into_iter()
        .find(|route| route.task == AiTaskType::RankExplain)
        .unwrap();
    route.primary_model = primary.to_owned();
    route.fallback_models = texts(fallbacks);
    route
}

#[test]
fn ai_cache_identity_changes_with_the_model_chain() {
    let first = default_rank_route("model-a", &["fallback-a"]);
    let second = default_rank_route("model-b", &["fallback-a"]);
    let third = default_rank_route("model-a", &["fallback-b"]);
    let identity = |route: &TaskRouteConfig| {
        ai_route_cache_identity("fake", Some(route), AiTaskType::RankExplain)
    };
    let first_identity = identity(&first);
    assert_ne!(first_identity, identity(&second));
    assert_ne!(first_identity, identity(&third));
    assert_eq!(first_identity, identity(&default_rank_route("model-a", &["fallback-a"])));
    let text = route_identity_json("fake", Some(&first), AiTaskType::RankExplain);
    assert_eq!(first_identity, format!("ai-route:{}", hex_sha256(text.as_bytes())));
}

#[test]
fn an_identity_names_the_provider_and_the_route() {
    let route = rank_route("model \"a\"", &["b", "c\n"]);
    assert_eq!(
        route_identity_json("fake", Some(&route), AiTaskType::RankExplain),
        "{\"provider\":\"fake\",\"route\":{\"enabled\":true,\
         \"fallback_models\":[\"b\",\"c\\n\"],\"max_output_tokens\":1200,\
         \"primary_model\":\"model \\\"a\\\"\",\
         \"protocol_preference\":[\"responses\",\"chat_completions\"],\
         \"route_version\":\"test-route\",\"task\":\"rank_explain\",\"timeout_ms\":30000}}"
    );
    assert_eq!(
        route_identity_json("fake", None, AiTaskType::IntentParse),
        "{\"provider\":\"fake\",\"route\":{\"route\":\"direct\",\"task\":\"intent_parse\"}}"
    );
}

#[test]
fn a_candidate_is_written_in_order_with_each_evidence_once() {
    let facts = CandidateFacts {
        app_id: 7,
        name: "a\\b \u{1} \u{e9}".to_owned(),
        section: None,
        release_date: Some("2025-01-02".to_owned()),
        recommended_min: Some(2),
        recommended_max: None,
        dominant_mode: Some("coop".to_owned()),
        evidence_ids: texts(&["feature:b:7", "feature:a:7", "feature:b:7"]),
    };
    let row = compact_row(&facts);
    assert_eq!(row.app_id, 7);
    assert_eq!(
        row.json,
        "{\"app_id\":7,\"evidence_ids\":[\"feature:a:7\",\"feature:b:7\"],\
         \"multiplayer\":{\"dominant_mode\":\"coop\"},\"name\":\"a\\\\b \\u0001 \u{e9}\",\
         \"party\":{\"recommended_max\":null,\"recommended_min\":2},\
         \"release_date\":\"2025-01-02\",\"section\":null}"
    );
}

#[test]
fn a_cached_answer_is_found_by_all_that_it_depends_on() {
    let key = |query: &str, scope: &str| {
        nl_ai_cache_key(query, "[]", "ai-route:x", scope, "r1", "p1", "a1")
    };
    assert_eq!(key("q", "s"), key("q", "s"));
    assert_ne!(key("q", "s"), key("q2", "s"));
    assert_ne!(key("q", "s"), key("q", "s2"));
}

#[test]
fn candidates_are_listed_by_identifier() {
    let rows = vec![
        CompactRow { app_id: 9, json: "{\"app_id\":9}".to_owned() },
        CompactRow { app_id: 2, json: "{\"app_id\":2}".to_owned() },
    ];
    assert_eq!(compact_json(rows), "[{\"app_id\":2},{\"app_id\":9}]");
}

#[test]
fn identifiers_are_made_of_what_is_given() {
    assert_ne!(new_analysis_id(1, 2), new_analysis_id(1, 3));
    let bytes: Vec<u8> = (0..16).collect();
    assert!(request_id_from(Some(bytes), 1, 2).contains("000102030405060708090a0b0c0d0e0f"));
    assert!(valid_request_id(&request_id_from(None, 1, 2)));
    let fresh = new_request_id(1, 2);
    assert!(valid_request_id(&fresh));
    assert_ne!(fresh, new_request_id(1, 2));
}

// Enhancing.

#[test]
fn a_call_is_admitted_step_by_step() {
    let mut step = AdmissionStep::TakePermit;
    let mut taken = 0;
    while !matches!(step, AdmissionStep::Granted | AdmissionStep::Denied(_)) {
        step = next_admission_step(step, AdmissionEvent::Passed, true);
        taken += 1;
    }
    assert!(matches!(step, AdmissionStep::Granted));
    assert_eq!(taken, 3);
    assert!(matches!(
        next_admission_step(AdmissionStep::ChargeDay, AdmissionEvent::Exhausted, true),
        AdmissionStep::Denied(AiAdmissionError::BudgetExhausted)
    ));
}

#[test]
fn an_enhancement_ends_in_one_state() {
    let (outcome, result) = settle_enhancement(EnhanceEvent::Failed {
        error: AiError::Timeout,
        general: "the provider did not answer".to_owned(),
    });
    assert!(matches!(outcome.status, AiStatus::Fallback));
    assert_eq!(outcome.fallback_reason.as_deref(), Some("the provider did not answer"));
    assert!(result.is_none());
    assert!(enhancement_start(3, true, "off").is_none());
    assert!(enhancement_start(3, false, "off").is_some());
    assert!(matches!(progressive_outcome(true, "off").status, AiStatus::Pending));
    assert!(matches!(progressive_outcome(false, "off").status, AiStatus::Fallback));
}

#[test]
fn the_model_is_asked_only_where_the_call_is_admitted() {
    let step = |progressive, cached, admission| {
        enhancement_step(progressive, 3, 2, true, cached, admission)
    };
    let granted = || Some(AdmissionStep::Granted);
    assert_eq!(step(false, false, granted()), EnhanceStep::CallModel);
    assert_eq!(step(true, false, granted()), EnhanceStep::AnswerPending);
    assert_eq!(step(false, true, None), EnhanceStep::UseCached);
    assert_eq!(step(false, true, granted()), EnhanceStep::UseCached);
    assert_eq!(step(false, false, None), EnhanceStep::NotAdmitted);
    assert_eq!(
        step(false, false, Some(AdmissionStep::ChargeDay)),
        EnhanceStep::Admit(AdmissionStep::ChargeDay)
    );
    let denied = AdmissionStep::Denied(AiAdmissionError::BudgetExhausted);
    assert_eq!(
        step(false, false, Some(denied)),
        EnhanceStep::Refused(AiAdmissionError::BudgetExhausted)
    );
    assert_eq!(enhancement_step(true, 3, 2, false, false, None), EnhanceStep::Unavailable);
    assert_eq!(enhancement_step(false, 3, 2, false, true, granted()), EnhanceStep::Unavailable);
    assert_eq!(enhancement_step(false, 0, 0, false, true, granted()), EnhanceStep::Disabled);
    assert_eq!(enhancement_step(false, 0, 0, true, false, granted()), EnhanceStep::NothingToRank);
    assert_eq!(enhancement_step(false, 3, 0, true, false, granted()), EnhanceStep::NoCandidates);

    assert_eq!(model_step(true, granted()), ModelStep::Call);
    assert_eq!(model_step(true, None), ModelStep::NotAdmitted);
    let first = AdmissionStep::TakePermit;
    assert_eq!(model_step(true, Some(first)), ModelStep::Admit(first));
}

#[test]
fn a_step_that_asks_no_model_has_its_answer() {
    let refused = EnhanceStep::Refused(AiAdmissionError::BudgetExhausted);
    let outcome = step_outcome(refused, "off", "used up").unwrap();
    assert_eq!(outcome.status, AiStatus::Fallback);
    assert_eq!(outcome.fallback_reason.as_deref(), Some("used up"));
    let disabled = step_outcome(EnhanceStep::Disabled, "off", "used up").unwrap();
    assert_eq!(disabled.status, AiStatus::Disabled);
    assert_eq!(disabled.fallback_reason.as_deref(), Some("off"));
    let pending = step_outcome(EnhanceStep::AnswerPending, "off", "used up").unwrap();
    assert_eq!(pending.status, AiStatus::Pending);
    assert!(step_outcome(EnhanceStep::CallModel, "off", "used up").is_none());
    assert!(step_outcome(EnhanceStep::UseCached, "off", "used up").is_none());
}

#[test]
fn a_failed_enhancement_leaves_the_ranking_alone() {
    let items = || vec![recalled(1, 0.9), recalled(2, 0.5)];
    let blended = vec![score(0.1), score(0.8)];
    let failed = EnhanceEvent::Failed {
        error: AiError::Timeout,
        general: "the provider did not answer".to_owned(),
    };
    let (outcome, kept) = finish_enhancement(items(), failed, &blended);
    assert_eq!(outcome.status, AiStatus::Fallback);
    assert!(outcome.fallback_reason.is_some());
    assert_eq!(ids(&kept), [1, 2]);
    assert_eq!(kept[0].score, items()[0].score);

    let accepted = EnhanceEvent::CacheHit {
        result: AiRankResult {
            recommendations: vec![advice(2, 0.9, &[], &[]), advice(1, 0.1, &[], &[])],
            summary: String::new(),
            summary_evidence_ids: Vec::new(),
        },
        model: "m".to_owned(),
        route_version: "v".to_owned(),
    };
    let (outcome, ranked) = finish_enhancement(items(), accepted, &blended);
    assert_eq!(outcome.status, AiStatus::Cached);
    assert_eq!(ids(&ranked), [2, 1]);
}

// The answer, and what is recorded of it.

#[test]
fn a_request_is_checked_and_then_read() {
    let message =
        |query: &str, limit: Option<i64>| read_request(query, limit, None).unwrap_err().message;
    assert_eq!(message(" a ", Some(99)), "query must contain between 3 and 500 characters");
    assert_eq!(message("co-op", Some(11)), "limit must be between 3 and 10");
    let delta = IntentDelta {
        party_size: Some(3),
        session_minutes_max: None,
        platforms: None,
        budget_max_each: None,
        budget_currency: None,
    };
    let (plan, read) = read_request("  四人合作 ", None, Some(&delta)).unwrap();
    assert_eq!((plan.query.as_str(), plan.limit), ("四人合作", 6));
    assert_eq!(read.party_size, Some(3));
    assert_eq!(read_request("四人合作", Some(3), None).unwrap().1.party_size, Some(4));
}

#[test]
fn sections_are_asked_until_one_fails() {
    let (_, read) = read_request("四人合作", None, None).unwrap();
    let hits = vec![HybridHit { app_id: 2, score: score(0.9) }];
    let pool = recall_pool(&read, &hits, |section, query| {
        assert_eq!(query.party_size, Some(4));
        assert_eq!(query.limit, Some(300));
        Ok(match section {
            FeedSection::RecentRelease => vec![recalled(1, 0.4), recalled(2, 0.3)],
            FeedSection::Upcoming => vec![recalled(1, 0.6)],
            _ => Vec::new(),
        })
    })
    .unwrap();
    assert_eq!(ids(&pool), [2, 1]);
    assert_eq!(json_item_relevance(&pool[1]), score(0.6));

    let asked = Cell::new(0);
    let failed = recall_pool(&read, &hits, |section, _| {
        asked.set(asked.get() + 1);
        match section {
            FeedSection::Upcoming => Err(storage_disabled()),
            _ => Ok(Vec::new()),
        }
    });
    assert_eq!(failed.unwrap_err().message, "storage is disabled");
    assert_eq!(asked.get(), 2);
}

#[test]
fn a_page_shows_recalled_games_once() {
    let hits = vec![
        HybridHit { app_id: 3, score: score(0.9) },
        HybridHit { app_id: 99, score: score(0.8) },
    ];
    let recalled_items =
        vec![recalled(1, 0.9), recalled(2, 0.5), recalled(1, 0.95), recalled(3, 0.1)];
    let pool = gather_pool(recalled_items, &hits);
    assert_eq!(ids(&pool), [3, 1, 2]);
    assert_eq!(value(pool[0].hybrid_score), 0.9);
    assert_eq!(value(pool[1].score), 0.95);

    let slots = vec![
        Slot { app_id: 1, reason: SlotReason::Base },
        Slot { app_id: 99, reason: SlotReason::Explore },
        Slot { app_id: 3, reason: SlotReason::Diversity },
        Slot { app_id: 1, reason: SlotReason::Explore },
        Slot { app_id: 2, reason: SlotReason::Base },
    ];
    let mut pool = pool;
    pool[0].publisher = Some("publisher".to_owned());
    pool[0].taxonomy_tags = vec!["tag".to_owned()];
    let page = recommendation_page(pool, &slots, 2);
    assert_eq!(page.candidate_ids, [1, 3, 2]);
    assert_eq!(ids(&page.items), [1, 3]);
    assert_eq!(page.items[1].rank, Some(2));
    assert_eq!(page.items[1].slot_reason.as_deref(), Some("diversity"));
    assert!(page.items[1].publisher.is_none());
    assert!(page.items[1].taxonomy_tags.is_empty());
}

#[test]
fn a_progressive_search_is_recorded_as_pending() {
    let record = record_search(true, Some("pending"), 5);
    assert_eq!(record.status, "pending");
    assert_eq!(record.expires_at_ms, 5 + ANALYSIS_TTL_MS);
    assert!(record.in_background);

    let record = record_search(true, Some("fallback"), i64::MAX);
    assert_eq!(record.status, "fallback");
    assert_eq!(record.expires_at_ms, i64::MAX);
    assert!(!record.in_background);

    assert!(record_search(true, Some("cached"), 0).in_background);
    assert!(!record_search(false, Some("pending"), 0).in_background);
}

#[test]
fn a_finished_analysis_says_whether_it_fell_back() {
    let done = complete_analysis(AiEnhanceOutcome::fallback("no model"), Some("v1".to_owned()));
    assert_eq!(done.status, AiStatus::Fallback);
    assert_eq!(done.error_category.as_deref(), Some("ai_fallback"));
    assert_eq!(done.fallback_reason.as_deref(), Some("no model"));
    assert_eq!(done.route_version.as_deref(), Some("v1"));

    let outcome = AiEnhanceOutcome {
        status: AiStatus::Used,
        fallback_reason: None,
        route_version: Some("v2".to_owned()),
        ..AiEnhanceOutcome::fallback("")
    };
    let done = complete_analysis(outcome, Some("v1".to_owned()));
    assert_eq!(done.error_category, None);
    assert_eq!(done.route_version.as_deref(), Some("v2"));
}

#[test]
fn an_analysis_is_looked_up_by_its_identifier() {
    let missing = check_analysis_request(false, "").unwrap_err();
    assert_eq!((missing.status, missing.code.as_str()), (503, "storage_unavailable"));
    assert_eq!(check_analysis_request(true, " ").unwrap_err().status, 400);
    assert!(check_analysis_request(true, "a-1").is_ok());
    assert!(analysis_found(AnalysisLookup::Found).is_ok());
    assert_eq!(analysis_found(AnalysisLookup::Absent).unwrap_err().status, 404);
    assert_eq!(
        analysis_found(AnalysisLookup::Failed).unwrap_err().message,
        "failed to load analysis"
    );
}

#[test]
fn the_model_is_given_the_candidates_before_the_query() {
    let prompt = rank_data_prompt("[{\"app_id\":1}]", "co-op");
    let candidates = wrap_untrusted_data_block("candidates_json", "[{\"app_id\":1}]", 12_000);
    let query = wrap_untrusted_data_block("user_query", "co-op", 500);
    assert_eq!(prompt, format!("{candidates}\n\n{query}"));
    assert!(prompt.find("app_id").unwrap() < prompt.find("co-op").unwrap());
}

#[test]
fn a_refused_call_says_why() {
    assert_eq!(
        ai_admission_failure_reason(AiAdmissionError::BudgetExhausted, "used up"),
        "used up"
    );
    assert_eq!(
        ai_admission_failure_reason(AiAdmissionError::TemporarilyUnavailable, "used up"),
        "AI account quota is temporarily unavailable; deterministic results are shown"
    );
}
