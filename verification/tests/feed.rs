use std::cmp::Ordering;
use std::collections::{HashMap, HashSet};

use mpgs::hashing::recommendation_tie_seed;
use mpgs::score::Score;
use mpgs::server::candidates::{prepare_candidates, CandidateRow};
use mpgs::server::errors::ApiError;
use mpgs::server::feed::{
    admit_candidate, assemble_feed, combined_feedback_personal_adjustment,
    effective_feature_count, feedback_personal_adjustment, FeatureFacts, PlayIntent,
};
use mpgs::server::feed_query::{
    apply_feed_overrides, dated_result_context, decode_cursor, encode_cursor, feed_etag,
    feed_offset, feed_result_context, hard_constraints_from_feed_query, if_none_match_ok,
    parse_csv_filter, plan_feed_request, recommendation_context, ActiveFeedback, CursorError,
    FeedPlan, FeedPreferences, FeedQuery, FeedSort, FeedSortOrder, FeedTag,
};
use mpgs::server::feed_request::{
    answer_feed, locate_feed, FeedAnswer, FeedRequest, RankingTask,
};
use mpgs::server::ranking::{
    apply_feed_sort, compare_optional_missing_last, context_percentile_indices,
    context_percentile_indices_for_window, fit_band, resolve_feed_cover_url,
    select_internal_recall_candidates, slot_reason_str, visible_recommendation_index,
    Explanation, FeedPresentation, FeedRow, RankedCandidate, ScoreBreakdown, SlotReason,
};

fn score(value: f64) -> Score {
    Score::from_bits(value.to_bits())
}

fn recall_candidate(app_id: u32, relevance_score: f64) -> RankedCandidate {
    let half = score(0.5);
    RankedCandidate {
        app_id,
        name: format!("game-{app_id}"),
        dominant_mode: Some("private_coop".to_owned()),
        taxonomy_tags: vec!["coop".to_owned()],
        publisher: None,
        series: None,
        recommended_min: Some(1),
        recommended_max: Some(4),
        data_confidence: score(0.8),
        score: ScoreBreakdown {
            friend_fit: half,
            section_score: score(relevance_score),
            personalized_score: score(relevance_score),
            group_fit: half,
            mode_fit: half,
            access_fit: half,
            hosting_fit: half,
            session_fit: half,
            quality: half,
            activity: half,
            freshness: half,
            risk: score(0.0),
            relevance_score: score(relevance_score),
            final_score: score(relevance_score.clamp(0.0, 1.0)),
        },
        explanation: Explanation {
            reasons: Vec::new(),
            cautions: Vec::new(),
            evidence_ids: Vec::new(),
        },
        slot_reason: SlotReason::Base,
        algorithm_version: "rules".to_owned(),
    }
}

fn feed_presentation(data_confidence: f64, effective_feature_count: usize) -> FeedPresentation {
    FeedPresentation {
        release_date: None,
        release_date_raw: None,
        release_date_precision: None,
        cover_url: None,
        cover_updated_at_ms: None,
        total_reviews: None,
        total_positive: None,
        latest_ccu: None,
        typical_ccu_7d: None,
        data_confidence: score(data_confidence),
        effective_feature_count,
        profile_observed_at_ms: None,
        reviews_observed_at_ms: None,
        activity_observed_at_ms: None,
        price_observed_at_ms: None,
        release_observed_at_ms: None,
    }
}

fn row(app_id: u32, relevance: f64, presentation: Option<FeedPresentation>) -> FeedRow {
    FeedRow { candidate: recall_candidate(app_id, relevance), presentation }
}

fn ids(rows: &[FeedRow]) -> Vec<u32> {
    rows.iter().map(|row| row.candidate.app_id).collect()
}

fn texts(items: &[&str]) -> Vec<String> {
    items.iter().map(|item| item.to_string()).collect()
}

fn query() -> FeedQuery {
    FeedQuery {
        limit: None,
        page: None,
        cursor: None,
        party_size: None,
        coop_competitive: None,
        self_hosting_willingness: None,
        platforms: None,
        languages: None,
        excluded_modes: None,
        session_minutes_min: None,
        session_minutes_max: None,
        max_price_minor: None,
        currency: None,
        demo_only: None,
        sort: None,
        order: None,
    }
}

// Context and cursors.

#[test]
fn feed_result_context_binds_sort_order_and_demo_filter() {
    let base = feed_result_context("prefs", FeedSort::Recommended, FeedSortOrder::Desc, false);
    assert_ne!(
        base,
        feed_result_context("prefs", FeedSort::Ccu, FeedSortOrder::Desc, false)
    );
    assert_eq!(
        base,
        feed_result_context("prefs", FeedSort::Recommended, FeedSortOrder::Asc, false)
    );
    assert_ne!(
        base,
        feed_result_context("prefs", FeedSort::Recommended, FeedSortOrder::Desc, true)
    );
}

#[test]
fn recommendation_tie_seed_is_stable_per_user_day_and_rotates_context() {
    let seed = recommendation_tie_seed(Some("account-a"), "2026-08-02");
    assert_eq!(seed, recommendation_tie_seed(Some("account-a"), "2026-08-02"));
    assert_ne!(seed, recommendation_tie_seed(Some("account-a"), "2026-08-03"));
    assert_ne!(seed, recommendation_tie_seed(Some("account-b"), "2026-08-02"));
    assert_eq!(
        recommendation_tie_seed(None, "2026-08-02"),
        recommendation_tie_seed(Some("public"), "2026-08-02")
    );
}

#[test]
fn recommended_order_is_ignored_but_scalar_sort_order_is_validated() {
    assert_eq!(
        FeedSortOrder::parse(Some("asc"), FeedSort::Recommended),
        Ok(FeedSortOrder::Desc)
    );
    assert_eq!(
        FeedSortOrder::parse(Some("not-an-order"), FeedSort::Recommended),
        Ok(FeedSortOrder::Desc)
    );
    assert_eq!(
        FeedSortOrder::parse(Some("asc"), FeedSort::Ccu),
        Ok(FeedSortOrder::Asc)
    );
    assert_eq!(FeedSortOrder::parse(Some("invalid"), FeedSort::Ccu), Err(()));
}

#[test]
fn a_cursor_leads_back_to_its_offset() {
    let cursor = encode_cursor("recent", 5, "ctx|tie_day=2026-08-02", 9, 40);
    let read = |section: &str, snapshot: i64, context: &str, revision: u64| {
        decode_cursor(Some(&cursor), section, snapshot, context, revision)
    };
    assert_eq!(read("recent", 5, "ctx|tie_day=2026-08-02", 9), Ok(40));
    assert_eq!(read("recent", 6, "ctx|tie_day=2026-08-02", 9), Err(CursorError::Stale));
    assert_eq!(read("recent", 5, "ctx|tie_day=2026-08-03", 9), Err(CursorError::Stale));
    assert_eq!(read("recent", 5, "ctx|tie_day=2026-08-02", 8), Err(CursorError::Stale));
    assert_eq!(decode_cursor(None, "recent", 5, "ctx", 9), Ok(0));
    assert_eq!(decode_cursor(Some("nonsense"), "recent", 5, "ctx", 9), Err(CursorError::Invalid));
}

#[test]
fn an_offset_comes_from_the_page_or_the_cursor() {
    assert_eq!(feed_offset(Some(3), None, "recent", 5, "c", 1, 20).unwrap(), 40);
    assert_eq!(feed_offset(Some(i64::MAX), None, "recent", 5, "c", 1, 20).unwrap(), usize::MAX);
    assert_eq!(feed_offset(Some(0), None, "recent", 5, "c", 1, 20).unwrap_err().status, 400);
    let cursor = encode_cursor("recent", 5, "c", 1, 7);
    assert_eq!(feed_offset(None, Some(&cursor), "recent", 5, "c", 1, 20).unwrap(), 7);
    let stale = feed_offset(None, Some(&cursor), "recent", 5, "c", 2, 20).unwrap_err();
    assert_eq!((stale.status, stale.code.as_str()), (409, "cursor_stale"));
    let broken = feed_offset(None, Some("?"), "recent", 5, "c", 1, 20).unwrap_err();
    assert_eq!(broken.message, "invalid feed cursor");
}

// The request.

#[test]
fn a_request_is_checked_in_order() {
    let plan = plan_feed_request(&query(), false, Ok(())).unwrap();
    assert_eq!(
        plan,
        FeedPlan {
            limit: 20,
            sort: FeedSort::Recommended,
            order: FeedSortOrder::Desc,
            demo_only: false,
        }
    );
    let refused = plan_feed_request(&query(), false, Err("bad".to_owned())).unwrap_err();
    assert_eq!(refused.message, "bad");
    let large = FeedQuery { limit: Some(101), ..query() };
    assert_eq!(
        plan_feed_request(&large, false, Ok(())).unwrap_err().message,
        "limit must be between 1 and 100"
    );
    assert_eq!(plan_feed_request(&large, true, Ok(())).unwrap().limit, 101);
    let sort = FeedQuery { sort: Some("size".to_owned()), ..query() };
    assert_eq!(
        plan_feed_request(&sort, false, Ok(())).unwrap_err().message,
        "sort must be recommended, fit_index, ccu, reviews, or release_date"
    );
    let order =
        FeedQuery { sort: Some("ccu".to_owned()), order: Some("up".to_owned()), ..query() };
    assert_eq!(
        plan_feed_request(&order, false, Ok(())).unwrap_err().message,
        "order must be asc or desc"
    );
}

fn preferences() -> FeedPreferences {
    FeedPreferences {
        party_size: 4,
        coop_competitive: score(0.5),
        self_hosting_willingness: score(0.5),
        platforms: texts(&["windows"]),
        languages: Vec::new(),
        excluded_modes: Vec::new(),
        session_minutes_min: 0,
        session_minutes_max: 240,
        budget_max_each_minor: None,
        budget_currency: "CNY".to_owned(),
    }
}

#[test]
fn a_request_overrides_stored_preferences() {
    let asked = FeedQuery {
        party_size: Some(2),
        platforms: Some(" Linux , ,MAC".to_owned()),
        currency: Some("usd".to_owned()),
        ..query()
    };
    let prefs = apply_feed_overrides(preferences(), &asked).unwrap();
    assert_eq!(prefs.party_size, 2);
    assert_eq!(prefs.platforms, texts(&["linux", "mac"]));
    assert_eq!(prefs.budget_currency, "USD");
    assert_eq!(prefs.session_minutes_max, 240);
    let large = FeedQuery { party_size: Some(65), ..query() };
    assert_eq!(
        apply_feed_overrides(preferences(), &large).unwrap_err().message,
        "party_size must be between 1 and 64"
    );
    assert_eq!(
        parse_csv_filter("languages", " , ").unwrap_err().message,
        "languages must be a comma-separated list of 1 to 32 values"
    );
}

#[test]
fn only_what_a_request_names_is_a_hard_filter() {
    let none = hard_constraints_from_feed_query(&query());
    assert!(!none.modes && !none.party_size && !none.platforms && !none.budget);
    let some = hard_constraints_from_feed_query(&FeedQuery {
        coop_competitive: Some(score(0.1)),
        max_price_minor: Some(100),
        ..query()
    });
    assert!(some.modes && some.budget && !some.languages && !some.session_length);
}

#[test]
fn a_tag_names_all_that_a_page_depends_on() {
    let tag = |offset: usize, user: Option<&str>| FeedTag {
        build: "b".to_owned(),
        section: "recent".to_owned(),
        snapshot_ms: 5,
        result_context: "c".to_owned(),
        offset,
        limit: 20,
        config_version: "v".to_owned(),
        play_intent_revision: 1,
        user_id: user.map(|id| id.to_owned()),
        sort: FeedSort::Ccu,
        order: FeedSortOrder::Asc,
        demo_only: false,
    };
    let etag = feed_etag(&tag(0, None));
    assert!(etag.starts_with("W/\""));
    assert_eq!(etag, feed_etag(&tag(0, Some("public"))));
    assert_ne!(etag, feed_etag(&tag(20, None)));
    assert_ne!(etag, feed_etag(&tag(0, Some("someone"))));
    assert!(if_none_match_ok(Some(&etag), &etag));
    assert!(!if_none_match_ok(None, &etag));
}

#[test]
fn the_context_follows_preferences_feedback_and_day() {
    let feedback = vec![ActiveFeedback { app_id: 7, feedback_type: "like".to_owned() }];
    let base = recommendation_context("{}", &Vec::new(), "v", "{}");
    assert_ne!(base, recommendation_context("{}", &feedback, "v", "{}"));
    assert_ne!(base, recommendation_context("{}", &Vec::new(), "w", "{}"));
    let plan = plan_feed_request(&query(), false, Ok(())).unwrap();
    let dated = dated_result_context(&base, &plan, "2026-08-02");
    assert!(dated.ends_with("|tie_day=2026-08-02"));
    assert_ne!(dated, dated_result_context(&base, &plan, "2026-08-03"));
}

// Feedback.

#[test]
fn played_feedback_demotes_discovery_results() {
    assert!(feedback_personal_adjustment(Some("played"), score(0.0)) < 0);
    assert!(feedback_personal_adjustment(Some("like"), score(0.0)) > 0);
    let combined =
        combined_feedback_personal_adjustment(&texts(&["played", "like"]), score(0.0));
    assert!((f64::from(combined) / 100.0 - 0.1).abs() < 1e-12);
}

#[test]
fn feedback_is_weighed_and_bounded() {
    assert_eq!(feedback_personal_adjustment(Some("too_competitive"), score(0.5)), -30);
    assert_eq!(feedback_personal_adjustment(Some("too_competitive"), score(0.49)), -15);
    assert_eq!(feedback_personal_adjustment(Some("hosting_friction"), score(0.9)), -15);
    assert_eq!(feedback_personal_adjustment(None, score(0.9)), 0);
    let many = texts(&["like", "like", "like", "like"]);
    assert_eq!(combined_feedback_personal_adjustment(&many, score(0.0)), 50);
}

#[test]
fn unwanted_games_do_not_enter() {
    assert!(admit_candidate(false, false, &texts(&["played"]), true));
    assert!(!admit_candidate(true, false, &Vec::new(), true));
    assert!(!admit_candidate(false, true, &texts(&["like", "not_interested"]), true));
    assert!(!admit_candidate(false, true, &texts(&["party_size_mismatch"]), true));
    assert!(!admit_candidate(false, true, &Vec::new(), false));
}

#[test]
fn features_count_once_each() {
    let facts = FeatureFacts {
        total_reviews: Some(10),
        total_positive: Some(9),
        latest_ccu: None,
        typical_ccu_7d: Some(3),
        has_release_date: true,
        has_demo: true,
        multiplayer_confidence: vec![score(0.0), score(0.4)],
    };
    assert_eq!(effective_feature_count(&facts), 5);
    let bare = FeatureFacts {
        total_reviews: Some(0),
        total_positive: Some(0),
        latest_ccu: None,
        typical_ccu_7d: None,
        has_release_date: false,
        has_demo: false,
        multiplayer_confidence: vec![score(0.0)],
    };
    assert_eq!(effective_feature_count(&bare), 0);
}

// Ranking.

#[test]
fn recommendation_and_fit_index_use_the_same_strict_score_order() {
    assert_eq!(FeedSort::parse(Some("fit_index")), Ok(FeedSort::FitIndex));
    assert_eq!(FeedSort::parse(Some("relevance")), Ok(FeedSort::FitIndex));
    assert_eq!(FeedSort::parse(Some("fit")), Ok(FeedSort::FitIndex));
    assert_eq!(FeedSortOrder::parse(None, FeedSort::FitIndex), Ok(FeedSortOrder::Desc));

    let original = || {
        vec![
            row(1, 0.2, Some(feed_presentation(0.8, 3))),
            row(2, 0.9, Some(feed_presentation(0.8, 3))),
            row(3, 0.5, Some(feed_presentation(0.8, 3))),
            row(4, 0.99, Some(feed_presentation(0.4, 2))),
        ]
    };
    let descending = apply_feed_sort(original(), FeedSort::FitIndex, FeedSortOrder::Desc);
    assert_eq!(ids(&descending), vec![2, 3, 1, 4]);
    let recommended = apply_feed_sort(original(), FeedSort::Recommended, FeedSortOrder::Desc);
    assert_eq!(ids(&recommended), vec![2, 3, 1, 4]);
    let ascending = apply_feed_sort(original(), FeedSort::FitIndex, FeedSortOrder::Asc);
    assert_eq!(ids(&ascending), vec![1, 3, 2, 4]);
}

#[test]
fn optional_feed_sort_values_are_missing_last_in_both_directions() {
    assert_eq!(
        compare_optional_missing_last(None, Some(1_u32), FeedSortOrder::Asc),
        Ordering::Greater
    );
    assert_eq!(
        compare_optional_missing_last(None, Some(1_u32), FeedSortOrder::Desc),
        Ordering::Greater
    );
    assert_eq!(
        compare_optional_missing_last(Some(1_u32), Some(2), FeedSortOrder::Asc),
        Ordering::Less
    );
    assert_eq!(
        compare_optional_missing_last(Some(1_u32), Some(2), FeedSortOrder::Desc),
        Ordering::Greater
    );
}

#[test]
fn rows_without_a_value_are_last_either_way() {
    let rows = || {
        let mut dated = feed_presentation(0.8, 3);
        dated.release_date = Some("2026-01-02".to_owned());
        let mut later = feed_presentation(0.8, 3);
        later.release_date = Some("2026-03-01".to_owned());
        vec![row(1, 0.9, None), row(2, 0.1, Some(dated)), row(3, 0.1, Some(later))]
    };
    let up = apply_feed_sort(rows(), FeedSort::ReleaseDate, FeedSortOrder::Asc);
    assert_eq!(ids(&up), vec![2, 3, 1]);
    let down = apply_feed_sort(rows(), FeedSort::ReleaseDate, FeedSortOrder::Desc);
    assert_eq!(ids(&down), vec![3, 2, 1]);
}

#[test]
fn api_context_percentile_uses_midrank_for_exact_ties() {
    let mut scores = vec![(1, score(0.9)), (2, score(0.9))];
    scores.extend((3..=10).map(|app_id| (app_id, score(1.0 - f64::from(app_id) / 10.0))));
    let indices = context_percentile_indices(&scores);

    assert_eq!(indices.get(&1), indices.get(&2));
    assert_eq!(indices.get(&1), Some(&90));
    assert!(indices[&1] > indices[&10]);
    let nine: Vec<(u32, Score)> = (1..10).map(|id| (id, score(1.0))).collect();
    assert!(context_percentile_indices(&nine).is_empty());
}

#[test]
fn recommendation_index_uses_the_returned_request_window() {
    let full_section: Vec<(u32, Score)> = (1_u32..=524)
        .map(|app_id| (app_id, score(1.0 - f64::from(app_id) / 1_000.0)))
        .collect();

    let indices = context_percentile_indices_for_window(&full_section, 0, 20);

    assert_eq!(indices.len(), 20);
    assert_eq!(indices.values().copied().collect::<HashSet<u8>>().len(), 20);
    assert_eq!(indices.get(&1), Some(&98));
    assert_eq!(indices.get(&20), Some(&3));
    assert!(!indices.contains_key(&21));
}

#[test]
fn recommendation_index_is_hidden_when_evidence_is_insufficient() {
    let scores: Vec<(u32, Score)> =
        (1..=10).map(|id| (id, score(f64::from(11 - id)))).collect();
    let indices = context_percentile_indices(&scores);

    assert_eq!(
        visible_recommendation_index(1, &indices, Some(&feed_presentation(0.8, 3))),
        Some(95)
    );
    assert_eq!(
        visible_recommendation_index(1, &indices, Some(&feed_presentation(0.44, 3))),
        None
    );
    assert_eq!(
        visible_recommendation_index(1, &indices, Some(&feed_presentation(0.8, 2))),
        None
    );
    assert_eq!(fit_band(None), "insufficient_data");
}

#[test]
fn covers_fall_back_to_the_store() {
    assert_eq!(
        resolve_feed_cover_url(730, None).as_deref(),
        Some("https://cdn.akamai.steamstatic.com/steam/apps/730/header.jpg")
    );
    assert_eq!(
        resolve_feed_cover_url(730, Some("https://img.test/1.jpg".to_owned())).as_deref(),
        Some("https://img.test/1.jpg")
    );
    assert_eq!(slot_reason_str(SlotReason::Diversity), "diversity");
}

#[test]
fn recall_selects_only_what_was_ranked() {
    let ranked = vec![row(1, 0.9, None), row(2, 0.8, None)];
    let selected = select_internal_recall_candidates(ranked, &vec![999, 2], 2);
    assert_eq!(ids(&selected), vec![2, 1]);
}

#[test]
fn a_page_is_laid_out_with_its_numbers() {
    let rows: Vec<FeedRow> =
        (1..=25).map(|id| row(id, 1.0 - f64::from(id) / 100.0, None)).collect();
    let plan = FeedPlan {
        limit: 10,
        sort: FeedSort::Recommended,
        order: FeedSortOrder::Desc,
        demo_only: false,
    };
    let intent = PlayIntent {
        counts: HashMap::from([(12, 3)]),
        user_votes: HashSet::from([13]),
        revision: 4,
    };
    let body = assemble_feed(rows, &plan, 10, None, &intent, false, "recent", 5, "c");
    assert_eq!((body.total, body.page, body.total_pages), (25, 2, 3));
    assert_eq!(body.items.len(), 10);
    assert_eq!((body.items[0].candidate.app_id, body.items[0].rank), (11, 11));
    assert_eq!(body.items[1].play_intent_count, 3);
    assert!(body.items[2].play_intent_voted && !body.items[1].play_intent_voted);
    assert_eq!(body.candidate_ids.len(), 25);
    assert_eq!(body.order, None);
    let cursor = body.next_cursor.unwrap();
    assert_eq!(decode_cursor(Some(&cursor), "recent", 5, "c", 4), Ok(20));
}

#[test]
fn pages_hold_every_row_once() {
    let plan = FeedPlan {
        limit: 7,
        sort: FeedSort::FitIndex,
        order: FeedSortOrder::Desc,
        demo_only: false,
    };
    let intent =
        PlayIntent { counts: HashMap::new(), user_votes: HashSet::new(), revision: 0 };
    let mut seen: Vec<u32> = Vec::new();
    for page in 0..3 {
        let rows: Vec<FeedRow> =
            (1..=20).map(|id| row(id, 1.0 - f64::from(id) / 100.0, None)).collect();
        let body = assemble_feed(rows, &plan, page * 7, None, &intent, false, "recent", 5, "c");
        seen.extend(body.items.iter().map(|item| item.candidate.app_id));
        assert_eq!(body.next_cursor.is_some(), page < 2);
    }
    assert_eq!(seen, (1..=20).collect::<Vec<u32>>());
}

// From rows to candidates.

fn catalog_row(app_id: u32) -> CandidateRow {
    CandidateRow {
        app_id,
        has_demo: false,
        matches_section: true,
        matchmaking_core: score(0.8),
        multiplayer_confidence: vec![score(0.0), score(0.3)],
        data_confidence: score(1.5),
        release_date: Some("2025-01-02".to_owned()),
        release_date_raw: None,
        release_date_precision: None,
        cover_url: None,
        cover_updated_at_ms: None,
        total_reviews: Some(10),
        total_positive: Some(9),
        latest_ccu: None,
        typical_ccu_7d: None,
        profile_observed_at_ms: Some(1),
        reviews_observed_at_ms: None,
        activity_observed_at_ms: None,
        price_observed_at_ms: None,
        release_observed_at_ms: Some(7),
    }
}

fn said(app_id: u32, feedback_type: &str) -> ActiveFeedback {
    ActiveFeedback { app_id, feedback_type: feedback_type.to_owned() }
}

#[test]
fn rows_become_candidates_unless_feedback_takes_them_out() {
    let active = vec![
        said(1, "like"),
        said(2, "like"),
        said(2, "not_interested"),
        said(3, "party_size_mismatch"),
        said(1, "too_competitive"),
    ];
    let mut counts = HashMap::new();
    counts.insert(1, 4);
    let intent = PlayIntent { counts, user_votes: HashSet::new(), revision: 1 };
    let undated = CandidateRow { release_date: None, ..catalog_row(4) };
    let elsewhere = CandidateRow { matches_section: false, ..catalog_row(5) };
    let rows = vec![catalog_row(2), catalog_row(1), catalog_row(3), elsewhere, undated];
    let candidates = prepare_candidates(rows, &active, false, &intent);
    let kept: Vec<(usize, u32)> =
        candidates.iter().map(|candidate| (candidate.row, candidate.app_id)).collect();
    assert_eq!(kept, [(1, 1), (4, 4)]);
    assert_eq!(candidates[0].personal_adjustment, -10);
    assert_eq!(candidates[0].play_intent_count, 4);
    assert_eq!(candidates[1].play_intent_count, 0);
    let shown = &candidates[0].presentation;
    assert_eq!(shown.data_confidence, score(1.0));
    assert_eq!(shown.effective_feature_count, 3);
    assert_eq!(shown.release_observed_at_ms, Some(7));
    assert!(shown.cover_url.is_some());
    assert_eq!(candidates[1].presentation.release_observed_at_ms, None);
    assert_eq!(candidates[1].presentation.effective_feature_count, 2);
}

#[test]
fn a_demo_can_be_asked_for() {
    let intent = PlayIntent { counts: HashMap::new(), user_votes: HashSet::new(), revision: 1 };
    let with_demo = CandidateRow {
        has_demo: true,
        data_confidence: score(-0.5),
        ..catalog_row(2)
    };
    let candidates =
        prepare_candidates(vec![catalog_row(1), with_demo], &Vec::new(), true, &intent);
    assert_eq!(candidates.len(), 1);
    assert_eq!(candidates[0].app_id, 2);
    assert_eq!(candidates[0].presentation.data_confidence, score(0.0));
    assert_eq!(candidates[0].personal_adjustment, 0);
}

// A request from beginning to end.

fn feed_request(query: FeedQuery) -> FeedRequest {
    FeedRequest {
        section: Some("recent".to_owned()),
        query,
        with_ranking_metadata: false,
        retrieval_ids: None,
        if_none_match: None,
        user_id: None,
        build: "b".to_owned(),
        config_version: "c1".to_owned(),
        snapshot_ms: 5,
        utc_day: "2026-08-02".to_owned(),
        preference_context: "prefs".to_owned(),
    }
}

fn no_intent() -> PlayIntent {
    PlayIntent { counts: HashMap::new(), user_votes: HashSet::new(), revision: 3 }
}

/// Ranks every candidate by its identifier, the lowest first.
fn by_identifier(task: &RankingTask) -> Vec<RankedCandidate> {
    task.candidates
        .iter()
        .map(|candidate| {
            recall_candidate(candidate.app_id, 1.0 - f64::from(candidate.app_id) / 100.0)
        })
        .collect()
}

fn answered(request: &FeedRequest) -> Result<FeedAnswer, ApiError> {
    let rows = vec![catalog_row(3), catalog_row(1), catalog_row(2), catalog_row(9)];
    let active = vec![said(9, "not_interested")];
    answer_feed(request, preferences(), Ok(()), rows, &active, &no_intent(), by_identifier)
}

#[test]
fn a_feed_request_is_answered_page_by_page() {
    let wanted = || FeedQuery { limit: Some(2), ..query() };
    let Ok(FeedAnswer::Page { etag, body }) = answered(&feed_request(wanted())) else {
        panic!("a page is owed");
    };
    let shown: Vec<u32> = body.items.iter().map(|item| item.candidate.app_id).collect();
    assert_eq!(shown, [1, 2]);
    assert_eq!(body.candidate_ids, [1, 2, 3]);
    assert_eq!((body.total, body.page, body.total_pages), (3, 1, 2));
    assert!(body.items[0].cover_url.is_some());

    let cursor = body.next_cursor.unwrap();
    let next = FeedQuery { cursor: Some(cursor.clone()), ..wanted() };
    let Ok(FeedAnswer::Page { etag: next_etag, body }) = answered(&feed_request(next)) else {
        panic!("a page is owed");
    };
    assert_eq!(body.items.len(), 1);
    assert_eq!(body.items[0].candidate.app_id, 3);
    assert!(body.next_cursor.is_none());
    assert_ne!(etag, next_etag);

    let held = FeedRequest { if_none_match: Some(etag.clone()), ..feed_request(wanted()) };
    assert!(matches!(answered(&held), Ok(FeedAnswer::NotModified { etag: same }) if same == etag));
    let stale = FeedQuery { cursor: Some(cursor), sort: Some("ccu".to_owned()), ..wanted() };
    let refusal = answered(&feed_request(stale)).unwrap_err();
    assert_eq!((refusal.status, refusal.code.as_str()), (409, "cursor_stale"));
}

#[test]
fn the_first_fault_of_a_feed_request_is_told() {
    let message = |request: &FeedRequest, validated: Result<(), String>| {
        let place = locate_feed(request, preferences(), validated, 3);
        place.map(|place| place.offset).map_err(|error| error.message)
    };
    let wrong = || FeedQuery {
        limit: Some(0),
        page: Some(0),
        party_size: Some(65),
        platforms: Some(" , ".to_owned()),
        sort: Some("size".to_owned()),
        order: Some("up".to_owned()),
        ..query()
    };
    let invalid = || Err("preferences are invalid".to_owned());
    let nowhere = FeedRequest { section: None, ..feed_request(wrong()) };
    assert_eq!(message(&nowhere, invalid()), Err("unknown feed section".to_owned()));
    let request = feed_request(wrong());
    assert_eq!(message(&request, invalid()), Err("party_size must be between 1 and 64".to_owned()));
    let request = feed_request(FeedQuery { party_size: None, platforms: None, ..wrong() });
    assert_eq!(message(&request, invalid()), Err("preferences are invalid".to_owned()));
    assert_eq!(message(&request, Ok(())), Err("limit must be between 1 and 100".to_owned()));
    let page = FeedQuery { page: Some(0), ..query() };
    assert_eq!(message(&feed_request(page), Ok(())), Err("page must be >= 1".to_owned()));
    let cursor = FeedQuery { cursor: Some("x".to_owned()), ..query() };
    assert_eq!(message(&feed_request(cursor), Ok(())), Err("invalid feed cursor".to_owned()));
    let third = FeedQuery { page: Some(3), limit: Some(300), ..query() };
    let recall = FeedRequest { retrieval_ids: Some(vec![2]), ..feed_request(third) };
    assert_eq!(message(&recall, Ok(())), Ok(600));
}

#[test]
fn a_ranking_is_told_all_that_it_depends_on() {
    let wanted = FeedQuery { party_size: Some(3), demo_only: Some(false), ..query() };
    let request = FeedRequest {
        user_id: Some("account-a".to_owned()),
        retrieval_ids: Some(vec![2, 7]),
        ..feed_request(wanted)
    };
    let rank = |task: &RankingTask| {
        assert_eq!(task.prefs.party_size, 3);
        assert!(task.constraints.party_size && !task.constraints.modes);
        assert_eq!(task.tie_seed, recommendation_tie_seed(Some("account-a"), "2026-08-02"));
        by_identifier(task)
    };
    let rows = vec![catalog_row(1), catalog_row(2)];
    let answer =
        answer_feed(&request, preferences(), Ok(()), rows, &Vec::new(), &no_intent(), rank);
    let Ok(FeedAnswer::Page { body, .. }) = answer else {
        panic!("a page is owed");
    };
    assert_eq!(body.candidate_ids[0], 2);
}
