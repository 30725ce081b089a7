use mpgs::ai::compare::{CompareDifference, CompareExplanation};
use mpgs::ai::error::AiError;
use mpgs::ai::group_advice::{
    deterministic_group_advice, parse_group_advice, AppVoteCount, GroupAdviceRequest,
};
use mpgs::score::Score;
use mpgs::server::ai_requests::{
    accept_comparison, cache_scope, check_analysis_id, check_compare_request,
    check_group_request, compare_answer, compare_data_prompt, compare_row, compare_scope,
    group_answer, group_data_prompt, group_evidence, plan_search, search_row_status,
    summary_evidence, AiStatus, CompareFacts, ModelReply,
};
use mpgs::server::catalog::{
    bootstrap_name, bootstrap_progress, calendar_cover_url, calendar_etag, check_calendar_range,
    check_evidence_feature, check_game_summary, check_search, evidence_confidence,
    evidence_origin, game_etag, game_media, has_early_data, plan_bootstrap, plan_calendar, public_evidence, steam_url,
    summary_expires_at_ms, summary_input_hash, CalendarState, EvidenceRow, EvidenceSource,
    GameLookup, GameMediaAsset, GameTag,
};
use mpgs::server::community::{
    answer_community_page, community_offset, decode_community_cursor, encode_community_cursor,
    filter_key, plan_community_request, public_voters, CommunityPage, CommunityQuery,
    CommunitySort, Voter,
};
use mpgs::server::events::{
    attributed_items, candidate_count, check_attribution, check_feedback,
    check_recommendation_event, feature_freshness, job_schedule, lease_terms, retry_delay,
    ShownItem,
};
use mpgs::server::fact_matrix::{
    compare_facts, load_compare_rows, CompareLookup, CompareProfile, StoredGame,
};
use mpgs::server::feed_query::CursorError;
use mpgs::server::model_json::group_facts_json;

fn score(value: f64) -> Score {
    Score::from_bits(value.to_bits())
}

fn texts(items: &[&str]) -> Vec<String> {
    items.iter().map(|item| item.to_string()).collect()
}

// The community page.

fn community_query() -> CommunityQuery {
    CommunityQuery {
        sort: None,
        limit: None,
        cursor: None,
        release_state: None,
        demo_only: None,
        platform: None,
        party_size: None,
    }
}

#[test]
fn a_community_request_is_checked() {
    let plan = plan_community_request(&community_query()).unwrap();
    assert_eq!((plan.sort, plan.limit), (CommunitySort::Trending, 20));
    let refused = |query: CommunityQuery| plan_community_request(&query).unwrap_err().message;
    assert_eq!(
        refused(CommunityQuery { sort: Some("x".to_owned()), ..community_query() }),
        "sort must be trending or most_voted"
    );
    assert_eq!(
        refused(CommunityQuery { limit: Some(0), ..community_query() }),
        "limit must be between 1 and 100"
    );
    assert_eq!(
        refused(CommunityQuery { release_state: Some("x".to_owned()), ..community_query() }),
        "release_state is not supported"
    );
    assert_eq!(
        refused(CommunityQuery { platform: Some("x".to_owned()), ..community_query() }),
        "platform must be windows, macos, or linux"
    );
    assert_eq!(
        refused(CommunityQuery { party_size: Some(65), ..community_query() }),
        "party_size must be between 1 and 64"
    );
    let asked = CommunityQuery {
        platform: Some(" Linux ".to_owned()),
        release_state: Some(String::new()),
        ..community_query()
    };
    let filters = plan_community_request(&asked).unwrap().filters;
    assert_eq!(filters.platform.as_deref(), Some("linux"));
    assert_eq!(filters.release_state, None);
}

#[test]
fn a_community_cursor_leads_back_to_its_offset() {
    let key = filter_key("signature");
    let cursor = encode_community_cursor(CommunitySort::MostVoted, &key, 7, 40);
    let read = |sort, key: &str, revision| decode_community_cursor(Some(&cursor), sort, key, revision);
    assert_eq!(read(CommunitySort::MostVoted, &key, 7), Ok(40));
    assert_eq!(read(CommunitySort::MostVoted, &key, 8), Err(CursorError::Stale));
    assert_eq!(read(CommunitySort::Trending, &key, 7), Err(CursorError::Invalid));
    assert_eq!(decode_community_cursor(None, CommunitySort::Trending, &key, 7), Ok(0));
    let stale =
        community_offset(Some(&cursor), CommunitySort::MostVoted, &key, 8).unwrap_err();
    assert_eq!((stale.status, stale.code.as_str()), (409, "cursor_stale"));
    assert!(community_offset(Some("x"), CommunitySort::MostVoted, &key, 8).is_err());
}

#[test]
fn a_community_page_is_answered_once() {
    let page = |page_revision: u64, has_more: bool| CommunityPage {
        sort: CommunitySort::Trending,
        limit: 10,
        offset: 20,
        revision: 3,
        page_revision,
        has_more,
    };
    let answer = answer_community_page(&page(3, true), "k", None, None).unwrap();
    assert!(!answer.not_modified);
    let cursor = answer.next_cursor.unwrap();
    assert_eq!(decode_community_cursor(Some(&cursor), CommunitySort::Trending, "k", 3), Ok(30));
    let held = answer_community_page(&page(3, false), "k", None, Some(&answer.etag)).unwrap();
    assert!(held.not_modified && held.next_cursor.is_none());
    let other = answer_community_page(&page(3, true), "k", Some("u"), None).unwrap();
    assert_ne!(other.etag, answer.etag);
    assert_eq!(answer_community_page(&page(4, true), "k", None, None).unwrap_err().status, 409);
}

#[test]
fn voters_are_shown_by_name_and_picture_only() {
    let voters = vec![Voter {
        display_name: "N".to_owned(),
        avatar_public_id: "p".to_owned(),
        avatar_version: 3,
    }];
    let shown = public_voters(&voters);
    assert_eq!(shown[0].display_name, "N");
    assert_eq!(shown[0].avatar_url, "/v1/avatars/p?v=3");
}

// The catalog.

#[test]
fn a_calendar_looks_ahead_or_back() {
    let day = 86_400_000;
    let ahead = plan_calendar(None, 0).unwrap();
    assert_eq!((ahead.state, ahead.default_from_ms), (CalendarState::Upcoming, 0));
    assert_eq!(ahead.default_to_ms, 60 * day);
    let back = plan_calendar(Some("recent"), 0).unwrap();
    assert_eq!((back.default_from_ms, back.default_to_ms), (-180 * day, 0));
    assert_eq!(plan_calendar(Some("recent"), i64::MIN).unwrap().default_from_ms, i64::MIN);
    assert!(plan_calendar(Some("x"), 0).is_err());
    assert!(check_calendar_range(Some(0), Some(366)).is_ok());
    assert!(check_calendar_range(Some(0), Some(367)).is_err());
    assert!(check_calendar_range(Some(1), Some(0)).is_err());
    assert!(check_calendar_range(None, Some(0)).is_err());
    let tag = |build: &str| calendar_etag(CalendarState::Recent, "a", "b", 1, build);
    assert_ne!(tag("x"), tag("y"));
    assert!(has_early_data(None) && has_early_data(Some(99)) && !has_early_data(Some(100)));
    assert!(calendar_cover_url(7, None).unwrap().contains("/7/"));
}

#[test]
fn a_search_needs_words() {
    assert_eq!(check_search(Some("x"), None).unwrap(), 20);
    assert_eq!(check_search(Some(" "), None).unwrap_err().message, "q is required");
    assert_eq!(
        check_search(Some("x"), Some(101)).unwrap_err().message,
        "limit must be between 1 and 100"
    );
}

#[test]
fn a_game_page_is_tagged_by_what_it_shows() {
    let tag = |voted: bool| GameTag {
        app_id: 1,
        data_updated_at_ms: 2,
        media_updated_at_ms: 3,
        play_intent_revision: 4,
        play_intent_count: 5,
        voted,
    };
    assert_ne!(game_etag(&tag(true), "v", None), game_etag(&tag(false), "v", None));
    assert_eq!(game_etag(&tag(true), "v", None), game_etag(&tag(true), "v", Some("public")));
    assert_eq!(steam_url(730), "https://store.steampowered.com/app/730/");
}

fn asset(kind: &str, full: Option<&str>, mp4: Option<&str>, updated_at_ms: i64) -> GameMediaAsset {
    GameMediaAsset {
        kind: kind.to_owned(),
        source_id: "s".to_owned(),
        title: None,
        thumbnail_url: full.map(|url| url.to_owned()),
        full_url: full.map(|url| url.to_owned()),
        is_highlight: false,
        mp4_url: mp4.map(|url| url.to_owned()),
        hls_h264_url: None,
        dash_h264_url: None,
        updated_at_ms,
    }
}

#[test]
fn media_are_told_apart() {
    let media = game_media(&vec![
        asset("screenshot", Some("f"), None, 5),
        asset("movie", Some("t"), Some("m"), 9),
        asset("poster", Some("f"), None, 1),
    ]);
    assert_eq!(media.screenshots, vec![0]);
    assert_eq!(media.updated_at_ms, Some(9));
    assert!(!media.videos.contains(&0));
}

#[test]
fn evidence_is_stored_computed_or_reviewed() {
    let rows = vec![EvidenceRow { evidence_id: 5, feature_name: "private_session".to_owned() }];
    let shown = public_evidence(7, &rows, &[true; 6], true, None);
    assert_eq!(shown[0].source, EvidenceSource::Stored(0));
    assert_eq!(shown[0].evidence_id, "feature:private_session:7");
    assert_eq!(shown.last().unwrap().source, EvidenceSource::Reviews);
    assert!(shown.len() > 2);
    let wanted = public_evidence(7, &Vec::new(), &[true; 6], true, Some("review_summary"));
    assert_eq!(wanted.len(), 1);
    assert!(public_evidence(7, &Vec::new(), &[false; 6], false, None).is_empty());
    assert!(check_evidence_feature(Some(" ")).is_err());
    assert!(check_evidence_feature(Some(&"x".repeat(65))).is_err());
    assert!(check_evidence_feature(None).is_ok());
}

#[test]
fn evidence_tells_where_it_comes_from() {
    assert_eq!(evidence_origin(EvidenceSource::Stored(0)), None);
    assert_eq!(
        evidence_origin(EvidenceSource::Computed(0)),
        Some(("computed_profile", "normalized multiplayer profile"))
    );
    assert_eq!(
        evidence_origin(EvidenceSource::Reviews),
        Some(("steam_reviews", "latest normalized review summary"))
    );
    let known = Some(score(0.75));
    assert_eq!(evidence_confidence(EvidenceSource::Computed(1), known), known);
    assert_eq!(evidence_confidence(EvidenceSource::Computed(1), None), Some(score(0.4)));
    assert_eq!(evidence_confidence(EvidenceSource::Reviews, known), Some(score(0.9)));
    assert_eq!(evidence_confidence(EvidenceSource::Stored(1), known), None);
}

#[test]
fn a_summary_is_made_for_a_known_game() {
    assert!(check_game_summary(1, GameLookup::Known).is_ok());
    assert_eq!(check_game_summary(0, GameLookup::Known).unwrap_err().status, 400);
    assert_eq!(check_game_summary(1, GameLookup::Failed).unwrap_err().status, 500);
    assert_eq!(check_game_summary(1, GameLookup::StorageMissing).unwrap_err().status, 503);
    assert_eq!(check_game_summary(1, GameLookup::Unknown).unwrap_err().status, 404);
    assert_eq!(summary_input_hash(12), "rule:12");
    assert_eq!(summary_expires_at_ms(0), 604_800_000);
    assert_eq!(summary_expires_at_ms(i64::MAX), i64::MAX);
}

#[test]
fn a_bootstrap_is_planned_and_followed() {
    let plan = plan_bootstrap(None, None).unwrap();
    assert_eq!((plan.store_only, plan.priority_target), (true, 300));
    assert!(!plan_bootstrap(Some("normal"), None).unwrap().store_only);
    assert!(plan_bootstrap(Some("fast"), None).is_err());
    assert_eq!(bootstrap_name(3, &None), "app-3");
    assert_eq!(bootstrap_name(3, &Some("N".to_owned())), "N");
    assert_eq!(bootstrap_progress(&vec![true, false, true], 5), (2, 3));
}

// Events and jobs.

#[test]
fn events_are_checked_before_they_are_recorded() {
    assert_eq!(
        check_recommendation_event("exposure", Some("k"), "r").unwrap(),
        ("exposure", "impression")
    );
    assert_eq!(
        check_recommendation_event("other", Some("k"), "r").unwrap_err().message,
        "event_type must be one of exposure, detail_open, steam_click, or play_intent"
    );
    assert!(check_recommendation_event("exposure", None, "r").is_err());
    assert!(check_recommendation_event("exposure", Some("k"), &"r".repeat(129)).is_err());
    assert!(check_attribution(Some(false)).is_err());
    assert!(check_attribution(None).is_ok());
    assert!(check_feedback(true, Some("k")).is_ok());
    assert_eq!(check_feedback(false, Some("k")).unwrap_err().message, "unknown feedback type");
    assert!(check_feedback(true, None).is_err());
    assert_eq!(feature_freshness(Some(1)), "fresh");
    assert_eq!(feature_freshness(None), "unknown");
}

#[test]
fn a_page_is_recorded_whole_or_not_at_all() {
    let item = |app_id: Option<u64>| ShownItem {
        app_id,
        rank: Some(1),
        has_components: true,
        relevance_score: Some(score(0.5)),
        recommendation_index: Some(70),
        data_confidence: Some(score(0.8)),
        slot_reason: Some("base".to_owned()),
    };
    let records = attributed_items(&vec![item(Some(3))]).unwrap();
    assert_eq!((records[0].app_id, records[0].recommendation_index), (3, Some(70)));
    assert!(attributed_items(&vec![item(Some(3)), item(None)]).is_none());
    assert_eq!(candidate_count(12), 12);
    let schedule = job_schedule(None, None, Some(2), 9);
    assert_eq!((schedule.priority, schedule.due_at_ms, schedule.max_attempts), (100, 9, 2));
    assert_eq!(lease_terms(None, Some(5)), (10, 5));
    assert_eq!(retry_delay(None), 60_000);
}

// Requests to the model.

#[test]
fn a_comparison_keeps_to_known_facts() {
    assert!(check_compare_request(&vec![1, 2]).is_ok());
    assert!(check_compare_request(&vec![1]).is_err());
    assert!(check_compare_request(&vec![1, 1]).is_err());
    assert!(check_compare_request(&vec![0, 1]).is_err());
    let facts = |app_id: u32, party_size: bool| CompareFacts {
        app_id,
        party_size,
        multiplayer_mode: false,
        service_dependency: false,
    };
    let (columns, evidence) = compare_row(&facts(1, true));
    assert_eq!(columns, texts(&["party_size", "data_updated_at"]));
    assert_eq!(evidence, texts(&["app:1:party_size", "app:1:data_updated_at"]));
    let (columns, evidence) = compare_scope(&vec![facts(1, true), facts(2, false)]);
    assert_eq!(evidence.len(), 3);
    let said = |column: &str| CompareExplanation {
        summary: "A takes more players".to_owned(),
        differences: vec![CompareDifference {
            column: column.to_owned(),
            text: "A takes more players".to_owned(),
            evidence_ids: texts(&["app:1:party_size"]),
        }],
        risks: Vec::new(),
        preferred_app_id: None,
        preferred_reason: None,
    };
    assert!(accept_comparison(said("party_size"), &vec![1, 2], &columns, &evidence).is_ok());
    assert!(accept_comparison(said("price"), &vec![1, 2], &columns, &evidence).is_err());
}

fn no_profile() -> CompareProfile {
    CompareProfile {
        recommended_min_players: None,
        recommended_max_players: None,
        dominant_mode: None,
        private_session: None,
        online_coop: None,
        crossplay: None,
        self_hosted_server: None,
        drop_in_out: None,
    }
}

fn stored(name: &str, profile: Option<CompareProfile>) -> StoredGame {
    StoredGame {
        name: name.to_owned(),
        release_state: "released".to_owned(),
        release_date: None,
        is_early_access: Some(false),
        updated_at_ms: 5,
        profile,
    }
}

#[test]
fn a_fact_is_known_by_any_field_it_rests_on() {
    let flags = |profile: CompareProfile| {
        let facts = compare_facts(7, Some(&profile));
        assert_eq!(facts.app_id, 7);
        (facts.party_size, facts.multiplayer_mode, facts.service_dependency)
    };
    let none = no_profile;
    assert_eq!(flags(none()), (false, false, false));
    let party = (true, false, false);
    assert_eq!(flags(CompareProfile { recommended_min_players: Some(1), ..none() }), party);
    assert_eq!(flags(CompareProfile { recommended_max_players: Some(4), ..none() }), party);
    let mode = (false, true, false);
    assert_eq!(flags(CompareProfile { dominant_mode: Some(String::new()), ..none() }), mode);
    assert_eq!(flags(CompareProfile { online_coop: Some(false), ..none() }), mode);
    assert_eq!(flags(CompareProfile { crossplay: Some(false), ..none() }), mode);
    assert_eq!(flags(CompareProfile { drop_in_out: Some(false), ..none() }), mode);
    let service = (false, false, true);
    assert_eq!(flags(CompareProfile { private_session: Some(false), ..none() }), service);
    assert_eq!(flags(CompareProfile { self_hosted_server: Some(false), ..none() }), service);
    let facts = compare_facts(7, None);
    assert!(!facts.party_size && !facts.multiplayer_mode && !facts.service_dependency);
}

#[test]
fn compared_games_are_loaded_in_order_until_one_fails() {
    let load = |app_id: u32| match app_id {
        1 => CompareLookup::Found(stored("One", None)),
        2 => CompareLookup::Found(stored(
            "\"Two\"",
            Some(CompareProfile {
                recommended_max_players: Some(4),
                private_session: Some(true),
                ..no_profile()
            }),
        )),
        3 => CompareLookup::Missing,
        _ => CompareLookup::Failed,
    };
    let matrix = load_compare_rows(&vec![2, 1], load).unwrap();
    let ids: Vec<u32> = matrix.rows.iter().map(|row| row.app_id).collect();
    assert_eq!(ids, [2, 1]);
    assert!(matrix.rows[0].party_size && matrix.rows[0].service_dependency);
    assert_eq!(
        matrix.json,
        "[{\"app_id\":2,\"data_updated_at_ms\":5,\"evidence_ids\":{\
         \"data_updated_at\":\"app:2:data_updated_at\",\"party_size\":\"app:2:party_size\",\
         \"service_dependency\":\"app:2:service_dependency\"},\"is_early_access\":false,\
         \"multiplayer\":{\"crossplay\":null,\"dominant_mode\":null,\"drop_in_out\":null,\
         \"online_coop\":null,\"private_session\":true,\"self_hosted_server\":null},\
         \"name\":\"\\\"Two\\\"\",\"party\":{\"max\":4,\"min\":null},\"release_date\":null,\
         \"release_state\":\"released\"},\
         {\"app_id\":1,\"data_updated_at_ms\":5,\"evidence_ids\":{\
         \"data_updated_at\":\"app:1:data_updated_at\"},\"is_early_access\":false,\
         \"multiplayer\":null,\"name\":\"One\",\"party\":null,\"release_date\":null,\
         \"release_state\":\"released\"}]"
    );
    let parsed: serde_json::Value = serde_json::from_str(&matrix.json).unwrap();
    assert_eq!(serde_json::to_string(&parsed).unwrap(), matrix.json);
    let prompt = compare_data_prompt(&matrix);
    assert!(prompt.contains("fact_matrix_json") && prompt.contains("party_size"));

    let missing = load_compare_rows(&vec![1, 3, 4], load).unwrap_err();
    assert_eq!((missing.status, missing.code.as_str()), (404, "not_found"));
    assert_eq!(missing.message, "app_id 3 was not found");
    let failed = load_compare_rows(&vec![1, 4, 3], load).unwrap_err();
    assert_eq!((failed.status, failed.code.as_str()), (500, "internal_error"));
    assert_eq!(failed.message, "failed to load game facts");
}

#[test]
fn facts_are_answered_without_a_model() {
    let off = compare_answer(ModelReply::NotAdmitted { reason: "off".to_owned() });
    assert!(off.explanation.is_none());
    assert_eq!(off.status, AiStatus::Disabled);
    let failed = compare_answer(ModelReply::Failed {
        error: AiError::Timeout,
        general: "late".to_owned(),
    });
    assert_eq!(failed.fallback_reason.as_deref(), Some("late"));
    assert_eq!(AiStatus::Cached.as_str(), "cached");
}

fn group_request() -> GroupAdviceRequest {
    GroupAdviceRequest {
        party_size: Some(4),
        platforms: texts(&["windows"]),
        modes_preferred: Vec::new(),
        modes_excluded: Vec::new(),
        candidate_app_ids: vec![10, 20, 30],
        vote_counts: vec![AppVoteCount { app_id: 20, votes: 2 }],
    }
}

#[test]
fn a_group_request_is_checked() {
    assert!(check_group_request(&group_request()).is_ok());
    let refused = |request: GroupAdviceRequest| check_group_request(&request).unwrap_err().message;
    assert_eq!(
        refused(GroupAdviceRequest { candidate_app_ids: vec![1], ..group_request() }),
        "candidate_app_ids must contain 2 to 12 apps"
    );
    assert_eq!(
        refused(GroupAdviceRequest { candidate_app_ids: vec![1, 1], ..group_request() }),
        "candidate_app_ids must be unique positive AppIDs"
    );
    assert_eq!(
        refused(GroupAdviceRequest { party_size: Some(0), ..group_request() }),
        "group preferences exceed supported bounds"
    );
    assert_eq!(
        refused(GroupAdviceRequest {
            vote_counts: vec![AppVoteCount { app_id: 99, votes: 1 }],
            ..group_request()
        }),
        "vote_counts must be unique and refer to candidate AppIDs"
    );
}

#[test]
fn the_compromise_is_advice_that_a_model_could_give() {
    let request = group_request();
    let found =
        deterministic_group_advice(&request.candidate_app_ids, &request.vote_counts).unwrap();
    let evidence = group_evidence(&request.candidate_app_ids, &request.vote_counts);
    assert_eq!(
        evidence,
        texts(&["candidate:10", "candidate:20", "candidate:30", "vote:aggregate:20"])
    );
    let accepted = parse_group_advice(found, &request.candidate_app_ids, &evidence).unwrap();
    assert_eq!(accepted.primary_app_id, 20);
    let answer = group_answer(
        Some(accepted),
        ModelReply::Answered {
            content: Err(AiError::InvalidOutput("x".to_owned())),
            general: "g".to_owned(),
            model: "m".to_owned(),
        },
    );
    assert_eq!(answer.advice.unwrap().primary_app_id, 20);
    assert_eq!(answer.status, AiStatus::Fallback);
    assert!(group_data_prompt(&group_request()).contains("group_aggregate_json"));
    assert_eq!(
        group_facts_json(&group_request()),
        "{\"candidates\":[{\"app_id\":10,\"evidence_id\":\"candidate:10\"},\
         {\"app_id\":20,\"evidence_id\":\"candidate:20\"},\
         {\"app_id\":30,\"evidence_id\":\"candidate:30\"}],\"modes_excluded\":[],\
         \"modes_preferred\":[],\"party_size\":4,\"platforms\":[\"windows\"],\
         \"vote_counts\":[{\"app_id\":20,\"evidence_id\":\"vote:aggregate:20\",\"votes\":2}]}"
    );
}

#[test]
fn a_question_is_planned() {
    let plan = plan_search("  三人合作 ", None).unwrap();
    assert_eq!((plan.query.as_str(), plan.limit), ("三人合作", 6));
    assert!(plan_search("x", None).is_err());
    assert!(plan_search("xyz", Some(11)).is_err());
    assert_eq!(search_row_status(true, Some("cached")), "pending");
    assert_eq!(search_row_status(false, Some("cached")), "cached");
    assert_eq!(search_row_status(true, None), "fallback");
    assert_eq!(cache_scope(Some("u")), "account:u");
    assert_eq!(cache_scope(None), "anonymous");
    assert!(check_analysis_id("").is_err());
    assert!(summary_evidence(0).is_err());
    assert!(!summary_evidence(5).unwrap().is_empty());
}
