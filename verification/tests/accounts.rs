use mpgs::ai::route::AiTaskType;
use mpgs::server::ai_settings::{
    check_discovery, connection_tried, daily_remaining, discover_custom_models,
    endpoint_resolved, prepare_ai_settings, AiSettingsBody, Discovery, SettingsStep,
};
use mpgs::server::custom_ai::{
    account_ai_gateway, build_transient_custom_routes, check_custom_endpoint,
    check_transient_custom_ai, custom_ai_hosts_match, custom_ai_source, disabled_resolved_ai,
    parse_ai_task, resolved_task_router, transient_custom_ai_resolved, AiMode, AiSource,
    CustomBaseUrlResolution, CustomRoute, GatewayKind, RouterChoice, SavedAiSettings,
    TransientCustomAiRequest,
};
use mpgs::server::errors::{
    bearer_token, map_account_error, map_storage_error, require_admin, storage_disabled,
    valid_request_id, StorageFailure,
};
use mpgs::server::limits::{
    AiCallLimiter, LoginAttemptLimiter, ATTEMPTS_PER_WINDOW, WINDOW_NS,
};
use mpgs::server::sessions::{
    account_token, adopt_request_id, ai_task_models, check_login, demo_mode, device_label,
    login_failure, meta_etag, readiness, refresh_failure, register_failure, MetaFacts,
    PreferenceChoice, ReportedRoute, StorageCheck,
};

fn texts(items: &[&str]) -> Vec<String> {
    items.iter().map(|item| item.to_string()).collect()
}

// Throttles.

#[test]
fn a_window_admits_so_many_attempts_and_no_more() {
    let mut limiter = LoginAttemptLimiter::new();
    for _ in 0..ATTEMPTS_PER_WINDOW {
        assert!(limiter.allow("someone", 5));
    }
    assert!(!limiter.allow("someone", 5));
    assert!(!limiter.allow("  SomeOne ", 6), "a name counts whatever its case");
    assert!(limiter.allow("someone else", 5));
    assert!(limiter.allow("someone", 5 + WINDOW_NS));
}

#[test]
fn tries_under_other_names_do_not_count() {
    let mut limiter = LoginAttemptLimiter::new();
    for i in 0..10 {
        assert!(limiter.allow("someone", i));
        assert!(limiter.allow(&format!("other-{i}"), i));
    }
    assert!(!limiter.allow("someone", 10));
    assert!(limiter.allow("other-1", 11));
    assert!(!limiter.allow("someone", WINDOW_NS - 1));
    assert!(limiter.allow("someone", WINDOW_NS));
}

#[test]
fn accounts_are_throttled_apart() {
    let mut limiter = AiCallLimiter::new();
    for _ in 0..ATTEMPTS_PER_WINDOW {
        assert!(limiter.allow("a", 0));
    }
    assert!(!limiter.allow("a", 1));
    assert!(limiter.allow("b", 1));
}

// Signing in.

#[test]
fn a_login_is_checked_before_the_store_is_asked() {
    let mut limiter = LoginAttemptLimiter::new();
    assert_eq!(check_login(&mut limiter, "u", 0, true, None).unwrap(), None);
    assert_eq!(
        check_login(&mut limiter, "u", 0, true, Some("account")).unwrap(),
        Some(PreferenceChoice::Account)
    );
    assert_eq!(
        check_login(&mut limiter, "u", 0, true, Some("both")).unwrap_err().message,
        "merge_preference must be anonymous or account"
    );
    assert_eq!(check_login(&mut limiter, "u", 0, false, None).unwrap_err().status, 503);
    for _ in 0..ATTEMPTS_PER_WINDOW {
        let _ = check_login(&mut limiter, "u", 0, true, None);
    }
    assert_eq!(check_login(&mut limiter, "u", 0, true, None).unwrap_err().status, 429);
}

#[test]
fn failures_are_answered_by_their_kind() {
    let wrong = login_failure(StorageFailure::NotFound, "", "no such user");
    assert_eq!((wrong.status, wrong.message.as_str()), (401, "invalid username or password"));
    let merge = login_failure(StorageFailure::Conflict, "merge_preference_choice_required", "d");
    assert_eq!((merge.status, merge.code.as_str()), (409, "merge_choice_required"));
    assert_eq!(login_failure(StorageFailure::Conflict, "other", "d").code, "version_conflict");
    assert_eq!(register_failure(StorageFailure::Conflict, "d").code, "account_conflict");
    assert_eq!(refresh_failure(StorageFailure::NotFound, "d").status, 401);
    assert_eq!(map_account_error(StorageFailure::NotFound, "d").message, "sign in to continue");
    assert_eq!(map_storage_error(StorageFailure::NotFound, "gone").message, "gone");
    assert_eq!(
        map_storage_error(StorageFailure::Other, "secret").message,
        map_storage_error(StorageFailure::Other, "other secret").message
    );
    assert_eq!(map_storage_error(StorageFailure::Validation, "d").status, 400);
    assert_eq!(map_storage_error(StorageFailure::Lease, "d").status, 409);
    assert_eq!(map_storage_error(StorageFailure::Migration, "d").status, 503);
    assert_eq!(storage_disabled().message, "storage is disabled");
}

#[test]
fn tokens_are_read_from_the_header() {
    assert_eq!(bearer_token(Some("Bearer abc")).as_deref(), Some("abc"));
    assert_eq!(bearer_token(Some("Bearer  ")), None);
    assert_eq!(bearer_token(Some("Basic abc")), None);
    assert_eq!(account_token(None).unwrap_err().status, 401);
    assert!(require_admin(Some("t"), Some("Bearer t")).is_ok());
    assert_eq!(require_admin(Some("t"), Some("Bearer x")).unwrap_err().status, 401);
    assert_eq!(require_admin(None, Some("Bearer t")).unwrap_err().status, 503);
}

#[test]
fn request_identifiers_are_kept_where_they_are_fine() {
    assert!(valid_request_id("a-1_b.c:D"));
    assert!(!valid_request_id("a b"));
    assert!(!valid_request_id(""));
    assert!(!valid_request_id(&"x".repeat(65)));
    assert_eq!(adopt_request_id(Some("given"), "fresh".to_owned()), "given");
    assert_eq!(adopt_request_id(Some("not fine"), "fresh".to_owned()), "fresh");
    assert_eq!(adopt_request_id(None, "fresh".to_owned()), "fresh");
    assert_eq!(device_label(None), "MPGS client");
    assert_eq!(device_label(Some("phone".to_owned())), "phone");
}

#[test]
fn a_service_tells_its_state() {
    let ready = readiness(StorageCheck::Passed { schema_version: 7 });
    assert_eq!((ready.http_status, ready.status, ready.schema_version), (200, "ready", Some(7)));
    assert_eq!(readiness(StorageCheck::Disabled).database, "disabled");
    assert_eq!(readiness(StorageCheck::Failed).http_status, 503);
    assert!(demo_mode(Some("YES")) && demo_mode(Some("1")));
    assert!(!demo_mode(Some("no")) && !demo_mode(None));
    let routes = vec![
        ReportedRoute { task: "a".to_owned(), primary_model: "m".to_owned(), enabled: true },
        ReportedRoute { task: "b".to_owned(), primary_model: "n".to_owned(), enabled: false },
    ];
    assert_eq!(ai_task_models(&routes), texts(&["a:m"]));
    let meta = |build: &str| MetaFacts {
        service_version: "1".to_owned(),
        algorithm_version: "2".to_owned(),
        config_version: None,
        schema_version: None,
        build: build.to_owned(),
        data_updated_at_ms: None,
        storage_enabled: true,
        demo_mode: false,
        ai_multi_model: true,
        ai_task_models: texts(&["a:m"]),
    };
    assert_eq!(meta_etag(&meta("x")), meta_etag(&meta("x")));
    assert_ne!(meta_etag(&meta("x")), meta_etag(&meta("y")));
}

// Providers that an account brings along.

fn resolution(host: &str, port: u16) -> CustomBaseUrlResolution {
    CustomBaseUrlResolution {
        base_url: format!("https://{host}/v1"),
        host: host.to_owned(),
        port,
    }
}

#[test]
fn custom_ai_request_must_match_saved_host_and_port() {
    let saved = resolution("ai.example.test", 443);
    let same_host_new_address = resolution("AI.EXAMPLE.TEST", 443);
    let other_host = resolution("other.example.test", 443);
    let other_port = resolution("ai.example.test", 8443);
    assert!(custom_ai_hosts_match(&same_host_new_address, &saved));
    assert!(!custom_ai_hosts_match(&other_host, &saved));
    assert!(!custom_ai_hosts_match(&other_port, &saved));
}

#[test]
fn anonymous_requests_never_resolve_the_builtin_ai_provider() {
    for mode in [None, Some(AiMode::Builtin), Some(AiMode::Custom), Some(AiMode::Off)] {
        let resolved = account_ai_gateway(None, mode);
        assert_eq!(resolved.gateway, GatewayKind::Disabled);
        assert!(resolved.admission.is_none());
        assert_eq!(resolved_task_router(&resolved, true, true), RouterChoice::Absent);
    }
}

#[test]
fn only_an_account_that_chose_it_gets_the_builtin_provider() {
    let builtin = account_ai_gateway(Some("u"), Some(AiMode::Builtin));
    assert_eq!(builtin.gateway, GatewayKind::Builtin);
    let admission = builtin.admission.as_ref().unwrap();
    assert_eq!(admission.user_id, "u");
    assert!(admission.charge_daily_quota);
    assert_eq!(resolved_task_router(&builtin, true, true), RouterChoice::Builtin);
    assert_eq!(resolved_task_router(&builtin, true, false), RouterChoice::Absent);
    assert_eq!(
        account_ai_gateway(Some("u"), Some(AiMode::Custom)).gateway,
        GatewayKind::Disabled
    );
    assert_eq!(disabled_resolved_ai().gateway, GatewayKind::Disabled);
}

#[test]
fn a_provider_is_brought_only_by_an_account_that_saved_one() {
    assert!(matches!(custom_ai_source(false, None, None), Ok(AiSource::Account)));
    assert_eq!(custom_ai_source(true, None, None).unwrap_err().status, 401);
    let saved = SavedAiSettings { mode: AiMode::Custom, base_url: Some("https://a".to_owned()) };
    assert!(matches!(
        custom_ai_source(true, Some("u"), Some(&saved)),
        Ok(AiSource::Device { saved_base_url }) if saved_base_url == "https://a"
    ));
    let missing = SavedAiSettings { mode: AiMode::Custom, base_url: None };
    assert!(custom_ai_source(true, Some("u"), Some(&missing)).is_err());
    let off = SavedAiSettings { mode: AiMode::Off, base_url: None };
    assert!(matches!(custom_ai_source(true, Some("u"), Some(&off)), Ok(AiSource::Account)));
}

fn brought() -> TransientCustomAiRequest {
    TransientCustomAiRequest {
        provider: "openai_compat".to_owned(),
        base_url: "https://ai.example.test/v1".to_owned(),
        model: "main".to_owned(),
        api_key: "k".to_owned(),
        multi_model: None,
        fallback_model: None,
        routes: None,
    }
}

#[test]
fn a_brought_provider_is_checked_and_routed() {
    let saved = Some(resolution("ai.example.test", 443));
    let (resolved, routes) =
        transient_custom_ai_resolved(&brought(), &saved, &saved, true, "u").unwrap();
    assert_eq!(resolved.gateway, GatewayKind::Custom);
    assert!(!resolved.admission.unwrap().charge_daily_quota);
    let routes = routes.unwrap();
    assert_eq!(routes.get(&AiTaskType::RankExplain).unwrap().primary_model, "main");

    let single = TransientCustomAiRequest { multi_model: Some(false), ..brought() };
    assert!(transient_custom_ai_resolved(&single, &saved, &saved, true, "u").unwrap().1.is_none());

    let other = TransientCustomAiRequest { provider: "x".to_owned(), ..brought() };
    assert!(check_transient_custom_ai(&other).is_err());
    let keyless = TransientCustomAiRequest { api_key: " ".to_owned(), ..brought() };
    assert!(check_transient_custom_ai(&keyless).is_err());
    assert_eq!(
        check_custom_endpoint(&None, &saved).unwrap_err().message,
        "custom AI endpoint is not allowed"
    );
    assert_eq!(
        check_custom_endpoint(&saved, &None).unwrap_err().message,
        "saved custom AI endpoint is no longer valid"
    );
    assert_eq!(
        check_custom_endpoint(&saved, &Some(resolution("b.test", 443))).unwrap_err().message,
        "custom AI endpoint does not match saved account settings"
    );
    assert_eq!(
        transient_custom_ai_resolved(&brought(), &saved, &saved, false, "u").unwrap_err().message,
        "custom AI configuration is invalid"
    );
}

#[test]
fn routes_of_a_brought_provider_name_their_models() {
    let request = TransientCustomAiRequest {
        routes: Some(vec![
            CustomRoute {
                task: "rank_analysis".to_owned(),
                primary_model: " best ".to_owned(),
                fallback_models: texts(&["best", " spare ", ""]),
            },
            CustomRoute {
                task: "unheard_of".to_owned(),
                primary_model: "x".to_owned(),
                fallback_models: Vec::new(),
            },
        ]),
        ..brought()
    };
    let table = build_transient_custom_routes(&request);
    let rank = table.get(&AiTaskType::RankExplain).unwrap();
    assert_eq!(rank.primary_model, "best");
    assert_eq!(rank.fallback_models, texts(&["spare"]));
    assert_eq!(parse_ai_task(" game_summary "), Ok(AiTaskType::GameSummary));
    assert_eq!(parse_ai_task("x"), Err(()));
}

#[test]
fn an_empty_list_of_routes_is_none() {
    let request = TransientCustomAiRequest {
        routes: Some(Vec::new()),
        fallback_model: Some("spare".to_owned()),
        ..brought()
    };
    let table = build_transient_custom_routes(&request);
    let rank = table.get(&AiTaskType::RankExplain).unwrap();
    assert_eq!(rank.primary_model, "main");
    assert_eq!(rank.fallback_models, texts(&["spare"]));
}

// Settings.

fn body() -> AiSettingsBody {
    AiSettingsBody {
        provider: Some("openai_compat".to_owned()),
        base_url: Some("https://a.test".to_owned()),
        model: Some(" m ".to_owned()),
        api_key: None,
    }
}

#[test]
fn settings_are_accepted_step_by_step() {
    assert_eq!(
        prepare_ai_settings(None, &body(), false).unwrap_err().message,
        "mode must be builtin, custom, or off"
    );
    assert!(matches!(
        prepare_ai_settings(Some(AiMode::Off), &body(), false),
        Ok(SettingsStep::Accept(settings)) if settings.base_url.is_none()
    ));
    let draft = match prepare_ai_settings(Some(AiMode::Custom), &body(), false) {
        Ok(SettingsStep::ResolveEndpoint(draft)) => draft,
        other => panic!("{other:?}"),
    };
    assert_eq!(draft.model, "m");
    match endpoint_resolved(draft, Some("https://a.test/v1".to_owned()), false) {
        Ok(SettingsStep::Accept(settings)) => {
            assert_eq!(settings.base_url.as_deref(), Some("https://a.test/v1"));
            assert!(settings.api_key.is_none());
        }
        other => panic!("{other:?}"),
    }
}

#[test]
fn a_connection_is_tried_with_a_key() {
    let keyed = AiSettingsBody { api_key: Some("k".to_owned()), ..body() };
    assert!(prepare_ai_settings(Some(AiMode::Custom), &keyed, false).is_err());
    let draft = match prepare_ai_settings(Some(AiMode::Custom), &keyed, true) {
        Ok(SettingsStep::ResolveEndpoint(draft)) => draft,
        other => panic!("{other:?}"),
    };
    let settings = match endpoint_resolved(draft, Some("https://a.test/v1".to_owned()), true) {
        Ok(SettingsStep::TryConnection(settings)) => settings,
        other => panic!("{other:?}"),
    };
    assert_eq!(connection_tried(settings, false).unwrap_err().status, 502);
    let keyless = match prepare_ai_settings(Some(AiMode::Custom), &body(), true) {
        Ok(SettingsStep::ResolveEndpoint(draft)) => draft,
        other => panic!("{other:?}"),
    };
    assert!(endpoint_resolved(keyless, Some("https://a.test/v1".to_owned()), true).is_err());
}

#[test]
fn models_are_discovered_or_the_reason_is_told() {
    assert!(check_discovery(" ").is_err());
    assert!(check_discovery("k").is_ok());
    assert_eq!(discover_custom_models(Discovery::Listed(texts(&["m"]))).unwrap(), texts(&["m"]));
    assert_eq!(discover_custom_models(Discovery::ListFailed).unwrap_err().status, 502);
    assert_eq!(discover_custom_models(Discovery::EndpointRefused).unwrap_err().status, 400);
    assert_eq!(discover_custom_models(Discovery::ConfigurationInvalid).unwrap_err().status, 400);
    assert_eq!(daily_remaining(10, Some(3)), Some(7));
    assert_eq!(daily_remaining(10, Some(30)), Some(0));
    assert_eq!(daily_remaining(10, None), None);
}
