//! What surrounds the feed: jobs that run on time, throttles, sign-in, errors, events, and the
//! providers that people bring.

use vstd::prelude::*;

use crate::ai::route::{default_task_routes, AiTaskType, RouteTable};
use crate::numbers::decimal;
use crate::score::Score;
use crate::server::ai_settings::{
    connection_tried, daily_remaining, endpoint_resolved, prepare_ai_settings, AiSettingsBody,
    PutAiSettings, SettingsDraft, SettingsStep,
};
use crate::server::custom_ai::{
    account_ai_gateway, build_transient_custom_routes, check_custom_endpoint,
    check_transient_custom_ai, custom_ai_hosts_match, custom_ai_source, parse_ai_task,
    resolved_task_router, transient_custom_ai_resolved, AiMode, AiSource, CustomBaseUrlResolution,
    ResolvedAiGateway, RouterChoice, SavedAiSettings, TransientCustomAiRequest,
};
use crate::server::errors::{
    bearer_token, map_account_error, map_storage_error, require_admin, ApiError, StorageFailure,
};
use crate::server::events::{
    attributed_items, candidate_count, check_attribution, check_feedback,
    check_recommendation_event, job_schedule, lease_terms, public_recommendation_event,
    retry_delay, JobSchedule, RunItem, ShownItem,
};
use crate::server::limits::{
    admits, after_attempt, identity_key, login_key, AiCallLimiter, AttemptCounter,
    LoginAttemptLimiter,
};
use crate::server::scheduler::{
    collection_step, configured_interval, due, next_run_at, quality_outcome, retrieval_after,
    retrieval_outcome, CollectionStep, CollectionTask, DataRefreshStatus, RetrievalBatch,
    TaskIntervals,
};
use crate::server::sessions::{
    account_token, adopt_request_id, ai_task_models, check_login, demo_mode, device_label,
    login_failure, readiness, refresh_failure, register_failure, task_models, PreferenceChoice,
    Readiness, ReportedRoute, StorageCheck,
};
use crate::text::{byte_len, opt_view, to_ascii_lower, trimmed};

verus! {

// ---------------------------------------------------------------------------
// Jobs on time
// ---------------------------------------------------------------------------

/// An interval that is set holds where it lies between the minimum and a day; otherwise the
/// default does.
pub proof fn law_intervals_stay_in_range(
    raw: &str,
    secs: u64,
    default: u64,
    minimum: u64,
    r: u64,
)
    requires
        raw@ == decimal(secs as nat),
        call_ensures(configured_interval, (Some(raw), default, minimum), r),
    ensures
        minimum <= secs <= 86_400 ==> r == secs,
        secs < minimum || secs > 86_400 ==> r == default,
{
    crate::numbers::lemma_decimal_roundtrip(secs as nat, u64::MAX as nat);
}

/// Where nothing is set the default holds, and it alone can lie outside the range.
pub proof fn law_unset_intervals_are_the_default(
    raw: Option<&str>,
    default: u64,
    minimum: u64,
    r: u64,
)
    requires
        call_ensures(configured_interval, (raw, default, minimum), r),
    ensures
        raw is None ==> r == default,
        r == default || minimum <= r <= 86_400,
{
}

/// Without settings the catalog is synchronised every fifteen minutes, candidates are collected
/// every six hours, and details every five minutes.
pub proof fn law_default_intervals(r: TaskIntervals)
    requires
        call_ensures(TaskIntervals::from_settings, (None::<&str>, None::<&str>, None::<&str>), r),
    ensures
        r.catalog_sync_secs == 15 * 60,
        r.candidate_collection_secs == 6 * 60 * 60,
        r.enrichment_secs == 5 * 60,
{
}

/// A task is due unless it has been put off to a later time.
pub proof fn law_tasks_fall_due(previous: Option<&DataRefreshStatus>, now_ms: i64, r: bool)
    requires
        call_ensures(due, (previous, now_ms), r),
    ensures
        previous is None ==> r,
        previous is Some && previous->0.next_run_at_ms is None ==> r,
        previous is Some && previous->0.next_run_at_ms is Some ==> (r
            <==> previous->0.next_run_at_ms->0 <= now_ms),
{
}

/// The next run lies an interval ahead.
pub proof fn law_next_run_is_an_interval_ahead(now_ms: i64, interval_secs: u64, r: i64)
    requires
        call_ensures(next_run_at, (now_ms, interval_secs), r),
        interval_secs <= 86_400,
        0 <= now_ms <= 0x7fff_0000_0000_0000,
    ensures
        r == now_ms + 1_000 * interval_secs,
{
}

/// A task that may not run is blocked for want of access, one that is not due or still running
/// waits, and any other is queued at once, to be tried three times; what was known of it before
/// is kept, and the next time is an interval ahead.
pub proof fn law_collection_takes_its_turn(
    task: CollectionTask,
    previous: Option<&DataRefreshStatus>,
    now_ms: i64,
    secs: u64,
    enabled: bool,
    active: bool,
    coverage: Option<Score>,
    is_due: bool,
    r: CollectionStep,
)
    requires
        call_ensures(due, (previous, now_ms), is_due),
        call_ensures(
            collection_step,
            (task, previous, now_ms, secs, enabled, active, coverage),
            r,
        ),
        secs <= 86_400,
        0 <= now_ms <= 0x7fff_0000_0000_0000,
    ensures
        r is Blocked <==> !enabled,
        r is Wait <==> enabled && (!is_due || active),
        r is Enqueue <==> enabled && is_due && !active,
        r is Blocked ==> {
            let status = r->Blocked_0;
            &&& opt_view(status.last_error_category) == Some("auth"@)
            &&& status.next_run_at_ms == Some((now_ms + 1_000 * secs) as i64)
            &&& previous is Some ==> status.last_success_at_ms == previous->0.last_success_at_ms
        },
        r is Enqueue ==> {
            let job = r->Enqueue_0;
            let status = r->Enqueue_1;
            &&& job.due_at_ms == now_ms
            &&& job.max_attempts == 3
            &&& job.priority == 50
            &&& task is CatalogSync ==> job.task_type@ == "sync_catalog"@
            &&& task is CandidateCollection ==> job.task_type@ == "collect_candidates"@
            &&& task is Enrichment ==> job.task_type@ == "enrich_catalog"@
            &&& status.last_error_category is None
            &&& status.next_run_at_ms == Some((now_ms + 1_000 * secs) as i64)
            &&& previous is Some ==> status.last_success_at_ms == previous->0.last_success_at_ms
                && opt_view(status.cursor_value) == opt_view(previous->0.cursor_value)
            &&& previous is None ==> status.last_success_at_ms is None && status.cursor_value
                is None
        },
{
}

/// A check that succeeded is recorded as of now; one that failed keeps the last success and
/// names the failure.
pub proof fn law_outcomes_are_recorded(
    succeeded: bool,
    previous: DataRefreshStatus,
    now_ms: i64,
    next_run_at_ms: i64,
    coverage: Option<Score>,
    r: DataRefreshStatus,
)
    requires
        call_ensures(
            quality_outcome,
            (succeeded, Some(&previous), now_ms, next_run_at_ms, coverage),
            r,
        ),
    ensures
        r.next_run_at_ms == Some(next_run_at_ms),
        succeeded ==> r.last_success_at_ms == Some(now_ms) && r.last_error_category is None,
        !succeeded ==> r.last_success_at_ms == previous.last_success_at_ms
            && r.last_error_category is Some && opt_view(r.cursor_value) == opt_view(
            previous.cursor_value,
        ),
{
}

/// A batch that was retrieved is where the next one goes on; a failed one is tried again from
/// where the last one ended.
pub proof fn law_retrieval_goes_on(
    batch: Option<RetrievalBatch>,
    previous: DataRefreshStatus,
    now_ms: i64,
    next_run_at_ms: i64,
    status: DataRefreshStatus,
    before: u32,
    r: u32,
)
    requires
        call_ensures(
            retrieval_outcome,
            (batch, Some(&previous), now_ms, next_run_at_ms),
            status,
        ),
        call_ensures(retrieval_after, (Some(&previous),), before),
        call_ensures(retrieval_after, (Some(&status),), r),
    ensures
        batch is Some ==> r == batch->0.next_after_app_id && status.last_success_at_ms == Some(
            now_ms,
        ) && status.last_error_category is None,
        batch is None ==> r == before && status.last_success_at_ms == previous.last_success_at_ms
            && status.last_error_category is Some,
{
    if batch is Some {
        crate::numbers::lemma_decimal_roundtrip(
            batch->0.next_after_app_id as nat,
            u32::MAX as nat,
        );
    }
}

// ---------------------------------------------------------------------------
// Throttles
// ---------------------------------------------------------------------------

/// Within a minute of its first attempt an identity has ten; the next one is refused and not
/// counted. After the minute it starts anew. Nobody else's count changes.
pub proof fn law_ten_attempts_a_minute(
    counters: Map<u64, AttemptCounter>,
    key: u64,
    other: u64,
    now_ns: u64,
)
    requires
        counters.dom().len() < 100_000,
        other != key,
    ensures
        ({
            let known = counters.contains_key(key) && now_ns - counters[key].started_ns
                < 60_000_000_000;
            let after = after_attempt(counters, key, now_ns);
            &&& admits(counters, key, now_ns) <==> !known || counters[key].attempts < 10
            &&& !known ==> after.contains_key(key) && after[key].started_ns == now_ns
                && after[key].attempts == 1
            &&& known && counters[key].attempts < 10 ==> after.contains_key(key)
                && after[key].started_ns == counters[key].started_ns && after[key].attempts
                == counters[key].attempts + 1
            &&& known && counters[key].attempts >= 10 ==> after[key] == counters[key]
            &&& after.contains_key(other) == counters.contains_key(other)
            &&& counters.contains_key(other) ==> after[other] == counters[other]
        }),
{
}

/// Both throttles count so, a login by the name it is for and a call to a model by the account.
pub proof fn law_throttles_count_attempts(name: &str, now_ns: u64)
    ensures
        forall|limiter: &mut LoginAttemptLimiter, r: bool| #[trigger]
            call_ensures(LoginAttemptLimiter::allow, (limiter, name, now_ns), r) ==> r == admits(
                limiter.counters@,
                login_key(name@),
                now_ns,
            ) && final(limiter).counters@ == after_attempt(
                limiter.counters@,
                login_key(name@),
                now_ns,
            ),
        forall|limiter: &mut AiCallLimiter, r: bool| #[trigger]
            call_ensures(AiCallLimiter::allow, (limiter, name, now_ns), r) ==> r == admits(
                limiter.counters@,
                identity_key(name@),
                now_ns,
            ) && final(limiter).counters@ == after_attempt(
                limiter.counters@,
                identity_key(name@),
                now_ns,
            ),
{
}

/// A login is refused before anything else where its name has used up its attempts; then without
/// storage; then where the choice between two sets of preferences is none of the two.
pub proof fn law_logins_are_checked(
    name: &str,
    now_ns: u64,
    storage_available: bool,
    choice: Option<&str>,
)
    ensures
        forall|
            limiter: &mut LoginAttemptLimiter,
            r: Result<Option<PreferenceChoice>, ApiError>,
        | #[trigger]
            call_ensures(check_login, (limiter, name, now_ns, storage_available, choice), r) ==> {
                let open = admits(limiter.counters@, login_key(name@), now_ns);
                &&& !open ==> r is Err && r->Err_0.status == 429
                &&& open && !storage_available ==> r is Err && r->Err_0.status == 503
                &&& open && storage_available && choice is None ==> r is Ok && r->Ok_0 is None
                &&& open && storage_available && choice is Some && choice->0@ == "anonymous"@ ==> r
                    == Ok::<Option<PreferenceChoice>, ApiError>(Some(PreferenceChoice::Anonymous))
                &&& open && storage_available && choice is Some && choice->0@ == "account"@ ==> r
                    == Ok::<Option<PreferenceChoice>, ApiError>(Some(PreferenceChoice::Account))
                &&& open && storage_available && choice is Some && choice->0@ != "anonymous"@
                    && choice->0@ != "account"@ ==> r is Err && r->Err_0.status == 400
            },
{
    reveal_strlit("anonymous");
    reveal_strlit("account");
    assert("anonymous"@.len() == 9 && "account"@.len() == 7);
}

/// One name is one identity, whatever its case and the white space around it.
pub proof fn law_names_are_one_identity(a: Seq<char>, b: Seq<char>)
    requires
        to_ascii_lower(trimmed(a)) == to_ascii_lower(trimmed(b)),
    ensures
        login_key(a) == login_key(b),
{
}

// ---------------------------------------------------------------------------
// Access and errors
// ---------------------------------------------------------------------------

proof fn lemma_stripped(s: Seq<char>, prefix: Seq<char>, rest: Seq<char>)
    ensures
        crate::text::stripped_prefix(s, prefix) == Some(rest) <==> s == prefix + rest,
{
    if s == prefix + rest {
        assert(s.subrange(prefix.len() as int, s.len() as int) =~= rest);
        assert(prefix =~= s.subrange(0, prefix.len() as int));
    }
    if crate::text::stripped_prefix(s, prefix) == Some(rest) {
        assert(s =~= prefix + rest);
    }
}

/// An operator is let in exactly with the configured token; without one configured nobody is.
pub proof fn law_operators_need_the_token(
    configured: Option<&str>,
    authorization: Option<&str>,
    r: Result<(), ApiError>,
)
    requires
        call_ensures(require_admin, (configured, authorization), r),
    ensures
        r is Ok <==> configured is Some && authorization is Some && authorization->0@ == "Bearer "@
            + configured->0@,
        configured is None ==> r->Err_0.status == 503,
        configured is Some && r is Err ==> r->Err_0.status == 401,
{
    if configured is Some && authorization is Some {
        lemma_stripped(authorization->0@, "Bearer "@, configured->0@);
    }
}

/// A token is what follows the word in front of it, and not blank.
pub proof fn law_tokens_follow_the_word(
    header: Option<&str>,
    token: Seq<char>,
    r: Option<String>,
    account: Result<String, ApiError>,
)
    requires
        call_ensures(bearer_token, (header,), r),
        call_ensures(account_token, (header,), account),
    ensures
        opt_view(r) == Some(token) <==> header is Some && header->0@ == "Bearer "@ + token
            && trimmed(token).len() > 0,
        account is Ok <==> r is Some,
        account is Ok ==> account->Ok_0@ == r->0@,
        account is Err ==> account->Err_0.status == 401,
{
    if header is Some {
        lemma_stripped(header->0@, "Bearer "@, token);
    }
}

/// Each failure of the storage has its status; one that is the server's own fault shows nothing
/// of its detail, and any other shows it.
pub proof fn law_failures_have_a_status(kind: StorageFailure, detail: &str, r: ApiError)
    requires
        call_ensures(map_storage_error, (kind, detail), r),
    ensures
        kind is NotFound <==> r.status == 404,
        kind is Validation <==> r.status == 400,
        kind is Conflict || kind is Lease <==> r.status == 409,
        kind is Migration <==> r.status == 503,
        kind is Other <==> r.status == 500,
        r.status < 500 ==> r.message@ == detail@,
        kind is Other ==> r.message@ == "internal server error"@,
        kind is Migration ==> r.message@ == "storage is temporarily unavailable"@,
{
}

/// What is not found is answered as not signed in where an account is asked for, at sign-in and
/// at renewal; everything else as elsewhere. A name that is taken is a conflict that says
/// nothing of the account.
pub proof fn law_accounts_are_not_given_away(
    kind: StorageFailure,
    conflict: &str,
    detail: &str,
    general: ApiError,
    account: ApiError,
    login: ApiError,
    refresh: ApiError,
    register: ApiError,
)
    requires
        call_ensures(map_storage_error, (kind, detail), general),
        call_ensures(map_account_error, (kind, detail), account),
        call_ensures(login_failure, (kind, conflict, detail), login),
        call_ensures(refresh_failure, (kind, detail), refresh),
        call_ensures(register_failure, (kind, detail), register),
    ensures
        kind is NotFound ==> account.status == 401 && login.status == 401 && refresh.status == 401,
        kind is NotFound ==> login.message@ == "invalid username or password"@,
        !(kind is NotFound) ==> account.status == general.status && account.message@
            == general.message@ && refresh.status == general.status,
        !(kind is NotFound) && !(kind is Conflict) ==> login.status == general.status,
        kind is Conflict ==> register.status == 409 && register.message@
            == "unable to create account with those details"@,
        !(kind is Conflict) ==> register.status == general.status,
{
}

/// The service is ready exactly where its storage passed its check.
pub proof fn law_ready_with_storage(check: StorageCheck, r: Readiness)
    requires
        call_ensures(readiness, (check,), r),
    ensures
        r.http_status == 200 <==> check is Passed,
        r.http_status == 503 <==> !(check is Passed),
        r.status@ == "ready"@ <==> check is Passed,
        r.schema_version is Some <==> check is Passed,
        check is Passed ==> r.schema_version->0 == check->schema_version,
{
    reveal_strlit("ready");
    reveal_strlit("not_ready");
    assert("ready"@.len() == 5 && "not_ready"@.len() == 9);
}

// ---------------------------------------------------------------------------
// Events
// ---------------------------------------------------------------------------

/// Four events are taken from the public, each with its class; any other name is refused.
pub proof fn law_public_events(
    event_type: &str,
    r: Option<(&'static str, &'static str)>,
)
    requires
        call_ensures(public_recommendation_event, (event_type,), r),
    ensures
        r is Some <==> event_type@ == "exposure"@ || event_type@ == "detail_open"@ || event_type@
            == "steam_click"@ || event_type@ == "play_intent"@,
        r is Some ==> (r->0).0@ == event_type@,
        event_type@ == "exposure"@ ==> (r->0).1@ == "impression"@,
        event_type@ == "detail_open"@ ==> (r->0).1@ == "engagement"@,
        event_type@ == "steam_click"@ ==> (r->0).1@ == "outbound"@,
        event_type@ == "play_intent"@ ==> (r->0).1@ == "intent"@,
{
    reveal_strlit("exposure");
    reveal_strlit("detail_open");
    reveal_strlit("steam_click");
    reveal_strlit("play_intent");
    assert("exposure"@.len() == 8 && "detail_open"@.len() == 11 && "steam_click"@.len() == 11
        && "play_intent"@.len() == 11);
    assert("detail_open"@[0] == 'd' && "steam_click"@[0] == 's' && "play_intent"@[0] == 'p');
}

/// A name that a client gives itself or a run: not blank and of at most 128 bytes.
pub open spec fn is_short_name(text: Seq<char>) -> bool {
    trimmed(text).len() > 0 && byte_len(text) <= 128
}

/// An event is taken exactly where its name is known and its key and run are short names.
pub proof fn law_events_are_checked(
    event_type: &str,
    idempotency_key: Option<&str>,
    run_id: &str,
    named: Option<(&'static str, &'static str)>,
    r: Result<(&'static str, &'static str), ApiError>,
)
    requires
        call_ensures(public_recommendation_event, (event_type,), named),
        call_ensures(check_recommendation_event, (event_type, idempotency_key, run_id), r),
    ensures
        r is Ok <==> named is Some && idempotency_key is Some && is_short_name(
            idempotency_key->0@,
        ) && is_short_name(run_id@),
        r is Ok ==> r->Ok_0.0@ == (named->0).0@ && r->Ok_0.1@ == (named->0).1@,
        r is Err ==> r->Err_0.status == 400,
{
}

/// Only a run that is known not to have shown the game is refused; feedback needs a known kind
/// and a key.
pub proof fn law_attribution_and_feedback(
    attributed: Option<bool>,
    known_type: bool,
    idempotency_key: Option<&str>,
    r: Result<(), ApiError>,
    s: Result<(), ApiError>,
)
    requires
        call_ensures(check_attribution, (attributed,), r),
        call_ensures(check_feedback, (known_type, idempotency_key), s),
    ensures
        r is Err <==> attributed == Some(false),
        s is Ok <==> known_type && idempotency_key is Some,
{
}

/// A page is recorded only where every item on it can be, and then every item as it was shown.
pub proof fn law_pages_are_recorded_whole(
    page: Vec<ShownItem>,
    r: Option<Vec<RunItem>>,
    i: int,
)
    requires
        call_ensures(attributed_items, (&page,), r),
        0 <= i < page@.len(),
    ensures
        page@[i].app_id is None || page@[i].rank is None || page@[i].relevance_score is None
            || page@[i].data_confidence is None || page@[i].slot_reason is None
            || !page@[i].has_components ==> r is None,
        r is Some ==> {
            &&& r->0@.len() == page@.len()
            &&& r->0@[i].app_id == page@[i].app_id->0
            &&& r->0@[i].rank == page@[i].rank->0
            &&& r->0@[i].relevance_score == page@[i].relevance_score->0
            &&& r->0@[i].data_confidence == page@[i].data_confidence->0
            &&& r->0@[i].slot_reason@ == page@[i].slot_reason->0@
        },
{
    if r is Some {
        assert(crate::server::events::records(r->0@[i], page@[i]));
        assert(crate::server::events::is_attributable(page@[i]));
    } else {
        assert(!crate::server::events::all_attributable(page@));
    }
    assert(crate::server::events::all_attributable(page@)
        ==> crate::server::events::is_attributable(page@[i]));
}

/// What is asked of a job holds; otherwise it has priority a hundred, is due now and is tried
/// five times; leases are of ten jobs and a minute, and so is a delay.
pub proof fn law_jobs_have_defaults(
    priority: Option<i64>,
    due_at_ms: Option<i64>,
    max_attempts: Option<i64>,
    now_ms: i64,
    limit: Option<i64>,
    lease_ms: Option<i64>,
    delay_ms: Option<i64>,
    r: JobSchedule,
    lease: (i64, i64),
    delay: i64,
)
    requires
        call_ensures(job_schedule, (priority, due_at_ms, max_attempts, now_ms), r),
        call_ensures(lease_terms, (limit, lease_ms), lease),
        call_ensures(retry_delay, (delay_ms,), delay),
    ensures
        r.priority == (if priority is Some {
            priority->0
        } else {
            100
        }),
        r.due_at_ms == (if due_at_ms is Some {
            due_at_ms->0
        } else {
            now_ms
        }),
        r.max_attempts == (if max_attempts is Some {
            max_attempts->0
        } else {
            5
        }),
        lease.0 == (if limit is Some {
            limit->0
        } else {
            10
        }),
        lease.1 == (if lease_ms is Some {
            lease_ms->0
        } else {
            60_000
        }),
        delay == (if delay_ms is Some {
            delay_ms->0
        } else {
            60_000
        }),
{
}

/// Counts that fit are told as they are.
pub proof fn law_counts_are_told(candidates: usize, r: u32)
    requires
        call_ensures(candidate_count, (candidates,), r),
        candidates <= u32::MAX,
    ensures
        r == candidates,
{
}

// ---------------------------------------------------------------------------
// Providers that people bring
// ---------------------------------------------------------------------------

/// Two endpoints are one service exactly where port and host agree, whatever the host's case.
pub proof fn law_services_are_host_and_port(
    requested: CustomBaseUrlResolution,
    saved: CustomBaseUrlResolution,
    r: bool,
)
    requires
        call_ensures(custom_ai_hosts_match, (&requested, &saved), r),
    ensures
        r <==> requested.port == saved.port && to_ascii_lower(requested.host@) == to_ascii_lower(
            saved.host@,
        ),
{
}

/// An endpoint is used only where it and the saved one can be resolved to the same service.
pub proof fn law_endpoints_match_the_saved_one(
    requested: Option<CustomBaseUrlResolution>,
    saved: Option<CustomBaseUrlResolution>,
    r: Result<(), ApiError>,
)
    requires
        call_ensures(check_custom_endpoint, (&requested, &saved), r),
    ensures
        r is Ok <==> requested is Some && saved is Some && requested->0.port == saved->0.port
            && to_ascii_lower(requested->0.host@) == to_ascii_lower(saved->0.host@),
        r is Err ==> r->Err_0.status == 400,
{
}

/// A provider that is brought names its kind, a model and a key.
pub proof fn law_brought_providers_are_complete(
    custom: TransientCustomAiRequest,
    r: Result<(), ApiError>,
)
    requires
        call_ensures(check_transient_custom_ai, (&custom,), r),
    ensures
        r is Ok <==> custom.provider@ == "openai_compat"@ && trimmed(custom.model@).len() > 0
            && trimmed(custom.api_key@).len() > 0,
{
}

/// The service's own model answers, and is charged for, exactly where somebody is signed in and
/// has chosen it.
pub proof fn law_own_model_is_charged(
    user_id: Option<&str>,
    mode: Option<AiMode>,
    r: ResolvedAiGateway,
)
    requires
        call_ensures(account_ai_gateway, (user_id, mode), r),
    ensures
        r.gateway is Builtin <==> user_id is Some && mode is Some && mode->0 is Builtin,
        r.gateway is Disabled <==> !(user_id is Some && mode is Some && mode->0 is Builtin),
        r.admission is Some <==> r.gateway is Builtin,
        r.gateway is Builtin ==> r.admission->0.user_id@ == user_id->0@
            && r.admission->0.charge_daily_quota,
        !r.has_custom_router,
{
}

/// A router of one's own goes before the service's.
pub proof fn law_own_router_first(
    resolved: ResolvedAiGateway,
    custom_available: bool,
    builtin_available: bool,
    r: RouterChoice,
)
    requires
        call_ensures(
            resolved_task_router,
            (&resolved, custom_available, builtin_available),
            r,
        ),
    ensures
        resolved.has_custom_router ==> !(r is Builtin),
        resolved.has_custom_router && custom_available ==> r is Custom,
        !resolved.has_custom_router ==> !(r is Custom),
        !resolved.has_custom_router && resolved.use_builtin_router && builtin_available ==> r
            is Builtin,
        !builtin_available && !custom_available ==> r is Absent,
{
}

/// Tasks go by their names.
pub proof fn law_tasks_go_by_their_names(raw: &str, r: Result<AiTaskType, ()>)
    requires
        call_ensures(parse_ai_task, (raw,), r),
    ensures
        trimmed(raw@) == "intent_parse"@ ==> r == Ok::<AiTaskType, ()>(AiTaskType::IntentParse),
        trimmed(raw@) == "rank_explain"@ ==> r == Ok::<AiTaskType, ()>(AiTaskType::RankExplain),
        trimmed(raw@) == "rank_analysis"@ ==> r == Ok::<AiTaskType, ()>(AiTaskType::RankExplain),
        trimmed(raw@) == "compare_games"@ ==> r == Ok::<AiTaskType, ()>(AiTaskType::CompareGames),
        trimmed(raw@) == "group_advice"@ ==> r == Ok::<AiTaskType, ()>(AiTaskType::GroupAdvice),
        trimmed(raw@) == "game_summary"@ ==> r == Ok::<AiTaskType, ()>(AiTaskType::GameSummary),
        trimmed(raw@) == "data_quality"@ ==> r == Ok::<AiTaskType, ()>(AiTaskType::DataQuality),
        trimmed(raw@) == "feature_extract"@ ==> r == Ok::<AiTaskType, ()>(
            AiTaskType::FeatureExtract,
        ),
        trimmed(raw@) == "embed"@ ==> r == Ok::<AiTaskType, ()>(AiTaskType::Embed),
        trimmed(raw@).len() == 0 ==> r is Err,
{
    reveal_strlit("intent_parse");
    reveal_strlit("rank_explain");
    reveal_strlit("rank_analysis");
    reveal_strlit("compare_games");
    reveal_strlit("group_advice");
    reveal_strlit("game_summary");
    reveal_strlit("data_quality");
    reveal_strlit("feature_extract");
    reveal_strlit("embed");
    assert("intent_parse"@.len() == 12 && "intent_parse"@[0] == 'i');
    assert("rank_explain"@.len() == 12 && "rank_explain"@[0] == 'r');
    assert("rank_analysis"@.len() == 13 && "rank_analysis"@[0] == 'r');
    assert("compare_games"@.len() == 13 && "compare_games"@[0] == 'c');
    assert("group_advice"@.len() == 12 && "group_advice"@[0] == 'g' && "group_advice"@[1] == 'r');
    assert("game_summary"@.len() == 12 && "game_summary"@[0] == 'g' && "game_summary"@[1] == 'a');
    assert("data_quality"@.len() == 12 && "data_quality"@[0] == 'd');
    assert("feature_extract"@.len() == 15);
    assert("embed"@.len() == 5);
}

/// Settings for a provider of one's own need its kind, an endpoint and a model of at most 256
/// bytes; a key is kept out of what is saved. The other two modes are saved with nothing else.
pub proof fn law_settings_are_checked(
    mode: Option<AiMode>,
    body: AiSettingsBody,
    test_connection: bool,
    r: Result<SettingsStep, ApiError>,
)
    requires
        call_ensures(prepare_ai_settings, (mode, &body, test_connection), r),
    ensures
        mode is None ==> r is Err,
        mode is Some && !(mode->0 is Custom) ==> r is Ok && r->Ok_0 is Accept && {
            let saved = r->Ok_0->Accept_0;
            saved.mode == mode->0 && saved.provider is None && saved.base_url is None
                && saved.model is None && saved.api_key is None
        },
        mode is Some && mode->0 is Custom ==> (r is Ok <==> {
            &&& opt_view(body.provider) == Some("openai_compat"@)
            &&& body.base_url is Some
            &&& body.model is Some && trimmed(body.model->0@).len() > 0 && byte_len(
                trimmed(body.model->0@),
            ) <= 256
            &&& test_connection || body.api_key is None || trimmed(body.api_key->0@).len() == 0
        }),
        r is Err ==> r->Err_0.status == 400,
{
}

/// A connection is tried only with a key and only where that is asked for; what is saved without
/// a trial is the draft at the resolved endpoint.
pub proof fn law_connections_are_tried_with_a_key(
    draft: SettingsDraft,
    base_url: Option<String>,
    test_connection: bool,
    r: Result<SettingsStep, ApiError>,
)
    requires
        call_ensures(endpoint_resolved, (draft, base_url, test_connection), r),
    ensures
        r is Ok <==> base_url is Some && (!test_connection || draft.api_key is Some),
        r is Ok ==> (r->Ok_0 is TryConnection <==> test_connection),
        r is Ok ==> (r->Ok_0 is Accept <==> !test_connection),
        r is Ok && r->Ok_0 is Accept ==> opt_view(r->Ok_0->Accept_0.base_url) == Some(
            base_url->0@,
        ) && opt_view(r->Ok_0->Accept_0.model) == Some(draft.model@) && r->Ok_0->Accept_0.mode
            is Custom,
{
}

/// A connection that failed is answered as such, and nothing is saved.
pub proof fn law_failed_connections_save_nothing(
    settings: PutAiSettings,
    succeeded: bool,
    r: Result<SettingsStep, ApiError>,
)
    requires
        call_ensures(connection_tried, (settings, succeeded), r),
    ensures
        r is Ok <==> succeeded,
        succeeded ==> r->Ok_0 == SettingsStep::Accept(settings),
        !succeeded ==> r->Err_0.status == 502,
{
}

/// What is left of a day's budget and what was used of it make up the budget, until it is used
/// up.
pub proof fn law_budget_is_used_up(daily_budget: u32, used: u32, r: Option<u32>)
    requires
        call_ensures(daily_remaining, (daily_budget, Some(used)), r),
    ensures
        r is Some,
        used <= daily_budget ==> r->0 + used == daily_budget,
        used > daily_budget ==> r->0 == 0,
{
}

// ---------------------------------------------------------------------------
// More on sessions
// ---------------------------------------------------------------------------

/// A character that a request's own name may hold.
pub open spec fn is_name_char(c: char) -> bool {
    ('a' <= c && c <= 'z') || ('A' <= c && c <= 'Z') || ('0' <= c && c <= '9') || c == '-' || c
        == '_' || c == '.' || c == ':'
}

/// A request keeps the name it came with where that is short and plain, and gets a fresh one
/// otherwise.
pub proof fn law_requests_keep_their_names(given: Option<&str>, fresh: String, r: String, i: int)
    requires
        call_ensures(adopt_request_id, (given, fresh), r),
    ensures
        given is None ==> r@ == fresh@,
        r@ == fresh@ || (given is Some && r@ == given->0@),
        given is Some && given->0@.len() > 0 && byte_len(given->0@) <= 64 && (forall|k: int|
            0 <= k < given->0@.len() ==> is_name_char(#[trigger] given->0@[k])) ==> r@ == given->0@,
        given is Some && (given->0@.len() == 0 || byte_len(given->0@) > 64) ==> r@ == fresh@,
        given is Some && 0 <= i < given->0@.len() && !is_name_char(given->0@[i]) ==> r@ == fresh@,
{
    if given is Some {
        let text = given->0@;
        if forall|k: int| 0 <= k < text.len() ==> is_name_char(#[trigger] text[k]) {
            assert(crate::server::errors::all_request_id_chars(text));
        }
        if 0 <= i < text.len() && !is_name_char(text[i]) {
            assert(!crate::server::errors::request_id_char(text[i]));
        }
    }
}

/// A device has the label it is given, or a general one; demonstration is on by three words.
pub proof fn law_labels_and_demonstration(
    label: Option<String>,
    value: Option<&str>,
    r: String,
    on: bool,
)
    requires
        call_ensures(device_label, (label,), r),
        call_ensures(demo_mode, (value,), on),
    ensures
        label is Some ==> r@ == label->0@,
        label is None ==> r@ == "MPGS client"@,
        value is None ==> !on,
        value is Some ==> (on <==> to_ascii_lower(value->0@) == "1"@ || to_ascii_lower(value->0@)
            == "true"@ || to_ascii_lower(value->0@) == "yes"@),
{
}

proof fn lemma_task_models(routes: Seq<ReportedRoute>, i: int)
    requires
        0 <= i < routes.len(),
        routes[i].enabled,
    ensures
        task_models(routes).contains(routes[i].task@ + ":"@ + routes[i].primary_model@),
    decreases routes.len(),
{
    let front = routes.drop_last();
    let all = task_models(routes);
    if i == routes.len() - 1 {
        assert(all[all.len() - 1] == routes[i].task@ + ":"@ + routes[i].primary_model@);
    } else {
        lemma_task_models(front, i);
        let kept = task_models(front);
        let text = routes[i].task@ + ":"@ + routes[i].primary_model@;
        let k = choose|k: int| 0 <= k < kept.len() && kept[k] == text;
        assert(all[k] == text);
    }
}

proof fn lemma_task_models_count(routes: Seq<ReportedRoute>)
    ensures
        task_models(routes).len() == routes.filter(|x: ReportedRoute| x.enabled).len(),
    decreases routes.len(),
{
    reveal(Seq::filter);
    if routes.len() > 0 {
        lemma_task_models_count(routes.drop_last());
    }
}

/// Each route that is on is told with its model, and no other.
pub proof fn law_routes_that_are_on_are_told(routes: Vec<ReportedRoute>, r: Vec<String>, i: int)
    requires
        call_ensures(ai_task_models, (&routes,), r),
        0 <= i < routes@.len(),
    ensures
        routes@[i].enabled ==> crate::text::views(r@).contains(
            routes@[i].task@ + ":"@ + routes@[i].primary_model@,
        ),
        r@.len() == routes@.filter(|x: ReportedRoute| x.enabled).len(),
{
    lemma_task_models_count(routes@);
    assert(crate::text::views(r@).len() == r@.len());
    if routes@[i].enabled {
        lemma_task_models(routes@, i);
    }
}

// ---------------------------------------------------------------------------
// More on providers that people bring
// ---------------------------------------------------------------------------

/// A provider on a device is used only by somebody who is signed in and has saved one.
pub proof fn law_device_providers_are_saved(
    brought: bool,
    user_id: Option<&str>,
    settings: Option<&SavedAiSettings>,
    r: Result<AiSource, ApiError>,
)
    requires
        call_ensures(custom_ai_source, (brought, user_id, settings), r),
    ensures
        r is Ok && r->Ok_0 is Device ==> brought && user_id is Some && settings is Some
            && settings->0.mode is Custom && settings->0.base_url is Some
            && r->Ok_0->saved_base_url@ == settings->0.base_url->0@,
        brought && user_id is None ==> r is Err && r->Err_0.status == 401,
        !brought ==> r is Ok && r->Ok_0 is Account,
        brought && user_id is Some && settings is None ==> r is Ok && r->Ok_0 is Account,
        brought && user_id is Some && settings is Some && settings->0.mode is Custom
            && settings->0.base_url is None ==> r is Err && r->Err_0.status == 400,
{
}

/// A provider that is brought is never charged to the day of the account.
pub proof fn law_brought_providers_are_not_charged(
    custom: TransientCustomAiRequest,
    requested: Option<CustomBaseUrlResolution>,
    saved: Option<CustomBaseUrlResolution>,
    configured: bool,
    user_id: &str,
    r: Result<(ResolvedAiGateway, Option<RouteTable>), ApiError>,
)
    requires
        call_ensures(
            transient_custom_ai_resolved,
            (&custom, &requested, &saved, configured, user_id),
            r,
        ),
    ensures
        !configured ==> r is Err,
        r is Ok ==> {
            let gateway = r->Ok_0.0;
            &&& gateway.gateway is Custom
            &&& gateway.admission is Some
            &&& gateway.admission->0.user_id@ == user_id@
            &&& !gateway.admission->0.charge_daily_quota
            &&& !gateway.use_builtin_router
            &&& gateway.has_custom_router <==> custom.multi_model != Some(false)
            &&& r->Ok_0.1 is Some <==> custom.multi_model != Some(false)
        },
        r is Ok ==> trimmed(custom.api_key@).len() > 0 && trimmed(custom.model@).len() > 0,
        r is Ok ==> requested is Some && saved is Some && requested->0.port == saved->0.port,
{
}

/// Without routes of its own, a brought model serves the five tasks that people wait for, and
/// the others keep the model they have.
pub proof fn law_brought_models_serve_people(
    custom: TransientCustomAiRequest,
    defaults: RouteTable,
    r: RouteTable,
    i: int,
)
    requires
        custom.routes is None,
        call_ensures(default_task_routes, (), defaults),
        call_ensures(build_transient_custom_routes, (&custom,), r),
        0 <= i < r.routes@.len(),
    ensures
        r.routes@.len() == 6,
        r.routes@[i].task == defaults.routes@[i].task,
        r.routes@[i].task is DataQuality ==> r.routes@[i].primary_model@
            == defaults.routes@[i].primary_model@,
        !(r.routes@[i].task is DataQuality) ==> r.routes@[i].primary_model@ == custom.model@,
        r.routes@[i].timeout_secs == defaults.routes@[i].timeout_secs,
        r.routes@[i].enabled,
{
    let d = choose|d: RouteTable| #[trigger]
        crate::ai::route::is_default_table(d) && crate::server::custom_ai::table_view(r)
            == crate::server::custom_ai::transient_view(
            crate::server::custom_ai::table_view(d),
            custom,
        );
    let views = crate::server::custom_ai::table_view(r);
    assert(views.len() == r.routes@.len());
    assert(views[i] == crate::server::custom_ai::route_view(r.routes@[i]));
    let before = crate::server::custom_ai::table_view(d);
    assert(before.len() == 6);
    assert(before[i] == crate::server::custom_ai::route_view(d.routes@[i]));
}

/// Each task has a route to begin with: reading a request is quick, explaining and comparing take
/// their time, and every route is on.
pub proof fn law_default_routes(r: RouteTable, i: int)
    requires
        call_ensures(default_task_routes, (), r),
    ensures
        r.routes@.len() == 6,
        r.routes@[0].task is IntentParse && r.routes@[0].timeout_secs == 8
            && r.routes@[0].max_output_tokens == 512,
        r.routes@[1].task is RankExplain && r.routes@[1].timeout_secs == 20
            && r.routes@[1].max_output_tokens == 1800,
        r.routes@[2].task is GameSummary && r.routes@[2].timeout_secs == 30,
        r.routes@[3].task is CompareGames && r.routes@[3].timeout_secs == 25,
        r.routes@[4].task is GroupAdvice && r.routes@[4].timeout_secs == 25,
        r.routes@[5].task is DataQuality && r.routes@[5].fallback_models@.len() == 0,
        0 <= i < 6 ==> r.routes@[i].enabled && r.routes@[i].route_version@ == "m8-route-v1"@,
        0 <= i < 5 ==> r.routes@[i].fallback_models@.len() == 1
            && r.routes@[i].fallback_models@[0]@ != r.routes@[i].primary_model@,
{
    reveal_strlit("grok-chat-fast");
    reveal_strlit("grok-4.20-0309-non-reasoning");
    reveal_strlit("grok-4.3");
    reveal_strlit("grok-4.20-0309-reasoning");
    assert("grok-chat-fast"@.len() == 14 && "grok-4.20-0309-non-reasoning"@.len() == 28
        && "grok-4.3"@.len() == 8 && "grok-4.20-0309-reasoning"@.len() == 24);
    assert(crate::text::views(r.routes@[5].fallback_models@).len()
        == r.routes@[5].fallback_models@.len());
    if 0 <= i < 5 {
        let list = crate::text::views(r.routes@[i].fallback_models@);
        assert(list.len() == r.routes@[i].fallback_models@.len());
        assert(list[0] == r.routes@[i].fallback_models@[0]@);
    }
}

/// A key of the store's web interface has thirty-two hexadecimal digits, and blanks around it do
/// not matter.
pub proof fn law_web_keys_are_hexadecimal(value: &str, key: String, r: bool, i: int)
    requires
        call_ensures(crate::text::trim, (value,), key),
        call_ensures(crate::server::scheduler::steam_web_api_key_configured, (Some(value),), r),
    ensures
        r ==> byte_len(key@) == 32,
        r && 0 <= i < key@.len() ==> (48 <= (key@[i] as int) <= 57 || 65 <= (key@[i] as int) <= 70
            || 97 <= (key@[i] as int) <= 102),
        byte_len(key@) == 32 && (forall|k: int|
            0 <= k < key@.len() ==> (48 <= ((#[trigger] key@[k]) as int) <= 57 || 97 <= (
            key@[k] as int) <= 102)) ==> r,
{
}

/// Without a value there is no key.
pub proof fn law_no_value_is_no_key(r: bool)
    requires
        call_ensures(crate::server::scheduler::steam_web_api_key_configured, (None::<&str>,), r),
    ensures
        !r,
{
}

proof fn lemma_found(statuses: Seq<DataRefreshStatus>, name: Seq<char>)
    ensures
        ({
            let at = crate::server::scheduler::found(statuses, name);
            &&& at is Some ==> 0 <= at->0 < statuses.len() && statuses[at->0].task_name@ == name
                && forall|j: int| 0 <= j < at->0 ==> (#[trigger] statuses[j]).task_name@ != name
            &&& at is None ==> forall|j: int|
                0 <= j < statuses.len() ==> (#[trigger] statuses[j]).task_name@ != name
        }),
    decreases statuses.len(),
{
    if statuses.len() > 0 {
        let front = statuses.drop_last();
        lemma_found(front, name);
        assert forall|j: int| 0 <= j < front.len() implies (#[trigger] statuses[j]) == front[j] by {}
    }
}

/// The record of a task bears its name; only a task that has none is not found.
pub proof fn law_records_are_found_by_name(
    statuses: Vec<DataRefreshStatus>,
    name: &str,
    r: Option<&DataRefreshStatus>,
    j: int,
)
    requires
        call_ensures(crate::server::scheduler::find_status, (&statuses, name), r),
        0 <= j < statuses@.len(),
    ensures
        r is Some ==> (r->0).task_name@ == name@ && statuses@.contains(*(r->0)),
        statuses@[j].task_name@ == name@ ==> r is Some,
        statuses@[j].task_name@ == name@ && (forall|k: int|
            0 <= k < j ==> (#[trigger] statuses@[k]).task_name@ != name@) ==> *(r->0)
            == statuses@[j],
{
    lemma_found(statuses@, name@);
}

/// In one run each collection task is decided on its own record, interval and job. Only the
/// catalog needs a key.
pub proof fn law_a_run_decides_each_task(
    statuses: Vec<DataRefreshStatus>,
    now_ms: i64,
    with_key: bool,
    intervals: TaskIntervals,
    active: crate::server::scheduler::ActiveJobs,
    coverage: Option<Score>,
    catalog: Option<&DataRefreshStatus>,
    candidates: Option<&DataRefreshStatus>,
    enrichment: Option<&DataRefreshStatus>,
    dues: (bool, bool, bool),
    r: (CollectionStep, CollectionStep, CollectionStep),
)
    requires
        call_ensures(
            crate::server::scheduler::plan_collection,
            (&statuses, now_ms, with_key, intervals, active, coverage),
            r,
        ),
        call_ensures(crate::server::scheduler::find_status, (&statuses, "catalog_sync"), catalog),
        call_ensures(
            crate::server::scheduler::find_status,
            (&statuses, "candidate_collection"),
            candidates,
        ),
        call_ensures(crate::server::scheduler::find_status, (&statuses, "enrichment"), enrichment),
        call_ensures(due, (catalog, now_ms), dues.0),
        call_ensures(due, (candidates, now_ms), dues.1),
        call_ensures(due, (enrichment, now_ms), dues.2),
        0 <= now_ms <= 0x7fff_0000_0000_0000,
        intervals.catalog_sync_secs <= 86_400,
        intervals.candidate_collection_secs <= 86_400,
        intervals.enrichment_secs <= 86_400,
    ensures
        r.0 is Blocked <==> !with_key,
        !(r.1 is Blocked) && !(r.2 is Blocked),
        r.0 is Enqueue <==> with_key && dues.0 && !active.catalog_sync,
        r.1 is Enqueue <==> dues.1 && !active.candidate_collection,
        r.2 is Enqueue <==> dues.2 && !active.enrichment,
        r.0 is Enqueue ==> r.0->Enqueue_0.task_type@ == "sync_catalog"@
            && r.0->Enqueue_1.next_run_at_ms == Some(
            (now_ms + 1_000 * intervals.catalog_sync_secs) as i64,
        ),
        r.1 is Enqueue ==> r.1->Enqueue_0.task_type@ == "collect_candidates"@
            && r.1->Enqueue_1.next_run_at_ms == Some(
            (now_ms + 1_000 * intervals.candidate_collection_secs) as i64,
        ),
        r.2 is Enqueue ==> r.2->Enqueue_0.task_type@ == "enrich_catalog"@
            && r.2->Enqueue_1.next_run_at_ms == Some(
            (now_ms + 1_000 * intervals.enrichment_secs) as i64,
        ),
{
}

/// Old telemetry is removed once a day; a pass that failed is tried again as soon as the
/// scheduler comes round, and keeps the last success.
pub proof fn law_telemetry_is_removed_daily(
    succeeded: bool,
    previous: DataRefreshStatus,
    now_ms: i64,
    retry_at_ms: i64,
    r: DataRefreshStatus,
)
    requires
        call_ensures(
            crate::server::scheduler::telemetry_outcome,
            (succeeded, Some(&previous), now_ms, retry_at_ms),
            r,
        ),
        now_ms <= 0x7fff_0000_0000_0000,
    ensures
        r.task_name@ == "recommendation_telemetry_retention"@,
        succeeded ==> r.last_success_at_ms == Some(now_ms) && r.next_run_at_ms == Some(
            (now_ms + 86_400_000) as i64,
        ) && r.last_error_category is None,
        !succeeded ==> r.last_success_at_ms == previous.last_success_at_ms && r.next_run_at_ms
            == Some(retry_at_ms) && opt_view(r.last_error_category) == Some(
            "telemetry_retention_failed"@,
        ),
{
}

} // verus!
