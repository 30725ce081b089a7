//! Signing in and out, and what the service says of itself.

use vstd::prelude::*;

use crate::hashing::{weak_etag, weak_etag_text};
use crate::numbers::{i64_decimal, int_decimal};
use crate::server::errors::{
    all_request_id_chars, api_error, bearer_token, bearer_token_of, invalid_argument,
    map_storage_error, refused, storage_code, storage_disabled, storage_message, storage_status,
    valid_request_id, ApiError, StorageFailure,
};
use crate::server::limits::{admits, after_attempt, login_key, LoginAttemptLimiter};
use crate::text::{
    ascii_lowercase, bool_str, bool_text, byte_len, join, join3, joined, str_eq, str_view,
    to_ascii_lower, views,
};

verus! {

/// Which preferences survive when an anonymous visitor signs in.
#[derive(Debug, Clone, Copy, PartialEq, Eq, Structural)]
pub enum PreferenceChoice {
    Anonymous,
    Account,
}

/// The choice that a request makes: the outer `None` is one that is no choice.
pub open spec fn choice_named(raw: Option<Seq<char>>) -> Option<Option<PreferenceChoice>> {
    match raw {
        None => Some(None),
        Some(name) => if name == "anonymous"@ {
            Some(Some(PreferenceChoice::Anonymous))
        } else if name == "account"@ {
            Some(Some(PreferenceChoice::Account))
        } else {
            None
        },
    }
}

/// Whether a sign-in may be tried. Every try counts against the name, also one that is
/// refused for another reason.
pub fn check_login(
    limiter: &mut LoginAttemptLimiter,
    username: &str,
    now_ns: u64,
    storage_available: bool,
    merge_preference: Option<&str>,
) -> (r: Result<Option<PreferenceChoice>, ApiError>)
    ensures
        final(limiter).counters@ == after_attempt(
            old(limiter).counters@,
            login_key(username@),
            now_ns,
        ),
        !admits(old(limiter).counters@, login_key(username@), now_ns) ==> (r matches Err(e)
            && e.is(429, "rate_limited"@, "too many login attempts; try again later"@)),
        admits(old(limiter).counters@, login_key(username@), now_ns) && !storage_available ==> (
        r matches Err(e) && e.is(503, "temporarily_unavailable"@, "storage is disabled"@)),
        admits(old(limiter).counters@, login_key(username@), now_ns) && storage_available
            ==> match choice_named(str_view(merge_preference)) {
            Some(choice) => r == Ok::<Option<PreferenceChoice>, ApiError>(choice),
            None => refused(r, "merge_preference must be anonymous or account"@),
        },
{
    if !limiter.allow(username, now_ns) {
        return Err(api_error(429, "rate_limited", "too many login attempts; try again later"));
    }
    if !storage_available {
        return Err(storage_disabled());
    }
    match merge_preference {
        None => Ok(None),
        Some(name) => {
            if str_eq(name, "anonymous") {
                Ok(Some(PreferenceChoice::Anonymous))
            } else if str_eq(name, "account") {
                Ok(Some(PreferenceChoice::Account))
            } else {
                Err(invalid_argument("merge_preference must be anonymous or account"))
            }
        },
    }
}

/// The label of a device that gives none.
pub fn device_label(label: Option<String>) -> (r: String)
    ensures
        r@ == (match label {
            Some(text) => text@,
            None => "MPGS client"@,
        }),
{
    match label {
        Some(text) => text,
        None => "MPGS client".to_owned(),
    }
}

/// The answer to a sign-in that failed. An unknown name and a wrong password are answered
/// alike. `conflict` is the reason of a conflict, `detail` the whole failure.
pub fn login_failure(kind: StorageFailure, conflict: &str, detail: &str) -> (r: ApiError)
    ensures
        kind is NotFound ==> r.is(401, "unauthenticated"@, "invalid username or password"@),
        kind is Conflict && conflict@ == "merge_preference_choice_required"@ ==> r.is(
            409,
            "merge_choice_required"@,
            "choose which preferences to keep before signing in"@,
        ),
        !(kind is NotFound) && !(kind is Conflict && conflict@
            == "merge_preference_choice_required"@) ==> r.is(
            storage_status(kind),
            storage_code(kind),
            storage_message(kind, detail@),
        ),
{
    match kind {
        StorageFailure::NotFound => api_error(
            401,
            "unauthenticated",
            "invalid username or password",
        ),
        StorageFailure::Conflict => {
            if str_eq(conflict, "merge_preference_choice_required") {
                api_error(
                    409,
                    "merge_choice_required",
                    "choose which preferences to keep before signing in",
                )
            } else {
                map_storage_error(kind, detail)
            }
        },
        _ => map_storage_error(kind, detail),
    }
}

/// The answer to a registration that failed.
pub fn register_failure(kind: StorageFailure, detail: &str) -> (r: ApiError)
    ensures
        kind is Conflict ==> r.is(
            409,
            "account_conflict"@,
            "unable to create account with those details"@,
        ),
        !(kind is Conflict) ==> r.is(
            storage_status(kind),
            storage_code(kind),
            storage_message(kind, detail@),
        ),
{
    match kind {
        StorageFailure::Conflict => api_error(
            409,
            "account_conflict",
            "unable to create account with those details",
        ),
        _ => map_storage_error(kind, detail),
    }
}

/// The answer to a session that could not be renewed.
pub fn refresh_failure(kind: StorageFailure, detail: &str) -> (r: ApiError)
    ensures
        kind is NotFound ==> r.is(401, "unauthenticated"@, "invalid or expired refresh token"@),
        !(kind is NotFound) ==> r.is(
            storage_status(kind),
            storage_code(kind),
            storage_message(kind, detail@),
        ),
{
    match kind {
        StorageFailure::NotFound => api_error(
            401,
            "unauthenticated",
            "invalid or expired refresh token",
        ),
        _ => map_storage_error(kind, detail),
    }
}

/// The token of a request that needs an account.
pub fn account_token(authorization: Option<&str>) -> (r: Result<String, ApiError>)
    ensures
        match bearer_token_of(str_view(authorization)) {
            Some(token) => r matches Ok(t) && t@ == token,
            None => r matches Err(e) && e.is(401, "unauthenticated"@, "sign in to continue"@),
        },
{
    match bearer_token(authorization) {
        Some(token) => Ok(token),
        None => Err(api_error(401, "unauthenticated", "sign in to continue")),
    }
}

/// A request keeps the identifier that it came with, when that is one; else it gets a fresh
/// one.
pub fn adopt_request_id(given: Option<&str>, fresh: String) -> (r: String)
    ensures
        r@ == (match given {
            Some(id) => if 0 < id@.len() && byte_len(id@) <= 64 && all_request_id_chars(id@) {
                id@
            } else {
                fresh@
            },
            None => fresh@,
        }),
{
    match given {
        Some(id) => {
            if valid_request_id(id) {
                id.to_owned()
            } else {
                fresh
            }
        },
        None => fresh,
    }
}

// ---------------------------------------------------------------------------
// Readiness and self-description
// ---------------------------------------------------------------------------

/// What the store says when it is asked whether it can serve.
#[derive(Debug, Clone, Copy, PartialEq, Eq, Structural)]
pub enum StorageCheck {
    Disabled,
    Failed,
    Passed { schema_version: i64 },
}

#[derive(Debug)]
pub struct Readiness {
    pub http_status: u16,
    pub status: &'static str,
    pub database: &'static str,
    pub schema_version: Option<i64>,
}

pub fn readiness(check: StorageCheck) -> (r: Readiness)
    ensures
        match check {
            StorageCheck::Disabled => r.http_status == 503 && r.status@ == "not_ready"@
                && r.database@ == "disabled"@ && r.schema_version is None,
            StorageCheck::Failed => r.http_status == 503 && r.status@ == "not_ready"@
                && r.database@ == "unavailable"@ && r.schema_version is None,
            StorageCheck::Passed { schema_version } => r.http_status == 200 && r.status@
                == "ready"@ && r.database@ == "ok"@ && r.schema_version == Some(schema_version),
        },
{
    match check {
        StorageCheck::Disabled => Readiness {
            http_status: 503,
            status: "not_ready",
            database: "disabled",
            schema_version: None,
        },
        StorageCheck::Failed => Readiness {
            http_status: 503,
            status: "not_ready",
            database: "unavailable",
            schema_version: None,
        },
        StorageCheck::Passed { schema_version } => Readiness {
            http_status: 200,
            status: "ready",
            database: "ok",
            schema_version: Some(schema_version),
        },
    }
}

/// A switch of the environment that is on.
pub fn demo_mode(value: Option<&str>) -> (r: bool)
    ensures
        r == (match value {
            Some(text) => {
                let v = to_ascii_lower(text@);
                v == "1"@ || v == "true"@ || v == "yes"@
            },
            None => false,
        }),
{
    match value {
        Some(text) => {
            let lower = ascii_lowercase(text);
            let v = lower.as_str();
            str_eq(v, "1") || str_eq(v, "true") || str_eq(v, "yes")
        },
        None => false,
    }
}

/// One route of the built-in router, as it is reported.
#[derive(Debug)]
pub struct ReportedRoute {
    pub task: String,
    pub primary_model: String,
    pub enabled: bool,
}

/// `task:model` of each route that is switched on.
pub open spec fn task_models(routes: Seq<ReportedRoute>) -> Seq<Seq<char>>
    decreases routes.len(),
{
    if routes.len() == 0 {
        Seq::empty()
    } else {
        let front = task_models(routes.drop_last());
        if routes.last().enabled {
            front.push(routes.last().task@ + ":"@ + routes.last().primary_model@)
        } else {
            front
        }
    }
}

pub fn ai_task_models(routes: &Vec<ReportedRoute>) -> (r: Vec<String>)
    ensures
        views(r@) == task_models(routes@),
{
    let mut out: Vec<String> = Vec::new();
    let mut i: usize = 0;
    assert(routes@.take(0) =~= Seq::empty());
    assert(views(out@) =~= Seq::empty());
    while i < routes.len()
        invariant
            0 <= i <= routes@.len(),
            views(out@) == task_models(routes@.take(i as int)),
        decreases routes@.len() - i,
    {
        proof {
            assert(routes@.take(i + 1).drop_last() =~= routes@.take(i as int));
            assert(routes@.take(i + 1).last() == routes@[i as int]);
        }
        if routes[i].enabled {
            let text = join3(routes[i].task.as_str(), ":", routes[i].primary_model.as_str());
            proof {
                assert(views(out@.push(text)) =~= views(out@).push(text@));
            }
            out.push(text);
        }
        i = i + 1;
    }
    assert(routes@.take(routes@.len() as int) =~= routes@);
    out
}

/// What the service says of itself.
#[derive(Debug)]
pub struct MetaFacts {
    pub service_version: String,
    pub algorithm_version: String,
    pub config_version: Option<String>,
    pub schema_version: Option<i64>,
    pub build: String,
    pub data_updated_at_ms: Option<i64>,
    pub storage_enabled: bool,
    pub demo_mode: bool,
    pub ai_multi_model: bool,
    pub ai_task_models: Vec<String>,
}

pub open spec fn meta_tag_text(meta: MetaFacts) -> Seq<char> {
    meta.service_version@ + ":"@ + meta.algorithm_version@ + ":"@ + (match meta.config_version {
        Some(version) => version@,
        None => "none"@,
    }) + ":"@ + int_decimal(
        match meta.schema_version {
            Some(version) => version as int,
            None => -1,
        },
    ) + ":"@ + meta.build@ + ":"@ + int_decimal(
        match meta.data_updated_at_ms {
            Some(t) => t as int,
            None => 0,
        },
    ) + ":"@ + bool_text(meta.storage_enabled) + ":"@ + bool_text(meta.demo_mode) + ":"@
        + bool_text(meta.ai_multi_model) + ":"@ + joined(views(meta.ai_task_models@), ","@)
}

pub fn meta_etag(meta: &MetaFacts) -> (r: String)
    ensures
        r@ == weak_etag_text(meta_tag_text(*meta)),
{
    let mut text = meta.service_version.clone();
    text.append(":");
    text.append(meta.algorithm_version.as_str());
    text.append(":");
    let config: &str = match &meta.config_version {
        Some(version) => version.as_str(),
        None => "none",
    };
    text.append(config);
    text.append(":");
    let schema: i64 = match meta.schema_version {
        Some(version) => version,
        None => -1,
    };
    text.append(i64_decimal(schema).as_str());
    text.append(":");
    text.append(meta.build.as_str());
    text.append(":");
    let updated: i64 = match meta.data_updated_at_ms {
        Some(t) => t,
        None => 0,
    };
    text.append(i64_decimal(updated).as_str());
    text.append(":");
    text.append(bool_str(meta.storage_enabled));
    text.append(":");
    text.append(bool_str(meta.demo_mode));
    text.append(":");
    text.append(bool_str(meta.ai_multi_model));
    text.append(":");
    text.append(join(&meta.ai_task_models, ",").as_str());
    weak_etag(text.as_str())
}

} // verus!
