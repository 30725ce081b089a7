//! What clients report back about recommendations, what is recorded of a ranking, and the
//! jobs of the workers.

use vstd::prelude::*;

use crate::score::Score;
use crate::server::errors::{invalid_argument, refused, ApiError};
use crate::text::{byte_len, is_blank, opt_view, str_byte_len, str_eq, str_view, trimmed};

verus! {

/// The longest identifier that a client may send, in bytes.
pub const MAX_CLIENT_ID_BYTES: usize = 128;

/// The event that a name stands for, with its category.
pub open spec fn event_named(name: Seq<char>) -> Option<(Seq<char>, Seq<char>)> {
    if name == "exposure"@ {
        Some(("exposure"@, "impression"@))
    } else if name == "detail_open"@ {
        Some(("detail_open"@, "engagement"@))
    } else if name == "steam_click"@ {
        Some(("steam_click"@, "outbound"@))
    } else if name == "play_intent"@ {
        Some(("play_intent"@, "intent"@))
    } else {
        None
    }
}

/// The pair of texts is this one.
pub open spec fn texts_are(
    r: Option<(&'static str, &'static str)>,
    expected: Option<(Seq<char>, Seq<char>)>,
) -> bool {
    match (r, expected) {
        (Some((a, b)), Some((x, y))) => a@ == x && b@ == y,
        (None, None) => true,
        _ => false,
    }
}

pub fn public_recommendation_event(event_type: &str) -> (r: Option<(&'static str, &'static str)>)
    ensures
        texts_are(r, event_named(event_type@)),
{
    if str_eq(event_type, "exposure") {
        Some(("exposure", "impression"))
    } else if str_eq(event_type, "detail_open") {
        Some(("detail_open", "engagement"))
    } else if str_eq(event_type, "steam_click") {
        Some(("steam_click", "outbound"))
    } else if str_eq(event_type, "play_intent") {
        Some(("play_intent", "intent"))
    } else {
        None
    }
}

/// An identifier says something and is not too long.
pub open spec fn is_client_id(text: Seq<char>) -> bool {
    trimmed(text).len() > 0 && byte_len(text) <= MAX_CLIENT_ID_BYTES
}

fn check_client_id(text: &str) -> (r: bool)
    ensures
        r == is_client_id(text@),
{
    !is_blank(text) && str_byte_len(text) <= MAX_CLIENT_ID_BYTES
}

/// What is wrong with an event, before it is held against the run that it is about.
pub open spec fn event_fault(
    event_type: Seq<char>,
    idempotency_key: Option<Seq<char>>,
    run_id: Seq<char>,
) -> Option<Seq<char>> {
    if event_named(event_type) is None {
        Some("event_type must be one of exposure, detail_open, steam_click, or play_intent"@)
    } else if idempotency_key is None || !is_client_id(idempotency_key->0) {
        Some("Idempotency-Key header must contain between 1 and 128 bytes"@)
    } else if !is_client_id(run_id) {
        Some("recommendation_run_id must contain between 1 and 128 bytes"@)
    } else {
        None
    }
}

pub fn check_recommendation_event(
    event_type: &str,
    idempotency_key: Option<&str>,
    run_id: &str,
) -> (r: Result<(&'static str, &'static str), ApiError>)
    ensures
        match event_fault(event_type@, str_view(idempotency_key), run_id@) {
            Some(message) => refused(r, message),
            None => r matches Ok(event) && texts_are(Some(event), event_named(event_type@)),
        },
{
    let event = match public_recommendation_event(event_type) {
        Some(event) => event,
        None => return Err(
            invalid_argument(
                "event_type must be one of exposure, detail_open, steam_click, or play_intent",
            ),
        ),
    };
    let keyed = match idempotency_key {
        Some(key) => check_client_id(key),
        None => false,
    };
    if !keyed {
        return Err(
            invalid_argument("Idempotency-Key header must contain between 1 and 128 bytes"),
        );
    }
    if !check_client_id(run_id) {
        return Err(
            invalid_argument("recommendation_run_id must contain between 1 and 128 bytes"),
        );
    }
    Ok(event)
}

/// An event or a piece of feedback has to be about a game that the run contains.
/// `attributed` tells whether it is, where a run was named.
pub fn check_attribution(attributed: Option<bool>) -> (r: Result<(), ApiError>)
    ensures
        attributed == Some(false) ==> refused(
            r,
            "recommendation_run_id does not contain this app"@,
        ),
        attributed != Some(false) ==> r is Ok,
{
    match attributed {
        Some(false) => Err(invalid_argument("recommendation_run_id does not contain this app")),
        _ => Ok(()),
    }
}

/// Feedback of a known type, which can be told from a repeated one.
pub fn check_feedback(known_type: bool, idempotency_key: Option<&str>) -> (r: Result<(), ApiError>)
    ensures
        !known_type ==> refused(r, "unknown feedback type"@),
        known_type && idempotency_key is None ==> refused(
            r,
            "Idempotency-Key header is required"@,
        ),
        known_type && idempotency_key is Some ==> r is Ok,
{
    if !known_type {
        return Err(invalid_argument("unknown feedback type"));
    }
    if idempotency_key.is_none() {
        return Err(invalid_argument("Idempotency-Key header is required"));
    }
    Ok(())
}

/// Whether a feature was observed at all.
pub fn feature_freshness(observed_at_ms: Option<i64>) -> (r: &'static str)
    ensures
        r@ == (if observed_at_ms is Some {
            "fresh"@
        } else {
            "unknown"@
        }),
{
    if observed_at_ms.is_some() {
        "fresh"
    } else {
        "unknown"
    }
}

// ---------------------------------------------------------------------------
// Attribution of a ranking
// ---------------------------------------------------------------------------

/// A shown item, as far as it says what a record of it needs.
#[derive(Debug)]
pub struct ShownItem {
    pub app_id: Option<u64>,
    pub rank: Option<u64>,
    pub has_components: bool,
    pub relevance_score: Option<Score>,
    pub recommendation_index: Option<u64>,
    pub data_confidence: Option<Score>,
    pub slot_reason: Option<String>,
}

/// The record of a shown item.
#[derive(Debug)]
pub struct RunItem {
    pub app_id: u32,
    pub rank: u32,
    pub relevance_score: Score,
    pub recommendation_index: Option<u8>,
    pub data_confidence: Score,
    pub slot_reason: String,
}

/// The item says everything that a record of it needs.
pub open spec fn is_attributable(item: ShownItem) -> bool {
    &&& item.app_id is Some && item.app_id->0 <= u32::MAX
    &&& item.rank is Some && item.rank->0 <= u32::MAX
    &&& item.has_components
    &&& item.relevance_score is Some
    &&& item.data_confidence is Some
    &&& item.slot_reason is Some
}

pub open spec fn records(record: RunItem, item: ShownItem) -> bool {
    &&& Some(record.app_id as u64) == item.app_id
    &&& Some(record.rank as u64) == item.rank
    &&& Some(record.relevance_score) == item.relevance_score
    &&& record.recommendation_index == (match item.recommendation_index {
        Some(index) => if index <= u8::MAX {
            Some(index as u8)
        } else {
            None
        },
        None => None,
    })
    &&& Some(record.data_confidence) == item.data_confidence
    &&& Some(record.slot_reason@) == opt_view(item.slot_reason)
}

fn record_item(item: &ShownItem) -> (r: Option<RunItem>)
    ensures
        r is Some <==> is_attributable(*item),
        r matches Some(record) ==> records(record, *item),
{
    let (app_id, rank) = match (item.app_id, item.rank) {
        (Some(app_id), Some(rank)) => (app_id, rank),
        _ => return None,
    };
    if app_id > u32::MAX as u64 || rank > u32::MAX as u64 || !item.has_components {
        return None;
    }
    let recommendation_index: Option<u8> = match item.recommendation_index {
        Some(index) => {
            if index <= u8::MAX as u64 {
                Some(index as u8)
            } else {
                None
            }
        },
        None => None,
    };
    match (item.relevance_score, item.data_confidence, &item.slot_reason) {
        (Some(relevance_score), Some(data_confidence), Some(slot_reason)) => Some(
            RunItem {
                app_id: app_id as u32,
                rank: rank as u32,
                relevance_score,
                recommendation_index,
                data_confidence,
                slot_reason: slot_reason.clone(),
            },
        ),
        _ => None,
    }
}

pub open spec fn all_attributable(page: Seq<ShownItem>) -> bool {
    forall|i: int| 0 <= i < page.len() ==> is_attributable(#[trigger] page[i])
}

/// Every item of the page is recorded, in its place.
pub open spec fn all_recorded(items: Seq<RunItem>, page: Seq<ShownItem>) -> bool {
    items.len() == page.len() && forall|i: int|
        0 <= i < items.len() ==> records(#[trigger] items[i], page[i])
}

/// The records of a page. A page is recorded as a whole or not at all.
pub fn attributed_items(page: &Vec<ShownItem>) -> (r: Option<Vec<RunItem>>)
    ensures
        r is Some <==> all_attributable(page@),
        r matches Some(items) ==> all_recorded(items@, page@),
{
    let mut items: Vec<RunItem> = Vec::new();
    let mut i: usize = 0;
    while i < page.len()
        invariant
            0 <= i <= page@.len(),
            items@.len() == i,
            forall|j: int| 0 <= j < i ==> is_attributable(#[trigger] page@[j]),
            forall|j: int| 0 <= j < i ==> records(#[trigger] items@[j], page@[j]),
        decreases page@.len() - i,
    {
        match record_item(&page[i]) {
            Some(record) => items.push(record),
            None => {
                assert(!is_attributable(page@[i as int]));
                return None;
            },
        }
        i = i + 1;
    }
    Some(items)
}

/// The number of candidates, as far as it can be recorded.
pub fn candidate_count(candidates: usize) -> (r: u32)
    ensures
        r == (if candidates <= u32::MAX {
            candidates as int
        } else {
            u32::MAX as int
        }),
{
    if candidates <= u32::MAX as usize {
        candidates as u32
    } else {
        u32::MAX
    }
}

// ---------------------------------------------------------------------------
// Jobs
// ---------------------------------------------------------------------------

/// When and how often a job runs.
#[derive(Debug, Clone, Copy, PartialEq, Eq, Structural)]
pub struct JobSchedule {
    pub priority: i64,
    pub due_at_ms: i64,
    pub max_attempts: i64,
}

pub open spec fn or_default(value: Option<i64>, default: i64) -> i64 {
    match value {
        Some(v) => v,
        None => default,
    }
}

fn value_or(value: Option<i64>, default: i64) -> (r: i64)
    ensures
        r == or_default(value, default),
{
    match value {
        Some(v) => v,
        None => default,
    }
}

/// A job that does not say otherwise is of middle priority, due now, and tried five times.
pub fn job_schedule(
    priority: Option<i64>,
    due_at_ms: Option<i64>,
    max_attempts: Option<i64>,
    now_ms: i64,
) -> (r: JobSchedule)
    ensures
        r.priority == or_default(priority, 100),
        r.due_at_ms == or_default(due_at_ms, now_ms),
        r.max_attempts == or_default(max_attempts, 5),
{
    JobSchedule {
        priority: value_or(priority, 100),
        due_at_ms: value_or(due_at_ms, now_ms),
        max_attempts: value_or(max_attempts, 5),
    }
}

/// How many jobs a worker leases, and for how long.
pub fn lease_terms(limit: Option<i64>, lease_ms: Option<i64>) -> (r: (i64, i64))
    ensures
        r.0 == or_default(limit, 10),
        r.1 == or_default(lease_ms, 60_000),
{
    (value_or(limit, 10), value_or(lease_ms, 60_000))
}

/// How long a failed job waits before it is tried again.
pub fn retry_delay(delay_ms: Option<i64>) -> (r: i64)
    ensures
        r == or_default(delay_ms, 60_000),
{
    value_or(delay_ms, 60_000)
}

} // verus!
