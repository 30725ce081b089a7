//! Background maintenance: which task runs when, and what is recorded of it. Collection
//! work is handed to workers as jobs; derived work is done in place, and counts as done
//! only once it has succeeded.

use vstd::prelude::*;

use crate::numbers::{
    clamp_i64, decimal, i64_decimal, int_decimal, lemma_decimal_roundtrip, parse_u64, parsed_nat,
    saturating_sum, u64_decimal,
};
use crate::score::Score;
use crate::text::{
    byte_len, char_is_hex_digit, clone_opt, is_hex_digit, opt_view, str_byte_len, str_eq, str_view,
    to_chars, trim, trimmed,
};

verus! {

pub const DEFAULT_INTERVAL_SECS: u64 = 300;

pub const DEFAULT_CATALOG_SYNC_INTERVAL_SECS: u64 = 900;

pub const DEFAULT_CANDIDATE_COLLECTION_INTERVAL_SECS: u64 = 21_600;

pub const DEFAULT_ENRICHMENT_INTERVAL_SECS: u64 = 300;

pub const RECOMMENDATION_TELEMETRY_RETENTION_INTERVAL_SECS: u64 = 86_400;

pub const RETRIEVAL_SYNC_BATCH_SIZE: u32 = 2_000;

pub const TASK_INTERVAL_MIN_SECS: u64 = 60;

pub const TASK_INTERVAL_MAX_SECS: u64 = 86_400;

pub const SCHEDULER_INTERVAL_MIN_SECS: u64 = 30;

pub const TELEMETRY_RETENTION_TASK: &'static str = "recommendation_telemetry_retention";

// ---------------------------------------------------------------------------
// Intervals
// ---------------------------------------------------------------------------

/// A configured interval, where it is one that is allowed; else the default.
pub open spec fn interval_of(raw: Option<Seq<char>>, default: u64, minimum: u64) -> int {
    match raw {
        Some(text) => match parsed_nat(text, u64::MAX as nat) {
            Some(secs) => if minimum <= secs <= TASK_INTERVAL_MAX_SECS {
                secs as int
            } else {
                default as int
            },
            None => default as int,
        },
        None => default as int,
    }
}

pub fn configured_interval(raw: Option<&str>, default: u64, minimum: u64) -> (r: u64)
    ensures
        r == interval_of(str_view(raw), default, minimum),
{
    match raw {
        Some(text) => match parse_u64(text, u64::MAX) {
            Some(secs) => {
                if minimum <= secs && secs <= TASK_INTERVAL_MAX_SECS {
                    secs
                } else {
                    default
                }
            },
            None => default,
        },
        None => default,
    }
}

/// How often each kind of collection runs.
#[derive(Debug, Clone, Copy, PartialEq, Eq, Structural)]
pub struct TaskIntervals {
    pub catalog_sync_secs: u64,
    pub candidate_collection_secs: u64,
    pub enrichment_secs: u64,
}

impl TaskIntervals {
    /// The intervals that the environment sets, as far as it sets any.
    pub fn from_settings(
        catalog_sync: Option<&str>,
        candidate_collection: Option<&str>,
        enrichment: Option<&str>,
    ) -> (r: TaskIntervals)
        ensures
            r.catalog_sync_secs == interval_of(
                str_view(catalog_sync),
                DEFAULT_CATALOG_SYNC_INTERVAL_SECS,
                TASK_INTERVAL_MIN_SECS,
            ),
            r.candidate_collection_secs == interval_of(
                str_view(candidate_collection),
                DEFAULT_CANDIDATE_COLLECTION_INTERVAL_SECS,
                TASK_INTERVAL_MIN_SECS,
            ),
            r.enrichment_secs == interval_of(
                str_view(enrichment),
                DEFAULT_ENRICHMENT_INTERVAL_SECS,
                TASK_INTERVAL_MIN_SECS,
            ),
    {
        TaskIntervals {
            catalog_sync_secs: configured_interval(
                catalog_sync,
                DEFAULT_CATALOG_SYNC_INTERVAL_SECS,
                TASK_INTERVAL_MIN_SECS,
            ),
            candidate_collection_secs: configured_interval(
                candidate_collection,
                DEFAULT_CANDIDATE_COLLECTION_INTERVAL_SECS,
                TASK_INTERVAL_MIN_SECS,
            ),
            enrichment_secs: configured_interval(
                enrichment,
                DEFAULT_ENRICHMENT_INTERVAL_SECS,
                TASK_INTERVAL_MIN_SECS,
            ),
        }
    }
}

impl Default for TaskIntervals {
    fn default() -> (r: TaskIntervals)
        ensures
            r.catalog_sync_secs == DEFAULT_CATALOG_SYNC_INTERVAL_SECS,
            r.candidate_collection_secs == DEFAULT_CANDIDATE_COLLECTION_INTERVAL_SECS,
            r.enrichment_secs == DEFAULT_ENRICHMENT_INTERVAL_SECS,
    {
        TaskIntervals {
            catalog_sync_secs: DEFAULT_CATALOG_SYNC_INTERVAL_SECS,
            candidate_collection_secs: DEFAULT_CANDIDATE_COLLECTION_INTERVAL_SECS,
            enrichment_secs: DEFAULT_ENRICHMENT_INTERVAL_SECS,
        }
    }
}

/// A key of the store's web interface: thirty-two hexadecimal digits.
pub open spec fn is_web_api_key(text: Seq<char>) -> bool {
    &&& byte_len(text) == 32
    &&& forall|i: int| 0 <= i < text.len() ==> is_hex_digit(#[trigger] text[i])
}

pub fn steam_web_api_key_configured(value: Option<&str>) -> (r: bool)
    ensures
        r == (value is Some && is_web_api_key(trimmed(value->0@))),
{
    let key = match value {
        Some(text) => trim(text),
        None => return false,
    };
    if str_byte_len(key.as_str()) != 32 {
        return false;
    }
    let chars = to_chars(key.as_str());
    let mut i: usize = 0;
    while i < chars.len()
        invariant
            0 <= i <= chars@.len(),
            chars@ == key@,
            value is Some && key@ == trimmed(value->0@),
            forall|j: int| 0 <= j < i ==> is_hex_digit(#[trigger] chars@[j]),
        decreases chars@.len() - i,
    {
        if !char_is_hex_digit(chars[i]) {
            assert(!is_hex_digit(key@[i as int]));
            return false;
        }
        i = i + 1;
    }
    true
}

// ---------------------------------------------------------------------------
// What is recorded of a task
// ---------------------------------------------------------------------------

/// The record of a task.
#[derive(Debug)]
pub struct DataRefreshStatus {
    pub task_name: String,
    pub last_success_at_ms: Option<i64>,
    pub next_run_at_ms: Option<i64>,
    pub last_error_category: Option<String>,
    pub cursor_value: Option<String>,
    pub coverage_ratio: Option<Score>,
}

impl DataRefreshStatus {
    pub open spec fn says(
        self,
        task_name: Seq<char>,
        last_success_at_ms: Option<i64>,
        next_run_at_ms: int,
        last_error_category: Option<Seq<char>>,
        cursor_value: Option<Seq<char>>,
        coverage_ratio: Option<Score>,
    ) -> bool {
        &&& self.task_name@ == task_name
        &&& self.last_success_at_ms == last_success_at_ms
        &&& self.next_run_at_ms is Some && self.next_run_at_ms->0 == next_run_at_ms
        &&& opt_view(self.last_error_category) == last_error_category
        &&& opt_view(self.cursor_value) == cursor_value
        &&& self.coverage_ratio == coverage_ratio
    }
}

/// When a task last succeeded.
pub open spec fn success_of(previous: Option<&DataRefreshStatus>) -> Option<i64> {
    match previous {
        Some(status) => status.last_success_at_ms,
        None => None,
    }
}

/// How far a task got.
pub open spec fn cursor_of(previous: Option<&DataRefreshStatus>) -> Option<Seq<char>> {
    match previous {
        Some(status) => opt_view(status.cursor_value),
        None => None,
    }
}

pub open spec fn coverage_of(previous: Option<&DataRefreshStatus>) -> Option<Score> {
    match previous {
        Some(status) => status.coverage_ratio,
        None => None,
    }
}

/// A task is due when it never ran, or when its time has come.
pub open spec fn is_due(previous: Option<&DataRefreshStatus>, now_ms: int) -> bool {
    match previous {
        Some(status) => status.next_run_at_ms is None || status.next_run_at_ms->0 <= now_ms,
        None => true,
    }
}

pub fn due(previous: Option<&DataRefreshStatus>, now_ms: i64) -> (r: bool)
    ensures
        r == is_due(previous, now_ms as int),
{
    match previous {
        Some(status) => match status.next_run_at_ms {
            Some(next) => next <= now_ms,
            None => true,
        },
        None => true,
    }
}

fn kept(
    task_name: &str,
    previous: Option<&DataRefreshStatus>,
    next_run_at_ms: i64,
    error: Option<&str>,
    coverage_ratio: Option<Score>,
) -> (r: DataRefreshStatus)
    ensures
        r.says(
            task_name@,
            success_of(previous),
            next_run_at_ms as int,
            str_view(error),
            cursor_of(previous),
            coverage_ratio,
        ),
{
    let (last_success_at_ms, cursor_value) = match previous {
        Some(status) => (status.last_success_at_ms, clone_opt(&status.cursor_value)),
        None => (None, None),
    };
    let last_error_category = match error {
        Some(text) => Some(text.to_owned()),
        None => None,
    };
    DataRefreshStatus {
        task_name: task_name.to_owned(),
        last_success_at_ms,
        next_run_at_ms: Some(next_run_at_ms),
        last_error_category,
        cursor_value,
        coverage_ratio,
    }
}

/// The record of a task by name.
pub open spec fn found(statuses: Seq<DataRefreshStatus>, task_name: Seq<char>) -> Option<int>
    decreases statuses.len(),
{
    if statuses.len() == 0 {
        None
    } else {
        match found(statuses.drop_last(), task_name) {
            Some(i) => Some(i),
            None => if statuses.last().task_name@ == task_name {
                Some(statuses.len() - 1)
            } else {
                None
            },
        }
    }
}

/// The first record of the task.
pub fn find_status<'a>(statuses: &'a Vec<DataRefreshStatus>, task_name: &str) -> (r: Option<
    &'a DataRefreshStatus,
>)
    ensures
        match found(statuses@, task_name@) {
            Some(i) => 0 <= i < statuses@.len() && r == Some(&statuses@[i]),
            None => r is None,
        },
{
    let mut i: usize = 0;
    let mut hit: Option<usize> = None;
    assert(statuses@.take(0) =~= Seq::empty());
    while i < statuses.len()
        invariant
            0 <= i <= statuses@.len(),
            match hit {
                Some(h) => h < i && found(statuses@.take(i as int), task_name@) == Some(h as int),
                None => found(statuses@.take(i as int), task_name@) is None,
            },
        decreases statuses@.len() - i,
    {
        proof {
            assert(statuses@.take(i + 1).drop_last() =~= statuses@.take(i as int));
            assert(statuses@.take(i + 1).last() == statuses@[i as int]);
        }
        if hit.is_none() && str_eq(statuses[i].task_name.as_str(), task_name) {
            hit = Some(i);
        }
        i = i + 1;
    }
    assert(statuses@.take(statuses@.len() as int) =~= statuses@);
    match hit {
        Some(h) => Some(&statuses[h]),
        None => None,
    }
}

// ---------------------------------------------------------------------------
// Collection
// ---------------------------------------------------------------------------

/// The kinds of collection, each handed to a worker.
#[derive(Debug, Clone, Copy, PartialEq, Eq, Structural)]
pub enum CollectionTask {
    CatalogSync,
    CandidateCollection,
    Enrichment,
}

impl CollectionTask {
    pub open spec fn name(self) -> Seq<char> {
        match self {
            CollectionTask::CatalogSync => "catalog_sync"@,
            CollectionTask::CandidateCollection => "candidate_collection"@,
            CollectionTask::Enrichment => "enrichment"@,
        }
    }

    pub open spec fn job_type(self) -> Seq<char> {
        match self {
            CollectionTask::CatalogSync => "sync_catalog"@,
            CollectionTask::CandidateCollection => "collect_candidates"@,
            CollectionTask::Enrichment => "enrich_catalog"@,
        }
    }

    pub open spec fn interval(self, intervals: TaskIntervals) -> u64 {
        match self {
            CollectionTask::CatalogSync => intervals.catalog_sync_secs,
            CollectionTask::CandidateCollection => intervals.candidate_collection_secs,
            CollectionTask::Enrichment => intervals.enrichment_secs,
        }
    }

    pub fn task_name(self) -> (r: &'static str)
        ensures
            r@ == self.name(),
    {
        match self {
            CollectionTask::CatalogSync => "catalog_sync",
            CollectionTask::CandidateCollection => "candidate_collection",
            CollectionTask::Enrichment => "enrichment",
        }
    }

    pub fn task_type(self) -> (r: &'static str)
        ensures
            r@ == self.job_type(),
    {
        match self {
            CollectionTask::CatalogSync => "sync_catalog",
            CollectionTask::CandidateCollection => "collect_candidates",
            CollectionTask::Enrichment => "enrich_catalog",
        }
    }

    pub fn interval_secs(self, intervals: TaskIntervals) -> (r: u64)
        ensures
            r == self.interval(intervals),
    {
        match self {
            CollectionTask::CatalogSync => intervals.catalog_sync_secs,
            CollectionTask::CandidateCollection => intervals.candidate_collection_secs,
            CollectionTask::Enrichment => intervals.enrichment_secs,
        }
    }
}

/// Seconds as a signed count, which wraps round.
pub open spec fn signed_secs(secs: u64) -> int {
    if secs <= i64::MAX {
        secs as int
    } else {
        secs - u64::MAX - 1
    }
}

/// Seconds as milliseconds, as far as they can be counted.
pub open spec fn interval_ms(secs: u64) -> int {
    clamp_i64(signed_secs(secs) * 1_000)
}

fn secs_to_ms(secs: u64) -> (r: i64)
    ensures
        r == interval_ms(secs),
{
    if secs <= i64::MAX as u64 {
        match (secs as i64).checked_mul(1_000) {
            Some(ms) => ms,
            None => i64::MAX,
        }
    } else {
        let signed: i64 = -((u64::MAX - secs) as i64) - 1;
        match signed.checked_mul(1_000) {
            Some(ms) => ms,
            None => i64::MIN,
        }
    }
}

/// The number of whole intervals between the epoch and now.
pub open spec fn slot_of(now_ms: int, interval: int) -> int {
    let length = if interval < 1 {
        1
    } else {
        interval
    };
    if now_ms >= 0 {
        now_ms / length
    } else {
        -((-now_ms) / length)
    }
}

fn slot(now_ms: i64, interval: i64) -> (r: i64)
    ensures
        r == slot_of(now_ms as int, interval as int),
{
    let length: u64 = if interval < 1 {
        1
    } else {
        interval as u64
    };
    if now_ms >= 0 {
        let q: u64 = now_ms as u64 / length;
        proof {
            assert(q <= now_ms) by (nonlinear_arith)
                requires
                    q == now_ms as u64 / length,
                    length >= 1,
                    now_ms >= 0,
            ;
        }
        q as i64
    } else {
        let magnitude: u64 = (-(now_ms as i128)) as u64;
        let q: u64 = magnitude / length;
        proof {
            assert(q <= magnitude) by (nonlinear_arith)
                requires
                    q == magnitude / length,
                    length >= 1,
            ;
        }
        (-(q as i128)) as i64
    }
}

/// A job for a worker. All of them are of source `steam` and entity `scheduled`.
#[derive(Debug)]
pub struct ScheduledJob {
    pub task_type: String,
    pub idempotency_key: String,
    pub priority: i64,
    pub due_at_ms: i64,
    pub max_attempts: i64,
}

/// The key that makes two jobs of one slot the same job.
pub open spec fn job_key(task: CollectionTask, slot: int) -> Seq<char> {
    "m7-scheduler:"@ + task.name() + ":"@ + int_decimal(slot)
}

/// What is done about a collection task.
#[derive(Debug)]
pub enum CollectionStep {
    /// It cannot run: record why, and look again after an interval.
    Blocked(DataRefreshStatus),
    /// Nothing is done: it is not due, or a job of it is still active.
    Wait,
    /// A job is queued and the next one planned.
    Enqueue(ScheduledJob, DataRefreshStatus),
}

/// The step of a task.
pub open spec fn step_of(
    r: CollectionStep,
    task: CollectionTask,
    previous: Option<&DataRefreshStatus>,
    now_ms: int,
    secs: u64,
    enabled: bool,
    active: bool,
    coverage: Option<Score>,
) -> bool {
    let next = clamp_i64(now_ms + interval_ms(secs));
    if !enabled {
        r matches CollectionStep::Blocked(status) && status.says(
            task.name(),
            success_of(previous),
            next,
            Some("auth"@),
            cursor_of(previous),
            coverage,
        )
    } else if !is_due(previous, now_ms) || active {
        r is Wait
    } else {
        r matches CollectionStep::Enqueue(job, status) && job.task_type@ == task.job_type()
            && job.idempotency_key@ == job_key(task, slot_of(now_ms, interval_ms(secs)))
            && job.priority == 50 && job.due_at_ms == now_ms && job.max_attempts == 3
            && status.says(
            task.name(),
            success_of(previous),
            next,
            None,
            cursor_of(previous),
            coverage,
        )
    }
}

/// Decides about a collection task. `active` tells whether a job of it is still queued or
/// running, `coverage` how much of the catalog is ready.
pub fn collection_step(
    task: CollectionTask,
    previous: Option<&DataRefreshStatus>,
    now_ms: i64,
    secs: u64,
    enabled: bool,
    active: bool,
    coverage: Option<Score>,
) -> (r: CollectionStep)
    ensures
        step_of(r, task, previous, now_ms as int, secs, enabled, active, coverage),
{
    let task_name = task.task_name();
    let task_interval_ms: i64 = secs_to_ms(secs);
    let next_run_at_ms: i64 = saturating_sum(now_ms, task_interval_ms);
    if !enabled {
        return CollectionStep::Blocked(
            kept(task_name, previous, next_run_at_ms, Some("auth"), coverage),
        );
    }
    if !due(previous, now_ms) || active {
        return CollectionStep::Wait;
    }
    let mut idempotency_key = "m7-scheduler:".to_owned();
    idempotency_key.append(task_name);
    idempotency_key.append(":");
    idempotency_key.append(i64_decimal(slot(now_ms, task_interval_ms)).as_str());
    CollectionStep::Enqueue(
        ScheduledJob {
            task_type: task.task_type().to_owned(),
            idempotency_key,
            priority: 50,
            due_at_ms: now_ms,
            max_attempts: 3,
        },
        kept(task_name, previous, next_run_at_ms, None, coverage),
    )
}

/// The record of a task among the records of all.
pub open spec fn record_of<'a>(statuses: Seq<DataRefreshStatus>, task_name: Seq<char>) -> Option<
    &'a DataRefreshStatus,
> {
    match found(statuses, task_name) {
        Some(i) => Some(&statuses[i]),
        None => None,
    }
}

/// Which jobs are still queued or running.
#[derive(Debug, Clone, Copy, PartialEq, Eq, Structural)]
pub struct ActiveJobs {
    pub catalog_sync: bool,
    pub candidate_collection: bool,
    pub enrichment: bool,
}

/// The steps of the three collection tasks in one run: the catalog is synchronised only
/// with a key, the other two always.
pub fn plan_collection(
    statuses: &Vec<DataRefreshStatus>,
    now_ms: i64,
    catalog_sync_enabled: bool,
    intervals: TaskIntervals,
    active: ActiveJobs,
    coverage: Option<Score>,
) -> (r: (CollectionStep, CollectionStep, CollectionStep))
    ensures
        step_of(
            r.0,
            CollectionTask::CatalogSync,
            record_of(statuses@, "catalog_sync"@),
            now_ms as int,
            intervals.catalog_sync_secs,
            catalog_sync_enabled,
            active.catalog_sync,
            coverage,
        ),
        step_of(
            r.1,
            CollectionTask::CandidateCollection,
            record_of(statuses@, "candidate_collection"@),
            now_ms as int,
            intervals.candidate_collection_secs,
            true,
            active.candidate_collection,
            coverage,
        ),
        step_of(
            r.2,
            CollectionTask::Enrichment,
            record_of(statuses@, "enrichment"@),
            now_ms as int,
            intervals.enrichment_secs,
            true,
            active.enrichment,
            coverage,
        ),
{
    (
        collection_step(
            CollectionTask::CatalogSync,
            find_status(statuses, "catalog_sync"),
            now_ms,
            intervals.catalog_sync_secs,
            catalog_sync_enabled,
            active.catalog_sync,
            coverage,
        ),
        collection_step(
            CollectionTask::CandidateCollection,
            find_status(statuses, "candidate_collection"),
            now_ms,
            intervals.candidate_collection_secs,
            true,
            active.candidate_collection,
            coverage,
        ),
        collection_step(
            CollectionTask::Enrichment,
            find_status(statuses, "enrichment"),
            now_ms,
            intervals.enrichment_secs,
            true,
            active.enrichment,
            coverage,
        ),
    )
}

/// When the whole maintenance runs next.
pub fn next_run_at(now_ms: i64, interval_secs: u64) -> (r: i64)
    ensures
        r == clamp_i64(now_ms + interval_ms(interval_secs)),
{
    saturating_sum(now_ms, secs_to_ms(interval_secs))
}

/// A task that was queued is not queued again before its interval is over, however often
/// the maintenance runs in between; and queueing it does not touch what it has achieved.
pub proof fn lemma_one_job_per_interval(
    first: CollectionStep,
    second: CollectionStep,
    task: CollectionTask,
    previous: Option<&DataRefreshStatus>,
    now_ms: int,
    later_ms: int,
    secs: u64,
    active: bool,
    coverage: Option<Score>,
    later_coverage: Option<Score>,
)
    requires
        i64::MIN <= now_ms <= later_ms < clamp_i64(now_ms + interval_ms(secs)),
        first is Enqueue,
        step_of(first, task, previous, now_ms, secs, true, false, coverage),
        step_of(
            second,
            task,
            Some(&first->Enqueue_1),
            later_ms,
            secs,
            true,
            active,
            later_coverage,
        ),
    ensures
        second is Wait,
        (first->Enqueue_1).last_success_at_ms == success_of(previous),
        opt_view((first->Enqueue_1).cursor_value) == cursor_of(previous),
{
}

// ---------------------------------------------------------------------------
// Derived work
// ---------------------------------------------------------------------------

/// The record of a quality check.
pub fn quality_outcome(
    succeeded: bool,
    previous: Option<&DataRefreshStatus>,
    now_ms: i64,
    next_run_at_ms: i64,
    coverage: Option<Score>,
) -> (r: DataRefreshStatus)
    ensures
        succeeded ==> r.says(
            "quality_check"@,
            Some(now_ms),
            next_run_at_ms as int,
            None,
            None,
            coverage,
        ),
        !succeeded ==> r.says(
            "quality_check"@,
            success_of(previous),
            next_run_at_ms as int,
            Some("quality_check_failed"@),
            cursor_of(previous),
            coverage,
        ),
{
    if succeeded {
        DataRefreshStatus {
            task_name: "quality_check".to_owned(),
            last_success_at_ms: Some(now_ms),
            next_run_at_ms: Some(next_run_at_ms),
            last_error_category: None,
            cursor_value: None,
            coverage_ratio: coverage,
        }
    } else {
        kept("quality_check", previous, next_run_at_ms, Some("quality_check_failed"), coverage)
    }
}

/// Where the synchronisation of the retrieval index goes on. A cursor that cannot be read
/// starts a full pass.
pub open spec fn resume_after(previous: Option<&DataRefreshStatus>) -> nat {
    match cursor_of(previous) {
        Some(cursor) => match parsed_nat(cursor, u32::MAX as nat) {
            Some(app_id) => app_id,
            None => 0,
        },
        None => 0,
    }
}

pub fn retrieval_after(previous: Option<&DataRefreshStatus>) -> (r: u32)
    ensures
        r == resume_after(previous),
{
    match previous {
        Some(status) => match &status.cursor_value {
            Some(cursor) => match parse_u64(cursor.as_str(), u32::MAX as u64) {
                Some(app_id) => app_id as u32,
                None => 0,
            },
            None => 0,
        },
        None => 0,
    }
}

/// What a batch of the synchronisation achieved.
#[derive(Debug, Clone, Copy, PartialEq, Eq, Structural)]
pub struct RetrievalBatch {
    pub next_after_app_id: u32,
    pub coverage_ratio: Score,
}

/// The record of a batch of the synchronisation.
pub fn retrieval_outcome(
    batch: Option<RetrievalBatch>,
    previous: Option<&DataRefreshStatus>,
    now_ms: i64,
    next_run_at_ms: i64,
) -> (r: DataRefreshStatus)
    ensures
        match batch {
            Some(done) => r.says(
                "retrieval_sync"@,
                Some(now_ms),
                next_run_at_ms as int,
                None,
                Some(decimal(done.next_after_app_id as nat)),
                Some(done.coverage_ratio),
            ),
            None => r.says(
                "retrieval_sync"@,
                success_of(previous),
                next_run_at_ms as int,
                Some("retrieval_sync_failed"@),
                cursor_of(previous),
                coverage_of(previous),
            ),
        },
{
    match batch {
        Some(done) => DataRefreshStatus {
            task_name: "retrieval_sync".to_owned(),
            last_success_at_ms: Some(now_ms),
            next_run_at_ms: Some(next_run_at_ms),
            last_error_category: None,
            cursor_value: Some(u64_decimal(done.next_after_app_id as u64)),
            coverage_ratio: Some(done.coverage_ratio),
        },
        None => {
            let coverage: Option<Score> = match previous {
                Some(status) => status.coverage_ratio,
                None => None,
            };
            kept(
                "retrieval_sync",
                previous,
                next_run_at_ms,
                Some("retrieval_sync_failed"),
                coverage,
            )
        },
    }
}

/// The next batch goes on exactly where the last one that succeeded ended; a batch that
/// failed is tried again from where it began.
pub proof fn lemma_retrieval_resumes(
    done: RetrievalBatch,
    after_success: &DataRefreshStatus,
    after_failure: &DataRefreshStatus,
    previous: Option<&DataRefreshStatus>,
    now_ms: i64,
    next_run_at_ms: int,
)
    requires
        after_success.says(
            "retrieval_sync"@,
            Some(now_ms),
            next_run_at_ms,
            None,
            Some(decimal(done.next_after_app_id as nat)),
            Some(done.coverage_ratio),
        ),
        after_failure.says(
            "retrieval_sync"@,
            success_of(previous),
            next_run_at_ms,
            Some("retrieval_sync_failed"@),
            cursor_of(previous),
            coverage_of(previous),
        ),
    ensures
        resume_after(Some(after_success)) == done.next_after_app_id,
        resume_after(Some(after_failure)) == resume_after(previous),
        success_of(Some(after_failure)) == success_of(previous),
{
    lemma_decimal_roundtrip(done.next_after_app_id as nat, u32::MAX as nat);
}

/// The record of a pass that removes expired telemetry. A pass that failed is tried again on
/// the scheduler's own cadence, not a day later.
pub fn telemetry_outcome(
    succeeded: bool,
    previous: Option<&DataRefreshStatus>,
    now_ms: i64,
    retry_at_ms: i64,
) -> (r: DataRefreshStatus)
    ensures
        succeeded ==> r.says(
            TELEMETRY_RETENTION_TASK@,
            Some(now_ms),
            clamp_i64(now_ms + RECOMMENDATION_TELEMETRY_RETENTION_INTERVAL_SECS * 1_000),
            None,
            None,
            None,
        ),
        !succeeded ==> r.says(
            TELEMETRY_RETENTION_TASK@,
            success_of(previous),
            retry_at_ms as int,
            Some("telemetry_retention_failed"@),
            cursor_of(previous),
            coverage_of(previous),
        ),
{
    if succeeded {
        DataRefreshStatus {
            task_name: TELEMETRY_RETENTION_TASK.to_owned(),
            last_success_at_ms: Some(now_ms),
            next_run_at_ms: Some(
                saturating_sum(
                    now_ms,
                    secs_to_ms(RECOMMENDATION_TELEMETRY_RETENTION_INTERVAL_SECS),
                ),
            ),
            last_error_category: None,
            cursor_value: None,
            coverage_ratio: None,
        }
    } else {
        let coverage: Option<Score> = match previous {
            Some(status) => status.coverage_ratio,
            None => None,
        };
        kept(
            TELEMETRY_RETENTION_TASK,
            previous,
            retry_at_ms,
            Some("telemetry_retention_failed"),
            coverage,
        )
    }
}

} // verus!
