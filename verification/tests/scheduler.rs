use std::collections::BTreeSet;

use mpgs::score::Score;
use mpgs::server::scheduler::{
    configured_interval, due, find_status, next_run_at, plan_collection, quality_outcome,
    retrieval_after, retrieval_outcome, steam_web_api_key_configured, telemetry_outcome,
    ActiveJobs, CollectionStep, DataRefreshStatus, RetrievalBatch, TaskIntervals,
    DEFAULT_INTERVAL_SECS, RECOMMENDATION_TELEMETRY_RETENTION_INTERVAL_SECS,
    TELEMETRY_RETENTION_TASK,
};

fn score(value: f64) -> Score {
    Score::from_bits(value.to_bits())
}

/// A store in memory, as far as a run of the scheduler needs one.
struct Store {
    now_ms: i64,
    statuses: Vec<DataRefreshStatus>,
    active: BTreeSet<String>,
    enqueued: Vec<String>,
    catalog: Vec<u32>,
    indexed: BTreeSet<u32>,
    telemetry: Vec<i64>,
    purge_fails: bool,
}

impl Store {
    fn new(now_ms: i64) -> Store {
        Store {
            now_ms,
            statuses: Vec::new(),
            active: BTreeSet::new(),
            enqueued: Vec::new(),
            catalog: vec![10, 20, 30, 40, 50],
            indexed: BTreeSet::new(),
            telemetry: Vec::new(),
            purge_fails: false,
        }
    }

    fn status(&self, task: &str) -> &DataRefreshStatus {
        find_status(&self.statuses, task).unwrap()
    }

    fn record(&mut self, status: DataRefreshStatus) {
        self.statuses.retain(|known| known.task_name != status.task_name);
        self.statuses.push(status);
    }

    fn has_active_job(&self, task_type: &str) -> bool {
        self.active.contains(task_type)
    }

    fn sync_retrieval(&mut self, batch_size: usize, next_run_at_ms: i64) -> bool {
        let previous = find_status(&self.statuses, "retrieval_sync");
        let after = retrieval_after(previous);
        let batch: Vec<u32> =
            self.catalog.iter().copied().filter(|id| *id > after).take(batch_size).collect();
        let last = batch.last().copied().unwrap_or(0);
        let has_more = self.catalog.iter().any(|id| *id > last);
        let next_after_app_id = if has_more { last } else { 0 };
        let mut indexed = self.indexed.clone();
        indexed.extend(batch);
        let coverage = indexed.len() as f64 / self.catalog.len() as f64;
        let status = retrieval_outcome(
            Some(RetrievalBatch { next_after_app_id, coverage_ratio: score(coverage) }),
            previous,
            self.now_ms,
            next_run_at_ms,
        );
        self.indexed = indexed;
        self.record(status);
        has_more
    }

    fn retain_telemetry(&mut self, retry_at_ms: i64) -> Result<(), ()> {
        let previous = find_status(&self.statuses, TELEMETRY_RETENTION_TASK);
        if !due(previous, self.now_ms) {
            return Ok(());
        }
        let succeeded = !self.purge_fails;
        let status = telemetry_outcome(succeeded, previous, self.now_ms, retry_at_ms);
        if succeeded {
            let now_ms = self.now_ms;
            self.telemetry.retain(|expires_at_ms| *expires_at_ms > now_ms);
        }
        self.record(status);
        if succeeded {
            Ok(())
        } else {
            Err(())
        }
    }

    fn run(&mut self, interval_secs: u64, catalog_sync_enabled: bool, intervals: TaskIntervals) {
        let next_run_at_ms = next_run_at(self.now_ms, interval_secs);
        let coverage = Some(score(0.5));
        let active = ActiveJobs {
            catalog_sync: self.has_active_job("sync_catalog"),
            candidate_collection: self.has_active_job("collect_candidates"),
            enrichment: self.has_active_job("enrich_catalog"),
        };
        let steps = plan_collection(
            &self.statuses,
            self.now_ms,
            catalog_sync_enabled,
            intervals,
            active,
            coverage,
        );
        for step in [steps.0, steps.1, steps.2] {
            match step {
                CollectionStep::Blocked(status) => self.record(status),
                CollectionStep::Wait => {}
                CollectionStep::Enqueue(job, status) => {
                    self.active.insert(job.task_type.clone());
                    self.enqueued.push(job.idempotency_key.clone());
                    self.record(status);
                }
            }
        }
        let quality = quality_outcome(
            true,
            find_status(&self.statuses, "quality_check"),
            self.now_ms,
            next_run_at_ms,
            coverage,
        );
        self.record(quality);
        self.sync_retrieval(2_000, next_run_at_ms);
        self.retain_telemetry(next_run_at_ms).unwrap();
    }
}

fn known(task: &str, success: Option<i64>, next: Option<i64>, cursor: Option<&str>) -> DataRefreshStatus {
    DataRefreshStatus {
        task_name: task.to_owned(),
        last_success_at_ms: success,
        next_run_at_ms: next,
        last_error_category: None,
        cursor_value: cursor.map(|text| text.to_owned()),
        coverage_ratio: Some(score(0.5)),
    }
}

#[test]
fn records_only_completed_derived_work_as_success() {
    let mut store = Store::new(1_000);
    store.run(DEFAULT_INTERVAL_SECS, false, TaskIntervals::default());
    assert!(store.status("quality_check").last_success_at_ms.is_some());
    let collection = store.status("candidate_collection");
    assert!(collection.last_success_at_ms.is_none());
    assert!(collection.last_error_category.is_none());
    assert_eq!(store.status("catalog_sync").last_error_category.as_deref(), Some("auth"));
}

#[test]
fn keeps_collection_success_when_scheduling_the_next_job() {
    let mut store = Store::new(1_000);
    store.record(known("candidate_collection", Some(123), None, Some("cursor")));

    store.run(DEFAULT_INTERVAL_SECS, false, TaskIntervals::default());

    let collection = store.status("candidate_collection");
    assert_eq!(collection.last_success_at_ms, Some(123));
    assert_eq!(collection.cursor_value.as_deref(), Some("cursor"));
    assert!(collection.next_run_at_ms.is_some());
    assert!(collection.last_error_category.is_none());
}

#[test]
fn keeps_one_active_job_per_collection_task_and_respects_task_cadence() {
    let mut store = Store::new(0);
    let task_intervals = TaskIntervals {
        catalog_sync_secs: 60,
        candidate_collection_secs: 600,
        enrichment_secs: 60,
    };

    store.run(30, false, task_intervals);
    assert!(store.has_active_job("collect_candidates"));
    assert!(store.has_active_job("enrich_catalog"));

    store.now_ms += 60_000;
    store.run(30, false, task_intervals);
    assert_eq!(store.enqueued.len(), 2, "due tasks must not accumulate while active");

    store.active.clear();
    store.run(30, false, task_intervals);
    assert!(store.has_active_job("enrich_catalog"));
    assert!(
        !store.has_active_job("collect_candidates"),
        "candidate collection waits for its longer interval"
    );
}

#[test]
fn retrieval_sync_persists_cursor_until_full_catalog_coverage() {
    let mut store = Store::new(100);
    let catalog_apps = store.catalog.len();
    let mut previous_coverage = 0.0;
    let mut batches = 0;
    loop {
        let has_more = store.sync_retrieval(2, 200);
        batches += 1;

        let updated = store.status("retrieval_sync");
        let coverage = f64::from_bits(updated.coverage_ratio.unwrap().to_bits());
        assert!(coverage >= previous_coverage);

        if !has_more {
            assert_eq!(updated.cursor_value.as_deref(), Some("0"));
            assert_eq!(coverage, 1.0);
            break;
        }
        assert_ne!(updated.cursor_value.as_deref(), Some("0"));
        assert!(coverage < 1.0);
        previous_coverage = coverage;
        assert!(batches <= catalog_apps, "persisted cursor must make progress");
    }

    assert_eq!(batches, catalog_apps.div_ceil(2));
    assert_eq!(store.indexed.len(), catalog_apps);
}

#[test]
fn scheduler_purges_expired_telemetry_once_per_daily_cadence() {
    let day_ms = RECOMMENDATION_TELEMETRY_RETENTION_INTERVAL_SECS as i64 * 1_000;
    let mut store = Store::new(1_000_000);
    store.telemetry.push(999_999);
    store.run(DEFAULT_INTERVAL_SECS, false, TaskIntervals::default());
    assert!(store.telemetry.is_empty());

    let first = store.status(TELEMETRY_RETENTION_TASK);
    let first_success_at_ms = first.last_success_at_ms.unwrap();
    assert_eq!(first_success_at_ms, store.now_ms);
    assert_eq!(first.next_run_at_ms, Some(first_success_at_ms + day_ms));
    assert!(first.last_error_category.is_none());

    store.telemetry.push(first_success_at_ms + 1);
    store.now_ms += DEFAULT_INTERVAL_SECS as i64 * 1_000;
    store.run(DEFAULT_INTERVAL_SECS, false, TaskIntervals::default());
    assert_eq!(
        store.telemetry.len(),
        1,
        "a scheduler tick before the daily deadline must not run retention again"
    );

    store.now_ms += day_ms - DEFAULT_INTERVAL_SECS as i64 * 1_000;
    store.run(DEFAULT_INTERVAL_SECS, false, TaskIntervals::default());
    assert!(store.telemetry.is_empty());
}

#[test]
fn telemetry_retention_failure_is_observable_and_retries_on_scheduler_cadence() {
    let mut store = Store::new(10_000);
    store.record(known(TELEMETRY_RETENTION_TASK, Some(7_000), Some(9_000), None));
    store.purge_fails = true;

    let retry_at_ms = 10_000 + DEFAULT_INTERVAL_SECS as i64 * 1_000;
    assert!(store.retain_telemetry(retry_at_ms).is_err());

    let failed = store.status(TELEMETRY_RETENTION_TASK);
    assert_eq!(failed.last_success_at_ms, Some(7_000));
    assert_eq!(failed.next_run_at_ms, Some(retry_at_ms));
    assert_eq!(failed.last_error_category.as_deref(), Some("telemetry_retention_failed"));
}

#[test]
fn failed_work_keeps_what_was_known() {
    let before = known("quality_check", Some(5), Some(6), Some("c"));
    let failed = quality_outcome(false, Some(&before), 10, 20, None);
    assert_eq!(failed.last_success_at_ms, Some(5));
    assert_eq!(failed.next_run_at_ms, Some(20));
    assert_eq!(failed.last_error_category.as_deref(), Some("quality_check_failed"));
    let stuck = retrieval_outcome(None, Some(&before), 10, 20);
    assert_eq!(stuck.cursor_value.as_deref(), Some("c"));
    assert_eq!(stuck.last_error_category.as_deref(), Some("retrieval_sync_failed"));
}

#[test]
fn a_cursor_that_is_no_number_starts_over() {
    assert_eq!(retrieval_after(None), 0);
    assert_eq!(retrieval_after(Some(&known("retrieval_sync", None, None, Some("30")))), 30);
    assert_eq!(retrieval_after(Some(&known("retrieval_sync", None, None, Some("x")))), 0);
}

#[test]
fn a_job_is_named_by_its_slot() {
    let mut store = Store::new(125_000);
    let task_intervals = TaskIntervals {
        catalog_sync_secs: 60,
        candidate_collection_secs: 600,
        enrichment_secs: 60,
    };
    store.run(30, true, task_intervals);
    assert_eq!(
        store.enqueued,
        vec![
            "m7-scheduler:catalog_sync:2",
            "m7-scheduler:candidate_collection:0",
            "m7-scheduler:enrichment:2"
        ]
    );
}

#[test]
fn intervals_and_keys_are_taken_only_where_they_make_sense() {
    assert_eq!(configured_interval(Some("90"), 300, 60), 90);
    assert_eq!(configured_interval(Some("59"), 300, 60), 300);
    assert_eq!(configured_interval(Some("86401"), 300, 60), 300);
    assert_eq!(configured_interval(Some("soon"), 300, 60), 300);
    assert_eq!(configured_interval(None, 300, 60), 300);
    let intervals = TaskIntervals::from_settings(Some("120"), None, Some("1"));
    assert_eq!(intervals.catalog_sync_secs, 120);
    assert_eq!(intervals.candidate_collection_secs, 21_600);
    assert_eq!(intervals.enrichment_secs, 300);
    assert!(steam_web_api_key_configured(Some(&format!(" {} ", "0aF9".repeat(8)))));
    assert!(!steam_web_api_key_configured(Some(&"g".repeat(32))));
    assert!(!steam_web_api_key_configured(Some("abc")));
    assert!(!steam_web_api_key_configured(None));
}

#[test]
fn intervals_are_counted_as_far_as_possible() {
    assert_eq!(next_run_at(10, 60), 60_010);
    assert_eq!(next_run_at(10, i64::MAX as u64), i64::MAX);
    assert_eq!(next_run_at(10, u64::MAX), -990);
    assert_eq!(next_run_at(-10, i64::MAX as u64 + 1), i64::MIN);
}
