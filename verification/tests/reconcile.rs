use brawler_core::autopilot::stage_job_id;
use brawler_core::kinds::{AUTOPILOT_STAGE_KIND, HISTORY_SWEEP_KIND, PIPELINE_REEXTRACTION_KIND};
use brawler_core::queue::JobStatus;
use brawler_core::reconcile::{
    DomainRow, KpiRun, Occurrence, OccurrenceStatus, RuleCommits, Store, TranscriptJob,
};
use brawler_core::stages::{run_stage, StageOutcome};

fn store() -> Store {
    Store::new()
}

fn create_run(store: &mut Store, run_id: &str) {
    assert!(store.runs.create_run_if_absent(
        run_id,
        "company_gpw_cdr",
        "document_1",
        "detection",
        "autopilot",
        None,
    ));
}

fn run_status(store: &Store, run_id: &str) -> String {
    store.runs.get_run(run_id).expect("run").status.clone()
}

fn run_stage_name(store: &Store, run_id: &str) -> String {
    store.runs.get_run(run_id).expect("run").stage.clone()
}

fn begin_attempt(store: &mut Store, id: u64, key: &str) {
    store.occurrences.push(Occurrence {
        id,
        activity_key: key.to_owned(),
        status: OccurrenceStatus::Running,
    });
}

fn occurrence_status(store: &Store, id: u64) -> OccurrenceStatus {
    store.occurrences.iter().find(|o| o.id == id).expect("occurrence").status
}

#[test]
fn startup_reconcile_leaves_a_run_with_a_stage_in_retry_backoff_alone() {
    let mut store = store();
    create_run(&mut store, "run-1");
    store.jobs.enqueue(
        "autopilot:run-1:fetch",
        AUTOPILOT_STAGE_KIND,
        r#"{"run_id":"run-1","stage":"fetch"}"#,
        3,
    );

    store.reconcile_on_startup();

    assert_eq!(run_status(&store, "run-1"), "pending", "a run with a live stage job is left alone");
}

#[test]
fn startup_reconcile_reschedules_a_run_whose_stage_job_is_entirely_missing() {
    let mut store = store();
    create_run(&mut store, "run-2");

    store.reconcile_on_startup();

    assert_eq!(run_status(&store, "run-2"), "pending", "reconcile never touches run.status on a reschedule");
    let stage = run_stage_name(&store, "run-2");
    let job = store
        .jobs
        .status(&stage_job_id("run-2", &stage))
        .expect("the missing stage job must have been rescheduled");
    assert_eq!(job.status, JobStatus::Pending);
}

#[test]
fn startup_reconcile_reschedules_the_last_started_stage_of_a_stranded_run_exactly_once() {
    let mut store = store();
    create_run(&mut store, "run-5");
    assert!(store.runs.set_run_stage("run-5", "extract", "running"));

    store.reconcile_on_startup();

    let job_id = stage_job_id("run-5", "extract");
    let job = store.jobs.status(&job_id).expect("the last-started stage must have been rescheduled");
    assert_eq!(job.status, JobStatus::Pending);
    assert_eq!(job.attempts, 0);

    store.reconcile_on_startup();
    let job_again = store.jobs.status(&job_id).expect("job row");
    assert_eq!(
        job_again.attempts, 0,
        "a second reconcile pass must be a no-op — reschedule on an already-pending row does nothing"
    );
}

#[test]
fn startup_reconcile_reschedules_when_a_stale_succeeded_job_from_a_previous_generation_exists() {
    let mut store = store();
    create_run(&mut store, "run-6");
    assert!(store.runs.set_run_stage("run-6", "extract", "running"));
    let job_id = stage_job_id("run-6", "extract");
    store.jobs.enqueue(&job_id, AUTOPILOT_STAGE_KIND, r#"{"run_id":"run-6","stage":"extract"}"#, 3);
    store.jobs.claim_next().expect("job");
    assert!(store.jobs.mark_succeeded(&job_id));

    store.reconcile_on_startup();

    let job = store.jobs.status(&job_id).expect("job row");
    assert_eq!(
        job.status,
        JobStatus::Pending,
        "a stale succeeded row from a previous generation must be rescheduled, not treated as a dead letter"
    );
}

#[test]
fn startup_reconcile_fails_a_run_with_a_dead_lettered_stage_job() {
    let mut store = store();
    create_run(&mut store, "run-3");
    store.jobs.enqueue("autopilot:run-3:fetch", AUTOPILOT_STAGE_KIND, r#"{"run_id":"run-3","stage":"fetch"}"#, 1);
    // Dead-letter it: claimed, then failed with its only attempt spent.
    store.jobs.claim_next().expect("job");
    assert!(!store.jobs.mark_failed("autopilot:run-3:fetch", "dead"));
    assert_eq!(store.jobs.status("autopilot:run-3:fetch").expect("row").status, JobStatus::Failed);

    store.reconcile_on_startup();

    assert_eq!(run_status(&store, "run-3"), "failed");
    assert_eq!(
        store.runs.get_run("run-3").expect("run").last_error.as_deref(),
        Some("Interrupted by app restart: no live stage job")
    );
}

#[test]
fn startup_reconcile_is_not_fooled_by_a_like_false_positive_from_an_underscore_in_the_run_id() {
    let mut store = store();
    create_run(&mut store, "co_1");
    store.jobs.enqueue("autopilot:coX1:fetch", AUTOPILOT_STAGE_KIND, r#"{"run_id":"unrelated","stage":"fetch"}"#, 3);

    store.reconcile_on_startup();

    assert_eq!(run_status(&store, "co_1"), "pending", "the decoy row must not falsely keep `co_1` looking live");
    let stage = run_stage_name(&store, "co_1");
    let real_job = store
        .jobs
        .status(&stage_job_id("co_1", &stage))
        .expect("co_1's own stage job must have been rescheduled");
    assert_eq!(real_job.status, JobStatus::Pending);
    let decoy = store.jobs.status("autopilot:coX1:fetch").expect("decoy row untouched");
    assert_eq!(decoy.attempts, 0, "the decoy must never have been claimed or otherwise touched by reconcile");
}

#[test]
fn startup_reconcile_reschedules_a_run_whose_last_stage_succeeded_with_no_successor_and_run_until_idle_finalizes_it() {
    let mut store = store();
    create_run(&mut store, "run-4");
    assert!(store.runs.set_run_stage("run-4", "notify", "running"));
    store.jobs.enqueue("autopilot:run-4:notify", AUTOPILOT_STAGE_KIND, r#"{"run_id":"run-4","stage":"notify"}"#, 1);
    store.jobs.claim_next().expect("job");
    assert!(store.jobs.mark_succeeded("autopilot:run-4:notify"));

    store.reconcile_on_startup();

    assert_eq!(run_status(&store, "run-4"), "running", "reconcile never touches run.status on a reschedule");
    let job = store.jobs.status("autopilot:run-4:notify").expect("job row");
    assert_eq!(job.status, JobStatus::Pending, "the notify job must be re-armed once, not left succeeded forever");

    store.reconcile_on_startup();
    let job_again = store.jobs.status("autopilot:run-4:notify").expect("job row");
    assert_eq!(job_again.attempts, job.attempts);

    // Drain the queue: the notify stage has no outside work of its own.
    while let Some(claimed) = store.jobs.claim_next() {
        let result = run_stage(&mut store.runs, &mut store.jobs, &claimed.payload, StageOutcome::Done, Ok(()));
        assert!(result.is_ok());
        assert!(store.jobs.mark_succeeded(&claimed.id));
    }

    assert_eq!(
        run_status(&store, "run-4"),
        "succeeded",
        "the re-armed notify stage must finalize the run, not strand it"
    );
}

#[test]
fn startup_reconcile_never_terminalizes_kpi_runs() {
    let mut store = store();
    store.kpi_runs.push(KpiRun { id: "kpi-1".to_owned(), status: "committing".to_owned() });

    store.reconcile_on_startup();

    assert_eq!(store.kpi_runs[0].status, "committing", "reconcile must never touch a KPI run's status");
}

#[test]
fn startup_reconcile_fails_an_orphaned_sweep() {
    let mut store = store();
    store.history_sweeps.push(DomainRow { id: "sweep-1".to_owned(), status: "queued".to_owned(), error: None });

    store.reconcile_on_startup();

    assert_eq!(store.history_sweeps[0].status, "failed");
}

#[test]
fn startup_reconcile_fails_an_orphaned_batch() {
    let mut store = store();
    store.reextraction_batches.push(DomainRow { id: "batch-1".to_owned(), status: "queued".to_owned(), error: None });

    store.reconcile_on_startup();

    assert_eq!(store.reextraction_batches[0].status, "failed");
}

#[test]
fn startup_reconcile_interrupt_is_atomic_across_all_open_occurrences() {
    let mut store = store();
    begin_attempt(&mut store, 1, "source-refresh:a");
    begin_attempt(&mut store, 2, "source-refresh:b");

    // The occurrence transaction aborts; the other rules still run.
    store.reconcile_with(RuleCommits {
        occurrences: false,
        transcripts: true,
        autopilot_runs: true,
        history_sweeps: true,
        reextraction_batches: true,
    });

    for id in [1, 2] {
        assert_eq!(
            occurrence_status(&store, id),
            OccurrenceStatus::Running,
            "a poisoned tx must leave EVERY occurrence untouched, never a partial split"
        );
    }
}

#[test]
fn startup_reconcile_interrupts_open_occurrences() {
    let mut store = store();
    begin_attempt(&mut store, 1, "source-refresh:x");

    store.reconcile_on_startup();

    assert_eq!(occurrence_status(&store, 1), OccurrenceStatus::Interrupted);
}

#[test]
fn startup_reconcile_is_idempotent() {
    let mut store = store();
    begin_attempt(&mut store, 1, "source-refresh:x");

    store.reconcile_on_startup();
    store.reconcile_on_startup();

    assert_eq!(occurrence_status(&store, 1), OccurrenceStatus::Interrupted);
}

#[test]
fn startup_reconcile_prunes_finished_rows_to_the_500_retention_cap() {
    let mut store = store();
    for i in 0..500u64 {
        store.occurrences.push(Occurrence {
            id: i + 1,
            activity_key: format!("pre-existing:{i}"),
            status: OccurrenceStatus::Succeeded,
        });
    }
    begin_attempt(&mut store, 501, "source-refresh:open");

    store.reconcile_on_startup();

    assert_eq!(store.occurrences.len(), 500, "retention caps at 500 rows");
    assert!(store.occurrences.iter().all(|o| o.id != 1), "the single oldest row is the one pruned");
    assert_eq!(occurrence_status(&store, 501), OccurrenceStatus::Interrupted);
}

#[test]
fn running_transcripts_are_failed_as_interrupted_keeping_an_existing_error() {
    let mut store = store();
    store.transcripts.push(TranscriptJob {
        id: "t1".to_owned(),
        status: "running".to_owned(),
        error_code: None,
        error: None,
    });
    store.transcripts.push(TranscriptJob {
        id: "t2".to_owned(),
        status: "running".to_owned(),
        error_code: None,
        error: Some("earlier".to_owned()),
    });
    store.transcripts.push(TranscriptJob {
        id: "t3".to_owned(),
        status: "succeeded".to_owned(),
        error_code: None,
        error: None,
    });

    store.reconcile_on_startup();

    assert_eq!(store.transcripts[0].status, "failed");
    assert_eq!(store.transcripts[0].error_code.as_deref(), Some("interrupted"));
    assert_eq!(store.transcripts[0].error.as_deref(), Some("Interrupted by app restart"));
    assert_eq!(store.transcripts[1].error.as_deref(), Some("earlier"));
    assert_eq!(store.transcripts[2].status, "succeeded");
}

#[test]
fn a_sweep_with_a_live_parent_job_is_left_alone() {
    let mut store = store();
    store.history_sweeps.push(DomainRow { id: "sweep-2".to_owned(), status: "running".to_owned(), error: None });
    store.jobs.enqueue("sweep-2", HISTORY_SWEEP_KIND, "{}", 3);
    store.reextraction_batches.push(DomainRow {
        id: "batch-2".to_owned(),
        status: "queued".to_owned(),
        error: None,
    });
    store.jobs.enqueue("batch-2", PIPELINE_REEXTRACTION_KIND, "{}", 3);

    store.reconcile_on_startup();

    assert_eq!(store.history_sweeps[0].status, "running");
    assert_eq!(store.reextraction_batches[0].status, "queued");
}

#[test]
fn an_orphaned_sweep_records_the_restart_error() {
    let mut store = store();
    store.history_sweeps.push(DomainRow { id: "sweep-3".to_owned(), status: "running".to_owned(), error: None });

    store.reconcile_on_startup();

    assert_eq!(
        store.history_sweeps[0].error.as_deref(),
        Some("Interrupted by app restart: no live job")
    );
}
