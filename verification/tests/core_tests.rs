use jarvis_desktop::errors::ErrorKind;
use jarvis_desktop::jobs::{
    apply_job_result, cancel_job, claim_next_queued, clear_finished_jobs, enqueue_job, retry_job,
    JobRecord, JobsState, OutcomeStatus, TaskOutcome,
};
use jarvis_desktop::orchestrator::reconcile_pipelines;
use jarvis_desktop::pipeline::{
    cancel_pipeline, create_pipeline, retry_pipeline_step, start_pipeline, PipelineRecord,
    PipelineStep,
};
use jarvis_desktop::scheduler::tick_auto_retry;
use jarvis_desktop::settings::DesktopSettings;
use jarvis_desktop::status::{JobStatus, PipelineStatus, PipelineStepStatus};
use jarvis_desktop::templates::Params;

fn job(id: &str, status: JobStatus, created: u64, updated: u64) -> JobRecord {
    JobRecord {
        job_id: id.to_string(),
        template_id: "TEMPLATE_TREE".to_string(),
        canonical_id: "arxiv:1706.03762".to_string(),
        params: Params::new(),
        status,
        attempt: 0,
        created_at: created,
        updated_at: updated,
        run_id: None,
        last_error: None,
        retry_after_ms: None,
        retry_at: None,
        auto_retry_attempt_count: 0,
    }
}

fn step(step_id: &str, template_id: &str, status: PipelineStepStatus, job_id: Option<&str>) -> PipelineStep {
    PipelineStep {
        step_id: step_id.to_string(),
        template_id: template_id.to_string(),
        params: Params::new(),
        job_id: job_id.map(|s| s.to_string()),
        status,
        run_id: None,
        started_at: None,
        finished_at: None,
    }
}

fn pipeline(id: &str, steps: Vec<PipelineStep>, current: usize, status: PipelineStatus) -> PipelineRecord {
    PipelineRecord {
        pipeline_id: id.to_string(),
        canonical_id: "arxiv:1706.03762".to_string(),
        name: "Analyze".to_string(),
        created_at: 1,
        updated_at: 1,
        steps,
        current_step_index: current,
        status,
        last_primary_viz: None,
        auto_retry_attempt_count: 0,
    }
}

fn empty_state() -> JobsState {
    JobsState { jobs: vec![], running_job_id: None, cancel_requested: vec![], next_job_seq: 0 }
}

#[test]
fn enqueue_validates_template_and_key() {
    let mut s = empty_state();
    let bad_template = enqueue_job(
        &mut s,
        "TEMPLATE_NOPE".to_string(),
        "arxiv:1706.03762".to_string(),
        Params::new(),
        10,
    );
    assert!(matches!(bad_template.unwrap_err().kind, ErrorKind::NotFound));

    let disabled = enqueue_job(
        &mut s,
        "TEMPLATE_SUMMARY".to_string(),
        "arxiv:1706.03762".to_string(),
        Params::new(),
        10,
    );
    assert!(matches!(disabled.unwrap_err().kind, ErrorKind::InvalidInput));

    let bad_key = enqueue_job(
        &mut s,
        "TEMPLATE_TREE".to_string(),
        "not-an-id???".to_string(),
        Params::new(),
        10,
    );
    assert!(matches!(bad_key.unwrap_err().kind, ErrorKind::InvalidInput));
    assert_eq!(s.jobs.len(), 0);

    let ok = enqueue_job(
        &mut s,
        "TEMPLATE_TREE".to_string(),
        "arxiv:1706.03762".to_string(),
        Params::new(),
        10,
    )
    .expect("enqueue");
    assert_eq!(ok, "job_0");
    assert_eq!(s.jobs.len(), 1);
    assert_eq!(s.jobs[0].status, JobStatus::Queued);
    assert_eq!(s.jobs[0].attempt, 0);
    assert_eq!(s.jobs[0].created_at, 10);
}

#[test]
fn worker_claims_fifo_and_stays_single() {
    let mut s = empty_state();
    s.jobs.push(job("job_a", JobStatus::Queued, 1, 1));
    s.jobs.push(job("job_b", JobStatus::Queued, 2, 2));

    let claimed = claim_next_queued(&mut s, 50).expect("claim");
    assert_eq!(claimed.job_id, "job_a");
    assert_eq!(claimed.status, JobStatus::Running);
    assert_eq!(claimed.attempt, 1);
    assert_eq!(s.running_job_id.as_deref(), Some("job_a"));

    // the worker is busy: no second claim, no second running job
    assert!(claim_next_queued(&mut s, 51).is_none());
    let running = s.jobs.iter().filter(|j| j.status == JobStatus::Running).count();
    assert_eq!(running, 1);
}

#[test]
fn outcome_application_classifies_and_schedules_retry() {
    let mut s = empty_state();
    s.jobs.push(job("job_a", JobStatus::Queued, 1, 1));
    let _ = claim_next_queued(&mut s, 2).expect("claim");

    let outcome = TaskOutcome {
        ok: false,
        status: OutcomeStatus::NeedsRetry,
        message: "429".to_string(),
        retry_after_ms: Some(3000),
        run_id: "run_2".to_string(),
    };
    let rec = apply_job_result(&mut s, "job_a", &outcome, &DesktopSettings::default(), 1000)
        .expect("apply");
    assert_eq!(rec.status, JobStatus::NeedsRetry);
    assert_eq!(rec.retry_after_ms, Some(3000));
    assert_eq!(rec.retry_at, Some(4000));
    assert_eq!(rec.run_id.as_deref(), Some("run_2"));
    assert_eq!(rec.last_error.as_deref(), Some("429"));
    assert!(s.running_job_id.is_none());
}

#[test]
fn cancellation_intent_wins_over_the_outcome() {
    let mut s = empty_state();
    s.jobs.push(job("job_a", JobStatus::Queued, 1, 1));
    let _ = claim_next_queued(&mut s, 2).expect("claim");
    let canceled = cancel_job(&mut s, "job_a", 3).expect("cancel");
    assert_eq!(canceled.status, JobStatus::Canceled);
    assert_eq!(s.cancel_requested.len(), 1);

    let outcome = TaskOutcome {
        ok: true,
        status: OutcomeStatus::Success,
        message: String::new(),
        retry_after_ms: None,
        run_id: "run_1".to_string(),
    };
    let rec = apply_job_result(&mut s, "job_a", &outcome, &DesktopSettings::default(), 9)
        .expect("apply");
    assert_eq!(rec.status, JobStatus::Canceled);
    assert!(s.cancel_requested.is_empty());
}

#[test]
fn retry_before_window_fails_with_precondition_failed() {
    let mut s = empty_state();
    let mut j = job("job_b", JobStatus::NeedsRetry, 1, 1);
    j.retry_at = Some(5000);
    j.last_error = Some("429".to_string());
    j.retry_after_ms = Some(3000);
    s.jobs.push(j);

    let early = retry_job(&mut s, "job_b", false, 1000).unwrap_err();
    assert!(matches!(early.kind, ErrorKind::PreconditionFailed));
    assert!(early.text().contains("retry window"));
    assert_eq!(s.jobs[0].status, JobStatus::NeedsRetry);

    let late = retry_job(&mut s, "job_b", false, 6000).expect("retry");
    assert_eq!(late.status, JobStatus::Queued);
    assert_eq!(late.retry_at, None);
    assert_eq!(late.retry_after_ms, None);
    assert_eq!(late.last_error, None);
}

#[test]
fn forced_retry_ignores_state_but_keeps_the_budget() {
    let mut s = empty_state();
    let mut j = job("job_c", JobStatus::Succeeded, 1, 1);
    j.auto_retry_attempt_count = 2;
    s.jobs.push(j);

    let not_retryable = retry_job(&mut s, "job_c", false, 10).unwrap_err();
    assert!(matches!(not_retryable.kind, ErrorKind::PreconditionFailed));

    let forced = retry_job(&mut s, "job_c", true, 10).expect("forced retry");
    assert_eq!(forced.status, JobStatus::Queued);
    assert_eq!(forced.auto_retry_attempt_count, 2);
}

#[test]
fn clear_finished_keeps_retryable_work() {
    let mut s = empty_state();
    s.jobs.push(job("a", JobStatus::Succeeded, 1, 1));
    s.jobs.push(job("b", JobStatus::NeedsRetry, 2, 2));
    s.jobs.push(job("c", JobStatus::Failed, 3, 3));
    s.jobs.push(job("d", JobStatus::Queued, 4, 4));
    s.jobs.push(job("e", JobStatus::Canceled, 5, 5));

    let removed = clear_finished_jobs(&mut s);
    assert_eq!(removed, 3);
    let left: Vec<&str> = s.jobs.iter().map(|j| j.job_id.as_str()).collect();
    assert_eq!(left, vec!["b", "d"]);
}

#[test]
fn pipeline_transition_success_enqueues_next_step() {
    let mut jobs = empty_state();
    let mut ps = vec![pipeline(
        "pipe_a",
        vec![
            step("step_01_template_tree", "TEMPLATE_TREE", PipelineStepStatus::Pending, None),
            step("step_02_template_related", "TEMPLATE_RELATED", PipelineStepStatus::Pending, None),
        ],
        0,
        PipelineStatus::Running,
    )];

    let first = reconcile_pipelines(&mut ps, &mut jobs, 100);
    assert!(first);
    assert_eq!(ps[0].steps[0].status, PipelineStepStatus::Running);
    let first_job_id = ps[0].steps[0].job_id.clone().expect("step1 job id");
    assert_eq!(jobs.jobs.len(), 1);

    let idx = jobs.jobs.iter().position(|j| j.job_id == first_job_id).expect("job");
    jobs.jobs[idx].status = JobStatus::Succeeded;
    jobs.jobs[idx].run_id = Some("run_success_step1".to_string());

    let second = reconcile_pipelines(&mut ps, &mut jobs, 200);
    assert!(second);
    assert_eq!(ps[0].steps[0].status, PipelineStepStatus::Succeeded);
    assert_eq!(ps[0].steps[0].run_id.as_deref(), Some("run_success_step1"));
    assert_eq!(ps[0].current_step_index, 1);
    assert_eq!(ps[0].steps[1].status, PipelineStepStatus::Running);
    assert!(ps[0].steps[1].job_id.is_some());
    assert_eq!(jobs.jobs.len(), 2);
}

#[test]
fn pipeline_needs_retry_stops_without_continuation() {
    let mut jobs = empty_state();
    let mut j = job("job_retry_1", JobStatus::NeedsRetry, 1, 1);
    j.run_id = Some("run_retry_step1".to_string());
    j.last_error = Some("429".to_string());
    j.retry_after_ms = Some(3000);
    j.retry_at = Some(4000);
    jobs.jobs.push(j);

    let mut ps = vec![pipeline(
        "pipe_b",
        vec![
            step(
                "step_01_template_tree",
                "TEMPLATE_TREE",
                PipelineStepStatus::Running,
                Some("job_retry_1"),
            ),
            step("step_02_template_graph", "TEMPLATE_GRAPH", PipelineStepStatus::Pending, None),
        ],
        0,
        PipelineStatus::Running,
    )];

    let _ = reconcile_pipelines(&mut ps, &mut jobs, 500);
    assert_eq!(ps[0].status, PipelineStatus::NeedsRetry);
    assert_eq!(ps[0].steps[0].status, PipelineStepStatus::NeedsRetry);
    assert_eq!(ps[0].steps[1].status, PipelineStepStatus::Pending);
    assert!(ps[0].steps[1].job_id.is_none());
    assert_eq!(jobs.jobs.len(), 1);
}

#[test]
fn pipeline_restart_resume_does_not_duplicate_enqueue() {
    let mut jobs = empty_state();
    let mut ps = vec![pipeline(
        "pipe_c",
        vec![step("step_01_template_tree", "TEMPLATE_TREE", PipelineStepStatus::Pending, None)],
        0,
        PipelineStatus::Running,
    )];

    let first = reconcile_pipelines(&mut ps, &mut jobs, 100);
    assert!(first);
    assert_eq!(jobs.jobs.len(), 1);

    let second = reconcile_pipelines(&mut ps, &mut jobs, 200);
    assert!(!second);
    assert_eq!(jobs.jobs.len(), 1);
}

#[test]
fn pipeline_cancellation_propagates_correctly() {
    let mut jobs = empty_state();
    let mut j = job("job_cancel_1", JobStatus::Canceled, 1, 1);
    j.last_error = Some("canceled".to_string());
    j.attempt = 1;
    jobs.jobs.push(j);

    let mut ps = vec![pipeline(
        "pipe_d",
        vec![step(
            "step_01_template_tree",
            "TEMPLATE_TREE",
            PipelineStepStatus::Running,
            Some("job_cancel_1"),
        )],
        0,
        PipelineStatus::Running,
    )];

    let _ = reconcile_pipelines(&mut ps, &mut jobs, 900);
    assert_eq!(ps[0].status, PipelineStatus::Canceled);
    assert_eq!(ps[0].steps[0].status, PipelineStepStatus::Canceled);
}

#[test]
fn create_pipeline_validates_and_appends() {
    let mut ps: Vec<PipelineRecord> = vec![];
    let empty = create_pipeline(
        &mut ps,
        0,
        "Analyze".to_string(),
        "arxiv:1706.03762".to_string(),
        vec![],
        10,
    );
    assert!(matches!(empty.unwrap_err().kind, ErrorKind::InvalidInput));

    let made = create_pipeline(
        &mut ps,
        0,
        "  ".to_string(),
        "arxiv:1706.03762".to_string(),
        vec![
            jarvis_desktop::pipeline::StepInput {
                template_id: "TEMPLATE_TREE".to_string(),
                params: Params::new(),
            },
            jarvis_desktop::pipeline::StepInput {
                template_id: "TEMPLATE_RELATED".to_string(),
                params: Params::new(),
            },
        ],
        10,
    )
    .expect("create");
    assert_eq!(made, "pipe_0");
    assert_eq!(ps.len(), 1);
    assert_eq!(ps[0].name, "Analyze Paper");
    assert_eq!(ps[0].canonical_id, "arxiv:1706.03762");
    assert_eq!(ps[0].status, PipelineStatus::Running);
    assert_eq!(ps[0].steps.len(), 2);
    assert_eq!(ps[0].steps[0].step_id, "step_01_template_tree");
    assert_eq!(ps[0].steps[1].step_id, "step_02_template_related");
    assert_eq!(ps[0].steps[0].status, PipelineStepStatus::Pending);
}

#[test]
fn step_retry_replays_from_the_step_forward() {
    let mut s1 = step("step_01_template_tree", "TEMPLATE_TREE", PipelineStepStatus::Succeeded, Some("job_1"));
    s1.run_id = Some("run_1".to_string());
    let mut s2 = step("step_02_template_graph", "TEMPLATE_GRAPH", PipelineStepStatus::Failed, Some("job_2"));
    s2.run_id = Some("run_2".to_string());
    let mut ps = vec![pipeline("pipe_e", vec![s1, s2], 1, PipelineStatus::Failed)];

    let blocked = retry_pipeline_step(&mut ps, "pipe_e", "step_01_template_tree", false, 50);
    assert!(matches!(blocked.unwrap_err().kind, ErrorKind::PreconditionFailed));

    let (pi, si) = retry_pipeline_step(&mut ps, "pipe_e", "step_02_template_graph", false, 60)
        .expect("retry step");
    assert_eq!((pi, si), (0, 1));
    assert_eq!(ps[0].status, PipelineStatus::Running);
    assert_eq!(ps[0].current_step_index, 1);
    assert_eq!(ps[0].steps[0].status, PipelineStepStatus::Succeeded);
    assert_eq!(ps[0].steps[1].status, PipelineStepStatus::Pending);
    assert!(ps[0].steps[1].job_id.is_none());
    assert!(ps[0].steps[1].run_id.is_none());
}

#[test]
fn cancel_pipeline_cancels_the_bound_job_and_current_step() {
    let mut jobs = empty_state();
    jobs.jobs.push(job("job_1", JobStatus::Queued, 1, 1));
    let mut ps = vec![pipeline(
        "pipe_f",
        vec![step("step_01_template_tree", "TEMPLATE_TREE", PipelineStepStatus::Running, Some("job_1"))],
        0,
        PipelineStatus::Running,
    )];

    cancel_pipeline(&mut ps, &mut jobs, "pipe_f", 70).expect("cancel");
    assert_eq!(ps[0].status, PipelineStatus::Canceled);
    assert_eq!(ps[0].steps[0].status, PipelineStepStatus::Canceled);
    assert_eq!(jobs.jobs[0].status, JobStatus::Canceled);

    let missing = cancel_pipeline(&mut ps, &mut jobs, "pipe_zzz", 71);
    assert!(matches!(missing.unwrap_err().kind, ErrorKind::NotFound));
}

#[test]
fn start_pipeline_marks_it_running_again() {
    let mut ps = vec![pipeline(
        "pipe_g",
        vec![step("step_01_template_tree", "TEMPLATE_TREE", PipelineStepStatus::Pending, None)],
        0,
        PipelineStatus::NeedsRetry,
    )];
    start_pipeline(&mut ps, "pipe_g", 80).expect("start");
    assert_eq!(ps[0].status, PipelineStatus::Running);
    assert_eq!(ps[0].updated_at, 80);
}

#[test]
fn tick_respects_the_master_switch_and_the_worker() {
    let mut jobs = empty_state();
    let mut ps: Vec<PipelineRecord> = vec![];
    let disabled = DesktopSettings::default();
    let (res, audit) = tick_auto_retry(&mut jobs, &mut ps, &disabled, 1000).expect("tick");
    assert!(!res.acted);
    assert_eq!(res.reason, "auto_retry_disabled");
    assert!(audit.is_none());

    let mut enabled = DesktopSettings::default();
    enabled.auto_retry_enabled = true;
    jobs.running_job_id = Some("job_x".to_string());
    let (res, _) = tick_auto_retry(&mut jobs, &mut ps, &enabled, 1000).expect("tick");
    assert!(!res.acted);
    assert_eq!(res.reason, "worker_busy");
}

#[test]
fn tick_dispatches_the_earliest_eligible_retry() {
    let mut settings = DesktopSettings::default();
    settings.auto_retry_enabled = true;
    settings.auto_retry_max_per_job = 2;

    let mut jobs = empty_state();
    let mut late = job("job_late", JobStatus::NeedsRetry, 1, 1);
    late.retry_at = Some(900);
    let mut early = job("job_early", JobStatus::NeedsRetry, 2, 2);
    early.retry_at = Some(500);
    let mut blocked = job("job_future", JobStatus::NeedsRetry, 3, 3);
    blocked.retry_at = Some(50_000);
    jobs.jobs.push(late);
    jobs.jobs.push(early);
    jobs.jobs.push(blocked);

    let mut ps: Vec<PipelineRecord> = vec![];
    let (res, audit) = tick_auto_retry(&mut jobs, &mut ps, &settings, 1000).expect("tick");
    assert!(res.acted);
    assert_eq!(res.job_id.as_deref(), Some("job_early"));
    assert!(res.pipeline_id.is_none());
    assert_eq!(res.reason, "auto_retry_enqueued");
    let entry = audit.expect("audit entry");
    assert_eq!(entry.kind, "auto_retry");
    assert_eq!(entry.attempt, 1);
    assert_eq!(entry.ts, 1000);

    let early_now = jobs.jobs.iter().find(|j| j.job_id == "job_early").unwrap();
    assert_eq!(early_now.status, JobStatus::Queued);
    assert_eq!(early_now.auto_retry_attempt_count, 1);
    let late_now = jobs.jobs.iter().find(|j| j.job_id == "job_late").unwrap();
    assert_eq!(late_now.status, JobStatus::NeedsRetry);
}

#[test]
fn tick_fills_missing_schedules_without_acting_early() {
    let mut settings = DesktopSettings::default();
    settings.auto_retry_enabled = true;
    settings.auto_retry_base_delay_seconds = 10;
    settings.auto_retry_max_delay_seconds = 25;

    let mut jobs = empty_state();
    jobs.jobs.push(job("job_new", JobStatus::NeedsRetry, 1, 1));

    let mut ps: Vec<PipelineRecord> = vec![];
    let (res, _) = tick_auto_retry(&mut jobs, &mut ps, &settings, 2000).expect("tick");
    assert!(!res.acted);
    assert_eq!(res.reason, "no_eligible_item");
    // the first attempt gets the base delay
    assert_eq!(jobs.jobs[0].retry_at, Some(2000 + 10_000));
}

#[test]
fn tick_skips_jobs_whose_budget_is_spent() {
    let mut settings = DesktopSettings::default();
    settings.auto_retry_enabled = true;
    settings.auto_retry_max_per_job = 1;

    let mut jobs = empty_state();
    let mut j = job("job_spent", JobStatus::NeedsRetry, 1, 1);
    j.retry_at = Some(10);
    j.auto_retry_attempt_count = 1;
    jobs.jobs.push(j);

    let mut ps: Vec<PipelineRecord> = vec![];
    let (res, _) = tick_auto_retry(&mut jobs, &mut ps, &settings, 1000).expect("tick");
    assert!(!res.acted);
    assert_eq!(res.reason, "no_eligible_item");
}

#[test]
fn deterministic_sorting_for_jobs_and_runs() {
    let mut rows = vec![
        job("job_b", JobStatus::Queued, 1, 100),
        job("job_a", JobStatus::Queued, 1, 100),
        job("job_c", JobStatus::Queued, 1, 101),
    ];
    jarvis_desktop::jobs::sort_jobs_for_display(&mut rows);
    assert_eq!(rows[0].job_id, "job_c");
    assert_eq!(rows[1].job_id, "job_a");
    assert_eq!(rows[2].job_id, "job_b");
}

#[test]
fn template_registry_defaults_are_stable() {
    let templates = jarvis_desktop::templates::template_registry();
    let tree = templates
        .iter()
        .find(|t| t.id == "TEMPLATE_TREE")
        .expect("TEMPLATE_TREE missing");
    assert!(tree.wired);
    assert_eq!(tree.params.len(), 2);

    let depth = tree
        .params
        .iter()
        .find(|p| p.key == "depth")
        .expect("depth param missing");
    assert_eq!(depth.default_value, 2);

    let max_per_level = tree
        .params
        .iter()
        .find(|p| p.key == "max_per_level")
        .expect("max_per_level param missing");
    assert_eq!(max_per_level.default_value, 50);
}

#[test]
fn template_build_args_are_deterministic() {
    let mut params = Params::new();
    params.push("depth".to_string(), jarvis_desktop::templates::ParamValue::Int(1));
    params.push("max_per_level".to_string(), jarvis_desktop::templates::ParamValue::Int(5));
    let (argv, normalized_params) =
        jarvis_desktop::templates::build_template_args("TEMPLATE_TREE", "arxiv:1706.03762", &params)
            .expect("build args failed");

    let expected = vec![
        "papers".to_string(),
        "tree".to_string(),
        "--id".to_string(),
        "arxiv:1706.03762".to_string(),
        "--depth".to_string(),
        "1".to_string(),
        "--max-per-level".to_string(),
        "5".to_string(),
    ];
    assert_eq!(argv, expected);
    assert_eq!(normalized_params.entries.len(), 2);
    assert_eq!(normalized_params.entries[0].key, "depth");
    assert!(matches!(
        normalized_params.entries[0].value,
        jarvis_desktop::templates::ParamValue::Int(1)
    ));
    assert_eq!(normalized_params.entries[1].key, "max_per_level");
    assert!(matches!(
        normalized_params.entries[1].value,
        jarvis_desktop::templates::ParamValue::Int(5)
    ));
}

#[test]
fn template_build_args_for_map_related_graph_are_deterministic() {
    let mut related_params = Params::new();
    related_params.push("depth".to_string(), jarvis_desktop::templates::ParamValue::Int(2));
    related_params.push("max_per_level".to_string(), jarvis_desktop::templates::ParamValue::Int(12));
    let (related_argv, _) = jarvis_desktop::templates::build_template_args(
        "TEMPLATE_RELATED",
        "doi:10.1000/abc",
        &related_params,
    )
    .expect("build related args failed");
    assert_eq!(
        related_argv,
        vec![
            "papers".to_string(),
            "tree".to_string(),
            "--id".to_string(),
            "doi:10.1000/abc".to_string(),
            "--depth".to_string(),
            "2".to_string(),
            "--max-per-level".to_string(),
            "12".to_string(),
        ]
    );

    let mut map_params = Params::new();
    map_params.push("k".to_string(), jarvis_desktop::templates::ParamValue::Int(22));
    map_params.push("seed".to_string(), jarvis_desktop::templates::ParamValue::Int(7));
    let (map_argv, _) = jarvis_desktop::templates::build_template_args(
        "TEMPLATE_MAP",
        "arxiv:1706.03762",
        &map_params,
    )
    .expect("build map args failed");
    assert_eq!(
        map_argv,
        vec![
            "papers".to_string(),
            "map3d".to_string(),
            "--id".to_string(),
            "arxiv:1706.03762".to_string(),
            "--k".to_string(),
            "22".to_string(),
            "--seed".to_string(),
            "7".to_string(),
        ]
    );

    let graph_defaults = Params::new();
    let (graph_argv, _) = jarvis_desktop::templates::build_template_args(
        "TEMPLATE_GRAPH",
        "pmid:12345678",
        &graph_defaults,
    )
    .expect("build graph args failed");
    assert_eq!(
        graph_argv,
        vec![
            "papers".to_string(),
            "map3d".to_string(),
            "--id".to_string(),
            "pmid:12345678".to_string(),
            "--k".to_string(),
            "40".to_string(),
            "--seed".to_string(),
            "42".to_string(),
        ]
    );
}

#[test]
fn get_pipeline_returns_a_faithful_copy() {
    let ps = vec![pipeline(
        "pipe_h",
        vec![step("step_01_template_tree", "TEMPLATE_TREE", PipelineStepStatus::Pending, None)],
        0,
        PipelineStatus::Running,
    )];
    let got = jarvis_desktop::pipeline::get_pipeline(&ps, "pipe_h").expect("get");
    assert_eq!(got.pipeline_id, "pipe_h");
    assert_eq!(got.steps.len(), 1);
    assert_eq!(got.steps[0].step_id, "step_01_template_tree");
    let missing = jarvis_desktop::pipeline::get_pipeline(&ps, "pipe_zzz");
    assert!(matches!(missing.unwrap_err().kind, ErrorKind::NotFound));
}

#[test]
fn step_retry_errors_name_their_cause() {
    let mut ps = vec![pipeline(
        "pipe_i",
        vec![step("step_01_template_tree", "TEMPLATE_TREE", PipelineStepStatus::Running, Some("job_1"))],
        0,
        PipelineStatus::Running,
    )];
    let no_pipe = retry_pipeline_step(&mut ps, "pipe_zzz", "step_01_template_tree", false, 5);
    assert!(matches!(no_pipe.unwrap_err().kind, ErrorKind::NotFound));

    let no_step = retry_pipeline_step(&mut ps, "pipe_i", "step_99_nothing", false, 5);
    assert!(matches!(no_step.unwrap_err().kind, ErrorKind::NotFound));

    let not_retryable = retry_pipeline_step(&mut ps, "pipe_i", "step_01_template_tree", false, 5);
    assert!(matches!(not_retryable.unwrap_err().kind, ErrorKind::PreconditionFailed));
    assert_eq!(ps[0].steps[0].status, PipelineStepStatus::Running);
}

#[test]
fn tick_fails_only_when_the_step_retry_path_refuses() {
    // the eligible job is bound to a step the pipeline still shows as
    // Running (not yet reconciled), so the dispatch is refused
    let mut settings = DesktopSettings::default();
    settings.auto_retry_enabled = true;
    let mut jobs = empty_state();
    let mut j = job("job_bound", JobStatus::NeedsRetry, 1, 1);
    j.retry_at = Some(10);
    jobs.jobs.push(j);
    let mut ps = vec![pipeline(
        "pipe_j",
        vec![step("step_01_template_tree", "TEMPLATE_TREE", PipelineStepStatus::Running, Some("job_bound"))],
        0,
        PipelineStatus::Running,
    )];
    let refused = tick_auto_retry(&mut jobs, &mut ps, &settings, 1000);
    assert!(matches!(refused.unwrap_err().kind, ErrorKind::PreconditionFailed));
    assert_eq!(jobs.jobs[0].status, JobStatus::NeedsRetry);

    // once reconciliation has mirrored the failure onto the step, the same
    // tick dispatches through the step-retry path
    ps[0].steps[0].status = PipelineStepStatus::NeedsRetry;
    ps[0].status = PipelineStatus::NeedsRetry;
    let (res, audit) = tick_auto_retry(&mut jobs, &mut ps, &settings, 1000).expect("tick");
    assert!(res.acted);
    assert_eq!(res.pipeline_id.as_deref(), Some("pipe_j"));
    assert_eq!(ps[0].status, PipelineStatus::Running);
    assert_eq!(ps[0].steps[0].status, PipelineStepStatus::Pending);
    assert!(ps[0].steps[0].job_id.is_none());
    assert_eq!(ps[0].auto_retry_attempt_count, 1);
    let bound = jobs.jobs.iter().find(|x| x.job_id == "job_bound").unwrap();
    assert_eq!(bound.auto_retry_attempt_count, 1);
    assert_eq!(bound.status, JobStatus::NeedsRetry);
    let entry = audit.expect("audit entry");
    assert_eq!(entry.pipeline_id.as_deref(), Some("pipe_j"));
}

#[test]
fn tick_keeps_filled_schedules_when_it_dispatches() {
    let mut settings = DesktopSettings::default();
    settings.auto_retry_enabled = true;
    settings.auto_retry_base_delay_seconds = 10;
    settings.auto_retry_max_delay_seconds = 25;

    let mut jobs = empty_state();
    let mut ready = job("job_ready", JobStatus::NeedsRetry, 1, 1);
    ready.retry_at = Some(10);
    jobs.jobs.push(ready);
    // this one gets its schedule written by the same tick that dispatches
    jobs.jobs.push(job("job_unscheduled", JobStatus::NeedsRetry, 2, 2));

    let mut ps: Vec<PipelineRecord> = vec![];
    let (res, _) = tick_auto_retry(&mut jobs, &mut ps, &settings, 2000).expect("tick");
    assert!(res.acted);
    assert_eq!(res.job_id.as_deref(), Some("job_ready"));
    let other = jobs.jobs.iter().find(|x| x.job_id == "job_unscheduled").unwrap();
    assert_eq!(other.retry_at, Some(2000 + 10_000));
    assert_eq!(other.status, JobStatus::NeedsRetry);
}

#[test]
fn reconcile_starts_at_most_one_job_per_pipeline() {
    let mut jobs = empty_state();
    let mut ps = vec![
        pipeline(
            "pipe_k",
            vec![
                step("step_01_template_tree", "TEMPLATE_TREE", PipelineStepStatus::Pending, None),
                step("step_02_template_related", "TEMPLATE_RELATED", PipelineStepStatus::Pending, None),
            ],
            0,
            PipelineStatus::Running,
        ),
        pipeline(
            "pipe_l",
            vec![step("step_01_template_graph", "TEMPLATE_GRAPH", PipelineStepStatus::Pending, None)],
            0,
            PipelineStatus::Running,
        ),
    ];
    let _ = reconcile_pipelines(&mut ps, &mut jobs, 100);
    // one job per pipeline, never more
    assert_eq!(jobs.jobs.len(), 2);
    assert_eq!(jobs.next_job_seq, 2);
}
