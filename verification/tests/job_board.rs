use stock_crawler::job_board::{
    find_active_job, prune_finished_jobs, BackfillJob, BackfillJobStatus, JobBoard, JobOutcome,
    StartJobError, MAX_CONCURRENT_JOBS, MAX_FINISHED_JOBS_RETAINED,
};
use stock_crawler::rpc::to_grpc_job;

fn make_job(id: &str, started_at: &str, status: BackfillJobStatus) -> BackfillJob {
    BackfillJob {
        id: id.to_string(),
        kind: "test_kind".to_string(),
        input: "input".to_string(),
        status,
        message: String::new(),
        started_at: started_at.to_string(),
        finished_at: None,
    }
}

#[test]
fn prune_finished_jobs_removes_oldest_finished_only() {
    let mut jobs = Vec::new();
    let total_finished = MAX_FINISHED_JOBS_RETAINED + 2;
    for i in 0..total_finished {
        let id = format!("finished-{i:04}");
        let started_at = format!("2026-07-10T00:00:00.{i:04}+08:00");
        jobs.push(make_job(&id, &started_at, BackfillJobStatus::Succeeded));
    }
    jobs.push(make_job(
        "running-oldest",
        "2026-07-09T00:00:00+08:00",
        BackfillJobStatus::Running,
    ));

    prune_finished_jobs(&mut jobs);

    let finished_count = jobs
        .iter()
        .filter(|j| !matches!(j.status, BackfillJobStatus::Running))
        .count();
    assert_eq!(finished_count, MAX_FINISHED_JOBS_RETAINED);
    assert!(jobs.iter().any(|j| j.id == "running-oldest"));
    assert!(!jobs.iter().any(|j| j.id == "finished-0000"));
    assert!(!jobs.iter().any(|j| j.id == "finished-0001"));
}

#[test]
fn find_active_job_matches_running_same_kind_and_input() {
    let jobs = vec![
        make_job("done", "2026-07-10T00:00:00+08:00", BackfillJobStatus::Succeeded),
        make_job("running", "2026-07-10T00:00:01+08:00", BackfillJobStatus::Running),
    ];
    assert_eq!(
        find_active_job(&jobs, "test_kind", "input"),
        Some("running".to_string())
    );
    assert_eq!(find_active_job(&jobs, "test_kind", "other"), None);
    assert_eq!(find_active_job(&jobs, "other_kind", "input"), None);
}

#[test]
fn started_job_is_running_and_queued() {
    let mut board = JobBoard::new();
    let job = board
        .start_at("test_success", "input".to_string(), "20260815000000", "2026-08-15T00:00:00+08:00".to_string())
        .expect("job should start");
    assert_eq!(job.id, "20260815000000-1");
    assert_eq!(job.status_label(), "running");
    assert_eq!(job.message, "queued");
    assert!(job.finished_at.is_none());
    let second = board
        .start_at("test_success", "other".to_string(), "20260815000000", "2026-08-15T00:00:01+08:00".to_string())
        .expect("job should start");
    assert_eq!(second.id, "20260815000000-2");
}

#[test]
fn succeeded_job_keeps_the_summary_message() {
    let mut board = JobBoard::new();
    let job = board
        .start("test_success", "input".to_string())
        .expect("job should start");
    assert_eq!(job.status_label(), "running");
    assert_eq!(job.message, "queued");
    board.finish(
        &job.id,
        JobOutcome::Succeeded { message: "rows_inserted=42".to_string() },
        "2026-08-15T00:00:02+08:00".to_string(),
    );
    let finished = board.get(&job.id).expect("job should remain queryable");
    assert_eq!(finished.status_label(), "succeeded");
    assert_eq!(finished.message, "rows_inserted=42");
    assert_eq!(finished.finished_at.as_deref(), Some("2026-08-15T00:00:02+08:00"));
}

#[test]
fn failed_job_records_the_error_chain() {
    let mut board = JobBoard::new();
    let job = board
        .start("test_failure", "input".to_string())
        .expect("job should start");
    board.finish(
        &job.id,
        JobOutcome::Failed { message: "回補流程中止: 外層失敗".to_string() },
        "t".to_string(),
    );
    let finished = board.get(&job.id).expect("job should remain queryable");
    assert_eq!(finished.status_label(), "failed");
    assert!(finished.message.contains("回補流程中止"));
    assert!(finished.message.contains("外層失敗"));
}

#[test]
fn job_times_out_and_is_marked_failed() {
    let mut board = JobBoard::new();
    let job = board
        .start("test_timeout", "input".to_string())
        .expect("job should start");
    board.finish(&job.id, JobOutcome::TimedOut { seconds: 3600 }, "t".to_string());
    let finished = board.get(&job.id).expect("job should remain queryable");
    assert_eq!(finished.status_label(), "failed");
    assert_eq!(finished.message, "job timed out after 3600 seconds");
}

#[test]
fn duplicate_active_job_is_rejected() {
    let mut board = JobBoard::new();
    let first = board
        .start("test_dup", "2026-01-01".to_string())
        .expect("first job should start");
    match board.start("test_dup", "2026-01-01".to_string()) {
        Err(StartJobError::DuplicateActiveJob { existing_id }) => assert_eq!(existing_id, first.id),
        other => panic!("expected DuplicateActiveJob, got {other:?}"),
    }
    board
        .start("test_dup", "2026-01-02".to_string())
        .expect("different input should start");
    board.finish(&first.id, JobOutcome::Succeeded { message: "done".to_string() }, "t".to_string());
    board
        .start("test_dup", "2026-01-01".to_string())
        .expect("same input should start after previous job finished");
}

#[test]
fn too_many_active_jobs_is_rejected() {
    let mut board = JobBoard::new();
    let mut ids = Vec::new();
    for i in 0..MAX_CONCURRENT_JOBS {
        let job = board
            .start("test_limit", format!("input-{i}"))
            .expect("job within limit should start");
        ids.push(job.id);
    }
    match board.start("test_limit", "input-overflow".to_string()) {
        Err(StartJobError::TooManyActiveJobs { max }) => assert_eq!(max, MAX_CONCURRENT_JOBS),
        other => panic!("job beyond limit should be rejected, got {other:?}"),
    }
    board.finish(&ids[0], JobOutcome::Succeeded { message: "done".to_string() }, "t".to_string());
    board
        .start("test_limit", "input-after".to_string())
        .expect("job should start after slots are released");
}

#[test]
fn unknown_job_is_not_found_and_finish_is_ignored() {
    let mut board = JobBoard::new();
    assert!(board.get("nope").is_none());
    board.finish("nope", JobOutcome::TimedOut { seconds: 1 }, "t".to_string());
    assert!(board.list().is_empty());
}

#[test]
fn list_is_newest_first() {
    let mut board = JobBoard::new();
    for (input, at) in [("a", "2026-01-01T00:00:02+08:00"), ("b", "2026-01-01T00:00:01+08:00"), ("c", "2026-01-01T00:00:03+08:00")] {
        board
            .start_at("k", input.to_string(), "20260101000000", at.to_string())
            .expect("job should start");
    }
    let inputs: Vec<String> = board.list().into_iter().map(|j| j.input).collect();
    assert_eq!(inputs, vec!["c".to_string(), "a".to_string(), "b".to_string()]);
}

#[test]
fn board_keeps_at_most_the_retained_finished_jobs() {
    let mut board = JobBoard::new();
    for i in 0..(MAX_FINISHED_JOBS_RETAINED + 5) {
        let job = board
            .start_at("k", format!("in-{i}"), "20260101000000", format!("2026-01-01T00:00:00.{i:04}+08:00"))
            .expect("job should start");
        board.finish(&job.id, JobOutcome::Succeeded { message: "ok".to_string() }, "t".to_string());
    }
    let running = board
        .start_at("k", "last".to_string(), "20260101000000", "2026-01-02T00:00:00+08:00".to_string())
        .expect("job should start");
    let jobs = board.list();
    assert_eq!(jobs.len(), MAX_FINISHED_JOBS_RETAINED + 1);
    assert_eq!(jobs[0].id, running.id);
    assert!(board.get("20260101000000-1").is_none());
}

#[test]
fn grpc_job_uses_labels_and_empty_finish_time() {
    let job = make_job("id-1", "2026-07-10T00:00:00+08:00", BackfillJobStatus::Running);
    let g = to_grpc_job(job);
    assert_eq!(g.status, "running");
    assert_eq!(g.finished_at, "");
    let mut done = make_job("id-2", "s", BackfillJobStatus::Failed);
    done.finished_at = Some("f".to_string());
    let g = to_grpc_job(done);
    assert_eq!(g.status, "failed");
    assert_eq!(g.finished_at, "f");
}

/// The concurrency limit frees a slot as soon as a running job finishes.
#[test]
fn job_slots_enforce_concurrency_limit() {
    let mut board = JobBoard::new();
    let mut ids = Vec::new();
    for i in 0..MAX_CONCURRENT_JOBS {
        ids.push(
            board
                .start("test_slots", format!("input-{i}"))
                .expect("a slot should be free")
                .id,
        );
    }
    assert!(matches!(
        board.start("test_slots", "one-more".to_string()),
        Err(StartJobError::TooManyActiveJobs { max }) if max == MAX_CONCURRENT_JOBS
    ));

    let last = ids.pop().expect("a running job");
    board.finish(&last, JobOutcome::Succeeded { message: "done".to_string() }, "2026-01-01T00:00:00+08:00".to_string());
    assert!(board.start("test_slots", "one-more".to_string()).is_ok());
}

#[test]
fn board_ids_are_unique() {
    let mut board = JobBoard::new();
    for i in 0..10 {
        let job = board
            .start_at("k", format!("in-{i}"), "20260101000000", format!("2026-01-01T00:00:0{i}+08:00"))
            .expect("starts");
        board.finish(&job.id, JobOutcome::Succeeded { message: "done".to_string() }, "t".to_string());
    }
    let ids: Vec<String> = board.list().into_iter().map(|j| j.id).collect();
    let mut sorted = ids.clone();
    sorted.sort();
    sorted.dedup();
    assert_eq!(sorted.len(), ids.len());
    assert!(ids.iter().any(|id| id == "20260101000000-1"));
    assert!(ids.iter().any(|id| id == "20260101000000-10"));
}
