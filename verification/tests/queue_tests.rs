use auto_tts_desktop::api::interactions_client::ApiError;
use auto_tts_desktop::models::segment::SegmentStatus;
use auto_tts_desktop::queue::worker::{
    actor_step, build_snapshot, calculate_backoff_delay, empty_snapshot, finished_outcome,
    is_error_retryable, new_actor_state, pacing_delay_ms, plan_synthesis_failure, progress_event, retry_delay_from,
    retry_wait_ms, QueueCommand, QueueState, WorkerOutcome, WORKER_COUNT,
};
use auto_tts_desktop::queue::worker_loop::{exit_outcome, new_worker_state, worker_step, WorkerAction, WorkerEvent, WorkerExit};
use auto_tts_desktop::storage::project_repo::SegmentRecord;

#[test]
fn test_retry_classification() {
    assert!(is_error_retryable(&ApiError::RateLimited(Some(30))));
    assert!(is_error_retryable(&ApiError::NetworkError("Timeout".to_string())));
    assert!(is_error_retryable(&ApiError::ApiServerError(500, "Internal Server Error".to_string())));
    assert!(is_error_retryable(&ApiError::ApiServerError(503, "Service Unavailable".to_string())));

    assert!(!is_error_retryable(&ApiError::Unauthorized));
    assert!(!is_error_retryable(&ApiError::MissingAudio));
    assert!(!is_error_retryable(&ApiError::ApiServerError(400, "Bad Request".to_string())));
    assert!(!is_error_retryable(&ApiError::ApiServerError(403, "Forbidden".to_string())));
}

#[test]
fn test_exponential_backoff_calculation() {
    let rate_limit_header = ApiError::RateLimited(Some(45));
    assert_eq!(calculate_backoff_delay(&rate_limit_header, 0), 45);

    let rate_limit_no_header = ApiError::RateLimited(None);
    assert_eq!(calculate_backoff_delay(&rate_limit_no_header, 0), 10);

    let net_err = ApiError::NetworkError("Connect failed".to_string());
    assert_eq!(calculate_backoff_delay(&net_err, 0), 2);
    assert_eq!(calculate_backoff_delay(&net_err, 1), 4);
    assert_eq!(calculate_backoff_delay(&net_err, 2), 8);
}

fn seg(status: SegmentStatus, rev: u64) -> SegmentRecord {
    SegmentRecord {
        id: String::new(),
        project_id: "p".to_string(),
        position: 1,
        text: String::new(),
        prompt: String::new(),
        status,
        attempts: 0,
        audio_path: None,
        duration_ms: 0,
        error_code: None,
        error_message: None,
        created_at: String::new(),
        updated_at: String::new(),
        fingerprint: None,
        output_fingerprint: None,
        attempt_count: 0,
        next_retry_at: None,
        queued_at: None,
        started_at: None,
        finished_at: None,
        lease_owner: None,
        lease_expires_at: None,
        last_error_code: None,
        last_error_message: None,
        cancel_requested: false,
        state_revision: rev,
        output_size: 0,
        voice: None,
        review_status: None,
        reviewed_output_fingerprint: None,
    }
}

#[test]
fn snapshot_counts_and_state() {
    let segs = vec![seg(SegmentStatus::Success, 3), seg(SegmentStatus::Approved, 9), seg(SegmentStatus::Failed, 1)];
    let s = build_snapshot("p", &segs, None);
    assert_eq!(s.total_segments, 3);
    assert_eq!(s.completed_segments, 2);
    assert_eq!(s.failed_segments, 1);
    assert_eq!(s.pending_segments, 0);
    assert_eq!(s.snapshot_revision, 9);
    assert_eq!(s.queue_state, QueueState::Failed);
    let done = vec![seg(SegmentStatus::Success, 0)];
    assert_eq!(build_snapshot("p", &done, None).queue_state, QueueState::Completed);
    let idle = vec![seg(SegmentStatus::Pending, 0)];
    assert_eq!(build_snapshot("p", &idle, None).queue_state, QueueState::Idle);
    assert_eq!(build_snapshot("p", &idle, Some(QueueState::Paused)).queue_state, QueueState::Paused);
    assert_eq!(empty_snapshot("p", None).queue_state, QueueState::Idle);
}

#[test]
fn actor_enqueue_is_idempotent_and_cancel_clears() {
    let mut st = new_actor_state();
    let a = actor_step(&mut st, QueueCommand::EnqueueProject { project_id: "p".to_string() });
    assert_eq!(a.spawn_workers, WORKER_COUNT);
    assert!(a.mark_segments_queued && a.new_token && !a.cancel_token);
    let again = actor_step(&mut st, QueueCommand::EnqueueProject { project_id: "p".to_string() });
    assert_eq!(again.spawn_workers, 0);
    assert_eq!(again.snapshot_state, Some(Some(QueueState::Running)));
    let p = actor_step(&mut st, QueueCommand::PauseProject { project_id: "p".to_string() });
    assert!(p.cancel_token && st.paused && !st.has_token);
    let snap = actor_step(&mut st, QueueCommand::GetSnapshot { project_id: "p".to_string() });
    assert_eq!(snap.snapshot_state, Some(Some(QueueState::Paused)));
    let r = actor_step(&mut st, QueueCommand::ResumeProject { project_id: "p".to_string() });
    assert_eq!(r.spawn_workers, WORKER_COUNT);
    let c = actor_step(&mut st, QueueCommand::CancelProject { project_id: "p".to_string() });
    assert!(c.cancel_token);
    assert_eq!(c.snapshot_state, Some(Some(QueueState::Cancelled)));
    assert!(st.current_project.is_none());
    let f = actor_step(
        &mut st,
        QueueCommand::WorkerFinished { project_id: "p".to_string(), outcome: WorkerOutcome::Completed },
    );
    assert_eq!(f.snapshot_state, None);
}

#[test]
fn failure_plans() {
    let p = plan_synthesis_failure(ApiError::RateLimitedDaily, 0, 0, 2, 1_000, 0);
    assert_eq!(p.status, SegmentStatus::RetryWait);
    assert_eq!(p.next_retry_at, Some(1_000));
    assert!(p.mark_key_daily_exhausted && p.continue_at_once && !p.pause_a_minute);
    assert_eq!(p.error_code, "DAILY_QUOTA_EXHAUSTED");
    let p2 = plan_synthesis_failure(ApiError::RateLimitedDaily, 0, 1, 2, 1_000, 0);
    assert!(p2.pause_a_minute);

    let p3 = plan_synthesis_failure(ApiError::RateLimited(Some(20)), 1, 3, 1, 10_000, 200);
    assert_eq!(p3.next_retry_at, Some(10_000 + 20_000 + 700));
    assert_eq!(p3.key_cooldown_secs, Some(20));
    assert_eq!(p3.consecutive_quota_errors, 0);
    assert_eq!(p3.error_message, "Đã đạt giới hạn tốc độ yêu cầu (Rate Limit 429). Đang chờ thử lại sau 20s...");

    let p4 = plan_synthesis_failure(ApiError::Unauthorized, 0, 0, 1, 0, 0);
    assert_eq!(p4.status, SegmentStatus::Failed);
    assert_eq!(p4.error_code, "AUTH_INVALID");

    let p5 = plan_synthesis_failure(ApiError::NetworkError("down".to_string()), 2, 0, 1, 0, 1000);
    assert_eq!(p5.next_retry_at, Some(8_500));
    assert_eq!(p5.error_message, "Lỗi kết nối API Google: Network connectivity error: down");
    assert_eq!(plan_synthesis_failure(ApiError::NetworkError("down".to_string()), 3, 0, 1, 0, 0).status, SegmentStatus::Failed);
}

#[test]
fn non_retryable_failures_fail_at_once() {
    for cause in [ApiError::MissingAudio, ApiError::ApiServerError(400, "Bad Request".to_string()), ApiError::EmptyResponse] {
        let p = plan_synthesis_failure(cause, 0, 0, 1, 0, 0);
        assert_eq!(p.status, SegmentStatus::Failed);
        assert_eq!(p.next_retry_at, None);
    }
    let p = plan_synthesis_failure(ApiError::ApiServerError(503, "Unavailable".to_string()), 0, 0, 1, 5_000, 999);
    assert_eq!(p.status, SegmentStatus::RetryWait);
    assert_eq!(p.next_retry_at, Some(5_000 + 2_000 + 1_499));
}

#[test]
fn worker_end_and_pacing() {
    match finished_outcome(3, 2, 1) {
        WorkerOutcome::Failed(m) => assert_eq!(m, "Queue finished with 1 failed segments"),
        _ => panic!(),
    }
    assert!(matches!(finished_outcome(3, 1, 1), WorkerOutcome::Completed));
    assert_eq!(retry_wait_ms(5), 100);
    assert_eq!(retry_wait_ms(5_000), 2_000);
    assert_eq!(retry_wait_ms(700), 700);
    assert_eq!(pacing_delay_ms(0), 4100);
    assert_eq!(pacing_delay_ms(4), 1025);
    assert_eq!(pacing_delay_ms(10), 500);
    assert_eq!(retry_delay_from(1_500, 1_000), 500);
    assert_eq!(retry_delay_from(500, 1_000), 0);
}

#[test]
fn worker_leaves_when_cancelled_or_without_database() {
    let s = new_worker_state();
    let (_, a) = worker_step(&s, WorkerEvent::Ready { cancelled: true, database_open: true });
    assert_eq!(a, WorkerAction::Finish(WorkerExit::Cancelled));
    let (_, a) = worker_step(&s, WorkerEvent::Ready { cancelled: false, database_open: false });
    assert_eq!(a, WorkerAction::Finish(WorkerExit::DatabaseOffline));
    assert!(matches!(exit_outcome(WorkerExit::DatabaseOffline), WorkerOutcome::Failed(m) if m == "Database offline"));
    let (_, a) = worker_step(&s, WorkerEvent::Ready { cancelled: false, database_open: true });
    assert_eq!(a, WorkerAction::ClaimTask);
}

#[test]
fn worker_waits_for_pending_retries_then_finishes() {
    let s = new_worker_state();
    let ev = |at: Option<i64>| WorkerEvent::NothingClaimable {
        earliest_retry_at: at,
        now_ms: 10_000,
        total: 3,
        completed: 2,
        failed: 1,
    };
    assert_eq!(worker_step(&s, ev(Some(10_050))).1, WorkerAction::Wait(100));
    assert_eq!(worker_step(&s, ev(Some(11_500))).1, WorkerAction::Wait(1500));
    assert_eq!(worker_step(&s, ev(Some(60_000))).1, WorkerAction::Wait(2000));
    assert_eq!(worker_step(&s, ev(Some(5_000))).1, WorkerAction::Wait(100));
    let (_, a) = worker_step(&s, ev(None));
    assert_eq!(a, WorkerAction::Finish(WorkerExit::QueueDrained { total: 3, completed: 2, failed: 1 }));
    assert!(matches!(
        exit_outcome(WorkerExit::QueueDrained { total: 3, completed: 2, failed: 1 }),
        WorkerOutcome::Failed(m) if m == "Queue finished with 1 failed segments"
    ));
    assert!(matches!(
        exit_outcome(WorkerExit::QueueDrained { total: 3, completed: 3, failed: 0 }),
        WorkerOutcome::Completed
    ));
    assert_eq!(worker_step(&s, WorkerEvent::ClaimFailed).1, WorkerAction::Wait(500));
}

#[test]
fn worker_gives_back_a_task_without_key_or_after_cancel() {
    let s = new_worker_state();
    assert_eq!(
        worker_step(&s, WorkerEvent::Claimed { has_key: false, cancelled: false }).1,
        WorkerAction::ReleaseTask { requeue: false }
    );
    assert_eq!(
        worker_step(&s, WorkerEvent::Claimed { has_key: true, cancelled: true }).1,
        WorkerAction::ReleaseTask { requeue: true }
    );
    assert_eq!(worker_step(&s, WorkerEvent::Claimed { has_key: true, cancelled: false }).1, WorkerAction::Synthesize);
    assert_eq!(
        worker_step(&s, WorkerEvent::TaskReleased { requeued: false }).1,
        WorkerAction::Finish(WorkerExit::MissingKey)
    );
    assert!(matches!(exit_outcome(WorkerExit::MissingKey), WorkerOutcome::Failed(m) if m == "Missing Gemini API Key"));
    assert_eq!(
        worker_step(&s, WorkerEvent::TaskReleased { requeued: true }).1,
        WorkerAction::Finish(WorkerExit::Cancelled)
    );
}

#[test]
fn worker_counts_quota_failures_until_a_commit() {
    let s = new_worker_state();
    let (s, a) = worker_step(&s, WorkerEvent::FailureHandled { continue_at_once: true, consecutive_quota_errors: 2 });
    assert_eq!((s.consecutive_quota_errors, a), (2, WorkerAction::StartOver));
    let (s, a) = worker_step(&s, WorkerEvent::OutputCommitted { committed: Some(false) });
    assert_eq!((s.consecutive_quota_errors, a), (2, WorkerAction::RemoveStaleOutput));
    assert_eq!(worker_step(&s, WorkerEvent::StaleOutputRemoved).1, WorkerAction::Pace);
    let (s, a) = worker_step(&s, WorkerEvent::OutputCommitted { committed: Some(true) });
    assert_eq!((s.consecutive_quota_errors, a), (0, WorkerAction::Pace));
    assert_eq!(worker_step(&s, WorkerEvent::Paced { cancelled: true }).1, WorkerAction::Finish(WorkerExit::Cancelled));
    assert_eq!(worker_step(&s, WorkerEvent::Paced { cancelled: false }).1, WorkerAction::StartOver);
}

#[test]
fn progress_events_of_a_claimed_segment() {
    let task = seg(SegmentStatus::Processing, 7);
    let p = progress_event("proj_1", 3, &task, 10, 4, false);
    assert_eq!(p.stream_id, "stream-proj_1");
    assert_eq!((p.sequence, p.project_id.as_str(), p.status.as_str(), p.revision), (3, "proj_1", "processing", 7));
    assert_eq!(p.segment_id, Some(task.id.clone()));
    assert_eq!((p.position, p.total_segments, p.completed_segments), (task.position, 10, 4));
    assert_eq!(p.error_message, None);
    let done = progress_event("proj_1", 4, &task, 10, 5, true);
    assert_eq!((done.status.as_str(), done.revision, done.completed_segments), ("success", 8, 5));
}
