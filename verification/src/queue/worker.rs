//! Decisions of the generation queue: the actor that owns the current project,
//! the snapshot of a project's progress, and what a worker does after a failed
//! or finished call. Running the workers, sleeping and talking to the database
//! are the caller's business; it performs the actions these functions return.
use vstd::prelude::*;
use crate::api::interactions_client::{api_error_message, ApiError};
use crate::api::provider::{api_error_debug, api_error_debug_text, ProviderError};
use crate::models::segment::SegmentStatus;
use crate::storage::project_repo::SegmentRecord;
use crate::textseq::{chars_to_string, contains_chars, contains_seq, dec, push_dec, push_dec_usize, push_str, str_eq, str_to_chars};

verus! {

/// The state of a project's queue as the interface shows it.
#[derive(Debug, Clone, Copy, PartialEq, Eq, Structural)]
pub enum QueueState {
    Idle,
    Running,
    Paused,
    Completed,
    Cancelled,
    Failed,
}

/// How a worker loop ended.
#[derive(Debug)]
pub enum WorkerOutcome {
    Completed,
    Cancelled,
    Failed(String),
}

/// Progress of one segment, as emitted to the interface.
#[derive(Debug)]
pub struct QueueProgressEvent {
    pub stream_id: String,
    pub sequence: u64,
    pub project_id: String,
    pub segment_id: Option<String>,
    pub position: usize,
    pub total_segments: usize,
    pub completed_segments: usize,
    pub status: String,
    pub revision: u64,
    pub error_message: Option<String>,
}

/// Counts of a project's segments and the state of its queue.
#[derive(Debug)]
pub struct QueueSnapshot {
    pub project_id: String,
    pub queue_state: QueueState,
    pub total_segments: usize,
    pub completed_segments: usize,
    pub failed_segments: usize,
    pub pending_segments: usize,
    pub snapshot_revision: u64,
}

/// The progress event of a claimed segment on the project's stream
/// (`stream-` and the project's id): `processing` at the segment's revision
/// when claimed, `success` at the next revision once its audio is committed.
pub fn progress_event(
    project_id: &str,
    sequence: u64,
    task: &SegmentRecord,
    total_segments: usize,
    completed_segments: usize,
    committed: bool,
) -> (r: QueueProgressEvent)
    requires
        committed ==> task.state_revision < u64::MAX,
    ensures
        r.stream_id@ == "stream-"@ + project_id@,
        r.sequence == sequence,
        r.project_id@ == project_id@,
        r.segment_id matches Some(id) && id@ == task.id@,
        r.position == task.position,
        r.total_segments == total_segments,
        r.completed_segments == completed_segments,
        r.status@ == if committed {
            "success"@
        } else {
            "processing"@
        },
        r.revision == task.state_revision + if committed {
            1int
        } else {
            0int
        },
        r.error_message is None,
{
    let mut stream: Vec<char> = Vec::new();
    push_str(&mut stream, "stream-");
    push_str(&mut stream, project_id);
    let status = if committed {
        "success".to_string()
    } else {
        "processing".to_string()
    };
    QueueProgressEvent {
        stream_id: chars_to_string(stream.as_slice()),
        sequence,
        project_id: project_id.to_string(),
        segment_id: Some(task.id.clone()),
        position: task.position,
        total_segments,
        completed_segments,
        status,
        revision: if committed {
            task.state_revision + 1
        } else {
            task.state_revision
        },
        error_message: None,
    }
}

// ---------------------------------------------------------------------------
// Snapshot
// ---------------------------------------------------------------------------

pub open spec fn is_done(s: SegmentStatus) -> bool {
    s == SegmentStatus::Success || s == SegmentStatus::Approved
}

/// Number of finished (succeeded or approved) segments.
pub open spec fn count_done(segs: Seq<SegmentRecord>) -> nat
    decreases segs.len(),
{
    if segs.len() == 0 {
        0
    } else {
        count_done(segs.drop_last()) + if is_done(segs.last().status) {
            1nat
        } else {
            0nat
        }
    }
}

/// Number of failed segments.
pub open spec fn count_failed(segs: Seq<SegmentRecord>) -> nat
    decreases segs.len(),
{
    if segs.len() == 0 {
        0
    } else {
        count_failed(segs.drop_last()) + if segs.last().status == SegmentStatus::Failed {
            1nat
        } else {
            0nat
        }
    }
}

/// Highest state revision among the segments (0 for none).
pub open spec fn max_revision(segs: Seq<SegmentRecord>) -> u64
    decreases segs.len(),
{
    if segs.len() == 0 {
        0
    } else {
        let m = max_revision(segs.drop_last());
        if segs.last().state_revision > m {
            segs.last().state_revision
        } else {
            m
        }
    }
}

proof fn lemma_counts_bounded(segs: Seq<SegmentRecord>)
    ensures
        count_done(segs) + count_failed(segs) <= segs.len(),
    decreases segs.len(),
{
    if segs.len() > 0 {
        lemma_counts_bounded(segs.drop_last());
    }
}

/// The state shown for counts: the override where there is one; otherwise completed
/// when every segment succeeded, failed when the rest failed, idle else.
pub open spec fn derived_state(total: nat, done: nat, failed: nat, over: Option<QueueState>) -> QueueState {
    match over {
        Some(st) => st,
        None => {
            let pending = total - (done + failed);
            if pending == 0 && total > 0 && failed == 0 {
                QueueState::Completed
            } else if failed > 0 && pending == 0 {
                QueueState::Failed
            } else {
                QueueState::Idle
            }
        },
    }
}

/// The snapshot of a project whose segments are `segments`.
pub fn build_snapshot(project_id: &str, segments: &[SegmentRecord], override_state: Option<QueueState>) -> (r:
    QueueSnapshot)
    ensures
        r.project_id@ == project_id@,
        r.total_segments == segments@.len(),
        r.completed_segments == count_done(segments@),
        r.failed_segments == count_failed(segments@),
        r.pending_segments == segments@.len() - count_done(segments@) - count_failed(segments@),
        r.snapshot_revision == max_revision(segments@),
        r.queue_state == derived_state(
            segments@.len(),
            count_done(segments@),
            count_failed(segments@),
            override_state,
        ),
{
    let mut done: usize = 0;
    let mut failed: usize = 0;
    let mut max_rev: u64 = 0;
    let mut i: usize = 0;
    while i < segments.len()
        invariant
            0 <= i <= segments@.len(),
            done == count_done(segments@.take(i as int)),
            failed == count_failed(segments@.take(i as int)),
            max_rev == max_revision(segments@.take(i as int)),
            done + failed <= i,
        decreases segments@.len() - i,
    {
        proof {
            assert(segments@.take(i + 1).drop_last() =~= segments@.take(i as int));
        }
        let st = segments[i].status;
        if st == SegmentStatus::Success || st == SegmentStatus::Approved {
            done = done + 1;
        } else if st == SegmentStatus::Failed {
            failed = failed + 1;
        }
        if segments[i].state_revision > max_rev {
            max_rev = segments[i].state_revision;
        }
        i = i + 1;
    }
    proof {
        assert(segments@.take(segments@.len() as int) =~= segments@);
    }
    let total = segments.len();
    let pending = total - (done + failed);
    let queue_state = match override_state {
        Some(st) => st,
        None => {
            if pending == 0 && total > 0 && failed == 0 {
                QueueState::Completed
            } else if failed > 0 && pending == 0 {
                QueueState::Failed
            } else {
                QueueState::Idle
            }
        },
    };
    QueueSnapshot {
        project_id: project_id.to_owned(),
        queue_state,
        total_segments: total,
        completed_segments: done,
        failed_segments: failed,
        pending_segments: pending,
        snapshot_revision: max_rev,
    }
}

/// The snapshot when no database is open: no segments, idle unless overridden.
pub fn empty_snapshot(project_id: &str, override_state: Option<QueueState>) -> (r: QueueSnapshot)
    ensures
        r.project_id@ == project_id@,
        r.queue_state == match override_state {
            Some(st) => st,
            None => QueueState::Idle,
        },
        r.total_segments == 0 && r.completed_segments == 0 && r.failed_segments == 0,
        r.pending_segments == 0 && r.snapshot_revision == 0,
{
    QueueSnapshot {
        project_id: project_id.to_owned(),
        queue_state: match override_state {
            Some(st) => st,
            None => QueueState::Idle,
        },
        total_segments: 0,
        completed_segments: 0,
        failed_segments: 0,
        pending_segments: 0,
        snapshot_revision: 0,
    }
}

// ---------------------------------------------------------------------------
// The queue actor
// ---------------------------------------------------------------------------

/// Workers started for a project.
pub const WORKER_COUNT: usize = 2;

/// What the actor holds: the project being worked on, whether it is paused, and
/// whether a live cancellation token exists for its workers.
#[derive(Debug)]
pub struct QueueActorState {
    pub current_project: Option<String>,
    pub paused: bool,
    pub has_token: bool,
}

/// A request to the actor.
#[derive(Debug)]
pub enum QueueCommand {
    EnqueueProject { project_id: String },
    PauseProject { project_id: String },
    ResumeProject { project_id: String },
    CancelProject { project_id: String },
    GetSnapshot { project_id: String },
    WorkerFinished { project_id: String, outcome: WorkerOutcome },
}

/// What the caller performs after a command, in this order: cancel the old token,
/// mark the project's segments queued, make a new token, start workers, build a
/// snapshot with the given override and emit it and/or send it as the reply.
#[derive(Debug)]
pub struct ActorAction {
    pub cancel_token: bool,
    pub mark_segments_queued: bool,
    pub new_token: bool,
    pub spawn_workers: usize,
    pub snapshot_state: Option<Option<QueueState>>,
    pub emit_snapshot: bool,
    pub reply_with_snapshot: bool,
}

/// The actor's state, by views.
pub open spec fn actor_view(s: QueueActorState) -> (Option<Seq<char>>, bool, bool) {
    (
        match s.current_project {
            Some(p) => Some(p@),
            None => None,
        },
        s.paused,
        s.has_token,
    )
}

/// The command concerns the project being worked on.
pub open spec fn is_current(s: QueueActorState, pid: Seq<char>) -> bool {
    s.current_project matches Some(p) && p@ == pid
}

pub open spec fn no_action() -> ActorAction {
    ActorAction {
        cancel_token: false,
        mark_segments_queued: false,
        new_token: false,
        spawn_workers: 0,
        snapshot_state: None,
        emit_snapshot: false,
        reply_with_snapshot: false,
    }
}

/// The actor's transition: next state (by views) and the action.
pub open spec fn actor_transition(s: QueueActorState, cmd: QueueCommand) -> ((Option<Seq<char>>, bool, bool), ActorAction) {
    match cmd {
        QueueCommand::EnqueueProject { project_id } => if is_current(s, project_id@) && !s.paused {
            (
                actor_view(s),
                ActorAction {
                    snapshot_state: Some(Some(QueueState::Running)),
                    reply_with_snapshot: true,
                    ..no_action()
                },
            )
        } else {
            (
                (Some(project_id@), false, true),
                ActorAction {
                    cancel_token: s.has_token,
                    mark_segments_queued: true,
                    new_token: true,
                    spawn_workers: WORKER_COUNT,
                    snapshot_state: Some(Some(QueueState::Running)),
                    emit_snapshot: true,
                    reply_with_snapshot: true,
                },
            )
        },
        QueueCommand::PauseProject { project_id } => if is_current(s, project_id@) {
            (
                (actor_view(s).0, true, false),
                ActorAction {
                    cancel_token: s.has_token,
                    snapshot_state: Some(Some(QueueState::Paused)),
                    emit_snapshot: true,
                    ..no_action()
                },
            )
        } else {
            (actor_view(s), no_action())
        },
        QueueCommand::ResumeProject { project_id } => if is_current(s, project_id@) && s.paused {
            (
                (actor_view(s).0, false, true),
                ActorAction {
                    new_token: true,
                    spawn_workers: WORKER_COUNT,
                    snapshot_state: Some(Some(QueueState::Running)),
                    emit_snapshot: true,
                    ..no_action()
                },
            )
        } else {
            (actor_view(s), no_action())
        },
        QueueCommand::CancelProject { project_id } => if is_current(s, project_id@) {
            (
                (None, false, false),
                ActorAction {
                    cancel_token: s.has_token,
                    snapshot_state: Some(Some(QueueState::Cancelled)),
                    emit_snapshot: true,
                    ..no_action()
                },
            )
        } else {
            (actor_view(s), no_action())
        },
        QueueCommand::GetSnapshot { project_id } => (
            actor_view(s),
            ActorAction {
                snapshot_state: Some(
                    if is_current(s, project_id@) {
                        Some(if s.paused { QueueState::Paused } else { QueueState::Running })
                    } else {
                        None
                    },
                ),
                reply_with_snapshot: true,
                ..no_action()
            },
        ),
        QueueCommand::WorkerFinished { project_id, outcome } => if is_current(s, project_id@)
            && !s.paused {
            (
                (None, s.paused, false),
                ActorAction {
                    snapshot_state: Some(
                        Some(
                            match outcome {
                                WorkerOutcome::Completed => QueueState::Completed,
                                WorkerOutcome::Cancelled => QueueState::Cancelled,
                                WorkerOutcome::Failed(_) => QueueState::Failed,
                            },
                        ),
                    ),
                    emit_snapshot: true,
                    ..no_action()
                },
            )
        } else {
            (actor_view(s), no_action())
        },
    }
}

fn is_current_exec(s: &QueueActorState, pid: &String) -> (r: bool)
    ensures
        r == is_current(*s, pid@),
{
    match &s.current_project {
        Some(p) => str_eq(p.as_str(), pid.as_str()),
        None => false,
    }
}

/// One step of the queue actor.
pub fn actor_step(state: &mut QueueActorState, cmd: QueueCommand) -> (r: ActorAction)
    ensures
        (actor_view(*final(state)), r) == actor_transition(*old(state), cmd),
{
    match &cmd {
        QueueCommand::EnqueueProject { project_id } => {
            if is_current_exec(state, project_id) && !state.paused {
                return ActorAction {
                    cancel_token: false,
                    mark_segments_queued: false,
                    new_token: false,
                    spawn_workers: 0,
                    snapshot_state: Some(Some(QueueState::Running)),
                    emit_snapshot: false,
                    reply_with_snapshot: true,
                };
            }
            let cancel = state.has_token;
            state.current_project = Some(project_id.clone());
            state.paused = false;
            state.has_token = true;
            ActorAction {
                cancel_token: cancel,
                mark_segments_queued: true,
                new_token: true,
                spawn_workers: WORKER_COUNT,
                snapshot_state: Some(Some(QueueState::Running)),
                emit_snapshot: true,
                reply_with_snapshot: true,
            }
        },
        QueueCommand::PauseProject { project_id } => {
            if is_current_exec(state, project_id) {
                let cancel = state.has_token;
                state.paused = true;
                state.has_token = false;
                ActorAction {
                    cancel_token: cancel,
                    mark_segments_queued: false,
                    new_token: false,
                    spawn_workers: 0,
                    snapshot_state: Some(Some(QueueState::Paused)),
                    emit_snapshot: true,
                    reply_with_snapshot: false,
                }
            } else {
                idle_action()
            }
        },
        QueueCommand::ResumeProject { project_id } => {
            if is_current_exec(state, project_id) && state.paused {
                state.paused = false;
                state.has_token = true;
                ActorAction {
                    cancel_token: false,
                    mark_segments_queued: false,
                    new_token: true,
                    spawn_workers: WORKER_COUNT,
                    snapshot_state: Some(Some(QueueState::Running)),
                    emit_snapshot: true,
                    reply_with_snapshot: false,
                }
            } else {
                idle_action()
            }
        },
        QueueCommand::CancelProject { project_id } => {
            if is_current_exec(state, project_id) {
                let cancel = state.has_token;
                state.current_project = None;
                state.paused = false;
                state.has_token = false;
                ActorAction {
                    cancel_token: cancel,
                    mark_segments_queued: false,
                    new_token: false,
                    spawn_workers: 0,
                    snapshot_state: Some(Some(QueueState::Cancelled)),
                    emit_snapshot: true,
                    reply_with_snapshot: false,
                }
            } else {
                idle_action()
            }
        },
        QueueCommand::GetSnapshot { project_id } => {
            let over = if is_current_exec(state, project_id) {
                if state.paused {
                    Some(QueueState::Paused)
                } else {
                    Some(QueueState::Running)
                }
            } else {
                None
            };
            ActorAction {
                cancel_token: false,
                mark_segments_queued: false,
                new_token: false,
                spawn_workers: 0,
                snapshot_state: Some(over),
                emit_snapshot: false,
                reply_with_snapshot: true,
            }
        },
        QueueCommand::WorkerFinished { project_id, outcome } => {
            if is_current_exec(state, project_id) && !state.paused {
                state.current_project = None;
                state.has_token = false;
                let fin = match outcome {
                    WorkerOutcome::Completed => QueueState::Completed,
                    WorkerOutcome::Cancelled => QueueState::Cancelled,
                    WorkerOutcome::Failed(_) => QueueState::Failed,
                };
                ActorAction {
                    cancel_token: false,
                    mark_segments_queued: false,
                    new_token: false,
                    spawn_workers: 0,
                    snapshot_state: Some(Some(fin)),
                    emit_snapshot: true,
                    reply_with_snapshot: false,
                }
            } else {
                idle_action()
            }
        },
    }
}

fn idle_action() -> (r: ActorAction)
    ensures
        r == no_action(),
{
    ActorAction {
        cancel_token: false,
        mark_segments_queued: false,
        new_token: false,
        spawn_workers: 0,
        snapshot_state: None,
        emit_snapshot: false,
        reply_with_snapshot: false,
    }
}

/// A fresh actor: no project.
pub fn new_actor_state() -> (r: QueueActorState)
    ensures
        actor_view(r) == (None::<Seq<char>>, false, false),
{
    QueueActorState { current_project: None, paused: false, has_token: false }
}

/// Enqueueing the project that is already running (and not paused) changes
/// nothing, starts no worker and only answers with a running snapshot.
pub proof fn lemma_enqueue_idempotent(s: QueueActorState, project_id: String)
    requires
        is_current(s, project_id@),
        !s.paused,
    ensures
        actor_transition(s, QueueCommand::EnqueueProject { project_id }).0 == actor_view(s),
        actor_transition(s, QueueCommand::EnqueueProject { project_id }).1.spawn_workers == 0,
        !actor_transition(s, QueueCommand::EnqueueProject { project_id }).1.mark_segments_queued,
{
}

/// After an enqueue the project is current, running, with a live token.
pub proof fn lemma_enqueue_runs(s: QueueActorState, project_id: String)
    ensures
        actor_transition(s, QueueCommand::EnqueueProject { project_id }).0 == (
            Some(project_id@),
            false,
            true,
        ) || (is_current(s, project_id@) && !s.paused),
{
}

/// Cancelling the current project leaves the actor without a project and
/// cancels the workers' token.
pub proof fn lemma_cancel_clears(s: QueueActorState, project_id: String)
    requires
        is_current(s, project_id@),
    ensures
        actor_transition(s, QueueCommand::CancelProject { project_id }).0 == (
            None::<Seq<char>>,
            false,
            false,
        ),
        actor_transition(s, QueueCommand::CancelProject { project_id }).1.cancel_token
            == s.has_token,
{
}

/// Pausing the running project and resuming it brings back a running project
/// with a live token and new workers.
pub proof fn lemma_pause_then_resume(s: QueueActorState, project_id: String, again: String)
    requires
        is_current(s, project_id@),
        !s.paused,
        again@ == project_id@,
    ensures
        ({
            let (v1, a1) = actor_transition(s, QueueCommand::PauseProject { project_id });
            let s1 = QueueActorState { paused: v1.1, has_token: v1.2, ..s };
            let (v2, a2) = actor_transition(s1, QueueCommand::ResumeProject { project_id: again });
            &&& a1.snapshot_state == Some(Some(QueueState::Paused))
            &&& v2 == (actor_view(s).0, false, true)
            &&& a2.spawn_workers == WORKER_COUNT
            &&& a2.new_token
        }),
{
}

/// The command leaves `pid` running where it was running: it is no pause or
/// cancellation of `pid`, no enqueue of another project, and no report that the
/// workers of `pid` finished.
pub open spec fn keeps_running(cmd: QueueCommand, pid: Seq<char>) -> bool {
    match cmd {
        QueueCommand::EnqueueProject { project_id } => project_id@ == pid,
        QueueCommand::PauseProject { project_id } => project_id@ != pid,
        QueueCommand::CancelProject { project_id } => project_id@ != pid,
        QueueCommand::WorkerFinished { project_id, .. } => project_id@ != pid,
        _ => true,
    }
}

/// `ss` are the actor's states as it handles `cmds` in turn, the first command
/// being an enqueue of `pid`, and the others keeping `pid` running.
pub open spec fn run_after_enqueue(ss: Seq<QueueActorState>, cmds: Seq<QueueCommand>, pid: Seq<char>) -> bool {
    &&& cmds.len() >= 1
    &&& ss.len() == cmds.len() + 1
    &&& cmds[0] matches QueueCommand::EnqueueProject { project_id } && project_id@ == pid
    &&& forall|i: int|
        0 <= i < cmds.len() ==> actor_view(ss[i + 1]) == actor_transition(ss[i], #[trigger] cmds[i]).0
    &&& forall|i: int| 1 <= i < cmds.len() ==> #[trigger] keeps_running(cmds[i], pid)
}

proof fn lemma_stays_running(ss: Seq<QueueActorState>, cmds: Seq<QueueCommand>, pid: Seq<char>, k: int)
    requires
        run_after_enqueue(ss, cmds, pid),
        1 <= k < ss.len(),
    ensures
        is_current(ss[k], pid),
        !ss[k].paused,
    decreases k,
{
    assert(actor_view(ss[k]) == actor_transition(ss[k - 1], cmds[k - 1]).0);
    if k > 1 {
        lemma_stays_running(ss, cmds, pid, k - 1);
        assert(keeps_running(cmds[k - 1], pid));
    }
}

/// Once a project is enqueued, enqueueing it again, after any commands that
/// neither pause nor cancel it, enqueue another project or report its workers
/// finished, changes nothing: no token is cancelled or made, no segment is
/// re-queued, no worker is started, and the answer is a running snapshot.
pub proof fn lemma_enqueue_idempotent_after(ss: Seq<QueueActorState>, cmds: Seq<QueueCommand>, project_id: String)
    requires
        run_after_enqueue(ss, cmds, project_id@),
    ensures
        ({
            let (v, a) = actor_transition(ss.last(), QueueCommand::EnqueueProject { project_id });
            &&& v == actor_view(ss.last())
            &&& a == ActorAction {
                snapshot_state: Some(Some(QueueState::Running)),
                reply_with_snapshot: true,
                ..no_action()
            }
        }),
{
    lemma_stays_running(ss, cmds, project_id@, ss.len() - 1);
}

/// Commands about another project change nothing (but the snapshot request,
/// which only answers).
pub proof fn lemma_other_project_untouched(s: QueueActorState, cmd: QueueCommand)
    requires
        match cmd {
            QueueCommand::PauseProject { project_id } => !is_current(s, project_id@),
            QueueCommand::ResumeProject { project_id } => !is_current(s, project_id@),
            QueueCommand::CancelProject { project_id } => !is_current(s, project_id@),
            QueueCommand::WorkerFinished { project_id, .. } => !is_current(s, project_id@),
            _ => false,
        },
    ensures
        actor_transition(s, cmd) == (actor_view(s), no_action()),
{
}

// ---------------------------------------------------------------------------
// Failures of a call
// ---------------------------------------------------------------------------

/// Whether a failed call may be tried again: rate limits, network failures, and
/// server errors 408 and 5xx.
pub open spec fn retryable(err: ApiError) -> bool {
    match err {
        ApiError::RateLimited(_) => true,
        ApiError::NetworkError(_) => true,
        ApiError::ApiServerError(code, _) => code == 408 || code >= 500,
        _ => false,
    }
}

pub fn is_error_retryable(err: &ApiError) -> (r: bool)
    ensures
        r == retryable(*err),
{
    match err {
        ApiError::RateLimited(_) => true,
        ApiError::NetworkError(_) => true,
        ApiError::ApiServerError(code, _) => *code == 408 || *code >= 500,
        _ => false,
    }
}

pub open spec fn pow2(n: nat) -> nat
    decreases n,
{
    if n == 0 {
        1
    } else {
        2 * pow2((n - 1) as nat)
    }
}

/// Seconds to wait before the next try: the server's wait for a rate limit (10 s
/// when it gave none), else `2^(attempt+1)`.
pub open spec fn backoff_secs(err: ApiError, attempt: nat) -> nat {
    match err {
        ApiError::RateLimited(Some(secs)) => secs as nat,
        ApiError::RateLimited(None) => 10,
        _ => pow2(attempt + 1),
    }
}

proof fn lemma_pow2_mono(i: nat, j: nat)
    requires
        i <= j,
    ensures
        1 <= pow2(i) <= pow2(j),
    decreases j,
{
    if j > i {
        lemma_pow2_mono(i, (j - 1) as nat);
    } else {
        lemma_pow2_pos(i);
    }
}

proof fn lemma_pow2_pos(n: nat)
    ensures
        pow2(n) >= 1,
    decreases n,
{
    if n > 0 {
        lemma_pow2_pos((n - 1) as nat);
    }
}

proof fn lemma_pow2_bound(n: nat)
    requires
        n <= 63,
    ensures
        1 <= pow2(n) <= 0x8000_0000_0000_0000,
{
    assert(pow2(63) == 0x8000_0000_0000_0000) by {
        reveal_with_fuel(pow2, 64);
    }
    lemma_pow2_mono(n, 63);
}

fn pow2_exec(n: u32) -> (r: u64)
    requires
        n <= 63,
    ensures
        r == pow2(n as nat),
{
    let mut r: u64 = 1;
    let mut i: u32 = 0;
    while i < n
        invariant
            0 <= i <= n <= 63,
            r == pow2(i as nat),
        decreases n - i,
    {
        proof {
            lemma_pow2_bound((i + 1) as nat);
        }
        r = r * 2;
        i = i + 1;
    }
    r
}

/// Apart from rate limits, each further attempt waits twice as long.
pub proof fn lemma_backoff_doubles(err: ApiError, attempt: nat)
    requires
        !(err is RateLimited),
    ensures
        backoff_secs(err, attempt + 1) == 2 * backoff_secs(err, attempt),
{
}

pub fn calculate_backoff_delay(err: &ApiError, attempt: u32) -> (r: u64)
    requires
        attempt < 63,
    ensures
        r == backoff_secs(*err, attempt as nat),
{
    match err {
        ApiError::RateLimited(Some(secs)) => *secs,
        ApiError::RateLimited(None) => 10,
        _ => pow2_exec(attempt + 1),
    }
}

/// How a failed call is classified, from the provider's report.
pub open spec fn is_unauthorized_report(e: ProviderError) -> bool {
    contains_seq(e.code@, "Unauthorized"@) || contains_seq(e.code@, "Forbidden"@)
}

pub open spec fn is_daily_quota_report(e: ProviderError) -> bool {
    contains_seq(e.code@, "RateLimitedDaily"@) || contains_seq(e.message@, "quota"@)
}

pub open spec fn is_content_filtered_report(e: ProviderError) -> bool {
    contains_seq(e.code@, "ContentFiltered"@)
}

/// The message and code stored for a failed call.
pub open spec fn failure_text(e: ProviderError) -> (Seq<char>, Seq<char>) {
    if is_unauthorized_report(e) {
        (
            "Gemini API Key không hợp lệ hoặc đã bị vô hiệu hóa. Vui lòng kiểm tra lại cấu hình Key."@,
            "AUTH_INVALID"@,
        )
    } else if is_daily_quota_report(e) {
        ("Hạn ngạch sử dụng Google API trong ngày đã hết. Hàng đợi đã tạm dừng."@, "DAILY_QUOTA_EXHAUSTED"@)
    } else if e.is_rate_limit {
        (
            "Đã đạt giới hạn tốc độ yêu cầu (Rate Limit 429). Đang chờ thử lại sau "@ + dec(
                match e.retry_after_secs {
                    Some(s) => s as nat,
                    None => 10,
                },
            ) + "s..."@,
            "RATE_LIMITED"@,
        )
    } else if is_content_filtered_report(e) {
        ("Đoạn văn bản bị từ chối bởi bộ lọc an toàn của Google."@, "CONTENT_FILTERED"@)
    } else {
        ("Lỗi kết nối API Google: "@ + e.message@, "INTERNAL_ERROR"@)
    }
}

/// What to do with a segment after a failed call.
#[derive(Debug)]
pub struct FailurePlan {
    /// The status written for the segment (retry later, or failed).
    pub status: SegmentStatus,
    /// When the segment may be tried again.
    pub next_retry_at: Option<i64>,
    pub error_code: String,
    pub error_message: String,
    /// The key's daily quota is spent.
    pub mark_key_daily_exhausted: bool,
    /// Seconds the key cools down, for a rate limit.
    pub key_cooldown_secs: Option<u64>,
    /// The count of consecutive daily-quota failures after this one.
    pub consecutive_quota_errors: usize,
    /// Count the failure as a rate-limit hit.
    pub rate_limit_hit: bool,
    /// Wait a minute before going on: every key is out of quota.
    pub pause_a_minute: bool,
    /// Claim the next task at once, skipping the pacing delay.
    pub continue_at_once: bool,
}

/// Milliseconds until the next try of a retryable failure: the rate-limit wait
/// (10 s by default) or `2^(attempt+1)` seconds, plus the jitter.
pub open spec fn retry_delay_ms(e: ProviderError, attempt: nat, jitter_ms: nat) -> nat {
    (if e.is_rate_limit {
        match e.retry_after_secs {
            Some(s) => s as nat,
            None => 10,
        }
    } else {
        pow2(attempt + 1)
    }) * 1000 + jitter_ms
}

/// The plan for a failed call, as the worker decides it.
pub open spec fn failure_plan_ok(
    e: ProviderError,
    retry_ok: bool,
    attempt_count: u32,
    consecutive: usize,
    key_count: usize,
    now_ms: i64,
    jitter_ms: u64,
    p: FailurePlan,
) -> bool {
    let daily = is_daily_quota_report(e);
    let rate = e.is_rate_limit || daily;
    let keys = if key_count == 0 { 1 } else { key_count as int };
    &&& p.error_message@ == failure_text(e).0
    &&& p.error_code@ == failure_text(e).1
    &&& p.rate_limit_hit == rate
    &&& p.mark_key_daily_exhausted == daily
    &&& if daily {
        &&& p.status == SegmentStatus::RetryWait
        &&& p.next_retry_at == Some(now_ms)
        &&& p.consecutive_quota_errors == consecutive + 1
        &&& p.key_cooldown_secs is None
        &&& p.continue_at_once
        &&& p.pause_a_minute == (consecutive + 1 >= keys)
    } else {
        let may_retry = !(is_unauthorized_report(e) || is_content_filtered_report(e)) && retry_ok;
        &&& p.consecutive_quota_errors == 0
        &&& !p.continue_at_once
        &&& !p.pause_a_minute
        &&& p.key_cooldown_secs == if may_retry && rate {
            Some(
                match e.retry_after_secs {
                    Some(s) => s,
                    None => 30u64,
                },
            )
        } else {
            None
        }
        &&& if may_retry && attempt_count < 3 {
            &&& p.status == SegmentStatus::RetryWait
            &&& p.next_retry_at == Some((now_ms + retry_delay_ms(e, attempt_count as nat, jitter_ms as nat)) as i64)
        } else {
            &&& p.status == SegmentStatus::Failed
            &&& p.next_retry_at is None
        }
    }
}

fn contains_text(s: &String, pat: &str) -> (r: bool)
    ensures
        r == contains_seq(s@, pat@),
{
    let a = str_to_chars(s.as_str());
    let b = str_to_chars(pat);
    contains_chars(a.as_slice(), b.as_slice())
}

fn plan_for_report(
    err: &ProviderError,
    retry_ok: bool,
    attempt_count: u32,
    consecutive_quota_errors: usize,
    key_count: usize,
    now_ms: i64,
    jitter_ms: u64,
) -> (r: FailurePlan)
    requires
        consecutive_quota_errors < usize::MAX,
        attempt_count < 3 && retry_ok && !is_daily_quota_report(*err) ==> now_ms + retry_delay_ms(
            *err,
            attempt_count as nat,
            jitter_ms as nat,
        ) <= i64::MAX,
        attempt_count < 3 && retry_ok && !is_daily_quota_report(*err) ==> retry_delay_ms(
            *err,
            attempt_count as nat,
            jitter_ms as nat,
        ) <= i64::MAX,
    ensures
        failure_plan_ok(*err, retry_ok, attempt_count, consecutive_quota_errors, key_count, now_ms, jitter_ms, r),
{
    let unauthorized = contains_text(&err.code, "Unauthorized") || contains_text(
        &err.code,
        "Forbidden",
    );
    let daily = contains_text(&err.code, "RateLimitedDaily") || contains_text(&err.message, "quota");
    let rate = err.is_rate_limit || daily;
    let filtered = contains_text(&err.code, "ContentFiltered");
    let (msg, code) = failure_message(err, unauthorized, daily, filtered);
    let keys: usize = if key_count == 0 { 1 } else { key_count };
    if daily {
        let c = consecutive_quota_errors + 1;
        return FailurePlan {
            status: SegmentStatus::RetryWait,
            next_retry_at: Some(now_ms),
            error_code: code,
            error_message: msg,
            mark_key_daily_exhausted: true,
            key_cooldown_secs: None,
            consecutive_quota_errors: c,
            rate_limit_hit: rate,
            pause_a_minute: c >= keys,
            continue_at_once: true,
        };
    }
    let may_retry = !(unauthorized || filtered) && retry_ok;
    let cooldown = if may_retry && rate {
        Some(
            match err.retry_after_secs {
                Some(s) => s,
                None => 30,
            },
        )
    } else {
        None
    };
    if may_retry && attempt_count < 3 {
        let base: u64 = if err.is_rate_limit {
            match err.retry_after_secs {
                Some(s) => s,
                None => 10,
            }
        } else {
            pow2_exec(attempt_count + 1)
        };
        proof {
            lemma_pow2_bound(attempt_count as nat + 1);
        }
        assert(base * 1000 + jitter_ms == retry_delay_ms(*err, attempt_count as nat, jitter_ms as nat));
        let delay: u64 = base * 1000 + jitter_ms;
        let next: i64 = now_ms + delay as i64;
        FailurePlan {
            status: SegmentStatus::RetryWait,
            next_retry_at: Some(next),
            error_code: code,
            error_message: msg,
            mark_key_daily_exhausted: false,
            key_cooldown_secs: cooldown,
            consecutive_quota_errors: 0,
            rate_limit_hit: rate,
            pause_a_minute: false,
            continue_at_once: false,
        }
    } else {
        FailurePlan {
            status: SegmentStatus::Failed,
            next_retry_at: None,
            error_code: code,
            error_message: msg,
            mark_key_daily_exhausted: false,
            key_cooldown_secs: cooldown,
            consecutive_quota_errors: 0,
            rate_limit_hit: rate,
            pause_a_minute: false,
            continue_at_once: false,
        }
    }
}

/// The provider's view of a call's failure, as `ProviderError::from_api_error` gives it.
pub open spec fn provider_view_of(cause: ApiError, e: ProviderError) -> bool {
    &&& e.code@ == api_error_debug(cause)
    &&& e.message@ == api_error_message(cause)
    &&& e.is_rate_limit == (cause is RateLimited || cause is RateLimitedDaily)
    &&& e.retry_after_secs == match cause {
        ApiError::RateLimited(s) => s,
        _ => None,
    }
}

/// A failure that spends the day's quota.
pub open spec fn daily_quota_cause(cause: ApiError) -> bool {
    contains_seq(api_error_debug(cause), "RateLimitedDaily"@) || contains_seq(api_error_message(cause), "quota"@)
}

/// The jitter added to a retry: the clock's milliseconds within the second, plus
/// 500, so between 500 and 1499 ms.
pub open spec fn clock_jitter(subsec_millis: u32) -> nat {
    (subsec_millis % 1000) as nat + 500
}

/// Milliseconds until the next try of a retryable failure (see `retry_delay_ms`).
pub open spec fn cause_retry_delay_ms(cause: ApiError, attempt: nat, jitter_ms: nat) -> nat {
    (if cause is RateLimited || cause is RateLimitedDaily {
        match cause {
            ApiError::RateLimited(Some(s)) => s as nat,
            _ => 10,
        }
    } else {
        pow2(attempt + 1)
    }) * 1000 + jitter_ms
}

/// Whether the retry time of a failure can be computed within 64-bit arithmetic:
/// the condition `plan_synthesis_failure` needs.
pub fn retry_time_fits(cause: &ApiError, attempt_count: u32, now_ms: i64, clock_subsec_millis: u32) -> (r: bool)
    ensures
        r == (attempt_count < 3 && retryable(*cause) && !daily_quota_cause(*cause) ==> (now_ms
            + cause_retry_delay_ms(*cause, attempt_count as nat, clock_jitter(clock_subsec_millis))
            <= i64::MAX && cause_retry_delay_ms(
            *cause,
            attempt_count as nat,
            clock_jitter(clock_subsec_millis),
        ) <= i64::MAX)),
{
    if attempt_count >= 3 || !is_error_retryable(cause) {
        return true;
    }
    let dbg = api_error_debug_text(cause);
    let msg = cause.to_string();
    if contains_text(&dbg, "RateLimitedDaily") || contains_text(&msg, "quota") {
        return true;
    }
    proof {
        lemma_pow2_bound(attempt_count as nat + 1);
    }
    let base: u64 = match cause {
        ApiError::RateLimited(Some(s)) => *s,
        ApiError::RateLimited(None) => 10,
        ApiError::RateLimitedDaily => 10,
        _ => pow2_exec(attempt_count + 1),
    };
    let jitter: u128 = (clock_subsec_millis % 1000) as u128 + 500;
    let delay: u128 = base as u128 * 1000 + jitter;
    assert(delay == cause_retry_delay_ms(*cause, attempt_count as nat, clock_jitter(clock_subsec_millis)));
    if delay > 0x7fff_ffff_ffff_ffff {
        return false;
    }
    let total: i128 = now_ms as i128 + delay as i128;
    total <= 0x7fff_ffff_ffff_ffff
}

/// Decides what a worker does after a failed call: what is stored for the
/// segment, what happens to the key, and whether the worker pauses. Only a
/// retryable failure (see `retryable`) is tried again; the jitter of the retry
/// comes from the clock's milliseconds within the second.
pub fn plan_synthesis_failure(
    cause: ApiError,
    attempt_count: u32,
    consecutive_quota_errors: usize,
    key_count: usize,
    now_ms: i64,
    clock_subsec_millis: u32,
) -> (r: FailurePlan)
    requires
        consecutive_quota_errors < usize::MAX,
        attempt_count < 3 && retryable(cause) && !daily_quota_cause(cause) ==> now_ms + cause_retry_delay_ms(
            cause,
            attempt_count as nat,
            clock_jitter(clock_subsec_millis),
        ) <= i64::MAX,
        attempt_count < 3 && retryable(cause) && !daily_quota_cause(cause) ==> cause_retry_delay_ms(
            cause,
            attempt_count as nat,
            clock_jitter(clock_subsec_millis),
        ) <= i64::MAX,
    ensures
        forall|e: ProviderError|
            #[trigger] provider_view_of(cause, e) ==> failure_plan_ok(
                e,
                retryable(cause),
                attempt_count,
                consecutive_quota_errors,
                key_count,
                now_ms,
                clock_jitter(clock_subsec_millis) as u64,
                r,
            ),
{
    let ghost c = cause;
    let retry_ok = is_error_retryable(&cause);
    let jitter_ms: u64 = (clock_subsec_millis % 1000) as u64 + 500;
    let err = ProviderError::from_api_error(cause);
    assert(provider_view_of(c, err));
    assert(is_daily_quota_report(err) == daily_quota_cause(c));
    assert(attempt_count < 3 ==> retry_delay_ms(err, attempt_count as nat, jitter_ms as nat)
        == cause_retry_delay_ms(c, attempt_count as nat, jitter_ms as nat));
    let r = plan_for_report(&err, retry_ok, attempt_count, consecutive_quota_errors, key_count, now_ms, jitter_ms);
    proof {
        assert forall|e: ProviderError| #[trigger] provider_view_of(c, e) implies failure_plan_ok(
            e,
            retryable(c),
            attempt_count,
            consecutive_quota_errors,
            key_count,
            now_ms,
            clock_jitter(clock_subsec_millis) as u64,
            r,
        ) by {
            assert(e.code@ == err.code@);
            assert(e.message@ == err.message@);
        }
    }
    r
}

fn failure_message(err: &ProviderError, unauthorized: bool, daily: bool, filtered: bool) -> (r: (
    String,
    String,
))
    requires
        unauthorized == is_unauthorized_report(*err),
        daily == is_daily_quota_report(*err),
        filtered == is_content_filtered_report(*err),
    ensures
        (r.0@, r.1@) == failure_text(*err),
{
    if unauthorized {
        (
            "Gemini API Key không hợp lệ hoặc đã bị vô hiệu hóa. Vui lòng kiểm tra lại cấu hình Key.".to_owned(),
            "AUTH_INVALID".to_owned(),
        )
    } else if daily {
        (
            "Hạn ngạch sử dụng Google API trong ngày đã hết. Hàng đợi đã tạm dừng.".to_owned(),
            "DAILY_QUOTA_EXHAUSTED".to_owned(),
        )
    } else if err.is_rate_limit {
        let mut v: Vec<char> = Vec::new();
        push_str(&mut v, "Đã đạt giới hạn tốc độ yêu cầu (Rate Limit 429). Đang chờ thử lại sau ");
        let secs = match err.retry_after_secs {
            Some(s) => s,
            None => 10,
        };
        push_dec(&mut v, secs);
        push_str(&mut v, "s...");
        (chars_to_string(v.as_slice()), "RATE_LIMITED".to_owned())
    } else if filtered {
        (
            "Đoạn văn bản bị từ chối bởi bộ lọc an toàn của Google.".to_owned(),
            "CONTENT_FILTERED".to_owned(),
        )
    } else {
        let mut v: Vec<char> = Vec::new();
        push_str(&mut v, "Lỗi kết nối API Google: ");
        push_str(&mut v, err.message.as_str());
        (chars_to_string(v.as_slice()), "INTERNAL_ERROR".to_owned())
    }
}

// ---------------------------------------------------------------------------
// Pacing and the end of a worker
// ---------------------------------------------------------------------------

/// The outcome of a worker that found no task left: failed when some segment
/// failed and every segment is finished or failed, completed otherwise.
pub fn finished_outcome(total: usize, completed: usize, failed: usize) -> (r: WorkerOutcome)
    ensures
        (failed > 0 && completed + failed >= total) ==> (r matches WorkerOutcome::Failed(m) && m@
            == "Queue finished with "@ + dec(failed as nat) + " failed segments"@),
        !(failed > 0 && completed + failed >= total) ==> r matches WorkerOutcome::Completed,
{
    if failed > 0 && (completed as u128) + (failed as u128) >= total as u128 {
        let mut v: Vec<char> = Vec::new();
        push_str(&mut v, "Queue finished with ");
        push_dec_usize(&mut v, failed);
        push_str(&mut v, " failed segments");
        WorkerOutcome::Failed(chars_to_string(v.as_slice()))
    } else {
        WorkerOutcome::Completed
    }
}

/// How long a worker sleeps before looking for a task again: the wait until the
/// next retry, kept between 100 and 2000 ms.
pub fn retry_wait_ms(delay_ms: u64) -> (r: u64)
    ensures
        r == if delay_ms < 100 {
            100
        } else if delay_ms > 2000 {
            2000
        } else {
            delay_ms
        },
{
    if delay_ms < 100 {
        100
    } else if delay_ms > 2000 {
        2000
    } else {
        delay_ms
    }
}

/// The pause between two calls: 4100 ms shared among the keys (at least one), at
/// least 500 ms.
pub open spec fn pacing(key_count: nat) -> int {
    let keys: int = if key_count == 0 { 1 } else { key_count as int };
    if 4100int / keys < 500 {
        500
    } else {
        4100int / keys
    }
}

pub fn pacing_delay_ms(key_count: usize) -> (r: u64)
    ensures
        r == pacing(key_count as nat),
{
    let keys: u64 = if key_count == 0 { 1 } else { key_count as u64 };
    let d = 4100 / keys;
    if d < 500 {
        500
    } else {
        d
    }
}

/// The milliseconds until the earliest retry, 0 when it is due.
pub fn retry_delay_from(next_retry_at: i64, now_ms: i64) -> (r: u64)
    ensures
        next_retry_at > now_ms ==> r == next_retry_at - now_ms,
        next_retry_at <= now_ms ==> r == 0,
{
    if next_retry_at > now_ms {
        (next_retry_at as i128 - now_ms as i128) as u64
    } else {
        0
    }
}

} // verus!
