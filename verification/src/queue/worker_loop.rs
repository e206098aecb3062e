//! The decisions of a synthesis worker's loop, as a transition from the worker's
//! state and what its last piece of outside work found (an event) to the next
//! state and what to do next (an action). The caller performs each action (a
//! database claim or commit, a key lookup, an API call, a sleep) and hands back
//! the event it produced.
use vstd::prelude::*;
use crate::queue::worker::{finished_outcome, retry_delay_from, retry_wait_ms, WorkerOutcome};
use crate::textseq::dec;

verus! {

/// How long to wait before claiming again after a failed claim (ms).
pub const CLAIM_RETRY_MS: u64 = 500;

/// What a worker carries from one turn of its loop to the next: the count of
/// quota failures in a row, which the failure plans read.
#[derive(Debug, Clone, Copy, PartialEq, Eq, Structural)]
pub struct WorkerState {
    pub consecutive_quota_errors: usize,
}

/// Why a worker leaves its loop.
#[derive(Debug, Clone, Copy, PartialEq, Eq, Structural)]
pub enum WorkerExit {
    /// The workers' token was cancelled.
    Cancelled,
    /// No database is open.
    DatabaseOffline,
    /// No API key could be had for the claimed task.
    MissingKey,
    /// Nothing is left to claim; the project's segment counts.
    QueueDrained { total: usize, completed: usize, failed: usize },
}

/// What the last piece of outside work found.
#[derive(Debug, Clone, Copy, PartialEq, Eq, Structural)]
pub enum WorkerEvent {
    /// The top of the loop: whether the token was cancelled and whether a
    /// database is open.
    Ready { cancelled: bool, database_open: bool },
    /// No task could be claimed: the earliest pending retry (ms since the
    /// epoch) if one is pending, the clock, and the project's segment counts.
    NothingClaimable { earliest_retry_at: Option<i64>, now_ms: i64, total: usize, completed: usize, failed: usize },
    /// The claim failed.
    ClaimFailed,
    /// A task was claimed: whether a key could be had for it, and whether the
    /// token was cancelled meanwhile.
    Claimed { has_key: bool, cancelled: bool },
    /// The claimed task was given back: put back in the queue, or marked failed.
    TaskReleased { requeued: bool },
    /// The task's audio was written and committed: `Some(true)` committed,
    /// `Some(false)` refused because the claim went stale, `None` the commit failed.
    OutputCommitted { committed: Option<bool> },
    /// The task's audio could not be written (the task was marked failed).
    OutputUnwritable,
    /// The audio file of a stale claim was removed.
    StaleOutputRemoved,
    /// A failed synthesis was handled by its failure plan: whether to go on at
    /// once, and the plan's count of quota failures in a row.
    FailureHandled { continue_at_once: bool, consecutive_quota_errors: usize },
    /// The pause between calls ended, by cancellation or not.
    Paced { cancelled: bool },
}

/// What the worker does next.
#[derive(Debug, Clone, Copy, PartialEq, Eq, Structural)]
pub enum WorkerAction {
    /// Leave the loop and report the outcome of `exit_outcome`.
    Finish(WorkerExit),
    /// Claim the next task.
    ClaimTask,
    /// Sleep this many ms, then start over.
    Wait(u64),
    /// Give the claimed task back: put it back in the queue, or mark it failed
    /// with code `AUTH_INVALID` and message "Missing Gemini API Key".
    ReleaseTask { requeue: bool },
    /// Call the API for the claimed task, then write and commit its audio or
    /// handle the failure.
    Synthesize,
    /// Remove the audio file written for the stale claim.
    RemoveStaleOutput,
    /// Pause between calls for `pacing_delay_ms` of the key count, unless the
    /// token is cancelled first.
    Pace,
    /// Go back to the top of the loop at once.
    StartOver,
}

/// The wait before claiming again when the earliest retry is `delay` ms away:
/// at least 100 ms and at most 2 s.
pub open spec fn claim_wait(delay: int) -> int {
    if delay < 100 {
        100
    } else if delay > 2000 {
        2000
    } else {
        delay
    }
}

/// The worker's transition.
pub open spec fn worker_transition(s: WorkerState, ev: WorkerEvent) -> (WorkerState, WorkerAction) {
    match ev {
        WorkerEvent::Ready { cancelled, database_open } => (
            s,
            if cancelled {
                WorkerAction::Finish(WorkerExit::Cancelled)
            } else if !database_open {
                WorkerAction::Finish(WorkerExit::DatabaseOffline)
            } else {
                WorkerAction::ClaimTask
            },
        ),
        WorkerEvent::NothingClaimable { earliest_retry_at, now_ms, total, completed, failed } => (
            s,
            match earliest_retry_at {
                Some(at) => WorkerAction::Wait(
                    claim_wait(if at > now_ms { at - now_ms } else { 0 }) as u64,
                ),
                None => WorkerAction::Finish(WorkerExit::QueueDrained { total, completed, failed }),
            },
        ),
        WorkerEvent::ClaimFailed => (s, WorkerAction::Wait(CLAIM_RETRY_MS)),
        WorkerEvent::Claimed { has_key, cancelled } => (
            s,
            if !has_key {
                WorkerAction::ReleaseTask { requeue: false }
            } else if cancelled {
                WorkerAction::ReleaseTask { requeue: true }
            } else {
                WorkerAction::Synthesize
            },
        ),
        WorkerEvent::TaskReleased { requeued } => (
            s,
            WorkerAction::Finish(
                if requeued {
                    WorkerExit::Cancelled
                } else {
                    WorkerExit::MissingKey
                },
            ),
        ),
        WorkerEvent::OutputCommitted { committed } => (
            if committed == Some(true) {
                WorkerState { consecutive_quota_errors: 0 }
            } else {
                s
            },
            if committed == Some(false) {
                WorkerAction::RemoveStaleOutput
            } else {
                WorkerAction::Pace
            },
        ),
        WorkerEvent::OutputUnwritable => (s, WorkerAction::Pace),
        WorkerEvent::StaleOutputRemoved => (s, WorkerAction::Pace),
        WorkerEvent::FailureHandled { continue_at_once, consecutive_quota_errors } => (
            WorkerState { consecutive_quota_errors },
            if continue_at_once {
                WorkerAction::StartOver
            } else {
                WorkerAction::Pace
            },
        ),
        WorkerEvent::Paced { cancelled } => (
            s,
            if cancelled {
                WorkerAction::Finish(WorkerExit::Cancelled)
            } else {
                WorkerAction::StartOver
            },
        ),
    }
}

/// A worker before its first turn.
pub fn new_worker_state() -> (r: WorkerState)
    ensures
        r.consecutive_quota_errors == 0,
{
    WorkerState { consecutive_quota_errors: 0 }
}

/// One turn of the worker's decisions.
pub fn worker_step(state: &WorkerState, event: WorkerEvent) -> (r: (WorkerState, WorkerAction))
    ensures
        r == worker_transition(*state, event),
{
    let s = *state;
    match event {
        WorkerEvent::Ready { cancelled, database_open } => {
            if cancelled {
                (s, WorkerAction::Finish(WorkerExit::Cancelled))
            } else if !database_open {
                (s, WorkerAction::Finish(WorkerExit::DatabaseOffline))
            } else {
                (s, WorkerAction::ClaimTask)
            }
        },
        WorkerEvent::NothingClaimable { earliest_retry_at, now_ms, total, completed, failed } => {
            match earliest_retry_at {
                Some(at) => (s, WorkerAction::Wait(retry_wait_ms(retry_delay_from(at, now_ms)))),
                None => (s, WorkerAction::Finish(WorkerExit::QueueDrained { total, completed, failed })),
            }
        },
        WorkerEvent::ClaimFailed => (s, WorkerAction::Wait(CLAIM_RETRY_MS)),
        WorkerEvent::Claimed { has_key, cancelled } => {
            if !has_key {
                (s, WorkerAction::ReleaseTask { requeue: false })
            } else if cancelled {
                (s, WorkerAction::ReleaseTask { requeue: true })
            } else {
                (s, WorkerAction::Synthesize)
            }
        },
        WorkerEvent::TaskReleased { requeued } => {
            if requeued {
                (s, WorkerAction::Finish(WorkerExit::Cancelled))
            } else {
                (s, WorkerAction::Finish(WorkerExit::MissingKey))
            }
        },
        WorkerEvent::OutputCommitted { committed } => match committed {
            Some(true) => (WorkerState { consecutive_quota_errors: 0 }, WorkerAction::Pace),
            Some(false) => (s, WorkerAction::RemoveStaleOutput),
            None => (s, WorkerAction::Pace),
        },
        WorkerEvent::OutputUnwritable => (s, WorkerAction::Pace),
        WorkerEvent::StaleOutputRemoved => (s, WorkerAction::Pace),
        WorkerEvent::FailureHandled { continue_at_once, consecutive_quota_errors } => {
            if continue_at_once {
                (WorkerState { consecutive_quota_errors }, WorkerAction::StartOver)
            } else {
                (WorkerState { consecutive_quota_errors }, WorkerAction::Pace)
            }
        },
        WorkerEvent::Paced { cancelled } => {
            if cancelled {
                (s, WorkerAction::Finish(WorkerExit::Cancelled))
            } else {
                (s, WorkerAction::StartOver)
            }
        },
    }
}

/// The outcome a worker reports when it leaves for `e`.
pub open spec fn exit_outcome_ok(e: WorkerExit, r: WorkerOutcome) -> bool {
    match e {
        WorkerExit::Cancelled => r is Cancelled,
        WorkerExit::DatabaseOffline => r matches WorkerOutcome::Failed(m) && m@ == "Database offline"@,
        WorkerExit::MissingKey => r matches WorkerOutcome::Failed(m) && m@ == "Missing Gemini API Key"@,
        WorkerExit::QueueDrained { total, completed, failed } => if failed > 0 && completed + failed >= total {
            r matches WorkerOutcome::Failed(m) && m@ == "Queue finished with "@ + dec(failed as nat)
                + " failed segments"@
        } else {
            r is Completed
        },
    }
}

/// The outcome a worker reports when it leaves for `e`.
pub fn exit_outcome(e: WorkerExit) -> (r: WorkerOutcome)
    ensures
        exit_outcome_ok(e, r),
{
    match e {
        WorkerExit::Cancelled => WorkerOutcome::Cancelled,
        WorkerExit::DatabaseOffline => {
            let m = "Database offline".to_string();
            WorkerOutcome::Failed(m)
        },
        WorkerExit::MissingKey => {
            let m = "Missing Gemini API Key".to_string();
            WorkerOutcome::Failed(m)
        },
        WorkerExit::QueueDrained { total, completed, failed } => finished_outcome(total, completed, failed),
    }
}

} // verus!
