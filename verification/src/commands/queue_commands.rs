//! Whether a project is ready to export.
use vstd::prelude::*;
use crate::models::segment::SegmentStatus;
use crate::storage::project_repo::SegmentRecord;

verus! {

/// How far a project is towards export, with its counts.
#[derive(Debug)]
pub struct ExportReadiness {
    pub state: String,
    pub successful_segments: usize,
    pub failed_segments: usize,
    pub total_segments: usize,
    pub output_directory: String,
}

/// The number of segments whose status satisfies `p`.
pub open spec fn count_where(segs: Seq<SegmentRecord>, p: spec_fn(SegmentStatus) -> bool) -> nat
    decreases segs.len(),
{
    if segs.len() == 0 {
        0
    } else {
        count_where(segs.drop_last(), p) + if p(segs.last().status) {
            1nat
        } else {
            0nat
        }
    }
}

pub open spec fn is_success(s: SegmentStatus) -> bool {
    s == SegmentStatus::Success || s == SegmentStatus::Approved
}

pub open spec fn is_failed(s: SegmentStatus) -> bool {
    s == SegmentStatus::Failed
}

pub open spec fn is_in_queue(s: SegmentStatus) -> bool {
    s == SegmentStatus::Processing || s == SegmentStatus::Queued || s == SegmentStatus::RetryWait
}

proof fn lemma_count_bound(segs: Seq<SegmentRecord>, p: spec_fn(SegmentStatus) -> bool)
    ensures
        count_where(segs, p) <= segs.len(),
    decreases segs.len(),
{
    if segs.len() > 0 {
        lemma_count_bound(segs.drop_last(), p);
    }
}

/// Counts of successful, failed and queued segments.
pub fn readiness_counts(segments: &[SegmentRecord]) -> (r: (usize, usize, usize))
    ensures
        r.0 == count_where(segments@, |s: SegmentStatus| is_success(s)),
        r.1 == count_where(segments@, |s: SegmentStatus| is_failed(s)),
        r.2 == count_where(segments@, |s: SegmentStatus| is_in_queue(s)),
{
    let mut ok: usize = 0;
    let mut failed: usize = 0;
    let mut queued: usize = 0;
    let mut i: usize = 0;
    while i < segments.len()
        invariant
            0 <= i <= segments@.len(),
            ok == count_where(segments@.take(i as int), |s: SegmentStatus| is_success(s)),
            failed == count_where(segments@.take(i as int), |s: SegmentStatus| is_failed(s)),
            queued == count_where(segments@.take(i as int), |s: SegmentStatus| is_in_queue(s)),
        decreases segments@.len() - i,
    {
        proof {
            assert(segments@.take(i + 1).drop_last() =~= segments@.take(i as int));
            lemma_count_bound(segments@.take(i as int), |s: SegmentStatus| is_success(s));
            lemma_count_bound(segments@.take(i as int), |s: SegmentStatus| is_failed(s));
            lemma_count_bound(segments@.take(i as int), |s: SegmentStatus| is_in_queue(s));
        }
        let st = segments[i].status;
        if st == SegmentStatus::Success || st == SegmentStatus::Approved {
            ok = ok + 1;
        }
        if st == SegmentStatus::Failed {
            failed = failed + 1;
        }
        if st == SegmentStatus::Processing || st == SegmentStatus::Queued || st
            == SegmentStatus::RetryWait {
            queued = queued + 1;
        }
        i = i + 1;
    }
    proof {
        assert(segments@.take(segments@.len() as int) =~= segments@);
    }
    (ok, failed, queued)
}

/// The readiness state: an empty project; a queue still at work; ready when every
/// segment succeeded; partial when some did; not started otherwise.
pub open spec fn readiness_state(total: nat, ok: nat, queued: nat) -> Seq<char> {
    if total == 0 {
        "empty_project"@
    } else if queued > 0 {
        "queue_running"@
    } else if ok == total {
        "ready"@
    } else if ok > 0 {
        "partial"@
    } else {
        "queue_not_started"@
    }
}

/// The export readiness of a project's segments.
pub fn check_export_readiness(segments: &[SegmentRecord], output_directory: &str) -> (r:
    ExportReadiness)
    ensures
        r.state@ == readiness_state(
            segments@.len(),
            count_where(segments@, |s: SegmentStatus| is_success(s)),
            count_where(segments@, |s: SegmentStatus| is_in_queue(s)),
        ),
        r.total_segments == segments@.len(),
        segments@.len() > 0 ==> r.successful_segments == count_where(
            segments@,
            |s: SegmentStatus| is_success(s),
        ),
        segments@.len() > 0 ==> r.failed_segments == count_where(
            segments@,
            |s: SegmentStatus| is_failed(s),
        ),
        segments@.len() == 0 ==> r.successful_segments == 0 && r.failed_segments == 0,
        r.output_directory@ == output_directory@,
{
    let total = segments.len();
    if total == 0 {
        return ExportReadiness {
            state: "empty_project".to_owned(),
            successful_segments: 0,
            failed_segments: 0,
            total_segments: 0,
            output_directory: output_directory.to_owned(),
        };
    }
    let (ok, failed, queued) = readiness_counts(segments);
    let state = if queued > 0 {
        "queue_running"
    } else if ok == total {
        "ready"
    } else if ok > 0 {
        "partial"
    } else {
        "queue_not_started"
    };
    ExportReadiness {
        state: state.to_owned(),
        successful_segments: ok,
        failed_segments: failed,
        total_segments: total,
        output_directory: output_directory.to_owned(),
    }
}

} // verus!
