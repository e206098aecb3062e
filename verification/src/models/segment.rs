//! Lifecycle and review states of a text segment, with their stored names.
use vstd::prelude::*;
use crate::textseq::{chars_to_string, push_str, str_eq};

verus! {

/// Where a segment stands in synthesis.
#[derive(Debug, Clone, Copy, PartialEq, Eq, Structural)]
pub enum SegmentStatus {
    Pending,
    Queued,
    Processing,
    Success,
    Approved,
    RetryWait,
    Failed,
    Stale,
}

/// The stored name of a segment status.
pub open spec fn segment_status_name(s: SegmentStatus) -> Seq<char> {
    match s {
        SegmentStatus::Pending => "pending"@,
        SegmentStatus::Queued => "queued"@,
        SegmentStatus::Processing => "processing"@,
        SegmentStatus::Success => "success"@,
        SegmentStatus::Approved => "approved"@,
        SegmentStatus::RetryWait => "retry_wait"@,
        SegmentStatus::Failed => "failed"@,
        SegmentStatus::Stale => "stale"@,
    }
}

/// The status whose stored name is `s`, if any.
pub open spec fn segment_status_named(s: Seq<char>) -> Option<SegmentStatus> {
    if s == "pending"@ {
        Some(SegmentStatus::Pending)
    } else if s == "queued"@ {
        Some(SegmentStatus::Queued)
    } else if s == "processing"@ {
        Some(SegmentStatus::Processing)
    } else if s == "success"@ {
        Some(SegmentStatus::Success)
    } else if s == "approved"@ {
        Some(SegmentStatus::Approved)
    } else if s == "retry_wait"@ {
        Some(SegmentStatus::RetryWait)
    } else if s == "failed"@ {
        Some(SegmentStatus::Failed)
    } else if s == "stale"@ {
        Some(SegmentStatus::Stale)
    } else {
        None
    }
}

/// The message for a name that is no status.
pub open spec fn invalid_status_message(kind: Seq<char>, name: Seq<char>) -> Seq<char> {
    "Invalid "@ + kind + ": '"@ + name + "'"@
}

fn invalid_message(kind: &str, name: &str) -> (r: String)
    ensures
        r@ == invalid_status_message(kind@, name@),
{
    let mut v: Vec<char> = Vec::new();
    push_str(&mut v, "Invalid ");
    push_str(&mut v, kind);
    push_str(&mut v, ": '");
    push_str(&mut v, name);
    push_str(&mut v, "'");
    chars_to_string(v.as_slice())
}

impl SegmentStatus {
    /// The stored name.
    pub fn as_str(&self) -> (r: &'static str)
        ensures
            r@ == segment_status_name(*self),
    {
        match self {
            SegmentStatus::Pending => "pending",
            SegmentStatus::Queued => "queued",
            SegmentStatus::Processing => "processing",
            SegmentStatus::Success => "success",
            SegmentStatus::Approved => "approved",
            SegmentStatus::RetryWait => "retry_wait",
            SegmentStatus::Failed => "failed",
            SegmentStatus::Stale => "stale",
        }
    }

    /// The status with the stored name `s`; any other text is refused.
    pub fn parse(s: &str) -> (r: Result<SegmentStatus, String>)
        ensures
            match segment_status_named(s@) {
                Some(x) => r == Ok::<SegmentStatus, String>(x),
                None => r matches Err(e) && e@ == invalid_status_message("SegmentStatus"@, s@),
            },
    {
        if str_eq(s, "pending") {
            Ok(SegmentStatus::Pending)
        } else if str_eq(s, "queued") {
            Ok(SegmentStatus::Queued)
        } else if str_eq(s, "processing") {
            Ok(SegmentStatus::Processing)
        } else if str_eq(s, "success") {
            Ok(SegmentStatus::Success)
        } else if str_eq(s, "approved") {
            Ok(SegmentStatus::Approved)
        } else if str_eq(s, "retry_wait") {
            Ok(SegmentStatus::RetryWait)
        } else if str_eq(s, "failed") {
            Ok(SegmentStatus::Failed)
        } else if str_eq(s, "stale") {
            Ok(SegmentStatus::Stale)
        } else {
            Err(invalid_message("SegmentStatus", s))
        }
    }
}

impl std::str::FromStr for SegmentStatus {
    type Err = String;

    fn from_str(s: &str) -> (r: Result<SegmentStatus, String>)
        ensures
            match segment_status_named(s@) {
                Some(x) => r == Ok::<SegmentStatus, String>(x),
                None => r matches Err(e) && e@ == invalid_status_message("SegmentStatus"@, s@),
            },
    {
        SegmentStatus::parse(s)
    }
}

/// Reading back the stored name of a segment status gives the status.
pub proof fn lemma_segment_status_round_trip(s: SegmentStatus)
    ensures
        segment_status_named(segment_status_name(s)) == Some(s),
{
    reveal_strlit("pending");
    reveal_strlit("queued");
    reveal_strlit("processing");
    reveal_strlit("success");
    reveal_strlit("approved");
    reveal_strlit("retry_wait");
    reveal_strlit("failed");
    reveal_strlit("stale");
    match s {
        SegmentStatus::Pending => {

        },
        SegmentStatus::Queued => {
            assert("queued"@[0] != "pending"@[0]);
        },
        SegmentStatus::Processing => {
            assert("processing"@[1] != "pending"@[1]);
            assert("processing"@[0] != "queued"@[0]);
        },
        SegmentStatus::Success => {
            assert("success"@[0] != "pending"@[0]);
            assert("success"@[0] != "queued"@[0]);
            assert("success"@[0] != "processing"@[0]);
        },
        SegmentStatus::Approved => {
            assert("approved"@[0] != "pending"@[0]);
            assert("approved"@[0] != "queued"@[0]);
            assert("approved"@[0] != "processing"@[0]);
            assert("approved"@[0] != "success"@[0]);
        },
        SegmentStatus::RetryWait => {
            assert("retry_wait"@[0] != "pending"@[0]);
            assert("retry_wait"@[0] != "queued"@[0]);
            assert("retry_wait"@[0] != "processing"@[0]);
            assert("retry_wait"@[0] != "success"@[0]);
            assert("retry_wait"@[0] != "approved"@[0]);
        },
        SegmentStatus::Failed => {
            assert("failed"@[0] != "pending"@[0]);
            assert("failed"@[0] != "queued"@[0]);
            assert("failed"@[0] != "processing"@[0]);
            assert("failed"@[0] != "success"@[0]);
            assert("failed"@[0] != "approved"@[0]);
            assert("failed"@[0] != "retry_wait"@[0]);
        },
        SegmentStatus::Stale => {
            assert("stale"@[0] != "pending"@[0]);
            assert("stale"@[0] != "queued"@[0]);
            assert("stale"@[0] != "processing"@[0]);
            assert("stale"@[1] != "success"@[1]);
            assert("stale"@[0] != "approved"@[0]);
            assert("stale"@[0] != "retry_wait"@[0]);
            assert("stale"@[0] != "failed"@[0]);
        },
    }
}

/// The verdict of a listening check on a segment's audio.
#[derive(Debug, Clone, Copy, PartialEq, Eq, Structural)]
pub enum ReviewStatus {
    Unreviewed,
    Approved,
    NeedsFix,
}

pub open spec fn review_status_name(s: ReviewStatus) -> Seq<char> {
    match s {
        ReviewStatus::Unreviewed => "unreviewed"@,
        ReviewStatus::Approved => "approved"@,
        ReviewStatus::NeedsFix => "needs_fix"@,
    }
}

/// The verdict whose stored name is `s`, if any.
pub open spec fn review_status_named(s: Seq<char>) -> Option<ReviewStatus> {
    if s == "unreviewed"@ {
        Some(ReviewStatus::Unreviewed)
    } else if s == "approved"@ {
        Some(ReviewStatus::Approved)
    } else if s == "needs_fix"@ {
        Some(ReviewStatus::NeedsFix)
    } else {
        None
    }
}

impl ReviewStatus {
    /// The stored name.
    pub fn as_str(&self) -> (r: &'static str)
        ensures
            r@ == review_status_name(*self),
    {
        match self {
            ReviewStatus::Unreviewed => "unreviewed",
            ReviewStatus::Approved => "approved",
            ReviewStatus::NeedsFix => "needs_fix",
        }
    }

    /// The verdict with the stored name `s`; any other text is refused.
    pub fn parse(s: &str) -> (r: Result<ReviewStatus, String>)
        ensures
            match review_status_named(s@) {
                Some(x) => r == Ok::<ReviewStatus, String>(x),
                None => r matches Err(e) && e@ == invalid_status_message("ReviewStatus"@, s@),
            },
    {
        if str_eq(s, "unreviewed") {
            Ok(ReviewStatus::Unreviewed)
        } else if str_eq(s, "approved") {
            Ok(ReviewStatus::Approved)
        } else if str_eq(s, "needs_fix") {
            Ok(ReviewStatus::NeedsFix)
        } else {
            Err(invalid_message("ReviewStatus", s))
        }
    }
}

impl std::str::FromStr for ReviewStatus {
    type Err = String;

    fn from_str(s: &str) -> (r: Result<ReviewStatus, String>)
        ensures
            match review_status_named(s@) {
                Some(x) => r == Ok::<ReviewStatus, String>(x),
                None => r matches Err(e) && e@ == invalid_status_message("ReviewStatus"@, s@),
            },
    {
        ReviewStatus::parse(s)
    }
}

/// Reading back the stored name of a verdict gives the verdict.
pub proof fn lemma_review_status_round_trip(s: ReviewStatus)
    ensures
        review_status_named(review_status_name(s)) == Some(s),
{
    reveal_strlit("unreviewed");
    reveal_strlit("approved");
    reveal_strlit("needs_fix");
    match s {
        ReviewStatus::Unreviewed => {

        },
        ReviewStatus::Approved => {
            assert("approved"@[0] != "unreviewed"@[0]);
        },
        ReviewStatus::NeedsFix => {
            assert("needs_fix"@[0] != "unreviewed"@[0]);
            assert("needs_fix"@[0] != "approved"@[0]);
        },
    }
}

} // verus!
