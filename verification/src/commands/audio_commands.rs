//! Decisions of the audio commands: which audio files make the master, what the
//! user is warned of, the default file names, and the subtitle format asked for.
use vstd::prelude::*;
use crate::commands::queue_commands::{count_where, is_failed, is_success};
use crate::error::AppError;
use crate::models::segment::SegmentStatus;
use crate::storage::project_repo::SegmentRecord;
use crate::textseq::{chars_to_string, dec, lowercase, push_dec_usize, push_str, str_eq, str_to_chars, to_lowercase_chars};

verus! {

/// The master file written and its length, with a warning when segments are missing.
#[derive(Debug)]
pub struct MergeResult {
    pub output_path: String,
    pub total_duration_ms: u64,
    pub warning: Option<String>,
}

/// The subtitle file written and its content.
#[derive(Debug)]
pub struct SubtitleExportResult {
    pub output_path: String,
    pub content: String,
}

pub open spec fn is_unfinished(s: SegmentStatus) -> bool {
    s == SegmentStatus::Pending || s == SegmentStatus::Queued || s == SegmentStatus::Processing
}

/// The audio paths of the finished segments that have one, in order.
pub open spec fn finished_audio(segs: Seq<SegmentRecord>) -> Seq<Seq<char>>
    decreases segs.len(),
{
    if segs.len() == 0 {
        Seq::empty()
    } else {
        let prev = finished_audio(segs.drop_last());
        let s = segs.last();
        if is_success(s.status) && s.audio_path is Some {
            prev.push(s.audio_path.unwrap()@)
        } else {
            prev
        }
    }
}

/// The warning shown when segments failed or are not yet made.
pub open spec fn merge_warning(failed: nat, unfinished: nat, total: nat) -> Option<Seq<char>> {
    if failed > 0 || unfinished > 0 {
        Some(
            "Cảnh báo: "@ + dec(failed) + " đoạn lỗi, "@ + dec(unfinished)
                + " đoạn chưa xử lý trong tổng "@ + dec(total)
                + " đoạn. File audio có thể bị thiếu nội dung."@,
        )
    } else {
        None
    }
}

proof fn lemma_count_bound(segs: Seq<SegmentRecord>, p: spec_fn(SegmentStatus) -> bool)
    ensures
        count_where(segs, p) <= segs.len(),
    decreases segs.len(),
{
    if segs.len() > 0 {
        lemma_count_bound(segs.drop_last(), p);
    }
}

/// What a merge uses: the audio of the finished segments, and a warning when some
/// failed or are unfinished. Nothing to merge is refused.
pub fn plan_merge(segments: &[SegmentRecord]) -> (r: Result<(Vec<String>, Option<String>), AppError>)
    ensures
        finished_audio(segments@).len() == 0 ==> (r matches Err(AppError::ValidationFailed(m)) && m@
            == "Không có đoạn audio nào đã tạo thành công để ghép file"@),
        finished_audio(segments@).len() > 0 ==> (r matches Ok((paths, warning)) && paths@.map_values(
            |p: String| p@,
        ) == finished_audio(segments@) && match merge_warning(
            count_where(segments@, |s: SegmentStatus| is_failed(s)),
            count_where(segments@, |s: SegmentStatus| is_unfinished(s)),
            segments@.len(),
        ) {
            Some(w) => warning matches Some(x) && x@ == w,
            None => warning is None,
        }),
{
    let mut paths: Vec<String> = Vec::new();
    let mut failed: usize = 0;
    let mut unfinished: usize = 0;
    let mut i: usize = 0;
    while i < segments.len()
        invariant
            0 <= i <= segments@.len(),
            paths@.map_values(|p: String| p@) == finished_audio(segments@.take(i as int)),
            failed == count_where(segments@.take(i as int), |s: SegmentStatus| is_failed(s)),
            unfinished == count_where(segments@.take(i as int), |s: SegmentStatus| is_unfinished(s)),
        decreases segments@.len() - i,
    {
        proof {
            assert(segments@.take(i + 1).drop_last() =~= segments@.take(i as int));
            lemma_count_bound(segments@.take(i as int), |s: SegmentStatus| is_failed(s));
            lemma_count_bound(segments@.take(i as int), |s: SegmentStatus| is_unfinished(s));
        }
        let seg = &segments[i];
        let st = seg.status;
        if st == SegmentStatus::Failed {
            failed = failed + 1;
        }
        if st == SegmentStatus::Pending || st == SegmentStatus::Queued || st == SegmentStatus::Processing {
            unfinished = unfinished + 1;
        }
        if st == SegmentStatus::Success || st == SegmentStatus::Approved {
            match &seg.audio_path {
                Some(p) => {
                    let ghost before = paths@;
                    paths.push(p.clone());
                    assert(paths@.map_values(|p: String| p@) =~= before.map_values(|p: String| p@).push(
                        p@,
                    ));
                },
                None => {},
            }
        }
        i = i + 1;
    }
    proof {
        assert(segments@.take(segments@.len() as int) =~= segments@);
    }
    if paths.len() == 0 {
        return Err(
            AppError::ValidationFailed(
                "Không có đoạn audio nào đã tạo thành công để ghép file".to_owned(),
            ),
        );
    }
    let warning = if failed > 0 || unfinished > 0 {
        let mut v: Vec<char> = Vec::new();
        push_str(&mut v, "Cảnh báo: ");
        push_dec_usize(&mut v, failed);
        push_str(&mut v, " đoạn lỗi, ");
        push_dec_usize(&mut v, unfinished);
        push_str(&mut v, " đoạn chưa xử lý trong tổng ");
        push_dec_usize(&mut v, segments.len());
        push_str(&mut v, " đoạn. File audio có thể bị thiếu nội dung.");
        Some(chars_to_string(v.as_slice()))
    } else {
        None
    };
    Ok((paths, warning))
}

/// Whether a character is alphanumeric, as `char::is_alphanumeric` decides it.
pub uninterp spec fn alphanumeric(c: char) -> bool;

/// `char::is_alphanumeric`; the answer is named by `alphanumeric`.
#[verifier::external_body]
fn char_is_alphanumeric(c: char) -> (r: bool)
    ensures
        r == alphanumeric(c),
{
    c.is_alphanumeric()
}

/// A project name made safe as a file name: every non-alphanumeric character
/// becomes `_`.
pub open spec fn safe_name(name: Seq<char>) -> Seq<char> {
    Seq::new(name.len(), |i: int| if alphanumeric(name[i]) { name[i] } else { '_' })
}

pub fn safe_file_stem(name: &str) -> (r: String)
    ensures
        r@ == safe_name(name@),
{
    let cs = str_to_chars(name);
    let mut out: Vec<char> = Vec::new();
    let mut i: usize = 0;
    while i < cs.len()
        invariant
            0 <= i <= cs@.len(),
            cs@ == name@,
            out@.len() == i,
            forall|k: int| 0 <= k < i ==> out@[k] == if alphanumeric(cs@[k]) { cs@[k] } else { '_' },
        decreases cs@.len() - i,
    {
        let c = cs[i];
        if char_is_alphanumeric(c) {
            out.push(c);
        } else {
            out.push('_');
        }
        i = i + 1;
    }
    assert(out@ =~= safe_name(name@));
    chars_to_string(out.as_slice())
}

/// The subtitle extension asked for: `vtt` or `lrc` (any case), else `srt`.
pub open spec fn subtitle_extension(format_type: Seq<char>) -> Seq<char> {
    if lowercase(format_type) == "vtt"@ {
        "vtt"@
    } else if lowercase(format_type) == "lrc"@ {
        "lrc"@
    } else {
        "srt"@
    }
}

pub fn subtitle_format(format_type: &str) -> (r: &'static str)
    ensures
        r@ == subtitle_extension(format_type@),
{
    let cs = str_to_chars(format_type);
    let lower = to_lowercase_chars(cs.as_slice());
    let ls = chars_to_string(lower.as_slice());
    if str_eq(ls.as_str(), "vtt") {
        "vtt"
    } else if str_eq(ls.as_str(), "lrc") {
        "lrc"
    } else {
        "srt"
    }
}

} // verus!
