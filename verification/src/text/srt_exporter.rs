//! SubRip subtitles for a project's segments, and the cue timing shared with
//! WebVTT: cues follow each other with a fixed silence between them.
use vstd::prelude::*;
use crate::storage::project_repo::SegmentRecord;
use crate::textseq::{chars_to_string, dec, pad_dec, push_all, push_dec_padded, push_dec_usize, push_str, str_to_chars, trim, trim_chars};

verus! {

/// `HH:MM:SS<sep>mmm` for a time in milliseconds (hours not capped).
pub open spec fn timestamp(ms: nat, sep: char) -> Seq<char> {
    let rem_h = ms % 3_600_000;
    let rem_m = rem_h % 60_000;
    pad_dec(ms / 3_600_000, 2) + ":"@ + pad_dec(rem_h / 60_000, 2) + ":"@ + pad_dec(rem_m / 1000, 2)
        + seq![sep] + pad_dec(rem_m % 1000, 3)
}

pub(crate) fn push_timestamp(out: &mut Vec<char>, ms: u64, sep: char)
    ensures
        final(out)@ == old(out)@ + timestamp(ms as nat, sep),
{
    let hours = ms / 3_600_000;
    let rem_h = ms % 3_600_000;
    let minutes = rem_h / 60_000;
    let rem_m = rem_h % 60_000;
    let seconds = rem_m / 1_000;
    let millis = rem_m % 1_000;
    push_dec_padded(out, hours, 2);
    push_str(out, ":");
    push_dec_padded(out, minutes, 2);
    push_str(out, ":");
    push_dec_padded(out, seconds, 2);
    out.push(sep);
    push_dec_padded(out, millis, 3);
    assert(out@ =~= old(out)@ + timestamp(ms as nat, sep));
}

/// Formats milliseconds as a SubRip timestamp `HH:MM:SS,mmm`.
pub fn format_srt_timestamp(ms: u64) -> (r: String)
    ensures
        r@ == timestamp(ms as nat, ','),
{
    let mut v: Vec<char> = Vec::new();
    push_timestamp(&mut v, ms, ',');
    assert(v@ =~= timestamp(ms as nat, ','));
    chars_to_string(v.as_slice())
}

/// How long a segment's cue lasts: its audio's duration, or the estimate where no
/// audio exists yet.
pub open spec fn cue_duration(seg: SegmentRecord, estimate: u64) -> nat {
    if seg.duration_ms > 0 {
        seg.duration_ms as nat
    } else {
        estimate as nat
    }
}

/// When cue `k` starts: the durations of the earlier cues and a gap after each.
pub open spec fn cue_start(segs: Seq<SegmentRecord>, est: Seq<u64>, gap: nat, k: nat) -> nat
    decreases k,
{
    if k == 0 {
        0
    } else {
        cue_start(segs, est, gap, (k - 1) as nat) + cue_duration(segs[k - 1], est[k - 1]) + gap
    }
}

/// One cue: number, time range, trimmed text and a blank line.
pub open spec fn cue_text(n: nat, start: nat, end: nat, text: Seq<char>, sep: char) -> Seq<char> {
    dec(n) + "\n"@ + timestamp(start, sep) + " --> "@ + timestamp(end, sep) + "\n"@ + trim(text)
        + "\n\n"@
}

/// The first `k` cues.
pub open spec fn cues(segs: Seq<SegmentRecord>, est: Seq<u64>, gap: nat, k: nat, sep: char) -> Seq<char>
    decreases k,
{
    if k == 0 {
        Seq::empty()
    } else {
        let s = cue_start(segs, est, gap, (k - 1) as nat);
        cues(segs, est, gap, (k - 1) as nat, sep) + cue_text(
            k,
            s,
            s + cue_duration(segs[k - 1], est[k - 1]),
            segs[k - 1].text@,
            sep,
        )
    }
}

/// Cue `k` lasts the segment's audio duration when its audio exists, and the
/// estimate only when it does not; the next cue starts after it and the gap.
pub proof fn lemma_cue_lasts_audio_duration(segs: Seq<SegmentRecord>, est: Seq<u64>, gap: nat, k: nat, sep: char)
    requires
        k < segs.len(),
        est.len() == segs.len(),
    ensures
        ({
            let start = cue_start(segs, est, gap, k);
            let d: nat = if segs[k as int].duration_ms > 0 {
                segs[k as int].duration_ms as nat
            } else {
                est[k as int] as nat
            };
            &&& cue_start(segs, est, gap, k + 1) == start + d + gap
            &&& cues(segs, est, gap, k + 1, sep) == cues(segs, est, gap, k, sep) + cue_text(
                k + 1,
                start,
                start + d,
                segs[k as int].text@,
                sep,
            )
        }),
{
}

/// Estimates count only for segments without audio: two estimate lists that
/// agree on those segments give the same cues and the same timeline.
pub proof fn lemma_estimates_only_for_silent_segments(
    segs: Seq<SegmentRecord>,
    e1: Seq<u64>,
    e2: Seq<u64>,
    gap: nat,
    n: nat,
    sep: char,
)
    requires
        e1.len() == segs.len(),
        e2.len() == segs.len(),
        n <= segs.len(),
        forall|i: int| 0 <= i < segs.len() && segs[i].duration_ms == 0 ==> e1[i] == e2[i],
    ensures
        cue_start(segs, e1, gap, n) == cue_start(segs, e2, gap, n),
        cues(segs, e1, gap, n, sep) == cues(segs, e2, gap, n, sep),
    decreases n,
{
    if n > 0 {
        lemma_estimates_only_for_silent_segments(segs, e1, e2, gap, (n - 1) as nat, sep);
        lemma_cue_lasts_audio_duration(segs, e1, gap, (n - 1) as nat, sep);
        lemma_cue_lasts_audio_duration(segs, e2, gap, (n - 1) as nat, sep);
    }
}

/// Cues never start earlier than the cues before them.
pub proof fn lemma_cue_start_mono(segs: Seq<SegmentRecord>, est: Seq<u64>, gap: nat, i: nat, j: nat)
    requires
        i <= j,
    ensures
        cue_start(segs, est, gap, i) <= cue_start(segs, est, gap, j),
    decreases j,
{
    if i < j {
        lemma_cue_start_mono(segs, est, gap, i, (j - 1) as nat);
    }
}

/// The time at which the last cue's gap ends fits in 64 bits.
pub open spec fn timeline_fits(segs: Seq<SegmentRecord>, est: Seq<u64>, gap: nat) -> bool {
    cue_start(segs, est, gap, segs.len()) <= u64::MAX
}

/// Whether the cue timeline of the segments, gaps included, fits in 64 bits: the
/// condition under which the subtitle generators can be called.
pub fn timeline_in_range(segments: &[SegmentRecord], silence_gap_ms: u64, estimated_ms: &[u64]) -> (r:
    bool)
    requires
        estimated_ms@.len() == segments@.len(),
    ensures
        r == timeline_fits(segments@, estimated_ms@, silence_gap_ms as nat),
{
    let ghost segs = segments@;
    let ghost est = estimated_ms@;
    let ghost gap = silence_gap_ms as nat;
    let mut current: u64 = 0;
    let mut i: usize = 0;
    while i < segments.len()
        invariant
            0 <= i <= segs.len(),
            segs == segments@,
            est == estimated_ms@,
            gap == silence_gap_ms as nat,
            est.len() == segs.len(),
            current == cue_start(segs, est, gap, i as nat),
        decreases segs.len() - i,
    {
        let seg = &segments[i];
        let duration: u64 = if seg.duration_ms > 0 {
            seg.duration_ms
        } else {
            estimated_ms[i]
        };
        let next = match current.checked_add(duration) {
            Some(x) => x.checked_add(silence_gap_ms),
            None => None,
        };
        match next {
            Some(x) => {
                current = x;
            },
            None => {
                proof {
                    lemma_cue_start_mono(segs, est, gap, (i + 1) as nat, segs.len());
                }
                return false;
            },
        }
        i = i + 1;
    }
    true
}

fn push_cue(out: &mut Vec<char>, n: usize, start: u64, end: u64, text: &String, sep: char)
    ensures
        final(out)@ == old(out)@ + cue_text(n as nat, start as nat, end as nat, text@, sep),
{
    push_dec_usize(out, n);
    push_str(out, "\n");
    push_timestamp(out, start, sep);
    push_str(out, " --> ");
    push_timestamp(out, end, sep);
    push_str(out, "\n");
    let tc = str_to_chars(text.as_str());
    let tt = trim_chars(tc.as_slice());
    push_all(out, tt.as_slice());
    push_str(out, "\n\n");
    assert(out@ =~= old(out)@ + cue_text(n as nat, start as nat, end as nat, text@, sep));
}

pub(crate) fn push_cues(
    out: &mut Vec<char>,
    segments: &[SegmentRecord],
    silence_gap_ms: u64,
    estimated_ms: &[u64],
    sep: char,
)
    requires
        estimated_ms@.len() == segments@.len(),
        timeline_fits(segments@, estimated_ms@, silence_gap_ms as nat),
    ensures
        final(out)@ == old(out)@ + cues(
            segments@,
            estimated_ms@,
            silence_gap_ms as nat,
            segments@.len(),
            sep,
        ),
{
    let ghost segs = segments@;
    let ghost est = estimated_ms@;
    let ghost gap = silence_gap_ms as nat;
    let mut current: u64 = 0;
    let mut i: usize = 0;
    assert(out@ =~= old(out)@ + cues(segs, est, gap, 0, sep));
    while i < segments.len()
        invariant
            0 <= i <= segs.len(),
            segs == segments@,
            est == estimated_ms@,
            gap == silence_gap_ms as nat,
            est.len() == segs.len(),
            timeline_fits(segs, est, gap),
            current == cue_start(segs, est, gap, i as nat),
            out@ == old(out)@ + cues(segs, est, gap, i as nat, sep),
        decreases segs.len() - i,
    {
        proof {
            lemma_cue_start_mono(segs, est, gap, (i + 1) as nat, segs.len());
        }
        let seg = &segments[i];
        assert(cue_duration(segs[i as int], est[i as int]) + current + gap == cue_start(segs, est, gap, (i + 1) as nat));
        let duration: u64 = if seg.duration_ms > 0 {
            seg.duration_ms
        } else {
            estimated_ms[i]
        };
        let end = current + duration;
        push_cue(out, i + 1, current, end, &seg.text, sep);
        current = end + silence_gap_ms;
        i = i + 1;
    }
}

/// SubRip subtitles for the segments in order; `estimated_ms[i]` is the length of
/// segment `i` where its audio does not exist yet (duration 0).
pub fn generate_srt_subtitles(segments: &[SegmentRecord], silence_gap_ms: u64, estimated_ms: &[u64]) -> (r:
    String)
    requires
        estimated_ms@.len() == segments@.len(),
        timeline_fits(segments@, estimated_ms@, silence_gap_ms as nat),
    ensures
        r@ == cues(segments@, estimated_ms@, silence_gap_ms as nat, segments@.len(), ','),
{
    let mut out: Vec<char> = Vec::new();
    push_cues(&mut out, segments, silence_gap_ms, estimated_ms, ',');
    assert(out@ =~= cues(segments@, estimated_ms@, silence_gap_ms as nat, segments@.len(), ','));
    chars_to_string(out.as_slice())
}

} // verus!
