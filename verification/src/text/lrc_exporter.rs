//! LRC lyrics-style subtitles: a header and one timed line per segment.
use vstd::prelude::*;
use crate::storage::project_repo::SegmentRecord;
use crate::text::srt_exporter::{cue_duration, cue_start, lemma_cue_start_mono, timeline_fits};
use crate::textseq::{chars_to_string, pad_dec, push_all, push_dec_padded, push_str, str_to_chars, trim, trim_chars};

verus! {

/// A line of an LRC file: when it starts and its text.
#[derive(Debug)]
pub struct LrcSegment {
    pub start_ms: u64,
    pub text: String,
}

/// Writer of LRC files.
pub struct LrcExporter;

/// `[mm:ss.hh]` for a start time in milliseconds (minutes not capped).
pub open spec fn lrc_timestamp(ms: nat) -> Seq<char> {
    "["@ + pad_dec((ms / 1000) / 60, 2) + ":"@ + pad_dec((ms / 1000) % 60, 2) + "."@ + pad_dec(
        (ms % 1000) / 10,
        2,
    ) + "]"@
}

/// An LRC timestamp reads back to its start time, to the hundredth: it is
/// `[mm:ss.hh]` with `mm` the whole minutes (not wrapped at an hour), `ss` below
/// 60, `hh` below 100, and `mm * 60000 + ss * 1000 + hh * 10` the start time
/// less its last digit of milliseconds.
pub proof fn lemma_lrc_timestamp_reads_back(ms: nat)
    ensures
        exists|mm: nat, ss: nat, hh: nat|
            #![trigger pad_dec(mm, 2), pad_dec(ss, 2), pad_dec(hh, 2)]
            ss < 60 && hh < 100 && mm == ms / 60000 && mm * 60000 + ss * 1000 + hh * 10 == ms - ms % 10
                && lrc_timestamp(ms) == "["@ + pad_dec(mm, 2) + ":"@ + pad_dec(ss, 2) + "."@ + pad_dec(
                hh,
                2,
            ) + "]"@,
{
    let mm = (ms / 1000) / 60;
    let ss = (ms / 1000) % 60;
    let hh = (ms % 1000) / 10;
    vstd::arithmetic::div_mod::lemma_div_denominator(ms as int, 1000, 60);
    assert(mm == ms / 60000);
    assert(mm * 60000 + ss * 1000 + hh * 10 == ms - ms % 10) by (nonlinear_arith)
        requires
            mm == ms / 60000,
            ss == (ms / 1000) % 60,
            hh == (ms % 1000) / 10,
            mm == (ms / 1000) / 60,
    {
    }
    assert(ss < 60 && hh < 100);
    assert(lrc_timestamp(ms) == "["@ + pad_dec(mm, 2) + ":"@ + pad_dec(ss, 2) + "."@ + pad_dec(hh, 2)
        + "]"@);
}

/// The header and one line per segment.
pub open spec fn lrc_lines(segs: Seq<LrcSegment>) -> Seq<char>
    decreases segs.len(),
{
    if segs.len() == 0 {
        Seq::empty()
    } else {
        lrc_lines(segs.drop_last()) + lrc_timestamp(segs.last().start_ms as nat) + " "@ + trim(
            segs.last().text@,
        ) + "\n"@
    }
}

pub open spec fn lrc_text(segs: Seq<LrcSegment>, title: Seq<char>, artist: Seq<char>) -> Seq<char> {
    "[ti:"@ + title + "]\n"@ + "[ar:"@ + artist + "]\n"@ + "[by:Auto TTS Desktop Studio]\n"@
        + "[re:Gemini TTS Free Tier]\n\n"@ + lrc_lines(segs)
}

impl LrcExporter {
    /// The content of the LRC file for the segments.
    pub fn lrc_content(segments: &[LrcSegment], title: &str, artist: &str) -> (r: String)
        ensures
            r@ == lrc_text(segments@, title@, artist@),
    {
        let mut v: Vec<char> = Vec::new();
        push_str(&mut v, "[ti:");
        push_str(&mut v, title);
        push_str(&mut v, "]\n");
        push_str(&mut v, "[ar:");
        push_str(&mut v, artist);
        push_str(&mut v, "]\n");
        push_str(&mut v, "[by:Auto TTS Desktop Studio]\n");
        push_str(&mut v, "[re:Gemini TTS Free Tier]\n\n");
        let ghost head = v@;
        let mut i: usize = 0;
        while i < segments.len()
            invariant
                0 <= i <= segments@.len(),
                v@ == head + lrc_lines(segments@.take(i as int)),
            decreases segments@.len() - i,
        {
            proof {
                assert(segments@.take(i + 1).drop_last() =~= segments@.take(i as int));
            }
            let seg = &segments[i];
            let total_secs = seg.start_ms / 1000;
            let ghost before = v@;
            push_str(&mut v, "[");
            push_dec_padded(&mut v, total_secs / 60, 2);
            push_str(&mut v, ":");
            push_dec_padded(&mut v, total_secs % 60, 2);
            push_str(&mut v, ".");
            push_dec_padded(&mut v, (seg.start_ms % 1000) / 10, 2);
            push_str(&mut v, "]");
            push_str(&mut v, " ");
            let t = str_to_chars(seg.text.as_str());
            let tt = trim_chars(t.as_slice());
            push_all(&mut v, tt.as_slice());
            push_str(&mut v, "\n");
            assert(v@ =~= before + lrc_timestamp(seg.start_ms as nat) + " "@ + trim(seg.text@) + "\n"@);
            i = i + 1;
        }
        proof {
            assert(segments@.take(segments@.len() as int) =~= segments@);
        }
        assert(v@ =~= lrc_text(segments@, title@, artist@));
        chars_to_string(v.as_slice())
    }
}

/// The LRC lines of the segments in order: each starts where its cue starts on the
/// subtitle timeline (audio durations, `estimated_ms[i]` where segment `i` has no
/// audio yet, and a gap after each).
pub fn lrc_segments_of(segments: &[SegmentRecord], silence_gap_ms: u64, estimated_ms: &[u64]) -> (r: Vec<
    LrcSegment,
>)
    requires
        estimated_ms@.len() == segments@.len(),
        timeline_fits(segments@, estimated_ms@, silence_gap_ms as nat),
    ensures
        r@.len() == segments@.len(),
        forall|i: int|
            0 <= i < r@.len() ==> (#[trigger] r@[i]).start_ms == cue_start(
                segments@,
                estimated_ms@,
                silence_gap_ms as nat,
                i as nat,
            ) && r@[i].text@ == segments@[i].text@,
{
    let ghost segs = segments@;
    let ghost est = estimated_ms@;
    let ghost gap = silence_gap_ms as nat;
    let mut out: Vec<LrcSegment> = Vec::new();
    let mut current: u64 = 0;
    let mut i: usize = 0;
    while i < segments.len()
        invariant
            0 <= i <= segs.len(),
            segs == segments@,
            est == estimated_ms@,
            gap == silence_gap_ms as nat,
            est.len() == segs.len(),
            timeline_fits(segs, est, gap),
            current == cue_start(segs, est, gap, i as nat),
            out@.len() == i,
            forall|j: int|
                0 <= j < i ==> (#[trigger] out@[j]).start_ms == cue_start(segs, est, gap, j as nat)
                    && out@[j].text@ == segs[j].text@,
        decreases segs.len() - i,
    {
        proof {
            lemma_cue_start_mono(segs, est, gap, (i + 1) as nat, segs.len());
        }
        let seg = &segments[i];
        assert(cue_duration(segs[i as int], est[i as int]) + current + gap == cue_start(
            segs,
            est,
            gap,
            (i + 1) as nat,
        ));
        let duration: u64 = if seg.duration_ms > 0 {
            seg.duration_ms
        } else {
            estimated_ms[i]
        };
        out.push(LrcSegment { start_ms: current, text: seg.text.clone() });
        current = current + duration + silence_gap_ms;
        i = i + 1;
    }
    out
}

} // verus!
