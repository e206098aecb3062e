//! WebVTT subtitles for a project's segments.
use vstd::prelude::*;
use crate::storage::project_repo::SegmentRecord;
use crate::text::srt_exporter::{cues, push_cues, push_timestamp, timeline_fits, timestamp};
use crate::textseq::{chars_to_string, dec, digit_char, pad_dec, push_str, zeros};

verus! {

/// Formats milliseconds as a WebVTT timestamp `HH:MM:SS.mmm`.
pub fn format_vtt_timestamp(ms: u64) -> (r: String)
    ensures
        r@ == timestamp(ms as nat, '.'),
{
    let mut v: Vec<char> = Vec::new();
    push_timestamp(&mut v, ms, '.');
    assert(v@ =~= timestamp(ms as nat, '.'));
    chars_to_string(v.as_slice())
}

/// `s` with every comma turned into a dot.
pub open spec fn comma_to_dot(s: Seq<char>) -> Seq<char> {
    s.map_values(|c: char| if c == ',' { '.' } else { c })
}

proof fn lemma_dec_has_no_comma(n: nat)
    ensures
        forall|i: int| 0 <= i < dec(n).len() ==> dec(n)[i] != ',',
    decreases n,
{
    if n >= 10 {
        lemma_dec_has_no_comma(n / 10);
        assert(digit_char(n % 10) != ',');
        let p = dec(n / 10);
        assert forall|i: int| 0 <= i < dec(n).len() implies dec(n)[i] != ',' by {
            if i < p.len() {
                assert(dec(n)[i] == p[i]);
            }
        }
    } else {
        assert(digit_char(n) != ',');
    }
}

proof fn lemma_pad_dec_has_no_comma(n: nat, w: nat)
    ensures
        forall|i: int| 0 <= i < pad_dec(n, w).len() ==> pad_dec(n, w)[i] != ',',
{
    lemma_dec_has_no_comma(n);
    if dec(n).len() < w {
        let z = zeros((w - dec(n).len()) as nat);
        assert forall|i: int| 0 <= i < pad_dec(n, w).len() implies pad_dec(n, w)[i] != ',' by {
            if i < z.len() {
                assert(pad_dec(n, w)[i] == z[i]);
            } else {
                assert(pad_dec(n, w)[i] == dec(n)[i - z.len()]);
            }
        }
    }
}

/// A WebVTT timestamp is the SubRip one with its comma turned into a dot: the
/// two formats differ only in the separator before the milliseconds.
pub proof fn lemma_vtt_timestamp_is_srt_with_dot(ms: nat)
    ensures
        timestamp(ms, '.') == comma_to_dot(timestamp(ms, ',')),
{
    let rem_h = ms % 3_600_000;
    let rem_m = rem_h % 60_000;
    let h = pad_dec(ms / 3_600_000, 2);
    let m = pad_dec(rem_h / 60_000, 2);
    let sec = pad_dec(rem_m / 1000, 2);
    let milli = pad_dec(rem_m % 1000, 3);
    lemma_pad_dec_has_no_comma(ms / 3_600_000, 2);
    lemma_pad_dec_has_no_comma(rem_h / 60_000, 2);
    lemma_pad_dec_has_no_comma(rem_m / 1000, 2);
    lemma_pad_dec_has_no_comma(rem_m % 1000, 3);
    let a = h + ":"@ + m + ":"@ + sec;
    reveal_strlit(":");
    assert forall|i: int| 0 <= i < a.len() implies a[i] != ',' by {
        if i < h.len() {
            assert(a[i] == h[i]);
        } else if i == h.len() {
            assert(a[i] == ':');
        } else if i < h.len() + 1 + m.len() {
            assert(a[i] == m[i - h.len() - 1]);
        } else if i == h.len() + 1 + m.len() {
            assert(a[i] == ':');
        } else {
            assert(a[i] == sec[i - h.len() - 2 - m.len()]);
        }
    }
    assert(timestamp(ms, ',') == a + seq![','] + milli);
    assert(timestamp(ms, '.') == a + seq!['.'] + milli);
    assert(comma_to_dot(timestamp(ms, ',')) =~= a + seq!['.'] + milli) by {
        assert forall|i: int| 0 <= i < a.len() + 1 + milli.len() implies #[trigger] comma_to_dot(
            timestamp(ms, ','),
        )[i] == (a + seq!['.'] + milli)[i] by {
            if i > a.len() {
                assert(milli[i - a.len() - 1] != ',');
            }
        }
    }
}

/// The WebVTT header line.
pub open spec fn vtt_header() -> Seq<char> {
    "WEBVTT - Auto TTS Desktop Studio Generated\n\n"@
}

/// WebVTT subtitles for the segments in order; `estimated_ms[i]` is the length of
/// segment `i` where its audio does not exist yet (duration 0).
pub fn generate_vtt_subtitles(segments: &[SegmentRecord], silence_gap_ms: u64, estimated_ms: &[u64]) -> (r:
    String)
    requires
        estimated_ms@.len() == segments@.len(),
        timeline_fits(segments@, estimated_ms@, silence_gap_ms as nat),
    ensures
        r@ == vtt_header() + cues(segments@, estimated_ms@, silence_gap_ms as nat, segments@.len(), '.'),
{
    let mut out: Vec<char> = Vec::new();
    push_str(&mut out, "WEBVTT - Auto TTS Desktop Studio Generated\n\n");
    push_cues(&mut out, segments, silence_gap_ms, estimated_ms, '.');
    chars_to_string(out.as_slice())
}

} // verus!
