//! Project and segment records as the database holds them.
use vstd::prelude::*;
use crate::models::segment::{ReviewStatus, SegmentStatus};
use crate::textseq::{
    char_width, chars_to_string, lemma_utf8_len_take_strict, push_all, push_str, str_eq, str_to_chars, sub_chars, trim,
    trim_chars, utf8_len, non_ws, lemma_trim_keeps_non_ws, lemma_non_ws_add, lemma_non_ws_single,
};

verus! {

/// A project: its source text and the voice settings its segments are read with.
#[derive(Debug)]
pub struct ProjectRecord {
    pub id: String,
    pub name: String,
    pub source_text: String,
    pub model: String,
    pub voice: String,
    pub preset: String,
    pub pacing: String,
    pub pronunciation_notes: Option<String>,
    pub output_directory: String,
    pub status: String,
    pub created_at: String,
    pub updated_at: String,
}

/// A segment of a project with its synthesis, lease and review state.
#[derive(Debug)]
pub struct SegmentRecord {
    pub id: String,
    pub project_id: String,
    pub position: usize,
    pub text: String,
    pub prompt: String,
    pub status: SegmentStatus,
    pub attempts: u32,
    pub audio_path: Option<String>,
    pub duration_ms: u64,
    pub error_code: Option<u16>,
    pub error_message: Option<String>,
    pub created_at: String,
    pub updated_at: String,
    pub fingerprint: Option<String>,
    pub output_fingerprint: Option<String>,
    pub attempt_count: u32,
    pub next_retry_at: Option<i64>,
    pub queued_at: Option<i64>,
    pub started_at: Option<i64>,
    pub finished_at: Option<i64>,
    pub lease_owner: Option<String>,
    pub lease_expires_at: Option<i64>,
    pub last_error_code: Option<String>,
    pub last_error_message: Option<String>,
    pub cancel_requested: bool,
    pub state_revision: u64,
    pub output_size: u64,
    pub voice: Option<String>,
    pub review_status: Option<ReviewStatus>,
    pub reviewed_output_fingerprint: Option<String>,
}

/// Where a segment's text is cut: at the character whose UTF-8 offset is `idx`
/// when `idx` is such a boundary, otherwise before character number `idx` (or at
/// the end).
pub open spec fn split_position(t: Seq<char>, idx: nat) -> nat {
    if exists|k: nat| k <= t.len() && utf8_len(#[trigger] t.take(k as int)) == idx {
        choose|k: nat| k <= t.len() && utf8_len(#[trigger] t.take(k as int)) == idx
    } else if idx < t.len() {
        idx
    } else {
        t.len()
    }
}

/// The two texts of a split, trimmed.
pub open spec fn split_texts(t: Seq<char>, idx: nat) -> (Seq<char>, Seq<char>) {
    (trim(t.take(split_position(t, idx) as int)), trim(t.skip(split_position(t, idx) as int)))
}

fn split_char_position(t: &[char], idx: usize) -> (r: usize)
    ensures
        r == split_position(t@, idx as nat),
{
    let mut bytes: u128 = 0;
    let mut k: usize = 0;
    assert(t@.take(0) =~= Seq::<char>::empty());
    while k < t.len()
        invariant
            0 <= k <= t@.len(),
            bytes == utf8_len(t@.take(k as int)),
            bytes <= 4 * k,
            forall|j: nat| j < k ==> utf8_len(#[trigger] t@.take(j as int)) != idx,
        decreases t@.len() - k,
    {
        if bytes == idx as u128 {
            proof {
                assert(utf8_len(t@.take(k as int)) == idx);
                let c = choose|j: nat| j <= t@.len() && utf8_len(#[trigger] t@.take(j as int)) == idx;
                if c < k {
                    lemma_utf8_len_take_strict(t@, c as int, k as int);
                } else if c > k {
                    lemma_utf8_len_take_strict(t@, k as int, c as int);
                }
            }
            return k;
        }
        assert(t@.take(k + 1).drop_last() =~= t@.take(k as int));
        let w = char_width(t[k]);
        assert(w <= 4);
        bytes = bytes + w as u128;
        k = k + 1;
        proof {
            assert forall|j: nat| j < k implies utf8_len(#[trigger] t@.take(j as int)) != idx by {
                if j + 1 < k {
                    lemma_utf8_len_take_strict(t@, j as int, (k - 1) as int);
                }
            }
        }
    }
    if bytes == idx as u128 {
        proof {
            assert(utf8_len(t@.take(k as int)) == idx);
            let c = choose|j: nat| j <= t@.len() && utf8_len(#[trigger] t@.take(j as int)) == idx;
            if c < k {
                lemma_utf8_len_take_strict(t@, c as int, k as int);
            }
        }
        return k;
    }
    proof {
        assert forall|j: nat| j <= t@.len() implies utf8_len(#[trigger] t@.take(j as int)) != idx by {
            if j < k {
            }
        }
    }
    if idx < t.len() {
        idx
    } else {
        t.len()
    }
}

/// Splits a segment's text at `split_index` (a UTF-8 offset or a character
/// number); both parts, trimmed, must hold text.
pub fn split_segment_texts(text: &str, split_index: usize) -> (r: Result<(String, String), String>)
    ensures
        split_texts(text@, split_index as nat).0.len() == 0 || split_texts(text@, split_index as nat).1.len() == 0
            ==> (r matches Err(m) && m@ == "Split index produces empty segment text"@),
        split_texts(text@, split_index as nat).0.len() > 0 && split_texts(text@, split_index as nat).1.len() > 0
            ==> (r matches Ok((a, b)) && a@ == split_texts(text@, split_index as nat).0 && b@
            == split_texts(text@, split_index as nat).1),
{
    let cs = str_to_chars(text);
    let pos = split_char_position(cs.as_slice(), split_index);
    let first = sub_chars(cs.as_slice(), 0, pos);
    let second = sub_chars(cs.as_slice(), pos, cs.len());
    assert(first@ =~= cs@.take(pos as int));
    assert(second@ =~= cs@.skip(pos as int));
    let a = trim_chars(first.as_slice());
    let b = trim_chars(second.as_slice());
    if a.len() == 0 || b.len() == 0 {
        return Err("Split index produces empty segment text".to_owned());
    }
    Ok((chars_to_string(a.as_slice()), chars_to_string(b.as_slice())))
}

/// The text of two merged segments: both trimmed, on two lines.
pub fn merged_segment_text(previous: &str, current: &str) -> (r: String)
    ensures
        r@ == trim(previous@) + "\n"@ + trim(current@),
{
    let mut v: Vec<char> = Vec::new();
    let p = str_to_chars(previous);
    push_all(&mut v, trim_chars(p.as_slice()).as_slice());
    push_str(&mut v, "\n");
    let c = str_to_chars(current);
    push_all(&mut v, trim_chars(c.as_slice()).as_slice());
    chars_to_string(v.as_slice())
}

/// Splitting a segment and merging the two halves back keeps every
/// non-white-space character of its text, in order.
pub proof fn lemma_split_then_merge_keeps_text(t: Seq<char>, idx: nat)
    requires
        split_texts(t, idx).0.len() > 0,
        split_texts(t, idx).1.len() > 0,
    ensures
        non_ws(trim(split_texts(t, idx).0) + "\n"@ + trim(split_texts(t, idx).1)) == non_ws(t),
{
    let p = split_position(t, idx) as int;
    let a = split_texts(t, idx).0;
    let b = split_texts(t, idx).1;
    lemma_trim_keeps_non_ws(t.take(p));
    lemma_trim_keeps_non_ws(t.skip(p));
    lemma_trim_keeps_non_ws(a);
    lemma_trim_keeps_non_ws(b);
    reveal_strlit("\n");
    lemma_non_ws_add(trim(a) + "\n"@, trim(b));
    lemma_non_ws_add(trim(a), "\n"@);
    lemma_non_ws_single('\n');
    assert("\n"@ =~= seq!['\n']);
    lemma_non_ws_add(t.take(p), t.skip(p));
    assert(t.take(p) + t.skip(p) =~= t);
}

/// Where a segment at `current_pos` moves (positions start at 1, `max_pos` is the
/// last): one place up for the direction "up", one place down for any other;
/// `None` where it is already first or last.
pub fn move_target(current_pos: usize, max_pos: usize, direction: &str) -> (r: Option<usize>)
    ensures
        direction@ == "up"@ ==> r == (if current_pos <= 1 {
            None
        } else {
            Some((current_pos - 1) as usize)
        }),
        direction@ != "up"@ ==> r == (if current_pos >= max_pos {
            None
        } else {
            Some((current_pos + 1) as usize)
        }),
{
    if str_eq(direction, "up") {
        if current_pos <= 1 {
            None
        } else {
            Some(current_pos - 1)
        }
    } else {
        if current_pos >= max_pos {
            None
        } else {
            Some(current_pos + 1)
        }
    }
}

/// The position of the segment that one at `current_pos` merges into; the first
/// segment has none.
pub fn merge_target(current_pos: i64) -> (r: Result<i64, String>)
    ensures
        current_pos <= 1 ==> (r matches Err(m) && m@ == "Cannot merge: this is the first segment"@),
        current_pos > 1 ==> r == Ok::<i64, String>((current_pos - 1) as i64),
{
    if current_pos <= 1 {
        return Err("Cannot merge: this is the first segment".to_owned());
    }
    Ok(current_pos - 1)
}

} // verus!
