//! Dialogue scripts: each non-blank line is a speaker's line (`Name: text`,
//! `Name：text` or `Name - text`) or narration.
use vstd::prelude::*;
use crate::textseq::{
    chars_to_string, contains_chars, contains_seq, find_chars, find_first, lowercase, occurs_at, str_to_chars,
    sub_chars, to_lowercase_chars, trim, trim_chars, utf8_len, utf8_len_at_most,
};

verus! {

/// Who speaks a line.
#[derive(Debug, Clone, Copy, PartialEq, Eq, Structural)]
pub enum SpeakerRole {
    SpeakerA,
    SpeakerB,
    Narrator,
}

/// One line of a script.
#[derive(Debug)]
pub struct DialogueSegment {
    pub raw_line: String,
    pub speaker_label: String,
    pub role: SpeakerRole,
    pub spoken_text: String,
}

/// The lines of a text: the pieces between `\n` characters.
pub open spec fn text_lines(t: Seq<char>) -> Seq<Seq<char>>
    decreases t.len(),
{
    if t.len() == 0 {
        seq![Seq::empty()]
    } else {
        let prev = text_lines(t.drop_last());
        if t.last() == '\n' {
            prev.push(Seq::empty())
        } else {
            prev.update(prev.len() - 1, prev.last().push(t.last()))
        }
    }
}

proof fn lemma_text_lines_nonempty(t: Seq<char>)
    ensures
        text_lines(t).len() >= 1,
    decreases t.len(),
{
    if t.len() > 0 {
        lemma_text_lines_nonempty(t.drop_last());
    }
}

/// Speaker and text around the first occurrence of `sep`, when the speaker is
/// not blank, at most 30 bytes, and the text is not blank (both trimmed).
pub open spec fn split_at_separator(line: Seq<char>, sep: Seq<char>) -> Option<(Seq<char>, Seq<char>)> {
    match find_first(line, sep) {
        Some(p) => {
            let speaker = trim(line.take(p));
            let content = trim(line.skip(p + sep.len()));
            if speaker.len() > 0 && utf8_len(speaker) <= 30 && content.len() > 0 {
                Some((speaker, content))
            } else {
                None
            }
        },
        None => None,
    }
}

/// The speaker prefix of a line: the separators `": "`, `"："`, `" - "` are tried in turn.
pub open spec fn speaker_prefix(line: Seq<char>) -> Option<(Seq<char>, Seq<char>)> {
    match split_at_separator(line, ": "@) {
        Some(x) => Some(x),
        None => match split_at_separator(line, "："@) {
            Some(x) => Some(x),
            None => split_at_separator(line, " - "@),
        },
    }
}

/// Hosts and speakers whose name holds an `a` are speaker A; the rest speaker B.
pub open spec fn role_for(speaker: Seq<char>) -> SpeakerRole {
    let l = lowercase(speaker);
    if contains_seq(l, "a"@) || contains_seq(l, "người dẫn"@) || contains_seq(l, "mc"@)
        || contains_seq(l, "host"@) {
        SpeakerRole::SpeakerA
    } else {
        SpeakerRole::SpeakerB
    }
}

/// A speaker whose lower-cased name holds the letter `a`, or "người dẫn" (host),
/// "mc" or "host", is speaker A; one whose lower-cased name holds none of these is
/// speaker B. A named speaker is never the narrator.
pub proof fn lemma_role_by_name(speaker: Seq<char>)
    ensures
        (exists|i: int| 0 <= i < lowercase(speaker).len() && lowercase(speaker)[i] == 'a')
            ==> role_for(speaker) == SpeakerRole::SpeakerA,
        contains_seq(lowercase(speaker), "người dẫn"@) || contains_seq(lowercase(speaker), "mc"@)
            || contains_seq(lowercase(speaker), "host"@) ==> role_for(speaker) == SpeakerRole::SpeakerA,
        role_for(speaker) != SpeakerRole::Narrator,
        (forall|i: int| 0 <= i < lowercase(speaker).len() ==> lowercase(speaker)[i] != 'a')
            && !contains_seq(lowercase(speaker), "người dẫn"@) && !contains_seq(lowercase(speaker), "mc"@)
            && !contains_seq(lowercase(speaker), "host"@) ==> role_for(speaker) == SpeakerRole::SpeakerB,
{
    let l = lowercase(speaker);
    reveal_strlit("a");
    if exists|i: int| 0 <= i < l.len() && l[i] == 'a' {
        let i = choose|i: int| 0 <= i < l.len() && l[i] == 'a';
        assert(l.subrange(i, i + 1) =~= "a"@);
        assert(occurs_at(l, "a"@, i));
    }
    if forall|i: int| 0 <= i < l.len() ==> l[i] != 'a' {
        assert forall|i: int| !occurs_at(l, "a"@, i) by {
            if occurs_at(l, "a"@, i) {
                assert(l.subrange(i, i + 1)[0] == l[i]);
            }
        }
    }
}

/// A line `Name: text` whose name holds an `a` once lower-cased is spoken by
/// speaker A, with the trimmed name as its label and the trimmed text as spoken text.
pub proof fn lemma_speaker_line_with_a(line: Seq<char>, name: Seq<char>, content: Seq<char>)
    requires
        speaker_prefix(line) == Some((name, content)),
        exists|i: int| 0 <= i < lowercase(name).len() && lowercase(name)[i] == 'a',
    ensures
        line_segment(line) == (line, name, SpeakerRole::SpeakerA, content),
{
    lemma_role_by_name(name);
}

/// The segment of a trimmed, non-blank line: raw line, label, role, spoken text.
pub open spec fn line_segment(line: Seq<char>) -> (Seq<char>, Seq<char>, SpeakerRole, Seq<char>) {
    match speaker_prefix(line) {
        Some((speaker, content)) => (line, speaker, role_for(speaker), content),
        None => (line, "Dẫn chuyện"@, SpeakerRole::Narrator, line),
    }
}

/// The segments of the lines, blank lines left out.
pub open spec fn dialogue_of(lines: Seq<Seq<char>>) -> Seq<(Seq<char>, Seq<char>, SpeakerRole, Seq<char>)>
    decreases lines.len(),
{
    if lines.len() == 0 {
        Seq::empty()
    } else if trim(lines.last()).len() == 0 {
        dialogue_of(lines.drop_last())
    } else {
        dialogue_of(lines.drop_last()).push(line_segment(trim(lines.last())))
    }
}

pub open spec fn segment_view(s: DialogueSegment) -> (Seq<char>, Seq<char>, SpeakerRole, Seq<char>) {
    (s.raw_line@, s.speaker_label@, s.role, s.spoken_text@)
}

fn split_separator(line: &[char], sep: &str) -> (r: Option<(Vec<char>, Vec<char>)>)
    ensures
        match split_at_separator(line@, sep@) {
            Some((a, b)) => r matches Some((x, y)) && x@ == a && y@ == b,
            None => r is None,
        },
{
    let sc = str_to_chars(sep);
    let n = line.len();
    match find_chars(line, sc.as_slice()) {
        Some(p) => {
            assert(occurs_at(line@, sc@, p as int));
            let before = sub_chars(line, 0, p);
            let after = sub_chars(line, p + sc.len(), n);
            assert(before@ =~= line@.take(p as int));
            assert(after@ =~= line@.skip(p + sep@.len()));
            let speaker = trim_chars(before.as_slice());
            let content = trim_chars(after.as_slice());
            if speaker.len() > 0 && utf8_len_at_most(speaker.as_slice(), 30) && content.len() > 0 {
                Some((speaker, content))
            } else {
                None
            }
        },
        None => None,
    }
}

fn role_of(speaker: &[char]) -> (r: SpeakerRole)
    ensures
        r == role_for(speaker@),
{
    let l = to_lowercase_chars(speaker);
    let p1 = str_to_chars("a");
    let p2 = str_to_chars("người dẫn");
    let p3 = str_to_chars("mc");
    let p4 = str_to_chars("host");
    if contains_chars(l.as_slice(), p1.as_slice()) || contains_chars(l.as_slice(), p2.as_slice())
        || contains_chars(l.as_slice(), p3.as_slice()) || contains_chars(
        l.as_slice(),
        p4.as_slice(),
    ) {
        SpeakerRole::SpeakerA
    } else {
        SpeakerRole::SpeakerB
    }
}

fn segment_for(line: &[char]) -> (r: DialogueSegment)
    ensures
        segment_view(r) == line_segment(line@),
{
    let first = split_separator(line, ": ");
    let found = match first {
        Some(x) => Some(x),
        None => match split_separator(line, "：") {
            Some(x) => Some(x),
            None => split_separator(line, " - "),
        },
    };
    match found {
        Some((speaker, content)) => {
            let role = role_of(speaker.as_slice());
            DialogueSegment {
                raw_line: chars_to_string(line),
                speaker_label: chars_to_string(speaker.as_slice()),
                role,
                spoken_text: chars_to_string(content.as_slice()),
            }
        },
        None => DialogueSegment {
            raw_line: chars_to_string(line),
            speaker_label: "Dẫn chuyện".to_owned(),
            role: SpeakerRole::Narrator,
            spoken_text: chars_to_string(line),
        },
    }
}

/// Parser of dialogue scripts.
pub struct DialogueParser;

impl DialogueParser {
    /// One segment per non-blank line of the script, in order.
    pub fn parse_dialogue(text: &str) -> (r: Vec<DialogueSegment>)
        ensures
            r@.len() == dialogue_of(text_lines(text@)).len(),
            forall|i: int|
                0 <= i < r@.len() ==> segment_view(#[trigger] r@[i]) == dialogue_of(
                    text_lines(text@),
                )[i],
    {
        let t = str_to_chars(text);
        let mut out: Vec<DialogueSegment> = Vec::new();
        let mut cur: Vec<char> = Vec::new();
        let mut i: usize = 0;
        proof {
            assert(t@.take(0) =~= Seq::<char>::empty());
        }
        while i < t.len()
            invariant
                0 <= i <= t@.len(),
                t@ == text@,
                text_lines(t@.take(i as int)).len() >= 1,
                cur@ == text_lines(t@.take(i as int)).last(),
                out@.len() == dialogue_of(text_lines(t@.take(i as int)).drop_last()).len(),
                forall|k: int|
                    0 <= k < out@.len() ==> segment_view(#[trigger] out@[k]) == dialogue_of(
                        text_lines(t@.take(i as int)).drop_last(),
                    )[k],
            decreases t@.len() - i,
        {
            let ghost prev = text_lines(t@.take(i as int));
            proof {
                assert(t@.take(i + 1).drop_last() =~= t@.take(i as int));
                lemma_text_lines_nonempty(t@.take(i as int));
            }
            let c = t[i];
            if c == '\n' {
                let ghost before = out@;
                let line = trim_chars(cur.as_slice());
                if line.len() > 0 {
                    out.push(segment_for(line.as_slice()));
                }
                proof {
                    let lines = text_lines(t@.take(i + 1));
                    assert(lines == prev.push(Seq::empty()));
                    assert(lines.drop_last() =~= prev);
                    assert(prev.drop_last().push(prev.last()) =~= prev);
                    assert(dialogue_of(prev) == if trim(prev.last()).len() == 0 {
                        dialogue_of(prev.drop_last())
                    } else {
                        dialogue_of(prev.drop_last()).push(line_segment(trim(prev.last())))
                    });
                    assert forall|k: int| 0 <= k < out@.len() implies segment_view(
                        #[trigger] out@[k],
                    ) == dialogue_of(lines.drop_last())[k] by {
                        if k < before.len() {
                            assert(out@[k] == before[k]);
                        }
                    }
                }
                cur = Vec::new();
            } else {
                cur.push(c);
                proof {
                    let lines = text_lines(t@.take(i + 1));
                    assert(lines == prev.update(prev.len() - 1, prev.last().push(c)));
                    assert(lines.drop_last() =~= prev.drop_last());
                }
            }
            i = i + 1;
        }
        let ghost lines = text_lines(t@);
        proof {
            assert(t@.take(t@.len() as int) =~= t@);
            assert(lines.drop_last().push(lines.last()) =~= lines);
        }
        let ghost before = out@;
        let line = trim_chars(cur.as_slice());
        if line.len() > 0 {
            out.push(segment_for(line.as_slice()));
        }
        proof {
            assert forall|k: int| 0 <= k < out@.len() implies segment_view(#[trigger] out@[k])
                == dialogue_of(lines)[k] by {
                if k < before.len() {
                    assert(out@[k] == before[k]);
                }
            }
        }
        out
    }
}

} // verus!
