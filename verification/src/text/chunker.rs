//! Hierarchical Vietnamese text chunker: heading/paragraph, sentence, clause and
//! word levels. Every way of chunking keeps all non-white-space characters of the
//! input, in order; chunk texts are trimmed, non-empty and numbered from zero.
use vstd::prelude::*;
use crate::textseq::{
    chars_to_string, count_words, is_trimmed_nonempty, lemma_trim_shape, word_count,
    char_is_whitespace, concat, ends_with, ends_with_chars, is_ws, lemma_concat_push, lemma_non_ws_add, lemma_non_ws_push, lemma_trim_keeps_non_ws,
    lemma_vviews_push, lowercase, non_ws, push_all, starts_with, starts_with_chars, str_to_chars, sub_chars,
    to_lowercase_chars, trim, trim_chars, utf8_len, utf8_len_at_most, vviews,
};

verus! {

/// Joins pieces with a separator character between consecutive pieces.
pub open spec fn join_sep(ls: Seq<Seq<char>>, sep: char) -> Seq<char>
    decreases ls.len(),
{
    if ls.len() == 0 {
        Seq::<char>::empty()
    } else if ls.len() == 1 {
        ls[0]
    } else {
        join_sep(ls.drop_last(), sep).push(sep) + ls.last()
    }
}

pub(crate) proof fn lemma_join_ws_non_ws(ls: Seq<Seq<char>>, sep: char)
    requires
        is_ws(sep),
    ensures
        non_ws(join_sep(ls, sep)) == non_ws(concat(ls)),
    decreases ls.len(),
{
    if ls.len() == 0 {
    } else if ls.len() == 1 {
        assert(ls.drop_last() =~= Seq::<Seq<char>>::empty());
        assert(concat(ls.drop_last()) =~= Seq::<char>::empty());
        assert(concat(ls) =~= Seq::<char>::empty() + ls.last());
        assert(concat(ls) =~= ls[0]);
    } else {
        lemma_join_ws_non_ws(ls.drop_last(), sep);
        let j = join_sep(ls.drop_last(), sep);
        lemma_non_ws_push(j, sep);
        lemma_non_ws_add(j.push(sep), ls.last());
        lemma_non_ws_add(concat(ls.drop_last()), ls.last());
    }
}

/// The pieces of `t` between occurrences of `sep`, as `str::split` gives them.
pub open spec fn split_char(t: Seq<char>, sep: char) -> Seq<Seq<char>>
    decreases t.len(),
{
    if t.len() == 0 {
        seq![Seq::<char>::empty()]
    } else {
        let rest = split_char(t.drop_last(), sep);
        if t.last() == sep {
            rest.push(Seq::<char>::empty())
        } else {
            rest.update(rest.len() - 1, rest.last().push(t.last()))
        }
    }
}

proof fn lemma_split_char_len(t: Seq<char>, sep: char)
    ensures
        split_char(t, sep).len() >= 1,
    decreases t.len(),
{
    if t.len() > 0 {
        lemma_split_char_len(t.drop_last(), sep);
    }
}

/// `str::split` on one character: the pieces between separators, never containing it.
pub fn split_on_char(t: &[char], sep: char) -> (r: Vec<Vec<char>>)
    ensures
        vviews(r@) == split_char(t@, sep),
        r@.len() >= 1,
        forall|i: int| 0 <= i < r@.len() ==> !(#[trigger] r@[i])@.contains(sep),
        join_sep(vviews(r@), sep) == t@,
{
    let mut out: Vec<Vec<char>> = Vec::new();
    let mut cur: Vec<char> = Vec::new();
    let mut i: usize = 0;
    while i < t.len()
        invariant
            0 <= i <= t.len(),
            forall|k: int| 0 <= k < out@.len() ==> !(#[trigger] out@[k])@.contains(sep),
            !cur@.contains(sep),
            out@.len() == 0 ==> cur@ == t@.take(i as int),
            out@.len() > 0 ==> join_sep(vviews(out@), sep).push(sep) + cur@ == t@.take(
                i as int,
            ),
            vviews(out@).push(cur@) == split_char(t@.take(i as int), sep),
        decreases t.len() - i,
    {
        let c = t[i];
        let ghost old_out = out@;
        let ghost old_cur = cur@;
        proof {
            assert(t@.take(i + 1).drop_last() =~= t@.take(i as int));
            lemma_split_char_len(t@.take(i as int), sep);
        }
        if c == sep {
            out.push(cur);
            cur = Vec::new();
            proof {
                lemma_vviews_push(old_out, out@.last());
                let vs = vviews(out@);
                assert(vs.drop_last() =~= vviews(old_out));
                if old_out.len() == 0 {
                    assert(join_sep(vs, sep) =~= old_cur);
                } else {
                    assert(join_sep(vs, sep) =~= join_sep(vviews(old_out), sep).push(sep)
                        + old_cur);
                }
                assert(join_sep(vs, sep).push(sep) + cur@ =~= t@.take(i + 1));
                assert(vviews(out@).push(cur@) =~= vviews(old_out).push(old_cur).push(Seq::<char>::empty()));
            }
        } else {
            cur.push(c);
            proof {
                assert(!cur@.contains(sep)) by {
                    if cur@.contains(sep) {
                        let k = choose|k: int| 0 <= k < cur@.len() && cur@[k] == sep;
                        if k < old_cur.len() {
                            assert(old_cur[k] == sep);
                        }
                    }
                }
                if out@.len() == 0 {
                    assert(cur@ =~= t@.take(i + 1));
                } else {
                    assert(join_sep(vviews(out@), sep).push(sep) + cur@ =~= t@.take(i + 1));
                }
                let prev = vviews(old_out).push(old_cur);
                assert(vviews(out@).push(cur@) =~= prev.update(prev.len() - 1, prev.last().push(c)));
            }
        }
        i = i + 1;
    }
    let ghost old_out = out@;
    let ghost old_cur = cur@;
    out.push(cur);
    proof {
        lemma_vviews_push(old_out, out@.last());
        assert(vviews(out@) =~= vviews(old_out).push(old_cur));
        let vs = vviews(out@);
        assert(vs.drop_last() =~= vviews(old_out));
        assert(t@.take(t.len() as int) =~= t@);
        if old_out.len() == 0 {
            assert(join_sep(vs, sep) =~= t@);
        } else {
            assert(join_sep(vs, sep) =~= t@);
        }
    }
    out
}

/// Markdown heading prefixes.
pub open spec fn is_markdown_heading(t: Seq<char>) -> bool {
    ||| starts_with(t, "# "@)
    ||| starts_with(t, "## "@)
    ||| starts_with(t, "### "@)
    ||| starts_with(t, "#### "@)
    ||| starts_with(t, "##### "@)
    ||| starts_with(t, "###### "@)
}

/// Vietnamese section titles ("Chương", "Phần", "Bài") shorter than 80 bytes.
pub open spec fn is_section_title(t: Seq<char>) -> bool {
    &&& (starts_with(lowercase(t), "chương "@) || starts_with(lowercase(t), "phần "@)
        || starts_with(lowercase(t), "bài "@))
    &&& utf8_len(t) < 80
}

/// A line that forms a heading block of its own.
pub open spec fn is_heading(line: Seq<char>) -> bool {
    is_markdown_heading(trim(line)) || is_section_title(trim(line))
}

fn starts_with_lit(t: &[char], lit: &str) -> (r: bool)
    ensures
        r == starts_with(t@, lit@),
{
    let p = str_to_chars(lit);
    starts_with_chars(t, p.as_slice())
}

pub fn is_heading_line(line: &[char]) -> (r: bool)
    ensures
        r == is_heading(line@),
{
    let t = trim_chars(line);
    let ts = t.as_slice();
    if starts_with_lit(ts, "# ") || starts_with_lit(ts, "## ") || starts_with_lit(ts, "### ")
        || starts_with_lit(ts, "#### ") || starts_with_lit(ts, "##### ") || starts_with_lit(
        ts,
        "###### ",
    ) {
        return true;
    }
    let lower = to_lowercase_chars(ts);
    let ls = lower.as_slice();
    (starts_with_lit(ls, "chương ") || starts_with_lit(ls, "phần ") || starts_with_lit(ls, "bài "))
        && utf8_len_at_most(ts, 79)
}

/// What one line does to the blocks so far and the paragraph being gathered: a
/// heading closes the paragraph and stands alone (with its line feed unless it is
/// the last line); a blank line closes the paragraph with a line feed; any other
/// line joins the paragraph.
pub open spec fn block_step(st: (Seq<Seq<char>>, Seq<char>), line: Seq<char>, more: bool) -> (
    Seq<Seq<char>>,
    Seq<char>,
) {
    let blocks = st.0;
    let cur = st.1;
    if is_heading(line) {
        let closed = if cur.len() > 0 {
            blocks.push(cur)
        } else {
            blocks
        };
        (closed.push(if more { line.push('\n') } else { line }), Seq::empty())
    } else if trim(line).len() == 0 {
        if cur.len() > 0 {
            (blocks.push(cur.push('\n')), Seq::empty())
        } else {
            (blocks, cur)
        }
    } else {
        (blocks, (if cur.len() > 0 { cur.push('\n') } else { cur }) + line)
    }
}

/// The blocks and the open paragraph after the first `k` lines.
pub open spec fn block_scan(lines: Seq<Seq<char>>, k: nat) -> (Seq<Seq<char>>, Seq<char>)
    decreases k,
{
    if k == 0 || k > lines.len() {
        (Seq::empty(), Seq::empty())
    } else {
        block_step(block_scan(lines, (k - 1) as nat), lines[k - 1], k < lines.len())
    }
}

/// The heading and paragraph blocks of a text.
pub open spec fn paragraph_blocks(t: Seq<char>) -> Seq<Seq<char>> {
    let lines = split_char(t, '\n');
    let st = block_scan(lines, lines.len());
    if st.1.len() > 0 {
        st.0.push(st.1)
    } else {
        st.0
    }
}

/// Level 1: heading lines become blocks of their own; other non-blank lines are
/// gathered into paragraph blocks that blank lines close.
pub fn split_headings_and_paragraphs(input: &[char]) -> (r: Vec<Vec<char>>)
    ensures
        vviews(r@) == paragraph_blocks(input@),
        non_ws(concat(vviews(r@))) == non_ws(input@),
{
    let lines = split_on_char(input, '\n');
    let mut blocks: Vec<Vec<char>> = Vec::new();
    let mut cur: Vec<char> = Vec::new();
    let mut i: usize = 0;
    proof {
        assert(vviews(lines@).take(0) =~= Seq::<Seq<char>>::empty());
        assert(non_ws(Seq::<char>::empty()) =~= Seq::<char>::empty());
    }
    while i < lines.len()
        invariant
            0 <= i <= lines.len(),
            non_ws(concat(vviews(blocks@))) + non_ws(cur@) == non_ws(
                concat(vviews(lines@).take(i as int)),
            ),
            vviews(lines@) == split_char(input@, '\n'),
            (vviews(blocks@), cur@) == block_scan(vviews(lines@), i as nat),
        decreases lines.len() - i,
    {
        let line = lines[i].as_slice();
        let ghost pre = concat(vviews(lines@).take(i as int));
        let ghost ob0 = vviews(blocks@);
        let ghost oc0 = cur@;
        let ghost step = block_step((ob0, oc0), line@, i + 1 < lines.len());
        proof {
            assert(vviews(lines@)[i as int] == line@);
            assert(block_scan(vviews(lines@), (i + 1) as nat) == step);
        }
        proof {
            assert(vviews(lines@).take(i + 1).drop_last() =~= vviews(lines@).take(i as int));
            assert(vviews(lines@)[i as int] == line@);
            lemma_non_ws_add(pre, line@);
        }
        if is_heading_line(line) {
            if cur.len() > 0 {
                let ghost ob = blocks@;
                blocks.push(cur);
                proof {
                    lemma_vviews_push(ob, blocks@.last());
                    lemma_concat_push(vviews(ob), blocks@.last()@);
                    lemma_non_ws_add(concat(vviews(ob)), blocks@.last()@);
                }
                cur = Vec::new();
            }
            let mut hb: Vec<char> = Vec::new();
            push_all(&mut hb, line);
            if i + 1 < lines.len() {
                proof {
                    lemma_non_ws_push(hb@, '\n');
                }
                hb.push('\n');
            }
            let ghost ob = blocks@;
            blocks.push(hb);
            proof {
                assert(non_ws(cur@) =~= Seq::<char>::empty());
                lemma_vviews_push(ob, blocks@.last());
                lemma_concat_push(vviews(ob), blocks@.last()@);
                lemma_non_ws_add(concat(vviews(ob)), blocks@.last()@);
                assert(blocks@.last()@ == hb@);
                assert(Seq::<char>::empty() + line@ =~= line@);
                assert(non_ws(concat(vviews(blocks@))) + non_ws(cur@) =~= non_ws(pre) + non_ws(
                    line@,
                ));
            }
        } else {
            let t = trim_chars(line);
            if t.len() == 0 {
                proof {
                    lemma_trim_keeps_non_ws(line@);
                    assert(non_ws(line@) =~= non_ws(trim(line@)));
                    assert(trim(line@) =~= Seq::<char>::empty());
                    assert(non_ws(Seq::<char>::empty()) =~= Seq::<char>::empty());
                    assert(non_ws(pre) + non_ws(line@) =~= non_ws(pre));
                }
                if cur.len() > 0 {
                    proof {
                        lemma_non_ws_push(cur@, '\n');
                    }
                    cur.push('\n');
                    let ghost ob = blocks@;
                    blocks.push(cur);
                    proof {
                        lemma_vviews_push(ob, blocks@.last());
                        lemma_concat_push(vviews(ob), blocks@.last()@);
                        lemma_non_ws_add(concat(vviews(ob)), blocks@.last()@);
                    }
                    cur = Vec::new();
                    proof {
                        assert(non_ws(cur@) =~= Seq::<char>::empty());
                        assert(non_ws(concat(vviews(blocks@))) + non_ws(cur@) =~= non_ws(
                            concat(vviews(blocks@)),
                        ));
                    }
                }
            } else {
                let ghost oc = cur@;
                if cur.len() > 0 {
                    proof {
                        lemma_non_ws_push(cur@, '\n');
                    }
                    cur.push('\n');
                }
                let ghost mid = cur@;
                push_all(&mut cur, line);
                proof {
                    lemma_non_ws_add(mid, line@);
                    assert(non_ws(concat(vviews(blocks@))) + non_ws(cur@) =~= non_ws(pre)
                        + non_ws(line@));
                }
            }
        }
        proof {
            assert(vviews(blocks@) =~= step.0);
            assert(cur@ =~= step.1);
        }
        i = i + 1;
    }
    let ghost fin = block_scan(vviews(lines@), lines.len() as nat);
    if cur.len() > 0 {
        let ghost ob = blocks@;
        blocks.push(cur);
        proof {
            lemma_vviews_push(ob, blocks@.last());
            lemma_concat_push(vviews(ob), blocks@.last()@);
            lemma_non_ws_add(concat(vviews(ob)), blocks@.last()@);
            assert(vviews(blocks@) =~= fin.0.push(fin.1));
        }
    } else {
        proof {
            assert(non_ws(cur@) =~= Seq::<char>::empty());
            assert(non_ws(concat(vviews(blocks@))) + non_ws(cur@) =~= non_ws(
                concat(vviews(blocks@)),
            ));
        }
    }
    proof {
        assert(vviews(lines@).take(lines.len() as int) =~= vviews(lines@));
        lemma_join_ws_non_ws(vviews(lines@), '\n');
    }
    blocks
}

pub open spec fn is_sentence_end(c: char) -> bool {
    c == '.' || c == '!' || c == '?' || c == '\u{2026}'
}

pub open spec fn is_clause_boundary(c: char) -> bool {
    c == ',' || c == ';' || c == ':' || c == '\u{2014}' || c == '\u{2013}'
}

pub open spec fn is_closer(c: char) -> bool {
    c == '"' || c == '\u{201d}' || c == ')' || c == ']'
}

pub open spec fn is_ascii_digit(c: char) -> bool {
    '0' <= c && c <= '9'
}

pub open spec fn is_ascii_lower(c: char) -> bool {
    'a' <= c && c <= 'z'
}

/// Abbreviations whose final dot does not end a sentence.
pub open spec fn ends_with_abbrev(s: Seq<char>) -> bool {
    ||| ends_with(s, "TP."@)
    ||| ends_with(s, "Tp."@)
    ||| ends_with(s, "ThS."@)
    ||| ends_with(s, "TS."@)
    ||| ends_with(s, "GS."@)
    ||| ends_with(s, "PGS."@)
    ||| ends_with(s, "BS."@)
    ||| ends_with(s, "v.v."@)
    ||| ends_with(s, "e.g."@)
    ||| ends_with(s, "i.e."@)
    ||| ends_with(s, "St."@)
    ||| ends_with(s, "Mr."@)
    ||| ends_with(s, "Mrs."@)
    ||| ends_with(s, "Dr."@)
    ||| ends_with(s, "NXB."@)
    ||| ends_with(s, "P."@)
    ||| ends_with(s, "Q."@)
    ||| ends_with(s, "Th.S"@)
    ||| ends_with(s, "STT."@)
    ||| ends_with(s, "S\u{110}T."@)
    ||| ends_with(s, "Co."@)
    ||| ends_with(s, "Ltd."@)
    ||| ends_with(s, "Inc."@)
    ||| ends_with(s, "Corp."@)
}

/// Markers of a URL or an e-mail address.
pub open spec fn has_url_marker(s: Seq<char>) -> bool {
    ||| crate::textseq::contains_seq(s, "http://"@)
    ||| crate::textseq::contains_seq(s, "https://"@)
    ||| crate::textseq::contains_seq(s, "www."@)
    ||| crate::textseq::contains_seq(s, "@"@)
}

/// Whether the terminator run ending at `end` (pending sentence starting at `start`)
/// belongs to a decimal number, a URL, an e-mail address, a dotted name or a known
/// abbreviation, and so does not end the sentence.
pub open spec fn is_abbrev_or_number(t: Seq<char>, start: int, end: int) -> bool {
    let dot_pos = end - 1;
    if dot_pos <= 0 || end >= t.len() {
        false
    } else {
        let cb = t[dot_pos - 1];
        let ca = t[end];
        let sub = t.subrange(start, end);
        if is_ascii_digit(cb) && is_ascii_digit(ca) {
            true
        } else if !is_ws(cb) && !is_ws(ca) && (has_url_marker(lowercase(sub)) || is_ascii_lower(ca)
            || is_ascii_digit(ca)) {
            true
        } else {
            ends_with_abbrev(sub)
        }
    }
}

/// A space or a tab.
pub open spec fn is_blank(c: char) -> bool {
    c == ' ' || c == '\t'
}

/// The end of the run of sentence terminators starting at `i`.
pub open spec fn term_run_end(t: Seq<char>, i: int) -> int
    decreases t.len() - i,
{
    if 0 <= i < t.len() && is_sentence_end(t[i]) {
        term_run_end(t, i + 1)
    } else {
        i
    }
}

/// The end of the run of closing quotes and brackets starting at `i`.
pub open spec fn closer_run_end(t: Seq<char>, i: int) -> int
    decreases t.len() - i,
{
    if 0 <= i < t.len() && is_closer(t[i]) {
        closer_run_end(t, i + 1)
    } else {
        i
    }
}

/// The end of the run of spaces and tabs starting at `i`.
pub open spec fn blank_run_end(t: Seq<char>, i: int) -> int
    decreases t.len() - i,
{
    if 0 <= i < t.len() && is_blank(t[i]) {
        blank_run_end(t, i + 1)
    } else {
        i
    }
}

/// A run that starts at `i` ends at or after `i`, and within the text when it
/// starts within it.
pub proof fn lemma_run_ends(t: Seq<char>, i: int)
    ensures
        i <= term_run_end(t, i),
        i <= closer_run_end(t, i),
        i <= blank_run_end(t, i),
        0 <= i <= t.len() ==> term_run_end(t, i) <= t.len() && closer_run_end(t, i) <= t.len()
            && blank_run_end(t, i) <= t.len(),
    decreases t.len() - i,
{
    if 0 <= i < t.len() {
        lemma_run_ends(t, i + 1);
    }
}

/// The sentences of `t` from the sentence that starts at `start`, scanning on from
/// `i`: a sentence runs through a run of terminators that is not part of a number,
/// URL, e-mail address or abbreviation, then closing quotes or brackets, then spaces
/// and tabs.
pub open spec fn sentence_scan(t: Seq<char>, start: int, i: int) -> Seq<Seq<char>>
    decreases t.len() - i,
{
    if start < 0 || i < start {
        Seq::empty()
    } else if i >= t.len() {
        if start < t.len() {
            seq![t.subrange(start, t.len() as int)]
        } else {
            Seq::empty()
        }
    } else if is_sentence_end(t[i]) {
        let j = term_run_end(t, i + 1);
        let m = blank_run_end(t, closer_run_end(t, j));
        proof {
            lemma_run_ends(t, i + 1);
            lemma_run_ends(t, j);
            lemma_run_ends(t, closer_run_end(t, j));
        }
        if is_abbrev_or_number(t, start, j) {
            sentence_scan(t, start, j)
        } else {
            seq![t.subrange(start, m)] + sentence_scan(t, m, m)
        }
    } else {
        sentence_scan(t, start, i + 1)
    }
}

/// The clauses of `t` from the clause that starts at `start`, scanning on from `i`:
/// a clause runs through a clause mark (but not the colon of `://`) and the spaces
/// and tabs after it.
pub open spec fn clause_scan(t: Seq<char>, start: int, i: int) -> Seq<Seq<char>>
    decreases t.len() - i,
{
    if start < 0 || i < start {
        Seq::empty()
    } else if i >= t.len() {
        if start < t.len() {
            seq![t.subrange(start, t.len() as int)]
        } else {
            Seq::empty()
        }
    } else if is_clause_boundary(t[i]) {
        if t[i] == ':' && i + 2 < t.len() && t[i + 1] == '/' && t[i + 2] == '/' {
            clause_scan(t, start, i + 1)
        } else {
            let m = blank_run_end(t, i + 1);
            proof {
                lemma_run_ends(t, i + 1);
            }
            seq![t.subrange(start, m)] + clause_scan(t, m, m)
        }
    } else {
        clause_scan(t, start, i + 1)
    }
}

fn ends_with_lit(t: &[char], lit: &str) -> (r: bool)
    ensures
        r == ends_with(t@, lit@),
{
    let p = str_to_chars(lit);
    ends_with_chars(t, p.as_slice())
}

fn contains_lit(t: &[char], lit: &str) -> (r: bool)
    ensures
        r == crate::textseq::contains_seq(t@, lit@),
{
    let p = str_to_chars(lit);
    crate::textseq::contains_chars(t, p.as_slice())
}

fn ends_with_abbrev_exec(s: &[char]) -> (r: bool)
    ensures
        r == ends_with_abbrev(s@),
{
    ends_with_lit(s, "TP.") || ends_with_lit(s, "Tp.") || ends_with_lit(s, "ThS.") || ends_with_lit(
        s,
        "TS.",
    ) || ends_with_lit(s, "GS.") || ends_with_lit(s, "PGS.") || ends_with_lit(s, "BS.")
        || ends_with_lit(s, "v.v.") || ends_with_lit(s, "e.g.") || ends_with_lit(s, "i.e.")
        || ends_with_lit(s, "St.") || ends_with_lit(s, "Mr.") || ends_with_lit(s, "Mrs.")
        || ends_with_lit(s, "Dr.") || ends_with_lit(s, "NXB.") || ends_with_lit(s, "P.")
        || ends_with_lit(s, "Q.") || ends_with_lit(s, "Th.S") || ends_with_lit(s, "STT.")
        || ends_with_lit(s, "S\u{110}T.") || ends_with_lit(s, "Co.") || ends_with_lit(s, "Ltd.")
        || ends_with_lit(s, "Inc.") || ends_with_lit(s, "Corp.")
}

fn is_abbreviation_or_number(t: &[char], start: usize, end: usize) -> (r: bool)
    requires
        start <= end <= t.len(),
    ensures
        r == is_abbrev_or_number(t@, start as int, end as int),
{
    if end <= 1 || end >= t.len() {
        return false;
    }
    let cb = t[end - 2];
    let ca = t[end];
    if '0' <= cb && cb <= '9' && '0' <= ca && ca <= '9' {
        return true;
    }
    let sub = sub_chars(t, start, end);
    if !char_is_whitespace(cb) && !char_is_whitespace(ca) {
        let lower = to_lowercase_chars(sub.as_slice());
        let ls = lower.as_slice();
        if contains_lit(ls, "http://") || contains_lit(ls, "https://") || contains_lit(ls, "www.")
            || contains_lit(ls, "@") {
            return true;
        }
        if ('a' <= ca && ca <= 'z') || ('0' <= ca && ca <= '9') {
            return true;
        }
    }
    ends_with_abbrev_exec(sub.as_slice())
}

/// Level 2: splits a paragraph into sentences. Each sentence runs through a run of
/// terminators (. ! ? …), then any closing quotes or brackets, then spaces and tabs;
/// terminators inside numbers, URLs, e-mail addresses or abbreviations do not split.
pub fn split_sentences_chars(t: &[char]) -> (r: Vec<Vec<char>>)
    ensures
        vviews(r@) == sentence_scan(t@, 0, 0),
        concat(vviews(r@)) == t@,
        forall|i: int| 0 <= i < r@.len() ==> (#[trigger] r@[i])@.len() > 0,
{
    let mut out: Vec<Vec<char>> = Vec::new();
    let mut start: usize = 0;
    let mut i: usize = 0;
    proof {
        assert(t@.take(0) =~= Seq::<char>::empty());
        assert(vviews(out@) =~= Seq::<Seq<char>>::empty());
    }
    while i < t.len()
        invariant
            0 <= start <= i <= t.len(),
            concat(vviews(out@)) == t@.take(start as int),
            forall|k: int| 0 <= k < out@.len() ==> (#[trigger] out@[k])@.len() > 0,
            vviews(out@) + sentence_scan(t@, start as int, i as int) == sentence_scan(t@, 0, 0),
        decreases t.len() - i,
    {
        let ch = t[i];
        let ghost i0 = i as int;
        i = i + 1;
        let ghost i1 = i;
        if ch == '.' || ch == '!' || ch == '?' || ch == '\u{2026}' {
            while i < t.len() && (t[i] == '.' || t[i] == '!' || t[i] == '?' || t[i] == '\u{2026}')
                invariant
                    0 <= start < i <= t.len(),
                    i1 <= i,
                    term_run_end(t@, i1 as int) == term_run_end(t@, i as int),
                decreases t.len() - i,
            {
                i = i + 1;
            }
            let ghost j = i as int;
            assert(term_run_end(t@, j) == j);
            if is_abbreviation_or_number(t, start, i) {
                assert(sentence_scan(t@, start as int, i0) == sentence_scan(t@, start as int, j));
                continue;
            }
            while i < t.len() && (t[i] == '"' || t[i] == '\u{201d}' || t[i] == ')' || t[i] == ']')
                invariant
                    0 <= start < i <= t.len(),
                    i1 <= i,
                    closer_run_end(t@, j) == closer_run_end(t@, i as int),
                decreases t.len() - i,
            {
                i = i + 1;
            }
            let ghost k2 = i as int;
            assert(closer_run_end(t@, k2) == k2);
            while i < t.len() && (t[i] == ' ' || t[i] == '\t')
                invariant
                    0 <= start < i <= t.len(),
                    i1 <= i,
                    blank_run_end(t@, k2) == blank_run_end(t@, i as int),
                decreases t.len() - i,
            {
                i = i + 1;
            }
            assert(blank_run_end(t@, i as int) == i as int);
            assert(sentence_scan(t@, start as int, i0) == seq![t@.subrange(start as int, i as int)]
                + sentence_scan(t@, i as int, i as int));
            let piece = sub_chars(t, start, i);
            let ghost oo = out@;
            out.push(piece);
            proof {
                assert(vviews(out@) + sentence_scan(t@, i as int, i as int) =~= vviews(oo)
                    + sentence_scan(t@, start as int, i0));
                lemma_vviews_push(oo, out@.last());
                lemma_concat_push(vviews(oo), out@.last()@);
                assert(t@.take(start as int) + t@.subrange(start as int, i as int) =~= t@.take(
                    i as int,
                ));
            }
            start = i;
        } else {
            assert(sentence_scan(t@, start as int, i0) == sentence_scan(t@, start as int, i as int));
        }
    }
    if start < t.len() {
        let piece = sub_chars(t, start, t.len());
        let ghost oo = out@;
        out.push(piece);
        proof {
            lemma_vviews_push(oo, out@.last());
            lemma_concat_push(vviews(oo), out@.last()@);
            assert(t@.take(start as int) + t@.subrange(start as int, t.len() as int) =~= t@);
            assert(vviews(out@) =~= vviews(oo) + sentence_scan(t@, start as int, i as int));
        }
    } else {
        assert(t@.take(start as int) =~= t@);
        assert(vviews(out@) =~= vviews(out@) + sentence_scan(t@, start as int, i as int));
    }
    out
}

/// Level 3: splits a sentence after each clause mark (, ; : — –) and the spaces and
/// tabs that follow it; the colon of a `://` URL scheme does not split.
pub fn split_clauses_chars(t: &[char]) -> (r: Vec<Vec<char>>)
    ensures
        vviews(r@) == clause_scan(t@, 0, 0),
        concat(vviews(r@)) == t@,
        forall|i: int| 0 <= i < r@.len() ==> (#[trigger] r@[i])@.len() > 0,
{
    let mut out: Vec<Vec<char>> = Vec::new();
    let mut start: usize = 0;
    let mut i: usize = 0;
    proof {
        assert(t@.take(0) =~= Seq::<char>::empty());
        assert(vviews(out@) =~= Seq::<Seq<char>>::empty());
    }
    while i < t.len()
        invariant
            0 <= start <= i <= t.len(),
            concat(vviews(out@)) == t@.take(start as int),
            forall|k: int| 0 <= k < out@.len() ==> (#[trigger] out@[k])@.len() > 0,
            vviews(out@) + clause_scan(t@, start as int, i as int) == clause_scan(t@, 0, 0),
        decreases t.len() - i,
    {
        let ch = t[i];
        let ghost i0 = i as int;
        i = i + 1;
        let ghost i1 = i;
        if ch == ',' || ch == ';' || ch == ':' || ch == '\u{2014}' || ch == '\u{2013}' {
            if ch == ':' && t.len() - i > 1 && t[i] == '/' && t[i + 1] == '/' {
                assert(clause_scan(t@, start as int, i0) == clause_scan(t@, start as int, i as int));
                continue;
            }
            while i < t.len() && (t[i] == ' ' || t[i] == '\t')
                invariant
                    0 <= start < i <= t.len(),
                    i1 <= i,
                    blank_run_end(t@, i1 as int) == blank_run_end(t@, i as int),
                decreases t.len() - i,
            {
                i = i + 1;
            }
            assert(blank_run_end(t@, i as int) == i as int);
            assert(clause_scan(t@, start as int, i0) == seq![t@.subrange(start as int, i as int)]
                + clause_scan(t@, i as int, i as int));
            let piece = sub_chars(t, start, i);
            let ghost oo = out@;
            out.push(piece);
            proof {
                assert(vviews(out@) + clause_scan(t@, i as int, i as int) =~= vviews(oo)
                    + clause_scan(t@, start as int, i0));
                lemma_vviews_push(oo, out@.last());
                lemma_concat_push(vviews(oo), out@.last()@);
                assert(t@.take(start as int) + t@.subrange(start as int, i as int) =~= t@.take(
                    i as int,
                ));
            }
            start = i;
        } else {
            assert(clause_scan(t@, start as int, i0) == clause_scan(t@, start as int, i as int));
        }
    }
    if start < t.len() {
        let piece = sub_chars(t, start, t.len());
        let ghost oo = out@;
        out.push(piece);
        proof {
            lemma_vviews_push(oo, out@.last());
            lemma_concat_push(vviews(oo), out@.last()@);
            assert(t@.take(start as int) + t@.subrange(start as int, t.len() as int) =~= t@);
            assert(vviews(out@) =~= vviews(oo) + clause_scan(t@, start as int, i as int));
        }
    } else {
        assert(t@.take(start as int) =~= t@);
        assert(vviews(out@) =~= vviews(out@) + clause_scan(t@, start as int, i as int));
    }
    out
}

proof fn lemma_non_ws_of_non_ws_only(w: Seq<char>)
    requires
        forall|i: int| 0 <= i < w.len() ==> !is_ws(#[trigger] w[i]),
    ensures
        non_ws(w) == w,
    decreases w.len(),
{
    if w.len() > 0 {
        lemma_non_ws_of_non_ws_only(w.drop_last());
        assert(w.drop_last().push(w.last()) =~= w);
        lemma_non_ws_push(w.drop_last(), w.last());
    } else {
        assert(non_ws(w) =~= w);
    }
}

proof fn lemma_take_push_concat(v: Seq<Seq<char>>, k: int)
    requires
        0 <= k < v.len(),
    ensures
        concat(v.take(k + 1)) == concat(v.take(k)) + v[k],
{
    assert(v.take(k + 1).drop_last() =~= v.take(k));
}

/// The words finished and the word being read after the first `k` characters.
pub open spec fn word_scan(t: Seq<char>, k: nat) -> (Seq<Seq<char>>, Seq<char>)
    decreases k,
{
    if k == 0 || k > t.len() {
        (Seq::empty(), Seq::empty())
    } else {
        let st = word_scan(t, (k - 1) as nat);
        let c = t[k - 1];
        if is_ws(c) {
            if st.1.len() > 0 {
                (st.0.push(st.1), Seq::empty())
            } else {
                st
            }
        } else {
            (st.0, st.1.push(c))
        }
    }
}

/// The maximal runs of non-white-space characters of `t`.
pub open spec fn ws_words(t: Seq<char>) -> Seq<Seq<char>> {
    let st = word_scan(t, t.len());
    if st.1.len() > 0 {
        st.0.push(st.1)
    } else {
        st.0
    }
}

/// `str::split_whitespace`: the maximal runs of non-white-space characters.
pub fn split_ws_words(t: &[char]) -> (r: Vec<Vec<char>>)
    ensures
        vviews(r@) == ws_words(t@),
        concat(vviews(r@)) == non_ws(t@),
        forall|i: int| 0 <= i < r@.len() ==> (#[trigger] r@[i])@.len() > 0,
        forall|i: int, j: int|
            0 <= i < r@.len() && 0 <= j < r@[i]@.len() ==> !is_ws(#[trigger] r@[i]@[j]),
{
    let mut out: Vec<Vec<char>> = Vec::new();
    let mut cur: Vec<char> = Vec::new();
    let mut i: usize = 0;
    proof {
        assert(t@.take(0) =~= Seq::<char>::empty());
        assert(non_ws(Seq::<char>::empty()) =~= Seq::<char>::empty());
        assert(vviews(out@) =~= Seq::<Seq<char>>::empty());
        assert(concat(vviews(out@)) + cur@ =~= Seq::<char>::empty());
    }
    while i < t.len()
        invariant
            0 <= i <= t.len(),
            concat(vviews(out@)) + cur@ == non_ws(t@.take(i as int)),
            forall|k: int| 0 <= k < out@.len() ==> (#[trigger] out@[k])@.len() > 0,
            forall|k: int, j: int|
                0 <= k < out@.len() && 0 <= j < out@[k]@.len() ==> !is_ws(#[trigger] out@[k]@[j]),
            forall|j: int| 0 <= j < cur@.len() ==> !is_ws(#[trigger] cur@[j]),
            (vviews(out@), cur@) == word_scan(t@, i as nat),
        decreases t.len() - i,
    {
        let c = t[i];
        let ghost st = word_scan(t@, (i + 1) as nat);
        let ghost oo0 = vviews(out@);
        let ghost oc0 = cur@;
        proof {
            assert(t@[i as int] == c);
            assert(t@.take(i + 1) =~= t@.take(i as int).push(c));
            lemma_non_ws_push(t@.take(i as int), c);
        }
        if char_is_whitespace(c) {
            if cur.len() > 0 {
                let ghost oo = out@;
                out.push(cur);
                proof {
                    lemma_vviews_push(oo, out@.last());
                    lemma_concat_push(vviews(oo), out@.last()@);
                }
                cur = Vec::new();
                assert(concat(vviews(out@)) + cur@ =~= concat(vviews(out@)));
            }
        } else {
            let ghost oc = cur@;
            cur.push(c);
            assert(concat(vviews(out@)) + cur@ =~= (concat(vviews(out@)) + oc).push(c));
        }
        proof {
            assert(vviews(out@) =~= st.0);
            assert(cur@ =~= st.1);
        }
        i = i + 1;
    }
    let ghost fin = word_scan(t@, t@.len());
    if cur.len() > 0 {
        let ghost oo = out@;
        let ghost oc = cur@;
        out.push(cur);
        proof {
            lemma_vviews_push(oo, out@.last());
            lemma_concat_push(vviews(oo), out@.last()@);
            assert(vviews(out@) =~= fin.0.push(fin.1));
        }
    } else {
        assert(concat(vviews(out@)) + cur@ =~= concat(vviews(out@)));
    }
    assert(t@.take(t.len() as int) =~= t@);
    out
}

/// The units finished and the unit being filled after the first `k` words, each
/// unit holding as many words (space-separated) as fit in `max` characters.
pub open spec fn word_pack_scan(ws: Seq<Seq<char>>, k: nat, max: nat) -> (Seq<Seq<char>>, Seq<char>)
    decreases k,
{
    if k == 0 || k > ws.len() {
        (Seq::empty(), Seq::empty())
    } else {
        let st = word_pack_scan(ws, (k - 1) as nat, max);
        let w = ws[k - 1];
        if st.1.len() == 0 {
            (st.0, w)
        } else if w.len() < max && st.1.len() + 1 + w.len() <= max {
            (st.0, st.1.push(' ') + w)
        } else {
            (st.0.push(st.1.push(' ')), w)
        }
    }
}

/// The word units of an over-long clause: packed words, each unit ending with one
/// space; a clause without words stays whole.
pub open spec fn word_units(t: Seq<char>, max: nat) -> Seq<Seq<char>> {
    let ws = ws_words(t);
    if ws.len() > 0 {
        let st = word_pack_scan(ws, ws.len(), max);
        st.0.push(
            if st.1.len() > 0 && st.1.last() == ' ' {
                st.1
            } else {
                st.1.push(' ')
            },
        )
    } else if t.len() > 0 {
        seq![t]
    } else {
        Seq::empty()
    }
}

/// Level 4: packs the words of an over-long clause into units of at most `max_chars`
/// characters (a single longer word stands alone); each unit ends with one space.
pub fn split_words_chars(t: &[char], max_chars: usize) -> (r: Vec<Vec<char>>)
    ensures
        vviews(r@) == word_units(t@, max_chars as nat),
        non_ws(concat(vviews(r@))) == non_ws(t@),
        forall|i: int| 0 <= i < r@.len() ==> (#[trigger] r@[i])@.len() > 0,
{
    let words = split_ws_words(t);
    let mut units: Vec<Vec<char>> = Vec::new();
    let mut cur: Vec<char> = Vec::new();
    let mut k: usize = 0;
    proof {
        assert(vviews(words@).take(0) =~= Seq::<Seq<char>>::empty());
        assert(vviews(units@) =~= Seq::<Seq<char>>::empty());
        assert(non_ws(Seq::<char>::empty()) =~= Seq::<char>::empty());
    }
    while k < words.len()
        invariant
            0 <= k <= words.len(),
            non_ws(concat(vviews(units@))) + non_ws(cur@) == concat(vviews(words@).take(k as int)),
            forall|m: int| 0 <= m < units@.len() ==> (#[trigger] units@[m])@.len() > 0,
            forall|m: int| 0 <= m < words@.len() ==> (#[trigger] words@[m])@.len() > 0,
            forall|m: int, j: int|
                0 <= m < words@.len() && 0 <= j < words@[m]@.len() ==> !is_ws(
                    #[trigger] words@[m]@[j],
                ),
            k > 0 ==> cur@.len() > 0,
            k == 0 ==> units@.len() == 0,
            vviews(words@) == ws_words(t@),
            (vviews(units@), cur@) == word_pack_scan(vviews(words@), k as nat, max_chars as nat),
        decreases words.len() - k,
    {
        let w = words[k].as_slice();
        let ghost st = word_pack_scan(vviews(words@), (k + 1) as nat, max_chars as nat);
        proof {
            assert(vviews(words@)[k as int] == w@);
        }
        proof {
            assert(vviews(words@)[k as int] == w@);
            lemma_take_push_concat(vviews(words@), k as int);
            assert forall|j: int| 0 <= j < w@.len() implies !is_ws(#[trigger] w@[j]) by {
                assert(w@[j] == words@[k as int]@[j]);
            }
            lemma_non_ws_of_non_ws_only(w@);
        }
        let ghost pre = concat(vviews(words@).take(k as int));
        if cur.len() == 0 {
            push_all(&mut cur, w);
            assert(cur@ =~= w@);
            assert(non_ws(concat(vviews(units@))) =~= pre) by {
                assert(non_ws(Seq::<char>::empty()) =~= Seq::<char>::empty());
                assert(non_ws(concat(vviews(units@))) + Seq::<char>::empty() =~= non_ws(concat(vviews(units@))));
            }
        } else if w.len() < max_chars && cur.len() <= max_chars - 1 - w.len() {
            let ghost oc = cur@;
            cur.push(' ');
            proof {
                lemma_non_ws_push(oc, ' ');
            }
            let ghost mid = cur@;
            push_all(&mut cur, w);
            proof {
                lemma_non_ws_add(mid, w@);
            }
        } else {
            let ghost oc = cur@;
            cur.push(' ');
            proof {
                lemma_non_ws_push(oc, ' ');
            }
            let ghost ou = units@;
            units.push(cur);
            proof {
                lemma_vviews_push(ou, units@.last());
                lemma_concat_push(vviews(ou), units@.last()@);
                lemma_non_ws_add(concat(vviews(ou)), units@.last()@);
            }
            cur = Vec::new();
            push_all(&mut cur, w);
            assert(cur@ =~= w@);
        }
        proof {
            assert(vviews(units@) =~= st.0);
            assert(cur@ =~= st.1);
        }
        k = k + 1;
    }
    proof {
        assert(vviews(words@).take(words.len() as int) =~= vviews(words@));
    }
    let ghost fin = word_pack_scan(vviews(words@), words@.len() as nat, max_chars as nat);
    if words.len() > 0 {
        if cur[cur.len() - 1] != ' ' {
            proof {
                lemma_non_ws_push(cur@, ' ');
            }
            cur.push(' ');
        }
        let ghost ou = units@;
        let ghost last = cur@;
        units.push(cur);
        proof {
            lemma_vviews_push(ou, units@.last());
            lemma_concat_push(vviews(ou), units@.last()@);
            lemma_non_ws_add(concat(vviews(ou)), units@.last()@);
            assert(vviews(units@) =~= vviews(ou).push(last));
        }
    } else if t.len() > 0 {
        let mut whole: Vec<char> = Vec::new();
        push_all(&mut whole, t);
        let ghost ou = units@;
        units.push(whole);
        proof {
            assert(vviews(words@) =~= Seq::<Seq<char>>::empty());
            assert(whole@ =~= t@);
            lemma_vviews_push(ou, units@.last());
            lemma_concat_push(vviews(ou), units@.last()@);
            assert(vviews(ou) =~= Seq::<Seq<char>>::empty());
            assert(concat(vviews(units@)) =~= t@);
        }
    } else {
        assert(t@ =~= Seq::<char>::empty());
        assert(non_ws(t@) =~= Seq::<char>::empty());
        assert(vviews(units@) =~= Seq::<Seq<char>>::empty());
    }
    units
}

pub(crate) proof fn lemma_concat_add(a: Seq<Seq<char>>, b: Seq<Seq<char>>)
    ensures
        concat(a + b) == concat(a) + concat(b),
    decreases b.len(),
{
    if b.len() == 0 {
        assert(a + b =~= a);
        assert(concat(a) + concat(b) =~= concat(a));
    } else {
        lemma_concat_add(a, b.drop_last());
        assert((a + b).drop_last() =~= a + b.drop_last());
        assert(concat(a + b) =~= concat(a) + concat(b));
    }
}

/// The units of one clause: itself when it fits in `max` characters, else its
/// word units.
pub open spec fn clause_units(c: Seq<char>, max: nat) -> Seq<Seq<char>> {
    if c.len() <= max {
        seq![c]
    } else {
        word_units(c, max)
    }
}

pub open spec fn clauses_units(cs: Seq<Seq<char>>, max: nat) -> Seq<Seq<char>>
    decreases cs.len(),
{
    if cs.len() == 0 {
        Seq::empty()
    } else {
        clauses_units(cs.drop_last(), max) + clause_units(cs.last(), max)
    }
}

/// The units of one sentence: itself when it fits, else the units of its clauses.
pub open spec fn sentence_units(s: Seq<char>, max: nat) -> Seq<Seq<char>> {
    if s.len() <= max {
        seq![s]
    } else {
        clauses_units(clause_scan(s, 0, 0), max)
    }
}

pub open spec fn sentences_units(ss: Seq<Seq<char>>, max: nat) -> Seq<Seq<char>>
    decreases ss.len(),
{
    if ss.len() == 0 {
        Seq::empty()
    } else {
        sentences_units(ss.drop_last(), max) + sentence_units(ss.last(), max)
    }
}

/// The units of one block: itself when it fits, else the units of its sentences.
pub open spec fn block_units(b: Seq<char>, max: nat) -> Seq<Seq<char>> {
    if b.len() <= max {
        seq![b]
    } else {
        sentences_units(sentence_scan(b, 0, 0), max)
    }
}

pub open spec fn blocks_units(bs: Seq<Seq<char>>, max: nat) -> Seq<Seq<char>>
    decreases bs.len(),
{
    if bs.len() == 0 {
        Seq::empty()
    } else {
        blocks_units(bs.drop_last(), max) + block_units(bs.last(), max)
    }
}

/// The top-down decomposition of a text into units.
pub open spec fn decomposition(t: Seq<char>, max: nat) -> Seq<Seq<char>> {
    blocks_units(paragraph_blocks(t), max)
}

fn append_pieces(units: &mut Vec<Vec<char>>, pieces: Vec<Vec<char>>)
    ensures
        vviews(final(units)@) == vviews(old(units)@) + vviews(pieces@),
        non_ws(concat(vviews(final(units)@))) == non_ws(concat(vviews(old(units)@))) + non_ws(
            concat(vviews(pieces@)),
        ),
{
    let ghost start = units@;
    let mut k: usize = 0;
    let n = pieces.len();
    let mut rest = pieces;
    let ghost all = rest@;
    while k < n
        invariant
            0 <= k <= n,
            n == all.len(),
            rest@ == all,
            vviews(units@) == vviews(start) + vviews(all).take(k as int),
        decreases n - k,
    {
        let piece = rest[k].clone();
        let ghost ou = units@;
        units.push(piece);
        proof {
            lemma_vviews_push(ou, units@.last());
            assert(units@.last()@ == all[k as int]@);
            assert(vviews(all).take(k + 1) =~= vviews(all).take(k as int).push(all[k as int]@));
            assert(vviews(units@) =~= vviews(start) + vviews(all).take(k + 1));
        }
        k = k + 1;
    }
    proof {
        assert(vviews(all).take(n as int) =~= vviews(all));
        lemma_concat_add(vviews(start), vviews(all));
        lemma_non_ws_add(concat(vviews(start)), concat(vviews(all)));
    }
}

fn push_unit(units: &mut Vec<Vec<char>>, piece: &[char])
    ensures
        vviews(final(units)@) == vviews(old(units)@).push(piece@),
        non_ws(concat(vviews(final(units)@))) == non_ws(concat(vviews(old(units)@))) + non_ws(
            piece@,
        ),
{
    let mut v: Vec<char> = Vec::new();
    push_all(&mut v, piece);
    assert(v@ =~= piece@);
    let ghost ou = units@;
    units.push(v);
    proof {
        lemma_vviews_push(ou, units@.last());
        lemma_concat_push(vviews(ou), units@.last()@);
        lemma_non_ws_add(concat(vviews(ou)), piece@);
    }
}

fn push_clause_units(units: &mut Vec<Vec<char>>, clause: &[char], max_chars: usize)
    ensures
        vviews(final(units)@) == vviews(old(units)@) + clause_units(clause@, max_chars as nat),
        non_ws(concat(vviews(final(units)@))) == non_ws(concat(vviews(old(units)@))) + non_ws(
            clause@,
        ),
{
    if clause.len() <= max_chars {
        push_unit(units, clause);
    } else {
        let words = split_words_chars(clause, max_chars);
        append_pieces(units, words);
    }
}

fn push_sentence_units(units: &mut Vec<Vec<char>>, sentence: &[char], max_chars: usize)
    ensures
        vviews(final(units)@) == vviews(old(units)@) + sentence_units(sentence@, max_chars as nat),
        non_ws(concat(vviews(final(units)@))) == non_ws(concat(vviews(old(units)@))) + non_ws(
            sentence@,
        ),
{
    if sentence.len() <= max_chars {
        push_unit(units, sentence);
    } else {
        let clauses = split_clauses_chars(sentence);
        let ghost start = units@;
        let mut k: usize = 0;
        proof {
            assert(vviews(clauses@).take(0) =~= Seq::<Seq<char>>::empty());
            assert(vviews(units@) =~= vviews(start) + clauses_units(Seq::<Seq<char>>::empty(), max_chars as nat));
            assert(non_ws(Seq::<char>::empty()) =~= Seq::<char>::empty());
            assert(non_ws(concat(vviews(start))) + Seq::<char>::empty() =~= non_ws(concat(vviews(start))));
        }
        while k < clauses.len()
            invariant
                0 <= k <= clauses.len(),
                non_ws(concat(vviews(units@))) == non_ws(concat(vviews(start))) + non_ws(
                    concat(vviews(clauses@).take(k as int)),
                ),
                vviews(units@) == vviews(start) + clauses_units(
                    vviews(clauses@).take(k as int),
                    max_chars as nat,
                ),
            decreases clauses.len() - k,
        {
            let c = clauses[k].as_slice();
            proof {
                assert(vviews(clauses@).take(k + 1).drop_last() =~= vviews(clauses@).take(k as int));
                assert(vviews(clauses@)[k as int] == c@);
                lemma_take_push_concat(vviews(clauses@), k as int);
                lemma_non_ws_add(concat(vviews(clauses@).take(k as int)), c@);
            }
            let ghost before = vviews(units@);
            push_clause_units(units, c, max_chars);
            proof {
                assert(vviews(units@) =~= vviews(start) + clauses_units(
                    vviews(clauses@).take(k + 1),
                    max_chars as nat,
                ));
            }
            k = k + 1;
        }
        assert(vviews(clauses@).take(clauses.len() as int) =~= vviews(clauses@));
    }
}

/// Decomposes text top-down (heading/paragraph, sentence, clause, word) into units
/// of at most `max_chars` characters wherever a finer level can make them so.
pub fn decompose_text(input: &[char], max_chars: usize) -> (r: Vec<Vec<char>>)
    ensures
        vviews(r@) == decomposition(input@, max_chars as nat),
        non_ws(concat(vviews(r@))) == non_ws(input@),
{
    let blocks = split_headings_and_paragraphs(input);
    let mut units: Vec<Vec<char>> = Vec::new();
    let mut k: usize = 0;
    proof {
        assert(vviews(blocks@).take(0) =~= Seq::<Seq<char>>::empty());
        assert(blocks_units(Seq::<Seq<char>>::empty(), max_chars as nat) =~= Seq::<Seq<char>>::empty());
        assert(vviews(units@) =~= Seq::<Seq<char>>::empty());
        assert(non_ws(Seq::<char>::empty()) =~= Seq::<char>::empty());
    }
    while k < blocks.len()
        invariant
            0 <= k <= blocks.len(),
            non_ws(concat(vviews(units@))) == non_ws(concat(vviews(blocks@).take(k as int))),
            vviews(blocks@) == paragraph_blocks(input@),
            vviews(units@) == blocks_units(vviews(blocks@).take(k as int), max_chars as nat),
        decreases blocks.len() - k,
    {
        let block = blocks[k].as_slice();
        let ghost before = vviews(units@);
        proof {
            assert(vviews(blocks@).take(k + 1).drop_last() =~= vviews(blocks@).take(k as int));
            assert(vviews(blocks@)[k as int] == block@);
            lemma_take_push_concat(vviews(blocks@), k as int);
            lemma_non_ws_add(concat(vviews(blocks@).take(k as int)), block@);
        }
        if block.len() <= max_chars {
            push_unit(&mut units, block);
        } else {
            let sentences = split_sentences_chars(block);
            let ghost start = units@;
            let mut m: usize = 0;
            proof {
                assert(vviews(sentences@).take(0) =~= Seq::<Seq<char>>::empty());
                assert(vviews(units@) =~= vviews(start) + sentences_units(
                    Seq::<Seq<char>>::empty(),
                    max_chars as nat,
                ));
                assert(non_ws(concat(vviews(start))) + Seq::<char>::empty() =~= non_ws(concat(vviews(start))));
            }
            while m < sentences.len()
                invariant
                    0 <= m <= sentences.len(),
                    non_ws(concat(vviews(units@))) == non_ws(concat(vviews(start))) + non_ws(
                        concat(vviews(sentences@).take(m as int)),
                    ),
                    vviews(units@) == vviews(start) + sentences_units(
                        vviews(sentences@).take(m as int),
                        max_chars as nat,
                    ),
                decreases sentences.len() - m,
            {
                let sn = sentences[m].as_slice();
                proof {
                    assert(vviews(sentences@).take(m + 1).drop_last() =~= vviews(sentences@).take(
                        m as int,
                    ));
                    assert(vviews(sentences@)[m as int] == sn@);
                    lemma_take_push_concat(vviews(sentences@), m as int);
                    lemma_non_ws_add(concat(vviews(sentences@).take(m as int)), sn@);
                }
                push_sentence_units(&mut units, sn, max_chars);
                proof {
                    assert(vviews(units@) =~= vviews(start) + sentences_units(
                        vviews(sentences@).take(m + 1),
                        max_chars as nat,
                    ));
                }
                m = m + 1;
            }
            assert(vviews(sentences@).take(sentences.len() as int) =~= vviews(sentences@));
        }
        proof {
            assert(vviews(units@) =~= blocks_units(vviews(blocks@).take(k + 1), max_chars as nat));
        }
        k = k + 1;
    }
    assert(vviews(blocks@).take(blocks.len() as int) =~= vviews(blocks@));
    units
}

/// One chunk of text, numbered from zero; `position` is one-based.
#[derive(Debug, Clone, PartialEq, Eq)]
pub struct TextChunk {
    pub index: usize,
    pub position: i32,
    pub text: String,
    pub word_count: usize,
    pub char_count: usize,
}

/// The texts of a list of chunks.
pub open spec fn chunk_texts(cs: Seq<TextChunk>) -> Seq<Seq<char>> {
    cs.map_values(|c: TextChunk| c.text@)
}

/// The chunk at list position `i` is numbered `i`, its text is trimmed and non-empty,
/// and its counts are those of its text.
pub open spec fn chunk_well_formed(c: TextChunk, i: int) -> bool {
    &&& c.index == i
    &&& c.position == (i + 1) as i32
    &&& is_trimmed_nonempty(c.text@)
    &&& c.char_count == c.text@.len()
    &&& c.word_count == word_count(c.text@)
}

pub open spec fn chunks_well_formed(cs: Seq<TextChunk>) -> bool {
    forall|i: int| 0 <= i < cs.len() ==> chunk_well_formed(#[trigger] cs[i], i)
}

proof fn lemma_chunk_texts_push(cs: Seq<TextChunk>, c: TextChunk)
    ensures
        chunk_texts(cs.push(c)) == chunk_texts(cs).push(c.text@),
{
    assert(chunk_texts(cs.push(c)) =~= chunk_texts(cs).push(c.text@));
}

/// The pieces, trimmed, without those that trim to nothing: the texts of the chunks
/// made from them.
pub open spec fn kept_texts(ps: Seq<Seq<char>>) -> Seq<Seq<char>>
    decreases ps.len(),
{
    if ps.len() == 0 {
        Seq::empty()
    } else if trim(ps.last()).len() > 0 {
        kept_texts(ps.drop_last()).push(trim(ps.last()))
    } else {
        kept_texts(ps.drop_last())
    }
}

/// Trims `buf` and, when something is left, appends it as the next chunk.
fn finalize_chunk(chunks: &mut Vec<TextChunk>, buf: &[char])
    requires
        old(chunks)@.len() < usize::MAX,
        chunks_well_formed(old(chunks)@),
    ensures
        chunks_well_formed(final(chunks)@),
        trim(buf@).len() > 0 ==> chunk_texts(final(chunks)@) == chunk_texts(old(chunks)@).push(
            trim(buf@),
        ),
        trim(buf@).len() == 0 ==> chunk_texts(final(chunks)@) == chunk_texts(old(chunks)@),
        final(chunks)@.len() <= old(chunks)@.len() + 1,
        non_ws(concat(chunk_texts(final(chunks)@))) == non_ws(concat(chunk_texts(old(chunks)@)))
            + non_ws(buf@),
{
    let t = trim_chars(buf);
    proof {
        lemma_trim_keeps_non_ws(buf@);
        lemma_trim_shape(buf@);
    }
    if t.len() > 0 {
        let idx = chunks.len();
        let wc = count_words(t.as_slice());
        let cc = t.len();
        let text = chars_to_string(t.as_slice());
        let pos = (idx + 1) as i32;
        let ghost oc = chunks@;
        chunks.push(TextChunk { index: idx, position: pos, text, word_count: wc, char_count: cc });
        proof {
            lemma_chunk_texts_push(oc, chunks@.last());
            lemma_concat_push(chunk_texts(oc), t@);
            lemma_non_ws_add(concat(chunk_texts(oc)), t@);
            assert forall|i: int| 0 <= i < chunks@.len() implies chunk_well_formed(
                #[trigger] chunks@[i],
                i,
            ) by {
                if i < oc.len() {
                    assert(chunks@[i] == oc[i]);
                }
            }
        }
    } else {
        proof {
            assert(t@ =~= Seq::<char>::empty());
            assert(non_ws(Seq::<char>::empty()) =~= Seq::<char>::empty());
            assert(non_ws(concat(chunk_texts(chunks@))) + non_ws(buf@) =~= non_ws(
                concat(chunk_texts(chunks@)),
            ));
        }
    }
}

/// Turns each piece, trimmed, into a chunk; pieces that trim to nothing are dropped.
fn finalize_all(pieces: &Vec<Vec<char>>) -> (r: Vec<TextChunk>)
    ensures
        chunks_well_formed(r@),
        chunk_texts(r@) == kept_texts(vviews(pieces@)),
        non_ws(concat(chunk_texts(r@))) == non_ws(concat(vviews(pieces@))),
{
    let mut chunks: Vec<TextChunk> = Vec::new();
    let mut k: usize = 0;
    proof {
        assert(vviews(pieces@).take(0) =~= Seq::<Seq<char>>::empty());
        assert(chunk_texts(chunks@) =~= Seq::<Seq<char>>::empty());
        assert(kept_texts(vviews(pieces@).take(0)) =~= Seq::<Seq<char>>::empty());
    }
    while k < pieces.len()
        invariant
            0 <= k <= pieces.len(),
            chunks@.len() <= k,
            chunks_well_formed(chunks@),
            non_ws(concat(chunk_texts(chunks@))) == non_ws(concat(vviews(pieces@).take(k as int))),
            chunk_texts(chunks@) == kept_texts(vviews(pieces@).take(k as int)),
        decreases pieces.len() - k,
    {
        let p = pieces[k].as_slice();
        proof {
            assert(vviews(pieces@).take(k + 1).drop_last() =~= vviews(pieces@).take(k as int));
            assert(vviews(pieces@)[k as int] == p@);
            lemma_take_push_concat(vviews(pieces@), k as int);
            lemma_non_ws_add(concat(vviews(pieces@).take(k as int)), p@);
        }
        finalize_chunk(&mut chunks, p);
        k = k + 1;
    }
    assert(vviews(pieces@).take(pieces.len() as int) =~= vviews(pieces@));
    chunks
}

/// The buffers closed and the buffer being filled after the first `k` units:
/// units are gathered while the buffer stays within `max` characters, and a
/// buffer that reaches `target` characters with a unit ending in a line feed closes.
pub open spec fn pack_scan(us: Seq<Seq<char>>, k: nat, max: nat, target: nat) -> (Seq<Seq<char>>, Seq<char>)
    decreases k,
{
    if k == 0 || k > us.len() {
        (Seq::empty(), Seq::empty())
    } else {
        let st = pack_scan(us, (k - 1) as nat, max, target);
        let u = us[k - 1];
        if st.1.len() == 0 {
            (st.0, u)
        } else if u.len() <= max && st.1.len() + u.len() <= max {
            let b = st.1 + u;
            if b.len() >= target && u.len() > 0 && u.last() == '\n' {
                (st.0.push(b), Seq::empty())
            } else {
                (st.0, b)
            }
        } else {
            (st.0.push(st.1), u)
        }
    }
}

/// All buffers of the packing, the last one included when it holds anything.
pub open spec fn packed(us: Seq<Seq<char>>, max: nat, target: nat) -> Seq<Seq<char>> {
    let st = pack_scan(us, us.len(), max, target);
    if st.1.len() > 0 {
        st.0.push(st.1)
    } else {
        st.0
    }
}

/// Chunk size limits in characters.
#[derive(Debug, Clone, Copy, PartialEq, Eq)]
pub struct ChunkConfig {
    pub min_chars: usize,
    pub max_chars: usize,
    pub target_chars: usize,
}

impl ChunkConfig {
    pub fn new(min_chars: usize, max_chars: usize, target_chars: usize) -> (r: Self)
        ensures
            r.min_chars == min_chars,
            r.max_chars == max_chars,
            r.target_chars == target_chars,
    {
        ChunkConfig { min_chars, max_chars, target_chars }
    }

    pub fn min_chars(&self) -> (r: usize)
        ensures
            r == self.min_chars,
    {
        self.min_chars
    }

    pub fn max_chars(&self) -> (r: usize)
        ensures
            r == self.max_chars,
    {
        self.max_chars
    }

    pub fn target_chars(&self) -> (r: usize)
        ensures
            r == self.target_chars,
    {
        self.target_chars
    }
}

impl Default for ChunkConfig {
    /// 12 s, 35 s and 24 s of speech at 15 characters per second.
    fn default() -> (r: Self)
        ensures
            r.min_chars == 180,
            r.max_chars == 525,
            r.target_chars == 360,
    {
        ChunkConfig { min_chars: 180, max_chars: 525, target_chars: 360 }
    }
}

/// Hierarchical chunker: heading, paragraph, sentence, clause, word.
#[derive(Debug, Clone)]
pub struct VietnameseChunker {
    config: ChunkConfig,
}

impl VietnameseChunker {
    pub fn new(config: ChunkConfig) -> (r: Self)
        ensures
            r.config() == config,
    {
        VietnameseChunker { config }
    }

    pub fn with_default_config() -> (r: Self)
        ensures
            r.config() == (ChunkConfig { min_chars: 180, max_chars: 525, target_chars: 360 }),
    {
        Self::new(ChunkConfig::default())
    }

    pub closed spec fn config_spec(&self) -> ChunkConfig {
        self.config
    }

    pub open spec fn config(&self) -> ChunkConfig {
        self.config_spec()
    }

    pub fn config_ref(&self) -> (r: &ChunkConfig)
        ensures
            *r == self.config(),
    {
        &self.config
    }

    /// Splits text into chunks of roughly `target_chars`..`max_chars` characters:
    /// units from the hierarchical decomposition are gathered while they fit in
    /// `max_chars`, and a chunk also closes once it reaches `target_chars` at a line end.
    /// No non-white-space character is lost, added or reordered.
    pub fn chunk_text(&self, input: &str) -> (r: Vec<TextChunk>)
        ensures
            chunks_well_formed(r@),
            chunk_texts(r@) == (if trim(input@).len() == 0 {
                Seq::empty()
            } else {
                kept_texts(
                    packed(
                        decomposition(input@, self.config().max_chars as nat),
                        self.config().max_chars as nat,
                        self.config().target_chars as nat,
                    ),
                )
            }),
            non_ws(concat(chunk_texts(r@))) == non_ws(input@),
    {
        let chars = str_to_chars(input);
        let cs = chars.as_slice();
        let trimmed = trim_chars(cs);
        if trimmed.len() == 0 {
            proof {
                lemma_trim_keeps_non_ws(input@);
                assert(non_ws(trimmed@) =~= Seq::<char>::empty());
                assert(chunk_texts(Seq::<TextChunk>::empty()) =~= Seq::<Seq<char>>::empty());
            }
            return Vec::new();
        }
        let max_chars = self.config.max_chars;
        let target_chars = self.config.target_chars;
        let units = decompose_text(cs, max_chars);
        let ghost us = vviews(units@);
        let mut chunks: Vec<TextChunk> = Vec::new();
        let mut buf: Vec<char> = Vec::new();
        let mut k: usize = 0;
        proof {
            assert(vviews(units@).take(0) =~= Seq::<Seq<char>>::empty());
            assert(chunk_texts(chunks@) =~= Seq::<Seq<char>>::empty());
            assert(non_ws(Seq::<char>::empty()) =~= Seq::<char>::empty());
        }
        while k < units.len()
            invariant
                0 <= k <= units.len(),
                chunks@.len() + (if buf@.len() > 0 { 1int } else { 0int }) <= k,
                chunks_well_formed(chunks@),
                non_ws(concat(chunk_texts(chunks@))) + non_ws(buf@) == non_ws(
                    concat(vviews(units@).take(k as int)),
                ),
                us == vviews(units@),
                max_chars == self.config().max_chars,
                target_chars == self.config().target_chars,
                chunk_texts(chunks@) == kept_texts(
                    pack_scan(us, k as nat, max_chars as nat, target_chars as nat).0,
                ),
                buf@ == pack_scan(us, k as nat, max_chars as nat, target_chars as nat).1,
            decreases units.len() - k,
        {
            let unit = units[k].as_slice();
            let ghost prev = pack_scan(us, k as nat, max_chars as nat, target_chars as nat);
            let ghost st = pack_scan(us, (k + 1) as nat, max_chars as nat, target_chars as nat);
            proof {
                assert(us[k as int] == unit@);
            }
            let ghost pre = concat(vviews(units@).take(k as int));
            proof {
                assert(vviews(units@)[k as int] == unit@);
                lemma_take_push_concat(vviews(units@), k as int);
                lemma_non_ws_add(pre, unit@);
            }
            let ucc = unit.len();
            if buf.len() == 0 {
                push_all(&mut buf, unit);
                assert(buf@ =~= unit@);
                assert(non_ws(concat(chunk_texts(chunks@))) =~= non_ws(concat(chunk_texts(chunks@)))
                    + Seq::<char>::empty());
            } else if ucc <= max_chars && buf.len() <= max_chars - ucc {
                let ghost ob = buf@;
                push_all(&mut buf, unit);
                proof {
                    lemma_non_ws_add(ob, unit@);
                }
                if buf.len() >= target_chars && unit.len() > 0 && unit[unit.len() - 1] == '\n' {
                    finalize_chunk(&mut chunks, buf.as_slice());
                    proof {
                        assert(prev.0.push(buf@).drop_last() =~= prev.0);
                    }
                    buf = Vec::new();
                    assert(non_ws(concat(chunk_texts(chunks@))) + non_ws(buf@) =~= non_ws(
                        concat(chunk_texts(chunks@)),
                    ));
                }
            } else {
                finalize_chunk(&mut chunks, buf.as_slice());
                proof {
                    assert(prev.0.push(buf@).drop_last() =~= prev.0);
                }
                buf = Vec::new();
                push_all(&mut buf, unit);
                assert(buf@ =~= unit@);
            }
            proof {
                assert(buf@ =~= st.1);
            }
            k = k + 1;
        }
        let ghost fin = pack_scan(us, us.len(), max_chars as nat, target_chars as nat);
        if buf.len() > 0 {
            finalize_chunk(&mut chunks, buf.as_slice());
            proof {
                assert(fin.0.push(fin.1).drop_last() =~= fin.0);
            }
        } else {
            assert(non_ws(concat(chunk_texts(chunks@))) + non_ws(buf@) =~= non_ws(
                concat(chunk_texts(chunks@)),
            ));
        }
        assert(vviews(units@).take(units.len() as int) =~= vviews(units@));
        chunks
    }

    /// Sentence splitting of a paragraph, as used by the chunker's second level.
    pub fn split_sentences(&self, text: &str) -> (r: Vec<String>)
        ensures
            r@.map_values(|x: String| x@) == sentence_scan(text@, 0, 0),
            concat(r@.map_values(|x: String| x@)) == text@,
            forall|i: int| 0 <= i < r@.len() ==> (#[trigger] r@[i])@.len() > 0,
    {
        let chars = str_to_chars(text);
        let parts = split_sentences_chars(chars.as_slice());
        let r = strings_of(&parts);
        assert forall|i: int| 0 <= i < r@.len() implies (#[trigger] r@[i])@.len() > 0 by {
            assert(r@.map_values(|x: String| x@)[i] == r@[i]@);
            assert(vviews(parts@)[i] == parts@[i]@);
        }
        r
    }
}

fn strings_of(parts: &Vec<Vec<char>>) -> (r: Vec<String>)
    ensures
        r@.map_values(|x: String| x@) == vviews(parts@),
{
    let mut out: Vec<String> = Vec::new();
    let mut k: usize = 0;
    while k < parts.len()
        invariant
            0 <= k <= parts.len(),
            out@.map_values(|x: String| x@) == vviews(parts@).take(k as int),
        decreases parts.len() - k,
    {
        let s = chars_to_string(parts[k].as_slice());
        let ghost oo = out@;
        out.push(s);
        proof {
            assert(out@.map_values(|x: String| x@) =~= oo.map_values(|x: String| x@).push(
                parts@[k as int]@,
            ));
            assert(vviews(parts@).take(k + 1) =~= vviews(parts@).take(k as int).push(
                parts@[k as int]@,
            ));
        }
        k = k + 1;
    }
    assert(vviews(parts@).take(parts.len() as int) =~= vviews(parts@));
    out
}

/// The pieces of `t` from the piece that starts at `start`, scanning on from `i`,
/// cut at each blank-line separator ("\n\n"), which belongs to neither side.
pub open spec fn blank_line_scan(t: Seq<char>, start: int, i: int) -> Seq<Seq<char>>
    decreases t.len() - i,
{
    if start < 0 || i < start {
        Seq::empty()
    } else if i >= t.len() {
        seq![t.subrange(start, t.len() as int)]
    } else if i + 1 < t.len() && t[i] == '\n' && t[i + 1] == '\n' {
        seq![t.subrange(start, i)] + blank_line_scan(t, i + 2, i + 2)
    } else {
        blank_line_scan(t, start, i + 1)
    }
}

/// The pieces finished and the piece being read after the first `k` characters,
/// in the sentence mode: a piece ends with '.', '!', '?' or a line feed.
pub open spec fn sentence_mode_scan(t: Seq<char>, k: nat) -> (Seq<Seq<char>>, Seq<char>)
    decreases k,
{
    if k == 0 || k > t.len() {
        (Seq::empty(), Seq::empty())
    } else {
        let st = sentence_mode_scan(t, (k - 1) as nat);
        let c = t[k - 1];
        if c == '.' || c == '!' || c == '?' || c == '\n' {
            (st.0.push(st.1.push(c)), Seq::empty())
        } else {
            (st.0, st.1.push(c))
        }
    }
}

/// The pieces of the sentence mode, the last (possibly empty) included.
pub open spec fn sentence_mode_split(t: Seq<char>) -> Seq<Seq<char>> {
    let st = sentence_mode_scan(t, t.len());
    st.0.push(st.1)
}

/// Splits at each non-overlapping blank-line separator ("\n\n"), left to right.
fn split_on_blank_line(t: &[char]) -> (r: Vec<Vec<char>>)
    ensures
        vviews(r@) == blank_line_scan(t@, 0, 0),
        non_ws(concat(vviews(r@))) == non_ws(t@),
{
    let mut out: Vec<Vec<char>> = Vec::new();
    let mut start: usize = 0;
    let mut i: usize = 0;
    proof {
        assert(t@.take(0) =~= Seq::<char>::empty());
        assert(vviews(out@) =~= Seq::<Seq<char>>::empty());
        assert(non_ws(Seq::<char>::empty()) =~= Seq::<char>::empty());
    }
    while i < t.len()
        invariant
            0 <= start <= i <= t.len(),
            non_ws(concat(vviews(out@))) == non_ws(t@.take(start as int)),
            vviews(out@) + blank_line_scan(t@, start as int, i as int) == blank_line_scan(t@, 0, 0),
        decreases t.len() - i,
    {
        if t.len() - i > 1 && t[i] == '\n' && t[i + 1] == '\n' {
            let piece = sub_chars(t, start, i);
            let ghost oo = out@;
            let ghost i0 = i as int;
            let ghost s0 = start as int;
            out.push(piece);
            proof {
                assert(blank_line_scan(t@, s0, i0) == seq![t@.subrange(s0, i0)] + blank_line_scan(
                    t@,
                    i0 + 2,
                    i0 + 2,
                ));
                assert(vviews(out@) + blank_line_scan(t@, i0 + 2, i0 + 2) =~= vviews(oo)
                    + blank_line_scan(t@, s0, i0));
                lemma_vviews_push(oo, out@.last());
                lemma_concat_push(vviews(oo), out@.last()@);
                lemma_non_ws_add(concat(vviews(oo)), piece@);
                assert(t@.take(start as int) + t@.subrange(start as int, i as int) =~= t@.take(
                    i as int,
                ));
                lemma_non_ws_add(t@.take(start as int), t@.subrange(start as int, i as int));
                assert(t@.take(i + 2) =~= t@.take(i as int).push('\n').push('\n'));
                lemma_non_ws_push(t@.take(i as int), '\n');
                lemma_non_ws_push(t@.take(i as int).push('\n'), '\n');
            }
            i = i + 2;
            start = i;
        } else {
            assert(blank_line_scan(t@, start as int, i as int) == blank_line_scan(
                t@,
                start as int,
                i + 1,
            ));
            i = i + 1;
        }
    }
    let piece = sub_chars(t, start, t.len());
    let ghost oo = out@;
    out.push(piece);
    proof {
        assert(vviews(out@) =~= vviews(oo) + blank_line_scan(t@, start as int, i as int));
        lemma_vviews_push(oo, out@.last());
        lemma_concat_push(vviews(oo), out@.last()@);
        lemma_non_ws_add(concat(vviews(oo)), piece@);
        assert(t@.take(start as int) + t@.subrange(start as int, t.len() as int) =~= t@);
        lemma_non_ws_add(t@.take(start as int), t@.subrange(start as int, t.len() as int));
    }
    out
}

/// Pieces ending at each '.', '!', '?' or line feed.
fn sentence_mode_pieces(t: &[char]) -> (r: Vec<Vec<char>>)
    ensures
        vviews(r@) == sentence_mode_split(t@),
        concat(vviews(r@)) == t@,
{
    let mut out: Vec<Vec<char>> = Vec::new();
    let mut cur: Vec<char> = Vec::new();
    let mut i: usize = 0;
    proof {
        assert(t@.take(0) =~= Seq::<char>::empty());
        assert(vviews(out@) =~= Seq::<Seq<char>>::empty());
    }
    while i < t.len()
        invariant
            0 <= i <= t.len(),
            concat(vviews(out@)) + cur@ == t@.take(i as int),
            (vviews(out@), cur@) == sentence_mode_scan(t@, i as nat),
        decreases t.len() - i,
    {
        let ch = t[i];
        let ghost st = sentence_mode_scan(t@, (i + 1) as nat);
        assert(t@[i as int] == ch);
        let ghost oc = cur@;
        cur.push(ch);
        assert(t@.take(i + 1) =~= t@.take(i as int).push(ch));
        assert(concat(vviews(out@)) + cur@ =~= (concat(vviews(out@)) + oc).push(ch));
        if ch == '.' || ch == '!' || ch == '?' || ch == '\n' {
            let ghost oo = out@;
            out.push(cur);
            proof {
                lemma_vviews_push(oo, out@.last());
                lemma_concat_push(vviews(oo), out@.last()@);
            }
            cur = Vec::new();
            assert(concat(vviews(out@)) + cur@ =~= concat(vviews(out@)));
        }
        proof {
            assert(vviews(out@) =~= st.0);
            assert(cur@ =~= st.1);
        }
        i = i + 1;
    }
    let ghost oo = out@;
    let ghost last = cur@;
    out.push(cur);
    proof {
        assert(vviews(out@) =~= vviews(oo).push(last));
        lemma_vviews_push(oo, out@.last());
        lemma_concat_push(vviews(oo), out@.last()@);
        assert(t@.take(t.len() as int) =~= t@);
    }
    out
}

/// The pieces finished and the piece being filled after the first `k` words, in
/// the 500-character mode.
pub open spec fn chars500_scan(ws: Seq<Seq<char>>, k: nat) -> (Seq<Seq<char>>, Seq<char>)
    decreases k,
{
    if k == 0 || k > ws.len() {
        (Seq::empty(), Seq::empty())
    } else {
        let st = chars500_scan(ws, (k - 1) as nat);
        let w = ws[k - 1];
        let closed = if st.1.len() > 0 && (w.len() >= 500 || st.1.len() + w.len() > 499) {
            (st.0.push(st.1), Seq::<char>::empty())
        } else {
            st
        };
        (closed.0, (if closed.1.len() > 0 { closed.1.push(' ') } else { closed.1 }) + w)
    }
}

/// The pieces of the 500-character mode: words joined by single spaces while the
/// piece stays under 500 characters.
pub open spec fn chars500_split(t: Seq<char>) -> Seq<Seq<char>> {
    let ws = ws_words(t);
    let st = chars500_scan(ws, ws.len());
    if st.1.len() > 0 {
        st.0.push(st.1)
    } else {
        st.0
    }
}

/// Words gathered into pieces of at most 500 characters (a longer word stands alone).
fn chars500_pieces(t: &[char]) -> (r: Vec<Vec<char>>)
    ensures
        vviews(r@) == chars500_split(t@),
        non_ws(concat(vviews(r@))) == non_ws(t@),
{
    let words = split_ws_words(t);
    let mut out: Vec<Vec<char>> = Vec::new();
    let mut cur: Vec<char> = Vec::new();
    let mut k: usize = 0;
    proof {
        assert(vviews(words@).take(0) =~= Seq::<Seq<char>>::empty());
        assert(vviews(out@) =~= Seq::<Seq<char>>::empty());
        assert(non_ws(Seq::<char>::empty()) =~= Seq::<char>::empty());
    }
    while k < words.len()
        invariant
            0 <= k <= words.len(),
            non_ws(concat(vviews(out@))) + non_ws(cur@) == concat(vviews(words@).take(k as int)),
            forall|m: int, j: int|
                0 <= m < words@.len() && 0 <= j < words@[m]@.len() ==> !is_ws(
                    #[trigger] words@[m]@[j],
                ),
            vviews(words@) == ws_words(t@),
            (vviews(out@), cur@) == chars500_scan(vviews(words@), k as nat),
        decreases words.len() - k,
    {
        let w = words[k].as_slice();
        let ghost st = chars500_scan(vviews(words@), (k + 1) as nat);
        proof {
            assert(vviews(words@)[k as int] == w@);
        }
        proof {
            assert(vviews(words@)[k as int] == w@);
            lemma_take_push_concat(vviews(words@), k as int);
            assert forall|j: int| 0 <= j < w@.len() implies !is_ws(#[trigger] w@[j]) by {
                assert(w@[j] == words@[k as int]@[j]);
            }
            lemma_non_ws_of_non_ws_only(w@);
        }
        if cur.len() > 0 && (w.len() >= 500 || cur.len() > 499 - w.len()) {
            let ghost ou = out@;
            out.push(cur);
            proof {
                lemma_vviews_push(ou, out@.last());
                lemma_concat_push(vviews(ou), out@.last()@);
                lemma_non_ws_add(concat(vviews(ou)), out@.last()@);
            }
            cur = Vec::new();
            assert(non_ws(cur@) =~= Seq::<char>::empty());
            assert(non_ws(concat(vviews(out@))) + non_ws(cur@) =~= non_ws(concat(vviews(out@))));
        }
        if cur.len() > 0 {
            proof {
                lemma_non_ws_push(cur@, ' ');
            }
            cur.push(' ');
        }
        let ghost mid = cur@;
        push_all(&mut cur, w);
        proof {
            lemma_non_ws_add(mid, w@);
            assert(vviews(out@) =~= st.0);
            assert(cur@ =~= st.1);
        }
        k = k + 1;
    }
    if cur.len() > 0 {
        let ghost ou = out@;
        let ghost last = cur@;
        out.push(cur);
        proof {
            assert(vviews(out@) =~= vviews(ou).push(last));
            lemma_vviews_push(ou, out@.last());
            lemma_concat_push(vviews(ou), out@.last()@);
            lemma_non_ws_add(concat(vviews(ou)), out@.last()@);
        }
    } else {
        assert(non_ws(cur@) =~= Seq::<char>::empty());
        assert(non_ws(concat(vviews(out@))) + non_ws(cur@) =~= non_ws(concat(vviews(out@))));
    }
    proof {
        assert(vviews(words@).take(words.len() as int) =~= vviews(words@));
    }
    out
}

fn eq_lit(m: &[char], lit: &str) -> (r: bool)
    ensures
        r == (m@ == lit@),
{
    let l = str_to_chars(lit);
    if l.len() != m.len() {
        return false;
    }
    let r = crate::textseq::matches_at(m, l.as_slice(), 0);
    proof {
        if r {
            assert(m@ =~= m@.subrange(0, l@.len() as int));
        } else {
            if m@ == l@ {
                assert(m@.subrange(0, l@.len() as int) =~= m@);
            }
        }
    }
    r
}

/// The chunk texts of the default chunker (at most 525 characters, closing at 360).
pub open spec fn default_texts(t: Seq<char>) -> Seq<Seq<char>> {
    if trim(t).len() == 0 {
        Seq::empty()
    } else {
        kept_texts(packed(decomposition(t, 525), 525, 360))
    }
}

/// The chunk texts for a mode: the pieces of the trimmed text, trimmed, without
/// empty ones.
pub open spec fn mode_texts(t: Seq<char>, mode: Seq<char>) -> Seq<Seq<char>> {
    let tt = trim(t);
    if tt.len() == 0 {
        Seq::empty()
    } else if mode == "line"@ {
        kept_texts(split_char(tt, '\n'))
    } else if mode == "paragraph"@ {
        kept_texts(blank_line_scan(tt, 0, 0))
    } else if mode == "sentence"@ {
        kept_texts(sentence_mode_split(tt))
    } else if mode == "chars_500"@ {
        kept_texts(chars500_split(tt))
    } else {
        default_texts(t)
    }
}

/// Default chunking (hierarchical, 12 s / 35 s / 24 s at 15 characters per second).
pub fn chunk_vietnamese_text(text: &str, _options: Option<()>) -> (r: Vec<TextChunk>)
    ensures
        chunks_well_formed(r@),
        chunk_texts(r@) == default_texts(text@),
        non_ws(concat(chunk_texts(r@))) == non_ws(text@),
{
    VietnameseChunker::with_default_config().chunk_text(text)
}

/// Chunking by mode: "line" (one chunk per non-blank line), "paragraph" (split at
/// blank lines), "sentence" (split after '.', '!', '?' or a line feed), "chars_500"
/// (words gathered up to 500 characters); any other mode uses the default chunker.
/// Every mode keeps all non-white-space characters in order.
pub fn chunk_vietnamese_text_by_mode(text: &str, mode: &str) -> (r: Vec<TextChunk>)
    ensures
        chunks_well_formed(r@),
        chunk_texts(r@) == mode_texts(text@, mode@),
        non_ws(concat(chunk_texts(r@))) == non_ws(text@),
        trim(text@).len() == 0 ==> r@.len() == 0,
{
    let chars = str_to_chars(text);
    let trimmed = trim_chars(chars.as_slice());
    proof {
        lemma_trim_keeps_non_ws(text@);
        lemma_trim_shape(text@);
    }
    if trimmed.len() == 0 {
        proof {
            assert(non_ws(trimmed@) =~= Seq::<char>::empty());
            assert(chunk_texts(Seq::<TextChunk>::empty()) =~= Seq::<Seq<char>>::empty());
        }
        return Vec::new();
    }
    let m = str_to_chars(mode);
    let ms = m.as_slice();
    let ts = trimmed.as_slice();
    if eq_lit(ms, "line") {
        let lines = split_on_char(ts, '\n');
        proof {
            lemma_join_ws_non_ws(vviews(lines@), '\n');
        }
        finalize_all(&lines)
    } else if eq_lit(ms, "paragraph") {
        let paras = split_on_blank_line(ts);
        finalize_all(&paras)
    } else if eq_lit(ms, "sentence") {
        let pieces = sentence_mode_pieces(ts);
        finalize_all(&pieces)
    } else if eq_lit(ms, "chars_500") {
        let pieces = chars500_pieces(ts);
        finalize_all(&pieces)
    } else {
        VietnameseChunker::with_default_config().chunk_text(text)
    }
}

} // verus!
