//! What the sentence mode of the chunker makes of a text: where its pieces end
//! and what its chunks hold.
use vstd::prelude::*;
use crate::text::chunker::{kept_texts, mode_texts, sentence_mode_scan, sentence_mode_split};
use crate::textseq::{concat, is_ws, lead_ws, lemma_ltrim_skip, lemma_rtrim_take, ltrim, trail_ws, trim};

verus! {

/// The sentence-mode scan after `k` characters: the finished pieces are non-empty,
/// each ends with '.', '!', '?' or a line feed and holds none of them before; the
/// piece being read holds none; together they are the first `k` characters.
proof fn lemma_sentence_mode_scan_shape(t: Seq<char>, k: nat)
    requires
        k <= t.len(),
    ensures
        ({
            let st = sentence_mode_scan(t, k);
            &&& concat(st.0) + st.1 == t.take(k as int)
            &&& forall|i: int|
                0 <= i < st.0.len() ==> {
                    let p = #[trigger] st.0[i];
                    &&& p.len() > 0
                    &&& (p.last() == '.' || p.last() == '!' || p.last() == '?' || p.last() == '\n')
                    &&& forall|j: int|
                        0 <= j < p.len() - 1 ==> !(p[j] == '.' || p[j] == '!' || p[j] == '?' || p[j]
                            == '\n')
                }
            &&& forall|j: int|
                0 <= j < st.1.len() ==> !(st.1[j] == '.' || st.1[j] == '!' || st.1[j] == '?' || st.1[j]
                    == '\n')
        }),
    decreases k,
{
    if k == 0 {
        assert(t.take(0) =~= Seq::<char>::empty());
        assert(concat(Seq::<Seq<char>>::empty()) == Seq::<char>::empty());
    } else {
        lemma_sentence_mode_scan_shape(t, (k - 1) as nat);
        let prev = sentence_mode_scan(t, (k - 1) as nat);
        let c = t[k - 1];
        assert(t.take(k as int) =~= t.take(k - 1).push(c));
        if c == '.' || c == '!' || c == '?' || c == '\n' {
            let p = prev.1.push(c);
            assert(prev.0.push(p).drop_last() =~= prev.0);
            assert(concat(prev.0.push(p)) == concat(prev.0) + p);
            assert(concat(prev.0) + p =~= (concat(prev.0) + prev.1).push(c));
            assert(concat(prev.0.push(p)) + Seq::<char>::empty() =~= concat(prev.0.push(p)));
        } else {
            assert(concat(prev.0) + prev.1.push(c) =~= (concat(prev.0) + prev.1).push(c));
        }
    }
}

/// The pieces of the sentence mode are the text cut after each '.', '!', '?' and
/// line feed: together they are the text; every piece but the last is non-empty
/// and ends with one of these characters; no piece holds one before its last
/// character.
pub proof fn lemma_sentence_mode_pieces(t: Seq<char>)
    ensures
        concat(sentence_mode_split(t)) == t,
        forall|i: int|
            0 <= i < sentence_mode_split(t).len() - 1 ==> {
                let p = #[trigger] sentence_mode_split(t)[i];
                &&& p.len() > 0
                &&& (p.last() == '.' || p.last() == '!' || p.last() == '?' || p.last() == '\n')
            },
        forall|i: int, j: int|
            0 <= i < sentence_mode_split(t).len() && 0 <= j < sentence_mode_split(t)[i].len() - 1
                ==> !(#[trigger] sentence_mode_split(t)[i][j] == '.' || sentence_mode_split(t)[i][j]
                == '!' || sentence_mode_split(t)[i][j] == '?' || sentence_mode_split(t)[i][j] == '\n'),
{
    lemma_sentence_mode_scan_shape(t, t.len());
    let st = sentence_mode_scan(t, t.len());
    let ps = st.0.push(st.1);
    assert(ps.drop_last() =~= st.0);
    assert(t.take(t.len() as int) =~= t);
    assert forall|i: int, j: int|
        0 <= i < ps.len() && 0 <= j < ps[i].len() - 1 implies !(#[trigger] ps[i][j] == '.' || ps[i][j]
        == '!' || ps[i][j] == '?' || ps[i][j] == '\n') by {
        if i < st.0.len() {
            assert(ps[i] == st.0[i]);
        } else {
            assert(ps[i] == st.1);
        }
    }
    assert forall|i: int| 0 <= i < ps.len() - 1 implies {
        let p = #[trigger] ps[i];
        &&& p.len() > 0
        &&& (p.last() == '.' || p.last() == '!' || p.last() == '?' || p.last() == '\n')
    } by {
        assert(ps[i] == st.0[i]);
    }
}

/// A trimmed text is a stretch of the text.
proof fn lemma_trim_is_subrange(s: Seq<char>) -> (ab: (int, int))
    ensures
        0 <= ab.0 <= ab.1 <= s.len(),
        trim(s) == s.subrange(ab.0, ab.1),
        s.len() > 0 && !is_ws(s.last()) ==> ab.1 == s.len() && ab.0 < ab.1,
{
    lemma_ltrim_skip(s);
    let l = lead_ws(s) as int;
    let lt = ltrim(s);
    lemma_rtrim_take(lt);
    let tr = trail_ws(lt) as int;
    assert(trim(s) =~= s.subrange(l, s.len() - tr));
    if s.len() > 0 && !is_ws(s.last()) {
        if l == s.len() {
            assert(is_ws(s[s.len() - 1]));
        }
        if tr > 0 {
            assert(is_ws(lt[lt.len() - 1]));
            assert(lt[lt.len() - 1] == s.last());
        }
    }
    (l, s.len() - tr)
}

/// Each kept text is a trimmed piece; every kept text but the last comes from a
/// piece before the last.
proof fn lemma_kept_texts_origin(ps: Seq<Seq<char>>)
    ensures
        forall|k: int|
            0 <= k < kept_texts(ps).len() ==> exists|i: int|
                0 <= i < ps.len() && #[trigger] kept_texts(ps)[k] == trim(ps[i]) && (k < kept_texts(
                    ps,
                ).len() - 1 ==> i < ps.len() - 1),
    decreases ps.len(),
{
    if ps.len() > 0 {
        let q = ps.drop_last();
        lemma_kept_texts_origin(q);
        assert forall|k: int| 0 <= k < kept_texts(ps).len() implies exists|i: int|
            0 <= i < ps.len() && #[trigger] kept_texts(ps)[k] == trim(ps[i]) && (k < kept_texts(
                ps,
            ).len() - 1 ==> i < ps.len() - 1) by {
            if k < kept_texts(q).len() {
                let i = choose|i: int|
                    0 <= i < q.len() && #[trigger] kept_texts(q)[k] == trim(q[i]) && (k < kept_texts(
                        q,
                    ).len() - 1 ==> i < q.len() - 1);
                assert(kept_texts(ps)[k] == trim(ps[i]));
            } else {
                assert(kept_texts(ps)[k] == trim(ps[ps.len() - 1]));
            }
        }
    }
}

/// The sentence-mode chunks: none holds '.', '!', '?' or a line feed before its
/// last character, and every chunk but the last ends with '.', '!' or '?', unless
/// the piece it was trimmed from ended with a line feed.
pub proof fn lemma_sentence_mode_chunks(t: Seq<char>)
    ensures
        forall|k: int, j: int|
            0 <= k < mode_texts(t, "sentence"@).len() && 0 <= j < mode_texts(t, "sentence"@)[k].len() - 1
                ==> !(#[trigger] mode_texts(t, "sentence"@)[k][j] == '.' || mode_texts(t, "sentence"@)[k][j]
                == '!' || mode_texts(t, "sentence"@)[k][j] == '?' || mode_texts(t, "sentence"@)[k][j]
                == '\n'),
        forall|k: int|
            0 <= k < mode_texts(t, "sentence"@).len() - 1 ==> {
                let c = #[trigger] mode_texts(t, "sentence"@)[k];
                ||| c.last() == '.' || c.last() == '!' || c.last() == '?'
                ||| exists|i: int|
                    0 <= i < sentence_mode_split(trim(t)).len() && sentence_mode_split(trim(t))[i].last()
                        == '\n' && trim(sentence_mode_split(trim(t))[i]) == c
            },
{
    reveal_strlit("sentence");
    reveal_strlit("line");
    reveal_strlit("paragraph");
    assert("sentence"@.len() == 8 && "line"@.len() == 4 && "paragraph"@.len() == 9);
    assert("sentence"@ != "line"@ && "sentence"@ != "paragraph"@);
    let tt = trim(t);
    let ps = sentence_mode_split(tt);
    let cs = mode_texts(t, "sentence"@);
    if tt.len() == 0 {
        assert(cs.len() == 0);
    } else {
        assert(cs == kept_texts(ps));
        lemma_sentence_mode_pieces(tt);
        lemma_kept_texts_origin(ps);
        assert forall|k: int, j: int| 0 <= k < cs.len() && 0 <= j < cs[k].len() - 1 implies !(
        #[trigger] cs[k][j] == '.' || cs[k][j] == '!' || cs[k][j] == '?' || cs[k][j] == '\n') by {
            let i = choose|i: int|
                0 <= i < ps.len() && #[trigger] kept_texts(ps)[k] == trim(ps[i]) && (k < kept_texts(
                    ps,
                ).len() - 1 ==> i < ps.len() - 1);
            let ab = lemma_trim_is_subrange(ps[i]);
            assert(cs[k][j] == ps[i][ab.0 + j]);
            assert(ps[i][ab.0 + j] == sentence_mode_split(tt)[i][ab.0 + j]);
        }
        assert forall|k: int| 0 <= k < cs.len() - 1 implies {
            let c = #[trigger] cs[k];
            ||| c.last() == '.' || c.last() == '!' || c.last() == '?'
            ||| exists|i: int|
                0 <= i < ps.len() && ps[i].last() == '\n' && trim(ps[i]) == c
        } by {
            let i = choose|i: int|
                0 <= i < ps.len() && #[trigger] kept_texts(ps)[k] == trim(ps[i]) && (k < kept_texts(
                    ps,
                ).len() - 1 ==> i < ps.len() - 1);
            let p = ps[i];
            assert(p.len() > 0 && (p.last() == '.' || p.last() == '!' || p.last() == '?' || p.last() == '\n'));
            if p.last() != '\n' {
                let ab = lemma_trim_is_subrange(p);
                assert(cs[k].last() == p.last());
            }
        }
    }
}

} // verus!
