//! Character-sequence helpers shared by the text modules: Unicode white space and
//! control classes, trimming, decimal rendering and substring search, all stated
//! over `Seq<char>` so that the higher-level contracts can speak about text exactly.
use vstd::prelude::*;

verus! {

/// Unicode `White_Space` property, as used by `char::is_whitespace` and `str::trim`.
pub open spec fn is_ws(c: char) -> bool {
    ||| ('\u{9}' <= c && c <= '\u{d}')
    ||| c == ' '
    ||| c == '\u{85}'
    ||| c == '\u{a0}'
    ||| c == '\u{1680}'
    ||| ('\u{2000}' <= c && c <= '\u{200a}')
    ||| c == '\u{2028}'
    ||| c == '\u{2029}'
    ||| c == '\u{202f}'
    ||| c == '\u{205f}'
    ||| c == '\u{3000}'
}

/// Unicode general category `Cc`, as used by `char::is_control`.
pub open spec fn is_ctrl(c: char) -> bool {
    c <= '\u{1f}' || ('\u{7f}' <= c && c <= '\u{9f}')
}

pub fn char_is_whitespace(c: char) -> (r: bool)
    ensures
        r == is_ws(c),
{
    ('\u{9}' <= c && c <= '\u{d}') || c == ' ' || c == '\u{85}' || c == '\u{a0}' || c
        == '\u{1680}' || ('\u{2000}' <= c && c <= '\u{200a}') || c == '\u{2028}' || c
        == '\u{2029}' || c == '\u{202f}' || c == '\u{205f}' || c == '\u{3000}'
}

pub fn char_is_control(c: char) -> (r: bool)
    ensures
        r == is_ctrl(c),
{
    c <= '\u{1f}' || ('\u{7f}' <= c && c <= '\u{9f}')
}

/// Leading white space removed.
pub open spec fn ltrim(s: Seq<char>) -> Seq<char>
    decreases s.len(),
{
    if s.len() > 0 && is_ws(s[0]) {
        ltrim(s.drop_first())
    } else {
        s
    }
}

/// Trailing white space removed.
pub open spec fn rtrim(s: Seq<char>) -> Seq<char>
    decreases s.len(),
{
    if s.len() > 0 && is_ws(s.last()) {
        rtrim(s.drop_last())
    } else {
        s
    }
}

/// `str::trim`: leading and trailing white space removed.
pub open spec fn trim(s: Seq<char>) -> Seq<char> {
    rtrim(ltrim(s))
}

/// Number of leading white-space characters.
pub open spec fn lead_ws(s: Seq<char>) -> nat
    decreases s.len(),
{
    if s.len() > 0 && is_ws(s[0]) {
        1 + lead_ws(s.drop_first())
    } else {
        0
    }
}

/// Number of trailing white-space characters.
pub open spec fn trail_ws(s: Seq<char>) -> nat
    decreases s.len(),
{
    if s.len() > 0 && is_ws(s.last()) {
        1 + trail_ws(s.drop_last())
    } else {
        0
    }
}

pub(crate) proof fn lemma_ltrim_skip(s: Seq<char>)
    ensures
        lead_ws(s) <= s.len(),
        ltrim(s) == s.skip(lead_ws(s) as int),
        forall|i: int| 0 <= i < lead_ws(s) ==> is_ws(#[trigger] s[i]),
        lead_ws(s) < s.len() ==> !is_ws(s[lead_ws(s) as int]),
    decreases s.len(),
{
    if s.len() > 0 && is_ws(s[0]) {
        lemma_ltrim_skip(s.drop_first());
        assert(s.drop_first().skip(lead_ws(s.drop_first()) as int) =~= s.skip(
            lead_ws(s) as int,
        ));
        assert forall|i: int| 0 <= i < lead_ws(s) implies is_ws(#[trigger] s[i]) by {
            if i > 0 {
                assert(s[i] == s.drop_first()[i - 1]);
            }
        }
    } else {
        assert(s.skip(0) =~= s);
    }
}

pub(crate) proof fn lemma_rtrim_take(s: Seq<char>)
    ensures
        trail_ws(s) <= s.len(),
        rtrim(s) == s.take(s.len() - trail_ws(s)),
        forall|i: int| s.len() - trail_ws(s) <= i < s.len() ==> is_ws(#[trigger] s[i]),
        trail_ws(s) < s.len() ==> !is_ws(s[s.len() - trail_ws(s) - 1]),
    decreases s.len(),
{
    if s.len() > 0 && is_ws(s.last()) {
        lemma_rtrim_take(s.drop_last());
        assert(s.drop_last().take(s.drop_last().len() - trail_ws(s.drop_last())) =~= s.take(
            s.len() - trail_ws(s),
        ));
        assert forall|i: int| s.len() - trail_ws(s) <= i < s.len() implies is_ws(
            #[trigger] s[i],
        ) by {
            if i < s.len() - 1 {
                assert(s[i] == s.drop_last()[i]);
            }
        }
    } else {
        assert(s.take(s.len() as int) =~= s);
    }
}

/// The non-white-space characters of a sequence, in order.
pub open spec fn non_ws(s: Seq<char>) -> Seq<char> {
    s.filter(|c: char| !is_ws(c))
}

/// Trimming never removes a non-white-space character.
pub proof fn lemma_trim_keeps_non_ws(s: Seq<char>)
    ensures
        non_ws(trim(s)) == non_ws(s),
{
    broadcast use vstd::seq_lib::group_seq_properties;

    lemma_ltrim_skip(s);
    let l = lead_ws(s) as int;
    let a = s.take(l);
    let b = s.skip(l);
    assert(s =~= a + b);
    assert(a.filter(|c: char| !is_ws(c)) =~= Seq::<char>::empty()) by {
        lemma_filter_all_ws(a);
    }
    assert(non_ws(s) == non_ws(a) + non_ws(b)) by {
        Seq::filter_distributes_over_add(a, b, |c: char| !is_ws(c));
    }
    assert(non_ws(s) =~= non_ws(b));
    let t = ltrim(s);
    lemma_rtrim_take(t);
    let k = t.len() - trail_ws(t);
    let c = t.take(k);
    let d = t.skip(k);
    assert(t =~= c + d);
    assert(d.filter(|ch: char| !is_ws(ch)) =~= Seq::<char>::empty()) by {
        assert forall|i: int| 0 <= i < d.len() implies is_ws(#[trigger] d[i]) by {
            assert(d[i] == t[k + i]);
        }
        lemma_filter_all_ws(d);
    }
    Seq::filter_distributes_over_add(c, d, |ch: char| !is_ws(ch));
    assert(non_ws(t) =~= non_ws(c));
}

pub(crate) proof fn lemma_filter_all_ws(a: Seq<char>)
    requires
        forall|i: int| 0 <= i < a.len() ==> is_ws(#[trigger] a[i]),
    ensures
        a.filter(|c: char| !is_ws(c)) =~= Seq::<char>::empty(),
    decreases a.len(),
{
    reveal_with_fuel(Seq::filter, 1);
    if a.len() > 0 {
        lemma_filter_all_ws(a.drop_last());
    }
}

/// Exec trim over a character slice.
pub fn trim_chars(s: &[char]) -> (r: Vec<char>)
    ensures
        r@ == trim(s@),
{
    proof {
        lemma_ltrim_skip(s@);
    }
    let mut i: usize = 0;
    while i < s.len() && char_is_whitespace(s[i])
        invariant
            0 <= i <= s.len(),
            forall|k: int| 0 <= k < i ==> is_ws(#[trigger] s@[k]),
            lead_ws(s@) <= s@.len(),
            forall|k: int| 0 <= k < lead_ws(s@) ==> is_ws(#[trigger] s@[k]),
            lead_ws(s@) < s@.len() ==> !is_ws(s@[lead_ws(s@) as int]),
        decreases s.len() - i,
    {
        i = i + 1;
    }
    assert(i == lead_ws(s@)) by {
        if i < lead_ws(s@) {
            assert(is_ws(s@[i as int]));
        }
        if i > lead_ws(s@) {
            assert(is_ws(s@[lead_ws(s@) as int]));
        }
    }
    let ghost t = s@.skip(i as int);
    proof {
        lemma_rtrim_take(t);
    }
    let mut j: usize = s.len();
    while j > i && char_is_whitespace(s[j - 1])
        invariant
            i <= j <= s.len(),
            t == s@.skip(i as int),
            forall|k: int| j <= k < s.len() ==> is_ws(#[trigger] s@[k]),
            trail_ws(t) <= t.len(),
            forall|k: int| t.len() - trail_ws(t) <= k < t.len() ==> is_ws(#[trigger] t[k]),
            trail_ws(t) < t.len() ==> !is_ws(t[t.len() - trail_ws(t) - 1]),
        decreases j,
    {
        j = j - 1;
    }
    assert(j - i == t.len() - trail_ws(t)) by {
        let m = t.len() - trail_ws(t);
        if j - i < m {
            assert(is_ws(s@[j as int]));
            assert(t[j - i] == s@[j as int]);
            assert(is_ws(t[m - 1]));
        }
        if j - i > m {
            assert(t[j - i - 1] == s@[j - 1]);
        }
    }
    let mut out: Vec<char> = Vec::new();
    let mut k: usize = i;
    while k < j
        invariant
            i <= k <= j <= s.len(),
            out@ == s@.subrange(i as int, k as int),
        decreases j - k,
    {
        out.push(s[k]);
        k = k + 1;
        assert(out@ =~= s@.subrange(i as int, k as int));
    }
    assert(out@ =~= t.take(t.len() - trail_ws(t)));
    out
}

/// Copies a `&str` into its characters.
#[verifier::external_body]
pub(crate) fn str_to_chars(s: &str) -> (r: Vec<char>)
    ensures
        r@ == s@,
{
    s.chars().collect()
}

/// Builds a `String` from characters.
#[verifier::external_body]
pub(crate) fn chars_to_string(v: &[char]) -> (r: String)
    ensures
        r@ == v@,
{
    v.iter().collect()
}

/// Appends all characters of `src` to `out`.
pub fn push_all(out: &mut Vec<char>, src: &[char])
    ensures
        final(out)@ == old(out)@ + src@,
{
    let mut i: usize = 0;
    while i < src.len()
        invariant
            0 <= i <= src.len(),
            out@ == old(out)@ + src@.take(i as int),
        decreases src.len() - i,
    {
        out.push(src[i]);
        i = i + 1;
        assert(out@ =~= old(out)@ + src@.take(i as int));
    }
    assert(src@.take(src.len() as int) =~= src@);
}

/// Appends the characters of a string slice to `out`.
pub fn push_str(out: &mut Vec<char>, s: &str)
    ensures
        final(out)@ == old(out)@ + s@,
{
    let v = str_to_chars(s);
    push_all(out, v.as_slice());
}

pub open spec fn digit_char(d: nat) -> char {
    (48 + d) as char
}

/// Decimal representation of a natural number, as `{}` prints it.
pub open spec fn dec(n: nat) -> Seq<char>
    decreases n,
{
    if n < 10 {
        seq![digit_char(n)]
    } else {
        dec(n / 10).push(digit_char(n % 10))
    }
}

/// `n` zero characters.
pub open spec fn zeros(n: nat) -> Seq<char> {
    Seq::new(n, |i: int| '0')
}

/// Decimal representation left-padded with zeros to at least `w` characters, as `{:0w}` prints it.
pub open spec fn pad_dec(n: nat, w: nat) -> Seq<char> {
    if dec(n).len() < w {
        zeros((w - dec(n).len()) as nat) + dec(n)
    } else {
        dec(n)
    }
}

pub(crate) proof fn lemma_dec_len(n: nat)
    ensures
        dec(n).len() >= 1,
        n < 10 ==> dec(n).len() == 1,
        10 <= n < 100 ==> dec(n).len() == 2,
        100 <= n < 1000 ==> dec(n).len() == 3,
        n >= 10 ==> dec(n).len() >= 2,
        n >= 100 ==> dec(n).len() >= 3,
    decreases n,
{
    if n >= 10 {
        lemma_dec_len(n / 10);
    }
}

fn digit(d: u64) -> (c: char)
    requires
        d < 10,
    ensures
        c == digit_char(d as nat),
{
    let b: u8 = 48 + d as u8;
    b as char
}

/// Appends the decimal representation of `n`.
pub fn push_dec(out: &mut Vec<char>, n: u64)
    ensures
        final(out)@ == old(out)@ + dec(n as nat),
    decreases n,
{
    if n >= 10 {
        push_dec(out, n / 10);
    }
    out.push(digit(n % 10));
    assert(final(out)@ =~= old(out)@ + dec(n as nat));
}

fn dec_len(n: u64) -> (r: usize)
    ensures
        r as nat == dec(n as nat).len(),
        r <= 20,
    decreases n,
{
    proof {
        lemma_dec_len(n as nat);
    }
    if n < 10 {
        1
    } else {
        let k = dec_len(n / 10);
        proof {
            lemma_dec_len(n as nat);
        }
        if k >= 20 {
            proof {
                lemma_dec_len_bound(n as nat);
            }
        }
        k + 1
    }
}

proof fn lemma_dec_len_bound(n: nat)
    ensures
        n <= u64::MAX ==> dec(n).len() <= 20,
{
    lemma_dec_len_pow(n);
}

proof fn lemma_dec_len_pow(n: nat)
    ensures
        n < 10 ==> dec(n).len() <= 1,
        n < 100 ==> dec(n).len() <= 2,
        n < 1000 ==> dec(n).len() <= 3,
        n < 10000 ==> dec(n).len() <= 4,
        n < 100000 ==> dec(n).len() <= 5,
        n < 1000000 ==> dec(n).len() <= 6,
        n < 10000000 ==> dec(n).len() <= 7,
        n < 100000000 ==> dec(n).len() <= 8,
        n < 1000000000 ==> dec(n).len() <= 9,
        n < 10000000000 ==> dec(n).len() <= 10,
        n < 100000000000 ==> dec(n).len() <= 11,
        n < 1000000000000 ==> dec(n).len() <= 12,
        n < 10000000000000 ==> dec(n).len() <= 13,
        n < 100000000000000 ==> dec(n).len() <= 14,
        n < 1000000000000000 ==> dec(n).len() <= 15,
        n < 10000000000000000 ==> dec(n).len() <= 16,
        n < 100000000000000000 ==> dec(n).len() <= 17,
        n < 1000000000000000000 ==> dec(n).len() <= 18,
        n < 10000000000000000000 ==> dec(n).len() <= 19,
        n < 100000000000000000000 ==> dec(n).len() <= 20,
    decreases n,
{
    if n >= 10 {
        lemma_dec_len_pow(n / 10);
    }
}

/// Appends `n` in decimal, zero-padded to at least `w` characters.
pub fn push_dec_padded(out: &mut Vec<char>, n: u64, w: usize)
    ensures
        final(out)@ == old(out)@ + pad_dec(n as nat, w as nat),
{
    let len = dec_len(n);
    if len < w {
        let mut i: usize = 0;
        while i < w - len
            invariant
                len < w,
                0 <= i <= w - len,
                out@ == old(out)@ + zeros(i as nat),
            decreases w - len - i,
        {
            out.push('0');
            i = i + 1;
            assert(out@ =~= old(out)@ + zeros(i as nat));
        }
    }
    let ghost mid = out@;
    push_dec(out, n);
    assert(out@ =~= old(out)@ + pad_dec(n as nat, w as nat));
}

/// Appends the decimal representation of a `usize`.
pub fn push_dec_usize(out: &mut Vec<char>, n: usize)
    ensures
        final(out)@ == old(out)@ + dec(n as nat),
{
    push_dec(out, n as u64);
}

/// `true` when `pat` occurs in `s` starting at `i`.
pub open spec fn occurs_at(s: Seq<char>, pat: Seq<char>, i: int) -> bool {
    0 <= i && i + pat.len() <= s.len() && s.subrange(i, i + pat.len()) == pat
}

/// `str::contains` for a string pattern.
pub open spec fn contains_seq(s: Seq<char>, pat: Seq<char>) -> bool {
    exists|i: int| occurs_at(s, pat, i)
}

/// `str::starts_with` for a string pattern.
pub open spec fn starts_with(s: Seq<char>, pat: Seq<char>) -> bool {
    occurs_at(s, pat, 0)
}

/// `str::ends_with` for a string pattern.
pub open spec fn ends_with(s: Seq<char>, pat: Seq<char>) -> bool {
    pat.len() <= s.len() && occurs_at(s, pat, s.len() - pat.len())
}

/// Index of the first occurrence of `pat` in `s` at or after `i` (`str::find`, counted in characters).
pub open spec fn first_occ_from(s: Seq<char>, pat: Seq<char>, i: int) -> Option<int>
    decreases s.len() + 1 - i,
{
    if i < 0 || i > s.len() {
        None
    } else if occurs_at(s, pat, i) {
        Some(i)
    } else {
        first_occ_from(s, pat, i + 1)
    }
}

/// Index of the first occurrence of `pat` in `s`.
pub open spec fn find_first(s: Seq<char>, pat: Seq<char>) -> Option<int> {
    first_occ_from(s, pat, 0)
}

proof fn lemma_first_occ_none(s: Seq<char>, pat: Seq<char>, i: int)
    requires
        0 <= i,
        first_occ_from(s, pat, i) is None,
    ensures
        forall|j: int| i <= j ==> !occurs_at(s, pat, j),
    decreases s.len() + 1 - i,
{
    if i <= s.len() {
        lemma_first_occ_none(s, pat, i + 1);
    }
}

pub fn matches_at(s: &[char], pat: &[char], i: usize) -> (r: bool)
    ensures
        r == occurs_at(s@, pat@, i as int),
{
    if i > s.len() || pat.len() > s.len() - i {
        return false;
    }
    let mut k: usize = 0;
    while k < pat.len()
        invariant
            i + pat.len() <= s.len(),
            0 <= k <= pat.len(),
            forall|m: int| 0 <= m < k ==> s@[i + m] == pat@[m],
        decreases pat.len() - k,
    {
        if s[i + k] != pat[k] {
            assert(s@.subrange(i as int, i + pat.len())[k as int] != pat@[k as int]);
            return false;
        }
        k = k + 1;
    }
    assert(s@.subrange(i as int, i + pat.len()) =~= pat@);
    true
}

/// First index at which `pat` occurs, searching from the start.
pub fn find_chars(s: &[char], pat: &[char]) -> (r: Option<usize>)
    ensures
        r.is_some() == contains_seq(s@, pat@),
        r matches Some(i) ==> occurs_at(s@, pat@, i as int) && forall|j: int|
            0 <= j < i ==> !occurs_at(s@, pat@, j),
        r matches Some(i) ==> find_first(s@, pat@) == Some(i as int),
        r is None ==> find_first(s@, pat@) is None,
{
    let mut i: usize = 0;
    while i < s.len()
        invariant
            0 <= i <= s.len(),
            forall|j: int| 0 <= j < i ==> !occurs_at(s@, pat@, j),
            first_occ_from(s@, pat@, 0) == first_occ_from(s@, pat@, i as int),
        decreases s.len() - i,
    {
        if matches_at(s, pat, i) {
            return Some(i);
        }
        i = i + 1;
    }
    if matches_at(s, pat, i) {
        return Some(i);
    }
    assert(first_occ_from(s@, pat@, i + 1) is None);
    proof {
        lemma_first_occ_none(s@, pat@, 0);
    }
    None
}

pub fn contains_chars(s: &[char], pat: &[char]) -> (r: bool)
    ensures
        r == contains_seq(s@, pat@),
{
    find_chars(s, pat).is_some()
}

pub fn starts_with_chars(s: &[char], pat: &[char]) -> (r: bool)
    ensures
        r == starts_with(s@, pat@),
{
    matches_at(s, pat, 0)
}

pub fn ends_with_chars(s: &[char], pat: &[char]) -> (r: bool)
    ensures
        r == ends_with(s@, pat@),
{
    if pat.len() > s.len() {
        false
    } else {
        matches_at(s, pat, s.len() - pat.len())
    }
}

/// Copies `s[a..b]`.
pub fn sub_chars(s: &[char], a: usize, b: usize) -> (r: Vec<char>)
    requires
        a <= b <= s.len(),
    ensures
        r@ == s@.subrange(a as int, b as int),
{
    let mut out: Vec<char> = Vec::new();
    let mut k: usize = a;
    while k < b
        invariant
            a <= k <= b <= s.len(),
            out@ == s@.subrange(a as int, k as int),
        decreases b - k,
    {
        out.push(s[k]);
        k = k + 1;
        assert(out@ =~= s@.subrange(a as int, k as int));
    }
    out
}

/// Concatenation of a list of character sequences.
pub open spec fn concat(ss: Seq<Seq<char>>) -> Seq<char>
    decreases ss.len(),
{
    if ss.len() == 0 {
        Seq::<char>::empty()
    } else {
        concat(ss.drop_last()) + ss.last()
    }
}

/// The character views of a list of character vectors.
pub open spec fn vviews(v: Seq<Vec<char>>) -> Seq<Seq<char>> {
    v.map_values(|x: Vec<char>| x@)
}

pub(crate) proof fn lemma_concat_push(ss: Seq<Seq<char>>, s: Seq<char>)
    ensures
        concat(ss.push(s)) == concat(ss) + s,
{
    assert(ss.push(s).drop_last() =~= ss);
}

pub(crate) proof fn lemma_vviews_push(v: Seq<Vec<char>>, x: Vec<char>)
    ensures
        vviews(v.push(x)) == vviews(v).push(x@),
{
    assert(vviews(v.push(x)) =~= vviews(v).push(x@));
}

pub(crate) proof fn lemma_non_ws_add(a: Seq<char>, b: Seq<char>)
    ensures
        non_ws(a + b) == non_ws(a) + non_ws(b),
{
    Seq::filter_distributes_over_add(a, b, |c: char| !is_ws(c));
}

pub(crate) proof fn lemma_non_ws_single(c: char)
    ensures
        is_ws(c) ==> non_ws(seq![c]) == Seq::<char>::empty(),
        !is_ws(c) ==> non_ws(seq![c]) == seq![c],
{
    reveal_with_fuel(Seq::filter, 2);
    assert(seq![c].drop_last() =~= Seq::<char>::empty());
}

pub(crate) proof fn lemma_non_ws_push(a: Seq<char>, c: char)
    ensures
        is_ws(c) ==> non_ws(a.push(c)) == non_ws(a),
        !is_ws(c) ==> non_ws(a.push(c)) == non_ws(a).push(c),
{
    assert(a.push(c) =~= a + seq![c]);
    lemma_non_ws_add(a, seq![c]);
    lemma_non_ws_single(c);
    assert(non_ws(a) + Seq::<char>::empty() =~= non_ws(a));
    assert(non_ws(a) + seq![c] =~= non_ws(a).push(c));
}

/// Number of white-space separated words (`split_whitespace().count()`).
pub open spec fn word_count(s: Seq<char>) -> nat
    decreases s.len(),
{
    if s.len() == 0 {
        0
    } else {
        word_count(s.drop_last()) + if !is_ws(s.last()) && (s.len() == 1 || is_ws(
            s[s.len() - 2],
        )) {
            1nat
        } else {
            0nat
        }
    }
}

pub fn count_words(s: &[char]) -> (r: usize)
    ensures
        r == word_count(s@),
{
    let mut n: usize = 0;
    let mut i: usize = 0;
    while i < s.len()
        invariant
            0 <= i <= s.len(),
            n == word_count(s@.take(i as int)),
            n <= i,
        decreases s.len() - i,
    {
        let starts = !char_is_whitespace(s[i]) && (i == 0 || char_is_whitespace(s[i - 1]));
        assert(s@.take(i + 1).drop_last() =~= s@.take(i as int));
        if starts {
            n = n + 1;
        }
        i = i + 1;
    }
    assert(s@.take(s.len() as int) =~= s@);
    n
}

/// `true` when the sequence is non-empty and neither starts nor ends with white space.
pub open spec fn is_trimmed_nonempty(s: Seq<char>) -> bool {
    s.len() > 0 && !is_ws(s[0]) && !is_ws(s.last())
}

pub(crate) proof fn lemma_trim_shape(s: Seq<char>)
    ensures
        trim(s).len() == 0 || is_trimmed_nonempty(trim(s)),
        trim(s).len() == 0 <==> (forall|i: int| 0 <= i < s.len() ==> is_ws(#[trigger] s[i])),
{
    lemma_ltrim_skip(s);
    let t = ltrim(s);
    lemma_rtrim_take(t);
    let l = lead_ws(s) as int;
    let r = trim(s);
    if r.len() > 0 {
        assert(r[0] == t[0]);
        assert(t[0] == s[l]);
        assert(r.last() == t[t.len() - trail_ws(t) - 1]);
        assert(!is_ws(s[l]));
    }
    if r.len() == 0 {
        assert forall|i: int| 0 <= i < s.len() implies is_ws(#[trigger] s[i]) by {
            if i >= l {
                assert(t[i - l] == s[i]);
            }
        }
    } else {
        assert(!is_ws(s[l]));
    }
}

/// Lower-cased text, as `str::to_lowercase` produces it (Unicode case mapping).
pub uninterp spec fn lowercase(s: Seq<char>) -> Seq<char>;

/// Upper-cased text, as `str::to_uppercase` produces it (Unicode case mapping).
pub uninterp spec fn uppercase(s: Seq<char>) -> Seq<char>;

/// `str::to_lowercase`; the result is named by `lowercase`, nothing more is claimed of it.
#[verifier::external_body]
pub(crate) fn to_lowercase_chars(s: &[char]) -> (r: Vec<char>)
    ensures
        r@ == lowercase(s@),
{
    let text: String = s.iter().collect();
    text.to_lowercase().chars().collect()
}

/// `str::to_uppercase`; the result is named by `uppercase`, nothing more is claimed of it.
#[verifier::external_body]
pub(crate) fn to_uppercase_chars(s: &[char]) -> (r: Vec<char>)
    ensures
        r@ == uppercase(s@),
{
    let text: String = s.iter().collect();
    text.to_uppercase().chars().collect()
}

/// Number of bytes a character takes in UTF-8.
pub open spec fn utf8_width(c: char) -> nat {
    if (c as u32) < 0x80 {
        1
    } else if (c as u32) < 0x800 {
        2
    } else if (c as u32) < 0x10000 {
        3
    } else {
        4
    }
}

/// Length in bytes of the UTF-8 encoding of a character sequence (`str::len`).
pub open spec fn utf8_len(s: Seq<char>) -> nat
    decreases s.len(),
{
    if s.len() == 0 {
        0
    } else {
        utf8_len(s.drop_last()) + utf8_width(s.last())
    }
}

pub(crate) proof fn lemma_utf8_len_mono(s: Seq<char>, i: int)
    requires
        0 <= i <= s.len(),
    ensures
        utf8_len(s.take(i)) <= utf8_len(s),
    decreases s.len() - i,
{
    if i < s.len() {
        lemma_utf8_len_mono(s, i + 1);
        assert(s.take(i + 1).drop_last() =~= s.take(i));
    } else {
        assert(s.take(i) =~= s);
    }
}

pub(crate) fn char_width(c: char) -> (r: usize)
    ensures
        r == utf8_width(c),
{
    let v = c as u32;
    if v < 0x80 {
        1
    } else if v < 0x800 {
        2
    } else if v < 0x10000 {
        3
    } else {
        4
    }
}

/// `utf8_len(s) <= bound`, computed without overflow.
pub fn utf8_len_at_most(s: &[char], bound: usize) -> (r: bool)
    ensures
        r == (utf8_len(s@) <= bound),
{
    let mut total: usize = 0;
    let mut i: usize = 0;
    while i < s.len()
        invariant
            0 <= i <= s.len(),
            total == utf8_len(s@.take(i as int)),
            total <= bound,
        decreases s.len() - i,
    {
        assert(s@.take(i + 1).drop_last() =~= s@.take(i as int));
        let w = char_width(s[i]);
        if w > bound - total {
            proof {
                lemma_utf8_len_mono(s@, i + 1);
            }
            return false;
        }
        total = total + w;
        i = i + 1;
    }
    assert(s@.take(s.len() as int) =~= s@);
    true
}

/// String equality by characters.
pub fn str_eq(a: &str, b: &str) -> (r: bool)
    ensures
        r == (a@ == b@),
{
    let x = a.to_owned();
    let y = b.to_owned();
    x == y
}

pub(crate) proof fn lemma_utf8_len_take_strict(s: Seq<char>, i: int, j: int)
    requires
        0 <= i < j <= s.len(),
    ensures
        utf8_len(s.take(i)) < utf8_len(s.take(j)),
    decreases j - i,
{
    assert(s.take(j).drop_last() =~= s.take(j - 1));
    if i < j - 1 {
        lemma_utf8_len_take_strict(s, i, j - 1);
    }
}

/// `utf8_len` of a suffix grows as the suffix grows.
pub proof fn lemma_utf8_len_skip_strict(s: Seq<char>, i: int, j: int)
    requires
        0 <= i < j <= s.len(),
    ensures
        utf8_len(s.skip(j)) < utf8_len(s.skip(i)),
    decreases j - i,
{
    lemma_utf8_len_split(s, i);
    lemma_utf8_len_split(s, j);
    lemma_utf8_len_take_strict(s, i, j);
}

pub(crate) proof fn lemma_utf8_len_single(c: char)
    ensures
        utf8_len(seq![c]) == utf8_width(c),
{
    assert(seq![c].drop_last() =~= Seq::<char>::empty());
    assert(seq![c].last() == c);
    assert(utf8_len(Seq::<char>::empty()) == 0);
}

/// `utf8_len` adds up over a split.
pub proof fn lemma_utf8_len_split(s: Seq<char>, i: int)
    requires
        0 <= i <= s.len(),
    ensures
        utf8_len(s) == utf8_len(s.take(i)) + utf8_len(s.skip(i)),
    decreases s.len() - i,
{
    lemma_utf8_len_add(s.take(i), s.skip(i));
    assert(s.take(i) + s.skip(i) =~= s);
}

pub(crate) proof fn lemma_utf8_len_add(a: Seq<char>, b: Seq<char>)
    ensures
        utf8_len(a + b) == utf8_len(a) + utf8_len(b),
    decreases b.len(),
{
    if b.len() == 0 {
        assert(a + b =~= a);
    } else {
        lemma_utf8_len_add(a, b.drop_last());
        assert((a + b).drop_last() =~= a + b.drop_last());
    }
}

/// The first `n` bytes of the UTF-8 encoding, when they end on a character boundary.
pub open spec fn byte_prefix(s: Seq<char>, n: int) -> Option<Seq<char>> {
    if exists|i: int| 0 <= i <= s.len() && utf8_len(s.take(i)) == n {
        Some(s.take(choose|i: int| 0 <= i <= s.len() && utf8_len(s.take(i)) == n))
    } else {
        None
    }
}

/// The last `n` bytes of the UTF-8 encoding, when they start on a character boundary.
pub open spec fn byte_suffix(s: Seq<char>, n: int) -> Option<Seq<char>> {
    if exists|i: int| 0 <= i <= s.len() && utf8_len(s.skip(i)) == n {
        Some(s.skip(choose|i: int| 0 <= i <= s.len() && utf8_len(s.skip(i)) == n))
    } else {
        None
    }
}

/// `&s[..n]` on the characters of `s`; `None` where the slice would not be on a boundary.
pub fn byte_prefix_chars(s: &[char], n: usize) -> (r: Option<Vec<char>>)
    ensures
        r.is_some() == byte_prefix(s@, n as int).is_some(),
        r matches Some(v) ==> Some(v@) == byte_prefix(s@, n as int),
{
    let mut total: usize = 0;
    let mut i: usize = 0;
    while i < s.len() && total < n
        invariant
            0 <= i <= s.len(),
            total == utf8_len(s@.take(i as int)),
            forall|k: int| 0 <= k < i ==> utf8_len(s@.take(k)) < n,
        decreases s.len() - i,
    {
        proof {
            lemma_utf8_len_take_strict(s@, i as int, i + 1);
            assert(s@.take(i + 1).drop_last() =~= s@.take(i as int));
        }
        let w = char_width(s[i]);
        if w > n - total {
            proof {
                assert forall|k: int| 0 <= k <= s@.len() implies utf8_len(s@.take(k)) != n by {
                    if k > i + 1 {
                        lemma_utf8_len_take_strict(s@, i + 1, k);
                    }
                }
            }
            return None;
        }
        total = total + w;
        i = i + 1;
    }
    if total == n {
        proof {
            let j = choose|j: int| 0 <= j <= s@.len() && utf8_len(s@.take(j)) == n;
            if j < i {
                lemma_utf8_len_take_strict(s@, j, i as int);
            } else if j > i {
                lemma_utf8_len_take_strict(s@, i as int, j);
            }
        }
        Some(sub_chars(s, 0, i))
    } else {
        proof {
            assert forall|k: int| 0 <= k <= s@.len() implies utf8_len(s@.take(k)) != n by {
                if k > i {
                    lemma_utf8_len_take_strict(s@, i as int, k);
                }
            }
        }
        None
    }
}

/// `&s[len - n..]` on the characters of `s`; `None` where the slice would not be on a boundary.
pub fn byte_suffix_chars(s: &[char], n: usize) -> (r: Option<Vec<char>>)
    ensures
        r.is_some() == byte_suffix(s@, n as int).is_some(),
        r matches Some(v) ==> Some(v@) == byte_suffix(s@, n as int),
{
    let mut total: usize = 0;
    let mut i: usize = s.len();
    proof {
        assert(s@.skip(s@.len() as int) =~= Seq::<char>::empty());
    }
    while i > 0 && total < n
        invariant
            0 <= i <= s.len(),
            total == utf8_len(s@.skip(i as int)),
            forall|k: int| i < k <= s.len() ==> utf8_len(s@.skip(k)) < n,
        decreases i,
    {
        proof {
            lemma_utf8_len_skip_strict(s@, i - 1, i as int);
            assert(s@.skip(i - 1) =~= seq![s@[i - 1]] + s@.skip(i as int));
            lemma_utf8_len_add(seq![s@[i - 1]], s@.skip(i as int));
            lemma_utf8_len_single(s@[i - 1]);
        }
        let w = char_width(s[i - 1]);
        if w > n - total {
            proof {
                assert forall|k: int| 0 <= k <= s@.len() implies utf8_len(s@.skip(k)) != n by {
                    if k < i - 1 {
                        lemma_utf8_len_skip_strict(s@, k, i - 1);
                    }
                }
            }
            return None;
        }
        total = total + w;
        i = i - 1;
    }
    if total == n {
        proof {
            let j = choose|j: int| 0 <= j <= s@.len() && utf8_len(s@.skip(j)) == n;
            if j < i {
                lemma_utf8_len_skip_strict(s@, j, i as int);
            } else if j > i {
                lemma_utf8_len_skip_strict(s@, i as int, j);
            }
        }
        let v = sub_chars(s, i, s.len());
        assert(v@ =~= s@.skip(i as int));
        Some(v)
    } else {
        proof {
            assert forall|k: int| 0 <= k <= s@.len() implies utf8_len(s@.skip(k)) != n by {
                if k < i {
                    lemma_utf8_len_skip_strict(s@, k, i as int);
                }
            }
        }
        None
    }
}

/// Every non-overlapping occurrence of the non-empty `pat`, from left to right,
/// replaced by `rep`, as `str::replace` does.
pub open spec fn replace_seq(s: Seq<char>, pat: Seq<char>, rep: Seq<char>) -> Seq<char>
    decreases s.len(),
{
    if pat.len() == 0 || s.len() < pat.len() {
        s
    } else if s.take(pat.len() as int) == pat {
        rep + replace_seq(s.skip(pat.len() as int), pat, rep)
    } else {
        seq![s[0]] + replace_seq(s.skip(1), pat, rep)
    }
}

/// `str::replace` for a non-empty pattern, over characters.
pub fn replace_chars(s: &[char], pat: &[char], rep: &[char]) -> (r: Vec<char>)
    requires
        pat@.len() > 0,
    ensures
        r@ == replace_seq(s@, pat@, rep@),
{
    let mut out: Vec<char> = Vec::new();
    let mut i: usize = 0;
    proof {
        assert(s@.skip(0) =~= s@);
        assert(out@ + replace_seq(s@, pat@, rep@) =~= replace_seq(s@, pat@, rep@));
    }
    while i < s.len()
        invariant
            0 <= i <= s@.len(),
            pat@.len() > 0,
            out@ + replace_seq(s@.skip(i as int), pat@, rep@) == replace_seq(s@, pat@, rep@),
        decreases s@.len() - i,
    {
        let ghost rest = s@.skip(i as int);
        if s.len() - i >= pat.len() && matches_at(s, pat, i) {
            proof {
                assert(rest.take(pat@.len() as int) =~= s@.subrange(i as int, i + pat@.len()));
                assert(rest.skip(pat@.len() as int) =~= s@.skip(i + pat@.len()));
            }
            let ghost out0 = out@;
            push_all(&mut out, rep);
            i = i + pat.len();
            proof {
                let x = replace_seq(s@.skip(i as int), pat@, rep@);
                assert(out@ + x =~= out0 + (rep@ + x));
            }
        } else {
            proof {
                if rest.len() >= pat@.len() {
                    assert(rest.take(pat@.len() as int) =~= s@.subrange(i as int, i + pat@.len()));
                }
                assert(rest.skip(1) =~= s@.skip(i + 1));
            }
            out.push(s[i]);
            i = i + 1;
            proof {
                assert(out@ + replace_seq(s@.skip(i as int), pat@, rep@) =~= out@.drop_last() + (
                seq![s@[i - 1]] + replace_seq(s@.skip(i as int), pat@, rep@)));
            }
        }
    }
    proof {
        assert(s@.skip(s@.len() as int) =~= Seq::<char>::empty());
        assert(out@ + Seq::<char>::empty() =~= out@);
    }
    out
}

} // verus!
