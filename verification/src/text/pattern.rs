//! Regular-expression rewriting through the `regex` crate. What a pattern
//! matches is the crate's business; the library only fixes which patterns and
//! replacement templates are applied, in which order, and what happens when a
//! pattern does not compile.
use vstd::prelude::*;

verus! {

/// What `regex::Regex::new(pattern)` followed by `replace_all(text, rep)` gives:
/// `None` when the pattern does not compile.
pub uninterp spec fn regex_replace_all(pattern: Seq<char>, text: Seq<char>, rep: Seq<char>) -> Option<
    Seq<char>,
>;

/// For each successive match of `pattern` in `text`, the text of capture group
/// `group` (`None` where that group took no part in the match); `None` when the
/// pattern does not compile.
pub uninterp spec fn regex_group_matches(pattern: Seq<char>, text: Seq<char>, group: nat) -> Option<
    Seq<Option<Seq<char>>>,
>;

/// The views of optional strings.
pub open spec fn opt_views(v: Seq<Option<String>>) -> Seq<Option<Seq<char>>> {
    v.map_values(|o: Option<String>| opt_view(o))
}

pub open spec fn opt_view(o: Option<String>) -> Option<Seq<char>> {
    match o {
        Some(s) => Some(s@),
        None => None,
    }
}

/// A character that may continue a capture-group name in a replacement template.
pub open spec fn is_group_name_char(c: char) -> bool {
    ('0' <= c && c <= '9') || ('a' <= c && c <= 'z') || ('A' <= c && c <= 'Z') || c == '_'
}

/// The text of capture group `n`, empty where there is no such group.
pub open spec fn group_text(groups: Seq<Seq<char>>, n: int) -> Seq<char> {
    if 0 <= n < groups.len() {
        groups[n]
    } else {
        Seq::empty()
    }
}

/// A replacement template from position `i` on, with each `$d` (a single digit
/// that no further name character follows) replaced by the text of capture
/// group `d`, as the `regex` crate expands the templates of `replace_all`; other
/// characters are copied.
pub open spec fn expand_template_from(tmpl: Seq<char>, groups: Seq<Seq<char>>, i: int) -> Seq<char>
    decreases tmpl.len() - i,
{
    if i < 0 || i >= tmpl.len() {
        Seq::empty()
    } else if tmpl[i] == '$' && i + 1 < tmpl.len() && '0' <= tmpl[i + 1] && tmpl[i + 1] <= '9' && (i + 2
        >= tmpl.len() || !is_group_name_char(tmpl[i + 2])) {
        group_text(groups, tmpl[i + 1] as int - '0' as int) + expand_template_from(tmpl, groups, i + 2)
    } else {
        seq![tmpl[i]] + expand_template_from(tmpl, groups, i + 1)
    }
}

/// What a replacement template gives for a match with the given capture groups
/// (group 0 being the whole match).
pub open spec fn expand_template(tmpl: Seq<char>, groups: Seq<Seq<char>>) -> Seq<char> {
    expand_template_from(tmpl, groups, 0)
}

/// The result of a rewrite, or the text unchanged where the pattern does not compile.
pub open spec fn rewrite_or_keep(pattern: Seq<char>, text: Seq<char>, rep: Seq<char>) -> Seq<char> {
    match regex_replace_all(pattern, text, rep) {
        Some(t) => t,
        None => text,
    }
}

/// Calls `regex::Regex::new` and `Regex::replace_all` (with `$n` expansion in
/// `rep`). The contract only ties the result to the name `regex_replace_all`
/// applied to the three arguments; nothing is claimed of what a pattern matches.
#[verifier::external_body]
fn regex_replace(pattern: &str, text: &str, rep: &str) -> (r: Option<String>)
    ensures
        r matches Some(s) ==> regex_replace_all(pattern@, text@, rep@) == Some(s@),
        r is None ==> regex_replace_all(pattern@, text@, rep@) is None,
{
    match regex::Regex::new(pattern) {
        Ok(re) => Some(re.replace_all(text, rep).into_owned()),
        Err(_) => None,
    }
}

/// Calls `regex::Regex::new` and `Regex::captures_iter`, taking capture group
/// `group` of each match in turn. The contract ties the result to the name
/// `regex_group_matches` applied to the arguments.
#[verifier::external_body]
pub(crate) fn regex_groups(pattern: &str, text: &str, group: usize) -> (r: Option<Vec<Option<String>>>)
    ensures
        r matches Some(v) ==> regex_group_matches(pattern@, text@, group as nat) == Some(
            opt_views(v@),
        ),
        r is None ==> regex_group_matches(pattern@, text@, group as nat) is None,
{
    match regex::Regex::new(pattern) {
        Ok(re) => {
            let mut out: Vec<Option<String>> = Vec::new();
            for cap in re.captures_iter(text) {
                out.push(cap.get(group).map(|m| m.as_str().to_string()));
            }
            Some(out)
        },
        Err(_) => None,
    }
}

/// Rewrites every match of `pattern` in `text` by the template `rep`; where the
/// pattern does not compile the text is returned unchanged.
pub fn rewrite_all(pattern: &str, text: &str, rep: &str) -> (r: String)
    ensures
        r@ == rewrite_or_keep(pattern@, text@, rep@),
{
    match regex_replace(pattern, text, rep) {
        Some(s) => s,
        None => text.to_owned(),
    }
}

} // verus!
