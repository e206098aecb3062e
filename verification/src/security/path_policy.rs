//! Policy on file names and target paths: names that Windows would misread are
//! refused, extensions are checked against a list, and `..` is not allowed. The
//! file-system lookups that complete a path check are the caller's business.
use vstd::prelude::*;
use crate::codec::{base64_standard_decode, debug_char, debug_char_text, debug_quoted, debug_str, decode_base64};
use crate::textseq::{
    chars_to_string, contains_seq, dec, ends_with, occurs_at, find_chars, find_first, lowercase, push_all,
    push_dec_usize, push_str, starts_with, starts_with_chars, str_eq, str_to_chars, sub_chars,
    to_lowercase_chars, to_uppercase_chars, uppercase, utf8_len, utf8_len_at_most,
};

verus! {

/// Characters Windows does not accept in a file name: controls, DEL and `<>:"/\|?*`.
pub open spec fn is_bad_name_char(c: char) -> bool {
    (c as u32) <= 0x1f || c == '\u{7f}' || c == '<' || c == '>' || c == ':' || c == '"' || c == '/'
        || c == '\\' || c == '|' || c == '?' || c == '*'
}

/// The first character of `s` that a file name may not hold.
pub open spec fn first_bad_char(s: Seq<char>) -> Option<char>
    decreases s.len(),
{
    if s.len() == 0 {
        None
    } else if is_bad_name_char(s[0]) {
        Some(s[0])
    } else {
        first_bad_char(s.drop_first())
    }
}

/// The part of a name before its first dot.
pub open spec fn stem_of(s: Seq<char>) -> Seq<char> {
    match find_first(s, "."@) {
        Some(i) => s.take(i),
        None => s,
    }
}

/// Windows device names.
pub open spec fn is_reserved_device(u: Seq<char>) -> bool {
    u == "CON"@ ||
    u == "PRN"@ ||
    u == "AUX"@ ||
    u == "NUL"@ ||
    u == "COM1"@ ||
    u == "COM2"@ ||
    u == "COM3"@ ||
    u == "COM4"@ ||
    u == "COM5"@ ||
    u == "COM6"@ ||
    u == "COM7"@ ||
    u == "COM8"@ ||
    u == "COM9"@ ||
    u == "LPT1"@ ||
    u == "LPT2"@ ||
    u == "LPT3"@ ||
    u == "LPT4"@ ||
    u == "LPT5"@ ||
    u == "LPT6"@ ||
    u == "LPT7"@ ||
    u == "LPT8"@ ||
    u == "LPT9"@
}

/// Why a file name is refused, if it is; the checks in order.
pub open spec fn file_name_problem(name: Seq<char>) -> Option<Seq<char>> {
    if name.len() == 0 {
        Some("File name cannot be empty"@)
    } else if contains_seq(name, "\0"@) {
        Some("File name contains null byte"@)
    } else if starts_with(name, "\\\\?\\"@) || starts_with(name, "\\\\.\\"@) {
        Some("Device prefixes (\\\\?\\ or \\\\.\\) are not allowed"@)
    } else if contains_seq(name, ":"@) {
        Some("Alternate Data Streams (':') are not allowed"@)
    } else if ends_with(name, " "@) || ends_with(name, "."@) {
        Some("File name cannot end with a space or dot"@)
    } else if first_bad_char(name) is Some {
        Some("File name contains invalid character: "@ + debug_char(first_bad_char(name).unwrap()))
    } else if is_reserved_device(uppercase(stem_of(name))) {
        Some("File name '"@ + name + "' uses a reserved Windows device name"@)
    } else {
        None
    }
}

proof fn lemma_no_bad_char(s: Seq<char>)
    requires
        first_bad_char(s) is None,
    ensures
        forall|i: int| 0 <= i < s.len() ==> !is_bad_name_char(#[trigger] s[i]),
    decreases s.len(),
{
    if s.len() > 0 {
        lemma_no_bad_char(s.drop_first());
        assert forall|i: int| 0 <= i < s.len() implies !is_bad_name_char(#[trigger] s[i]) by {
            if i > 0 {
                assert(s[i] == s.drop_first()[i - 1]);
            }
        }
    }
}

/// An accepted file name names a file inside the directory it is joined to: it holds
/// no path separator and is neither `.` nor `..`.
pub proof fn lemma_accepted_name_stays_in_directory(name: Seq<char>)
    requires
        file_name_problem(name) is None,
    ensures
        forall|i: int| 0 <= i < name.len() ==> #[trigger] name[i] != '/' && name[i] != '\\',
        name != "."@,
        name != ".."@,
{
    lemma_no_bad_char(name);
    reveal_strlit(".");
    reveal_strlit("..");
    if name == "."@ || name == ".."@ {
        assert(name.subrange(name.len() - 1, name.len() as int) =~= "."@);
        assert(ends_with(name, "."@));
    }
}

fn find_bad_char(s: &[char]) -> (r: Option<char>)
    ensures
        r == first_bad_char(s@),
{
    let mut i: usize = 0;
    assert(s@.skip(0) =~= s@);
    while i < s.len()
        invariant
            0 <= i <= s.len(),
            first_bad_char(s@) == first_bad_char(s@.skip(i as int)),
        decreases s.len() - i,
    {
        let c = s[i];
        assert(s@.skip(i as int)[0] == c);
        assert(s@.skip(i as int).drop_first() =~= s@.skip(i + 1));
        if (c as u32) <= 0x1f || c == '\u{7f}' || c == '<' || c == '>' || c == ':' || c == '"' || c
            == '/' || c == '\\' || c == '|' || c == '?' || c == '*' {
            return Some(c);
        }
        i = i + 1;
    }
    assert(s@.skip(i as int) =~= Seq::<char>::empty());
    None
}

fn stem_chars(s: &[char]) -> (r: Vec<char>)
    ensures
        r@ == stem_of(s@),
{
    let dot = str_to_chars(".");
    match find_chars(s, dot.as_slice()) {
        Some(i) => sub_chars(s, 0, i),
        None => sub_chars(s, 0, s.len()),
    }
}

/// Accepts a file name that Windows reads as an ordinary file name.
pub fn validate_file_name(name: &str) -> (r: Result<(), String>)
    ensures
        match file_name_problem(name@) {
            Some(m) => r matches Err(e) && e@ == m,
            None => r is Ok,
        },
{
    let cs = str_to_chars(name);
    let s = cs.as_slice();
    if s.len() == 0 {
        return Err("File name cannot be empty".to_owned());
    }
    let nul = str_to_chars("\0");
    if crate::textseq::contains_chars(s, nul.as_slice()) {
        return Err("File name contains null byte".to_owned());
    }
    let p1 = str_to_chars("\\\\?\\");
    let p2 = str_to_chars("\\\\.\\");
    if starts_with_chars(s, p1.as_slice()) || starts_with_chars(s, p2.as_slice()) {
        return Err("Device prefixes (\\\\?\\ or \\\\.\\) are not allowed".to_owned());
    }
    let colon = str_to_chars(":");
    if crate::textseq::contains_chars(s, colon.as_slice()) {
        return Err("Alternate Data Streams (':') are not allowed".to_owned());
    }
    let sp = str_to_chars(" ");
    let dt = str_to_chars(".");
    if crate::textseq::ends_with_chars(s, sp.as_slice()) || crate::textseq::ends_with_chars(
        s,
        dt.as_slice(),
    ) {
        return Err("File name cannot end with a space or dot".to_owned());
    }
    match find_bad_char(s) {
        Some(c) => {
            let mut v: Vec<char> = Vec::new();
            push_str(&mut v, "File name contains invalid character: ");
            let d = debug_char_text(c);
            push_str(&mut v, d.as_str());
            return Err(chars_to_string(v.as_slice()));
        },
        None => {},
    }
    let stem = stem_chars(s);
    let upper = to_uppercase_chars(stem.as_slice());
    let us_string = chars_to_string(upper.as_slice());
    let us = us_string.as_str();
    if str_eq(us, "CON") || str_eq(us, "PRN") || str_eq(us, "AUX") || str_eq(us, "NUL") || str_eq(us, "COM1") || str_eq(us, "COM2") || str_eq(us, "COM3") || str_eq(us, "COM4") || str_eq(us, "COM5") || str_eq(us, "COM6") || str_eq(us, "COM7") || str_eq(us, "COM8") || str_eq(us, "COM9") || str_eq(us, "LPT1") || str_eq(us, "LPT2") || str_eq(us, "LPT3") || str_eq(us, "LPT4") || str_eq(us, "LPT5") || str_eq(us, "LPT6") || str_eq(us, "LPT7") || str_eq(us, "LPT8") || str_eq(us, "LPT9") {
        let mut v: Vec<char> = Vec::new();
        push_str(&mut v, "File name '");
        push_str(&mut v, name);
        push_str(&mut v, "' uses a reserved Windows device name");
        return Err(chars_to_string(v.as_slice()));
    }
    Ok(())
}

/// `s` without its leading dots.
pub open spec fn without_leading_dots(s: Seq<char>) -> Seq<char>
    decreases s.len(),
{
    if s.len() > 0 && s[0] == '.' {
        without_leading_dots(s.drop_first())
    } else {
        s
    }
}

fn strip_leading_dots(s: &[char]) -> (r: Vec<char>)
    ensures
        r@ == without_leading_dots(s@),
{
    let mut i: usize = 0;
    assert(s@.skip(0) =~= s@);
    while i < s.len() && s[i] == '.'
        invariant
            0 <= i <= s.len(),
            without_leading_dots(s@) == without_leading_dots(s@.skip(i as int)),
        decreases s.len() - i,
    {
        assert(s@.skip(i as int).drop_first() =~= s@.skip(i + 1));
        i = i + 1;
    }
    sub_chars(s, i, s.len())
}

/// The extension (lower-cased) is one of the allowed ones, compared lower-cased and
/// without leading dots.
pub open spec fn extension_allowed(ext: Seq<char>, allowed: Seq<&str>) -> bool {
    exists|i: int|
        0 <= i < allowed.len() && without_leading_dots(lowercase((#[trigger] allowed[i])@)) == lowercase(
            ext,
        )
}

/// `["a", "b"]`, as `{:?}` prints a list of strings.
pub open spec fn debug_list(v: Seq<&str>) -> Seq<char> {
    "["@ + debug_items(v) + "]"@
}

pub open spec fn debug_items(v: Seq<&str>) -> Seq<char>
    decreases v.len(),
{
    if v.len() == 0 {
        Seq::empty()
    } else if v.len() == 1 {
        debug_str(v[0]@)
    } else {
        debug_items(v.drop_last()) + ", "@ + debug_str(v.last()@)
    }
}

fn debug_list_text(v: &[&str]) -> (r: Vec<char>)
    ensures
        r@ == debug_list(v@),
{
    let mut out: Vec<char> = Vec::new();
    let mut i: usize = 0;
    while i < v.len()
        invariant
            0 <= i <= v.len(),
            out@ == debug_items(v@.take(i as int)),
        decreases v.len() - i,
    {
        assert(v@.take(i + 1).drop_last() =~= v@.take(i as int));
        if i > 0 {
            push_str(&mut out, ", ");
        }
        let q = debug_quoted(v[i]);
        push_str(&mut out, q.as_str());
        i = i + 1;
    }
    assert(v@.take(v.len() as int) =~= v@);
    let mut r: Vec<char> = Vec::new();
    push_str(&mut r, "[");
    push_all(&mut r, out.as_slice());
    push_str(&mut r, "]");
    r
}

/// What a target is checked for: a write below allowed roots, an export to a
/// place the user picked, or a read of an existing file.
#[derive(Debug, Clone, Copy, PartialEq, Eq, Structural)]
pub enum TargetKind {
    Write,
    Export,
    Read,
}

/// The refusal of a missing or unlisted extension, by kind of target.
pub open spec fn extension_problem(ext: Option<Seq<char>>, allowed: Seq<&str>, kind: TargetKind) -> Option<Seq<char>> {
    match ext {
        None => Some(
            if kind == TargetKind::Read {
                "File path must have a valid extension"@
            } else {
                "Target path must have a valid file extension"@
            },
        ),
        Some(e) => if extension_allowed(e, allowed) {
            None
        } else if kind == TargetKind::Read {
            Some("File extension '."@ + lowercase(e) + "' is not allowed"@)
        } else {
            Some("File extension '."@ + lowercase(e) + "' is not allowed. Allowed extensions: "@
                + debug_list(allowed))
        },
    }
}

/// Checks the extension of a target path (`None` where it has none or it is not
/// UTF-8); an empty list of allowed extensions accepts any file to read.
pub fn check_extension(extension: Option<&str>, allowed_extensions: &[&str], kind: TargetKind) -> (r:
    Result<(), String>)
    ensures
        kind == TargetKind::Read && allowed_extensions@.len() == 0 ==> r is Ok,
        !(kind == TargetKind::Read && allowed_extensions@.len() == 0) ==> match extension_problem(
            match extension {
                Some(e) => Some(e@),
                None => None,
            },
            allowed_extensions@,
            kind,
        ) {
            Some(m) => r matches Err(e) && e@ == m,
            None => r is Ok,
        },
{
    if kind == TargetKind::Read && allowed_extensions.len() == 0 {
        return Ok(());
    }
    match extension {
        None => {
            if kind == TargetKind::Read {
                Err("File path must have a valid extension".to_owned())
            } else {
                Err("Target path must have a valid file extension".to_owned())
            }
        },
        Some(e) => {
            let ec = str_to_chars(e);
            let lower = to_lowercase_chars(ec.as_slice());
            let mut i: usize = 0;
            while i < allowed_extensions.len()
                invariant
                    0 <= i <= allowed_extensions@.len(),
                    extension == Some(e),
                    !(kind == TargetKind::Read && allowed_extensions@.len() == 0),
                    lower@ == lowercase(e@),
                    forall|k: int|
                        0 <= k < i ==> without_leading_dots(
                            lowercase((#[trigger] allowed_extensions@[k])@),
                        ) != lowercase(e@),
                decreases allowed_extensions@.len() - i,
            {
                let ac = str_to_chars(allowed_extensions[i]);
                let al = to_lowercase_chars(ac.as_slice());
                let stripped = strip_leading_dots(al.as_slice());
                let ss = chars_to_string(stripped.as_slice());
                let ls = chars_to_string(lower.as_slice());
                if str_eq(ss.as_str(), ls.as_str()) {
                    assert(without_leading_dots(lowercase(allowed_extensions@[i as int]@))
                        == lowercase(e@));
                    assert(extension_allowed(e@, allowed_extensions@));
                    return Ok(());
                }
                i = i + 1;
            }
            let mut v: Vec<char> = Vec::new();
            push_str(&mut v, "File extension '.");
            push_all(&mut v, lower.as_slice());
            if kind == TargetKind::Read {
                push_str(&mut v, "' is not allowed");
            } else {
                push_str(&mut v, "' is not allowed. Allowed extensions: ");
                let d = debug_list_text(allowed_extensions);
                push_all(&mut v, d.as_slice());
            }
            Err(chars_to_string(v.as_slice()))
        },
    }
}

/// The file-name part of a target path.
#[derive(Debug)]
pub enum FileNamePart {
    Missing,
    NotUtf8,
    Name(String),
}

/// The refusal of a target's file name, by kind of target.
pub open spec fn file_part_problem(part: FileNamePart, kind: TargetKind) -> Option<Seq<char>> {
    match part {
        FileNamePart::Missing => Some(
            if kind == TargetKind::Export {
                "Target path must include a file name"@
            } else {
                "Invalid target path: missing file name"@
            },
        ),
        FileNamePart::NotUtf8 => Some(
            if kind == TargetKind::Export {
                "File name contains invalid UTF-8 characters"@
            } else {
                "Invalid non-UTF8 file name"@
            },
        ),
        FileNamePart::Name(n) => file_name_problem(n@),
    }
}

/// Why a target path is refused before the file system is consulted: its
/// extension, its file name, then a `..` component.
pub open spec fn target_problem(
    extension: Option<Seq<char>>,
    part: FileNamePart,
    has_parent_dir: bool,
    allowed: Seq<&str>,
    kind: TargetKind,
) -> Option<Seq<char>> {
    if extension_problem(extension, allowed, kind) is Some {
        extension_problem(extension, allowed, kind)
    } else if file_part_problem(part, kind) is Some {
        file_part_problem(part, kind)
    } else if has_parent_dir {
        Some("Path traversal ('..') is not permitted"@)
    } else {
        None
    }
}

/// The checks of a write or export target that need no file system: extension,
/// file name, no `..` component.
pub fn check_target_path(
    extension: Option<&str>,
    file_name: &FileNamePart,
    has_parent_dir: bool,
    allowed_extensions: &[&str],
    kind: TargetKind,
) -> (r: Result<(), String>)
    requires
        kind != TargetKind::Read,
    ensures
        match target_problem(
            match extension {
                Some(e) => Some(e@),
                None => None,
            },
            *file_name,
            has_parent_dir,
            allowed_extensions@,
            kind,
        ) {
            Some(m) => r matches Err(e) && e@ == m,
            None => r is Ok,
        },
{
    match check_extension(extension, allowed_extensions, kind) {
        Err(e) => {
            return Err(e);
        },
        Ok(()) => {},
    }
    match file_name {
        FileNamePart::Missing => {
            if kind == TargetKind::Export {
                return Err("Target path must include a file name".to_owned());
            } else {
                return Err("Invalid target path: missing file name".to_owned());
            }
        },
        FileNamePart::NotUtf8 => {
            if kind == TargetKind::Export {
                return Err("File name contains invalid UTF-8 characters".to_owned());
            } else {
                return Err("Invalid non-UTF8 file name".to_owned());
            }
        },
        FileNamePart::Name(n) => {
            match validate_file_name(n.as_str()) {
                Err(e) => {
                    return Err(e);
                },
                Ok(()) => {},
            }
        },
    }
    if has_parent_dir {
        return Err("Path traversal ('..') is not permitted".to_owned());
    }
    Ok(())
}

/// The base64 text of a payload: after the first comma (a data-URL prefix), or all of it.
pub open spec fn payload_text(s: Seq<char>) -> Seq<char> {
    match find_first(s, ","@) {
        Some(i) => s.skip(i + 1),
        None => s,
    }
}

/// The longest base64 text accepted for `max` decoded bytes.
pub open spec fn max_base64_len(max: nat) -> nat {
    ((max + 2) / 3) * 4 + 256
}

/// Decodes a base64 payload (optionally behind a data-URL prefix) of at most
/// `max_decoded_bytes` bytes; longer text is refused before decoding.
pub fn validate_base64_payload_size(base64_str: &str, max_decoded_bytes: usize) -> (r: Result<
    Vec<u8>,
    String,
>)
    requires
        max_base64_len(max_decoded_bytes as nat) <= usize::MAX,
    ensures
        utf8_len(payload_text(base64_str@)) > max_base64_len(max_decoded_bytes as nat) ==> (r matches Err(
            m,
        ) && m@ == "Payload size exceeds maximum allowed limit of "@ + dec(
            max_decoded_bytes as nat / (1024 * 1024),
        ) + " MB"@),
        utf8_len(payload_text(base64_str@)) <= max_base64_len(max_decoded_bytes as nat) ==> match base64_standard_decode(
            payload_text(base64_str@),
        ) {
            Err(msg) => r matches Err(m) && m@ == "Lỗi giải mã base64: "@ + msg,
            Ok(b) => if b.len() > max_decoded_bytes {
                r matches Err(m) && m@ == "Decoded payload size ("@ + dec(b.len()) + " bytes) exceeds maximum limit of "@
                    + dec(max_decoded_bytes as nat) + " bytes"@
            } else {
                r matches Ok(v) && v@ == b
            },
        },
{
    let cs = str_to_chars(base64_str);
    let comma = str_to_chars(",");
    proof {
        reveal_strlit(",");
    }
    let n = cs.len();
    let clean = match find_chars(cs.as_slice(), comma.as_slice()) {
        Some(i) => {
            assert(occurs_at(cs@, comma@, i as int));
            assert(comma@.len() == 1);
            sub_chars(cs.as_slice(), i + 1, n)
        },
        None => sub_chars(cs.as_slice(), 0, cs.len()),
    };
    proof {
        assert(cs@.subrange(0, cs@.len() as int) =~= cs@);
        match find_first(cs@, ","@) {
            Some(i) => {
                assert(cs@.subrange(i + 1, cs@.len() as int) =~= cs@.skip(i + 1));
            },
            None => {},
        }
    }
    let limit = (max_decoded_bytes / 3 + if max_decoded_bytes % 3 != 0 { 1 } else { 0 }) * 4 + 256;
    assert(limit == max_base64_len(max_decoded_bytes as nat));
    if !utf8_len_at_most(clean.as_slice(), limit) {
        let mut v: Vec<char> = Vec::new();
        push_str(&mut v, "Payload size exceeds maximum allowed limit of ");
        push_dec_usize(&mut v, max_decoded_bytes / (1024 * 1024));
        push_str(&mut v, " MB");
        return Err(chars_to_string(v.as_slice()));
    }
    let text = chars_to_string(clean.as_slice());
    match decode_base64(text.as_str()) {
        Err(msg) => {
            let mut v: Vec<char> = Vec::new();
            push_str(&mut v, "Lỗi giải mã base64: ");
            push_str(&mut v, msg.as_str());
            Err(chars_to_string(v.as_slice()))
        },
        Ok(bytes) => {
            if bytes.len() > max_decoded_bytes {
                let mut v: Vec<char> = Vec::new();
                push_str(&mut v, "Decoded payload size (");
                push_dec_usize(&mut v, bytes.len());
                push_str(&mut v, " bytes) exceeds maximum limit of ");
                push_dec_usize(&mut v, max_decoded_bytes);
                push_str(&mut v, " bytes");
                Err(chars_to_string(v.as_slice()))
            } else {
                Ok(bytes)
            }
        },
    }
}

} // verus!
