//! Checks on what the user types before it reaches a project.
use vstd::prelude::*;
use crate::textseq::{char_is_control, char_is_whitespace, is_ctrl, is_ws, str_eq, str_to_chars, trim, trim_chars};

verus! {

/// Some character of `s` is a control character other than newline and tab.
pub open spec fn has_forbidden_control(s: Seq<char>) -> bool {
    exists|i: int| 0 <= i < s.len() && is_ctrl(#[trigger] s[i]) && s[i] != '\n' && s[i] != '\t'
}

/// Some character of `s` is a control character or white space.
pub open spec fn has_control_or_space(s: Seq<char>) -> bool {
    exists|i: int| 0 <= i < s.len() && (is_ctrl(#[trigger] s[i]) || is_ws(s[i]))
}

fn find_forbidden_control(s: &[char]) -> (r: bool)
    ensures
        r == has_forbidden_control(s@),
{
    let mut i: usize = 0;
    while i < s.len()
        invariant
            0 <= i <= s.len(),
            forall|k: int| 0 <= k < i ==> !(is_ctrl(#[trigger] s@[k]) && s@[k] != '\n' && s@[k] != '\t'),
        decreases s.len() - i,
    {
        let c = s[i];
        if char_is_control(c) && c != '\n' && c != '\t' {
            return true;
        }
        i = i + 1;
    }
    false
}

fn find_control_or_space(s: &[char]) -> (r: bool)
    ensures
        r == has_control_or_space(s@),
{
    let mut i: usize = 0;
    while i < s.len()
        invariant
            0 <= i <= s.len(),
            forall|k: int| 0 <= k < i ==> !(is_ctrl(#[trigger] s@[k]) || is_ws(s@[k])),
        decreases s.len() - i,
    {
        let c = s[i];
        if char_is_control(c) || char_is_whitespace(c) {
            return true;
        }
        i = i + 1;
    }
    false
}

fn trimmed(s: &str) -> (r: Vec<char>)
    ensures
        r@ == trim(s@),
{
    let cs = str_to_chars(s);
    trim_chars(cs.as_slice())
}

/// A project name: not blank, at most 255 characters once trimmed, and no control
/// character other than newline and tab.
pub fn validate_project_name(name: &str) -> (r: Result<(), String>)
    ensures
        trim(name@).len() == 0 ==> (r matches Err(m) && m@ == "Tên dự án không được để trống"@),
        trim(name@).len() > 255 ==> (r matches Err(m) && m@ == "Tên dự án vượt quá giới hạn 255 ký tự"@),
        0 < trim(name@).len() <= 255 && has_forbidden_control(trim(name@)) ==> (r matches Err(m) && m@
            == "Tên dự án chứa ký tự không hợp lệ"@),
        r is Ok <==> 0 < trim(name@).len() <= 255 && !has_forbidden_control(trim(name@)),
{
    let t = trimmed(name);
    if t.len() == 0 {
        return Err("Tên dự án không được để trống".to_owned());
    }
    if t.len() > 255 {
        return Err("Tên dự án vượt quá giới hạn 255 ký tự".to_owned());
    }
    if find_forbidden_control(t.as_slice()) {
        return Err("Tên dự án chứa ký tự không hợp lệ".to_owned());
    }
    Ok(())
}

/// The source text: not blank and at most 500 000 characters once trimmed.
pub fn validate_source_text(text: &str) -> (r: Result<(), String>)
    ensures
        trim(text@).len() == 0 ==> (r matches Err(m) && m@ == "Văn bản nguồn không được để trống"@),
        trim(text@).len() > 500_000 ==> (r matches Err(m) && m@
            == "Văn bản nguồn quá dài (tối đa 500.000 ký tự)"@),
        r is Ok <==> 0 < trim(text@).len() <= 500_000,
{
    let t = trimmed(text);
    if t.len() == 0 {
        return Err("Văn bản nguồn không được để trống".to_owned());
    }
    if t.len() > 500_000 {
        return Err("Văn bản nguồn quá dài (tối đa 500.000 ký tự)".to_owned());
    }
    Ok(())
}

/// A voice: not blank and at most 64 characters once trimmed.
pub fn validate_voice(voice: &str) -> (r: Result<(), String>)
    ensures
        trim(voice@).len() == 0 ==> (r matches Err(m) && m@ == "Chưa chọn giọng đọc"@),
        trim(voice@).len() > 64 ==> (r matches Err(m) && m@ == "Tên giọng đọc không hợp lệ"@),
        r is Ok <==> 0 < trim(voice@).len() <= 64,
{
    let t = trimmed(voice);
    if t.len() == 0 {
        return Err("Chưa chọn giọng đọc".to_owned());
    }
    if t.len() > 64 {
        return Err("Tên giọng đọc không hợp lệ".to_owned());
    }
    Ok(())
}

/// A preset name: at most 64 characters once trimmed (blank is accepted).
pub fn validate_preset(preset: &str) -> (r: Result<(), String>)
    ensures
        trim(preset@).len() > 64 ==> (r matches Err(m) && m@ == "Tên preset không hợp lệ"@),
        r is Ok <==> trim(preset@).len() <= 64,
{
    let t = trimmed(preset);
    if t.len() > 64 {
        return Err("Tên preset không hợp lệ".to_owned());
    }
    Ok(())
}

/// The chunk modes a request may name.
pub open spec fn is_chunk_mode(m: Seq<char>) -> bool {
    m == "auto"@ || m == "paragraph"@ || m == "sentence"@ || m == "clause"@
}

/// No chunk mode, or one of `auto`, `paragraph`, `sentence`, `clause` (exactly).
pub fn validate_chunk_mode(mode: Option<&str>) -> (r: Result<(), String>)
    ensures
        r is Ok <==> (mode matches Some(m) ==> is_chunk_mode(m@)),
        r matches Err(m) ==> m@ == "Chế độ phân đoạn (chunk_mode) không hợp lệ"@,
{
    match mode {
        Some(m) => {
            if str_eq(m, "auto") || str_eq(m, "paragraph") || str_eq(m, "sentence") || str_eq(
                m,
                "clause",
            ) {
                Ok(())
            } else {
                Err("Chế độ phân đoạn (chunk_mode) không hợp lệ".to_owned())
            }
        },
        None => Ok(()),
    }
}

/// An API key: not blank, at most 256 characters once trimmed, and no white space
/// or control character inside.
pub fn validate_api_key(key: &str) -> (r: Result<(), String>)
    ensures
        trim(key@).len() == 0 ==> (r matches Err(m) && m@ == "API Key không được để trống"@),
        trim(key@).len() > 256 ==> (r matches Err(m) && m@ == "API Key quá dài (tối đa 256 ký tự)"@),
        0 < trim(key@).len() <= 256 && has_control_or_space(trim(key@)) ==> (r matches Err(m) && m@
            == "API Key chứa ký tự trắng hoặc ký tự điều khiển không hợp lệ"@),
        r is Ok <==> 0 < trim(key@).len() <= 256 && !has_control_or_space(trim(key@)),
{
    let t = trimmed(key);
    if t.len() == 0 {
        return Err("API Key không được để trống".to_owned());
    }
    if t.len() > 256 {
        return Err("API Key quá dài (tối đa 256 ký tự)".to_owned());
    }
    if find_control_or_space(t.as_slice()) {
        return Err("API Key chứa ký tự trắng hoặc ký tự điều khiển không hợp lệ".to_owned());
    }
    Ok(())
}

} // verus!
