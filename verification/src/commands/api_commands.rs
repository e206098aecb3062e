//! Answers of the credential commands.
use vstd::prelude::*;
use crate::api::interactions_client::redact_key;
use crate::textseq::{chars_to_string, dec, push_dec, push_str, replace_seq, str_to_chars, trim, trim_chars};

verus! {

/// Whether a key is configured.
#[derive(Debug)]
pub struct KeyStatus {
    pub configured: bool,
}

/// A voice preview: a data URL of the WAV audio and its size and length.
#[derive(Debug)]
pub struct AudioPreviewResult {
    pub data_url: String,
    pub duration_ms: u64,
    pub sample_rate: u32,
    pub byte_size: usize,
}

/// The key pool as the interface shows it.
#[derive(Debug)]
pub struct MultiKeyStatus {
    pub count: usize,
    pub keys_masked: Vec<String>,
    pub configured: bool,
}

/// The length in milliseconds of 24 kHz mono 16-bit audio of `byte_len` bytes.
pub fn preview_duration_ms(byte_len: u64) -> (r: u64)
    ensures
        r == (byte_len as nat * 1000) / 48000,
{
    let total: u128 = byte_len as u128 * 1000;
    (total / 48000) as u64
}

/// What a connection test answers for the HTTP status of the model listing and its
/// body, with the key that was used masked in an error body.
pub open spec fn connection_test_answer(status: u16, body: Seq<char>, key: Seq<char>) -> Result<Seq<char>, Seq<char>> {
    if 200 <= status < 300 {
        Ok("✅ API Key hợp lệ! Kết nối Google Gemini API siêu tốc thành công!"@)
    } else if status == 400 || status == 401 || status == 403 {
        Err("❌ API Key không hợp lệ hoặc đã bị vô hiệu hóa (HTTP 400/401/403)"@)
    } else if status == 429 {
        Err("⚠️ Quá giới hạn lượt gọi API (Rate Limited - 429). Vui lòng thử lại sau vài giây."@)
    } else {
        Err("Lỗi Google API (HTTP "@ + dec(status as nat) + "): "@ + replace_seq(body, trim(key), "***REDACTED***"@))
    }
}

/// The answer of a connection test, from the status and body the service gave.
pub fn connection_test_outcome(status: u16, body: &str, key: &str) -> (r: Result<String, String>)
    requires
        trim(key@).len() > 0,
    ensures
        (r matches Ok(m) && connection_test_answer(status, body@, key@) == Ok::<Seq<char>, Seq<char>>(m@))
            || (r matches Err(m) && connection_test_answer(status, body@, key@) == Err::<Seq<char>, Seq<char>>(m@)),
{
    if 200 <= status && status < 300 {
        return Ok("✅ API Key hợp lệ! Kết nối Google Gemini API siêu tốc thành công!".to_owned());
    }
    if status == 400 || status == 401 || status == 403 {
        return Err("❌ API Key không hợp lệ hoặc đã bị vô hiệu hóa (HTTP 400/401/403)".to_owned());
    }
    if status == 429 {
        return Err("⚠️ Quá giới hạn lượt gọi API (Rate Limited - 429). Vui lòng thử lại sau vài giây.".to_owned());
    }
    let kc = str_to_chars(key);
    let kt = trim_chars(kc.as_slice());
    let trimmed = chars_to_string(kt.as_slice());
    let safe = redact_key(body, trimmed.as_str());
    let sc = str_to_chars(safe.as_str());
    let mut out: Vec<char> = Vec::new();
    push_str(&mut out, "Lỗi Google API (HTTP ");
    push_dec(&mut out, status as u64);
    push_str(&mut out, "): ");
    crate::textseq::push_all(&mut out, sc.as_slice());
    Err(chars_to_string(out.as_slice()))
}

} // verus!
