//! Provider-facing data of a speech call: voices, credentials, the audio that
//! comes back, errors as the provider reports them, and the model a call uses.
use vstd::prelude::*;
use crate::api::interactions_client::{api_error_message, ApiError, DEFAULT_MODEL, FALLBACK_MODEL};
use crate::codec::{debug_quoted, debug_str};
use crate::textseq::{chars_to_string, dec, push_dec, push_str, str_eq};

verus! {

/// A voice of the provider.
#[derive(Debug)]
pub struct VoiceInfo {
    pub id: String,
    pub name: String,
    pub gender: String,
    pub description: String,
}

/// What a call authenticates with.
#[derive(Debug)]
pub struct ProviderCredentials {
    pub api_key: String,
    pub project_id: Option<String>,
}

/// Audio returned by a provider.
#[derive(Debug)]
pub struct SynthesisOutput {
    pub audio_bytes: Vec<u8>,
    pub mime_type: String,
    pub sample_rate_hz: u32,
    pub channels: u8,
    pub provider_request_id: Option<String>,
}

/// A failure as the provider layer reports it.
#[derive(Debug)]
pub struct ProviderError {
    pub code: String,
    pub message: String,
    pub is_rate_limit: bool,
    pub retry_after_secs: Option<u64>,
}

/// What `{:?}` prints for a failure.
pub open spec fn api_error_debug(e: ApiError) -> Seq<char> {
    match e {
        ApiError::MissingAudio => "MissingAudio"@,
        ApiError::TruncatedAudio { expected_ms, actual_ms } => "TruncatedAudio { expected_ms: "@
            + dec(expected_ms as nat) + ", actual_ms: "@ + dec(actual_ms as nat) + " }"@,
        ApiError::CorruptAudio(m) => "CorruptAudio"@ + "("@ + debug_str(m@) + ")"@,
        ApiError::Base64DecodeError(m) => "Base64DecodeError"@ + "("@ + debug_str(m@) + ")"@,
        ApiError::NetworkError(m) => "NetworkError"@ + "("@ + debug_str(m@) + ")"@,
        ApiError::ApiServerError(c, m) => "ApiServerError("@ + dec(c as nat) + ", "@ + debug_str(m@)
            + ")"@,
        ApiError::RateLimited(Some(n)) => "RateLimited(Some("@ + dec(n as nat) + "))"@,
        ApiError::RateLimited(None) => "RateLimited(None)"@,
        ApiError::RateLimitedDaily => "RateLimitedDaily"@,
        ApiError::Unauthorized => "Unauthorized"@,
        ApiError::EmptyResponse => "EmptyResponse"@,
    }
}

fn push_wrapped_debug(out: &mut Vec<char>, name: &str, m: &String)
    ensures
        final(out)@ == old(out)@ + name@ + "("@ + debug_str(m@) + ")"@,
{
    push_str(out, name);
    push_str(out, "(");
    let q = debug_quoted(m.as_str());
    push_str(out, q.as_str());
    push_str(out, ")");
    assert(out@ =~= old(out)@ + name@ + "("@ + debug_str(m@) + ")"@);
}

/// The `{:?}` text of a failure.
pub fn api_error_debug_text(e: &ApiError) -> (r: String)
    ensures
        r@ == api_error_debug(*e),
{
    let mut v: Vec<char> = Vec::new();
    match e {
        ApiError::MissingAudio => push_str(&mut v, "MissingAudio"),
        ApiError::TruncatedAudio { expected_ms, actual_ms } => {
            push_str(&mut v, "TruncatedAudio { expected_ms: ");
            push_dec(&mut v, *expected_ms);
            push_str(&mut v, ", actual_ms: ");
            push_dec(&mut v, *actual_ms);
            push_str(&mut v, " }");
        },
        ApiError::CorruptAudio(m) => push_wrapped_debug(&mut v, "CorruptAudio", m),
        ApiError::Base64DecodeError(m) => push_wrapped_debug(&mut v, "Base64DecodeError", m),
        ApiError::NetworkError(m) => push_wrapped_debug(&mut v, "NetworkError", m),
        ApiError::ApiServerError(c, m) => {
            push_str(&mut v, "ApiServerError(");
            push_dec(&mut v, *c as u64);
            push_str(&mut v, ", ");
            let q = debug_quoted(m.as_str());
            push_str(&mut v, q.as_str());
            push_str(&mut v, ")");
        },
        ApiError::RateLimited(Some(n)) => {
            push_str(&mut v, "RateLimited(Some(");
            push_dec(&mut v, *n);
            push_str(&mut v, "))");
        },
        ApiError::RateLimited(None) => push_str(&mut v, "RateLimited(None)"),
        ApiError::RateLimitedDaily => push_str(&mut v, "RateLimitedDaily"),
        ApiError::Unauthorized => push_str(&mut v, "Unauthorized"),
        ApiError::EmptyResponse => push_str(&mut v, "EmptyResponse"),
    }
    assert(v@ =~= api_error_debug(*e));
    chars_to_string(v.as_slice())
}

impl ProviderError {
    /// The provider's view of a failure: its `{:?}` text as code, its message, and
    /// whether it is a rate limit (with the server's wait for a per-minute limit).
    pub fn from_api_error(err: ApiError) -> (r: ProviderError)
        ensures
            r.code@ == api_error_debug(err),
            r.message@ == api_error_message(err),
            r.is_rate_limit == (err is RateLimited || err is RateLimitedDaily),
            r.retry_after_secs == match err {
                ApiError::RateLimited(s) => s,
                _ => None,
            },
    {
        let is_rate_limit = match &err {
            ApiError::RateLimited(_) | ApiError::RateLimitedDaily => true,
            _ => false,
        };
        let retry_after_secs = match &err {
            ApiError::RateLimited(s) => *s,
            _ => None,
        };
        ProviderError {
            code: api_error_debug_text(&err),
            message: err.to_string(),
            is_rate_limit,
            retry_after_secs,
        }
    }
}

/// The identifier of the Gemini provider.
pub const GEMINI_PROVIDER_ID: &'static str = "google_gemini";

/// The display name of the Gemini provider.
pub const GEMINI_PROVIDER_NAME: &'static str = "Google Gemini TTS";

/// The Gemini voices: name, gender and description, in order.
pub open spec fn gemini_voice_table() -> Seq<(Seq<char>, Seq<char>, Seq<char>)> {
    seq![
        ("Kore"@, "Female"@, "Trầm ấm, tự nhiên"@),
        ("Aoede"@, "Female"@, "Truyền cảm, sâu lắng"@),
        ("Zephyr"@, "Female"@, "Nhẹ nhàng, trong trẻo"@),
        ("Calliope"@, "Female"@, "Kể chuyện, ngọt ngào"@),
        ("Leda"@, "Female"@, "Thanh lịch, điềm tĩnh"@),
        ("Puck"@, "Male"@, "Năng động, trẻ trung"@),
        ("Charon"@, "Male"@, "Trang trọng, đọc tin"@),
        ("Fenrir"@, "Male"@, "Mạnh mẽ, cuốn hút"@),
        ("Orpheus"@, "Male"@, "Ấm áp, diễn cảm"@),
        ("Pegasus"@, "Male"@, "Quyền lực, rõ ràng"@),
        ("Mimas"@, "Male"@, "Trầm thấp, thần thái"@),
    ]
}

pub open spec fn voice_view(v: VoiceInfo) -> (Seq<char>, Seq<char>, Seq<char>, Seq<char>) {
    (v.id@, v.name@, v.gender@, v.description@)
}

fn push_voice(out: &mut Vec<VoiceInfo>, name: &str, gender: &str, description: &str)
    ensures
        final(out)@.len() == old(out)@.len() + 1,
        forall|i: int| 0 <= i < old(out)@.len() ==> #[trigger] final(out)@[i] == old(out)@[i],
        voice_view(final(out)@.last()) == (name@, name@, gender@, description@),
{
    out.push(
        VoiceInfo {
            id: name.to_owned(),
            name: name.to_owned(),
            gender: gender.to_owned(),
            description: description.to_owned(),
        },
    );
}

/// The voices the Gemini provider offers; id and name are the voice's name.
pub fn gemini_voices() -> (r: Vec<VoiceInfo>)
    ensures
        r@.len() == gemini_voice_table().len(),
        forall|i: int|
            0 <= i < r@.len() ==> voice_view(#[trigger] r@[i]) == (
                gemini_voice_table()[i].0,
                gemini_voice_table()[i].0,
                gemini_voice_table()[i].1,
                gemini_voice_table()[i].2,
            ),
{
    let mut v: Vec<VoiceInfo> = Vec::new();
    push_voice(&mut v, "Kore", "Female", "Trầm ấm, tự nhiên");
    push_voice(&mut v, "Aoede", "Female", "Truyền cảm, sâu lắng");
    push_voice(&mut v, "Zephyr", "Female", "Nhẹ nhàng, trong trẻo");
    push_voice(&mut v, "Calliope", "Female", "Kể chuyện, ngọt ngào");
    push_voice(&mut v, "Leda", "Female", "Thanh lịch, điềm tĩnh");
    push_voice(&mut v, "Puck", "Male", "Năng động, trẻ trung");
    push_voice(&mut v, "Charon", "Male", "Trang trọng, đọc tin");
    push_voice(&mut v, "Fenrir", "Male", "Mạnh mẽ, cuốn hút");
    push_voice(&mut v, "Orpheus", "Male", "Ấm áp, diễn cảm");
    push_voice(&mut v, "Pegasus", "Male", "Quyền lực, rõ ràng");
    push_voice(&mut v, "Mimas", "Male", "Trầm thấp, thần thái");
    v
}

/// The model a call uses: the configured model when it is one of the two speech
/// models, otherwise the default model.
pub open spec fn effective_model(model: Seq<char>) -> Seq<char> {
    if model == DEFAULT_MODEL@ || model == FALLBACK_MODEL@ {
        model
    } else {
        DEFAULT_MODEL@
    }
}

pub fn select_synthesis_model(model: &str) -> (r: String)
    ensures
        r@ == effective_model(model@),
{
    if str_eq(model, DEFAULT_MODEL) || str_eq(model, FALLBACK_MODEL) {
        model.to_owned()
    } else {
        DEFAULT_MODEL.to_owned()
    }
}

/// The output of a Gemini call: 24 kHz mono PCM.
pub fn gemini_synthesis_output(pcm: Vec<u8>) -> (r: SynthesisOutput)
    ensures
        r.audio_bytes@ == pcm@,
        r.mime_type@ == "audio/pcm;rate=24000"@,
        r.sample_rate_hz == 24000,
        r.channels == 1,
        r.provider_request_id is None,
{
    SynthesisOutput {
        audio_bytes: pcm,
        mime_type: "audio/pcm;rate=24000".to_owned(),
        sample_rate_hz: 24000,
        channels: 1,
        provider_request_id: None,
    }
}

/// Tokens estimated for a text of `char_count` characters: a quarter, rounded up.
pub fn estimate_tokens(char_count: usize) -> (r: usize)
    ensures
        r == (char_count + 3) / 4,
{
    char_count / 4 + if char_count % 4 != 0 { 1 } else { 0 }
}

} // verus!
