//! The Gemini `generateContent` exchange for speech: request shape, endpoint,
//! extraction of PCM audio from a response, and the classification of failures.
//! Sending the request is the caller's business.
use vstd::prelude::*;
use crate::codec::{base64_standard_decode, decode_base64};
use crate::textseq::{
    chars_to_string, contains_chars, contains_seq, dec, lowercase, push_dec, push_dec_usize,
    push_str, replace_chars, replace_seq, str_to_chars, to_lowercase_chars, trim, trim_chars,
};

verus! {

pub const DEFAULT_MODEL: &'static str = "gemini-3.1-flash-tts-preview";

pub const FALLBACK_MODEL: &'static str = "gemini-2.5-flash-preview-tts";

/// `serde_json::Value`, carried through untouched.
#[verifier::external_type_specification]
#[verifier::external_body]
pub struct ExJsonValue(serde_json::Value);

/// `https://generativelanguage.googleapis.com/v1beta/models/{model}:generateContent`
pub open spec fn endpoint_for(model: Seq<char>) -> Seq<char> {
    "https://generativelanguage.googleapis.com/v1beta/models/"@ + model + ":generateContent"@
}

/// The `generateContent` URL of a model.
pub fn get_generate_content_endpoint(model: &str) -> (r: String)
    ensures
        r@ == endpoint_for(model@),
{
    let mut v: Vec<char> = Vec::new();
    push_str(&mut v, "https://generativelanguage.googleapis.com/v1beta/models/");
    push_str(&mut v, model);
    push_str(&mut v, ":generateContent");
    chars_to_string(v.as_slice())
}

#[derive(Debug)]
pub struct PrebuiltVoiceConfig {
    pub voice_name: String,
}

#[derive(Debug)]
pub struct VoiceConfig {
    pub prebuilt_voice_config: PrebuiltVoiceConfig,
}

#[derive(Debug)]
pub struct SpeechConfig {
    pub voice_config: VoiceConfig,
}

#[derive(Debug)]
pub struct GenerationConfig {
    pub response_modalities: Vec<String>,
    pub speech_config: Option<SpeechConfig>,
}

#[derive(Debug)]
pub struct Part {
    pub text: Option<String>,
    pub inline_data: Option<InlineData>,
}

#[derive(Debug)]
pub struct InlineData {
    pub mime_type: Option<String>,
    pub data: String,
}

#[derive(Debug)]
pub struct Content {
    pub parts: Vec<Part>,
}

#[derive(Debug)]
pub struct GeminiGenerateContentRequest {
    pub contents: Vec<Content>,
    pub generation_config: GenerationConfig,
}

/// The request is a speech request: one content with one text part, audio output
/// and a prebuilt voice.
pub open spec fn is_tts_request(r: GeminiGenerateContentRequest, text: Seq<char>, voice: Seq<char>) -> bool {
    &&& r.contents@.len() == 1
    &&& r.contents@[0].parts@.len() == 1
    &&& r.contents@[0].parts@[0].text matches Some(t) && t@ == text
    &&& r.contents@[0].parts@[0].inline_data is None
    &&& r.generation_config.response_modalities@.len() == 1
    &&& r.generation_config.response_modalities@[0]@ == "AUDIO"@
    &&& r.generation_config.speech_config matches Some(sc)
        && sc.voice_config.prebuilt_voice_config.voice_name@ == voice
}

impl GeminiGenerateContentRequest {
    /// A speech request for `text` read with the prebuilt voice `voice`.
    pub fn new_tts_request(text: &str, voice: &str) -> (r: Self)
        ensures
            is_tts_request(r, text@, voice@),
    {
        let mut parts: Vec<Part> = Vec::new();
        parts.push(Part { text: Some(text.to_owned()), inline_data: None });
        let mut contents: Vec<Content> = Vec::new();
        contents.push(Content { parts });
        let mut modalities: Vec<String> = Vec::new();
        modalities.push("AUDIO".to_owned());
        GeminiGenerateContentRequest {
            contents,
            generation_config: GenerationConfig {
                response_modalities: modalities,
                speech_config: Some(
                    SpeechConfig {
                        voice_config: VoiceConfig {
                            prebuilt_voice_config: PrebuiltVoiceConfig {
                                voice_name: voice.to_owned(),
                            },
                        },
                    },
                ),
            },
        }
    }
}

#[derive(Debug)]
pub struct Candidate {
    pub content: Option<Content>,
    pub finish_reason: Option<String>,
}

#[derive(Debug)]
pub struct GeminiGenerateContentResponse {
    pub candidates: Option<Vec<Candidate>>,
    pub error: Option<serde_json::Value>,
}

/// Failures of a speech call.
#[derive(Debug)]
pub enum ApiError {
    MissingAudio,
    TruncatedAudio { expected_ms: u64, actual_ms: u64 },
    CorruptAudio(String),
    Base64DecodeError(String),
    NetworkError(String),
    ApiServerError(u16, String),
    RateLimited(Option<u64>),
    RateLimitedDaily,
    Unauthorized,
    EmptyResponse,
}

/// `Some(n)` or `None`, as `{:?}` prints an `Option<u64>`.
pub open spec fn debug_opt_u64(o: Option<u64>) -> Seq<char> {
    match o {
        Some(n) => "Some("@ + dec(n as nat) + ")"@,
        None => "None"@,
    }
}

/// The message of each failure.
pub open spec fn api_error_message(e: ApiError) -> Seq<char> {
    match e {
        ApiError::MissingAudio => "Google Gemini API response did not contain audio payload"@,
        ApiError::TruncatedAudio { expected_ms, actual_ms } => "Audio appears truncated: expected ~"@
            + dec(expected_ms as nat) + "ms, got "@ + dec(actual_ms as nat) + "ms"@,
        ApiError::CorruptAudio(msg) => "Audio data is corrupt or invalid: "@ + msg@,
        ApiError::Base64DecodeError(msg) => "Failed to decode base64 audio payload: "@ + msg@,
        ApiError::NetworkError(msg) => "Network connectivity error: "@ + msg@,
        ApiError::ApiServerError(code, msg) => "Gemini API error ("@ + dec(code as nat) + ") : "@
            + msg@,
        ApiError::RateLimited(retry_after) => "Rate limited (429 - Retry after "@ + debug_opt_u64(
            retry_after,
        ) + "s)"@,
        ApiError::RateLimitedDaily => "Daily API quota exhausted (RPD limit). Resets at midnight Pacific Time."@,
        ApiError::Unauthorized => "Invalid, missing or unauthorized Gemini API Key"@,
        ApiError::EmptyResponse => "API returned empty text response"@,
    }
}

impl ApiError {
    /// The message of the failure (what `Display` shows).
    pub fn to_string(&self) -> (r: String)
        ensures
            r@ == api_error_message(*self),
    {
        let mut v: Vec<char> = Vec::new();
        match self {
            ApiError::MissingAudio => push_str(
                &mut v,
                "Google Gemini API response did not contain audio payload",
            ),
            ApiError::TruncatedAudio { expected_ms, actual_ms } => {
                push_str(&mut v, "Audio appears truncated: expected ~");
                push_dec(&mut v, *expected_ms);
                push_str(&mut v, "ms, got ");
                push_dec(&mut v, *actual_ms);
                push_str(&mut v, "ms");
            },
            ApiError::CorruptAudio(msg) => {
                push_str(&mut v, "Audio data is corrupt or invalid: ");
                push_str(&mut v, msg.as_str());
            },
            ApiError::Base64DecodeError(msg) => {
                push_str(&mut v, "Failed to decode base64 audio payload: ");
                push_str(&mut v, msg.as_str());
            },
            ApiError::NetworkError(msg) => {
                push_str(&mut v, "Network connectivity error: ");
                push_str(&mut v, msg.as_str());
            },
            ApiError::ApiServerError(code, msg) => {
                push_str(&mut v, "Gemini API error (");
                push_dec(&mut v, *code as u64);
                push_str(&mut v, ") : ");
                push_str(&mut v, msg.as_str());
            },
            ApiError::RateLimited(retry_after) => {
                push_str(&mut v, "Rate limited (429 - Retry after ");
                match retry_after {
                    Some(n) => {
                        push_str(&mut v, "Some(");
                        push_dec(&mut v, *n);
                        push_str(&mut v, ")");
                    },
                    None => push_str(&mut v, "None"),
                }
                push_str(&mut v, "s)");
            },
            ApiError::RateLimitedDaily => push_str(
                &mut v,
                "Daily API quota exhausted (RPD limit). Resets at midnight Pacific Time.",
            ),
            ApiError::Unauthorized => push_str(
                &mut v,
                "Invalid, missing or unauthorized Gemini API Key",
            ),
            ApiError::EmptyResponse => push_str(&mut v, "API returned empty text response"),
        }
        assert(v@ =~= api_error_message(*self));
        chars_to_string(v.as_slice())
    }
}

// ---------------------------------------------------------------------------
// PCM extraction
// ---------------------------------------------------------------------------

/// Little-endian 32-bit value at `i`.
pub open spec fn le_u32(b: Seq<u8>, i: int) -> nat {
    (b[i] as nat) + 256 * (b[i + 1] as nat) + 65536 * (b[i + 2] as nat) + 16777216 * (b[i + 3] as nat)
}

/// Four bytes at `i` spell the ASCII tag `t`.
pub open spec fn tag_at(b: Seq<u8>, i: int, t: Seq<u8>) -> bool {
    0 <= i && i + 4 <= b.len() && b.subrange(i, i + 4) == t
}

pub open spec fn riff_tag() -> Seq<u8> {
    seq![82u8, 73u8, 70u8, 70u8]
}

pub open spec fn wave_tag() -> Seq<u8> {
    seq![87u8, 65u8, 86u8, 69u8]
}

pub open spec fn data_tag() -> Seq<u8> {
    seq![100u8, 97u8, 116u8, 97u8]
}

/// The bytes start a RIFF/WAVE file (and are longer than a plain WAV header).
pub open spec fn is_riff_wave(b: Seq<u8>) -> bool {
    b.len() > 44 && tag_at(b, 0, riff_tag()) && tag_at(b, 8, wave_tag())
}

/// Offset of the `data` chunk found by walking the chunks from `pos` (chunk sizes
/// padded to even), if any.
pub open spec fn find_data_chunk(b: Seq<u8>, pos: nat) -> Option<nat>
    decreases b.len() - pos,
{
    if pos + 8 > b.len() {
        None
    } else if tag_at(b, pos as int, data_tag()) {
        Some(pos)
    } else {
        let size = le_u32(b, pos + 4 as int);
        let next: nat = pos + 8 + size + size % 2;
        if next > b.len() {
            None
        } else {
            find_data_chunk(b, next)
        }
    }
}

/// The PCM samples of the bytes: a RIFF/WAVE file gives its `data` chunk (cut at
/// the end of the bytes), or everything after 44 bytes where no `data` chunk is
/// found; other bytes are taken as PCM already.
pub open spec fn pcm_of(b: Seq<u8>) -> Seq<u8> {
    if is_riff_wave(b) {
        match find_data_chunk(b, 12) {
            Some(p) => {
                let start: int = p + 8int;
                let end: int = if start + le_u32(b, p + 4int) < b.len() {
                    start + le_u32(b, p + 4int)
                } else {
                    b.len() as int
                };
                b.subrange(start, end)
            },
            None => b.skip(44),
        }
    } else {
        b
    }
}

fn tag_matches(b: &Vec<u8>, i: usize, t0: u8, t1: u8, t2: u8, t3: u8) -> (r: bool)
    requires
        i + 4 <= b.len(),
    ensures
        r == (b@.subrange(i as int, i + 4) == seq![t0, t1, t2, t3]),
{
    let r = b[i] == t0 && b[i + 1] == t1 && b[i + 2] == t2 && b[i + 3] == t3;
    if r {
        assert(b@.subrange(i as int, i + 4) =~= seq![t0, t1, t2, t3]);
    } else {
        proof {
            if b@.subrange(i as int, i + 4) == seq![t0, t1, t2, t3] {
                assert(b@.subrange(i as int, i + 4)[0] == t0);
                assert(b@.subrange(i as int, i + 4)[1] == t1);
                assert(b@.subrange(i as int, i + 4)[2] == t2);
                assert(b@.subrange(i as int, i + 4)[3] == t3);
            }
        }
    }
    r
}

fn copy_range(b: &Vec<u8>, start: usize, end: usize) -> (r: Vec<u8>)
    requires
        start <= end <= b@.len(),
    ensures
        r@ == b@.subrange(start as int, end as int),
{
    let mut out: Vec<u8> = Vec::new();
    let mut i: usize = start;
    while i < end
        invariant
            start <= i <= end <= b@.len(),
            out@ == b@.subrange(start as int, i as int),
        decreases end - i,
    {
        out.push(b[i]);
        i = i + 1;
        assert(out@ =~= b@.subrange(start as int, i as int));
    }
    out
}

/// Strips a RIFF/WAVE container from audio bytes, leaving raw PCM.
pub fn sanitize_pcm_bytes(raw_bytes: Vec<u8>) -> (r: Vec<u8>)
    ensures
        r@ == pcm_of(raw_bytes@),
{
    let n = raw_bytes.len();
    if n > 44 && tag_matches(&raw_bytes, 0, 82, 73, 70, 70) && tag_matches(
        &raw_bytes,
        8,
        87,
        65,
        86,
        69,
    ) {
        let mut pos: usize = 12;
        while n - pos >= 8
            invariant
                n == raw_bytes@.len(),
                is_riff_wave(raw_bytes@),
                12 <= pos <= n,
                find_data_chunk(raw_bytes@, 12) == find_data_chunk(raw_bytes@, pos as nat),
            ensures
                find_data_chunk(raw_bytes@, 12) is None,
            decreases n - pos,
        {
            let size: u64 = raw_bytes[pos + 4] as u64 + 256 * (raw_bytes[pos + 5] as u64) + 65536 * (
            raw_bytes[pos + 6] as u64) + 16777216 * (raw_bytes[pos + 7] as u64);
            assert(size == le_u32(raw_bytes@, pos + 4int));
            if tag_matches(&raw_bytes, pos, 100, 97, 116, 97) {
                let start = pos + 8;
                let end: usize = if (start as u128) + (size as u128) < n as u128 {
                    start + size as usize
                } else {
                    n
                };
                return copy_range(&raw_bytes, start, end);
            }
            let next: u128 = pos as u128 + 8 + size as u128 + (size % 2) as u128;
            if next > n as u128 {
                break;
            }
            pos = next as usize;
        }
        assert(raw_bytes@.subrange(44, n as int) =~= raw_bytes@.skip(44));
        copy_range(&raw_bytes, 44, n)
    } else {
        raw_bytes
    }
}

/// The parts of a candidate.
pub open spec fn candidate_parts(c: Candidate) -> Seq<Part> {
    match c.content {
        Some(ct) => ct.parts@,
        None => Seq::empty(),
    }
}

/// All parts of all candidates, in order.
pub open spec fn all_parts(cs: Seq<Candidate>) -> Seq<Part>
    decreases cs.len(),
{
    if cs.len() == 0 {
        Seq::empty()
    } else {
        all_parts(cs.drop_last()) + candidate_parts(cs.last())
    }
}

/// Index of the first part that carries inline data.
pub open spec fn first_inline(ps: Seq<Part>) -> Option<int>
    decreases ps.len(),
{
    if ps.len() == 0 {
        None
    } else {
        match first_inline(ps.drop_last()) {
            Some(i) => Some(i),
            None => if ps.last().inline_data is Some {
                Some(ps.len() - 1)
            } else {
                None
            },
        }
    }
}

/// The parts of a response.
pub open spec fn response_parts(r: GeminiGenerateContentResponse) -> Seq<Part> {
    match r.candidates {
        Some(cs) => all_parts(cs@),
        None => Seq::empty(),
    }
}

/// A MIME type, `audio/pcm` where none is given.
pub open spec fn mime_or_default(m: Option<String>) -> Seq<char> {
    match m {
        Some(s) => s@,
        None => "audio/pcm"@,
    }
}

/// The outcome for a decoded inline payload: its PCM samples and MIME type, or the
/// decode error.
pub open spec fn decoded_outcome(
    decoded: Result<Seq<u8>, Seq<char>>,
    mime: Option<String>,
    r: Result<(Vec<u8>, String), ApiError>,
) -> bool {
    match decoded {
        Ok(b) => r matches Ok((pcm, m)) && pcm@ == pcm_of(b) && m@ == mime_or_default(mime),
        Err(msg) => r matches Err(ApiError::Base64DecodeError(e)) && e@ == msg,
    }
}

/// PCM samples and MIME type from a decoded inline payload.
pub fn pcm_from_decoded(decoded: Result<Vec<u8>, String>, mime: &Option<String>) -> (r: Result<
    (Vec<u8>, String),
    ApiError,
>)
    ensures
        decoded_outcome(
            match decoded {
                Ok(b) => Ok::<Seq<u8>, Seq<char>>(b@),
                Err(m) => Err::<Seq<u8>, Seq<char>>(m@),
            },
            *mime,
            r,
        ),
{
    match decoded {
        Ok(raw) => {
            let m = match mime {
                Some(s) => s.clone(),
                None => "audio/pcm".to_owned(),
            };
            Ok((sanitize_pcm_bytes(raw), m))
        },
        Err(msg) => Err(ApiError::Base64DecodeError(msg)),
    }
}

proof fn lemma_first_inline_add(a: Seq<Part>, b: Seq<Part>)
    ensures
        first_inline(a + b) == match first_inline(a) {
            Some(i) => Some(i),
            None => match first_inline(b) {
                Some(j) => Some(a.len() + j),
                None => None,
            },
        },
    decreases b.len(),
{
    if b.len() == 0 {
        assert(a + b =~= a);
    } else {
        lemma_first_inline_add(a, b.drop_last());
        assert((a + b).drop_last() =~= a + b.drop_last());
    }
}

proof fn lemma_first_inline_bound(a: Seq<Part>)
    ensures
        first_inline(a) matches Some(i) ==> 0 <= i < a.len() && a[i].inline_data is Some,
    decreases a.len(),
{
    if a.len() > 0 {
        lemma_first_inline_bound(a.drop_last());
    }
}

/// The PCM audio of the first inline payload among the response's parts.
pub fn extract_pcm_from_response(response: &GeminiGenerateContentResponse) -> (r: Result<
    (Vec<u8>, String),
    ApiError,
>)
    ensures
        match first_inline(response_parts(*response)) {
            Some(i) => {
                let d = response_parts(*response)[i].inline_data.unwrap();
                decoded_outcome(base64_standard_decode(d.data@), d.mime_type, r)
            },
            None => r matches Err(ApiError::MissingAudio),
        },
{
    match &response.candidates {
        Some(candidates) => {
            let mut ci: usize = 0;
            while ci < candidates.len()
                invariant
                    0 <= ci <= candidates@.len(),
                    response.candidates == Some(*candidates),
                    first_inline(all_parts(candidates@.take(ci as int))) is None,
                decreases candidates@.len() - ci,
            {
                let ghost before = all_parts(candidates@.take(ci as int));
                proof {
                    assert(candidates@.take(ci + 1).drop_last() =~= candidates@.take(ci as int));
                }
                match &candidates[ci].content {
                    Some(content) => {
                        let mut pi: usize = 0;
                        while pi < content.parts.len()
                            invariant
                                0 <= pi <= content.parts@.len(),
                                0 <= ci < candidates@.len(),
                                response.candidates == Some(*candidates),
                                candidates@[ci as int].content == Some(*content),
                                before == all_parts(candidates@.take(ci as int)),
                                first_inline(before + content.parts@.take(pi as int)) is None,
                                first_inline(before) is None,
                            decreases content.parts@.len() - pi,
                        {
                            proof {
                                assert((before + content.parts@.take(pi + 1)).drop_last() =~= before
                                    + content.parts@.take(pi as int));
                            }
                            match &content.parts[pi].inline_data {
                                Some(inline) => {
                                    proof {
                                        let ps = response_parts(*response);
                                        let rest = all_parts(candidates@.skip(ci + 1));
                                        lemma_all_parts_split(candidates@, ci as int);
                                        assert(first_inline(before + content.parts@.take(pi + 1))
                                            == Some(before.len() + pi));
                                        lemma_first_inline_add(before, content.parts@);
                                        lemma_first_inline_add(
                                            before + content.parts@.take(pi + 1),
                                            content.parts@.skip(pi + 1),
                                        );
                                        assert(before + content.parts@ =~= before
                                            + content.parts@.take(pi + 1) + content.parts@.skip(
                                            pi + 1,
                                        ));
                                        lemma_first_inline_add(before + content.parts@, rest);
                                        assert(ps =~= before + content.parts@ + rest);
                                        assert(ps[before.len() + pi] == content.parts@[pi as int]);
                                    }
                                    let decoded = decode_base64(inline.data.as_str());
                                    return pcm_from_decoded(decoded, &inline.mime_type);
                                },
                                None => {},
                            }
                            pi = pi + 1;
                        }
                        proof {
                            assert(content.parts@.take(content.parts@.len() as int)
                                =~= content.parts@);
                        }
                    },
                    None => {
                        assert(before + Seq::<Part>::empty() =~= before);
                    },
                }
                ci = ci + 1;
            }
            proof {
                assert(candidates@.take(candidates@.len() as int) =~= candidates@);
            }
            Err(ApiError::MissingAudio)
        },
        None => Err(ApiError::MissingAudio),
    }
}

proof fn lemma_all_parts_split(cs: Seq<Candidate>, i: int)
    requires
        0 <= i < cs.len(),
    ensures
        all_parts(cs) == all_parts(cs.take(i)) + candidate_parts(cs[i]) + all_parts(cs.skip(i + 1)),
    decreases cs.len(),
{
    if i == cs.len() - 1 {
        assert(cs.drop_last() =~= cs.take(i));
        assert(cs.skip(i + 1) =~= Seq::<Candidate>::empty());
        assert(all_parts(cs.take(i)) + candidate_parts(cs[i]) + Seq::<Part>::empty() =~= all_parts(
            cs.take(i),
        ) + candidate_parts(cs[i]));
    } else {
        lemma_all_parts_split(cs.drop_last(), i);
        assert(cs.drop_last().take(i) =~= cs.take(i));
        assert(cs.drop_last().skip(i + 1) =~= cs.skip(i + 1).drop_last());
        assert(cs.skip(i + 1).last() == cs.last());
        assert(all_parts(cs.skip(i + 1)) == all_parts(cs.skip(i + 1).drop_last()) + candidate_parts(
            cs.last(),
        ));
        assert(all_parts(cs) =~= all_parts(cs.take(i)) + candidate_parts(cs[i]) + all_parts(
            cs.skip(i + 1),
        ));
    }
}

// ---------------------------------------------------------------------------
// Decisions around the call
// ---------------------------------------------------------------------------

/// What is sent for a speech call: the endpoint, the trimmed key and the payload.
#[derive(Debug)]
pub struct TtsCall {
    pub endpoint: String,
    pub api_key: String,
    pub payload: GeminiGenerateContentRequest,
}

/// The voice used: the trimmed voice, or `Kore` when it is blank.
pub open spec fn voice_or_default(voice: Seq<char>) -> Seq<char> {
    if trim(voice).len() == 0 {
        "Kore"@
    } else {
        trim(voice)
    }
}

/// Prepares a speech call: a blank key is refused as unauthorized; the model's
/// endpoint, the trimmed key and a request for `text` with the chosen voice.
pub fn prepare_tts_call(api_key: &str, model: &str, text: &str, voice: &str) -> (r: Result<
    TtsCall,
    ApiError,
>)
    ensures
        trim(api_key@).len() == 0 <==> r matches Err(ApiError::Unauthorized),
        r is Err ==> r matches Err(ApiError::Unauthorized),
        r matches Ok(c) ==> {
            &&& c.endpoint@ == endpoint_for(model@)
            &&& c.api_key@ == trim(api_key@)
            &&& is_tts_request(c.payload, text@, voice_or_default(voice@))
        },
{
    let kc = str_to_chars(api_key);
    let key = trim_chars(kc.as_slice());
    if key.len() == 0 {
        return Err(ApiError::Unauthorized);
    }
    let vc = str_to_chars(voice);
    let v = trim_chars(vc.as_slice());
    let target = if v.len() == 0 {
        "Kore".to_owned()
    } else {
        chars_to_string(v.as_slice())
    };
    Ok(
        TtsCall {
            endpoint: get_generate_content_endpoint(model),
            api_key: chars_to_string(key.as_slice()),
            payload: GeminiGenerateContentRequest::new_tts_request(text, target.as_str()),
        },
    )
}

/// The error body of a 429 speaks of the daily quota.
pub open spec fn mentions_daily_quota(body: Seq<char>) -> bool {
    contains_seq(lowercase(body), "per day"@) || contains_seq(lowercase(body), "daily"@)
        || contains_seq(lowercase(body), "rpd"@)
}

/// The failure reported for an unsuccessful HTTP status: 401 and 403 are an invalid
/// key; 429 is the daily quota when the body says so, otherwise a rate limit with
/// the server's `retry-after`; anything else is a server error whose body has the
/// key replaced by `***REDACTED***`.
pub fn classify_http_failure(status: u16, retry_after: Option<u64>, body: &str, api_key: &str) -> (r:
    ApiError)
    requires
        api_key@.len() > 0,
    ensures
        (status == 401 || status == 403) ==> r matches ApiError::Unauthorized,
        status == 429 && mentions_daily_quota(body@) ==> r matches ApiError::RateLimitedDaily,
        status == 429 && !mentions_daily_quota(body@) ==> r == ApiError::RateLimited(retry_after),
        status != 401 && status != 403 && status != 429 ==> (r matches ApiError::ApiServerError(
            code,
            msg,
        ) && code == status && msg@ == replace_seq(body@, api_key@, "***REDACTED***"@)),
{
    if status == 401 || status == 403 {
        ApiError::Unauthorized
    } else if status == 429 {
        let bc = str_to_chars(body);
        let lower = to_lowercase_chars(bc.as_slice());
        let p1 = str_to_chars("per day");
        let p2 = str_to_chars("daily");
        let p3 = str_to_chars("rpd");
        if contains_chars(lower.as_slice(), p1.as_slice()) || contains_chars(
            lower.as_slice(),
            p2.as_slice(),
        ) || contains_chars(lower.as_slice(), p3.as_slice()) {
            ApiError::RateLimitedDaily
        } else {
            ApiError::RateLimited(retry_after)
        }
    } else {
        ApiError::ApiServerError(status, redact_key(body, api_key))
    }
}

/// The text with every occurrence of the (non-empty) key replaced by `***REDACTED***`.
pub fn redact_key(body: &str, api_key: &str) -> (r: String)
    requires
        api_key@.len() > 0,
    ensures
        r@ == replace_seq(body@, api_key@, "***REDACTED***"@),
{
    let bc = str_to_chars(body);
    let kc = str_to_chars(api_key);
    let rc = str_to_chars("***REDACTED***");
    let safe = replace_chars(bc.as_slice(), kc.as_slice(), rc.as_slice());
    chars_to_string(safe.as_slice())
}

/// The audio accepted from a successful call: fewer than 1000 bytes is taken as
/// empty or corrupt.
pub fn check_audio_size(pcm: Vec<u8>) -> (r: Result<Vec<u8>, ApiError>)
    ensures
        pcm@.len() >= 1000 ==> r == Ok::<Vec<u8>, ApiError>(pcm),
        pcm@.len() < 1000 ==> (r matches Err(ApiError::CorruptAudio(m)) && m@ == "Audio too small ("@
            + dec(pcm@.len()) + " bytes) — likely empty or corrupt"@),
{
    if pcm.len() < 1000 {
        let mut v: Vec<char> = Vec::new();
        push_str(&mut v, "Audio too small (");
        push_dec_usize(&mut v, pcm.len());
        push_str(&mut v, " bytes) — likely empty or corrupt");
        return Err(ApiError::CorruptAudio(chars_to_string(v.as_slice())));
    }
    Ok(pcm)
}

} // verus!
