use auto_tts_desktop::api::interactions_client::{
    check_audio_size, classify_http_failure, get_generate_content_endpoint, prepare_tts_call,
    sanitize_pcm_bytes, ApiError, Candidate, Content, GeminiGenerateContentRequest,
    GeminiGenerateContentResponse, InlineData, Part, DEFAULT_MODEL, FALLBACK_MODEL,
};
use auto_tts_desktop::api::interactions_client::extract_pcm_from_response;
use auto_tts_desktop::api::model_registry::ModelRegistry;
use auto_tts_desktop::api::provider::{
    estimate_tokens, gemini_synthesis_output, gemini_voices, select_synthesis_model, ProviderError,
};
use auto_tts_desktop::error::AppError;
use base64::Engine;

fn b64(data: &[u8]) -> String {
    base64::engine::general_purpose::STANDARD.encode(data)
}

fn response_with(inline: Option<InlineData>, text: Option<String>) -> GeminiGenerateContentResponse {
    GeminiGenerateContentResponse {
        candidates: Some(vec![Candidate {
            content: Some(Content { parts: vec![Part { text, inline_data: inline }] }),
            finish_reason: Some("STOP".to_string()),
        }]),
        error: None,
    }
}

#[test]
fn test_build_request_payload() {
    let req = GeminiGenerateContentRequest::new_tts_request("Xin chào Việt Nam", "Kore");
    let part = &req.contents[0].parts[0];
    let voice = &req.generation_config.speech_config.as_ref().unwrap().voice_config.prebuilt_voice_config;
    let mut parts = serde_json::Map::new();
    parts.insert("text".to_string(), serde_json::Value::from(part.text.clone().unwrap()));
    let mut pvc = serde_json::Map::new();
    pvc.insert("voiceName".to_string(), serde_json::Value::from(voice.voice_name.clone()));
    let mut gen = serde_json::Map::new();
    gen.insert(
        "responseModalities".to_string(),
        serde_json::Value::from(req.generation_config.response_modalities.clone()),
    );
    let mut vc = serde_json::Map::new();
    vc.insert("prebuiltVoiceConfig".to_string(), serde_json::Value::Object(pvc));
    gen.insert("speechConfig".to_string(), serde_json::Value::Object(vc));
    let mut root = serde_json::Map::new();
    root.insert("contents".to_string(), serde_json::Value::Object(parts));
    root.insert("generationConfig".to_string(), serde_json::Value::Object(gen));
    let json_str = serde_json::to_string(&serde_json::Value::Object(root)).expect("Failed to serialize request");
    assert!(json_str.contains("Xin chào Việt Nam"));
    assert!(json_str.contains("Kore"));
    assert!(json_str.contains("AUDIO"));
    assert!(json_str.contains("responseModalities"));
    assert!(json_str.contains("prebuiltVoiceConfig"));
}

#[test]
fn test_get_generate_content_endpoint() {
    let endpoint = get_generate_content_endpoint("gemini-3.1-flash-tts-preview");
    assert_eq!(
        endpoint,
        "https://generativelanguage.googleapis.com/v1beta/models/gemini-3.1-flash-tts-preview:generateContent"
    );
}

#[test]
fn test_extract_pcm_from_valid_response() {
    let raw_pcm = vec![1, 2, 3, 4, 5, 6, 7, 8];
    let response = response_with(
        Some(InlineData { mime_type: Some("audio/pcm".to_string()), data: b64(&raw_pcm) }),
        None,
    );
    let (extracted_pcm, mime) = extract_pcm_from_response(&response)
        .expect("Extraction should succeed for valid audio payload");
    assert_eq!(extracted_pcm, raw_pcm);
    assert_eq!(mime, "audio/pcm");
}

#[test]
fn test_extract_pcm_strips_wav_header_if_present() {
    let mut riff_wav_data = Vec::new();
    riff_wav_data.extend_from_slice(b"RIFF");
    riff_wav_data.extend_from_slice(&(44u32 + 8u32 - 8u32).to_le_bytes());
    riff_wav_data.extend_from_slice(b"WAVE");
    riff_wav_data.extend_from_slice(b"fmt ");
    riff_wav_data.extend_from_slice(&16u32.to_le_bytes());
    riff_wav_data.extend_from_slice(&1u16.to_le_bytes());
    riff_wav_data.extend_from_slice(&1u16.to_le_bytes());
    riff_wav_data.extend_from_slice(&24000u32.to_le_bytes());
    riff_wav_data.extend_from_slice(&(24000u32 * 2).to_le_bytes());
    riff_wav_data.extend_from_slice(&2u16.to_le_bytes());
    riff_wav_data.extend_from_slice(&16u16.to_le_bytes());
    riff_wav_data.extend_from_slice(b"data");
    riff_wav_data.extend_from_slice(&8u32.to_le_bytes());
    let raw_samples = vec![10u8, 20, 30, 40, 50, 60, 70, 80];
    riff_wav_data.extend_from_slice(&raw_samples);

    let response = response_with(
        Some(InlineData { mime_type: Some("audio/wav".to_string()), data: b64(&riff_wav_data) }),
        None,
    );
    let (extracted_pcm, mime) = extract_pcm_from_response(&response)
        .expect("Extraction should succeed and strip header");
    assert_eq!(extracted_pcm, raw_samples);
    assert_eq!(mime, "audio/wav");
}

#[test]
fn test_extract_pcm_missing_audio_returns_error() {
    let response = response_with(None, Some("Text only response".to_string()));
    let res = extract_pcm_from_response(&response);
    assert!(matches!(res, Err(ApiError::MissingAudio)));
}

#[test]
fn extract_pcm_default_mime_and_bad_base64() {
    let ok = response_with(Some(InlineData { mime_type: None, data: b64(&[9, 9]) }), None);
    let (pcm, mime) = extract_pcm_from_response(&ok).unwrap();
    assert_eq!(pcm, vec![9, 9]);
    assert_eq!(mime, "audio/pcm");
    let bad = response_with(Some(InlineData { mime_type: None, data: "!!!".to_string() }), None);
    assert!(matches!(extract_pcm_from_response(&bad), Err(ApiError::Base64DecodeError(_))));
    let none = GeminiGenerateContentResponse { candidates: None, error: None };
    assert!(matches!(extract_pcm_from_response(&none), Err(ApiError::MissingAudio)));
}

#[test]
fn sanitize_without_data_chunk_strips_44_bytes() {
    let mut b = Vec::new();
    b.extend_from_slice(b"RIFF");
    b.extend_from_slice(&[0, 0, 0, 0]);
    b.extend_from_slice(b"WAVE");
    b.extend_from_slice(b"LIST");
    b.extend_from_slice(&100u32.to_le_bytes());
    b.extend_from_slice(&[7u8; 40]);
    let out = sanitize_pcm_bytes(b.clone());
    assert_eq!(out, b[44..].to_vec());
    let plain = vec![1u8, 2, 3];
    assert_eq!(sanitize_pcm_bytes(plain.clone()), plain);
}

#[test]
fn test_api_error_formatting() {
    let err1 = ApiError::RateLimited(Some(60));
    assert!(err1.to_string().contains("429"));
    assert!(err1.to_string().contains("60"));

    let err2 = ApiError::Unauthorized;
    assert!(err2.to_string().contains("unauthorized"));

    let err3 = ApiError::ApiServerError(500, "Internal Server Error".to_string());
    assert!(err3.to_string().contains("500"));
    assert!(err3.to_string().contains("Internal Server Error"));
}

#[test]
fn api_error_messages_exact() {
    assert_eq!(ApiError::RateLimited(None).to_string(), "Rate limited (429 - Retry after Nones)");
    assert_eq!(
        ApiError::TruncatedAudio { expected_ms: 10, actual_ms: 3 }.to_string(),
        "Audio appears truncated: expected ~10ms, got 3ms"
    );
}

#[test]
fn test_tts_fallback_models_exclude_text_model() {
    let model = DEFAULT_MODEL;
    let mut models_to_try = vec![model];
    if model != FALLBACK_MODEL {
        models_to_try.push(FALLBACK_MODEL);
    }
    assert!(!models_to_try.contains(&"gemini-2.5-flash"));
    assert_eq!(FALLBACK_MODEL, "gemini-2.5-flash-preview-tts");
}

#[test]
fn http_failures_are_classified() {
    assert!(matches!(classify_http_failure(401, None, "", "k"), ApiError::Unauthorized));
    assert!(matches!(classify_http_failure(403, None, "", "k"), ApiError::Unauthorized));
    assert!(matches!(
        classify_http_failure(429, Some(5), "Quota exceeded PER DAY", "k"),
        ApiError::RateLimitedDaily
    ));
    assert!(matches!(classify_http_failure(429, Some(5), "slow down", "k"), ApiError::RateLimited(Some(5))));
    match classify_http_failure(500, None, "bad key SECRETKEY here SECRETKEY", "SECRETKEY") {
        ApiError::ApiServerError(code, msg) => {
            assert_eq!(code, 500);
            assert_eq!(msg, "bad key ***REDACTED*** here ***REDACTED***");
        }
        other => panic!("unexpected {:?}", other),
    }
}

#[test]
fn tts_call_preparation() {
    assert!(matches!(prepare_tts_call("  ", "m", "t", "v"), Err(ApiError::Unauthorized)));
    let call = prepare_tts_call(" key ", "gemini-3.1-flash-tts-preview", "Xin chào", "  ").unwrap();
    assert_eq!(call.api_key, "key");
    assert!(call.endpoint.ends_with("gemini-3.1-flash-tts-preview:generateContent"));
    let voice = &call.payload.generation_config.speech_config.as_ref().unwrap().voice_config.prebuilt_voice_config;
    assert_eq!(voice.voice_name, "Kore");
}

#[test]
fn small_audio_is_corrupt() {
    match check_audio_size(vec![0u8; 10]) {
        Err(ApiError::CorruptAudio(m)) => assert_eq!(m, "Audio too small (10 bytes) — likely empty or corrupt"),
        _ => panic!("expected corrupt audio"),
    }
    assert_eq!(check_audio_size(vec![1u8; 1000]).unwrap().len(), 1000);
}

#[test]
fn model_registry_choice() {
    let reg = ModelRegistry::default();
    assert!(reg.is_model_allowed("gemini-2.5-flash-preview-tts"));
    assert!(!reg.is_model_allowed("gemini-2.5-flash"));
    assert_eq!(reg.sanitize_model_choice(Some("gemini-2.5-flash-preview-tts")), "gemini-2.5-flash-preview-tts");
    assert_eq!(reg.sanitize_model_choice(Some("other")), "gemini-3.1-flash-tts-preview");
    assert_eq!(reg.sanitize_model_choice(None), "gemini-3.1-flash-tts-preview");
}

#[test]
fn provider_helpers() {
    assert_eq!(select_synthesis_model("gemini-2.5-flash-preview-tts"), "gemini-2.5-flash-preview-tts");
    assert_eq!(select_synthesis_model(""), "gemini-3.1-flash-tts-preview");
    assert_eq!(select_synthesis_model("x"), "gemini-3.1-flash-tts-preview");
    let voices = gemini_voices();
    assert_eq!(voices.len(), 11);
    assert_eq!(voices[0].id, "Kore");
    assert_eq!(voices[10].gender, "Male");
    let out = gemini_synthesis_output(vec![1, 2]);
    assert_eq!(out.sample_rate_hz, 24000);
    assert_eq!(out.mime_type, "audio/pcm;rate=24000");
    assert_eq!(estimate_tokens(0), 0);
    assert_eq!(estimate_tokens(5), 2);
    assert_eq!(estimate_tokens(8), 2);
}

#[test]
fn provider_error_from_api_error() {
    let e = ProviderError::from_api_error(ApiError::RateLimited(Some(7)));
    assert!(e.is_rate_limit);
    assert_eq!(e.retry_after_secs, Some(7));
    assert_eq!(e.code, "RateLimited(Some(7))");
    let e2 = ProviderError::from_api_error(ApiError::NetworkError("x\"y".to_string()));
    assert_eq!(e2.code, "NetworkError(\"x\\\"y\")");
    assert!(!e2.is_rate_limit);
    assert_eq!(e2.message, "Network connectivity error: x\"y");
}

#[test]
fn test_app_error_serialization_contract() {
    let err = AppError::RateLimited("Rate limit exceeded".to_string());
    let resp = err.to_response();
    let mut m = serde_json::Map::new();
    m.insert("code".to_string(), serde_json::Value::from(resp.code));
    m.insert("message".to_string(), serde_json::Value::from(resp.message.clone()));
    m.insert("retryable".to_string(), serde_json::Value::from(resp.retryable));
    let json = serde_json::to_string(&serde_json::Value::Object(m)).unwrap();
    assert!(json.contains(r#""code":"RATE_LIMITED""#));
    assert!(json.contains(r#""retryable":true"#));
    assert!(json.contains(r#""message":"Rate limit exceeded""#));
}

#[test]
fn app_error_from_api_errors() {
    match AppError::from_api_error(ApiError::RateLimited(None)) {
        AppError::RateLimited(m) => {
            assert_eq!(m, "Vượt quá tần suất yêu cầu API (429). Vui lòng thử lại sau 15 giây.")
        }
        _ => panic!(),
    }
    match AppError::from_api_error(ApiError::EmptyResponse) {
        AppError::InternalError(m) => assert_eq!(m, "API returned empty text response"),
        _ => panic!(),
    }
    let e = AppError::from(String::from("boom"));
    assert_eq!(e.code(), "INTERNAL_ERROR");
    assert!(!e.is_retryable());
    assert_eq!(e.message(), "boom");
    assert!(AppError::Queue(String::new()).is_retryable());
}
