//! The speech models the studio offers, and the check of a model name.
use vstd::prelude::*;
use crate::textseq::{chars_to_string, push_str, str_eq, str_to_chars, trim, trim_chars};

verus! {

pub const MODEL_GEMINI_31_FLASH_TTS: &'static str = "gemini-3.1-flash-tts-preview";

pub const MODEL_GEMINI_25_FLASH_TTS: &'static str = "gemini-2.5-flash-preview-tts";

/// Release stage of a model.
#[derive(Debug, Clone, Copy, PartialEq, Eq, Structural)]
pub enum ModelLifecycle {
    Preview,
    Stable,
    Deprecated,
}

/// A speech model offered to the user.
#[derive(Debug)]
pub struct TtsModelDescriptor {
    pub id: String,
    pub display_name: String,
    pub supports_single_speaker: bool,
    pub supports_multi_speaker: bool,
    pub max_input_tokens: Option<u32>,
    pub lifecycle: ModelLifecycle,
}

/// The catalogue: Gemini 3.1 Flash TTS (multi-speaker, 8192 tokens), then Gemini
/// 2.5 Flash TTS (single speaker, 4096 tokens), both in preview.
pub fn list_available_models() -> (r: Vec<TtsModelDescriptor>)
    ensures
        r@.len() == 2,
        r@[0].id@ == MODEL_GEMINI_31_FLASH_TTS@,
        r@[0].display_name@ == "Gemini 3.1 Flash TTS Preview"@,
        r@[0].supports_single_speaker && r@[0].supports_multi_speaker,
        r@[0].max_input_tokens == Some(8192u32),
        r@[0].lifecycle == ModelLifecycle::Preview,
        r@[1].id@ == MODEL_GEMINI_25_FLASH_TTS@,
        r@[1].display_name@ == "Gemini 2.5 Flash TTS Preview"@,
        r@[1].supports_single_speaker && !r@[1].supports_multi_speaker,
        r@[1].max_input_tokens == Some(4096u32),
        r@[1].lifecycle == ModelLifecycle::Preview,
{
    let mut v: Vec<TtsModelDescriptor> = Vec::new();
    v.push(
        TtsModelDescriptor {
            id: MODEL_GEMINI_31_FLASH_TTS.to_owned(),
            display_name: "Gemini 3.1 Flash TTS Preview".to_owned(),
            supports_single_speaker: true,
            supports_multi_speaker: true,
            max_input_tokens: Some(8192),
            lifecycle: ModelLifecycle::Preview,
        },
    );
    v.push(
        TtsModelDescriptor {
            id: MODEL_GEMINI_25_FLASH_TTS.to_owned(),
            display_name: "Gemini 2.5 Flash TTS Preview".to_owned(),
            supports_single_speaker: true,
            supports_multi_speaker: false,
            max_input_tokens: Some(4096),
            lifecycle: ModelLifecycle::Preview,
        },
    );
    v
}

/// The message for a model name that is not offered.
pub open spec fn unsupported_model_message(model: Seq<char>) -> Seq<char> {
    "TTS Model '"@ + model + "' không được hỗ trợ. Các model hỗ trợ: ['"@
        + MODEL_GEMINI_31_FLASH_TTS@ + "', '"@ + MODEL_GEMINI_25_FLASH_TTS@ + "']"@
}

/// A model name, trimmed, names one of the offered models.
pub open spec fn is_supported_model(model: Seq<char>) -> bool {
    trim(model) == MODEL_GEMINI_31_FLASH_TTS@ || trim(model) == MODEL_GEMINI_25_FLASH_TTS@
}

/// Accepts the (trimmed) name of an offered model.
pub fn validate_tts_model(model: &str) -> (r: Result<(), String>)
    ensures
        r is Ok <==> is_supported_model(model@),
        r matches Err(e) ==> e@ == unsupported_model_message(model@),
{
    let chars = str_to_chars(model);
    let t = trim_chars(chars.as_slice());
    let ts = chars_to_string(t.as_slice());
    if str_eq(ts.as_str(), MODEL_GEMINI_31_FLASH_TTS) || str_eq(ts.as_str(), MODEL_GEMINI_25_FLASH_TTS) {
        Ok(())
    } else {
        let mut v: Vec<char> = Vec::new();
        push_str(&mut v, "TTS Model '");
        push_str(&mut v, model);
        push_str(&mut v, "' không được hỗ trợ. Các model hỗ trợ: ['");
        push_str(&mut v, MODEL_GEMINI_31_FLASH_TTS);
        push_str(&mut v, "', '");
        push_str(&mut v, MODEL_GEMINI_25_FLASH_TTS);
        push_str(&mut v, "']");
        Err(chars_to_string(v.as_slice()))
    }
}

} // verus!
