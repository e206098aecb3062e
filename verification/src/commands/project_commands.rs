//! The checks made before a project is created or re-chunked.
use vstd::prelude::*;
use crate::error::AppError;
use crate::models::registry::{is_supported_model, unsupported_model_message, validate_tts_model, MODEL_GEMINI_31_FLASH_TTS};
use crate::security::input_validation::{
    has_forbidden_control, is_chunk_mode, validate_chunk_mode, validate_preset, validate_project_name,
    validate_source_text, validate_voice,
};
use crate::textseq::{str_to_chars, trim, trim_chars};

verus! {

/// The inputs of a new project are acceptable.
pub open spec fn project_input_ok(
    name: Seq<char>,
    source: Seq<char>,
    voice: Seq<char>,
    preset: Seq<char>,
    chunk_mode: Option<Seq<char>>,
) -> bool {
    &&& 0 < trim(name).len() <= 255 && !has_forbidden_control(trim(name))
    &&& 0 < trim(source).len() <= 500_000
    &&& 0 < trim(voice).len() <= 64
    &&& trim(preset).len() <= 64
    &&& (chunk_mode matches Some(m) ==> is_chunk_mode(m))
}

/// The model a new project uses: the requested one when it is not blank (it must
/// be offered), otherwise Gemini 3.1 Flash TTS.
pub open spec fn chosen_model(model: Option<Seq<char>>) -> Option<Seq<char>> {
    match model {
        Some(m) => if trim(m).len() == 0 {
            Some(MODEL_GEMINI_31_FLASH_TTS@)
        } else if is_supported_model(m) {
            Some(m)
        } else {
            None
        },
        None => Some(MODEL_GEMINI_31_FLASH_TTS@),
    }
}

/// The first problem found with the inputs of a new project, in the order the
/// checks run (name, source text, voice, preset, chunk mode, model).
pub open spec fn new_project_problem(
    name: Seq<char>,
    source: Seq<char>,
    voice: Seq<char>,
    preset: Seq<char>,
    chunk_mode: Option<Seq<char>>,
    model: Option<Seq<char>>,
) -> Option<Seq<char>> {
    if trim(name).len() == 0 {
        Some("Tên dự án không được để trống"@)
    } else if trim(name).len() > 255 {
        Some("Tên dự án vượt quá giới hạn 255 ký tự"@)
    } else if has_forbidden_control(trim(name)) {
        Some("Tên dự án chứa ký tự không hợp lệ"@)
    } else if trim(source).len() == 0 {
        Some("Văn bản nguồn không được để trống"@)
    } else if trim(source).len() > 500_000 {
        Some("Văn bản nguồn quá dài (tối đa 500.000 ký tự)"@)
    } else if trim(voice).len() == 0 {
        Some("Chưa chọn giọng đọc"@)
    } else if trim(voice).len() > 64 {
        Some("Tên giọng đọc không hợp lệ"@)
    } else if trim(preset).len() > 64 {
        Some("Tên preset không hợp lệ"@)
    } else if (chunk_mode matches Some(m) && !is_chunk_mode(m)) {
        Some("Chế độ phân đoạn (chunk_mode) không hợp lệ"@)
    } else {
        match model {
            Some(m) => if trim(m).len() > 0 && !is_supported_model(m) {
                Some(unsupported_model_message(m))
            } else {
                None
            },
            None => None,
        }
    }
}

/// Checks the inputs of a new project in order (name, source text, voice, preset,
/// chunk mode, model) and gives the model it will use.
pub fn validate_new_project(
    name: &str,
    source_text: &str,
    voice: &str,
    preset: &str,
    chunk_mode: Option<&str>,
    model: Option<&str>,
) -> (r: Result<String, AppError>)
    ensures
        r is Ok <==> project_input_ok(
            name@,
            source_text@,
            voice@,
            preset@,
            match chunk_mode {
                Some(m) => Some(m@),
                None => None,
            },
        ) && chosen_model(
            match model {
                Some(m) => Some(m@),
                None => None,
            },
        ) is Some,
        r matches Ok(m) ==> Some(m@) == chosen_model(
            match model {
                Some(m) => Some(m@),
                None => None,
            },
        ),
        r is Err ==> r matches Err(AppError::ValidationFailed(_)),
        match new_project_problem(
            name@,
            source_text@,
            voice@,
            preset@,
            match chunk_mode {
                Some(m) => Some(m@),
                None => None,
            },
            match model {
                Some(m) => Some(m@),
                None => None,
            },
        ) {
            Some(m) => r matches Err(AppError::ValidationFailed(e)) && e@ == m,
            None => r is Ok,
        },
{
    match validate_project_name(name) {
        Err(e) => {
            return Err(AppError::ValidationFailed(e));
        },
        Ok(()) => {},
    }
    match validate_source_text(source_text) {
        Err(e) => {
            return Err(AppError::ValidationFailed(e));
        },
        Ok(()) => {},
    }
    match validate_voice(voice) {
        Err(e) => {
            return Err(AppError::ValidationFailed(e));
        },
        Ok(()) => {},
    }
    match validate_preset(preset) {
        Err(e) => {
            return Err(AppError::ValidationFailed(e));
        },
        Ok(()) => {},
    }
    match validate_chunk_mode(chunk_mode) {
        Err(e) => {
            return Err(AppError::ValidationFailed(e));
        },
        Ok(()) => {},
    }
    match model {
        Some(m) => {
            let mc = str_to_chars(m);
            let t = trim_chars(mc.as_slice());
            if t.len() == 0 {
                Ok(MODEL_GEMINI_31_FLASH_TTS.to_owned())
            } else {
                match validate_tts_model(m) {
                    Err(e) => Err(AppError::ValidationFailed(e)),
                    Ok(()) => Ok(m.to_owned()),
                }
            }
        },
        None => Ok(MODEL_GEMINI_31_FLASH_TTS.to_owned()),
    }
}

/// The chunk mode used: the requested one, or `auto`.
pub fn chunk_mode_or_auto(mode: Option<&str>) -> (r: &str)
    ensures
        r@ == match mode {
            Some(m) => m@,
            None => "auto"@,
        },
{
    match mode {
        Some(m) => m,
        None => "auto",
    }
}

} // verus!
