//! The prompts that ask the text model to translate or polish a text.
use vstd::prelude::*;
use crate::textseq::{chars_to_string, push_str, str_to_chars, trim, trim_chars};

verus! {

/// The translation prompt for `text` into `target_lang`.
pub open spec fn translate_prompt_text(text: Seq<char>, target_lang: Seq<char>) -> Seq<char> {
    "Bạn là một biên dịch viên chuyên nghiệp. Hãy dịch toàn bộ đoạn văn bản sau sang "@ + target_lang
        + ". Chỉ trả về duy nhất bản dịch kết quả, không thêm lời chào hay giải thích:\n\n"@ + text
}

/// The polishing prompt for `text`.
pub open spec fn polish_prompt_text(text: Seq<char>) -> Seq<char> {
    "Bạn là một biên tập viên kịch bản giọng đọc TTS chuyên nghiệp. Hãy chỉnh sửa văn bản sau cho chuẩn tiếng Việt: sửa lỗi chính tả, thêm đầy đủ dấu chấm câu, chuẩn hóa từ ngữ giúp AI đọc giọng nói tự nhiên và mượt mà nhất. Chỉ trả về duy nhất văn bản đã tối ưu:\n\n"@
        + text
}

/// The prompt asking for a translation; a blank text is refused.
pub fn translation_prompt(text: &str, target_lang: &str) -> (r: Result<String, String>)
    ensures
        trim(text@).len() == 0 ==> (r matches Err(m) && m@
            == "Văn bản rỗng, vui lòng nhập nội dung cần dịch"@),
        trim(text@).len() > 0 ==> (r matches Ok(p) && p@ == translate_prompt_text(text@, target_lang@)),
{
    let cs = str_to_chars(text);
    if trim_chars(cs.as_slice()).len() == 0 {
        return Err("Văn bản rỗng, vui lòng nhập nội dung cần dịch".to_owned());
    }
    let mut v: Vec<char> = Vec::new();
    push_str(&mut v, "Bạn là một biên dịch viên chuyên nghiệp. Hãy dịch toàn bộ đoạn văn bản sau sang ");
    push_str(&mut v, target_lang);
    push_str(&mut v, ". Chỉ trả về duy nhất bản dịch kết quả, không thêm lời chào hay giải thích:\n\n");
    push_str(&mut v, text);
    Ok(chars_to_string(v.as_slice()))
}

/// The prompt asking to polish a text for reading aloud; a blank text is refused.
pub fn polish_prompt(text: &str) -> (r: Result<String, String>)
    ensures
        trim(text@).len() == 0 ==> (r matches Err(m) && m@
            == "Văn bản rỗng, vui lòng nhập nội dung cần tối ưu"@),
        trim(text@).len() > 0 ==> (r matches Ok(p) && p@ == polish_prompt_text(text@)),
{
    let cs = str_to_chars(text);
    if trim_chars(cs.as_slice()).len() == 0 {
        return Err("Văn bản rỗng, vui lòng nhập nội dung cần tối ưu".to_owned());
    }
    let mut v: Vec<char> = Vec::new();
    push_str(
        &mut v,
        "Bạn là một biên tập viên kịch bản giọng đọc TTS chuyên nghiệp. Hãy chỉnh sửa văn bản sau cho chuẩn tiếng Việt: sửa lỗi chính tả, thêm đầy đủ dấu chấm câu, chuẩn hóa từ ngữ giúp AI đọc giọng nói tự nhiên và mượt mà nhất. Chỉ trả về duy nhất văn bản đã tối ưu:\n\n",
    );
    push_str(&mut v, text);
    Ok(chars_to_string(v.as_slice()))
}

/// The answer of the text model, trimmed.
pub fn clean_model_answer(answer: &str) -> (r: String)
    ensures
        r@ == trim(answer@),
{
    let cs = str_to_chars(answer);
    chars_to_string(trim_chars(cs.as_slice()).as_slice())
}

} // verus!
