//! Documents the user imports: which extensions are read as text, the messages
//! when reading fails, and the removal of a byte-order mark.
use vstd::prelude::*;
use crate::textseq::{chars_to_string, lowercase, push_str, str_eq, str_to_chars, sub_chars, to_lowercase_chars};

verus! {

/// Reader of imported documents.
pub struct DocumentParser;

/// How a document is treated, by its extension.
#[derive(Debug, Clone, Copy, PartialEq, Eq, Structural)]
pub enum DocumentKind {
    /// `txt`, `md`, `json`, `srt`, `vtt`: read as UTF-8 text.
    Text,
    /// `docx`, `pdf`: refused.
    Refused,
    /// Anything else: read as UTF-8 text when possible.
    Other,
}

pub open spec fn document_kind(ext: Seq<char>) -> DocumentKind {
    let l = lowercase(ext);
    if l == "txt"@ || l == "md"@ || l == "json"@ || l == "srt"@ || l == "vtt"@ {
        DocumentKind::Text
    } else if l == "docx"@ || l == "pdf"@ {
        DocumentKind::Refused
    } else {
        DocumentKind::Other
    }
}

/// The message for a refused document.
pub open spec fn refused_message() -> Seq<char> {
    "Ứng dụng đã chuyển sang hỗ trợ chuẩn các file văn bản thuần (.txt, .md). Vui lòng lưu tài liệu dưới dạng file .txt hoặc .md UTF-8 để đảm bảo đọc chính xác 100%."@
}

/// The text without a leading byte-order mark.
pub open spec fn without_bom(s: Seq<char>) -> Seq<char> {
    if s.len() > 0 && s[0] == '\u{feff}' {
        s.skip(1)
    } else {
        s
    }
}

impl DocumentParser {
    /// How a document with this extension (any case; empty when it has none) is treated.
    pub fn kind_of_extension(ext: &str) -> (r: DocumentKind)
        ensures
            r == document_kind(ext@),
    {
        let cs = str_to_chars(ext);
        let lc = to_lowercase_chars(cs.as_slice());
        let l = chars_to_string(lc.as_slice());
        let ls = l.as_str();
        if str_eq(ls, "txt") || str_eq(ls, "md") || str_eq(ls, "json") || str_eq(ls, "srt") || str_eq(
            ls,
            "vtt",
        ) {
            DocumentKind::Text
        } else if str_eq(ls, "docx") || str_eq(ls, "pdf") {
            DocumentKind::Refused
        } else {
            DocumentKind::Other
        }
    }

    /// The message for a document that is refused.
    pub fn refused_document_message() -> (r: String)
        ensures
            r@ == refused_message(),
    {
        "Ứng dụng đã chuyển sang hỗ trợ chuẩn các file văn bản thuần (.txt, .md). Vui lòng lưu tài liệu dưới dạng file .txt hoặc .md UTF-8 để đảm bảo đọc chính xác 100%.".to_owned()
    }

    /// The message when reading a document fails, by its kind.
    pub fn read_error_message(kind: DocumentKind, ext_lower: &str, error: &str) -> (r: String)
        ensures
            kind == DocumentKind::Other ==> r@ == "Không hỗ trợ định dạng ."@ + ext_lower@
                + " hoặc lỗi đọc file: "@ + error@,
            kind != DocumentKind::Other ==> r@ == "Lỗi đọc file văn bản (Yêu cầu mã hóa UTF-8): "@
                + error@,
    {
        let mut v: Vec<char> = Vec::new();
        if kind == DocumentKind::Other {
            push_str(&mut v, "Không hỗ trợ định dạng .");
            push_str(&mut v, ext_lower);
            push_str(&mut v, " hoặc lỗi đọc file: ");
        } else {
            push_str(&mut v, "Lỗi đọc file văn bản (Yêu cầu mã hóa UTF-8): ");
        }
        push_str(&mut v, error);
        chars_to_string(v.as_slice())
    }

    /// The content of a document without its byte-order mark.
    pub fn clean_content(content: &str) -> (r: String)
        ensures
            r@ == without_bom(content@),
    {
        let cs = str_to_chars(content);
        if cs.len() > 0 && cs[0] == '\u{feff}' {
            chars_to_string(sub_chars(cs.as_slice(), 1, cs.len()).as_slice())
        } else {
            chars_to_string(cs.as_slice())
        }
    }

    /// The message for a path where no file exists; `path_debug` is the path as
    /// `{:?}` prints it.
    pub fn missing_file_message(path_debug: &str) -> (r: String)
        ensures
            r@ == "File không tồn tại tại đường dẫn: "@ + path_debug@,
    {
        let mut v: Vec<char> = Vec::new();
        push_str(&mut v, "File không tồn tại tại đường dẫn: ");
        push_str(&mut v, path_debug);
        chars_to_string(v.as_slice())
    }
}

} // verus!
