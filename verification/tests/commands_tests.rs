use auto_tts_desktop::api::interactions_client::redact_key;
use auto_tts_desktop::commands::api_commands::{connection_test_outcome, preview_duration_ms};
use auto_tts_desktop::commands::project_commands::{chunk_mode_or_auto, validate_new_project};
use auto_tts_desktop::commands::settings_commands::{clamp_concurrency, quota_metrics_from, stored_concurrency, QuotaMetrics};
use auto_tts_desktop::commands::translate_commands::{clean_model_answer, polish_prompt, translation_prompt};
use auto_tts_desktop::error::AppError;
use auto_tts_desktop::storage::audio_cache::AudioCache;
use auto_tts_desktop::storage::project_repo::{merge_target, merged_segment_text, move_target, split_segment_texts};
use auto_tts_desktop::text::file_parser::{DocumentKind, DocumentParser};

#[test]
fn split_at_byte_boundary_and_by_character() {
    // "Xin chào" + " bạn": byte offset 10 is after "Xin chào" (à takes two bytes).
    let (a, b) = split_segment_texts("Xin chào bạn", 10).unwrap();
    assert_eq!((a.as_str(), b.as_str()), ("Xin chào", "bạn"));
    // Offset 7 falls inside "à": the cut is before character number 7.
    let (a, b) = split_segment_texts("Xin chào bạn", 7).unwrap();
    assert_eq!((a.as_str(), b.as_str()), ("Xin chà", "o bạn"));
}

#[test]
fn split_refuses_an_empty_part() {
    assert_eq!(split_segment_texts("Một câu", 0), Err("Split index produces empty segment text".to_string()));
    assert_eq!(split_segment_texts("Một câu", 100), Err("Split index produces empty segment text".to_string()));
    assert_eq!(split_segment_texts("Một   ", 3), Err("Split index produces empty segment text".to_string()));
}

#[test]
fn merged_text_joins_trimmed_lines() {
    assert_eq!(merged_segment_text("  Câu một. ", "\nCâu hai.  "), "Câu một.\nCâu hai.");
}

#[test]
fn move_target_up_and_down() {
    assert_eq!(move_target(3, 5, "up"), Some(2));
    assert_eq!(move_target(1, 5, "up"), None);
    assert_eq!(move_target(3, 5, "down"), Some(4));
    assert_eq!(move_target(5, 5, "down"), None);
    assert_eq!(move_target(2, 5, "sideways"), Some(3));
}

#[test]
fn merge_target_of_first_segment() {
    assert_eq!(merge_target(1), Err("Cannot merge: this is the first segment".to_string()));
    assert_eq!(merge_target(0), Err("Cannot merge: this is the first segment".to_string()));
    assert_eq!(merge_target(4), Ok(3));
}

#[test]
fn concurrency_is_clamped() {
    assert_eq!(clamp_concurrency(0), 1);
    assert_eq!(clamp_concurrency(3), 3);
    assert_eq!(clamp_concurrency(9), 5);
    assert_eq!(stored_concurrency(None), 1);
    assert_eq!(stored_concurrency(Some(7)), 5);
    assert_eq!(stored_concurrency(Some(2)), 2);
}

#[test]
fn eviction_takes_least_recent_entries_until_enough_is_freed() {
    // 1000 bytes cached, limit 600: 400 must go; 100 + 250 is not enough, 100 + 250 + 300 is.
    assert_eq!(AudioCache::eviction_count(&[100, 250, 300, 350], 1000, 600), 3);
    assert_eq!(AudioCache::eviction_count(&[500, 250], 750, 600), 1);
    assert_eq!(AudioCache::eviction_count(&[100, 250], 1000, 1000), 0);
    assert_eq!(AudioCache::eviction_count(&[10, 20], 1000, 100), 2);
    assert_eq!(AudioCache::eviction_count(&[], 1000, 100), 0);
}

#[test]
fn eviction_brings_the_cache_within_its_limit() {
    let sizes = [120u64, 80, 400, 60, 340];
    let total: u64 = sizes.iter().sum();
    for max in [0u64, 100, 500, 900, 1000, 2000] {
        let k = AudioCache::eviction_count(&sizes, total, max);
        let freed: u64 = sizes[..k].iter().sum();
        assert!(total - freed <= max);
        if k > 0 {
            let one_fewer: u64 = sizes[..k - 1].iter().sum();
            assert!(total - one_fewer > max);
        }
    }
}

#[test]
fn connection_test_answers() {
    assert_eq!(
        connection_test_outcome(200, "", "k"),
        Ok("✅ API Key hợp lệ! Kết nối Google Gemini API siêu tốc thành công!".to_string())
    );
    assert_eq!(
        connection_test_outcome(403, "", "k"),
        Err("❌ API Key không hợp lệ hoặc đã bị vô hiệu hóa (HTTP 400/401/403)".to_string())
    );
    assert_eq!(
        connection_test_outcome(429, "", "k"),
        Err("⚠️ Quá giới hạn lượt gọi API (Rate Limited - 429). Vui lòng thử lại sau vài giây.".to_string())
    );
    assert_eq!(
        connection_test_outcome(500, "bad key AIzaXYZ here", " AIzaXYZ "),
        Err("Lỗi Google API (HTTP 500): bad key ***REDACTED*** here".to_string())
    );
}

#[test]
fn preview_duration_of_pcm() {
    assert_eq!(preview_duration_ms(48_000), 1000);
    assert_eq!(preview_duration_ms(47_999), 999);
    assert_eq!(preview_duration_ms(0), 0);
}

#[test]
fn key_is_redacted_everywhere() {
    assert_eq!(redact_key("k1 and k1", "k1"), "***REDACTED*** and ***REDACTED***");
    assert_eq!(redact_key("nothing", "k1"), "nothing");
}

#[test]
fn translation_and_polish_prompts() {
    assert_eq!(
        translation_prompt("Xin chào", "English"),
        Ok("Bạn là một biên dịch viên chuyên nghiệp. Hãy dịch toàn bộ đoạn văn bản sau sang English. Chỉ trả về duy nhất bản dịch kết quả, không thêm lời chào hay giải thích:\n\nXin chào".to_string())
    );
    assert_eq!(translation_prompt("   ", "English"), Err("Văn bản rỗng, vui lòng nhập nội dung cần dịch".to_string()));
    assert!(polish_prompt("abc").unwrap().ends_with("Chỉ trả về duy nhất văn bản đã tối ưu:\n\nabc"));
    assert_eq!(polish_prompt(""), Err("Văn bản rỗng, vui lòng nhập nội dung cần tối ưu".to_string()));
    assert_eq!(clean_model_answer("  Hello \n"), "Hello");
}

#[test]
fn new_project_checks_and_model_choice() {
    assert_eq!(
        validate_new_project("Dự án", "Nội dung", "Kore", "Tự nhiên", Some("auto"), None).ok(),
        Some("gemini-3.1-flash-tts-preview".to_string())
    );
    assert_eq!(
        validate_new_project("Dự án", "Nội dung", "Kore", "", None, Some("gemini-2.5-flash-preview-tts")).ok(),
        Some("gemini-2.5-flash-preview-tts".to_string())
    );
    assert_eq!(
        validate_new_project("Dự án", "Nội dung", "Kore", "", None, Some("  ")).ok(),
        Some("gemini-3.1-flash-tts-preview".to_string())
    );
    assert!(matches!(
        validate_new_project("", "Nội dung", "Kore", "", None, None),
        Err(AppError::ValidationFailed(_))
    ));
    assert!(matches!(
        validate_new_project("Dự án", "Nội dung", "Kore", "", Some("bogus"), None),
        Err(AppError::ValidationFailed(_))
    ));
    assert!(matches!(
        validate_new_project("Dự án", "Nội dung", "Kore", "", None, Some("gpt-4")),
        Err(AppError::ValidationFailed(_))
    ));
    assert_eq!(chunk_mode_or_auto(None), "auto");
    assert_eq!(chunk_mode_or_auto(Some("sentence")), "sentence");
}

#[test]
fn document_kinds_and_content() {
    assert_eq!(DocumentParser::kind_of_extension("TXT"), DocumentKind::Text);
    assert_eq!(DocumentParser::kind_of_extension("Md"), DocumentKind::Text);
    assert_eq!(DocumentParser::kind_of_extension("pdf"), DocumentKind::Refused);
    assert_eq!(DocumentParser::kind_of_extension("rtf"), DocumentKind::Other);
    assert_eq!(DocumentParser::clean_content("\u{feff}Xin chào"), "Xin chào");
    assert_eq!(DocumentParser::clean_content("Xin chào"), "Xin chào");
    assert_eq!(
        DocumentParser::read_error_message(DocumentKind::Other, "rtf", "bad"),
        "Không hỗ trợ định dạng .rtf hoặc lỗi đọc file: bad"
    );
    assert_eq!(
        DocumentParser::read_error_message(DocumentKind::Text, "txt", "bad"),
        "Lỗi đọc file văn bản (Yêu cầu mã hóa UTF-8): bad"
    );
}

#[test]
fn split_then_merge_keeps_the_words() {
    let text = "  Một câu dài,  được tách ra\tở giữa. ";
    for idx in [3usize, 10, 20, 25] {
        if let Ok((a, b)) = split_segment_texts(text, idx) {
            let merged = merged_segment_text(&a, &b);
            let squash = |s: &str| s.chars().filter(|c| !c.is_whitespace()).collect::<String>();
            assert_eq!(squash(&merged), squash(text));
        }
    }
}

fn stored_usage() -> QuotaMetrics {
    QuotaMetrics {
        today_requests: 4,
        today_chars: 400,
        today_rate_limits: 1,
        avg_latency_ms: 850,
        total_requests: 40,
        total_chars: 4000,
    }
}

#[test]
fn quota_metrics_add_live_counters_to_the_record() {
    let m = quota_metrics_from(Some(stored_usage()), 2, 150, 3);
    assert_eq!(
        m,
        QuotaMetrics {
            today_requests: 6,
            today_chars: 550,
            today_rate_limits: 4,
            avg_latency_ms: 850,
            total_requests: 42,
            total_chars: 4150,
        }
    );
}

#[test]
fn quota_metrics_without_live_requests_keep_the_record() {
    // Rate-limit hits alone are not added while no request was counted.
    assert_eq!(quota_metrics_from(Some(stored_usage()), 0, 0, 5), stored_usage());
}

#[test]
fn quota_metrics_without_a_record_use_the_counters() {
    let m = quota_metrics_from(None, 7, 700, 2);
    assert_eq!(
        m,
        QuotaMetrics {
            today_requests: 7,
            today_chars: 700,
            today_rate_limits: 2,
            avg_latency_ms: 0,
            total_requests: 7,
            total_chars: 700,
        }
    );
}
