use auto_tts_desktop::text::chunker::{chunk_vietnamese_text_by_mode, ChunkConfig, VietnameseChunker};
use auto_tts_desktop::text::dialogue_parser::{DialogueParser, SpeakerRole};
use auto_tts_desktop::text::fingerprint::{digest_hex, fingerprint_v1, fingerprint_v2_of_serialized, SegmentFingerprintV2};
use auto_tts_desktop::text::lrc_exporter::{lrc_segments_of, LrcExporter, LrcSegment};
use auto_tts_desktop::text::normalizer::VietnameseNormalizer;
use auto_tts_desktop::text::prompt_builder::{
    build_tts_prompt, parse_ssml_to_prompt, DirectorNotes, PromptBuilder, PromptStyle, PromptStyleOptions,
};
use auto_tts_desktop::text::srt_exporter::{format_srt_timestamp, generate_srt_subtitles, timeline_in_range};
use auto_tts_desktop::text::vtt_exporter::{format_vtt_timestamp, generate_vtt_subtitles};
use auto_tts_desktop::storage::project_repo::SegmentRecord;
use auto_tts_desktop::models::segment::SegmentStatus;

// ---------------------------------------------------------------- prompt builder

#[test]
fn test_parse_ssml_tags() {
    let ssml = r#"<speak>Xin chào <break time="500ms"/> các bạn <emphasis level="strong">tiếng Việt</emphasis> rất đẹp.</speak>"#;
    let (_notes, transcript) = parse_ssml_to_prompt(ssml);

    assert!(transcript.contains("[Pause 500ms]"));
    assert!(transcript.contains("[Emphasize: tiếng Việt]"));
    assert!(!transcript.contains("<speak>"));
}

#[test]
fn test_prompt_builder_tagged_style() {
    let builder = PromptBuilder::new()
        .with_voice_name("Kore")
        .with_tone("Truyền cảm")
        .with_speed("Vừa phải")
        .with_accent("Miền Nam")
        .with_emotion("Ấm áp")
        .with_custom_instructions("Ngắt nghỉ rõ ràng")
        .with_style(PromptStyle::Tagged);

    let transcript = "Xin chào quý vị khán giả.";
    let prompt = builder.build_prompt(transcript);

    assert!(prompt.contains("[DIRECTOR NOTES]"));
    assert!(prompt.contains("Voice: Kore"));
    assert!(prompt.contains("Tone: Truyền cảm"));
    assert!(prompt.contains("Speed: Vừa phải"));
    assert!(prompt.contains("Accent: Miền Nam"));
    assert!(prompt.contains("Emotion: Ấm áp"));
    assert!(prompt.contains("Instructions: Ngắt nghỉ rõ ràng"));
    assert!(prompt.contains("[TRANSCRIPT]"));
    assert!(prompt.contains("Xin chào quý vị khán giả."));
}

#[test]
fn test_prompt_builder_xml_style() {
    let builder = PromptBuilder::new()
        .with_voice_name("Puck")
        .with_tone("Hào hứng")
        .with_style(PromptStyle::Xml);

    let transcript = "Chào mừng các bạn quay trở lại!";
    let prompt = builder.build_prompt(transcript);

    assert!(prompt.contains("<director_notes>"));
    assert!(prompt.contains("Voice: Puck"));
    assert!(prompt.contains("Tone: Hào hứng"));
    assert!(prompt.contains("</director_notes>"));
    assert!(prompt.contains("<transcript>"));
    assert!(prompt.contains("Chào mừng các bạn quay trở lại!"));
    assert!(prompt.contains("</transcript>"));
}

#[test]
fn test_prompt_builder_markdown_style() {
    let builder = PromptBuilder::new()
        .with_tone("Trang trọng")
        .with_style(PromptStyle::Markdown);

    let transcript = "Kính chào quý đại biểu.";
    let prompt = builder.build_prompt(transcript);

    assert!(prompt.contains("# Director Notes"));
    assert!(prompt.contains("- **Tone**: Trang trọng"));
    assert!(prompt.contains("# Transcript"));
    assert!(prompt.contains("Kính chào quý đại biểu."));
}

#[test]
fn test_prompt_builder_chunk_metadata() {
    let builder = PromptBuilder::new()
        .with_voice_name("Fenrir")
        .with_style(PromptStyle::Tagged);

    let transcript = "Đoạn văn bản của phần thứ nhất.";
    let prompt = builder.build_chunk_prompt(transcript, Some((0, 3)));

    assert!(prompt.contains("Chunk: 1/3"));
    assert!(prompt.contains("Voice: Fenrir"));
    assert!(prompt.contains("Đoạn văn bản của phần thứ nhất."));
}

#[test]
fn test_empty_notes_default_fallback() {
    let builder = PromptBuilder::new();
    let prompt = builder.build_prompt("Nội dung đơn giản.");

    assert!(prompt.contains("[DIRECTOR NOTES]"));
    assert!(prompt.contains("Standard VietTTS reading mode"));
    assert!(prompt.contains("[TRANSCRIPT]"));
    assert!(prompt.contains("Nội dung đơn giản."));
}

#[test]
fn prompt_tagged_exact_layout() {
    let prompt = PromptBuilder::new().with_voice_name("Kore").build_prompt("  Chào.  ");
    assert_eq!(prompt, "[DIRECTOR NOTES]\nVoice: Kore\n\n[TRANSCRIPT]\nChào.");
}

#[test]
fn prompt_xml_and_markdown_fallbacks_exact() {
    let xml = PromptBuilder::new().with_style(PromptStyle::Xml).build_prompt("A");
    assert_eq!(
        xml,
        "<director_notes>\nStandard VietTTS reading mode.\n</director_notes>\n\n<transcript>\nA\n</transcript>"
    );
    let md = PromptBuilder::new().with_style(PromptStyle::Markdown).build_prompt("B");
    assert_eq!(md, "# Director Notes\n- Standard VietTTS reading mode.\n\n# Transcript\nB");
}

#[test]
fn prompt_chunk_info_suppresses_fallback() {
    let p = PromptBuilder::new().build_chunk_prompt("x", Some((4, 10)));
    assert_eq!(p, "[DIRECTOR NOTES]\nChunk: 5/10\n\n[TRANSCRIPT]\nx");
}

#[test]
fn prompt_builder_accessors_and_notes() {
    let mut notes = DirectorNotes::new();
    assert!(notes.is_empty());
    notes.accent = Some("Bắc".to_string());
    assert!(!notes.is_empty());
    let b = PromptBuilder::new().with_notes(notes).with_style(PromptStyle::Markdown);
    assert_eq!(b.style(), PromptStyle::Markdown);
    assert_eq!(b.director_notes().accent, Some("Bắc".to_string()));
    assert_eq!(PromptStyle::default(), PromptStyle::Tagged);
}

#[test]
fn build_tts_prompt_uses_preset_pacing_and_notes() {
    let opts = PromptStyleOptions {
        style_preset: "Tự nhiên".to_string(),
        pacing: "Chậm".to_string(),
        pronunciation_notes: Some("Đọc rõ".to_string()),
    };
    let p = build_tts_prompt(" Văn bản ", &opts);
    assert_eq!(
        p,
        "[DIRECTOR NOTES]\nTone: Tự nhiên\nSpeed: Chậm\nInstructions: Đọc rõ\n\n[TRANSCRIPT]\nVăn bản"
    );
}

#[test]
fn ssml_prosody_sets_speed_and_unwraps() {
    let (notes, text) = parse_ssml_to_prompt(
        r#"<speak><prosody rate="slow">Chậm thôi</prosody> và <prosody rate="fast">nhanh</prosody></speak>"#,
    );
    assert_eq!(notes.speed, Some("fast".to_string()));
    assert_eq!(text, "Chậm thôi và nhanh");
}

// ---------------------------------------------------------------- normalizer

#[test]
fn test_normalize_abbreviations() {
    let input = "Học sinh THPT tại TP.HCM gửi đơn lên UBND thành phố v.v...";
    let output = VietnameseNormalizer::normalize(input);
    assert!(output.contains("Trung học phổ thông"));
    assert!(output.contains("Thành phố Hồ Chí Minh"));
    assert!(output.contains("Ủy ban nhân dân"));
    assert!(output.contains("vân vân"));
}

#[test]
fn test_normalize_units() {
    let input = "Xe chạy 60km/h trong thời tiết 35°C và nặng 1500kg.";
    let output = VietnameseNormalizer::normalize(input);
    assert!(output.contains("60 ki-lô-mét trên giờ"));
    assert!(output.contains("35 độ C"));
    assert!(output.contains("1500 ki-lô-gam"));
}

#[test]
fn test_normalize_currencies_and_dates() {
    let input =
        "Giá sản phẩm là 2.500.000 VNĐ, mua vào ngày 24/07/2026 lúc 14h30 với giảm giá 15%.";
    let output = VietnameseNormalizer::normalize(input);
    assert!(output.contains("Việt Nam đồng"));
    assert!(output.contains("ngày 24 tháng 07 năm 2026"));
    assert!(output.contains("14 giờ 30 phút"));
    assert!(output.contains("15 phần trăm"));
}

#[test]
fn test_normalize_usd_and_eur() {
    let input = "Giá $50 hoặc 100 USD hoặc €20 hoặc 30 EUR.";
    let output = VietnameseNormalizer::normalize(input);
    assert!(output.contains("50 đô la Mỹ"));
    assert!(output.contains("100 đô la Mỹ"));
    assert!(output.contains("20 ơ-rô"));
    assert!(output.contains("30 ơ-rô"));
}

#[test]
fn test_normalize_roman_numerals() {
    let input = "Sống ở thế kỷ XXI vào triều đại XIX.";
    let output = VietnameseNormalizer::normalize(input);
    assert!(output.contains("thế kỷ 21"));
    assert!(output.contains("triều đại 19"));
}

#[test]
fn test_normalize_times_short() {
    let input = "Cuộc họp diễn ra lúc 8h sáng.";
    let output = VietnameseNormalizer::normalize(input);
    assert!(output.contains("8 giờ sáng"));
}

#[test]
fn normalize_leaves_plain_text_alone() {
    let input = "Trời hôm nay đẹp quá.";
    assert_eq!(VietnameseNormalizer::normalize(input), input);
}

// ---------------------------------------------------------------- subtitles

fn segment(text: &str, duration_ms: u64) -> SegmentRecord {
    SegmentRecord {
        id: "s".to_string(),
        project_id: "p".to_string(),
        position: 1,
        text: text.to_string(),
        prompt: String::new(),
        status: SegmentStatus::Success,
        attempts: 0,
        audio_path: None,
        duration_ms,
        error_code: None,
        error_message: None,
        created_at: String::new(),
        updated_at: String::new(),
        fingerprint: None,
        output_fingerprint: None,
        attempt_count: 0,
        next_retry_at: None,
        queued_at: None,
        started_at: None,
        finished_at: None,
        lease_owner: None,
        lease_expires_at: None,
        last_error_code: None,
        last_error_message: None,
        cancel_requested: false,
        state_revision: 0,
        output_size: 0,
        voice: None,
        review_status: None,
        reviewed_output_fingerprint: None,
    }
}

#[test]
fn test_format_srt_timestamp() {
    assert_eq!(format_srt_timestamp(0), "00:00:00,000");
    assert_eq!(format_srt_timestamp(1500), "00:00:01,500");
    assert_eq!(format_srt_timestamp(3661005), "01:01:01,005");
}

#[test]
fn test_format_vtt_timestamp() {
    assert_eq!(format_vtt_timestamp(0), "00:00:00.000");
    assert_eq!(format_vtt_timestamp(1500), "00:00:01.500");
}

#[test]
fn timestamp_hours_past_99() {
    assert_eq!(format_srt_timestamp(360_000_000), "100:00:00,000");
}

#[test]
fn srt_cues_follow_with_gap() {
    let segs = vec![segment(" Một ", 1000), segment("Hai", 0)];
    let srt = generate_srt_subtitles(&segs, 500, &[0, 2000]);
    assert_eq!(
        srt,
        "1\n00:00:00,000 --> 00:00:01,000\nMột\n\n2\n00:00:01,500 --> 00:00:03,500\nHai\n\n"
    );
}

#[test]
fn vtt_has_header_and_dot_separator() {
    let segs = vec![segment("Một", 1200)];
    let vtt = generate_vtt_subtitles(&segs, 0, &[0]);
    assert_eq!(
        vtt,
        "WEBVTT - Auto TTS Desktop Studio Generated\n\n1\n00:00:00.000 --> 00:00:01.200\nMột\n\n"
    );
}

#[test]
fn lrc_content_lines() {
    let segs = vec![LrcSegment { start_ms: 61_230, text: " Xin chào ".to_string() }];
    let s = LrcExporter::lrc_content(&segs, "Tựa", "Tác giả");
    assert_eq!(
        s,
        "[ti:Tựa]\n[ar:Tác giả]\n[by:Auto TTS Desktop Studio]\n[re:Gemini TTS Free Tier]\n\n[01:01.23] Xin chào\n"
    );
}

// ---------------------------------------------------------------- dialogue

#[test]
fn test_parse_dialogue() {
    let script = "Người dẫn: Xin chào quý vị.\nNhân vật: Cảm ơn bạn!";
    let segments = DialogueParser::parse_dialogue(script);
    assert_eq!(segments.len(), 2);
    assert_eq!(segments[0].speaker_label, "Người dẫn");
    assert_eq!(segments[1].speaker_label, "Nhân vật");
}

#[test]
fn dialogue_roles_and_narration() {
    let script = "MC: Chào mừng\n\n  Một đoạn kể.  \r\nBình - Tôi đây";
    let segs = DialogueParser::parse_dialogue(script);
    assert_eq!(segs.len(), 3);
    assert_eq!(segs[0].role, SpeakerRole::SpeakerA);
    assert_eq!(segs[0].spoken_text, "Chào mừng");
    assert_eq!(segs[1].role, SpeakerRole::Narrator);
    assert_eq!(segs[1].speaker_label, "Dẫn chuyện");
    assert_eq!(segs[1].spoken_text, "Một đoạn kể.");
    assert_eq!(segs[2].role, SpeakerRole::SpeakerB);
    assert_eq!(segs[2].speaker_label, "Bình");
}

#[test]
fn dialogue_long_speaker_is_narration() {
    let long = "Một người có cái tên rất là dài dòng: lời nói";
    let segs = DialogueParser::parse_dialogue(long);
    assert_eq!(segs.len(), 1);
    assert_eq!(segs[0].role, SpeakerRole::Narrator);
}

// ---------------------------------------------------------------- fingerprints

#[test]
fn test_compute_fingerprint_deterministic() {
    let r = format!("{:.2}", 1.0f32);
    let z = format!("{:.2}", 0.0f32);
    let f1 = fingerprint_v1("Xin chào Việt Nam", "Kore", "gemini-3.1-flash-tts-preview", &r, &z, &z, 24000);
    let f2 = fingerprint_v1("Xin chào Việt Nam", "Kore", "gemini-3.1-flash-tts-preview", &r, &z, &z, 24000);
    assert_eq!(f1, f2);
}

#[test]
fn test_compute_fingerprint_changes_on_voice_or_text() {
    let r = format!("{:.2}", 1.0f32);
    let z = format!("{:.2}", 0.0f32);
    let f1 = fingerprint_v1("Xin chào", "Kore", "gemini-3.1-flash-tts-preview", &r, &z, &z, 24000);
    let f2 = fingerprint_v1("Xin chào", "Puck", "gemini-3.1-flash-tts-preview", &r, &z, &z, 24000);
    assert_ne!(f1, f2);
}

fn serialize_v2(fp: &SegmentFingerprintV2) -> Vec<u8> {
    let mut m = serde_json::Map::new();
    m.insert("schema_version".to_string(), serde_json::Value::from(fp.schema_version));
    m.insert("provider_id".to_string(), serde_json::Value::from(fp.provider_id.clone()));
    m.insert("model_id".to_string(), serde_json::Value::from(fp.model_id.clone()));
    m.insert("final_spoken_text".to_string(), serde_json::Value::from(fp.final_spoken_text.clone()));
    m.insert("final_prompt".to_string(), serde_json::Value::from(fp.final_prompt.clone()));
    m.insert("voice_id".to_string(), serde_json::Value::from(fp.voice_id.clone()));
    m.insert("sample_rate_hz".to_string(), serde_json::Value::from(fp.sample_rate_hz));
    m.insert("channels".to_string(), serde_json::Value::from(fp.channels));
    m.insert("sample_bits".to_string(), serde_json::Value::from(fp.sample_bits));
    m.insert("normalizer_version".to_string(), serde_json::Value::from(fp.normalizer_version.clone()));
    m.insert("prompt_builder_version".to_string(), serde_json::Value::from(fp.prompt_builder_version.clone()));
    serde_json::to_vec(&serde_json::Value::Object(m)).unwrap()
}

#[test]
fn test_compute_fingerprint_v2_canonical() {
    let fp_input1 = SegmentFingerprintV2 {
        final_spoken_text: "Nội dung chuẩn hóa".to_string(),
        voice_id: "Kore".to_string(),
        ..Default::default()
    };
    let fp_input2 = SegmentFingerprintV2 {
        final_spoken_text: "Nội dung chuẩn hóa".to_string(),
        voice_id: "Kore".to_string(),
        ..Default::default()
    };

    let fp1 = fingerprint_v2_of_serialized(&serialize_v2(&fp_input1));
    let fp2 = fingerprint_v2_of_serialized(&serialize_v2(&fp_input2));

    assert!(fp1.starts_with("fp2_"));
    assert_eq!(fp1, fp2);

    let mut fp_input3 = fp_input1.clone();
    fp_input3.voice_id = "Puck".to_string();
    let fp3 = fingerprint_v2_of_serialized(&serialize_v2(&fp_input3));

    assert_ne!(fp1, fp3);
}

#[test]
fn digest_hex_of_known_text() {
    assert_eq!(
        digest_hex("abc"),
        "ba7816bf8f01cfea414140de5dae2223b00361a396177a9cb410ff61f20015ad"
    );
}

// ---------------------------------------------------------------- chunker

#[test]
fn test_default_config() {
    let config = ChunkConfig::default();
    assert_eq!(config.min_chars(), 180);
    assert_eq!(config.max_chars(), 525);
    assert_eq!(config.target_chars(), 360);
}

#[test]
fn test_short_text_single_chunk() {
    let chunker = VietnameseChunker::with_default_config();
    let text = "Xin chào Việt Nam. Đây là thử nghiệm văn bản ngắn.";
    let chunks = chunker.chunk_text(text);

    assert_eq!(chunks.len(), 1);
    assert_eq!(chunks[0].index, 0);
    assert_eq!(chunks[0].text, text);
    assert!(chunks[0].word_count > 0);
    assert!(chunks[0].char_count > 0);
}

#[test]
fn test_heading_and_paragraph_chunking() {
    let config = ChunkConfig::new(20, 50, 30);
    let chunker = VietnameseChunker::new(config);

    let input = "# Tiêu đề bài viết\n\nĐoạn văn thứ nhất có nội dung vừa phải.\n\nĐoạn văn thứ hai tiếp nối nội dung bài viết.";
    let chunks = chunker.chunk_text(input);

    assert!(chunks.len() >= 2);
    for chunk in &chunks {
        assert!(chunk.char_count <= 55);
    }
    let joined = chunks.iter().map(|c| c.text.as_str()).collect::<Vec<_>>().join("\n\n");
    assert!(joined.contains("Tiêu đề bài viết"));
    assert!(joined.contains("Đoạn văn thứ nhất"));
    assert!(joined.contains("Đoạn văn thứ hai"));
}

#[test]
fn test_sentence_splitting_with_abbreviation() {
    let config = ChunkConfig::new(20, 40, 30);
    let chunker = VietnameseChunker::new(config);

    let text = "GS. Nguyễn Văn A làm việc tại TP. Hồ Chí Minh. Ông có nhiều công trình nghiên cứu v.v. Rất nổi tiếng!";
    let chunks = chunker.chunk_text(text);

    assert!(chunks.len() >= 2);
    let full = chunks.iter().map(|c| c.text.as_str()).collect::<Vec<_>>().join(" ");
    assert!(full.contains("GS. Nguyễn Văn A"));
    assert!(full.contains("TP. Hồ Chí Minh"));
    assert!(full.contains("v.v."));
}

#[test]
fn test_clause_splitting_for_long_sentences() {
    let config = ChunkConfig::new(10, 30, 20);
    let chunker = VietnameseChunker::new(config);

    let text = "Câu này rất dài, gồm nhiều vế phụ, được phân tách bằng dấu phẩy; và cả dấu chấm phẩy nữa.";
    let chunks = chunker.chunk_text(text);

    assert!(chunks.len() >= 2);
    let full = chunks.iter().map(|c| c.text.as_str()).collect::<Vec<_>>().join(" ");
    assert!(full.contains(","));
    assert!(full.contains(";"));
    assert!(full.contains("."));
}

#[test]
fn test_empty_input() {
    let chunker = VietnameseChunker::with_default_config();
    assert!(chunker.chunk_text("").is_empty());
    assert!(chunker.chunk_text("   \n\t  ").is_empty());
}

#[test]
fn test_sequential_indexing() {
    let config = ChunkConfig::new(10, 20, 15);
    let chunker = VietnameseChunker::new(config);

    let text = "Một hai ba bốn. Năm sáu bảy tám. Chín mười mười một.";
    let chunks = chunker.chunk_text(text);

    for (idx, chunk) in chunks.iter().enumerate() {
        assert_eq!(chunk.index, idx);
    }
}

#[test]
fn test_url_email_number_preservation() {
    let config = ChunkConfig::new(20, 50, 30);
    let chunker = VietnameseChunker::new(config);

    let text = "Vui lòng truy cập https://google.com hoặc gửi email tới contact@admin.vn trước 15.50 giờ. Phiên bản v1.2.0!";
    let chunks = chunker.chunk_text(text);

    let full = chunks.iter().map(|c| c.text.as_str()).collect::<Vec<_>>().join(" ");
    assert!(full.contains("https://google.com"));
    assert!(full.contains("contact@admin.vn"));
    assert!(full.contains("15.50"));
    assert!(full.contains("v1.2.0"));
}

#[test]
fn test_ellipsis_and_chapter_titles() {
    let config = ChunkConfig::new(20, 50, 30);
    let chunker = VietnameseChunker::new(config);

    let text = "Chương 1: Hành Trình Mới\n\nNó đã bắt đầu... nhưng chuyện gì tiếp theo đây? Thật khó nói...";
    let chunks = chunker.chunk_text(text);

    assert!(!chunks.is_empty());
    let full = chunks.iter().map(|c| c.text.as_str()).collect::<Vec<_>>().join(" ");
    assert!(full.contains("Chương 1: Hành Trình Mới"));
    assert!(full.contains("bắt đầu..."));
    assert!(full.contains("nói..."));
}

#[test]
fn test_url_in_first_sentence_does_not_affect_subsequent_sentences() {
    let config = ChunkConfig::new(10, 20, 15);
    let chunker = VietnameseChunker::new(config);

    let text = "Truy cập https://example.com để xem thêm. Đây là câu thứ hai có độ dài vừa phải. Đây là câu thứ ba tiếp theo.";
    let sentences = chunker.split_sentences(text);

    assert_eq!(sentences.len(), 3);
    assert!(sentences[0].contains("https://example.com"));
    assert!(sentences[1].contains("Đây là câu thứ hai"));
    assert!(sentences[2].contains("Đây là câu thứ ba"));
}

#[test]
fn test_10000_segment_chunking_performance_benchmark() {
    let chunker = VietnameseChunker::with_default_config();
    let sample_paragraph = "Đoạn văn ngắn thứ nhất để kiểm thử hiệu năng phân đoạn 10.000 đoạn. Đoạn văn ngắn thứ hai có độ dài tương đương.\n\n";
    let large_text = sample_paragraph.repeat(5000);

    let start = std::time::Instant::now();
    let chunks = chunker.chunk_text(&large_text);
    let elapsed = start.elapsed();

    println!("Chunked {} text into {} segments in {:?}", large_text.len(), chunks.len(), elapsed);
}

#[test]
fn chunk_modes_keep_text() {
    let text = "Dòng một.\nDòng hai!\n\nĐoạn ba?";
    let by_line = chunk_vietnamese_text_by_mode(text, "line");
    assert_eq!(by_line.len(), 3);
    assert_eq!(by_line[0].text, "Dòng một.");
    let by_para = chunk_vietnamese_text_by_mode(text, "paragraph");
    assert_eq!(by_para.len(), 2);
    assert!(chunk_vietnamese_text_by_mode("  ", "sentence").is_empty());
}

#[test]
fn lrc_lines_follow_the_cue_timeline() {
    let segs = vec![segment("Một", 1000), segment("Hai", 0), segment("Ba", 300)];
    let lines = lrc_segments_of(&segs, 500, &[0, 2000, 0]);
    let starts: Vec<u64> = lines.iter().map(|l| l.start_ms).collect();
    assert_eq!(starts, vec![0, 1500, 4000]);
    assert_eq!(lines[1].text, "Hai");
}

#[test]
fn timeline_range_check() {
    let segs = vec![segment("Một", 1000), segment("Hai", 0)];
    assert!(timeline_in_range(&segs, 500, &[0, 2000]));
    assert!(!timeline_in_range(&segs, u64::MAX - 100, &[0, 0]));
    assert!(!timeline_in_range(&[segment("x", u64::MAX)], 1, &[0]));
    assert!(timeline_in_range(&[], u64::MAX, &[]));
}

#[test]
fn vtt_timestamps_are_srt_timestamps_with_a_dot() {
    for t in [0u64, 1_500, 59_999, 3_600_000, 3_723_004, 360_000_000_007] {
        assert_eq!(format_vtt_timestamp(t), format_srt_timestamp(t).replace(',', "."));
    }
}
