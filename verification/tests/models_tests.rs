use auto_tts_desktop::audio::pcm_wav::{
    generate_silence_pcm, pcm_to_wav_bytes, peak_amplitude, should_normalize, wav_duration_ms, wav_format_matches, WavFormat,
};
use auto_tts_desktop::commands::audio_commands::{plan_merge, safe_file_stem, subtitle_format};
use auto_tts_desktop::commands::queue_commands::check_export_readiness;
use auto_tts_desktop::models::registry::{list_available_models, validate_tts_model, ModelLifecycle};
use auto_tts_desktop::models::segment::{ReviewStatus, SegmentStatus};
use auto_tts_desktop::storage::audio_cache::AudioCache;
use auto_tts_desktop::storage::project_repo::SegmentRecord;

#[test]
fn test_silence_generation() {
    let silence = generate_silence_pcm(1000);
    assert_eq!(silence.len(), 48000);
    assert!(silence.iter().all(|&b| b == 0));
}

#[test]
fn test_pcm_to_wav_conversion() {
    let dummy_pcm = vec![0u8; 400];
    let wav_bytes = pcm_to_wav_bytes(&dummy_pcm).expect("WAV conversion failed");

    assert!(wav_bytes.len() > 44);
    assert_eq!(&wav_bytes[0..4], b"RIFF");
    assert_eq!(&wav_bytes[8..12], b"WAVE");

    let cursor = std::io::Cursor::new(wav_bytes);
    let reader = hound::WavReader::new(cursor).expect("Should parse as valid WAV");
    assert_eq!(reader.spec().sample_rate, 24000);
    assert_eq!(reader.spec().channels, 1);
    assert_eq!(reader.spec().bits_per_sample, 16);
}

#[test]
fn wav_duration() {
    assert_eq!(wav_duration_ms(48_000, 24_000), 2_000);
    assert_eq!(wav_duration_ms(10, 0), 0);
}

#[test]
fn status_names_round_trip() {
    for s in [
        SegmentStatus::Pending,
        SegmentStatus::Queued,
        SegmentStatus::Processing,
        SegmentStatus::Success,
        SegmentStatus::Approved,
        SegmentStatus::RetryWait,
        SegmentStatus::Failed,
        SegmentStatus::Stale,
    ] {
        assert_eq!(SegmentStatus::parse(s.as_str()), Ok(s));
        assert_eq!(s.as_str().parse::<SegmentStatus>(), Ok(s));
    }
    assert_eq!(SegmentStatus::parse("done"), Err("Invalid SegmentStatus: 'done'".to_string()));
    assert_eq!(ReviewStatus::parse("needs_fix"), Ok(ReviewStatus::NeedsFix));
    assert_eq!(ReviewStatus::parse("x"), Err("Invalid ReviewStatus: 'x'".to_string()));
    assert_eq!(ReviewStatus::Approved.as_str(), "approved");
}

#[test]
fn model_catalogue_and_validation() {
    let models = list_available_models();
    assert_eq!(models.len(), 2);
    assert!(models[0].supports_multi_speaker);
    assert_eq!(models[1].max_input_tokens, Some(4096));
    assert_eq!(models[1].lifecycle, ModelLifecycle::Preview);
    assert!(validate_tts_model(" gemini-2.5-flash-preview-tts ").is_ok());
    assert_eq!(
        validate_tts_model("gpt"),
        Err("TTS Model 'gpt' không được hỗ trợ. Các model hỗ trợ: ['gemini-3.1-flash-tts-preview', 'gemini-2.5-flash-preview-tts']".to_string())
    );
}

#[test]
fn cache_key_normalizes_text() {
    let a = AudioCache::compute_cache_key("m", "v", "  Xin Chào ");
    let b = AudioCache::compute_cache_key("m", "v", "xin chào");
    assert_eq!(a, b);
    assert_eq!(a.len(), 64);
    assert_ne!(a, AudioCache::compute_cache_key("m", "w", "xin chào"));
}

fn seg(status: SegmentStatus, path: Option<&str>) -> SegmentRecord {
    SegmentRecord {
        id: String::new(),
        project_id: "p".to_string(),
        position: 1,
        text: String::new(),
        prompt: String::new(),
        status,
        attempts: 0,
        audio_path: path.map(|p| p.to_string()),
        duration_ms: 0,
        error_code: None,
        error_message: None,
        created_at: String::new(),
        updated_at: String::new(),
        fingerprint: None,
        output_fingerprint: None,
        attempt_count: 0,
        next_retry_at: None,
        queued_at: None,
        started_at: None,
        finished_at: None,
        lease_owner: None,
        lease_expires_at: None,
        last_error_code: None,
        last_error_message: None,
        cancel_requested: false,
        state_revision: 0,
        output_size: 0,
        voice: None,
        review_status: None,
        reviewed_output_fingerprint: None,
    }
}

#[test]
fn export_readiness_states() {
    assert_eq!(check_export_readiness(&[], "/out").state, "empty_project");
    let r = check_export_readiness(&[seg(SegmentStatus::Success, None), seg(SegmentStatus::Queued, None)], "/out");
    assert_eq!(r.state, "queue_running");
    let r2 = check_export_readiness(&[seg(SegmentStatus::Success, None), seg(SegmentStatus::Failed, None)], "/o");
    assert_eq!(r2.state, "partial");
    assert_eq!(r2.failed_segments, 1);
    assert_eq!(check_export_readiness(&[seg(SegmentStatus::Approved, None)], "/o").state, "ready");
    assert_eq!(check_export_readiness(&[seg(SegmentStatus::Pending, None)], "/o").state, "queue_not_started");
}

#[test]
fn merge_plan_and_names() {
    let segs = vec![
        seg(SegmentStatus::Success, Some("a.wav")),
        seg(SegmentStatus::Failed, None),
        seg(SegmentStatus::Pending, None),
        seg(SegmentStatus::Approved, Some("b.wav")),
    ];
    let (paths, warning) = plan_merge(&segs).unwrap();
    assert_eq!(paths, vec!["a.wav".to_string(), "b.wav".to_string()]);
    assert_eq!(
        warning,
        Some("Cảnh báo: 1 đoạn lỗi, 1 đoạn chưa xử lý trong tổng 4 đoạn. File audio có thể bị thiếu nội dung.".to_string())
    );
    assert!(plan_merge(&[seg(SegmentStatus::Failed, None)]).is_err());
    assert_eq!(safe_file_stem("Dự án #1"), "Dự_án__1");
    assert_eq!(subtitle_format("VTT"), "vtt");
    assert_eq!(subtitle_format("Lrc"), "lrc");
    assert_eq!(subtitle_format("other"), "srt");
}

#[test]
fn peak_and_normalization_decision() {
    assert_eq!(peak_amplitude(&[]), 0);
    assert_eq!(peak_amplitude(&[10, -300, 200]), 300);
    assert_eq!(peak_amplitude(&[i16::MIN, 5]), 32767);
    assert!(should_normalize(5000));
    assert!(!should_normalize(1000));
    assert!(!should_normalize(32000));
}

#[test]
fn merge_requires_studio_format() {
    assert!(wav_format_matches(&WavFormat { channels: 1, sample_rate: 24000, bits_per_sample: 16 }));
    assert!(!wav_format_matches(&WavFormat { channels: 2, sample_rate: 24000, bits_per_sample: 16 }));
    assert!(!wav_format_matches(&WavFormat { channels: 1, sample_rate: 44100, bits_per_sample: 16 }));
}

#[test]
fn wav_image_is_the_header_and_the_pcm_bytes() {
    let pcm = vec![1u8, 2, 0xff, 0x80, 9];
    let wav = pcm_to_wav_bytes(&pcm).unwrap();
    let mut expected: Vec<u8> = Vec::new();
    expected.extend_from_slice(b"RIFF");
    expected.extend_from_slice(&40u32.to_le_bytes());
    expected.extend_from_slice(b"WAVEfmt ");
    expected.extend_from_slice(&16u32.to_le_bytes());
    expected.extend_from_slice(&1u16.to_le_bytes());
    expected.extend_from_slice(&1u16.to_le_bytes());
    expected.extend_from_slice(&24000u32.to_le_bytes());
    expected.extend_from_slice(&48000u32.to_le_bytes());
    expected.extend_from_slice(&2u16.to_le_bytes());
    expected.extend_from_slice(&16u16.to_le_bytes());
    expected.extend_from_slice(b"data");
    expected.extend_from_slice(&4u32.to_le_bytes());
    expected.extend_from_slice(&[1, 2, 0xff, 0x80]);
    assert_eq!(wav, expected);
}
