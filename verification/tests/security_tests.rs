use auto_tts_desktop::security::input_validation::{
    validate_api_key, validate_chunk_mode, validate_preset, validate_project_name, validate_source_text,
    validate_voice,
};
use auto_tts_desktop::security::keyring_store::{CredentialStore, GcpProjectProfile};
use auto_tts_desktop::security::pacific_clock::next_pacific_midnight_ms;
use auto_tts_desktop::security::path_policy::{
    check_extension, check_target_path, validate_base64_payload_size, validate_file_name, FileNamePart,
    TargetKind,
};
use base64::Engine;

#[test]
fn test_session_credential_store() {
    let mut store = CredentialStore::new();
    assert!(!store.is_configured());

    store.set_key("AIzaSyTestApiKey123");
    assert!(store.is_configured());
    assert_eq!(store.get_key(), Some("AIzaSyTestApiKey123".to_string()));

    store.delete_key();
}

#[test]
fn test_multi_key_rotation() {
    let mut store = CredentialStore::new();
    store.set_keys(&vec!["key_A".to_string(), "key_B".to_string(), "key_C".to_string()]);

    assert_eq!(store.key_count(), 3);

    let k1 = store.get_key().unwrap();
    let k2 = store.get_key().unwrap();
    let k3 = store.get_key().unwrap();
    let k4 = store.get_key().unwrap();

    assert_eq!(k1, "key_A");
    assert_eq!(k2, "key_B");
    assert_eq!(k3, "key_C");
    assert_eq!(k4, "key_A");
}

#[test]
fn test_cooldown_skip() {
    let mut store = CredentialStore::new();
    store.set_keys(&vec!["key_A".to_string(), "key_B".to_string()]);

    store.mark_key_cooldown("key_A", 60);

    let k = store.get_key().unwrap();
    assert_eq!(k, "key_B");
}

#[test]
fn test_gcp_project_profile_failover() {
    let mut store = CredentialStore::new();
    let p1 = GcpProjectProfile {
        profile_id: "prof_1".to_string(),
        project_id: "gcp-proj-1".to_string(),
        api_keys: vec!["key1".to_string()],
        enable_auto_failover: true,
        disabled_permanently: false,
    };
    let p2 = GcpProjectProfile {
        profile_id: "prof_2".to_string(),
        project_id: "gcp-proj-2".to_string(),
        api_keys: vec!["key2".to_string()],
        enable_auto_failover: true,
        disabled_permanently: false,
    };

    store.add_gcp_profile(p1);
    store.add_gcp_profile(p2);

    assert_eq!(store.list_gcp_profiles().len(), 2);

    let failover_profile = store.select_profile_for_failover("prof_1");
    assert!(failover_profile.is_some());
    assert_eq!(failover_profile.unwrap().profile_id, "prof_2");
}

#[test]
fn all_keys_cooling_picks_earliest() {
    let mut store = CredentialStore::new();
    store.set_keys(&vec!["a".to_string(), "b".to_string()]);
    store.mark_key_cooldown_at("a", 100, 1_000);
    store.mark_key_cooldown_at("b", 50, 1_000);
    assert_eq!(store.get_key_at(2_000), Some("b".to_string()));
    store.mark_key_disabled_permanently("a");
    store.mark_key_disabled_permanently("b");
    assert_eq!(store.get_key_at(2_000), Some("a".to_string()));
    let mut empty = CredentialStore::new();
    empty.set_keys(&vec!["x".to_string()]);
    empty.mark_key_disabled_permanently("x");
    empty.delete_key();
    assert_eq!(empty.get_key_at(0), None);
}

#[test]
fn set_keys_trims_skips_blank_and_keeps_state() {
    let mut store = CredentialStore::new();
    assert_eq!(store.set_keys(&vec![" k1 ".to_string(), "  ".to_string(), "k2".to_string()]), 2);
    store.mark_key_cooldown_at("k1", 10, 0);
    assert_eq!(store.set_keys(&vec!["k2".to_string(), "k1".to_string()]), 2);
    assert_eq!(store.get_key_at(5_000), Some("k2".to_string()));
    assert_eq!(store.get_key_at(5_000), Some("k2".to_string()));
    assert_eq!(store.get_keys_masked(), vec!["****".to_string(), "****".to_string()]);
    store.set_keys(&vec!["AIzaSyLongKey99".to_string()]);
    assert_eq!(store.get_keys_masked(), vec!["AIza...ey99".to_string()]);
    assert!(store.remove_key_at(5).is_err());
    assert!(store.remove_key_at(0).is_ok());
    assert_eq!(store.key_count(), 0);
}

#[test]
fn test_validate_file_name_cases() {
    assert!(validate_file_name("valid_audio.wav").is_ok());
    assert!(validate_file_name("dự_án_mẫu_123.mp3").is_ok());

    assert!(validate_file_name("CON.wav").is_err());
    assert!(validate_file_name("NUL.txt").is_err());
    assert!(validate_file_name("COM1.srt").is_err());
    assert!(validate_file_name("PRN").is_err());

    assert!(validate_file_name("audio.wav ").is_err());
    assert!(validate_file_name("audio.wav.").is_err());
    assert!(validate_file_name("audio.wav:stream").is_err());
    assert!(validate_file_name("audio\0.wav").is_err());
    assert!(validate_file_name(r"\\?\C:\file.wav").is_err());
}

#[test]
fn accepted_names_stay_in_their_directory() {
    for name in ["..", ".", "a/b.wav", "a\\b.wav", "../x.wav"] {
        assert!(validate_file_name(name).is_err(), "{}", name);
    }
    assert!(validate_file_name("..hidden").is_ok());
}

#[test]
fn file_name_error_messages() {
    assert_eq!(validate_file_name(""), Err("File name cannot be empty".to_string()));
    assert_eq!(validate_file_name("a<b"), Err("File name contains invalid character: '<'".to_string()));
    assert_eq!(
        validate_file_name("con.txt"),
        Err("File name 'con.txt' uses a reserved Windows device name".to_string())
    );
}

#[test]
fn extension_checks() {
    assert!(check_extension(Some("WAV"), &[".wav", "mp3"], TargetKind::Write).is_ok());
    assert_eq!(
        check_extension(Some("exe"), &["wav", "mp3"], TargetKind::Write),
        Err("File extension '.exe' is not allowed. Allowed extensions: [\"wav\", \"mp3\"]".to_string())
    );
    assert_eq!(
        check_extension(Some("exe"), &["wav"], TargetKind::Read),
        Err("File extension '.exe' is not allowed".to_string())
    );
    assert!(check_extension(None, &[], TargetKind::Read).is_ok());
    assert_eq!(
        check_extension(None, &["wav"], TargetKind::Export),
        Err("Target path must have a valid file extension".to_string())
    );
}

#[test]
fn test_resolve_write_target_traversal_rejection() {
    let name = FileNamePart::Name("outside.wav".to_string());
    assert_eq!(
        check_target_path(Some("wav"), &name, true, &["wav"], TargetKind::Write),
        Err("Path traversal ('..') is not permitted".to_string())
    );
    assert!(check_target_path(Some("wav"), &name, false, &["wav"], TargetKind::Write).is_ok());
    assert_eq!(
        check_target_path(Some("wav"), &FileNamePart::Missing, false, &["wav"], TargetKind::Export),
        Err("Target path must include a file name".to_string())
    );
}

#[test]
fn base64_payload_limits() {
    let data = base64::engine::general_purpose::STANDARD.encode([1u8, 2, 3, 4]);
    let url = format!("data:audio/wav;base64,{}", data);
    assert_eq!(validate_base64_payload_size(&url, 10).unwrap(), vec![1, 2, 3, 4]);
    assert_eq!(
        validate_base64_payload_size(&data, 2),
        Err("Decoded payload size (4 bytes) exceeds maximum limit of 2 bytes".to_string())
    );
    let long = "A".repeat(400);
    assert_eq!(
        validate_base64_payload_size(&long, 3),
        Err("Payload size exceeds maximum allowed limit of 0 MB".to_string())
    );
    assert!(validate_base64_payload_size("@@@@", 10).unwrap_err().starts_with("Lỗi giải mã base64: "));
}

#[test]
fn input_validation_rules() {
    assert_eq!(validate_project_name("  "), Err("Tên dự án không được để trống".to_string()));
    assert!(validate_project_name("Dự án\nhai dòng").is_ok());
    assert_eq!(validate_project_name("a\u{7}b"), Err("Tên dự án chứa ký tự không hợp lệ".to_string()));
    assert!(validate_project_name(&"x".repeat(256)).is_err());
    assert!(validate_source_text("văn bản").is_ok());
    assert!(validate_source_text(" \n ").is_err());
    assert!(validate_voice("Kore").is_ok());
    assert!(validate_voice(&"v".repeat(65)).is_err());
    assert!(validate_preset("").is_ok());
    assert!(validate_preset(&"p".repeat(65)).is_err());
    assert!(validate_chunk_mode(None).is_ok());
    assert!(validate_chunk_mode(Some("clause")).is_ok());
    assert!(validate_chunk_mode(Some("Clause")).is_err());
    assert!(validate_api_key(" AIza123 ").is_ok());
    assert_eq!(
        validate_api_key("AI za"),
        Err("API Key chứa ký tự trắng hoặc ký tự điều khiển không hợp lệ".to_string())
    );
    assert!(validate_api_key(&"k".repeat(257)).is_err());
}

#[test]
fn pool_keys_listed_and_maskable() {
    let mut store = CredentialStore::new();
    store.set_keys(&vec![" AIzaFirstKey123 ".to_string(), "".to_string(), "short".to_string()]);
    assert_eq!(store.pool_key_list(), vec!["AIzaFirstKey123".to_string(), "short".to_string()]);
    assert!(store.keys_maskable());
    assert_eq!(store.get_keys_masked(), vec!["AIza...y123".to_string(), "****".to_string()]);
    store.set_keys(&vec!["aéééé".to_string()]);
    assert!(!store.keys_maskable());
    assert_eq!(store.remove_key_at(5), Err("Invalid key index".to_string()));
    assert_eq!(store.remove_key_at(0), Ok(()));
    assert_eq!(store.key_count(), 0);
}

#[test]
fn next_pacific_midnight_in_winter_and_summer() {
    // 2024-01-15 12:00 UTC is 04:00 PST; the next midnight is 2024-01-16 08:00 UTC.
    assert_eq!(next_pacific_midnight_ms(1_705_320_000_000), 1_705_392_000_000);
    // 2024-07-01 12:00 UTC is 05:00 PDT; the next midnight is 2024-07-02 07:00 UTC.
    assert_eq!(next_pacific_midnight_ms(1_719_835_200_000), 1_719_903_600_000);
    // The Unix epoch is 16:00 PST on 1969-12-31.
    assert_eq!(next_pacific_midnight_ms(0), 28_800_000);
}

#[test]
fn next_pacific_midnight_across_clock_changes() {
    // 2024-03-10 01:00 PST, before the clocks go forward: midnight is at 07:00 UTC.
    assert_eq!(next_pacific_midnight_ms(1_710_061_200_000), 1_710_140_400_000);
    // 2024-03-10 12:00 PDT, after they went forward.
    assert_eq!(next_pacific_midnight_ms(1_710_097_200_000), 1_710_140_400_000);
    // 2024-11-03 01:00 PDT, before the clocks go back: midnight is at 08:00 UTC.
    assert_eq!(next_pacific_midnight_ms(1_730_620_800_000), 1_730_707_200_000);
    // 2024-11-03 02:00 PST, after they went back.
    assert_eq!(next_pacific_midnight_ms(1_730_624_400_000), 1_730_707_200_000);
}

#[test]
fn daily_exhausted_key_is_skipped_until_midnight() {
    let mut store = CredentialStore::new();
    store.set_keys(&vec!["key_A".to_string(), "key_B".to_string()]);
    store.mark_key_daily_exhausted("key_A");
    assert_eq!(store.get_key(), Some("key_B".to_string()));
    assert_eq!(store.get_key(), Some("key_B".to_string()));
}

#[test]
fn next_pacific_midnight_far_ahead_and_at_the_end_of_the_clock() {
    // 10000-01-01 12:00 UTC is 04:00 PST; the next midnight is 10000-01-02 08:00 UTC.
    assert_eq!(next_pacific_midnight_ms(253_402_344_000_000), 253_402_416_000_000);
    // The last representable instant has no later midnight that fits: held to i64::MAX.
    assert_eq!(next_pacific_midnight_ms(i64::MAX), i64::MAX);
}
