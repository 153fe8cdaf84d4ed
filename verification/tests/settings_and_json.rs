use intro_skip::json::{read_json_bool, read_json_string, read_json_u8};
use intro_skip::settings::{settings_from_source, settings_json, SettingKey, Settings};

#[test]
fn bool_values_follow_the_first_key_and_colon() {
    let source = "{ \"a\" :\n\t  false, \"a\": true }";
    assert_eq!(read_json_bool(source, "a"), Some(false));
    assert_eq!(read_json_bool("{\"a\": trueish}", "a"), Some(true));
    assert_eq!(read_json_bool("{\"a\": 1}", "a"), None);
    assert_eq!(read_json_bool("{\"b\": true}", "a"), None);
    assert_eq!(read_json_bool("{\"a\" true}", "a"), None);
}

#[test]
fn whitespace_before_a_value_includes_unicode_spaces() {
    let source = "{\"a\":\u{00a0}\u{2003}\u{3000}true}";
    assert_eq!(read_json_bool(source, "a"), Some(true));
    let source = "{\"a\":\u{200b}true}";
    assert_eq!(read_json_bool(source, "a"), None);
}

#[test]
fn small_numbers_read_their_leading_digits() {
    assert_eq!(read_json_u8("{\"n\": 255}", "n"), Some(255));
    assert_eq!(read_json_u8("{\"n\": 256}", "n"), None);
    assert_eq!(read_json_u8("{\"n\": 007,}", "n"), Some(7));
    assert_eq!(read_json_u8("{\"n\": 14days}", "n"), Some(14));
    assert_eq!(read_json_u8("{\"n\": -1}", "n"), None);
    assert_eq!(read_json_u8("{\"n\": 99999999999999999999}", "n"), None);
    assert_eq!(read_json_u8("{\"n\": }", "n"), None);
}

#[test]
fn strings_take_escaped_characters_literally() {
    assert_eq!(
        read_json_string(r#"{"s": "a\"b\\c\nd"}"#, "s").as_deref(),
        Some("a\"b\\cnd")
    );
    assert_eq!(read_json_string(r#"{"s": "unterminated}"#, "s"), None);
    assert_eq!(read_json_string(r#"{"s": 12}"#, "s"), None);
    assert_eq!(read_json_string(r#"{"s": ""}"#, "s").as_deref(), Some(""));
}

#[test]
fn default_settings_only_skip_the_disclaimer() {
    let s = Settings::default();
    assert!(s.skip_disclaimer);
    assert!(!s.auto_continue);
    assert!(!s.auto_load_anyway);
    assert_eq!(s.backup_retention_days, 7);
}

#[test]
fn settings_document_has_the_expected_text() {
    let s = Settings {
        skip_disclaimer: false,
        auto_continue: true,
        auto_load_anyway: false,
        backup_retention_days: 14,
    };
    assert_eq!(
        settings_json(s),
        "{\n  \"skip_disclaimer\": false,\n  \"auto_continue\": true,\n  \"auto_load_anyway\": false,\n  \"backup_retention_days\": 14\n}\n"
    );
}

#[test]
fn written_settings_read_back_unchanged() {
    for days in [3u8, 7, 14, 30] {
        for bits in 0..8u8 {
            let s = Settings {
                skip_disclaimer: bits & 1 != 0,
                auto_continue: bits & 2 != 0,
                auto_load_anyway: bits & 4 != 0,
                backup_retention_days: days,
            };
            let loaded = settings_from_source(&settings_json(s), false);
            assert_eq!(loaded.settings, s);
            assert!(!loaded.should_persist);
        }
    }
}

#[test]
fn missing_or_invalid_retention_is_replaced_and_persisted() {
    let loaded = settings_from_source("{\"auto_continue\": true, \"backup_retention_days\": 5}", false);
    assert_eq!(loaded.settings.backup_retention_days, 7);
    assert!(loaded.settings.auto_continue);
    assert!(loaded.settings.skip_disclaimer);
    assert!(loaded.should_persist);
    let loaded = settings_from_source("{}", false);
    assert_eq!(loaded.settings, Settings::default());
    assert!(loaded.should_persist);
}

#[test]
fn settings_from_a_legacy_location_are_persisted() {
    let loaded = settings_from_source("{\"backup_retention_days\": 30}", true);
    assert_eq!(loaded.settings.backup_retention_days, 30);
    assert!(loaded.should_persist);
    let loaded = settings_from_source("{\"backup_retention_days\": 30}", false);
    assert!(!loaded.should_persist);
}

#[test]
fn setting_keys_store_their_flag() {
    let mut s = Settings::default();
    SettingKey::SkipDisclaimer.store(&mut s, false);
    SettingKey::AutoContinue.store(&mut s, true);
    SettingKey::AutoLoadAnyway.store(&mut s, true);
    assert!(!s.skip_disclaimer && s.auto_continue && s.auto_load_anyway);
    assert_eq!(s.backup_retention_days, 7);
}
