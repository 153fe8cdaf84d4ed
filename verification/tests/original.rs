use intro_skip::backups::is_managed_backup;
use intro_skip::json::{read_json_bool, read_json_string, read_json_u8};
use intro_skip::panel::{should_sync_native_settings_panel, BMM_SURFACE_ID};

#[test]
fn reads_settings_and_better_mod_menu_actions() {
    let source = r#"{"skip_disclaimer":true,"index":2,"action":"import_backup"}"#;
    assert_eq!(read_json_bool(source, "skip_disclaimer"), Some(true));
    assert_eq!(read_json_u8(source, "index"), Some(2));
    assert_eq!(
        read_json_string(source, "action").as_deref(),
        Some("import_backup")
    );
}

#[test]
fn uses_the_better_mod_menu_runtime_surface_contract() {
    assert_eq!(BMM_SURFACE_ID, "bmm_surface");
}

#[test]
fn better_mod_menu_owns_native_text_visibility_while_open() {
    assert!(!should_sync_native_settings_panel(true, false, true));
    assert!(should_sync_native_settings_panel(false, true, false));
    assert!(should_sync_native_settings_panel(false, false, true));
    assert!(!should_sync_native_settings_panel(false, false, false));
}

#[test]
fn recognizes_only_managed_backup_names() {
    let name = format!("save_1__before_mod_load_20260730_0102_{}.data", 4242);
    assert!(is_managed_backup(&name, true));
    assert!(!is_managed_backup("save_1.data", true));
}
