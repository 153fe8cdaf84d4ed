use intro_skip::extension::{
    bmm_request, clicked_control, settings_controls, BmmRequest, ClickEffect, IntroSkipExtension,
    LoadAnywayStep, SettingsControl, TitleFrame,
};
use intro_skip::settings::{SettingKey, Settings};
use intro_skip::ui_tree::UiNode;

fn with(auto_continue: bool, auto_load_anyway: bool) -> Settings {
    Settings { skip_disclaimer: true, auto_continue, auto_load_anyway, backup_retention_days: 7 }
}

#[test]
fn retention_cleanup_runs_on_the_first_frame_only() {
    let mut e = IntroSkipExtension::new(Settings::default());
    let first = e.begin_update();
    assert_eq!(first.cleanup_retention_days, Some(7));
    assert!(first.skip_disclaimer);
    assert_eq!(e.begin_update().cleanup_retention_days, None);
    assert!(e.on_init());
}

#[test]
fn continue_is_clicked_on_the_third_visible_frame_and_once() {
    let mut e = IntroSkipExtension::new(with(true, false));
    assert!(!e.auto_continue_step(false));
    assert!(!e.auto_continue_step(true));
    assert!(!e.auto_continue_step(true));
    assert!(e.auto_continue_step(true));
    e.auto_continue_posted(false);
    assert!(e.auto_continue_step(true));
    e.auto_continue_posted(true);
    assert!(!e.auto_continue_step(true));
}

#[test]
fn continue_stays_off_when_disabled() {
    let mut e = IntroSkipExtension::new(with(false, false));
    for _ in 0..10 {
        assert!(!e.auto_continue_step(true));
    }
}

#[test]
fn load_anyway_waits_for_a_verified_backup() {
    let mut e = IntroSkipExtension::new(with(false, true));
    assert_eq!(e.load_anyway_step(true), LoadAnywayStep::Wait);
    assert_eq!(e.load_anyway_step(true), LoadAnywayStep::Wait);
    assert_eq!(e.load_anyway_step(true), LoadAnywayStep::Backup { retention_days: 7 });
    assert!(e.load_anyway_backup_done(true));
    e.load_anyway_posted(false);
    assert_eq!(e.load_anyway_step(true), LoadAnywayStep::Click);
    e.load_anyway_posted(true);
    assert_eq!(e.load_anyway_step(true), LoadAnywayStep::Wait);
}

#[test]
fn a_failed_backup_stops_load_anyway_until_the_popup_closes() {
    let mut e = IntroSkipExtension::new(with(false, true));
    for _ in 0..2 {
        assert_eq!(e.load_anyway_step(true), LoadAnywayStep::Wait);
    }
    assert_eq!(e.load_anyway_step(true), LoadAnywayStep::Backup { retention_days: 7 });
    assert!(!e.load_anyway_backup_done(false));
    for _ in 0..5 {
        assert_eq!(e.load_anyway_step(true), LoadAnywayStep::Wait);
    }
    assert_eq!(e.load_anyway_step(false), LoadAnywayStep::Wait);
    for _ in 0..2 {
        assert_eq!(e.load_anyway_step(true), LoadAnywayStep::Wait);
    }
    assert_eq!(e.load_anyway_step(true), LoadAnywayStep::Backup { retention_days: 7 });
}

#[test]
fn load_anyway_stays_off_when_disabled() {
    let mut e = IntroSkipExtension::new(with(true, false));
    for _ in 0..10 {
        assert_eq!(e.load_anyway_step(true), LoadAnywayStep::Wait);
    }
}

#[test]
fn better_mod_menu_reload_cadence() {
    let mut e = IntroSkipExtension::new(Settings::default());
    let reload = TitleFrame::Continue { reload: true };
    let keep = TitleFrame::Continue { reload: false };
    assert_eq!(e.title_frame(true, true), reload);
    for _ in 1..30 {
        assert_eq!(e.title_frame(true, true), keep);
    }
    assert_eq!(e.title_frame(true, true), reload);
    assert_eq!(e.title_frame(true, true), keep);
    assert_eq!(e.title_frame(true, false), keep);
    assert_eq!(e.title_frame(true, true), reload);
}

#[test]
fn frames_off_the_title_screen_stop_without_counting() {
    let mut e = IntroSkipExtension::new(Settings::default());
    assert_eq!(e.title_frame(true, true), TitleFrame::Continue { reload: true });
    for _ in 0..40 {
        assert_eq!(e.title_frame(false, true), TitleFrame::Stop);
    }
    assert_eq!(e.title_frame(true, true), TitleFrame::Continue { reload: false });
}

#[test]
fn panel_frame_detects_presses_and_opening() {
    let mut e = IntroSkipExtension::new(Settings::default());
    let f = e.panel_frame(false, true, true);
    assert!(f.show_settings && f.mouse_pressed && f.refresh_backup_count && !f.was_showing_settings);
    let f = e.panel_frame(false, true, true);
    assert!(f.show_settings && !f.mouse_pressed && !f.refresh_backup_count && f.was_showing_settings);
    let f = e.panel_frame(true, false, true);
    assert!(!f.show_settings && !f.mouse_pressed);
    // the button state is not sampled while Better Mod Menu is open
    let f = e.panel_frame(false, true, false);
    assert!(!f.mouse_pressed && !f.show_settings && f.was_showing_settings.eq(&false));
}

#[test]
fn clicks_toggle_settings_and_report_effects() {
    let mut e = IntroSkipExtension::new(Settings::default());
    let effect = e.settings_click(SettingsControl::Flag { key: SettingKey::AutoContinue, value: true });
    let expected = Settings { auto_continue: true, ..Settings::default() };
    assert_eq!(effect, ClickEffect::SaveSettings { settings: expected });
    assert_eq!(e.snapshot(), expected);
    let effect = e.settings_click(SettingsControl::Retention { days: 30 });
    assert_eq!(
        effect,
        ClickEffect::SaveAndCleanup {
            settings: Settings { backup_retention_days: 30, ..expected },
            retention_days: 30
        }
    );
    assert_eq!(
        e.settings_click(SettingsControl::Backup { index: 3 }),
        ClickEffect::ImportBackup { index: 3 }
    );
}

#[test]
fn clicked_control_is_the_first_hit_in_test_order() {
    let controls = settings_controls();
    assert_eq!(controls.len(), 19);
    assert_eq!(controls[0].0, "intro_skip_disclaimer_on");
    let mut hits = vec![false; controls.len()];
    assert_eq!(clicked_control(&hits), None);
    hits[13] = true;
    hits[15] = true;
    assert_eq!(clicked_control(&hits), Some(SettingsControl::Retention { days: 30 }));
    hits[8] = true;
    assert_eq!(clicked_control(&hits), Some(SettingsControl::Retention { days: 7 }));
    hits[7] = true;
    assert_eq!(clicked_control(&hits), Some(SettingsControl::Retention { days: 3 }));
    assert_eq!(clicked_control(&vec![true]), Some(SettingsControl::Flag { key: SettingKey::SkipDisclaimer, value: false }));
}

#[test]
fn better_mod_menu_requests() {
    assert_eq!(
        bmm_request(r#"{"action":"import_backup","index":2}"#),
        BmmRequest::ImportBackup { index: 2 }
    );
    assert_eq!(
        bmm_request(r#"{"action":"import_latest_backup"}"#),
        BmmRequest::ImportBackup { index: 0 }
    );
    assert_eq!(bmm_request(r#"{"action":"delete_everything"}"#), BmmRequest::Unsupported);
    assert_eq!(bmm_request("{}"), BmmRequest::Unsupported);
}

fn status_tree() -> UiNode {
    let ids = [
        "intro_skip_status_ready",
        "intro_skip_status_saved",
        "intro_skip_status_retention",
        "intro_skip_status_import_success",
        "intro_skip_status_failure",
        "intro_skip_backup_1",
        "intro_skip_backup_empty",
    ];
    UiNode {
        id: "root".to_string(),
        visible: true,
        children: ids
            .iter()
            .map(|id| UiNode { id: id.to_string(), visible: false, children: vec![] })
            .collect(),
    }
}

fn shown_status(t: &UiNode) -> Vec<String> {
    t.children.iter().filter(|c| c.visible).map(|c| c.id.clone()).collect()
}

#[test]
fn finishing_actions_put_up_notices() {
    let mut e = IntroSkipExtension::new(Settings::default());
    let mut root = status_tree();
    let f = e.panel_frame(false, false, true);
    e.sync_panel(&mut root, false, f);
    assert_eq!(shown_status(&root), vec!["intro_skip_status_ready", "intro_skip_backup_empty"]);
    e.set_backup_count(1);
    e.finish_import(true);
    e.sync_panel(&mut root, false, f);
    assert_eq!(shown_status(&root), vec!["intro_skip_status_import_success", "intro_skip_backup_1"]);
    e.finish_retention_change(true, false);
    e.sync_panel(&mut root, false, f);
    assert_eq!(shown_status(&root), vec!["intro_skip_status_failure", "intro_skip_backup_1"]);
    e.finish_retention_change(true, true);
    e.sync_panel(&mut root, false, f);
    assert_eq!(shown_status(&root), vec!["intro_skip_status_retention", "intro_skip_backup_1"]);
    e.finish_settings_save(true);
    e.sync_panel(&mut root, false, f);
    assert_eq!(shown_status(&root), vec!["intro_skip_status_saved", "intro_skip_backup_1"]);
    e.reject_request();
    e.sync_panel(&mut root, false, f);
    assert_eq!(shown_status(&root), vec!["intro_skip_status_failure", "intro_skip_backup_1"]);
}

#[test]
fn better_mod_menu_hides_the_panel_instead_of_syncing() {
    let mut e = IntroSkipExtension::new(Settings::default());
    let mut root = status_tree();
    let f = e.panel_frame(true, false, true);
    e.sync_panel(&mut root, true, f);
    assert!(shown_status(&root).is_empty());
}

#[test]
fn every_panel_control_keeps_an_offered_retention() {
    let mut e = IntroSkipExtension::new(Settings::default());
    for (_, control) in settings_controls() {
        e.settings_click(control);
        assert!([3u8, 7, 14, 30].contains(&e.snapshot().backup_retention_days));
    }
}

#[test]
fn only_one_backup_is_taken_while_the_popup_stays_up() {
    let mut e = IntroSkipExtension::new(with(false, true));
    let mut backups = 0;
    for _ in 0..20 {
        if let LoadAnywayStep::Backup { .. } = e.load_anyway_step(true) {
            backups += 1;
            let click = e.load_anyway_backup_done(true);
            assert!(click);
        }
    }
    assert_eq!(backups, 1);
}
