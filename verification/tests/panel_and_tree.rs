use intro_skip::notice::{Status, StatusNotice, STATUS_NOTICE_FRAMES};
use intro_skip::panel::{
    hide_intro_skip_settings_panel, settings_panel_updates, sync_settings_panel,
    SETTINGS_PANEL_ID,
};
use intro_skip::settings::Settings;
use intro_skip::ui_tree::{find_node, find_visible_node, node_is_visible, set_node_visible, UiNode};

fn node(id: &str, visible: bool, children: Vec<UiNode>) -> UiNode {
    UiNode { id: id.to_string(), visible, children }
}

fn sample() -> UiNode {
    node(
        "root",
        true,
        vec![
            node("a", false, vec![node("x", true, vec![])]),
            node("b", true, vec![node("x", true, vec![]), node("y", false, vec![])]),
        ],
    )
}

#[test]
fn find_node_returns_the_first_match_in_pre_order() {
    let t = sample();
    assert_eq!(find_node(&t, &"x".to_string()), Some(vec![0, 0]));
    assert_eq!(find_node(&t, &"root".to_string()), Some(vec![]));
    assert_eq!(find_node(&t, &"z".to_string()), None);
}

#[test]
fn visible_search_skips_hidden_subtrees() {
    let t = sample();
    assert_eq!(find_visible_node(&t, &"x".to_string(), true), Some(vec![1, 0]));
    assert_eq!(find_visible_node(&t, &"y".to_string(), true), None);
    assert_eq!(find_visible_node(&t, &"b".to_string(), false), None);
    assert!(node_is_visible(&t, "x"));
    assert!(!node_is_visible(&t, "a"));
    assert!(!node_is_visible(&t, "y"));
}

#[test]
fn set_visible_changes_only_the_first_match() {
    let mut t = sample();
    assert!(set_node_visible(&mut t, &"x".to_string(), false));
    assert!(!t.children[0].children[0].visible);
    assert!(t.children[1].children[0].visible);
    assert!(!set_node_visible(&mut t, &"nope".to_string(), true));
    assert!(set_node_visible(&mut t, &"a".to_string(), true));
    assert!(t.children[0].visible);
}

#[test]
fn notice_shows_for_its_frames_then_ready() {
    let mut n = StatusNotice::new();
    assert_eq!(n.current_and_tick(), Status::Ready);
    n.show(Status::Saved);
    for _ in 0..STATUS_NOTICE_FRAMES {
        assert_eq!(n.current_and_tick(), Status::Saved);
    }
    assert_eq!(n.current_and_tick(), Status::Ready);
    assert_eq!(n.current_and_tick(), Status::Ready);
}

fn panel_tree() -> UiNode {
    let ids = [
        "description_panel",
        "intro_skip_settings",
        "intro_skip_header_version",
        "intro_skip_header_dependencies",
        "deps_panel",
        "version_panel",
        "intro_skip_disclaimer_on",
        "intro_skip_disclaimer_off",
        "intro_skip_continue_on",
        "intro_skip_continue_off",
        "intro_skip_force_on",
        "intro_skip_force_off",
        "intro_skip_retention_3_on",
        "intro_skip_retention_3_off",
        "intro_skip_retention_7_on",
        "intro_skip_retention_7_off",
        "intro_skip_retention_14_on",
        "intro_skip_retention_14_off",
        "intro_skip_retention_30_on",
        "intro_skip_retention_30_off",
        "intro_skip_backup_1",
        "intro_skip_backup_2",
        "intro_skip_backup_3",
        "intro_skip_backup_4",
        "intro_skip_backup_5",
        "intro_skip_backup_empty",
        "intro_skip_status_ready",
        "intro_skip_status_saved",
        "intro_skip_status_retention",
        "intro_skip_status_import_success",
        "intro_skip_status_failure",
    ];
    node("root", true, ids.iter().map(|id| node(id, false, vec![])).collect())
}

fn shown(t: &UiNode, id: &str) -> bool {
    t.children.iter().find(|c| c.id == id).unwrap().visible
}

#[test]
fn panel_sync_shows_exactly_the_current_choices() {
    let mut t = panel_tree();
    let s = Settings {
        skip_disclaimer: true,
        auto_continue: false,
        auto_load_anyway: true,
        backup_retention_days: 14,
    };
    sync_settings_panel(&mut t, s, true, Status::Retention, 2);
    assert!(!shown(&t, "description_panel"));
    assert!(shown(&t, "intro_skip_settings"));
    assert!(shown(&t, "intro_skip_disclaimer_on") && !shown(&t, "intro_skip_disclaimer_off"));
    assert!(!shown(&t, "intro_skip_continue_on") && shown(&t, "intro_skip_continue_off"));
    assert!(shown(&t, "intro_skip_force_on") && !shown(&t, "intro_skip_force_off"));
    assert!(shown(&t, "intro_skip_retention_14_on") && !shown(&t, "intro_skip_retention_14_off"));
    assert!(!shown(&t, "intro_skip_retention_7_on") && shown(&t, "intro_skip_retention_7_off"));
    assert!(shown(&t, "intro_skip_backup_1") && shown(&t, "intro_skip_backup_2"));
    assert!(!shown(&t, "intro_skip_backup_3") && !shown(&t, "intro_skip_backup_empty"));
    assert!(shown(&t, "intro_skip_status_retention") && !shown(&t, "intro_skip_status_ready"));
    assert_eq!(settings_panel_updates(s, true, Status::Retention, 2).len(), 31);
}

#[test]
fn closing_the_panel_restores_the_native_details() {
    let mut t = panel_tree();
    sync_settings_panel(&mut t, Settings::default(), false, Status::Ready, 0);
    assert!(shown(&t, "description_panel") && shown(&t, "deps_panel") && shown(&t, "version_panel"));
    assert!(!shown(&t, "intro_skip_settings"));
    assert!(shown(&t, "intro_skip_backup_empty"));
}

#[test]
fn hiding_touches_only_the_mods_own_header_nodes() {
    let mut t = panel_tree();
    for c in t.children.iter_mut() {
        c.visible = true;
    }
    hide_intro_skip_settings_panel(&mut t);
    assert!(!shown(&t, SETTINGS_PANEL_ID));
    assert!(!shown(&t, "intro_skip_header_version"));
    assert!(!shown(&t, "intro_skip_header_dependencies"));
    assert!(shown(&t, "description_panel") && shown(&t, "intro_skip_status_ready"));
}
