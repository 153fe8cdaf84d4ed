//! The mod's own settings panel on the Mods screen: which of its nodes are shown.
use vstd::prelude::*;
use crate::notice::Status;
use crate::settings::Settings;
use crate::ui_tree::{
    lemma_set_visible_other, lemma_set_visible_shown, set_node_visible, set_visible, shown, NodeView, UiNode,
};

verus! {

pub const SETTINGS_PANEL_ID: &'static str = "intro_skip_settings";
/// The node Better Mod Menu shows while it owns the selected-mod panel.
pub const BMM_SURFACE_ID: &'static str = "bmm_surface";
pub const DISCLAIMER_ON_ID: &'static str = "intro_skip_disclaimer_on";
pub const DISCLAIMER_OFF_ID: &'static str = "intro_skip_disclaimer_off";
pub const CONTINUE_ON_ID: &'static str = "intro_skip_continue_on";
pub const CONTINUE_OFF_ID: &'static str = "intro_skip_continue_off";
pub const FORCE_ON_ID: &'static str = "intro_skip_force_on";
pub const FORCE_OFF_ID: &'static str = "intro_skip_force_off";
pub const RETENTION_3_ON_ID: &'static str = "intro_skip_retention_3_on";
pub const RETENTION_3_OFF_ID: &'static str = "intro_skip_retention_3_off";
pub const RETENTION_7_ON_ID: &'static str = "intro_skip_retention_7_on";
pub const RETENTION_7_OFF_ID: &'static str = "intro_skip_retention_7_off";
pub const RETENTION_14_ON_ID: &'static str = "intro_skip_retention_14_on";
pub const RETENTION_14_OFF_ID: &'static str = "intro_skip_retention_14_off";
pub const RETENTION_30_ON_ID: &'static str = "intro_skip_retention_30_on";
pub const RETENTION_30_OFF_ID: &'static str = "intro_skip_retention_30_off";
pub const BACKUP_EMPTY_ID: &'static str = "intro_skip_backup_empty";
pub const BACKUP_1_ID: &'static str = "intro_skip_backup_1";
pub const BACKUP_2_ID: &'static str = "intro_skip_backup_2";
pub const BACKUP_3_ID: &'static str = "intro_skip_backup_3";
pub const BACKUP_4_ID: &'static str = "intro_skip_backup_4";
pub const BACKUP_5_ID: &'static str = "intro_skip_backup_5";
pub const STATUS_READY_ID: &'static str = "intro_skip_status_ready";
pub const STATUS_SAVED_ID: &'static str = "intro_skip_status_saved";
pub const STATUS_RETENTION_ID: &'static str = "intro_skip_status_retention";
pub const STATUS_IMPORT_SUCCESS_ID: &'static str = "intro_skip_status_import_success";
pub const STATUS_FAILURE_ID: &'static str = "intro_skip_status_failure";
pub const DESCRIPTION_PANEL_ID: &'static str = "description_panel";
pub const HEADER_VERSION_ID: &'static str = "intro_skip_header_version";
pub const HEADER_DEPENDENCIES_ID: &'static str = "intro_skip_header_dependencies";
pub const DEPS_PANEL_ID: &'static str = "deps_panel";
pub const VERSION_PANEL_ID: &'static str = "version_panel";

/// How many recent backups the panel lists.
pub const BACKUP_BUTTONS: usize = 5;

/// Layout nodes: the panel replaces the mod description, version and dependency panels.
pub open spec fn layout_updates(show_settings: bool) -> Seq<(Seq<char>, bool)> {
    seq![
        (DESCRIPTION_PANEL_ID@, !show_settings),
        (SETTINGS_PANEL_ID@, show_settings),
        (HEADER_VERSION_ID@, show_settings),
        (HEADER_DEPENDENCIES_ID@, show_settings),
        (DEPS_PANEL_ID@, !show_settings),
        (VERSION_PANEL_ID@, !show_settings),
    ]
}

/// Each on/off pair shows exactly one of its two nodes.
pub open spec fn toggle_updates(settings: Settings) -> Seq<(Seq<char>, bool)> {
    seq![
        (DISCLAIMER_ON_ID@, settings.skip_disclaimer),
        (DISCLAIMER_OFF_ID@, !settings.skip_disclaimer),
        (CONTINUE_ON_ID@, settings.auto_continue),
        (CONTINUE_OFF_ID@, !settings.auto_continue),
        (FORCE_ON_ID@, settings.auto_load_anyway),
        (FORCE_OFF_ID@, !settings.auto_load_anyway),
    ]
}

/// The selected retention shows its "on" node; every other choice its "off" node.
pub open spec fn retention_updates(days: u8) -> Seq<(Seq<char>, bool)> {
    seq![
        (RETENTION_3_ON_ID@, days == 3),
        (RETENTION_3_OFF_ID@, days != 3),
        (RETENTION_7_ON_ID@, days == 7),
        (RETENTION_7_OFF_ID@, days != 7),
        (RETENTION_14_ON_ID@, days == 14),
        (RETENTION_14_OFF_ID@, days != 14),
        (RETENTION_30_ON_ID@, days == 30),
        (RETENTION_30_OFF_ID@, days != 30),
    ]
}

/// The node id of the `k`-th backup button (from 0, newest backup first).
pub open spec fn backup_button_id(k: int) -> Seq<char> {
    if k == 0 {
        BACKUP_1_ID@
    } else if k == 1 {
        BACKUP_2_ID@
    } else if k == 2 {
        BACKUP_3_ID@
    } else if k == 3 {
        BACKUP_4_ID@
    } else {
        BACKUP_5_ID@
    }
}

/// One button per listed backup; the "no backups" line when there are none.
pub open spec fn backup_updates(backup_count: u8) -> Seq<(Seq<char>, bool)> {
    seq![
        (BACKUP_1_ID@, 0 < backup_count),
        (BACKUP_2_ID@, 1 < backup_count),
        (BACKUP_3_ID@, 2 < backup_count),
        (BACKUP_4_ID@, 3 < backup_count),
        (BACKUP_5_ID@, 4 < backup_count),
        (BACKUP_EMPTY_ID@, backup_count == 0),
    ]
}

/// Exactly the line of the current status is shown.
pub open spec fn status_updates(status: Status) -> Seq<(Seq<char>, bool)> {
    seq![
        (STATUS_READY_ID@, status == Status::Ready),
        (STATUS_SAVED_ID@, status == Status::Saved),
        (STATUS_RETENTION_ID@, status == Status::Retention),
        (STATUS_IMPORT_SUCCESS_ID@, status == Status::ImportSuccess),
        (STATUS_FAILURE_ID@, status == Status::Failure),
    ]
}

/// The visibility updates that bring the panel in line with the settings,
/// the status to show and the number of listed backups, in the order applied.
pub open spec fn panel_updates(settings: Settings, show_settings: bool, status: Status, backup_count: u8) -> Seq<(Seq<char>, bool)> {
    layout_updates(show_settings) + toggle_updates(settings) + retention_updates(
        settings.backup_retention_days,
    ) + backup_updates(backup_count) + status_updates(status)
}

/// The visibility the last update for `id` in `updates` sets, if any; applied
/// in order, later updates win.
pub open spec fn last_update(updates: Seq<(Seq<char>, bool)>, id: Seq<char>) -> Option<bool>
    decreases updates.len(),
{
    if updates.len() == 0 {
        None
    } else if updates.last().0 == id {
        Some(updates.last().1)
    } else {
        last_update(updates.drop_last(), id)
    }
}

proof fn lemma_last_update_concat(a: Seq<(Seq<char>, bool)>, b: Seq<(Seq<char>, bool)>, id: Seq<char>)
    ensures
        last_update(a + b, id) == match last_update(b, id) {
            Some(v) => Some(v),
            None => last_update(a, id),
        },
    decreases b.len(),
{
    if b.len() == 0 {
        assert(a + b =~= a);
    } else {
        assert((a + b).drop_last() =~= a + b.drop_last());
        assert((a + b).last() == b.last());
        lemma_last_update_concat(a, b.drop_last(), id);
    }
}

proof fn lemma_panel_ids_differ()
    ensures
        BACKUP_1_ID@ != BACKUP_2_ID@,
        BACKUP_1_ID@ != BACKUP_3_ID@,
        BACKUP_1_ID@ != BACKUP_4_ID@,
        BACKUP_1_ID@ != BACKUP_5_ID@,
        BACKUP_2_ID@ != BACKUP_3_ID@,
        BACKUP_2_ID@ != BACKUP_4_ID@,
        BACKUP_2_ID@ != BACKUP_5_ID@,
        BACKUP_3_ID@ != BACKUP_4_ID@,
        BACKUP_3_ID@ != BACKUP_5_ID@,
        BACKUP_4_ID@ != BACKUP_5_ID@,
        BACKUP_EMPTY_ID@ != STATUS_READY_ID@,
        BACKUP_EMPTY_ID@ != STATUS_SAVED_ID@,
        BACKUP_1_ID@.len() == 19,
        BACKUP_2_ID@.len() == 19,
        BACKUP_3_ID@.len() == 19,
        BACKUP_4_ID@.len() == 19,
        BACKUP_5_ID@.len() == 19,
        BACKUP_EMPTY_ID@.len() == 23,
        STATUS_READY_ID@.len() == 23,
        STATUS_SAVED_ID@.len() == 23,
        STATUS_RETENTION_ID@.len() == 27,
        STATUS_IMPORT_SUCCESS_ID@.len() == 32,
        STATUS_FAILURE_ID@.len() == 25,
{
    reveal_strlit("intro_skip_backup_1");
    reveal_strlit("intro_skip_backup_2");
    reveal_strlit("intro_skip_backup_3");
    reveal_strlit("intro_skip_backup_4");
    reveal_strlit("intro_skip_backup_5");
    reveal_strlit("intro_skip_backup_empty");
    reveal_strlit("intro_skip_status_ready");
    reveal_strlit("intro_skip_status_saved");
    reveal_strlit("intro_skip_status_retention");
    reveal_strlit("intro_skip_status_import_success");
    reveal_strlit("intro_skip_status_failure");
    assert(BACKUP_1_ID@[18] != BACKUP_2_ID@[18]);
    assert(BACKUP_1_ID@[18] != BACKUP_3_ID@[18]);
    assert(BACKUP_1_ID@[18] != BACKUP_4_ID@[18]);
    assert(BACKUP_1_ID@[18] != BACKUP_5_ID@[18]);
    assert(BACKUP_2_ID@[18] != BACKUP_3_ID@[18]);
    assert(BACKUP_2_ID@[18] != BACKUP_4_ID@[18]);
    assert(BACKUP_2_ID@[18] != BACKUP_5_ID@[18]);
    assert(BACKUP_3_ID@[18] != BACKUP_4_ID@[18]);
    assert(BACKUP_3_ID@[18] != BACKUP_5_ID@[18]);
    assert(BACKUP_4_ID@[18] != BACKUP_5_ID@[18]);
    assert(BACKUP_EMPTY_ID@[11] != STATUS_READY_ID@[11]);
    assert(BACKUP_EMPTY_ID@[11] != STATUS_SAVED_ID@[11]);
}

proof fn lemma_status_updates_skip_backup_nodes(status: Status, id: Seq<char>)
    requires
        id.len() == 19 || id == BACKUP_EMPTY_ID@,
    ensures
        last_update(status_updates(status), id) is None,
{
    lemma_panel_ids_differ();
    reveal_with_fuel(last_update, 6);
}

proof fn lemma_backup_updates_last(backup_count: u8, k: int)
    requires
        0 <= k < BACKUP_BUTTONS,
    ensures
        last_update(backup_updates(backup_count), backup_button_id(k)) == Some(k < backup_count),
        backup_button_id(k).len() == 19,
{
    lemma_panel_ids_differ();
    let b = backup_updates(backup_count);
    let id = backup_button_id(k);
    assert(b.last().0 != id);
    assert(b.drop_last().last().0 == BACKUP_5_ID@);
    assert(b.drop_last().drop_last().last().0 == BACKUP_4_ID@);
    assert(b.drop_last().drop_last().drop_last().last().0 == BACKUP_3_ID@);
    assert(b.drop_last().drop_last().drop_last().drop_last().last().0 == BACKUP_2_ID@);
    assert(b.drop_last().drop_last().drop_last().drop_last().drop_last().last().0 == BACKUP_1_ID@);
    reveal_with_fuel(last_update, 7);
}

/// Law: in a panel sync, the `k`-th backup button (k from 0 to 4) is left
/// shown exactly when `k < backup_count`, and the "no backups" line exactly
/// when there are none: the last update for each of these nodes says so,
/// whatever the settings, the layout and the status.
pub proof fn lemma_sync_lists_each_backup(settings: Settings, show_settings: bool, status: Status, backup_count: u8)
    ensures
        forall|k: int|
            0 <= k < BACKUP_BUTTONS ==> #[trigger] last_update(
                panel_updates(settings, show_settings, status, backup_count),
                backup_button_id(k),
            ) == Some(k < backup_count),
        last_update(panel_updates(settings, show_settings, status, backup_count), BACKUP_EMPTY_ID@) == Some(
            backup_count == 0,
        ),
{
    let front = layout_updates(show_settings) + toggle_updates(settings) + retention_updates(
        settings.backup_retention_days,
    );
    let b = backup_updates(backup_count);
    let st = status_updates(status);
    assert(panel_updates(settings, show_settings, status, backup_count) == front + b + st);
    assert forall|k: int|
        0 <= k < BACKUP_BUTTONS implies #[trigger] last_update(
            panel_updates(settings, show_settings, status, backup_count),
            backup_button_id(k),
        ) == Some(k < backup_count) by {
        let id = backup_button_id(k);
        lemma_backup_updates_last(backup_count, k);
        lemma_status_updates_skip_backup_nodes(status, id);
        lemma_last_update_concat(front + b, st, id);
        lemma_last_update_concat(front, b, id);
    }
    lemma_status_updates_skip_backup_nodes(status, BACKUP_EMPTY_ID@);
    lemma_last_update_concat(front + b, st, BACKUP_EMPTY_ID@);
    lemma_last_update_concat(front, b, BACKUP_EMPTY_ID@);
    assert(last_update(b, BACKUP_EMPTY_ID@) == Some(backup_count == 0));
}

/// Applying updates in order: the first node with `id` ends with the
/// visibility of the last update for `id`, or keeps its own when there is none.
pub proof fn lemma_apply_updates_shown(n: NodeView, updates: Seq<(Seq<char>, bool)>, id: Seq<char>)
    ensures
        shown(apply_updates(n, updates), id) == match last_update(updates, id) {
            Some(v) => if shown(n, id) is Some {
                Some(v)
            } else {
                None
            },
            None => shown(n, id),
        },
    decreases updates.len(),
{
    if updates.len() > 0 {
        let first = updates[0];
        let rest = updates.drop_first();
        let n1 = set_visible(n, first.0, first.1).0;
        lemma_apply_updates_shown(n1, rest, id);
        if first.0 == id {
            lemma_set_visible_shown(n, id, first.1);
        } else {
            lemma_set_visible_other(n, first.0, id, first.1);
        }
        assert(updates =~= seq![first] + rest);
        lemma_last_update_concat(seq![first], rest, id);
        let single = seq![first];
        assert(single.drop_last() =~= Seq::<(Seq<char>, bool)>::empty());
        assert(single.last() == first);
        assert(last_update(single, id) == if first.0 == id {
            Some(first.1)
        } else {
            None::<bool>
        }) by {
            reveal_with_fuel(last_update, 2);
        }
        assert(apply_updates(n, updates) == apply_updates(n1, rest));
    }
}

/// Law: after a panel sync, the `k`-th backup button (k from 0 to 4) shows
/// exactly when `k < backup_count`, and the "no backups" line exactly when
/// there are none (for the nodes the tree has), whatever the settings, the
/// layout and the status.
pub proof fn lemma_sync_shows_each_listed_backup(
    root: NodeView,
    settings: Settings,
    show_settings: bool,
    status: Status,
    backup_count: u8,
)
    ensures
        forall|k: int|
            0 <= k < BACKUP_BUTTONS ==> #[trigger] shown(
                apply_updates(root, panel_updates(settings, show_settings, status, backup_count)),
                backup_button_id(k),
            ) == (if shown(root, backup_button_id(k)) is Some {
                Some(k < backup_count)
            } else {
                None
            }),
        shown(apply_updates(root, panel_updates(settings, show_settings, status, backup_count)), BACKUP_EMPTY_ID@)
            == (if shown(root, BACKUP_EMPTY_ID@) is Some {
            Some(backup_count == 0)
        } else {
            None
        }),
{
    let u = panel_updates(settings, show_settings, status, backup_count);
    lemma_sync_lists_each_backup(settings, show_settings, status, backup_count);
    assert forall|k: int| 0 <= k < BACKUP_BUTTONS implies #[trigger] shown(apply_updates(root, u), backup_button_id(k))
        == (if shown(root, backup_button_id(k)) is Some {
        Some(k < backup_count)
    } else {
        None
    }) by {
        lemma_apply_updates_shown(root, u, backup_button_id(k));
        assert(last_update(u, backup_button_id(k)) == Some(k < backup_count));
    }
    lemma_apply_updates_shown(root, u, BACKUP_EMPTY_ID@);
}

/// The updates that hide the panel's own nodes while Better Mod Menu owns the screen.
pub open spec fn hide_updates() -> Seq<(Seq<char>, bool)> {
    seq![(SETTINGS_PANEL_ID@, false), (HEADER_VERSION_ID@, false), (HEADER_DEPENDENCIES_ID@, false)]
}

pub open spec fn updates_view(u: Seq<(String, bool)>) -> Seq<(Seq<char>, bool)> {
    u.map_values(|e: (String, bool)| (e.0@, e.1))
}

/// The tree after applying `updates[k..]` in order with `set_visible`.
pub open spec fn apply_updates(n: NodeView, updates: Seq<(Seq<char>, bool)>) -> NodeView
    decreases updates.len(),
{
    if updates.len() == 0 {
        n
    } else {
        apply_updates(set_visible(n, updates[0].0, updates[0].1).0, updates.drop_first())
    }
}

fn push_update(updates: &mut Vec<(String, bool)>, id: &str, visible: bool)
    ensures
        updates_view(final(updates)@) == updates_view(old(updates)@).push((id@, visible)),
{
    updates.push((id.to_owned(), visible));
    assert(updates_view(updates@) =~= updates_view(old(updates)@).push((id@, visible)));
}

fn push_layout_updates(u: &mut Vec<(String, bool)>, show_settings: bool)
    ensures
        updates_view(final(u)@) == updates_view(old(u)@) + layout_updates(show_settings),
{
    let ghost start = updates_view(u@);
    push_update(u, DESCRIPTION_PANEL_ID, !show_settings);
    push_update(u, SETTINGS_PANEL_ID, show_settings);
    push_update(u, HEADER_VERSION_ID, show_settings);
    push_update(u, HEADER_DEPENDENCIES_ID, show_settings);
    push_update(u, DEPS_PANEL_ID, !show_settings);
    push_update(u, VERSION_PANEL_ID, !show_settings);
    assert(updates_view(u@) =~= start + layout_updates(show_settings));
}

fn push_toggle_updates(u: &mut Vec<(String, bool)>, settings: Settings)
    ensures
        updates_view(final(u)@) == updates_view(old(u)@) + toggle_updates(settings),
{
    let ghost start = updates_view(u@);
    push_update(u, DISCLAIMER_ON_ID, settings.skip_disclaimer);
    push_update(u, DISCLAIMER_OFF_ID, !settings.skip_disclaimer);
    push_update(u, CONTINUE_ON_ID, settings.auto_continue);
    push_update(u, CONTINUE_OFF_ID, !settings.auto_continue);
    push_update(u, FORCE_ON_ID, settings.auto_load_anyway);
    push_update(u, FORCE_OFF_ID, !settings.auto_load_anyway);
    assert(updates_view(u@) =~= start + toggle_updates(settings));
}

fn push_retention_updates(u: &mut Vec<(String, bool)>, days: u8)
    ensures
        updates_view(final(u)@) == updates_view(old(u)@) + retention_updates(days),
{
    let ghost start = updates_view(u@);
    push_update(u, RETENTION_3_ON_ID, days == 3);
    push_update(u, RETENTION_3_OFF_ID, days != 3);
    push_update(u, RETENTION_7_ON_ID, days == 7);
    push_update(u, RETENTION_7_OFF_ID, days != 7);
    push_update(u, RETENTION_14_ON_ID, days == 14);
    push_update(u, RETENTION_14_OFF_ID, days != 14);
    push_update(u, RETENTION_30_ON_ID, days == 30);
    push_update(u, RETENTION_30_OFF_ID, days != 30);
    assert(updates_view(u@) =~= start + retention_updates(days));
}

fn push_backup_updates(u: &mut Vec<(String, bool)>, backup_count: u8)
    ensures
        updates_view(final(u)@) == updates_view(old(u)@) + backup_updates(backup_count),
{
    let ghost start = updates_view(u@);
    push_update(u, BACKUP_1_ID, 0 < backup_count);
    push_update(u, BACKUP_2_ID, 1 < backup_count);
    push_update(u, BACKUP_3_ID, 2 < backup_count);
    push_update(u, BACKUP_4_ID, 3 < backup_count);
    push_update(u, BACKUP_5_ID, 4 < backup_count);
    push_update(u, BACKUP_EMPTY_ID, backup_count == 0);
    assert(updates_view(u@) =~= start + backup_updates(backup_count));
}

fn push_status_updates(u: &mut Vec<(String, bool)>, status: Status)
    ensures
        updates_view(final(u)@) == updates_view(old(u)@) + status_updates(status),
{
    let ghost start = updates_view(u@);
    push_update(u, STATUS_READY_ID, status == Status::Ready);
    push_update(u, STATUS_SAVED_ID, status == Status::Saved);
    push_update(u, STATUS_RETENTION_ID, status == Status::Retention);
    push_update(u, STATUS_IMPORT_SUCCESS_ID, status == Status::ImportSuccess);
    push_update(u, STATUS_FAILURE_ID, status == Status::Failure);
    assert(updates_view(u@) =~= start + status_updates(status));
}

/// The visibility updates for the panel; see `panel_updates`.
pub fn settings_panel_updates(settings: Settings, show_settings: bool, status: Status, backup_count: u8) -> (u: Vec<(String, bool)>)
    ensures
        updates_view(u@) == panel_updates(settings, show_settings, status, backup_count),
{
    let mut u: Vec<(String, bool)> = Vec::new();
    assert(updates_view(u@) =~= seq![]);
    push_layout_updates(&mut u, show_settings);
    push_toggle_updates(&mut u, settings);
    push_retention_updates(&mut u, settings.backup_retention_days);
    push_backup_updates(&mut u, backup_count);
    push_status_updates(&mut u, status);
    assert(updates_view(u@) =~= panel_updates(settings, show_settings, status, backup_count));
    u
}

/// Applies visibility updates in order.
pub fn apply_visibility_updates(root: &mut UiNode, updates: &Vec<(String, bool)>)
    ensures
        final(root)@ == apply_updates(old(root)@, updates_view(updates@)),
{
    let mut i: usize = 0;
    assert(updates_view(updates@).skip(0) =~= updates_view(updates@));
    while i < updates.len()
        invariant
            i <= updates.len(),
            apply_updates(old(root)@, updates_view(updates@)) == apply_updates(root@, updates_view(updates@).skip(i as int)),
        decreases updates.len() - i,
    {
        let ghost before = root@;
        let (id, visible) = &updates[i];
        set_node_visible(root, id, *visible);
        assert(updates_view(updates@).skip(i as int).drop_first() =~= updates_view(updates@).skip(i + 1));
        i = i + 1;
    }
    assert(updates_view(updates@).skip(i as int) =~= seq![]);
}

/// Brings the mod's own settings panel in line with the settings, the status
/// and the number of recent backups; see `panel_updates`.
pub fn sync_settings_panel(root: &mut UiNode, settings: Settings, show_settings: bool, status: Status, backup_count: u8)
    ensures
        final(root)@ == apply_updates(old(root)@, panel_updates(settings, show_settings, status, backup_count)),
        forall|k: int|
            0 <= k < BACKUP_BUTTONS ==> #[trigger] shown(final(root)@, backup_button_id(k)) == (if shown(
                old(root)@,
                backup_button_id(k),
            ) is Some {
                Some(k < backup_count)
            } else {
                None
            }),
{
    let updates = settings_panel_updates(settings, show_settings, status, backup_count);
    apply_visibility_updates(root, &updates);
    proof {
        lemma_sync_shows_each_listed_backup(old(root)@, settings, show_settings, status, backup_count);
    }
}

/// Hides the mod's own settings nodes (while Better Mod Menu owns the screen).
pub fn hide_intro_skip_settings_panel(root: &mut UiNode)
    ensures
        final(root)@ == apply_updates(old(root)@, hide_updates()),
{
    let mut u: Vec<(String, bool)> = Vec::new();
    push_update(&mut u, SETTINGS_PANEL_ID, false);
    push_update(&mut u, HEADER_VERSION_ID, false);
    push_update(&mut u, HEADER_DEPENDENCIES_ID, false);
    assert(updates_view(u@) =~= hide_updates());
    apply_visibility_updates(root, &u);
}

/// Whether this frame should rewrite the native settings panel: never while
/// Better Mod Menu is active, otherwise while the panel shows or has just been closed.
pub fn should_sync_native_settings_panel(better_mod_menu_active: bool, show_settings: bool, was_showing_settings: bool) -> (b: bool)
    ensures
        b == (!better_mod_menu_active && (show_settings || was_showing_settings)),
{
    !better_mod_menu_active && (show_settings || was_showing_settings)
}

} // verus!
