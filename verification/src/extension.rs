//! The mod's per-frame decisions. The game calls the mod once per frame; the
//! outside work of a frame (reading the UI, the mouse, files; clicking) is done
//! by the caller, which asks the methods here what to do next and reports back.
use vstd::prelude::*;
use crate::notice::{tick, Status, StatusNotice};
use crate::panel::{
    hide_intro_skip_settings_panel, hide_updates, panel_updates, apply_updates, sync_settings_panel, retention_updates,
    toggle_updates,
};
use crate::settings::{is_retention_choice, unwrap_or, with_flag, SettingKey, Settings};
use crate::ui_tree::UiNode;
use crate::json::{json_string, json_u8, read_json_string, read_json_u8};
use crate::panel::{
    BACKUP_1_ID, BACKUP_2_ID, BACKUP_3_ID, BACKUP_4_ID, BACKUP_5_ID, CONTINUE_OFF_ID, CONTINUE_ON_ID,
    DISCLAIMER_OFF_ID, DISCLAIMER_ON_ID, FORCE_OFF_ID, FORCE_ON_ID, RETENTION_14_OFF_ID,
    RETENTION_14_ON_ID, RETENTION_30_OFF_ID, RETENTION_30_ON_ID, RETENTION_3_OFF_ID,
    RETENTION_3_ON_ID, RETENTION_7_OFF_ID, RETENTION_7_ON_ID, backup_button_id, BACKUP_BUTTONS,
};

verus! {

/// Frames a prompt must stay visible before the mod acts on it.
pub const READY_FRAMES: usize = 2;
/// While Better Mod Menu is open, settings and its action file are re-read every this many frames.
pub const RELOAD_PERIOD: usize = 30;

/// The mod's state between frames.
pub struct IntroSkipExtension {
    settings: Settings,
    status_notice: StatusNotice,
    backup_count: u8,
    settings_panel_visible: bool,
    title_ready_frames: usize,
    auto_continue_sent: bool,
    mismatch_ready_frames: usize,
    mismatch_click_sent: bool,
    mismatch_backup_ready: bool,
    mismatch_backup_failed: bool,
    retention_checked: bool,
    settings_mouse_down: bool,
    settings_reload_tick: usize,
}

/// The model of the mod's state.
pub struct ExtensionView {
    pub settings: Settings,
    pub notice: (Status, nat),
    pub backup_count: u8,
    pub settings_panel_visible: bool,
    pub title_ready_frames: usize,
    pub auto_continue_sent: bool,
    pub mismatch_ready_frames: usize,
    pub mismatch_click_sent: bool,
    pub mismatch_backup_ready: bool,
    pub mismatch_backup_failed: bool,
    pub retention_checked: bool,
    pub settings_mouse_down: bool,
    pub settings_reload_tick: usize,
}

impl View for IntroSkipExtension {
    type V = ExtensionView;

    closed spec fn view(&self) -> ExtensionView {
        ExtensionView {
            settings: self.settings,
            notice: self.status_notice@,
            backup_count: self.backup_count,
            settings_panel_visible: self.settings_panel_visible,
            title_ready_frames: self.title_ready_frames,
            auto_continue_sent: self.auto_continue_sent,
            mismatch_ready_frames: self.mismatch_ready_frames,
            mismatch_click_sent: self.mismatch_click_sent,
            mismatch_backup_ready: self.mismatch_backup_ready,
            mismatch_backup_failed: self.mismatch_backup_failed,
            retention_checked: self.retention_checked,
            settings_mouse_down: self.settings_mouse_down,
            settings_reload_tick: self.settings_reload_tick,
        }
    }
}

/// The state the mod starts in, with the settings it loaded.
pub open spec fn initial_view(settings: Settings) -> ExtensionView {
    ExtensionView {
        settings,
        notice: (Status::Ready, 0),
        backup_count: 0,
        settings_panel_visible: false,
        title_ready_frames: 0,
        auto_continue_sent: false,
        mismatch_ready_frames: 0,
        mismatch_click_sent: false,
        mismatch_backup_ready: false,
        mismatch_backup_failed: false,
        retention_checked: false,
        settings_mouse_down: false,
        settings_reload_tick: 0,
    }
}

/// What the caller does at the start of each frame.
#[derive(Clone, Copy, PartialEq, Eq, Debug)]
pub struct FrameStart {
    /// Remove expired backups with this retention (once per game session).
    pub cleanup_retention_days: Option<u8>,
    /// Finish the startup disclaimer now.
    pub skip_disclaimer: bool,
}

impl IntroSkipExtension {
    pub fn new(settings: Settings) -> (e: Self)
        ensures
            e@ == initial_view(settings),
    {
        IntroSkipExtension {
            settings,
            status_notice: StatusNotice::new(),
            backup_count: 0,
            settings_panel_visible: false,
            title_ready_frames: 0,
            auto_continue_sent: false,
            mismatch_ready_frames: 0,
            mismatch_click_sent: false,
            mismatch_backup_ready: false,
            mismatch_backup_failed: false,
            retention_checked: false,
            settings_mouse_down: false,
            settings_reload_tick: 0,
        }
    }

    /// The settings in force.
    pub fn snapshot(&self) -> (s: Settings)
        ensures
            s == self@.settings,
    {
        self.settings
    }

    /// Replaces the settings in force (after they were read again).
    pub fn apply(&mut self, settings: Settings)
        ensures
            final(self)@ == step(old(self)@, Event::Apply(settings)),
            final(self)@ == (ExtensionView { settings, ..old(self)@ }),
    {
        self.settings = settings;
    }

    /// On entering the title scene: finish the disclaimer when the setting asks for it.
    pub fn on_init(&self) -> (skip: bool)
        ensures
            skip == self@.settings.skip_disclaimer,
    {
        self.settings.skip_disclaimer
    }

    /// The start of a frame: the retention cleanup runs on the first frame only;
    /// the disclaimer is finished whenever the setting asks for it.
    pub fn begin_update(&mut self) -> (start: FrameStart)
        ensures
            final(self)@ == step(old(self)@, Event::BeginUpdate),
            final(self)@ == (ExtensionView { retention_checked: true, ..old(self)@ }),
            start.cleanup_retention_days == (if old(self)@.retention_checked {
                None
            } else {
                Some(old(self)@.settings.backup_retention_days)
            }),
            start.skip_disclaimer == old(self)@.settings.skip_disclaimer,
    {
        let first = !self.retention_checked;
        self.retention_checked = true;
        FrameStart {
            cleanup_retention_days: if first {
                Some(self.settings.backup_retention_days)
            } else {
                None
            },
            skip_disclaimer: self.settings.skip_disclaimer,
        }
    }

    /// The title screen's part of a frame, once the retention check and the
    /// disclaimer skip are done. Off the title screen (or while its disclaimer
    /// still shows) the frame stops there and nothing changes. On it, counts
    /// frames while Better Mod Menu is open and tells when to re-read the
    /// settings and the menu's action file (the first frame, then every
    /// `RELOAD_PERIOD` frames); closing the menu restarts the count.
    pub fn title_frame(&mut self, title_ready: bool, better_mod_menu_active: bool) -> (f: TitleFrame)
        ensures
            final(self)@ == step(old(self)@, Event::TitleFrame(title_ready, better_mod_menu_active)),
            !title_ready ==> final(self)@ == old(self)@ && f == TitleFrame::Stop,
            title_ready && better_mod_menu_active ==> final(self)@ == (ExtensionView {
                settings_reload_tick: if old(self)@.settings_reload_tick == usize::MAX {
                    0
                } else {
                    (old(self)@.settings_reload_tick + 1) as usize
                },
                ..old(self)@
            }) && f == (TitleFrame::Continue { reload: old(self)@.settings_reload_tick % RELOAD_PERIOD == 0 }),
            title_ready && !better_mod_menu_active ==> final(self)@ == (ExtensionView {
                settings_reload_tick: 0,
                ..old(self)@
            }) && f == (TitleFrame::Continue { reload: false }),
    {
        if !title_ready {
            return TitleFrame::Stop;
        }
        if better_mod_menu_active {
            let tick = self.settings_reload_tick;
            self.settings_reload_tick = tick.wrapping_add(1);
            TitleFrame::Continue { reload: tick % RELOAD_PERIOD == 0 }
        } else {
            self.settings_reload_tick = 0;
            TitleFrame::Continue { reload: false }
        }
    }

    /// The settings panel's part of a frame, before the panel is drawn: detects a
    /// fresh left-button press (only while Better Mod Menu is closed), decides
    /// whether the mod's own panel shows, and asks for a recount of the backups
    /// when the panel has just opened.
    pub fn panel_frame(&mut self, better_mod_menu_active: bool, mouse_down: bool, selected_mod_is_intro_skip: bool) -> (f: PanelFrame)
        ensures
            final(self)@ == step(old(self)@, Event::PanelFrame(better_mod_menu_active, mouse_down, selected_mod_is_intro_skip)),
            f == panel_frame_spec(old(self)@, better_mod_menu_active, mouse_down, selected_mod_is_intro_skip).1,
            final(self)@ == panel_frame_spec(old(self)@, better_mod_menu_active, mouse_down, selected_mod_is_intro_skip).0,
    {
        let mouse_pressed = if better_mod_menu_active {
            false
        } else {
            let was_down = self.settings_mouse_down;
            self.settings_mouse_down = mouse_down;
            mouse_down && !was_down
        };
        let show_settings = !better_mod_menu_active && selected_mod_is_intro_skip;
        let was_showing_settings = self.settings_panel_visible;
        self.settings_panel_visible = show_settings;
        PanelFrame {
            show_settings,
            was_showing_settings,
            mouse_pressed,
            refresh_backup_count: show_settings && !was_showing_settings,
        }
    }

    /// Records how many recent backups the panel lists.
    pub fn set_backup_count(&mut self, count: u8)
        ensures
            final(self)@ == step(old(self)@, Event::SetBackupCount(count)),
            final(self)@ == (ExtensionView { backup_count: count, ..old(self)@ }),
    {
        self.backup_count = count;
    }

    /// Draws the panel's part of a frame: counts a frame of the status notice,
    /// hides the mod's own nodes while Better Mod Menu is open, and otherwise
    /// brings the native panel in line while it shows or has just closed.
    pub fn sync_panel(&mut self, root: &mut UiNode, better_mod_menu_active: bool, frame: PanelFrame)
        ensures
            final(self)@ == step(old(self)@, Event::SyncPanel),
            final(self)@ == (ExtensionView { notice: tick(old(self)@.notice).0, ..old(self)@ }),
            final(root)@ == (if better_mod_menu_active {
                apply_updates(old(root)@, hide_updates())
            } else if frame.show_settings || frame.was_showing_settings {
                apply_updates(
                    old(root)@,
                    panel_updates(old(self)@.settings, frame.show_settings, tick(old(self)@.notice).1, old(self)@.backup_count),
                )
            } else {
                old(root)@
            }),
    {
        let status = self.status_notice.current_and_tick();
        if better_mod_menu_active {
            hide_intro_skip_settings_panel(root);
        } else if crate::panel::should_sync_native_settings_panel(
            better_mod_menu_active,
            frame.show_settings,
            frame.was_showing_settings,
        ) {
            sync_settings_panel(root, self.settings, frame.show_settings, status, self.backup_count);
        }
    }
}

/// A clickable control of the settings panel.
#[derive(Clone, Copy, PartialEq, Eq, Debug)]
pub enum SettingsControl {
    /// An on/off switch: clicking the shown "on" node turns the flag off, and the "off" node on.
    Flag { key: SettingKey, value: bool },
    /// A retention choice.
    Retention { days: u8 },
    /// One of the listed recent backups (0 is the newest).
    Backup { index: usize },
}

/// The outside work a click asks for.
#[derive(Clone, Copy, PartialEq, Eq, Debug)]
pub enum ClickEffect {
    /// Write these settings; then report with `finish_settings_save`.
    SaveSettings { settings: Settings },
    /// Write these settings, remove backups older than `retention_days`, recount
    /// the backups; then report with `finish_retention_change`.
    SaveAndCleanup { settings: Settings, retention_days: u8 },
    /// Import this backup into the Load menu; then report with `finish_import`.
    ImportBackup { index: usize },
}

/// What Better Mod Menu's action file asks for.
#[derive(Clone, Copy, PartialEq, Eq, Debug)]
pub enum BmmRequest {
    ImportBackup { index: usize },
    Unsupported,
}

/// The settings after a click on `control`.
pub open spec fn settings_after_click(settings: Settings, control: SettingsControl) -> Settings {
    match control {
        SettingsControl::Flag { key, value } => with_flag(settings, key, value),
        SettingsControl::Retention { days } => Settings { backup_retention_days: days, ..settings },
        SettingsControl::Backup { .. } => settings,
    }
}

pub open spec fn click_effect(settings: Settings, control: SettingsControl) -> ClickEffect {
    let after = settings_after_click(settings, control);
    match control {
        SettingsControl::Flag { .. } => ClickEffect::SaveSettings { settings: after },
        SettingsControl::Retention { days } => ClickEffect::SaveAndCleanup { settings: after, retention_days: days },
        SettingsControl::Backup { index } => ClickEffect::ImportBackup { index },
    }
}

impl IntroSkipExtension {
    /// A click on a control of the settings panel.
    pub fn settings_click(&mut self, control: SettingsControl) -> (effect: ClickEffect)
        ensures
            final(self)@ == step(old(self)@, Event::SettingsClick(control)),
            final(self)@ == (ExtensionView { settings: settings_after_click(old(self)@.settings, control), ..old(self)@ }),
            effect == click_effect(old(self)@.settings, control),
    {
        match control {
            SettingsControl::Flag { key, value } => {
                key.store(&mut self.settings, value);
                ClickEffect::SaveSettings { settings: self.settings }
            },
            SettingsControl::Retention { days } => {
                self.settings.backup_retention_days = days;
                ClickEffect::SaveAndCleanup { settings: self.settings, retention_days: days }
            },
            SettingsControl::Backup { index } => ClickEffect::ImportBackup { index },
        }
    }

    /// Reports whether the settings were written: "saved", or the failure notice.
    pub fn finish_settings_save(&mut self, saved: bool)
        ensures
            final(self)@ == step(old(self)@, Event::FinishSettingsSave(saved)),
            final(self)@ == (ExtensionView {
                notice: (if saved { Status::Saved } else { Status::Failure }, crate::notice::STATUS_NOTICE_FRAMES as nat),
                ..old(self)@
            }),
    {
        self.status_notice.show(if saved { Status::Saved } else { Status::Failure });
    }

    /// Reports a retention change: the retention notice only when the settings were
    /// written and the cleanup succeeded.
    pub fn finish_retention_change(&mut self, saved: bool, cleaned: bool)
        ensures
            final(self)@ == step(old(self)@, Event::FinishRetentionChange(saved, cleaned)),
            final(self)@ == (ExtensionView {
                notice: (if saved && cleaned { Status::Retention } else { Status::Failure }, crate::notice::STATUS_NOTICE_FRAMES as nat),
                ..old(self)@
            }),
    {
        self.status_notice.show(if saved && cleaned { Status::Retention } else { Status::Failure });
    }

    /// Reports a backup import.
    pub fn finish_import(&mut self, imported: bool)
        ensures
            final(self)@ == step(old(self)@, Event::FinishImport(imported)),
            final(self)@ == (ExtensionView {
                notice: (if imported { Status::ImportSuccess } else { Status::Failure }, crate::notice::STATUS_NOTICE_FRAMES as nat),
                ..old(self)@
            }),
    {
        self.status_notice.show(if imported { Status::ImportSuccess } else { Status::Failure });
    }

    /// Reports an action file that asked for nothing the mod supports.
    pub fn reject_request(&mut self)
        ensures
            final(self)@ == step(old(self)@, Event::RejectRequest),
            final(self)@ == (ExtensionView {
                notice: (Status::Failure, crate::notice::STATUS_NOTICE_FRAMES as nat),
                ..old(self)@
            }),
    {
        self.status_notice.show(Status::Failure);
    }
}

/// How a frame goes on after `IntroSkipExtension::title_frame`.
#[derive(Clone, Copy, PartialEq, Eq, Debug)]
pub enum TitleFrame {
    /// Not on the ready title screen: nothing more this frame.
    Stop,
    /// On the title screen; `reload` asks to re-read the settings and Better
    /// Mod Menu's action file first.
    Continue { reload: bool },
}

/// The settings panel's decisions for one frame; see `IntroSkipExtension::panel_frame`.
#[derive(Clone, Copy, PartialEq, Eq, Debug)]
pub struct PanelFrame {
    pub show_settings: bool,
    pub was_showing_settings: bool,
    pub mouse_pressed: bool,
    pub refresh_backup_count: bool,
}

pub open spec fn panel_frame_spec(v: ExtensionView, better_mod_menu_active: bool, mouse_down: bool, selected_mod_is_intro_skip: bool) -> (ExtensionView, PanelFrame) {
    let show = !better_mod_menu_active && selected_mod_is_intro_skip;
    let pressed = !better_mod_menu_active && mouse_down && !v.settings_mouse_down;
    let mouse_down_after = if better_mod_menu_active { v.settings_mouse_down } else { mouse_down };
    (
        ExtensionView { settings_mouse_down: mouse_down_after, settings_panel_visible: show, ..v },
        PanelFrame {
            show_settings: show,
            was_showing_settings: v.settings_panel_visible,
            mouse_pressed: pressed,
            refresh_backup_count: show && !v.settings_panel_visible,
        },
    )
}


pub open spec fn flag_controls() -> Seq<(Seq<char>, SettingsControl)> {
    seq![
        (DISCLAIMER_ON_ID@, SettingsControl::Flag { key: SettingKey::SkipDisclaimer, value: false }),
        (DISCLAIMER_OFF_ID@, SettingsControl::Flag { key: SettingKey::SkipDisclaimer, value: true }),
        (CONTINUE_ON_ID@, SettingsControl::Flag { key: SettingKey::AutoContinue, value: false }),
        (CONTINUE_OFF_ID@, SettingsControl::Flag { key: SettingKey::AutoContinue, value: true }),
        (FORCE_ON_ID@, SettingsControl::Flag { key: SettingKey::AutoLoadAnyway, value: false }),
        (FORCE_OFF_ID@, SettingsControl::Flag { key: SettingKey::AutoLoadAnyway, value: true }),
    ]
}

pub open spec fn retention_controls() -> Seq<(Seq<char>, SettingsControl)> {
    seq![
        (RETENTION_3_ON_ID@, SettingsControl::Retention { days: 3 }),
        (RETENTION_3_OFF_ID@, SettingsControl::Retention { days: 3 }),
        (RETENTION_7_ON_ID@, SettingsControl::Retention { days: 7 }),
        (RETENTION_7_OFF_ID@, SettingsControl::Retention { days: 7 }),
        (RETENTION_14_ON_ID@, SettingsControl::Retention { days: 14 }),
        (RETENTION_14_OFF_ID@, SettingsControl::Retention { days: 14 }),
        (RETENTION_30_ON_ID@, SettingsControl::Retention { days: 30 }),
        (RETENTION_30_OFF_ID@, SettingsControl::Retention { days: 30 }),
    ]
}

pub open spec fn backup_controls() -> Seq<(Seq<char>, SettingsControl)> {
    seq![
        (BACKUP_1_ID@, SettingsControl::Backup { index: 0 }),
        (BACKUP_2_ID@, SettingsControl::Backup { index: 1 }),
        (BACKUP_3_ID@, SettingsControl::Backup { index: 2 }),
        (BACKUP_4_ID@, SettingsControl::Backup { index: 3 }),
        (BACKUP_5_ID@, SettingsControl::Backup { index: 4 }),
    ]
}

/// The panel's controls in the order a click is tested against them: the
/// switches, the retention choices, then the backup buttons.
pub open spec fn controls_spec() -> Seq<(Seq<char>, SettingsControl)> {
    flag_controls() + retention_controls() + backup_controls()
}

pub open spec fn controls_view(c: Seq<(String, SettingsControl)>) -> Seq<(Seq<char>, SettingsControl)> {
    c.map_values(|e: (String, SettingsControl)| (e.0@, e.1))
}

fn push_control(c: &mut Vec<(String, SettingsControl)>, id: &str, control: SettingsControl)
    ensures
        controls_view(final(c)@) == controls_view(old(c)@).push((id@, control)),
{
    c.push((id.to_owned(), control));
    assert(controls_view(c@) =~= controls_view(old(c)@).push((id@, control)));
}

/// The panel's controls with their node ids, in the order a click is tested.
pub fn settings_controls() -> (c: Vec<(String, SettingsControl)>)
    ensures
        controls_view(c@) == controls_spec(),
{
    let mut c: Vec<(String, SettingsControl)> = Vec::new();
    push_control(&mut c, DISCLAIMER_ON_ID, SettingsControl::Flag { key: SettingKey::SkipDisclaimer, value: false });
    push_control(&mut c, DISCLAIMER_OFF_ID, SettingsControl::Flag { key: SettingKey::SkipDisclaimer, value: true });
    push_control(&mut c, CONTINUE_ON_ID, SettingsControl::Flag { key: SettingKey::AutoContinue, value: false });
    push_control(&mut c, CONTINUE_OFF_ID, SettingsControl::Flag { key: SettingKey::AutoContinue, value: true });
    push_control(&mut c, FORCE_ON_ID, SettingsControl::Flag { key: SettingKey::AutoLoadAnyway, value: false });
    push_control(&mut c, FORCE_OFF_ID, SettingsControl::Flag { key: SettingKey::AutoLoadAnyway, value: true });
    let ghost g1 = controls_view(c@);
    assert(g1 =~= flag_controls());
    push_control(&mut c, RETENTION_3_ON_ID, SettingsControl::Retention { days: 3 });
    push_control(&mut c, RETENTION_3_OFF_ID, SettingsControl::Retention { days: 3 });
    push_control(&mut c, RETENTION_7_ON_ID, SettingsControl::Retention { days: 7 });
    push_control(&mut c, RETENTION_7_OFF_ID, SettingsControl::Retention { days: 7 });
    push_control(&mut c, RETENTION_14_ON_ID, SettingsControl::Retention { days: 14 });
    push_control(&mut c, RETENTION_14_OFF_ID, SettingsControl::Retention { days: 14 });
    push_control(&mut c, RETENTION_30_ON_ID, SettingsControl::Retention { days: 30 });
    push_control(&mut c, RETENTION_30_OFF_ID, SettingsControl::Retention { days: 30 });
    let ghost g2 = controls_view(c@);
    assert(g2 =~= g1 + retention_controls());
    push_control(&mut c, BACKUP_1_ID, SettingsControl::Backup { index: 0 });
    push_control(&mut c, BACKUP_2_ID, SettingsControl::Backup { index: 1 });
    push_control(&mut c, BACKUP_3_ID, SettingsControl::Backup { index: 2 });
    push_control(&mut c, BACKUP_4_ID, SettingsControl::Backup { index: 3 });
    push_control(&mut c, BACKUP_5_ID, SettingsControl::Backup { index: 4 });
    assert(controls_view(c@) =~= g2 + backup_controls());
    c
}

/// The other node of the on/off pair at position `i` of a list of pairs.
pub open spec fn partner(i: int) -> int {
    if i % 2 == 0 {
        i + 1
    } else {
        i - 1
    }
}

/// Law: clicking the shown node of a switch flips it: the switch controls sit
/// on the panel's switch nodes in the same order, and after the click the
/// clicked node is hidden and the other node of its pair shown.
pub proof fn lemma_switch_click_flips(settings: Settings)
    ensures
        forall|i: int|
            0 <= i < 6 && (#[trigger] toggle_updates(settings)[i]).1 ==> {
                let control = controls_spec()[i];
                let after = toggle_updates(settings_after_click(settings, control.1));
                &&& control.0 == toggle_updates(settings)[i].0
                &&& !after[i].1
                &&& after[partner(i)].1
            },
{
    assert(controls_spec()[0] == flag_controls()[0]);
    assert(controls_spec()[1] == flag_controls()[1]);
    assert(controls_spec()[2] == flag_controls()[2]);
    assert(controls_spec()[3] == flag_controls()[3]);
    assert(controls_spec()[4] == flag_controls()[4]);
    assert(controls_spec()[5] == flag_controls()[5]);
}

/// Law: clicking a retention node selects its number of days: the retention
/// controls sit on the panel's retention nodes in the same order, and after
/// the click the "on" node of that choice shows and the pair's "off" node is hidden.
pub proof fn lemma_retention_click_selects(settings: Settings)
    ensures
        forall|j: int|
            0 <= j < 8 ==> {
                let control = #[trigger] controls_spec()[6 + j];
                let after = retention_updates(settings_after_click(settings, control.1).backup_retention_days);
                let on = j - j % 2;
                &&& control.0 == retention_updates(settings.backup_retention_days)[j].0
                &&& after[on].1
                &&& !after[on + 1].1
            },
{
    assert forall|j: int| 0 <= j < 8 implies {
        let control = #[trigger] controls_spec()[6 + j];
        let after = retention_updates(settings_after_click(settings, control.1).backup_retention_days);
        let on = j - j % 2;
        &&& control.0 == retention_updates(settings.backup_retention_days)[j].0
        &&& after[on].1
        &&& !after[on + 1].1
    } by {
        assert(controls_spec()[6 + j] == retention_controls()[j]);
    }
}

/// `entry` is the control of the `k`-th backup button, importing the `k`-th listed backup.
pub open spec fn imports_backup(entry: (Seq<char>, SettingsControl), k: int) -> bool {
    entry.0 == backup_button_id(k) && entry.1 == SettingsControl::Backup { index: k as usize }
}

/// Some control is the `k`-th backup button's, importing the `k`-th listed backup.
pub open spec fn has_backup_control(k: int) -> bool {
    exists|i: int| 0 <= i < controls_spec().len() && imports_backup(#[trigger] controls_spec()[i], k)
}

/// Law: the `k`-th backup button imports the `k`-th listed backup: every
/// backup control sits on the button of its own index, one of the listed
/// ones, and every button has such a control.
pub proof fn lemma_backup_buttons_import_their_own_backup()
    ensures
        forall|i: int|
            0 <= i < controls_spec().len() && (#[trigger] controls_spec()[i]).1 is Backup ==> {
                let index = controls_spec()[i].1->Backup_index;
                index < BACKUP_BUTTONS && imports_backup(controls_spec()[i], index as int)
            },
        forall|k: int| 0 <= k < BACKUP_BUTTONS ==> #[trigger] has_backup_control(k),
{
    assert forall|k: int| 0 <= k < BACKUP_BUTTONS implies #[trigger] has_backup_control(k) by {
        assert(controls_spec().len() == 19);
        assert(imports_backup(controls_spec()[14 + k], k));
    }
}

/// The control a click lands on: the first control, in test order, whose node
/// the caller found under the pointer (`hits[i]` for the `i`-th control).
pub fn clicked_control(hits: &Vec<bool>) -> (c: Option<SettingsControl>)
    ensures
        match c {
            Some(control) => exists|i: int| 0 <= i < controls_spec().len() && i < hits@.len() && hits@[i]
                && (forall|j: int| 0 <= j < i ==> !#[trigger] hits@[j]) && control == controls_spec()[i].1,
            None => forall|i: int| 0 <= i < controls_spec().len() && i < hits@.len() ==> !#[trigger] hits@[i],
        },
        c matches Some(SettingsControl::Backup { index }) ==> index < BACKUP_BUTTONS && exists|i: int|
            0 <= i < controls_spec().len() && i < hits@.len() && hits@[i] && (#[trigger] controls_spec()[i]).0
                == backup_button_id(index as int),
{
    let controls = settings_controls();
    let mut i: usize = 0;
    while i < controls.len() && i < hits.len()
        invariant
            controls_view(controls@) == controls_spec(),
            i <= controls@.len(),
            forall|j: int| 0 <= j < i ==> !#[trigger] hits@[j],
        decreases controls.len() - i,
    {
        if hits[i] {
            assert(controls_view(controls@)[i as int].1 == controls@[i as int].1);
            assert(controls_spec()[i as int].1 == controls@[i as int].1);
            proof {
                lemma_backup_buttons_import_their_own_backup();
                assert(hits@[i as int]);
            }
            return Some(controls[i].1);
        }
        i = i + 1;
    }
    None
}

/// What the action file asks for: an import when its `action` is `import_backup`
/// or `import_latest_backup` (of the backup at `index`, 0 when missing); otherwise nothing supported.
pub open spec fn bmm_request_spec(source: Seq<char>) -> BmmRequest {
    let action = unwrap_or(json_string(source, "action"@), seq![]);
    if action == "import_backup"@ || action == "import_latest_backup"@ {
        BmmRequest::ImportBackup { index: unwrap_or(json_u8(source, "index"@), 0u8) as usize }
    } else {
        BmmRequest::Unsupported
    }
}

/// Reads Better Mod Menu's action file.
pub fn bmm_request(source: &str) -> (r: BmmRequest)
    ensures
        r == bmm_request_spec(source@),
{
    let action = match read_json_string(source, "action") {
        Some(a) => a,
        None => String::new(),
    };
    let import = "import_backup".to_owned();
    let import_latest = "import_latest_backup".to_owned();
    if action == import || action == import_latest {
        let index = match read_json_u8(source, "index") {
            Some(i) => i,
            None => 0,
        };
        BmmRequest::ImportBackup { index: index as usize }
    } else {
        BmmRequest::Unsupported
    }
}


/// The automatic Continue for one frame: once the Continue button has been
/// visible for `READY_FRAMES` counted frames, click it, as long as the setting
/// is on and no click has gone out yet. Frames count only while all that holds.
pub open spec fn auto_continue_spec(v: ExtensionView, continue_visible: bool) -> (ExtensionView, bool) {
    if !v.settings.auto_continue || v.auto_continue_sent || !continue_visible {
        (v, false)
    } else {
        let frames = v.title_ready_frames;
        (
            ExtensionView {
                title_ready_frames: if frames == usize::MAX { 0 } else { (frames + 1) as usize },
                ..v
            },
            frames >= READY_FRAMES,
        )
    }
}

/// One step of the guarded Load Anyway.
#[derive(Clone, Copy, PartialEq, Eq, Debug)]
pub enum LoadAnywayStep {
    /// Nothing to do this frame.
    Wait,
    /// Back up the latest save now (with this retention for the cleanup that goes
    /// with it); then report with `load_anyway_backup_done`.
    Backup { retention_days: u8 },
    /// Click Load Anyway; then report with `load_anyway_posted`.
    Click,
}

/// The guarded Load Anyway for one frame. While the mod-mismatch popup is hidden
/// everything resets. While it shows (and the setting is on, and no click has
/// gone out), after `READY_FRAMES` counted frames the latest save is backed up
/// once; Load Anyway is clicked only after that backup succeeded.
pub open spec fn load_anyway_spec(v: ExtensionView, popup_visible: bool) -> (ExtensionView, LoadAnywayStep) {
    if !popup_visible {
        (
            ExtensionView {
                mismatch_ready_frames: 0,
                mismatch_click_sent: false,
                mismatch_backup_ready: false,
                mismatch_backup_failed: false,
                ..v
            },
            LoadAnywayStep::Wait,
        )
    } else if !v.settings.auto_load_anyway || v.mismatch_click_sent {
        (v, LoadAnywayStep::Wait)
    } else {
        let frames = v.mismatch_ready_frames;
        let counted = ExtensionView {
            mismatch_ready_frames: if frames == usize::MAX { 0 } else { (frames + 1) as usize },
            ..v
        };
        if frames < READY_FRAMES {
            (counted, LoadAnywayStep::Wait)
        } else if !v.mismatch_backup_ready && !v.mismatch_backup_failed {
            (counted, LoadAnywayStep::Backup { retention_days: v.settings.backup_retention_days })
        } else if !v.mismatch_backup_ready {
            (counted, LoadAnywayStep::Wait)
        } else {
            (counted, LoadAnywayStep::Click)
        }
    }
}

/// The outcome of the backup: a success makes the click due now; a failure stops
/// the automatic Load Anyway until the popup goes away.
pub open spec fn backup_done_spec(v: ExtensionView, backed_up: bool) -> (ExtensionView, bool) {
    let after = if backed_up {
        ExtensionView { mismatch_backup_ready: true, ..v }
    } else {
        ExtensionView { mismatch_backup_failed: true, ..v }
    };
    (after, after.mismatch_backup_ready)
}

impl IntroSkipExtension {
    /// Should the Continue button be clicked this frame? See `auto_continue_spec`.
    pub fn auto_continue_step(&mut self, continue_visible: bool) -> (click: bool)
        ensures
            final(self)@ == step(old(self)@, Event::AutoContinueStep(continue_visible)),
            (final(self)@, click) == auto_continue_spec(old(self)@, continue_visible),
    {
        if !self.settings.auto_continue || self.auto_continue_sent || !continue_visible {
            return false;
        }
        let frames = self.title_ready_frames;
        self.title_ready_frames = frames.wrapping_add(1);
        frames >= READY_FRAMES
    }

    /// Reports the Continue click: once it went out, no other follows.
    pub fn auto_continue_posted(&mut self, posted: bool)
        ensures
            final(self)@ == step(old(self)@, Event::AutoContinuePosted(posted)),
            final(self)@ == (ExtensionView {
                auto_continue_sent: old(self)@.auto_continue_sent || posted,
                ..old(self)@
            }),
    {
        if posted {
            self.auto_continue_sent = true;
        }
    }

    /// The guarded Load Anyway for this frame; see `load_anyway_spec`.
    pub fn load_anyway_step(&mut self, popup_visible: bool) -> (next: LoadAnywayStep)
        ensures
            final(self)@ == step(old(self)@, Event::LoadAnywayStep(popup_visible)),
            (final(self)@, next) == load_anyway_spec(old(self)@, popup_visible),
            next matches LoadAnywayStep::Backup { retention_days } ==> retention_days
                == old(self)@.settings.backup_retention_days,
    {
        if !popup_visible {
            self.mismatch_ready_frames = 0;
            self.mismatch_click_sent = false;
            self.mismatch_backup_ready = false;
            self.mismatch_backup_failed = false;
            return LoadAnywayStep::Wait;
        }
        if !self.settings.auto_load_anyway || self.mismatch_click_sent {
            return LoadAnywayStep::Wait;
        }
        let frames = self.mismatch_ready_frames;
        self.mismatch_ready_frames = frames.wrapping_add(1);
        if frames < READY_FRAMES {
            return LoadAnywayStep::Wait;
        }
        if !self.mismatch_backup_ready && !self.mismatch_backup_failed {
            return LoadAnywayStep::Backup { retention_days: self.settings.backup_retention_days };
        }
        if !self.mismatch_backup_ready {
            return LoadAnywayStep::Wait;
        }
        LoadAnywayStep::Click
    }

    /// Reports the backup asked for by `LoadAnywayStep::Backup`; tells whether to click now.
    pub fn load_anyway_backup_done(&mut self, backed_up: bool) -> (click: bool)
        ensures
            final(self)@ == step(old(self)@, Event::LoadAnywayBackupDone(backed_up)),
            (final(self)@, click) == backup_done_spec(old(self)@, backed_up),
    {
        if backed_up {
            self.mismatch_backup_ready = true;
        } else {
            self.mismatch_backup_failed = true;
        }
        self.mismatch_backup_ready
    }

    /// Reports the Load Anyway click: once it went out, no other follows while the popup shows.
    pub fn load_anyway_posted(&mut self, posted: bool)
        ensures
            final(self)@ == step(old(self)@, Event::LoadAnywayPosted(posted)),
            final(self)@ == (ExtensionView {
                mismatch_click_sent: old(self)@.mismatch_click_sent || posted,
                ..old(self)@
            }),
    {
        if posted {
            self.mismatch_click_sent = true;
        }
    }
}


/// Law: whenever the guarded Load Anyway asks for a backup, the backup (and the
/// retention cleanup that runs with it) uses the retention in the settings in
/// force; and it asks only while the popup shows and the option is on.
pub proof fn lemma_backup_uses_chosen_retention(v: ExtensionView, popup_visible: bool)
    ensures
        load_anyway_spec(v, popup_visible).1 matches LoadAnywayStep::Backup { retention_days } ==> retention_days
            == v.settings.backup_retention_days && popup_visible && v.settings.auto_load_anyway,
{
}

/// A call on the mod's state, as the caller makes them frame after frame.
pub enum Event {
    Apply(Settings),
    BeginUpdate,
    TitleFrame(bool, bool),
    PanelFrame(bool, bool, bool),
    SetBackupCount(u8),
    SyncPanel,
    SettingsClick(SettingsControl),
    FinishSettingsSave(bool),
    FinishRetentionChange(bool, bool),
    FinishImport(bool),
    RejectRequest,
    AutoContinueStep(bool),
    AutoContinuePosted(bool),
    LoadAnywayStep(bool),
    LoadAnywayBackupDone(bool),
    LoadAnywayPosted(bool),
}

pub open spec fn show_notice(v: ExtensionView, status: Status) -> ExtensionView {
    ExtensionView { notice: (status, crate::notice::STATUS_NOTICE_FRAMES as nat), ..v }
}

/// The state after one call, as the methods' contracts give it.
pub open spec fn step(v: ExtensionView, e: Event) -> ExtensionView {
    match e {
        Event::Apply(s) => ExtensionView { settings: s, ..v },
        Event::BeginUpdate => ExtensionView { retention_checked: true, ..v },
        Event::TitleFrame(ready, active) => if !ready {
            v
        } else {
            ExtensionView {
                settings_reload_tick: if !active {
                    0
                } else if v.settings_reload_tick == usize::MAX {
                    0
                } else {
                    (v.settings_reload_tick + 1) as usize
                },
                ..v
            }
        },
        Event::PanelFrame(active, down, selected) => panel_frame_spec(v, active, down, selected).0,
        Event::SetBackupCount(n) => ExtensionView { backup_count: n, ..v },
        Event::SyncPanel => ExtensionView { notice: tick(v.notice).0, ..v },
        Event::SettingsClick(c) => ExtensionView { settings: settings_after_click(v.settings, c), ..v },
        Event::FinishSettingsSave(saved) => show_notice(v, if saved { Status::Saved } else { Status::Failure }),
        Event::FinishRetentionChange(saved, cleaned) => show_notice(
            v,
            if saved && cleaned { Status::Retention } else { Status::Failure },
        ),
        Event::FinishImport(ok) => show_notice(v, if ok { Status::ImportSuccess } else { Status::Failure }),
        Event::RejectRequest => show_notice(v, Status::Failure),
        Event::AutoContinueStep(visible) => auto_continue_spec(v, visible).0,
        Event::AutoContinuePosted(p) => ExtensionView { auto_continue_sent: v.auto_continue_sent || p, ..v },
        Event::LoadAnywayStep(visible) => load_anyway_spec(v, visible).0,
        Event::LoadAnywayBackupDone(ok) => backup_done_spec(v, ok).0,
        Event::LoadAnywayPosted(p) => ExtensionView { mismatch_click_sent: v.mismatch_click_sent || p, ..v },
    }
}

/// The state after a sequence of calls.
pub open spec fn run(v: ExtensionView, events: Seq<Event>) -> ExtensionView
    decreases events.len(),
{
    if events.len() == 0 {
        v
    } else {
        step(run(v, events.drop_last()), events.last())
    }
}

/// Some call reported a successful backup, and no frame has found the
/// mismatch popup hidden since.
pub open spec fn backed_up_since_popup_opened(events: Seq<Event>) -> bool {
    exists|j: int|
        0 <= j < events.len() && #[trigger] events[j] == Event::LoadAnywayBackupDone(true) && forall|m: int|
            j < m < events.len() ==> #[trigger] events[m] != Event::LoadAnywayStep(false)
}

proof fn lemma_ready_needs_backup(settings: Settings, events: Seq<Event>)
    ensures
        run(initial_view(settings), events).mismatch_backup_ready ==> backed_up_since_popup_opened(events),
    decreases events.len(),
{
    if events.len() > 0 {
        let prefix = events.drop_last();
        let e = events.last();
        lemma_ready_needs_backup(settings, prefix);
        let before = run(initial_view(settings), prefix);
        if run(initial_view(settings), events).mismatch_backup_ready {
            if e == Event::LoadAnywayBackupDone(true) {
                assert(events[events.len() - 1] == Event::LoadAnywayBackupDone(true));
            } else {
                assert(e != Event::LoadAnywayStep(false));
                assert(before.mismatch_backup_ready);
                let j = choose|j: int|
                    0 <= j < prefix.len() && #[trigger] prefix[j] == Event::LoadAnywayBackupDone(true) && forall|m: int|
                        j < m < prefix.len() ==> #[trigger] prefix[m] != Event::LoadAnywayStep(false);
                assert(events[j] == Event::LoadAnywayBackupDone(true));
                assert forall|m: int| j < m < events.len() implies #[trigger] events[m] != Event::LoadAnywayStep(false) by {
                    if m < prefix.len() {
                        assert(events[m] == prefix[m]);
                    }
                }
            }
        }
    }
}

/// Law (save safety): whatever sequence of calls led to the current state, the
/// mod asks for the Load Anyway click only when a backup has succeeded since the
/// mismatch popup last appeared; and once a backup has failed while the popup
/// shows, it asks for neither another backup nor the click until the popup goes away.
pub proof fn lemma_load_anyway_needs_verified_backup(settings: Settings, events: Seq<Event>)
    ensures
        load_anyway_spec(run(initial_view(settings), events), true).1 == LoadAnywayStep::Click
            ==> backed_up_since_popup_opened(events),
        ({
            let v = run(initial_view(settings), events);
            v.mismatch_backup_failed && !v.mismatch_backup_ready ==> load_anyway_spec(v, true).1
                == LoadAnywayStep::Wait
        }),
{
    lemma_ready_needs_backup(settings, events);
}

/// Some call reported the outcome of a backup, and no frame has found the
/// mismatch popup hidden since.
pub open spec fn backup_tried_since_popup_opened(events: Seq<Event>) -> bool {
    exists|j: int|
        0 <= j < events.len() && (#[trigger] events[j] == Event::LoadAnywayBackupDone(true) || events[j]
            == Event::LoadAnywayBackupDone(false)) && forall|m: int|
            j < m < events.len() ==> #[trigger] events[m] != Event::LoadAnywayStep(false)
}

proof fn lemma_tried_sets_a_flag(settings: Settings, events: Seq<Event>)
    ensures
        backup_tried_since_popup_opened(events) ==> ({
            let v = run(initial_view(settings), events);
            v.mismatch_backup_ready || v.mismatch_backup_failed
        }),
    decreases events.len(),
{
    if events.len() > 0 {
        let prefix = events.drop_last();
        let e = events.last();
        lemma_tried_sets_a_flag(settings, prefix);
        if backup_tried_since_popup_opened(events) {
            let j = choose|j: int|
                0 <= j < events.len() && (#[trigger] events[j] == Event::LoadAnywayBackupDone(true)
                    || events[j] == Event::LoadAnywayBackupDone(false)) && forall|m: int|
                    j < m < events.len() ==> #[trigger] events[m] != Event::LoadAnywayStep(false);
            if j < events.len() - 1 {
                assert(prefix[j] == events[j]);
                assert forall|m: int| j < m < prefix.len() implies #[trigger] prefix[m] != Event::LoadAnywayStep(false) by {
                    assert(prefix[m] == events[m]);
                }
                assert(backup_tried_since_popup_opened(prefix));
                assert(e != Event::LoadAnywayStep(false));
            }
        }
    }
}

/// Law: while the mismatch popup stays up, the latest save is backed up at most
/// once: after a backup was reported (either way), no other is asked for until
/// the popup has gone away.
pub proof fn lemma_one_backup_per_popup(settings: Settings, events: Seq<Event>)
    requires
        backup_tried_since_popup_opened(events),
    ensures
        !(load_anyway_spec(run(initial_view(settings), events), true).1 is Backup),
{
    lemma_tried_sets_a_flag(settings, events);
}

/// Every settings click in `events` is on one of the panel's controls, and every
/// settings applied have an offered retention.
pub open spec fn only_offered_choices(events: Seq<Event>) -> bool {
    forall|i: int|
        0 <= i < events.len() ==> match #[trigger] events[i] {
            Event::Apply(s) => is_retention_choice(s.backup_retention_days),
            Event::SettingsClick(c) => exists|k: int| 0 <= k < controls_spec().len() && controls_spec()[k].1 == c,
            _ => true,
        }
}

/// Law: the retention in force is always one of the offered choices (3, 7, 14
/// or 30 days) when the mod starts with such settings, is only given settings
/// read back through `settings_from_source`, and is only clicked on its own controls.
pub proof fn lemma_retention_stays_offered(settings: Settings, events: Seq<Event>)
    requires
        is_retention_choice(settings.backup_retention_days),
        only_offered_choices(events),
    ensures
        is_retention_choice(run(initial_view(settings), events).settings.backup_retention_days),
    decreases events.len(),
{
    if events.len() > 0 {
        let prefix = events.drop_last();
        assert forall|i: int| 0 <= i < prefix.len() implies match #[trigger] prefix[i] {
            Event::Apply(s) => is_retention_choice(s.backup_retention_days),
            Event::SettingsClick(c) => exists|k: int| 0 <= k < controls_spec().len() && controls_spec()[k].1 == c,
            _ => true,
        } by {
            assert(prefix[i] == events[i]);
        }
        lemma_retention_stays_offered(settings, prefix);
        let e = events.last();
        assert(e == events[events.len() - 1]);
        if let Event::SettingsClick(c) = e {
            let k = choose|k: int| 0 <= k < controls_spec().len() && controls_spec()[k].1 == c;
            assert(controls_spec() =~= flag_controls() + retention_controls() + backup_controls());
            if k < 6 {
                assert(controls_spec()[k] == flag_controls()[k]);
            } else if k < 14 {
                assert(controls_spec()[k] == retention_controls()[k - 6]);
            } else {
                assert(controls_spec()[k] == backup_controls()[k - 14]);
            }
        }
    }
}

/// Law: after a Continue click went out, the mod never asks for another.
pub proof fn lemma_continue_clicked_once(v: ExtensionView, visible: bool)
    requires
        v.auto_continue_sent,
    ensures
        !auto_continue_spec(v, visible).1,
        auto_continue_spec(v, visible).0.auto_continue_sent,
{
}

} // verus!
