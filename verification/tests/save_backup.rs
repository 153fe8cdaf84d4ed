use intro_skip::backups::{CopyAction, CopyError, CopyEvent, CopyState, FileEntry};
use intro_skip::save_backup::{
    backup_step, BackupAction, BackupError, BackupEvent, BackupState, SaveFacts,
};

fn entry(name: &str, modified: i128) -> FileEntry {
    FileEntry { name: name.to_string(), is_file: true, modified }
}

fn saves() -> Vec<FileEntry> {
    vec![entry("save_1.data", 10), entry("notes.txt", 90), entry("save_2.data", 30), entry("save_3.data", 20)]
}

fn facts() -> SaveFacts {
    SaveFacts { len: 100, modified: 30, stem: "save_2".to_string() }
}

fn backups() -> Vec<FileEntry> {
    vec![
        entry("save_2__before_mod_load_20260101_000000.data", 40),
        entry("save_1__before_mod_load_20260102_000000.data", 50),
        entry("save_2__before_mod_load_20260103_000000.data", 45),
    ]
}

/// Feeds `events` to the backup steps from the start; returns the final state and every action.
fn drive(events: Vec<BackupEvent>) -> (BackupState, Vec<BackupAction>) {
    let mut state = BackupState::Ready;
    let mut actions = Vec::new();
    for event in events {
        let (next, action) = backup_step(state, event);
        state = next;
        actions.push(action);
    }
    (state, actions)
}

fn up_to_existing_backup() -> Vec<BackupEvent> {
    vec![
        BackupEvent::Start,
        BackupEvent::SavesListed(Some(saves())),
        BackupEvent::SaveInspected(Some(facts())),
        BackupEvent::BackupsListed(Some(backups())),
    ]
}

#[test]
fn backup_reuses_an_identical_newer_backup_of_the_latest_save() {
    let mut events = up_to_existing_backup();
    events.push(BackupEvent::BackupInspected(Some((100, 45))));
    events.push(BackupEvent::BackupCompared(Some(true)));
    let (state, actions) = drive(events);
    assert_eq!(
        actions,
        vec![
            BackupAction::ListSaves,
            BackupAction::InspectSave { save: 2 },
            BackupAction::ListBackups,
            BackupAction::InspectBackup { backup: 2 },
            BackupAction::CompareWithBackup { save: 2, backup: 2 },
            BackupAction::Reuse { backup: 2 },
        ]
    );
    assert_eq!(state, BackupState::Reused { save: 2, backup: 2 });
}

#[test]
fn backup_copies_when_the_existing_backup_differs() {
    let mut events = up_to_existing_backup();
    events.push(BackupEvent::BackupInspected(Some((100, 45))));
    events.push(BackupEvent::BackupCompared(Some(false)));
    let (state, actions) = drive(events);
    assert_eq!(actions[5], BackupAction::StartCopy { save: 2 });
    assert_eq!(state, BackupState::Copying { save: 2, copy: CopyState::Ready });
}

#[test]
fn backup_copies_when_the_existing_backup_is_older_or_another_size() {
    let mut older = up_to_existing_backup();
    older.push(BackupEvent::BackupInspected(Some((100, 29))));
    assert_eq!(drive(older).1[4], BackupAction::StartCopy { save: 2 });
    let mut smaller = up_to_existing_backup();
    smaller.push(BackupEvent::BackupInspected(Some((99, 45))));
    assert_eq!(drive(smaller).1[4], BackupAction::StartCopy { save: 2 });
    let mut unknown = up_to_existing_backup();
    unknown.push(BackupEvent::BackupInspected(None));
    assert_eq!(drive(unknown).1[4], BackupAction::StartCopy { save: 2 });
}

#[test]
fn backup_copies_when_no_backup_of_the_save_exists() {
    let events = vec![
        BackupEvent::Start,
        BackupEvent::SavesListed(Some(saves())),
        BackupEvent::SaveInspected(Some(facts())),
        BackupEvent::BackupsListed(Some(vec![entry("save_1__before_mod_load_x.data", 50)])),
    ];
    assert_eq!(drive(events).1[3], BackupAction::StartCopy { save: 2 });
    let unreadable = vec![
        BackupEvent::Start,
        BackupEvent::SavesListed(Some(saves())),
        BackupEvent::SaveInspected(Some(facts())),
        BackupEvent::BackupsListed(None),
    ];
    assert_eq!(drive(unreadable).1[3], BackupAction::StartCopy { save: 2 });
}

#[test]
fn backup_made_by_a_verified_copy() {
    let mut events = up_to_existing_backup();
    events.push(BackupEvent::BackupInspected(None));
    events.push(BackupEvent::Copy(CopyEvent::Start { target_exists: false, temporary_exists: false }));
    events.push(BackupEvent::Copy(CopyEvent::SourceLength(Some(100))));
    events.push(BackupEvent::Copy(CopyEvent::Copied(Some(100))));
    events.push(BackupEvent::Copy(CopyEvent::Compared(Some(true))));
    events.push(BackupEvent::Copy(CopyEvent::Renamed(true)));
    let (state, actions) = drive(events);
    assert_eq!(
        actions[5..].to_vec(),
        vec![
            BackupAction::Copy(CopyAction::InspectSource),
            BackupAction::Copy(CopyAction::CopyToTemporary),
            BackupAction::Copy(CopyAction::CompareTemporary),
            BackupAction::Copy(CopyAction::RenameToTarget),
            BackupAction::Copy(CopyAction::Done),
        ]
    );
    assert_eq!(state, BackupState::Created { save: 2 });
}

#[test]
fn backup_copy_failure_is_reported() {
    let mut events = up_to_existing_backup();
    events.push(BackupEvent::BackupInspected(None));
    events.push(BackupEvent::Copy(CopyEvent::Start { target_exists: false, temporary_exists: false }));
    events.push(BackupEvent::Copy(CopyEvent::SourceLength(Some(100))));
    events.push(BackupEvent::Copy(CopyEvent::Copied(Some(50))));
    let (state, actions) = drive(events);
    assert_eq!(
        actions[7],
        BackupAction::Copy(CopyAction::RemoveTemporaryThenFail(CopyError::SizeMismatch {
            expected: 100,
            copied: 50
        }))
    );
    assert_eq!(state, BackupState::Failed);
}

#[test]
fn backup_failures_before_the_copy() {
    let no_save = drive(vec![
        BackupEvent::Start,
        BackupEvent::SavesListed(Some(vec![entry("notes.txt", 1)])),
    ]);
    assert_eq!(no_save.1[1], BackupAction::Fail(BackupError::NoSave));
    let unreadable = drive(vec![BackupEvent::Start, BackupEvent::SavesListed(None)]);
    assert_eq!(unreadable.1[1], BackupAction::Fail(BackupError::SavesUnreadable));
    let uninspected = drive(vec![
        BackupEvent::Start,
        BackupEvent::SavesListed(Some(saves())),
        BackupEvent::SaveInspected(None),
    ]);
    assert_eq!(uninspected.1[2], BackupAction::Fail(BackupError::SaveUnreadable));
    let mut compare_failed = up_to_existing_backup();
    compare_failed.push(BackupEvent::BackupInspected(Some((100, 45))));
    compare_failed.push(BackupEvent::BackupCompared(None));
    assert_eq!(drive(compare_failed).1[5], BackupAction::Fail(BackupError::CompareFailed));
    let out_of_order = drive(vec![BackupEvent::BackupCompared(Some(true))]);
    assert_eq!(out_of_order.1[0], BackupAction::Fail(BackupError::UnexpectedEvent));
    assert_eq!(out_of_order.0, BackupState::Failed);
}

#[test]
fn latest_save_ties_go_to_the_last_listed() {
    let tied = vec![entry("save_1.data", 30), entry("save_2.data", 30)];
    let (_, actions) = drive(vec![BackupEvent::Start, BackupEvent::SavesListed(Some(tied))]);
    assert_eq!(actions[1], BackupAction::InspectSave { save: 1 });
}
