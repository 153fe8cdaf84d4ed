use intro_skip::backups::{
    after_removal, copy_verified_step, prune_step, CopyAction, CopyError, CopyEvent, CopyState,
    PruneFacts, PruneStep,
};

/// Feeds `events` to the copy steps from the start; returns every action.
fn drive(events: &[CopyEvent]) -> (CopyState, Vec<CopyAction>) {
    let mut state = CopyState::Ready;
    let mut actions = Vec::new();
    for event in events {
        let (next, action) = copy_verified_step(state, *event);
        state = next;
        actions.push(action);
    }
    (state, actions)
}

const FRESH: CopyEvent = CopyEvent::Start { target_exists: false, temporary_exists: false };

#[test]
fn verified_copy_renames_only_after_size_and_bytes_match() {
    let (state, actions) = drive(&[
        FRESH,
        CopyEvent::SourceLength(Some(1024)),
        CopyEvent::Copied(Some(1024)),
        CopyEvent::Compared(Some(true)),
        CopyEvent::Renamed(true),
    ]);
    assert_eq!(
        actions,
        vec![
            CopyAction::InspectSource,
            CopyAction::CopyToTemporary,
            CopyAction::CompareTemporary,
            CopyAction::RenameToTarget,
            CopyAction::Done,
        ]
    );
    assert_eq!(state, CopyState::Finished);
}

#[test]
fn verified_copy_refuses_an_existing_target() {
    let (state, actions) = drive(&[CopyEvent::Start { target_exists: true, temporary_exists: true }]);
    assert_eq!(actions, vec![CopyAction::Fail(CopyError::TargetExists)]);
    assert_eq!(state, CopyState::Failed);
}

#[test]
fn verified_copy_clears_a_stale_temporary_first() {
    let (_, actions) = drive(&[
        CopyEvent::Start { target_exists: false, temporary_exists: true },
        CopyEvent::TemporaryCleared(true),
        CopyEvent::SourceLength(Some(0)),
    ]);
    assert_eq!(
        actions,
        vec![CopyAction::ClearTemporary, CopyAction::InspectSource, CopyAction::CopyToTemporary]
    );
    let (_, actions) = drive(&[
        CopyEvent::Start { target_exists: false, temporary_exists: true },
        CopyEvent::TemporaryCleared(false),
    ]);
    assert_eq!(actions[1], CopyAction::Fail(CopyError::StaleTemporary));
}

#[test]
fn verified_copy_size_mismatch_removes_the_temporary() {
    let (state, actions) = drive(&[
        FRESH,
        CopyEvent::SourceLength(Some(100)),
        CopyEvent::Copied(Some(99)),
    ]);
    assert_eq!(
        actions[2],
        CopyAction::RemoveTemporaryThenFail(CopyError::SizeMismatch { expected: 100, copied: 99 })
    );
    assert_eq!(state, CopyState::Failed);
}

#[test]
fn verified_copy_failures_after_the_start_remove_the_temporary() {
    let unreadable = drive(&[FRESH, CopyEvent::SourceLength(None)]).1;
    assert_eq!(unreadable[1], CopyAction::RemoveTemporaryThenFail(CopyError::SourceUnreadable));
    let copy_failed = drive(&[FRESH, CopyEvent::SourceLength(Some(5)), CopyEvent::Copied(None)]).1;
    assert_eq!(copy_failed[2], CopyAction::RemoveTemporaryThenFail(CopyError::CopyFailed));
    let differ = drive(&[
        FRESH,
        CopyEvent::SourceLength(Some(5)),
        CopyEvent::Copied(Some(5)),
        CopyEvent::Compared(Some(false)),
    ])
    .1;
    assert_eq!(differ[3], CopyAction::RemoveTemporaryThenFail(CopyError::ContentsDiffer));
    let compare_failed = drive(&[
        FRESH,
        CopyEvent::SourceLength(Some(5)),
        CopyEvent::Copied(Some(5)),
        CopyEvent::Compared(None),
    ])
    .1;
    assert_eq!(compare_failed[3], CopyAction::RemoveTemporaryThenFail(CopyError::CompareFailed));
    let rename_failed = drive(&[
        FRESH,
        CopyEvent::SourceLength(Some(5)),
        CopyEvent::Copied(Some(5)),
        CopyEvent::Compared(Some(true)),
        CopyEvent::Renamed(false),
    ])
    .1;
    assert_eq!(rename_failed[4], CopyAction::RemoveTemporaryThenFail(CopyError::RenameFailed));
}

#[test]
fn verified_copy_rejects_events_out_of_order() {
    let (state, actions) = drive(&[FRESH, CopyEvent::Compared(Some(true))]);
    assert_eq!(actions[1], CopyAction::RemoveTemporaryThenFail(CopyError::UnexpectedEvent));
    assert_eq!(state, CopyState::Failed);
    let (_, actions) = drive(&[CopyEvent::Renamed(true)]);
    assert_eq!(actions, vec![CopyAction::Fail(CopyError::UnexpectedEvent)]);
}

const BACKUP: &str = "save_3__before_mod_load_20260101_000000.data";
const DAY: u64 = 24 * 60 * 60;

fn facts(name: Option<&str>, metadata_readable: bool, age: Option<(u64, u32)>) -> PruneFacts {
    PruneFacts { name: name.map(str::to_string), is_file: true, metadata_readable, age }
}

#[test]
fn prune_removes_only_expired_managed_backups() {
    assert_eq!(prune_step(&facts(Some(BACKUP), true, Some((7 * DAY, 1))), 7), PruneStep::Remove);
    assert_eq!(prune_step(&facts(Some(BACKUP), true, Some((7 * DAY, 0))), 7), PruneStep::Skip);
    assert_eq!(prune_step(&facts(Some("save_3.data"), true, Some((90 * DAY, 0))), 7), PruneStep::Skip);
    assert_eq!(prune_step(&facts(None, true, Some((90 * DAY, 0))), 7), PruneStep::Skip);
    let directory = PruneFacts { is_file: false, ..facts(Some(BACKUP), true, Some((90 * DAY, 0))) };
    assert_eq!(prune_step(&directory, 7), PruneStep::Skip);
}

#[test]
fn prune_stops_on_unreadable_metadata_and_skips_unknown_ages() {
    assert_eq!(prune_step(&facts(Some(BACKUP), false, None), 7), PruneStep::Abort);
    assert_eq!(prune_step(&facts(Some("notes.txt"), false, None), 7), PruneStep::Skip);
    assert_eq!(prune_step(&facts(Some(BACKUP), true, None), 30), PruneStep::Skip);
}

#[test]
fn prune_counts_deletions_and_stops_on_a_failed_one() {
    assert_eq!(after_removal(0, true), Some(1));
    assert_eq!(after_removal(4, true), Some(5));
    assert_eq!(after_removal(4, false), None);
}
