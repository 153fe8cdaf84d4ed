//! Backing up the latest career save before a mismatched save is loaded: find
//! the save, reuse an existing backup of it that is byte-identical, or make a
//! new byte-verified copy. The caller carries out each action on the file
//! system and reports what it found; these steps decide.
use vstd::prelude::*;
use crate::backups::{
    backup_of_pred, career_save_pred, copy_in_progress, copy_last_action, copy_run, copy_verified_spec,
    copy_verified_step, copied_whole_source, existing_backup_may_be_reused, is_latest_among, latest_matching_backup, latest_save_in,
    lemma_done_only_after_verified_copy, CopyAction, CopyError, CopyEvent, CopyState, FileEntry,
};

verus! {

/// The index that `is_latest_among` picks out, if any entry satisfies `pred`.
pub open spec fn latest_in(entries: Seq<FileEntry>, pred: spec_fn(FileEntry) -> bool) -> Option<int> {
    if exists|i: int| is_latest_among(entries, pred, i) {
        Some(choose|i: int| is_latest_among(entries, pred, i))
    } else {
        None
    }
}

/// At most one entry is the latest among those satisfying `pred`.
pub proof fn lemma_latest_unique(entries: Seq<FileEntry>, pred: spec_fn(FileEntry) -> bool, i: int, j: int)
    requires
        is_latest_among(entries, pred, i),
        is_latest_among(entries, pred, j),
    ensures
        i == j,
{
    if i < j {
        assert(pred(entries[j]));
    } else if j < i {
        assert(pred(entries[i]));
    }
}

proof fn lemma_latest_in(entries: Seq<FileEntry>, pred: spec_fn(FileEntry) -> bool, r: Option<usize>)
    requires
        match r {
            Some(i) => is_latest_among(entries, pred, i as int),
            None => forall|j: int| 0 <= j < entries.len() ==> !pred(#[trigger] entries[j]),
        },
    ensures
        latest_in(entries, pred) == match r {
            Some(i) => Some(i as int),
            None => None::<int>,
        },
{
    match r {
        Some(i) => {
            assert(is_latest_among(entries, pred, i as int));
            let k = choose|k: int| is_latest_among(entries, pred, k);
            lemma_latest_unique(entries, pred, i as int, k);
        },
        None => {
            if exists|k: int| is_latest_among(entries, pred, k) {
                let k = choose|k: int| is_latest_among(entries, pred, k);
                assert(pred(entries[k]));
            }
        },
    }
}

/// What the caller learned of the chosen save: its size, its modification time
/// (nanoseconds from the Unix epoch) and its file stem.
#[derive(Debug, PartialEq, Eq)]
pub struct SaveFacts {
    pub len: u64,
    pub modified: i128,
    pub stem: String,
}

/// Where a backup of the latest save stands. Indices point into the listing
/// the caller reported: `save` into the save directory's, `backup` into the
/// backup directory's.
#[derive(Debug, PartialEq, Eq)]
pub enum BackupState {
    Ready,
    ListingSaves,
    InspectingSave { save: usize },
    ListingBackups { save: usize, len: u64, modified: i128, stem: String },
    InspectingBackup { save: usize, len: u64, modified: i128, backup: usize },
    ComparingBackup { save: usize, backup: usize },
    /// Copying the save to a new backup, through the steps of a verified copy.
    Copying { save: usize, copy: CopyState },
    /// Done: the existing backup `backup` stands in for a new one.
    Reused { save: usize, backup: usize },
    /// Done: a new backup of the save was made.
    Created { save: usize },
    Failed,
}

/// What the caller observed after the last action.
#[derive(Debug)]
pub enum BackupEvent {
    Start,
    /// The save directory's entries, or `None` when it could not be read.
    SavesListed(Option<Vec<FileEntry>>),
    /// The chosen save's facts once the backup directory is ready, or `None`
    /// when that failed.
    SaveInspected(Option<SaveFacts>),
    /// The backup directory's entries, or `None` when it could not be read.
    BackupsListed(Option<Vec<FileEntry>>),
    /// The existing backup's size and modification time, or `None` when unknown.
    BackupInspected(Option<(u64, i128)>),
    /// Whether the existing backup's bytes equal the save's, or `None` when the
    /// comparison failed.
    BackupCompared(Option<bool>),
    /// What the last step of the verified copy observed.
    Copy(CopyEvent),
}

#[derive(Clone, Copy, Debug, PartialEq, Eq)]
pub enum BackupError {
    SavesUnreadable,
    NoSave,
    SaveUnreadable,
    CompareFailed,
    /// An event that does not answer the last action.
    UnexpectedEvent,
}

/// The next outside step of a backup.
#[derive(Clone, Copy, Debug, PartialEq, Eq)]
pub enum BackupAction {
    ListSaves,
    /// Create the backup directory, run the retention cleanup and read the
    /// facts of save `save`.
    InspectSave { save: usize },
    ListBackups,
    InspectBackup { backup: usize },
    CompareWithBackup { save: usize, backup: usize },
    /// Choose a new backup's name and start a verified copy of save `save` to it.
    StartCopy { save: usize },
    /// A step of the verified copy; `Done` reports the new backup, a failure
    /// reports the copy's error.
    Copy(CopyAction),
    /// Report the existing backup `backup` as the backup.
    Reuse { backup: usize },
    Fail(BackupError),
}

pub open spec fn start_copy(save: usize) -> (BackupState, BackupAction) {
    (BackupState::Copying { save, copy: CopyState::Ready }, BackupAction::StartCopy { save })
}

/// One step of a backup: take the latest career save; if the latest existing
/// backup of it has its size and is not older, compare their bytes and reuse it
/// when they are equal; otherwise copy the save to a new backup with a verified
/// copy. Failing to read the backup directory or the existing backup only means
/// making a new one.
pub open spec fn backup_spec(state: BackupState, event: BackupEvent) -> (BackupState, BackupAction) {
    match (state, event) {
        (BackupState::Ready, BackupEvent::Start) => (BackupState::ListingSaves, BackupAction::ListSaves),
        (BackupState::ListingSaves, BackupEvent::SavesListed(listing)) => match listing {
            None => (BackupState::Failed, BackupAction::Fail(BackupError::SavesUnreadable)),
            Some(entries) => match latest_in(entries@, career_save_pred()) {
                None => (BackupState::Failed, BackupAction::Fail(BackupError::NoSave)),
                Some(i) => (
                    BackupState::InspectingSave { save: i as usize },
                    BackupAction::InspectSave { save: i as usize },
                ),
            },
        },
        (BackupState::InspectingSave { save }, BackupEvent::SaveInspected(facts)) => match facts {
            None => (BackupState::Failed, BackupAction::Fail(BackupError::SaveUnreadable)),
            Some(f) => (
                BackupState::ListingBackups { save, len: f.len, modified: f.modified, stem: f.stem },
                BackupAction::ListBackups,
            ),
        },
        (BackupState::ListingBackups { save, len, modified, stem }, BackupEvent::BackupsListed(listing)) => match listing {
            None => start_copy(save),
            Some(entries) => match latest_in(entries@, backup_of_pred(stem@)) {
                None => start_copy(save),
                Some(b) => (
                    BackupState::InspectingBackup { save, len, modified, backup: b as usize },
                    BackupAction::InspectBackup { backup: b as usize },
                ),
            },
        },
        (BackupState::InspectingBackup { save, len, modified, backup }, BackupEvent::BackupInspected(found)) => match found {
            Some((existing_len, existing_modified)) => if existing_len == len && existing_modified >= modified {
                (BackupState::ComparingBackup { save, backup }, BackupAction::CompareWithBackup { save, backup })
            } else {
                start_copy(save)
            },
            None => start_copy(save),
        },
        (BackupState::ComparingBackup { save, backup }, BackupEvent::BackupCompared(equal)) => match equal {
            Some(true) => (BackupState::Reused { save, backup }, BackupAction::Reuse { backup }),
            Some(false) => start_copy(save),
            None => (BackupState::Failed, BackupAction::Fail(BackupError::CompareFailed)),
        },
        (BackupState::Copying { save, copy }, BackupEvent::Copy(c)) => {
            let (next, action) = copy_verified_spec(copy, c);
            if action is Done {
                (BackupState::Created { save }, BackupAction::Copy(action))
            } else if next is Failed {
                (BackupState::Failed, BackupAction::Copy(action))
            } else {
                (BackupState::Copying { save, copy: next }, BackupAction::Copy(action))
            }
        },
        (BackupState::Copying { save, copy }, _) => (
            BackupState::Failed,
            BackupAction::Copy(
                if copy_in_progress(copy) {
                    CopyAction::RemoveTemporaryThenFail(CopyError::UnexpectedEvent)
                } else {
                    CopyAction::Fail(CopyError::UnexpectedEvent)
                },
            ),
        ),
        _ => (BackupState::Failed, BackupAction::Fail(BackupError::UnexpectedEvent)),
    }
}

fn begin_copy(save: usize) -> (r: (BackupState, BackupAction))
    ensures
        r == start_copy(save),
{
    (BackupState::Copying { save, copy: CopyState::Ready }, BackupAction::StartCopy { save })
}

/// One step of a backup; see `backup_spec`.
pub fn backup_step(state: BackupState, event: BackupEvent) -> (r: (BackupState, BackupAction))
    ensures
        r == backup_spec(state, event),
{
    match (state, event) {
        (BackupState::Ready, BackupEvent::Start) => (BackupState::ListingSaves, BackupAction::ListSaves),
        (BackupState::ListingSaves, BackupEvent::SavesListed(listing)) => match listing {
            None => (BackupState::Failed, BackupAction::Fail(BackupError::SavesUnreadable)),
            Some(entries) => {
                let found = latest_save_in(&entries);
                proof {
                    lemma_latest_in(entries@, career_save_pred(), found);
                }
                match found {
                    None => (BackupState::Failed, BackupAction::Fail(BackupError::NoSave)),
                    Some(i) => (BackupState::InspectingSave { save: i }, BackupAction::InspectSave { save: i }),
                }
            },
        },
        (BackupState::InspectingSave { save }, BackupEvent::SaveInspected(facts)) => match facts {
            None => (BackupState::Failed, BackupAction::Fail(BackupError::SaveUnreadable)),
            Some(f) => (
                BackupState::ListingBackups { save, len: f.len, modified: f.modified, stem: f.stem },
                BackupAction::ListBackups,
            ),
        },
        (BackupState::ListingBackups { save, len, modified, stem }, BackupEvent::BackupsListed(listing)) => match listing {
            None => begin_copy(save),
            Some(entries) => {
                let found = latest_matching_backup(&entries, stem.as_str());
                proof {
                    lemma_latest_in(entries@, backup_of_pred(stem@), found);
                }
                match found {
                    None => begin_copy(save),
                    Some(b) => (
                        BackupState::InspectingBackup { save, len, modified, backup: b },
                        BackupAction::InspectBackup { backup: b },
                    ),
                }
            },
        },
        (BackupState::InspectingBackup { save, len, modified, backup }, BackupEvent::BackupInspected(found)) => match found {
            Some((existing_len, existing_modified)) => if existing_backup_may_be_reused(
                existing_len,
                len,
                existing_modified,
                modified,
            ) {
                (BackupState::ComparingBackup { save, backup }, BackupAction::CompareWithBackup { save, backup })
            } else {
                begin_copy(save)
            },
            None => begin_copy(save),
        },
        (BackupState::ComparingBackup { save, backup }, BackupEvent::BackupCompared(equal)) => match equal {
            Some(true) => (BackupState::Reused { save, backup }, BackupAction::Reuse { backup }),
            Some(false) => begin_copy(save),
            None => (BackupState::Failed, BackupAction::Fail(BackupError::CompareFailed)),
        },
        (BackupState::Copying { save, copy }, BackupEvent::Copy(c)) => {
            let (next, action) = copy_verified_step(copy, c);
            if matches!(action, CopyAction::Done) {
                (BackupState::Created { save }, BackupAction::Copy(action))
            } else if matches!(next, CopyState::Failed) {
                (BackupState::Failed, BackupAction::Copy(action))
            } else {
                (BackupState::Copying { save, copy: next }, BackupAction::Copy(action))
            }
        },
        (BackupState::Copying { save, copy }, _) => {
            let in_progress = match copy {
                CopyState::InspectingSource | CopyState::Copying { .. } | CopyState::Comparing { .. }
                | CopyState::Renaming => true,
                _ => false,
            };
            let action = if in_progress {
                CopyAction::RemoveTemporaryThenFail(CopyError::UnexpectedEvent)
            } else {
                CopyAction::Fail(CopyError::UnexpectedEvent)
            };
            (BackupState::Failed, BackupAction::Copy(action))
        },
        _ => (BackupState::Failed, BackupAction::Fail(BackupError::UnexpectedEvent)),
    }
}


/// The state after feeding `events` to a backup that starts `Ready`.
pub open spec fn backup_run(events: Seq<BackupEvent>) -> BackupState
    decreases events.len(),
{
    if events.len() == 0 {
        BackupState::Ready
    } else {
        backup_spec(backup_run(events.drop_last()), events.last()).0
    }
}

/// The action the last of `events` gets.
pub open spec fn backup_last_action(events: Seq<BackupEvent>) -> BackupAction
    recommends
        events.len() > 0,
{
    backup_spec(backup_run(events.drop_last()), events.last()).1
}

/// `e` reported a save directory in which `save` is the latest career save.
pub open spec fn lists_latest_save(e: BackupEvent, save: usize) -> bool {
    match e {
        BackupEvent::SavesListed(Some(entries)) => latest_in(entries@, career_save_pred()) == Some(save as int),
        _ => false,
    }
}

/// Every save listing in `events` has a length that a `usize` can hold, as
/// every listing a program can hold has.
pub open spec fn listings_fit(events: Seq<BackupEvent>) -> bool {
    forall|k: int| 0 <= k < events.len() ==> (#[trigger] events[k] matches BackupEvent::SavesListed(Some(entries))
        ==> entries@.len() <= usize::MAX)
}

/// Some event of `events` reported `save` as the latest career save.
pub open spec fn save_is_latest(events: Seq<BackupEvent>, save: usize) -> bool {
    exists|k: int| 0 <= k < events.len() && lists_latest_save(#[trigger] events[k], save)
}

/// `e` reported the save's size `len` and modification time `modified`.
pub open spec fn reports_save(e: BackupEvent, len: u64, modified: i128) -> bool {
    match e {
        BackupEvent::SaveInspected(Some(f)) => f.len == len && f.modified == modified,
        _ => false,
    }
}

pub open spec fn save_reported(events: Seq<BackupEvent>, len: u64, modified: i128) -> bool {
    exists|k: int| 0 <= k < events.len() && reports_save(#[trigger] events[k], len, modified)
}

/// `a` reported the save's facts and `b` an existing backup with the save's
/// size that is not older than the save.
pub open spec fn reusable_pair(a: BackupEvent, b: BackupEvent) -> bool {
    match (a, b) {
        (BackupEvent::SaveInspected(Some(f)), BackupEvent::BackupInspected(Some((len, modified)))) => len == f.len
            && modified >= f.modified,
        _ => false,
    }
}

/// The save was inspected, and after it an existing backup was found reusable.
pub open spec fn reuse_checked(events: Seq<BackupEvent>) -> bool {
    exists|i: int, j: int| 0 <= i < j < events.len() && reusable_pair(#[trigger] events[i], #[trigger] events[j])
}

/// The inner event of a `Copy` event.
pub open spec fn copy_event_of(e: BackupEvent) -> CopyEvent {
    match e {
        BackupEvent::Copy(c) => c,
        _ => CopyEvent::Renamed(false),
    }
}

/// Every event of `events` from position `m` on is a step of the copy.
pub open spec fn copy_phase_from(events: Seq<BackupEvent>, m: int) -> bool {
    &&& 0 <= m <= events.len()
    &&& forall|i: int| m <= i < events.len() ==> #[trigger] events[i] is Copy
}

/// The copy's own events among `events` from position `m` on.
pub open spec fn copy_events_from(events: Seq<BackupEvent>, m: int) -> Seq<CopyEvent> {
    Seq::new((events.len() - m) as nat, |i: int| copy_event_of(events[m + i]))
}

/// `c` is the event trace of a copy that was verified before it finished: it
/// ends with a successful rename, right after the bytes compared equal, after
/// a copy of exactly the source's length.
pub open spec fn verified_copy(c: Seq<CopyEvent>) -> bool {
    &&& c.len() > 1
    &&& c.last() == CopyEvent::Renamed(true)
    &&& c.drop_last().last() == CopyEvent::Compared(Some(true))
    &&& exists|n: u64| copied_whole_source(c.drop_last().drop_last(), n)
}

/// What each state of a backup implies about the events that led to it.
pub open spec fn backup_history(events: Seq<BackupEvent>) -> bool {
    match backup_run(events) {
        BackupState::InspectingSave { save } => save_is_latest(events, save),
        BackupState::ListingBackups { save, len, modified, .. } => save_is_latest(events, save) && save_reported(
            events,
            len,
            modified,
        ),
        BackupState::InspectingBackup { save, len, modified, .. } => save_is_latest(events, save)
            && save_reported(events, len, modified),
        BackupState::ComparingBackup { save, .. } => save_is_latest(events, save) && reuse_checked(events),
        BackupState::Reused { save, .. } => save_is_latest(events, save) && reuse_checked(events),
        BackupState::Copying { save, copy } => save_is_latest(events, save) && exists|m: int|
            copy_phase_from(events, m) && copy_run(#[trigger] copy_events_from(events, m)) == copy,
        BackupState::Created { save } => save_is_latest(events, save) && exists|m: int|
            copy_phase_from(events, m) && copy_events_from(events, m).len() > 0 && copy_last_action(
                #[trigger] copy_events_from(events, m),
            ) == CopyAction::Done,
        _ => true,
    }
}

proof fn lemma_extend(prefix: Seq<BackupEvent>, events: Seq<BackupEvent>)
    requires
        events.len() == prefix.len() + 1,
        forall|i: int| 0 <= i < prefix.len() ==> events[i] == prefix[i],
    ensures
        forall|s: usize| save_is_latest(prefix, s) ==> #[trigger] save_is_latest(events, s),
        forall|l: u64, m: i128| save_reported(prefix, l, m) ==> #[trigger] save_reported(events, l, m),
        reuse_checked(prefix) ==> reuse_checked(events),
{
    assert forall|s: usize| save_is_latest(prefix, s) implies #[trigger] save_is_latest(events, s) by {
        let k = choose|k: int| 0 <= k < prefix.len() && lists_latest_save(#[trigger] prefix[k], s);
        assert(lists_latest_save(events[k], s));
    }
    assert forall|l: u64, m: i128| save_reported(prefix, l, m) implies #[trigger] save_reported(events, l, m) by {
        let k = choose|k: int| 0 <= k < prefix.len() && reports_save(#[trigger] prefix[k], l, m);
        assert(reports_save(events[k], l, m));
    }
    if reuse_checked(prefix) {
        let (i, j) = choose|i: int, j: int|
            0 <= i < j < prefix.len() && reusable_pair(#[trigger] prefix[i], #[trigger] prefix[j]);
        assert(reusable_pair(events[i], events[j]));
    }
}

proof fn lemma_backup_history(events: Seq<BackupEvent>)
    requires
        listings_fit(events),
    ensures
        backup_history(events),
    decreases events.len(),
{
    if events.len() > 0 {
        let prefix = events.drop_last();
        let e = events.last();
        let last = events.len() - 1;
        assert forall|i: int| 0 <= i < prefix.len() implies events[i] == #[trigger] prefix[i] by {}
        assert(listings_fit(prefix));
        lemma_backup_history(prefix);
        lemma_extend(prefix, events);
        assert(events[last] == e);
        let before = backup_run(prefix);
        match before {
            BackupState::ListingSaves => {
                if let BackupState::InspectingSave { save } = backup_run(events) {
                    if let BackupEvent::SavesListed(Some(entries)) = e {
                        let i = choose|i: int| is_latest_among(entries@, career_save_pred(), i);
                        assert(is_latest_among(entries@, career_save_pred(), i));
                        assert(entries@.len() <= usize::MAX);
                    }
                    assert(lists_latest_save(events[last], save));
                }
            },
            BackupState::InspectingSave { save } => {
                if let BackupState::ListingBackups { len, modified, .. } = backup_run(events) {
                    assert(reports_save(events[last], len, modified));
                }
            },
            BackupState::InspectingBackup { save, len, modified, backup } => {
                if backup_run(events) is ComparingBackup {
                    let k = choose|k: int| 0 <= k < prefix.len() && reports_save(#[trigger] prefix[k], len, modified);
                    assert(reusable_pair(events[k], events[last]));
                }
                if backup_run(events) is Copying {
                    assert(copy_phase_from(events, events.len() as int));
                    assert(copy_events_from(events, events.len() as int) =~= Seq::<CopyEvent>::empty());
                }
            },
            BackupState::ListingBackups { .. } => {
                if backup_run(events) is Copying {
                    assert(copy_phase_from(events, events.len() as int));
                    assert(copy_events_from(events, events.len() as int) =~= Seq::<CopyEvent>::empty());
                }
            },
            BackupState::ComparingBackup { .. } => {
                if backup_run(events) is Copying {
                    assert(copy_phase_from(events, events.len() as int));
                    assert(copy_events_from(events, events.len() as int) =~= Seq::<CopyEvent>::empty());
                }
            },
            BackupState::Copying { save, copy } => {
                if e is Copy {
                    let m = choose|m: int| copy_phase_from(prefix, m) && copy_run(#[trigger] copy_events_from(prefix, m)) == copy;
                    let inner = copy_events_from(events, m);
                    assert(inner.drop_last() =~= copy_events_from(prefix, m));
                    assert(inner.last() == copy_event_of(e));
                    assert forall|i: int| m <= i < events.len() implies #[trigger] events[i] is Copy by {
                        if i < prefix.len() {
                            assert(prefix[i] is Copy);
                        }
                    }
                    assert(copy_phase_from(events, m));
                    assert(copy_run(inner) == copy_verified_spec(copy, copy_event_of(e)).0);
                    assert(copy_last_action(inner) == copy_verified_spec(copy, copy_event_of(e)).1);
                }
            },
            _ => {},
        }
    }
}

/// Law (a new backup is a verified copy of the latest save): when a backup
/// reports a new backup made, the save it copied is the latest career save of
/// the listing it was given, and the copy's own steps, from their start, end
/// with a rename right after the bytes compared equal, after a copy of exactly
/// the save's length.
pub proof fn lemma_created_backup_is_verified_copy_of_latest_save(events: Seq<BackupEvent>)
    requires
        listings_fit(events),
        events.len() > 0,
        backup_last_action(events) == BackupAction::Copy(CopyAction::Done),
    ensures
        backup_run(events) is Created,
        save_is_latest(events, backup_run(events)->Created_save),
        exists|m: int| copy_phase_from(events, m) && verified_copy(#[trigger] copy_events_from(events, m)),
{
    lemma_backup_history(events);
    let m = choose|m: int|
        copy_phase_from(events, m) && copy_events_from(events, m).len() > 0 && copy_last_action(
            #[trigger] copy_events_from(events, m),
        ) == CopyAction::Done;
    lemma_done_only_after_verified_copy(copy_events_from(events, m));
    assert(verified_copy(copy_events_from(events, m)));
}

/// Law (a reused backup is byte-identical to the latest save): when a backup
/// reports an existing backup as the backup, the last event reported the bytes
/// of that backup and of the latest career save equal, and before that the
/// backup was found to have the save's size and to be not older than it.
pub proof fn lemma_reused_backup_compared_equal(events: Seq<BackupEvent>)
    requires
        listings_fit(events),
        events.len() > 0,
        backup_last_action(events) is Reuse,
    ensures
        events.last() == BackupEvent::BackupCompared(Some(true)),
        backup_run(events.drop_last()) == (BackupState::ComparingBackup {
            save: backup_run(events)->Reused_save,
            backup: backup_last_action(events)->Reuse_backup,
        }),
        save_is_latest(events, backup_run(events)->Reused_save),
        reuse_checked(events),
{
    lemma_backup_history(events);
}

/// Law: a backup succeeds only in one of these two ways.
pub proof fn lemma_backup_success_ways(state: BackupState, event: BackupEvent)
    ensures
        backup_spec(state, event).1 is Reuse ==> state is ComparingBackup,
        backup_spec(state, event).1 == BackupAction::Copy(CopyAction::Done) ==> state is Copying,
{
}

} // verus!
