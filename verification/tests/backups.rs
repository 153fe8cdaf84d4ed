use intro_skip::backups::{
    backup_file_name, backup_is_expired, compare_chunks, existing_backup_may_be_reused,
    format_timestamp, import_file_name, is_backup_of, is_career_save, is_managed_backup,
    latest_matching_backup, latest_save_in, recent_backups, recent_order,
    ChunkVerdict, FileEntry,
};

fn entry(name: &str, is_file: bool, modified: i128) -> FileEntry {
    FileEntry { name: name.to_string(), is_file, modified }
}

#[test]
fn career_saves_are_save_files_with_the_data_extension() {
    assert!(is_career_save("save_3.data", true));
    assert!(!is_career_save("save_3.data", false));
    assert!(!is_career_save("save_3.data.bak", true));
    assert!(!is_career_save("save_3.DATA", true));
    assert!(!is_career_save("career_3.data", true));
    assert!(is_career_save("save_.x.data", true));
}

#[test]
fn managed_backups_carry_the_marker() {
    assert!(is_managed_backup("save_3__before_mod_load_20260101_000000.data", true));
    assert!(!is_managed_backup("save_3__before_mod_load_20260101_000000.data", false));
    assert!(!is_managed_backup("save_3_before_mod_load_x.data", true));
    assert!(!is_managed_backup("save_3__before_mod_load_x.data.intro_skip_tmp", true));
    assert!(!is_managed_backup("other__before_mod_load_x.data", true));
}

#[test]
fn backups_of_a_save_start_with_its_stem() {
    assert!(is_backup_of("save_3__before_mod_load_1.data", true, "save_3"));
    assert!(!is_backup_of("save_31__before_mod_load_1.data", true, "save_3"));
    assert!(!is_backup_of("save_3__before_mod_load_1.dat", true, "save_3"));
}

#[test]
fn new_file_names() {
    let ts = format_timestamp(2026, 7, 3, 9, 5, 0);
    assert_eq!(ts, "20260703_090500");
    assert_eq!(format_timestamp(12345, 12, 31, 23, 59, 59), "123451231_235959");
    assert_eq!(format_timestamp(7, 1, 1, 0, 0, 0), "00070101_000000");
    let name = backup_file_name("save_2", &ts);
    assert_eq!(name, "save_2__before_mod_load_20260703_090500.data");
    assert!(is_managed_backup(&name, true));
    assert!(is_backup_of(&name, true, "save_2"));
    let imported = import_file_name(&ts);
    assert_eq!(imported, "save_20260703_090500.data");
    assert!(is_career_save(&imported, true));
    assert!(!is_managed_backup(&imported, true));
}

#[test]
fn latest_save_ignores_other_files() {
    let entries = vec![
        entry("save_1.data", true, 10),
        entry("save_2.data", true, 30),
        entry("notes.txt", true, 99),
        entry("save_3.data", false, 50),
        entry("save_4.data", true, 30),
    ];
    assert_eq!(latest_save_in(&entries), Some(4));
    assert_eq!(latest_save_in(&vec![entry("notes.txt", true, 1)]), None);
    let backups = vec![
        entry("save_4__before_mod_load_a.data", true, 5),
        entry("save_1__before_mod_load_b.data", true, 9),
        entry("save_4__before_mod_load_c.data", true, 7),
    ];
    assert_eq!(latest_matching_backup(&backups, "save_4"), Some(2));
    assert_eq!(latest_matching_backup(&backups, "save_9"), None);
}

#[test]
fn recent_order_is_newest_first_and_limited() {
    assert_eq!(recent_order(&vec![3, 8, 1, 5], 3), vec![1, 3, 0]);
    assert_eq!(recent_order(&vec![3, 8], 5), vec![1, 0]);
    assert_eq!(recent_order(&vec![3, 8], 0), Vec::<usize>::new());
    let tied = recent_order(&vec![4, 4, 4], 2);
    assert_eq!(tied.len(), 2);
    assert_ne!(tied[0], tied[1]);
}

#[test]
fn recent_backups_lists_only_managed_backups() {
    let entries = vec![
        entry("save_1__before_mod_load_a.data", true, 1),
        entry("save_1.data", true, 100),
        entry("save_2__before_mod_load_b.data", true, 7),
        entry("save_3__before_mod_load_c.data", true, 4),
        entry("save_4__before_mod_load_d.data", false, 50),
    ];
    assert_eq!(recent_backups(&entries, 5), vec![2, 3, 0]);
    assert_eq!(recent_backups(&entries, 2), vec![2, 3]);
}

#[test]
fn expiry_is_strictly_after_the_retention() {
    let week = 7 * 86400;
    assert!(!backup_is_expired(week, 0, 7));
    assert!(backup_is_expired(week, 1, 7));
    assert!(backup_is_expired(week + 1, 0, 7));
    assert!(!backup_is_expired(week - 1, 999_999_999, 7));
    assert!(!backup_is_expired(0, 0, 3));
}

#[test]
fn chunk_comparison() {
    let a = [1u8, 2, 3, 4];
    let b = [1u8, 2, 9, 4];
    assert_eq!(compare_chunks(&a, 2, &b, 2), ChunkVerdict::Continue);
    assert_eq!(compare_chunks(&a, 3, &b, 3), ChunkVerdict::Differ);
    assert_eq!(compare_chunks(&a, 2, &b, 3), ChunkVerdict::Differ);
    assert_eq!(compare_chunks(&a, 0, &b, 0), ChunkVerdict::Same);
}

#[test]
fn reuse_needs_same_size_and_newer_backup() {
    assert!(existing_backup_may_be_reused(10, 10, 5, 5));
    assert!(!existing_backup_may_be_reused(10, 11, 5, 5));
    assert!(!existing_backup_may_be_reused(10, 10, 4, 5));
}
