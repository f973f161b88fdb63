use save_cloud::archive::{
    backup_black_list, backup_game_save, create_archive, extract_archive, is_excluded,
    restore_game_save, sfo_patch_result, update_sfo_file_with_current_account_id, FsEntry,
    SfoPatchStep,
};
use save_cloud::errors::OpError;

fn save_tree() -> Vec<FsEntry> {
    vec![
        FsEntry { path: "sce_sys".to_string(), is_dir: true, data: Vec::new() },
        FsEntry { path: "sce_sys/param.sfo".to_string(), is_dir: false, data: vec![1, 2, 3, 4] },
        FsEntry { path: "sce_sys/keystone".to_string(), is_dir: false, data: vec![9, 9] },
        FsEntry { path: "sce_pfs".to_string(), is_dir: true, data: Vec::new() },
        FsEntry { path: "sce_pfs/icv.db".to_string(), is_dir: false, data: vec![5] },
        FsEntry { path: "data.bin".to_string(), is_dir: false, data: vec![7, 8] },
    ]
}

#[test]
fn test_exclusion_matches_exact_and_subtree() {
    let excl = backup_black_list();
    assert!(is_excluded("sce_pfs", &excl));
    assert!(is_excluded("sce_pfs/icv.db", &excl));
    assert!(is_excluded("sce_sys/keystone", &excl));
    assert!(!is_excluded("sce_sys/param.sfo", &excl));
    assert!(!is_excluded("sce_pfs2", &excl));
}

#[test]
fn test_round_trip_reproduces_non_excluded_files() {
    let excl = backup_black_list();
    let bytes = create_archive(&save_tree(), &excl).expect("create archive");
    let plan = extract_archive(&bytes, &excl, &Vec::new()).expect("extract archive");
    let names: Vec<&str> = plan.writes.iter().map(|w| w.0.as_str()).collect();
    assert_eq!(names, vec!["sce_sys/param.sfo", "data.bin"]);
    assert_eq!(plan.writes[0].1, vec![1, 2, 3, 4]);
    assert_eq!(plan.writes[1].1, vec![7, 8]);
    // excluded files are absent on a first extraction into an empty directory
    assert!(!names.contains(&"sce_pfs/icv.db"));
    assert!(!names.contains(&"sce_sys/keystone"));
    assert!(plan.skipped.is_empty());
    assert_eq!(plan.dirs, vec!["sce_sys/"]);
}

#[test]
fn test_extract_preserves_existing_excluded_file() {
    // an archive that still carries an excluded name (written without
    // exclusions)
    let bytes = create_archive(&save_tree(), &Vec::new()).expect("create archive");
    let excl = backup_black_list();
    let existing = vec!["sce_sys/keystone".to_string(), "data.bin".to_string()];
    let plan = extract_archive(&bytes, &excl, &existing).expect("extract archive");
    let names: Vec<&str> = plan.writes.iter().map(|w| w.0.as_str()).collect();
    // the excluded file that already exists is left untouched
    assert!(!names.contains(&"sce_sys/keystone"));
    assert_eq!(plan.skipped, vec!["sce_sys/keystone"]);
    // non-excluded files are overwritten even though they exist
    assert!(names.contains(&"data.bin"));
    assert!(names.contains(&"sce_sys/param.sfo"));
}

#[test]
fn test_extract_first_time_writes_excluded_file() {
    // a first-time restore still creates excluded files: the exclusion only
    // protects what already exists
    let bytes = create_archive(&save_tree(), &Vec::new()).expect("create archive");
    let excl = backup_black_list();
    let plan = extract_archive(&bytes, &excl, &Vec::new()).expect("extract archive");
    let names: Vec<&str> = plan.writes.iter().map(|w| w.0.as_str()).collect();
    assert!(names.contains(&"sce_sys/keystone"));
    assert!(plan.skipped.is_empty());
}

#[test]
fn test_extract_rejects_bad_bytes() {
    let garbage = vec![1u8, 2, 3, 4, 5];
    let r = extract_archive(&garbage, &backup_black_list(), &Vec::new());
    assert!(matches!(r, Err(OpError::ArchiveExtractFailed)));
}

#[test]
fn test_create_rejects_duplicate_names() {
    let entries = vec![
        FsEntry { path: "a.bin".to_string(), is_dir: false, data: vec![1] },
        FsEntry { path: "a.bin".to_string(), is_dir: false, data: vec![2] },
    ];
    let r = create_archive(&entries, &Vec::new());
    assert!(matches!(r, Err(OpError::ArchiveCreateFailed)));
}

#[test]
fn test_backup_applies_standard_exclusions() {
    let bytes = backup_game_save(&save_tree()).expect("backup");
    let plan = extract_archive(&bytes, &Vec::new(), &Vec::new()).expect("extract");
    let names: Vec<&str> = plan.writes.iter().map(|w| w.0.as_str()).collect();
    assert_eq!(names, vec!["sce_sys/param.sfo", "data.bin"]);
}

#[test]
fn test_restore_plans_auto_backup_and_patch() {
    let excl = backup_black_list();
    let archive = create_archive(&save_tree(), &excl).expect("create");
    let target = save_tree();
    let plan = restore_game_save(&archive, &target, &Vec::new()).expect("restore");
    assert!(plan.patch_sfo);
    assert!(plan.auto_backup.is_some());
    let names: Vec<&str> = plan.writes.iter().map(|w| w.0.as_str()).collect();
    assert_eq!(names, vec!["sce_sys/param.sfo", "data.bin"]);
}

#[test]
fn test_restore_fails_fatally_on_bad_archive() {
    let garbage = vec![0u8; 16];
    let r = restore_game_save(&garbage, &save_tree(), &Vec::new());
    assert!(matches!(r, Err(OpError::ArchiveExtractFailed)));
}

#[test]
fn test_sfo_patch_decision() {
    assert!(matches!(
        update_sfo_file_with_current_account_id(false, 0),
        Ok(SfoPatchStep::NothingToDo)
    ));
    assert!(matches!(
        update_sfo_file_with_current_account_id(true, 0),
        Err(OpError::IdentityPatchFailed)
    ));
    assert!(matches!(
        update_sfo_file_with_current_account_id(true, 42),
        Ok(SfoPatchStep::Patch(42))
    ));
    assert!(matches!(sfo_patch_result(-1), Err(OpError::IdentityPatchFailed)));
    assert!(matches!(sfo_patch_result(0), Ok(())));
}

#[test]
fn test_unsafe_names_are_dropped() {
    // write an archive whose entries climb out of the destination, then
    // watch the extraction drop them; a component that merely contains dots
    // is a plain name and survives
    let entries = vec![
        FsEntry { path: "../evil.bin".to_string(), is_dir: false, data: vec![1] },
        FsEntry { path: "a/../evil2.bin".to_string(), is_dir: false, data: vec![1] },
        FsEntry { path: "a/..".to_string(), is_dir: false, data: vec![1] },
        FsEntry { path: "a../b.bin".to_string(), is_dir: false, data: vec![3] },
        FsEntry { path: "good.bin".to_string(), is_dir: false, data: vec![2] },
    ];
    let bytes = create_archive(&entries, &Vec::new()).expect("create");
    let plan = extract_archive(&bytes, &Vec::new(), &Vec::new()).expect("extract");
    let names: Vec<&str> = plan.writes.iter().map(|w| w.0.as_str()).collect();
    assert_eq!(names, vec!["a../b.bin", "good.bin"]);
}
