use api::disk::{charge, entry_step, is_series_root, EntryKind, WalkStep, BLOCK_SIZE};

#[test]
fn walk_neither_follows_nor_counts_symlinks() {
    assert_eq!(entry_step(EntryKind::Symlink, 8), WalkStep::Skip);
}

#[test]
fn walk_reports_block_usage_rather_than_apparent_size() {
    assert_eq!(entry_step(EntryKind::File, 8), WalkStep::Charge(8 * BLOCK_SIZE));
    assert_eq!(entry_step(EntryKind::Directory, 8), WalkStep::Descend);
    assert_eq!(charge(1024, 2), 2048);
}

#[test]
fn sample_ignores_loose_files_at_the_root() {
    assert!(is_series_root(EntryKind::Directory, true));
    assert!(!is_series_root(EntryKind::File, true));
    assert!(!is_series_root(EntryKind::Directory, false));
}
