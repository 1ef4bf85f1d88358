use ds_sweep::report::record_outcome;
use ds_sweep::report::DeletionReporter;
use ds_sweep::report::RemovalStatus;
use ds_sweep::space::DiskSpace;
use ds_sweep::walker::EntryAction;
use ds_sweep::walker::ListingFailure;
use ds_sweep::walker::TreeWalker;

fn p(parts: &[&str]) -> Vec<String> {
    parts.iter().map(|s| s.to_string()).collect()
}

fn store() -> String {
    ".DS_Store".to_string()
}

#[test]
fn nested_store_files_are_removed_and_counted() {
    let mut w = TreeWalker::new(p(&["root"]), vec![store()], vec![], 10);
    let mut space = DiskSpace::new();
    let mut rep = DeletionReporter::new();

    let root = w.pop_pending().unwrap();
    assert_eq!(root.path, p(&["root"]));
    assert_eq!(root.depth, 0);

    assert_eq!(w.handle_entry(&root, "a".to_string(), true), EntryAction::Descend);
    let dir_a = w.pop_pending().unwrap();
    assert_eq!(dir_a.path, p(&["root", "a"]));
    assert_eq!(dir_a.depth, 1);

    assert_eq!(w.handle_entry(&dir_a, store(), false), EntryAction::Remove);
    record_outcome(
        p(&["root", "a", ".DS_Store"]),
        RemovalStatus::Removed { size: 100 },
        &mut space,
        &mut rep,
    );
    assert_eq!(w.handle_entry(&dir_a, "b".to_string(), true), EntryAction::Descend);

    let dir_b = w.pop_pending().unwrap();
    assert_eq!(dir_b.path, p(&["root", "a", "b"]));
    assert_eq!(w.handle_entry(&dir_b, store(), false), EntryAction::Remove);
    record_outcome(
        p(&["root", "a", "b", ".DS_Store"]),
        RemovalStatus::Removed { size: 50 },
        &mut space,
        &mut rep,
    );

    assert!(w.pop_pending().is_none());
    assert_eq!(space.total(), 150);
    assert_eq!(space.render(), "150 B");
    assert_eq!(rep.events().len(), 2);
    assert!(matches!(rep.events()[0].status, RemovalStatus::Removed { size: 100 }));
    assert_eq!(rep.events()[0].path, p(&["root", "a", ".DS_Store"]));
    assert!(matches!(rep.events()[1].status, RemovalStatus::Removed { size: 50 }));
}

#[test]
fn ignored_directory_is_never_entered() {
    let mut w = TreeWalker::new(p(&["root"]), vec![store()], vec![p(&["Library"])], 10);
    let space = DiskSpace::new();

    let root = w.pop_pending().unwrap();
    assert_eq!(w.handle_entry(&root, "Library".to_string(), true), EntryAction::Skip);
    assert!(w.pop_pending().is_none());
    assert_eq!(space.total(), 0);
    assert_eq!(space.render(), "0 B");
}

#[test]
fn missing_root_is_fatal_before_any_removal() {
    let mut w = TreeWalker::new(p(&["nowhere"]), vec![store()], vec![], 10);
    let space = DiskSpace::new();

    let root = w.pop_pending().unwrap();
    assert_eq!(w.classify_listing_failure(&root), ListingFailure::FatalRoot);
    assert_eq!(space.total(), 0);
}

#[test]
fn unreadable_subtree_is_skipped_and_walk_continues() {
    let mut w = TreeWalker::new(p(&["root"]), vec![store()], vec![], 10);
    let mut space = DiskSpace::new();
    let mut rep = DeletionReporter::new();

    let root = w.pop_pending().unwrap();
    assert_eq!(w.handle_entry(&root, "locked".to_string(), true), EntryAction::Descend);
    assert_eq!(w.handle_entry(&root, "open".to_string(), true), EntryAction::Descend);

    let dir_open = w.pop_pending().unwrap();
    assert_eq!(dir_open.path, p(&["root", "open"]));
    assert_eq!(w.handle_entry(&dir_open, store(), false), EntryAction::Remove);
    record_outcome(
        p(&["root", "open", ".DS_Store"]),
        RemovalStatus::Removed { size: 70 },
        &mut space,
        &mut rep,
    );

    let dir_locked = w.pop_pending().unwrap();
    assert_eq!(dir_locked.path, p(&["root", "locked"]));
    assert_eq!(w.classify_listing_failure(&dir_locked), ListingFailure::SubtreeSkipped);

    assert!(w.pop_pending().is_none());
    assert_eq!(space.total(), 70);
}

#[test]
fn ceiling_blocks_descent_but_not_matching() {
    let mut w = TreeWalker::new(p(&["root"]), vec![store()], vec![], 1);

    let root = w.pop_pending().unwrap();
    assert_eq!(w.handle_entry(&root, "a".to_string(), true), EntryAction::Descend);

    let dir_a = w.pop_pending().unwrap();
    assert_eq!(dir_a.depth, 1);
    assert_eq!(w.handle_entry(&dir_a, "b".to_string(), true), EntryAction::Skip);
    assert_eq!(w.handle_entry(&dir_a, store(), false), EntryAction::Remove);
    assert!(w.pop_pending().is_none());
}

#[test]
fn zero_ceiling_keeps_the_walk_at_the_root() {
    let mut w = TreeWalker::new(p(&["root"]), vec![store()], vec![], 0);

    let root = w.pop_pending().unwrap();
    assert_eq!(w.handle_entry(&root, "a".to_string(), true), EntryAction::Skip);
    assert_eq!(w.handle_entry(&root, store(), false), EntryAction::Remove);
    assert!(w.pop_pending().is_none());
}

#[test]
fn second_run_on_a_clean_tree_removes_nothing() {
    let mut w = TreeWalker::new(p(&["root"]), vec![store()], vec![], 10);
    let space = DiskSpace::new();

    let root = w.pop_pending().unwrap();
    assert_eq!(w.handle_entry(&root, "a".to_string(), true), EntryAction::Descend);
    let dir_a = w.pop_pending().unwrap();
    assert_eq!(w.handle_entry(&dir_a, "b".to_string(), true), EntryAction::Descend);
    let dir_b = w.pop_pending().unwrap();
    assert_eq!(w.handle_entry(&dir_b, "notes.txt".to_string(), false), EntryAction::Skip);
    assert!(w.pop_pending().is_none());
    assert_eq!(space.total(), 0);
    assert_eq!(space.render(), "0 B");
}

#[test]
fn failed_removal_is_reported_but_not_counted() {
    let mut space = DiskSpace::new();
    let mut rep = DeletionReporter::new();
    record_outcome(
        p(&["root", ".DS_Store"]),
        RemovalStatus::Failed,
        &mut space,
        &mut rep,
    );
    assert_eq!(space.total(), 0);
    assert_eq!(rep.events().len(), 1);
    assert!(matches!(rep.events()[0].status, RemovalStatus::Failed));
}
