use fpm::install::{
    collect_conflicts, collect_manifest, plan_install, ArchiveEntry, ArchiveModel, EntryKind,
    PlannedOp,
};

fn file(path: &str, dest_exists: bool) -> ArchiveEntry {
    ArchiveEntry { path: path.to_string(), kind: EntryKind::File, dest_exists }
}

fn dir(path: &str) -> ArchiveEntry {
    ArchiveEntry { path: path.to_string(), kind: EntryKind::Directory, dest_exists: false }
}

fn symlink(path: &str, target: &str) -> ArchiveEntry {
    ArchiveEntry {
        path: path.to_string(),
        kind: EntryKind::Symlink { target: target.to_string() },
        dest_exists: false,
    }
}

fn archive(name: &str, entries: Vec<ArchiveEntry>) -> ArchiveModel {
    ArchiveModel { name: name.to_string(), entries }
}

#[test]
fn manifest_records_files_and_symlinks_only() {
    let a = archive(
        "a",
        vec![
            dir("usr"),
            dir("usr/bin"),
            file("usr/bin/tool", false),
            symlink("usr/bin/alias", "tool"),
        ],
    );
    let m = collect_manifest(&a.entries);
    assert_eq!(m, vec!["usr/bin/tool".to_string(), "usr/bin/alias".to_string()]);
}

#[test]
fn conflicts_collected_across_all_archives() {
    let a = archive("a", vec![file("usr/bin/one", true), file("usr/bin/two", false)]);
    let b = archive("b", vec![file("etc/conf", true)]);
    let c = collect_conflicts(&vec![a, b]);
    assert_eq!(c, vec!["usr/bin/one".to_string(), "etc/conf".to_string()]);
}

#[test]
fn symlinks_never_conflict() {
    // A symlink entry is assumed overwritable: even a pre-existing
    // destination records no conflict.
    let a = archive("a", vec![symlink("usr/bin/alias", "tool")]);
    let c = collect_conflicts(&vec![a]);
    assert!(c.is_empty());
}

#[test]
fn conflict_scan_commutes_over_archive_order() {
    let a = archive("a", vec![file("x", true), file("y", false)]);
    let b = archive("b", vec![file("z", true), file("x", true)]);
    let a2 = archive("a", vec![file("x", true), file("y", false)]);
    let b2 = archive("b", vec![file("z", true), file("x", true)]);
    let mut ab = collect_conflicts(&vec![a, b]);
    let mut ba = collect_conflicts(&vec![b2, a2]);
    ab.sort();
    ab.dedup();
    ba.sort();
    ba.dedup();
    assert_eq!(ab, ba);
}

#[test]
fn any_conflict_refuses_the_whole_batch() {
    // Archive `a` collides on usr/bin/tool; nothing from either archive
    // may be planned.
    let a = archive("a", vec![dir("usr"), file("usr/bin/tool", true)]);
    let b = archive("b", vec![file("usr/share/doc", false)]);
    let e = plan_install(&vec![a, b]).unwrap_err();
    assert_eq!(e.paths, vec!["usr/bin/tool".to_string()]);
}

#[test]
fn conflict_free_batch_plans_every_entry_in_order() {
    let a = archive(
        "pkg-a",
        vec![dir("usr"), file("usr/tool", false), symlink("usr/alias", "tool")],
    );
    let plans = plan_install(&vec![a]).unwrap();
    assert_eq!(plans.len(), 1);
    let plan = &plans[0];
    assert_eq!(plan.name, "pkg-a");
    assert_eq!(plan.manifest, vec!["usr/tool".to_string(), "usr/alias".to_string()]);
    assert_eq!(plan.steps.len(), 3);
    assert_eq!(plan.steps[0].path, "usr");
    assert!(matches!(plan.steps[0].op, PlannedOp::CreateDirectory));
    assert_eq!(plan.steps[1].path, "usr/tool");
    assert!(matches!(plan.steps[1].op, PlannedOp::ExtractFile));
    assert_eq!(plan.steps[1].entry, 1);
    match &plan.steps[2].op {
        PlannedOp::CreateSymlink { target } => assert_eq!(target, "tool"),
        _ => panic!("expected symlink step"),
    }
}

#[test]
fn empty_batch_plans_nothing() {
    let plans = plan_install(&Vec::new()).unwrap();
    assert!(plans.is_empty());
}
