//! Conflict-safe two-phase installation: archives are modelled as their
//! entry listings, phase 1 collects every conflicting destination path
//! across every archive, and only a conflict-free batch yields a plan of
//! writes for phase 2.  No write is planned when any conflict exists.
use vstd::prelude::*;

verus! {

/// The kind of one archive entry.
#[derive(Debug)]
pub enum EntryKind {
    Directory,
    File,
    Symlink { target: String },
}

/// One entry of an archive listing, in archive order.  `dest_exists`
/// records whether the entry's would-be destination path already exists
/// on disk; it is only meaningful for regular files.
#[derive(Debug)]
pub struct ArchiveEntry {
    pub path: String,
    pub kind: EntryKind,
    pub dest_exists: bool,
}

/// One archive of the install batch: its package identity and its
/// entries in archive order.
#[derive(Debug)]
pub struct ArchiveModel {
    pub name: String,
    pub entries: Vec<ArchiveEntry>,
}

/// A regular-file entry whose destination already exists is a conflict;
/// directories and symlinks never conflict.
pub open spec fn entry_conflicts(e: ArchiveEntry) -> bool {
    e.kind is File && e.dest_exists
}

/// The conflicting paths of one entry listing, in entry order.
pub open spec fn entry_conflict_list(entries: Seq<ArchiveEntry>) -> Seq<Seq<char>>
    decreases entries.len(),
{
    if entries.len() == 0 {
        Seq::empty()
    } else {
        (if entry_conflicts(entries[0]) {
            seq![entries[0].path@]
        } else {
            Seq::<Seq<char>>::empty()
        }) + entry_conflict_list(entries.drop_first())
    }
}

/// The conflicting paths of the whole batch, archives in batch order.
pub open spec fn conflict_list(archives: Seq<ArchiveModel>) -> Seq<Seq<char>>
    decreases archives.len(),
{
    if archives.len() == 0 {
        Seq::empty()
    } else {
        entry_conflict_list(archives[0].entries@) + conflict_list(archives.drop_first())
    }
}

/// The conflicting paths of one entry listing, as a set.
pub open spec fn entry_conflict_set(entries: Seq<ArchiveEntry>) -> Set<Seq<char>> {
    Set::new(
        |p: Seq<char>|
            exists|k: int|
                0 <= k < entries.len() && (#[trigger] entries[k]).path@ == p && entry_conflicts(
                    entries[k],
                ),
    )
}

/// The conflicting paths of the whole batch, as a set.
pub open spec fn conflict_set(archives: Seq<ArchiveModel>) -> Set<Seq<char>> {
    Set::new(
        |p: Seq<char>|
            exists|i: int|
                0 <= i < archives.len() && entry_conflict_set(
                    (#[trigger] archives[i]).entries@,
                ).contains(p),
    )
}

/// The ordered conflict list of one listing holds exactly the paths of
/// its conflicting entries.
pub proof fn lemma_entry_conflict_list_set(entries: Seq<ArchiveEntry>, p: Seq<char>)
    ensures
        entry_conflict_list(entries).contains(p) <==> entry_conflict_set(entries).contains(p),
    decreases entries.len(),
{
    if entries.len() == 0 {
        assert(!entry_conflict_list(entries).contains(p));
        assert(forall|k: int|
            !(0 <= k < entries.len() && (#[trigger] entries[k]).path@ == p && entry_conflicts(
                entries[k],
            )));
    } else {
        let rest = entries.drop_first();
        lemma_entry_conflict_list_set(rest, p);
        let head = if entry_conflicts(entries[0]) {
            seq![entries[0].path@]
        } else {
            Seq::<Seq<char>>::empty()
        };
        assert(entry_conflict_list(entries) == head + entry_conflict_list(rest));
        if entry_conflict_list(entries).contains(p) {
            let k = choose|k: int|
                0 <= k < entry_conflict_list(entries).len() && entry_conflict_list(entries)[k]
                    == p;
            if k < head.len() {
                assert(entries[0].path@ == p && entry_conflicts(entries[0]));
                assert(entry_conflict_set(entries).contains(p));
            } else {
                assert(entry_conflict_list(rest)[k - head.len()] == p);
                assert(entry_conflict_list(rest).contains(p));
                let j = choose|j: int|
                    0 <= j < rest.len() && (#[trigger] rest[j]).path@ == p && entry_conflicts(
                        rest[j],
                    );
                assert(entries[j + 1] == rest[j]);
                assert(entry_conflict_set(entries).contains(p));
            }
        }
        if entry_conflict_set(entries).contains(p) {
            let k = choose|k: int|
                0 <= k < entries.len() && (#[trigger] entries[k]).path@ == p && entry_conflicts(
                    entries[k],
                );
            if k == 0 {
                assert(entry_conflict_list(entries)[0] == p);
                assert(entry_conflict_list(entries).contains(p));
            } else {
                assert(rest[k - 1] == entries[k]);
                assert(entry_conflict_set(rest).contains(p));
                assert(entry_conflict_list(rest).contains(p));
                let j = choose|j: int|
                    0 <= j < entry_conflict_list(rest).len() && entry_conflict_list(rest)[j] == p;
                assert(entry_conflict_list(entries)[head.len() + j] == p);
                assert(entry_conflict_list(entries).contains(p));
            }
        }
    }
}

/// The ordered conflict list of a batch holds exactly the paths of the
/// batch's conflict set.
pub proof fn lemma_conflict_list_set(archives: Seq<ArchiveModel>, p: Seq<char>)
    ensures
        conflict_list(archives).contains(p) <==> conflict_set(archives).contains(p),
    decreases archives.len(),
{
    if archives.len() == 0 {
        assert(!conflict_list(archives).contains(p));
        assert(forall|i: int|
            !(0 <= i < archives.len() && entry_conflict_set(
                (#[trigger] archives[i]).entries@,
            ).contains(p)));
    } else {
        let rest = archives.drop_first();
        lemma_conflict_list_set(rest, p);
        lemma_entry_conflict_list_set(archives[0].entries@, p);
        let head = entry_conflict_list(archives[0].entries@);
        assert(conflict_list(archives) == head + conflict_list(rest));
        if conflict_list(archives).contains(p) {
            let k = choose|k: int|
                0 <= k < conflict_list(archives).len() && conflict_list(archives)[k] == p;
            if k < head.len() {
                assert(head.contains(p));
                assert(entry_conflict_set(archives[0].entries@).contains(p));
                assert(conflict_set(archives).contains(p));
            } else {
                assert(conflict_list(rest)[k - head.len()] == p);
                assert(conflict_list(rest).contains(p));
                let i = choose|i: int|
                    0 <= i < rest.len() && entry_conflict_set(
                        (#[trigger] rest[i]).entries@,
                    ).contains(p);
                assert(archives[i + 1] == rest[i]);
                assert(conflict_set(archives).contains(p));
            }
        }
        if conflict_set(archives).contains(p) {
            let i = choose|i: int|
                0 <= i < archives.len() && entry_conflict_set(
                    (#[trigger] archives[i]).entries@,
                ).contains(p);
            if i == 0 {
                assert(head.contains(p));
                let j = choose|j: int| 0 <= j < head.len() && head[j] == p;
                assert(conflict_list(archives)[j] == p);
                assert(conflict_list(archives).contains(p));
            } else {
                assert(rest[i - 1] == archives[i]);
                assert(conflict_set(rest).contains(p));
                assert(conflict_list(rest).contains(p));
                let j = choose|j: int|
                    0 <= j < conflict_list(rest).len() && conflict_list(rest)[j] == p;
                assert(conflict_list(archives)[head.len() + j] == p);
                assert(conflict_list(archives).contains(p));
            }
        }
    }
}

/// The file and symlink paths of one listing, in entry order: the
/// manifest recorded for later removal and audits.  Directory entries
/// are not owned by a package and are not recorded.
pub open spec fn manifest_spec(entries: Seq<ArchiveEntry>) -> Seq<Seq<char>>
    decreases entries.len(),
{
    if entries.len() == 0 {
        Seq::empty()
    } else {
        (if entries[0].kind is File || entries[0].kind is Symlink {
            seq![entries[0].path@]
        } else {
            Seq::<Seq<char>>::empty()
        }) + manifest_spec(entries.drop_first())
    }
}

/// Collects the manifest of one entry listing.
pub fn collect_manifest(entries: &Vec<ArchiveEntry>) -> (r: Vec<String>)
    ensures
        r.deep_view() == manifest_spec(entries@),
{
    let mut r: Vec<String> = Vec::new();
    let mut i: usize = 0;
    proof {
        assert(entries@.skip(0) =~= entries@);
        assert(r.deep_view() =~= Seq::<Seq<char>>::empty());
        assert(Seq::<Seq<char>>::empty() + manifest_spec(entries@) =~= manifest_spec(entries@));
    }
    while i < entries.len()
        invariant
            i <= entries@.len(),
            r.deep_view() + manifest_spec(entries@.skip(i as int)) == manifest_spec(entries@),
        decreases entries@.len() - i,
    {
        proof {
            assert(entries@.skip(i as int).len() == entries@.len() - i);
            assert(entries@.skip(i as int)[0] == entries@[i as int]);
            assert(entries@.skip(i as int).drop_first() =~= entries@.skip(i + 1));
        }
        let e = &entries[i];
        let keep = match e.kind {
            EntryKind::File => true,
            EntryKind::Symlink { .. } => true,
            EntryKind::Directory => false,
        };
        if keep {
            let ghost old_dv = r.deep_view();
            r.push(e.path.clone());
            proof {
                assert(r.deep_view() =~= old_dv.push(entries@[i as int].path@));
                assert(r.deep_view() + manifest_spec(entries@.skip(i + 1)) =~= old_dv
                    + manifest_spec(entries@.skip(i as int)));
            }
        }
        i = i + 1;
    }
    proof {
        assert(entries@.skip(entries@.len() as int).len() == 0);
        assert(manifest_spec(entries@.skip(entries@.len() as int)) == Seq::<Seq<char>>::empty());
        assert(r.deep_view() + Seq::<Seq<char>>::empty() =~= r.deep_view());
    }
    r
}

/// Collects the conflicting paths of one entry listing, in entry order.
fn collect_entry_conflicts(entries: &Vec<ArchiveEntry>) -> (r: Vec<String>)
    ensures
        r.deep_view() == entry_conflict_list(entries@),
{
    let mut r: Vec<String> = Vec::new();
    let mut i: usize = 0;
    proof {
        assert(entries@.skip(0) =~= entries@);
        assert(r.deep_view() =~= Seq::<Seq<char>>::empty());
        assert(Seq::<Seq<char>>::empty() + entry_conflict_list(entries@) =~= entry_conflict_list(
            entries@,
        ));
    }
    while i < entries.len()
        invariant
            i <= entries@.len(),
            r.deep_view() + entry_conflict_list(entries@.skip(i as int)) == entry_conflict_list(
                entries@,
            ),
        decreases entries@.len() - i,
    {
        proof {
            assert(entries@.skip(i as int).len() == entries@.len() - i);
            assert(entries@.skip(i as int)[0] == entries@[i as int]);
            assert(entries@.skip(i as int).drop_first() =~= entries@.skip(i + 1));
        }
        let e = &entries[i];
        let is_file = match e.kind {
            EntryKind::File => true,
            _ => false,
        };
        if is_file && e.dest_exists {
            let ghost old_dv = r.deep_view();
            r.push(e.path.clone());
            proof {
                assert(r.deep_view() =~= old_dv.push(entries@[i as int].path@));
                assert(r.deep_view() + entry_conflict_list(entries@.skip(i + 1)) =~= old_dv
                    + entry_conflict_list(entries@.skip(i as int)));
            }
        }
        i = i + 1;
    }
    proof {
        assert(entries@.skip(entries@.len() as int).len() == 0);
        assert(entry_conflict_list(entries@.skip(entries@.len() as int)) == Seq::<
            Seq<char>,
        >::empty());
        assert(r.deep_view() + Seq::<Seq<char>>::empty() =~= r.deep_view());
    }
    r
}

/// Scans the whole batch and collects every conflicting path, archives
/// in batch order; nothing is written during the scan.
pub fn collect_conflicts(archives: &Vec<ArchiveModel>) -> (r: Vec<String>)
    ensures
        r.deep_view() == conflict_list(archives@),
{
    let mut r: Vec<String> = Vec::new();
    let mut i: usize = 0;
    proof {
        assert(archives@.skip(0) =~= archives@);
        assert(r.deep_view() =~= Seq::<Seq<char>>::empty());
        assert(Seq::<Seq<char>>::empty() + conflict_list(archives@) =~= conflict_list(archives@));
    }
    while i < archives.len()
        invariant
            i <= archives@.len(),
            r.deep_view() + conflict_list(archives@.skip(i as int)) == conflict_list(archives@),
        decreases archives@.len() - i,
    {
        proof {
            assert(archives@.skip(i as int).len() == archives@.len() - i);
            assert(archives@.skip(i as int)[0] == archives@[i as int]);
            assert(archives@.skip(i as int).drop_first() =~= archives@.skip(i + 1));
        }
        let mut part = collect_entry_conflicts(&archives[i].entries);
        let ghost old_dv = r.deep_view();
        let ghost part_dv = part.deep_view();
        r.append(&mut part);
        proof {
            assert(r.deep_view() =~= old_dv + part_dv);
            assert(r.deep_view() + conflict_list(archives@.skip(i + 1)) =~= old_dv + conflict_list(
                archives@.skip(i as int),
            ));
        }
        i = i + 1;
    }
    proof {
        assert(archives@.skip(archives@.len() as int).len() == 0);
        assert(conflict_list(archives@.skip(archives@.len() as int)) == Seq::<Seq<char>>::empty());
        assert(r.deep_view() + Seq::<Seq<char>>::empty() =~= r.deep_view());
    }
    r
}

/// One write of phase 2, in extraction order.
#[derive(Debug)]
pub enum PlannedOp {
    CreateDirectory,
    ExtractFile,
    CreateSymlink { target: String },
}

/// One phase-2 step: materialise archive entry `entry` at `path`.
#[derive(Debug)]
pub struct PlannedStep {
    pub entry: usize,
    pub path: String,
    pub op: PlannedOp,
}

/// The phase-2 work for one archive: record the manifest under the
/// package's identity, then materialise every entry in archive order.
#[derive(Debug)]
pub struct ArchivePlan {
    pub name: String,
    pub manifest: Vec<String>,
    pub steps: Vec<PlannedStep>,
}

/// Every conflicting path of a refused batch, in scan order.
#[derive(Debug)]
pub struct ConflictReport {
    pub paths: Vec<String>,
}

/// The planned step `s` materialises entry `k` faithfully: same path,
/// and an operation of the entry's kind.
pub open spec fn step_matches(e: ArchiveEntry, s: PlannedStep, k: int) -> bool {
    &&& s.entry == k
    &&& s.path@ == e.path@
    &&& match e.kind {
        EntryKind::Directory => s.op is CreateDirectory,
        EntryKind::File => s.op is ExtractFile,
        EntryKind::Symlink { target } => s.op matches PlannedOp::CreateSymlink {
            target: t,
        } && t@ == target@,
    }
}

/// The plan for one archive covers exactly its entries, in order, with
/// its manifest.
pub open spec fn archive_plan_matches(a: ArchiveModel, pl: ArchivePlan) -> bool {
    &&& pl.name@ == a.name@
    &&& pl.manifest.deep_view() == manifest_spec(a.entries@)
    &&& pl.steps@.len() == a.entries@.len()
    &&& forall|k: int|
        0 <= k < a.entries@.len() ==> step_matches(a.entries@[k], #[trigger] pl.steps@[k], k)
}

/// Builds the phase-2 plan for one archive.
fn plan_archive(a: &ArchiveModel) -> (r: ArchivePlan)
    ensures
        archive_plan_matches(*a, r),
{
    let manifest = collect_manifest(&a.entries);
    let mut steps: Vec<PlannedStep> = Vec::new();
    let mut k: usize = 0;
    while k < a.entries.len()
        invariant
            k <= a.entries@.len(),
            steps@.len() == k,
            forall|j: int|
                0 <= j < k ==> step_matches(a.entries@[j], #[trigger] steps@[j], j),
        decreases a.entries@.len() - k,
    {
        let e = &a.entries[k];
        let op = match &e.kind {
            EntryKind::Directory => PlannedOp::CreateDirectory,
            EntryKind::File => PlannedOp::ExtractFile,
            EntryKind::Symlink { target } => PlannedOp::CreateSymlink { target: target.clone() },
        };
        let step = PlannedStep { entry: k, path: e.path.clone(), op };
        steps.push(step);
        k = k + 1;
    }
    ArchivePlan { name: a.name.clone(), manifest, steps }
}

/// Phase 1 then phase 2: scans every archive of the batch for conflicts
/// first, and only when the whole batch is conflict-free produces the
/// plan of writes.  When any file of any archive collides with an
/// existing destination path, the batch is refused naming every
/// conflicting path, and no write is planned for any archive.
pub fn plan_install(archives: &Vec<ArchiveModel>) -> (r: Result<Vec<ArchivePlan>, ConflictReport>)
    ensures
        r is Ok <==> conflict_list(archives@).len() == 0,
        r matches Err(c) ==> c.paths.deep_view() == conflict_list(archives@) && c.paths@.len() > 0,
        r matches Ok(plan) ==> plan@.len() == archives@.len() && forall|i: int|
            0 <= i < archives@.len() ==> archive_plan_matches(
                archives@[i],
                #[trigger] plan@[i],
            ),
{
    let conflicts = collect_conflicts(archives);
    proof {
        assert(conflicts.deep_view().len() == conflicts@.len());
    }
    if conflicts.len() > 0 {
        return Err(ConflictReport { paths: conflicts });
    }
    let mut plan: Vec<ArchivePlan> = Vec::new();
    let mut i: usize = 0;
    while i < archives.len()
        invariant
            i <= archives@.len(),
            plan@.len() == i,
            forall|j: int|
                0 <= j < i ==> archive_plan_matches(archives@[j], #[trigger] plan@[j]),
        decreases archives@.len() - i,
    {
        let pl = plan_archive(&archives[i]);
        plan.push(pl);
        i = i + 1;
    }
    Ok(plan)
}

/// The batch has no conflict in the ordered scan exactly when its
/// conflict set is empty: with any colliding file anywhere in the
/// batch, `plan_install` refuses the whole batch and plans no write.
pub proof fn lemma_empty_scan_iff_no_conflict(archives: Seq<ArchiveModel>)
    ensures
        conflict_list(archives).len() == 0 <==> conflict_set(archives) =~= Set::<Seq<char>>::empty(),
{
    if conflict_list(archives).len() == 0 {
        assert forall|p: Seq<char>| !conflict_set(archives).contains(p) by {
            lemma_conflict_list_set(archives, p);
        }
    } else {
        let p = conflict_list(archives)[0];
        assert(conflict_list(archives).contains(p));
        lemma_conflict_list_set(archives, p);
    }
}

/// The conflict scan is commutative over archive order: a batch of two
/// archives yields the same conflict set whichever way it is ordered.
pub proof fn lemma_conflict_scan_commutes(a: ArchiveModel, b: ArchiveModel)
    ensures
        conflict_set(seq![a, b]) == conflict_set(seq![b, a]),
{
    let ab = seq![a, b];
    let ba = seq![b, a];
    assert forall|p: Seq<char>| conflict_set(ab).contains(p) implies conflict_set(ba).contains(
        p,
    ) by {
        let i = choose|i: int|
            0 <= i < ab.len() && entry_conflict_set((#[trigger] ab[i]).entries@).contains(p);
        assert(ba[1 - i] == ab[i]);
    }
    assert forall|p: Seq<char>| conflict_set(ba).contains(p) implies conflict_set(ab).contains(
        p,
    ) by {
        let i = choose|i: int|
            0 <= i < ba.len() && entry_conflict_set((#[trigger] ba[i]).entries@).contains(p);
        assert(ab[1 - i] == ba[i]);
    }
    assert(conflict_set(ab) =~= conflict_set(ba));
}

} // verus!
