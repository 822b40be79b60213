//! End-to-end scenarios over the library's model of a build: the
//! checked pipeline order, checksum gating, and install planning are
//! driven together the way the driver binary would.
use fpm::hashes::{check_sums, compute_digest, hash_to_hex, Algorithm, FetchedSource};
use fpm::install::{plan_install, ArchiveEntry, ArchiveModel, EntryKind};
use fpm::pipeline::{initial_phase, next_phase, BuildOptions, Outcome, Phase};
use fpm::recipe::Package;
use fpm::stage::Stage;

fn opts() -> BuildOptions {
    BuildOptions { rebuild: false, disable_sign: false, disable_check_depends: false }
}

#[test]
fn successful_build_runs_four_stages_then_archives() {
    // Recipe: one remote source with a correct sha256; every stage
    // appends one marker file into the staging destination.
    let tarball = b"tar bytes".to_vec();
    let digest = hash_to_hex(&compute_digest(&tarball, Algorithm::Sha256));
    let p = Package::from_vars(
        "demo",
        "1",
        "1",
        "https://x/a.tar.gz",
        &digest,
        "",
        "",
        "",
        "",
        "",
        &Vec::new(),
    );
    let files = vec![FetchedSource { path: "sources/a.tar.gz".to_string(), data: tarball }];
    assert!(check_sums(&files, &p).is_ok());

    // The pipeline reaches each stage exactly once, in order, and only
    // after the checksums passed.
    let mut cur = initial_phase();
    let mut stages_run: Vec<Stage> = Vec::new();
    let mut markers: Vec<ArchiveEntry> = vec![ArchiveEntry {
        path: ".".to_string(),
        kind: EntryKind::Directory,
        dest_exists: false,
    }];
    let mut guard = 0;
    while !matches!(cur, Phase::Done | Phase::Failed) {
        if let Phase::RunStage { stage } = cur {
            stages_run.push(stage);
            let marker = match stage {
                Stage::Prepare => "prepared",
                Stage::Build => "built",
                Stage::Test => "tested",
                Stage::Package => "packaged",
            };
            markers.push(ArchiveEntry {
                path: format!("./{}", marker),
                kind: EntryKind::File,
                dest_exists: false,
            });
        }
        let outcome = if matches!(cur, Phase::CheckExisting) {
            Outcome::Absent
        } else {
            Outcome::Success
        };
        cur = next_phase(cur, opts(), outcome);
        guard += 1;
        assert!(guard < 100);
    }
    assert_eq!(cur, Phase::Done);
    assert_eq!(
        stages_run,
        vec![Stage::Prepare, Stage::Build, Stage::Test, Stage::Package]
    );

    // The archive of the staged tree holds exactly the four marker
    // files plus the parent directory entry, and installs cleanly onto
    // an empty destination.
    let archive = ArchiveModel { name: "demo".to_string(), entries: markers };
    let plans = plan_install(&vec![archive]).unwrap();
    assert_eq!(
        plans[0].manifest,
        vec![
            "./prepared".to_string(),
            "./built".to_string(),
            "./tested".to_string(),
            "./packaged".to_string(),
        ]
    );
}

#[test]
fn wrong_checksum_stops_before_staging() {
    let tarball = b"tar bytes".to_vec();
    let p = Package::from_vars(
        "demo",
        "1",
        "1",
        "https://x/a.tar.gz",
        "deadbeef",
        "",
        "",
        "",
        "",
        "",
        &Vec::new(),
    );
    let files = vec![FetchedSource { path: "sources/a.tar.gz".to_string(), data: tarball }];
    let e = check_sums(&files, &p).unwrap_err();
    assert_eq!(e.file, "sources/a.tar.gz");
    assert_eq!(e.expected, "deadbeef");

    // The driver reports the failure at the checksum phase: the
    // pipeline fails without ever reaching a staging phase.
    let mut cur = initial_phase();
    let mut guard = 0;
    while !matches!(cur, Phase::Done | Phase::Failed) {
        assert!(!matches!(
            cur,
            Phase::CreateStaging | Phase::ExtractSources | Phase::RunStage { .. }
        ));
        let outcome = match cur {
            Phase::CheckExisting => Outcome::Absent,
            Phase::VerifySums => Outcome::Failure,
            _ => Outcome::Success,
        };
        cur = next_phase(cur, opts(), outcome);
        guard += 1;
        assert!(guard < 100);
    }
    assert_eq!(cur, Phase::Failed);
}

#[test]
fn install_conflict_extracts_nothing_from_either_archive() {
    // Archive A holds usr/bin/tool and the destination already has it:
    // the whole two-archive batch is refused with the conflicting path,
    // and no plan of writes exists for either archive.
    let a = ArchiveModel {
        name: "a".to_string(),
        entries: vec![
            ArchiveEntry {
                path: "usr/bin/tool".to_string(),
                kind: EntryKind::File,
                dest_exists: true,
            },
        ],
    };
    let b = ArchiveModel {
        name: "b".to_string(),
        entries: vec![
            ArchiveEntry {
                path: "usr/share/doc".to_string(),
                kind: EntryKind::File,
                dest_exists: false,
            },
        ],
    };
    let e = plan_install(&vec![a, b]).unwrap_err();
    assert_eq!(e.paths, vec!["usr/bin/tool".to_string()]);
}
