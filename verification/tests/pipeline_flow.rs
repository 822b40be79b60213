use fpm::pipeline::{initial_phase, next_phase, BuildOptions, MakeOptions, Outcome, Phase};
use fpm::stage::{classify_stderr_line, stage_name, uses_fakeroot, LineClass, Stage};

fn opts(rebuild: bool, disable_sign: bool, disable_check_depends: bool) -> BuildOptions {
    BuildOptions { rebuild, disable_sign, disable_check_depends }
}

/// Drives the pipeline answering every probe `Absent` and every other
/// phase `Success`, and returns the visited phases.
fn run_all_success(o: BuildOptions) -> Vec<Phase> {
    let mut phases = vec![initial_phase()];
    let mut guard = 0;
    loop {
        let cur = *phases.last().unwrap();
        if matches!(cur, Phase::Done | Phase::Failed) {
            break;
        }
        let outcome = if matches!(cur, Phase::CheckExisting) {
            Outcome::Absent
        } else {
            Outcome::Success
        };
        phases.push(next_phase(cur, o, outcome));
        guard += 1;
        assert!(guard < 100, "pipeline must terminate");
    }
    phases
}

#[test]
fn full_build_visits_stages_in_fixed_order() {
    let phases = run_all_success(opts(false, false, false));
    assert_eq!(
        phases,
        vec![
            Phase::ReadMirrors,
            Phase::ReadRecipe,
            Phase::CheckExisting,
            Phase::PreClean,
            Phase::CheckDeps,
            Phase::FetchSources,
            Phase::VerifySums,
            Phase::CreateStaging,
            Phase::ExtractSources,
            Phase::RunStage { stage: Stage::Prepare },
            Phase::RunStage { stage: Stage::Build },
            Phase::RunStage { stage: Stage::Test },
            Phase::RunStage { stage: Stage::Package },
            Phase::CreateArchive,
            Phase::SignArchive,
            Phase::WriteMetadata,
            Phase::FinalCleanup { failed: false },
            Phase::Done,
        ]
    );
}

#[test]
fn options_skip_signing_and_dependency_check() {
    let phases = run_all_success(opts(false, true, true));
    assert!(!phases.contains(&Phase::SignArchive));
    assert!(!phases.contains(&Phase::CheckDeps));
    assert_eq!(*phases.last().unwrap(), Phase::Done);
}

#[test]
fn existing_archive_without_rebuild_fails() {
    let o = opts(false, false, false);
    let p = next_phase(Phase::CheckExisting, o, Outcome::Exists);
    assert_eq!(p, Phase::Failed);
}

#[test]
fn existing_archive_with_rebuild_is_removed_first() {
    let o = opts(true, false, false);
    let p = next_phase(Phase::CheckExisting, o, Outcome::Exists);
    assert_eq!(p, Phase::RemoveExisting);
    assert_eq!(next_phase(p, o, Outcome::Success), Phase::PreClean);
}

#[test]
fn failed_prepare_skips_later_stages_but_still_cleans_up() {
    let o = opts(false, false, false);
    let mut cur = Phase::RunStage { stage: Stage::Prepare };
    cur = next_phase(cur, o, Outcome::Failure);
    assert_eq!(cur, Phase::FinalCleanup { failed: true });
    let mut saw_stage = false;
    for _ in 0..10 {
        cur = next_phase(cur, o, Outcome::Success);
        if matches!(cur, Phase::RunStage { .. }) {
            saw_stage = true;
        }
    }
    assert!(!saw_stage);
    assert_eq!(cur, Phase::Failed);
}

#[test]
fn failed_checksums_stop_before_any_staging() {
    let o = opts(false, false, false);
    let mut cur = next_phase(Phase::VerifySums, o, Outcome::Failure);
    assert_eq!(cur, Phase::Failed);
    for _ in 0..10 {
        cur = next_phase(cur, o, Outcome::Success);
        assert!(!matches!(
            cur,
            Phase::CreateStaging
                | Phase::ExtractSources
                | Phase::RunStage { .. }
                | Phase::FinalCleanup { .. }
        ));
    }
}

#[test]
fn cleanup_failure_after_success_still_fails_the_build() {
    let o = opts(false, false, false);
    let p = next_phase(Phase::FinalCleanup { failed: false }, o, Outcome::Failure);
    assert_eq!(p, Phase::Failed);
    let p = next_phase(Phase::FinalCleanup { failed: false }, o, Outcome::Success);
    assert_eq!(p, Phase::Done);
}

#[test]
fn make_options_carry_per_build_flags() {
    let m = MakeOptions {
        package_name: vec!["tool".to_string()],
        all: false,
        rebuild: true,
        disable_sign: false,
        disable_check_depends: true,
    };
    let b = m.build_options();
    assert!(b.rebuild);
    assert!(!b.disable_sign);
    assert!(b.disable_check_depends);
}

#[test]
fn stage_names_and_fakeroot_policy() {
    assert_eq!(stage_name(Stage::Prepare), "prepare");
    assert_eq!(stage_name(Stage::Build), "build");
    assert_eq!(stage_name(Stage::Test), "test");
    assert_eq!(stage_name(Stage::Package), "package");
    assert!(uses_fakeroot(Stage::Package));
    assert!(!uses_fakeroot(Stage::Prepare));
    assert!(!uses_fakeroot(Stage::Build));
    assert!(!uses_fakeroot(Stage::Test));
}

#[test]
fn trace_lines_become_the_current_command() {
    match classify_stderr_line("+ make install") {
        LineClass::Command { command } => assert_eq!(command, "make install"),
        _ => panic!("expected a command line"),
    }
    // Nested trace markers are stripped repeatedly, whitespace trimmed.
    match classify_stderr_line("+ + echo hi  ") {
        LineClass::Command { command } => assert_eq!(command, "echo hi"),
        _ => panic!("expected a command line"),
    }
}

#[test]
fn bare_plus_lines_are_noise_and_others_are_messages() {
    assert!(matches!(classify_stderr_line("++ inner"), LineClass::Noise));
    assert!(matches!(classify_stderr_line("+"), LineClass::Noise));
    assert!(matches!(classify_stderr_line("warning: odd"), LineClass::Message));
    assert!(matches!(classify_stderr_line(""), LineClass::Message));
}
