//! The build pipeline for one package as a state machine: the driver
//! performs the outside work of the current phase (evaluation, fetching,
//! shell stages) and reports each outcome; the machine decides, with
//! strict ordering, fail-fast stage semantics, and cleanup of the
//! staging directories on every path that created them.
use vstd::prelude::*;

use crate::stage::Stage;

verus! {

/// The options of one build, mirroring the command-line flags.
#[derive(Clone, Copy, Debug, PartialEq, Eq, Structural)]
pub struct BuildOptions {
    pub rebuild: bool,
    pub disable_sign: bool,
    pub disable_check_depends: bool,
}

/// One `make` invocation: the packages to build and its flags.
#[derive(Debug)]
pub struct MakeOptions {
    pub package_name: Vec<String>,
    pub all: bool,
    pub rebuild: bool,
    pub disable_sign: bool,
    pub disable_check_depends: bool,
}

impl MakeOptions {
    /// The per-build options of this invocation.
    pub fn build_options(&self) -> (r: BuildOptions)
        ensures
            r.rebuild == self.rebuild,
            r.disable_sign == self.disable_sign,
            r.disable_check_depends == self.disable_check_depends,
    {
        BuildOptions {
            rebuild: self.rebuild,
            disable_sign: self.disable_sign,
            disable_check_depends: self.disable_check_depends,
        }
    }
}

/// What the driver reports after performing the work of a phase.
/// `Exists` and `Absent` answer the distribution-archive probe; every
/// other phase reports `Success` or `Failure`.
#[derive(Clone, Copy, Debug, PartialEq, Eq, Structural)]
pub enum Outcome {
    Success,
    Failure,
    Exists,
    Absent,
}

/// The phases of one package's build, each naming the outside work the
/// driver performs next.  `FinalCleanup` removes the staging pair and
/// remembers whether the build had already failed.
#[derive(Clone, Copy, Debug, PartialEq, Eq, Structural)]
pub enum Phase {
    /// Read and parse the mirror table.
    ReadMirrors,
    /// Evaluate the recipe and assemble the `Package`.
    ReadRecipe,
    /// Probe whether the distribution archive already exists.
    CheckExisting,
    /// Remove the stale distribution archive before a rebuild.
    RemoveExisting,
    /// Remove any stale staging directories from an earlier run.
    PreClean,
    /// Verify every dependency against the installed-package database.
    CheckDeps,
    /// Fetch every declared source.
    FetchSources,
    /// Verify every fetched source against the declared checksums.
    VerifySums,
    /// Create the staging pair.
    CreateStaging,
    /// Extract or copy every source into the work directory.
    ExtractSources,
    /// Run one lifecycle stage inside the sandbox.
    RunStage { stage: Stage },
    /// Pack the staging destination into the distribution archive.
    CreateArchive,
    /// Produce the detached signature of the archive.
    SignArchive,
    /// Write the plaintext metadata sidecar.
    WriteMetadata,
    /// Remove the staging pair; `failed` records an earlier failure.
    FinalCleanup { failed: bool },
    /// The build finished and the staging pair is gone.
    Done,
    /// The build failed; no further work is performed.
    Failed,
}

/// A phase at which the pipeline has stopped.
pub open spec fn is_terminal(phase: Phase) -> bool {
    phase is Done || phase is Failed
}

/// A phase that can only be reached while the staging pair exists.
pub open spec fn staging_live(phase: Phase) -> bool {
    ||| phase is ExtractSources
    ||| phase is RunStage
    ||| phase is CreateArchive
    ||| phase is SignArchive
    ||| phase is WriteMetadata
    ||| phase is FinalCleanup
}

/// The transition table of the pipeline: given the phase whose work the
/// driver just performed and its outcome, the phase to perform next.
///
/// Failures before `CreateStaging` stop the build at once: no staging
/// directory has been created yet.  Failures from `CreateStaging` on go
/// through `FinalCleanup`, so the staging pair is removed on every path
/// that may have created it.
pub open spec fn next_phase_spec(phase: Phase, opts: BuildOptions, outcome: Outcome) -> Phase {
    match phase {
        Phase::ReadMirrors => if outcome is Success {
            Phase::ReadRecipe
        } else {
            Phase::Failed
        },
        Phase::ReadRecipe => if outcome is Success {
            Phase::CheckExisting
        } else {
            Phase::Failed
        },
        Phase::CheckExisting => if outcome is Absent {
            Phase::PreClean
        } else if outcome is Exists && opts.rebuild {
            Phase::RemoveExisting
        } else {
            Phase::Failed
        },
        Phase::RemoveExisting => if outcome is Success {
            Phase::PreClean
        } else {
            Phase::Failed
        },
        Phase::PreClean => if outcome is Success {
            if opts.disable_check_depends {
                Phase::FetchSources
            } else {
                Phase::CheckDeps
            }
        } else {
            Phase::Failed
        },
        Phase::CheckDeps => if outcome is Success {
            Phase::FetchSources
        } else {
            Phase::Failed
        },
        Phase::FetchSources => if outcome is Success {
            Phase::VerifySums
        } else {
            Phase::Failed
        },
        Phase::VerifySums => if outcome is Success {
            Phase::CreateStaging
        } else {
            Phase::Failed
        },
        Phase::CreateStaging => if outcome is Success {
            Phase::ExtractSources
        } else {
            Phase::FinalCleanup { failed: true }
        },
        Phase::ExtractSources => if outcome is Success {
            Phase::RunStage { stage: Stage::Prepare }
        } else {
            Phase::FinalCleanup { failed: true }
        },
        Phase::RunStage { stage } => if outcome is Success {
            match stage {
                Stage::Prepare => Phase::RunStage { stage: Stage::Build },
                Stage::Build => Phase::RunStage { stage: Stage::Test },
                Stage::Test => Phase::RunStage { stage: Stage::Package },
                Stage::Package => Phase::CreateArchive,
            }
        } else {
            Phase::FinalCleanup { failed: true }
        },
        Phase::CreateArchive => if outcome is Success {
            if opts.disable_sign {
                Phase::WriteMetadata
            } else {
                Phase::SignArchive
            }
        } else {
            Phase::FinalCleanup { failed: true }
        },
        Phase::SignArchive => if outcome is Success {
            Phase::WriteMetadata
        } else {
            Phase::FinalCleanup { failed: true }
        },
        Phase::WriteMetadata => if outcome is Success {
            Phase::FinalCleanup { failed: false }
        } else {
            Phase::FinalCleanup { failed: true }
        },
        Phase::FinalCleanup { failed } => if failed || outcome is Failure {
            Phase::Failed
        } else {
            Phase::Done
        },
        Phase::Done => Phase::Done,
        Phase::Failed => Phase::Failed,
    }
}

/// The phase a build starts in.
pub fn initial_phase() -> (r: Phase)
    ensures
        r == Phase::ReadMirrors,
{
    Phase::ReadMirrors
}

/// Advances the pipeline: the driver performed the work of `phase` with
/// the given `outcome`; the result is the phase to perform next.
pub fn next_phase(phase: Phase, opts: BuildOptions, outcome: Outcome) -> (r: Phase)
    ensures
        r == next_phase_spec(phase, opts, outcome),
{
    match phase {
        Phase::ReadMirrors => if matches!(outcome, Outcome::Success) {
            Phase::ReadRecipe
        } else {
            Phase::Failed
        },
        Phase::ReadRecipe => if matches!(outcome, Outcome::Success) {
            Phase::CheckExisting
        } else {
            Phase::Failed
        },
        Phase::CheckExisting => if matches!(outcome, Outcome::Absent) {
            Phase::PreClean
        } else if matches!(outcome, Outcome::Exists) && opts.rebuild {
            Phase::RemoveExisting
        } else {
            Phase::Failed
        },
        Phase::RemoveExisting => if matches!(outcome, Outcome::Success) {
            Phase::PreClean
        } else {
            Phase::Failed
        },
        Phase::PreClean => if matches!(outcome, Outcome::Success) {
            if opts.disable_check_depends {
                Phase::FetchSources
            } else {
                Phase::CheckDeps
            }
        } else {
            Phase::Failed
        },
        Phase::CheckDeps => if matches!(outcome, Outcome::Success) {
            Phase::FetchSources
        } else {
            Phase::Failed
        },
        Phase::FetchSources => if matches!(outcome, Outcome::Success) {
            Phase::VerifySums
        } else {
            Phase::Failed
        },
        Phase::VerifySums => if matches!(outcome, Outcome::Success) {
            Phase::CreateStaging
        } else {
            Phase::Failed
        },
        Phase::CreateStaging => if matches!(outcome, Outcome::Success) {
            Phase::ExtractSources
        } else {
            Phase::FinalCleanup { failed: true }
        },
        Phase::ExtractSources => if matches!(outcome, Outcome::Success) {
            Phase::RunStage { stage: Stage::Prepare }
        } else {
            Phase::FinalCleanup { failed: true }
        },
        Phase::RunStage { stage } => if matches!(outcome, Outcome::Success) {
            match stage {
                Stage::Prepare => Phase::RunStage { stage: Stage::Build },
                Stage::Build => Phase::RunStage { stage: Stage::Test },
                Stage::Test => Phase::RunStage { stage: Stage::Package },
                Stage::Package => Phase::CreateArchive,
            }
        } else {
            Phase::FinalCleanup { failed: true }
        },
        Phase::CreateArchive => if matches!(outcome, Outcome::Success) {
            if opts.disable_sign {
                Phase::WriteMetadata
            } else {
                Phase::SignArchive
            }
        } else {
            Phase::FinalCleanup { failed: true }
        },
        Phase::SignArchive => if matches!(outcome, Outcome::Success) {
            Phase::WriteMetadata
        } else {
            Phase::FinalCleanup { failed: true }
        },
        Phase::WriteMetadata => if matches!(outcome, Outcome::Success) {
            Phase::FinalCleanup { failed: false }
        } else {
            Phase::FinalCleanup { failed: true }
        },
        Phase::FinalCleanup { failed } => if failed || matches!(outcome, Outcome::Failure) {
            Phase::Failed
        } else {
            Phase::Done
        },
        Phase::Done => Phase::Done,
        Phase::Failed => Phase::Failed,
    }
}

/// The phases a run visits: the current phase, then every phase reached
/// by feeding the outcomes in order, stopping at a terminal phase.
pub open spec fn run_phases(phase: Phase, opts: BuildOptions, outcomes: Seq<Outcome>) -> Seq<Phase>
    decreases outcomes.len(),
{
    if is_terminal(phase) || outcomes.len() == 0 {
        seq![phase]
    } else {
        seq![phase] + run_phases(
            next_phase_spec(phase, opts, outcomes[0]),
            opts,
            outcomes.drop_first(),
        )
    }
}

/// The stages have a single entry point each, in their fixed order: a
/// stage phase is only ever reached by the success of the one before
/// it, and the archive is only created after `package` succeeded.
pub proof fn lemma_stage_order_entry(phase: Phase, opts: BuildOptions, outcome: Outcome)
    ensures
        next_phase_spec(phase, opts, outcome) == (Phase::RunStage { stage: Stage::Build })
            ==> phase == (Phase::RunStage { stage: Stage::Prepare }) && outcome is Success,
        next_phase_spec(phase, opts, outcome) == (Phase::RunStage { stage: Stage::Test }) ==> phase
            == (Phase::RunStage { stage: Stage::Build }) && outcome is Success,
        next_phase_spec(phase, opts, outcome) == (Phase::RunStage { stage: Stage::Package })
            ==> phase == (Phase::RunStage { stage: Stage::Test }) && outcome is Success,
        next_phase_spec(phase, opts, outcome) == Phase::CreateArchive ==> phase == (
        Phase::RunStage { stage: Stage::Package }) && outcome is Success,
        next_phase_spec(phase, opts, outcome) == (Phase::RunStage { stage: Stage::Prepare })
            ==> phase == Phase::ExtractSources && outcome is Success,
{
}

/// From a cleanup after failure, the pipeline only finishes failing:
/// every later phase is that cleanup or `Failed`.
pub proof fn lemma_failed_cleanup_runs_out(opts: BuildOptions, outcomes: Seq<Outcome>)
    ensures
        forall|k: int|
            0 <= k < run_phases(Phase::FinalCleanup { failed: true }, opts, outcomes).len()
                ==> #[trigger] run_phases(Phase::FinalCleanup { failed: true }, opts, outcomes)[k]
                == (Phase::FinalCleanup { failed: true }) || run_phases(
                Phase::FinalCleanup { failed: true },
                opts,
                outcomes,
            )[k] == Phase::Failed,
    decreases outcomes.len(),
{
    let start = Phase::FinalCleanup { failed: true };
    if outcomes.len() == 0 {
    } else {
        assert(next_phase_spec(start, opts, outcomes[0]) == Phase::Failed);
        let tail = run_phases(Phase::Failed, opts, outcomes.drop_first());
        lemma_failed_run_stays_failed(opts, outcomes.drop_first());
        assert(forall|k: int|
            0 <= k < run_phases(start, opts, outcomes).len() ==> #[trigger] run_phases(
                start,
                opts,
                outcomes,
            )[k] == if k == 0 {
                start
            } else {
                tail[k - 1]
            });
    }
}

/// A failed pipeline stays failed.
pub proof fn lemma_failed_run_stays_failed(opts: BuildOptions, outcomes: Seq<Outcome>)
    ensures
        forall|k: int|
            0 <= k < run_phases(Phase::Failed, opts, outcomes).len() ==> #[trigger] run_phases(
                Phase::Failed,
                opts,
                outcomes,
            )[k] == Phase::Failed,
    decreases outcomes.len(),
{
}

/// Stage ordering under failure: when the `prepare` stage fails, none of
/// `build`, `test` or `package` is ever invoked afterwards, and the very
/// next phase removes the staging directories.
pub proof fn lemma_failed_prepare_skips_stages(opts: BuildOptions, outcomes: Seq<Outcome>)
    requires
        outcomes.len() > 0,
        outcomes[0] == Outcome::Failure,
    ensures
        run_phases(Phase::RunStage { stage: Stage::Prepare }, opts, outcomes)[1] == (
        Phase::FinalCleanup { failed: true }),
        forall|k: int|
            1 <= k < run_phases(Phase::RunStage { stage: Stage::Prepare }, opts, outcomes).len()
                ==> !((#[trigger] run_phases(
                Phase::RunStage { stage: Stage::Prepare },
                opts,
                outcomes,
            )[k]) is RunStage),
{
    let start = Phase::RunStage { stage: Stage::Prepare };
    let cleanup = Phase::FinalCleanup { failed: true };
    assert(next_phase_spec(start, opts, outcomes[0]) == cleanup);
    let tail = run_phases(cleanup, opts, outcomes.drop_first());
    lemma_failed_cleanup_runs_out(opts, outcomes.drop_first());
    assert(forall|k: int|
        0 <= k < run_phases(start, opts, outcomes).len() ==> #[trigger] run_phases(
            start,
            opts,
            outcomes,
        )[k] == if k == 0 {
            start
        } else {
            tail[k - 1]
        });
}

/// A checksum failure stops the build before any staging directory is
/// created: every later phase is `Failed`, so no staging phase is ever
/// reached.
pub proof fn lemma_failed_checksums_never_stage(opts: BuildOptions, outcomes: Seq<Outcome>)
    requires
        outcomes.len() > 0,
        outcomes[0] == Outcome::Failure,
    ensures
        forall|k: int|
            1 <= k < run_phases(Phase::VerifySums, opts, outcomes).len() ==> #[trigger] run_phases(
                Phase::VerifySums,
                opts,
                outcomes,
            )[k] == Phase::Failed,
        forall|k: int|
            0 <= k < run_phases(Phase::VerifySums, opts, outcomes).len() ==> !staging_live(
                #[trigger] run_phases(Phase::VerifySums, opts, outcomes)[k],
            ),
{
    let start = Phase::VerifySums;
    assert(next_phase_spec(start, opts, outcomes[0]) == Phase::Failed);
    let tail = run_phases(Phase::Failed, opts, outcomes.drop_first());
    lemma_failed_run_stays_failed(opts, outcomes.drop_first());
    assert(forall|k: int|
        0 <= k < run_phases(start, opts, outcomes).len() ==> #[trigger] run_phases(
            start,
            opts,
            outcomes,
        )[k] == if k == 0 {
            start
        } else {
            tail[k - 1]
        });
}

} // verus!
