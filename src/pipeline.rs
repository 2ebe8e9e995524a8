//! The order of the steps that turn a crashed process into a report, and the
//! rule that the first failing step ends the run.

use vstd::prelude::*;

verus! {

/// A step of the run, or its end.
#[derive(Debug, Clone, Copy, PartialEq, Eq, Structural)]
pub enum Stage {
    LocateExecutable,
    LoadConfiguration,
    ReadChannel,
    LocateReportsDir,
    ReadInstallTime,
    WriteMinidump,
    WriteExtra,
    WriteEvent,
    Done,
    Failed,
}

/// The step that follows `stage` once it succeeded or failed.
pub open spec fn next_spec(stage: Stage, succeeded: bool) -> Stage {
    match stage {
        Stage::Done => Stage::Done,
        Stage::Failed => Stage::Failed,
        _ => if !succeeded {
            Stage::Failed
        } else {
            match stage {
                Stage::LocateExecutable => Stage::LoadConfiguration,
                Stage::LoadConfiguration => Stage::ReadChannel,
                Stage::ReadChannel => Stage::LocateReportsDir,
                Stage::LocateReportsDir => Stage::ReadInstallTime,
                Stage::ReadInstallTime => Stage::WriteMinidump,
                Stage::WriteMinidump => Stage::WriteExtra,
                Stage::WriteExtra => Stage::WriteEvent,
                _ => Stage::Done,
            }
        },
    }
}

/// The step creates a file of the report.
pub open spec fn writes_output(stage: Stage) -> bool {
    stage == Stage::WriteMinidump || stage == Stage::WriteExtra || stage == Stage::WriteEvent
}

/// The step reached after the outcomes `outcomes[0..k]`, from the first one.
pub open spec fn stage_after(outcomes: Seq<bool>, k: nat) -> Stage
    decreases k,
{
    if k == 0 {
        Stage::LocateExecutable
    } else {
        next_spec(stage_after(outcomes, (k - 1) as nat), outcomes[k - 1])
    }
}

impl Stage {
    /// The first step of a run.
    pub fn start() -> (r: Stage)
        ensures
            r == Stage::LocateExecutable,
    {
        Stage::LocateExecutable
    }

    /// The step that follows this one once it succeeded or failed: the next
    /// in order on success, `Failed` on failure; `Done` and `Failed` stay.
    pub fn next(self, succeeded: bool) -> (r: Stage)
        ensures
            r == next_spec(self, succeeded),
    {
        match self {
            Stage::Done => Stage::Done,
            Stage::Failed => Stage::Failed,
            _ => if !succeeded {
                Stage::Failed
            } else {
                match self {
                    Stage::LocateExecutable => Stage::LoadConfiguration,
                    Stage::LoadConfiguration => Stage::ReadChannel,
                    Stage::ReadChannel => Stage::LocateReportsDir,
                    Stage::LocateReportsDir => Stage::ReadInstallTime,
                    Stage::ReadInstallTime => Stage::WriteMinidump,
                    Stage::WriteMinidump => Stage::WriteExtra,
                    Stage::WriteExtra => Stage::WriteEvent,
                    _ => Stage::Done,
                }
            },
        }
    }

    /// The run has ended.
    pub fn is_finished(self) -> (r: bool)
        ensures
            r == (self == Stage::Done || self == Stage::Failed),
    {
        match self {
            Stage::Done | Stage::Failed => true,
            _ => false,
        }
    }
}

/// No file of a report is created unless the install-time marker was read:
/// every step that writes comes after a successful `ReadInstallTime`.
pub proof fn lemma_no_output_without_install_time(outcomes: Seq<bool>, k: nat)
    requires
        k <= outcomes.len(),
        writes_output(stage_after(outcomes, k)),
    ensures
        exists|j: nat|
            j < k && #[trigger] stage_after(outcomes, j) == Stage::ReadInstallTime && outcomes[j as int],
    decreases k,
{
    let prev = stage_after(outcomes, (k - 1) as nat);
    if prev == Stage::ReadInstallTime {
        assert(stage_after(outcomes, (k - 1) as nat) == Stage::ReadInstallTime && outcomes[k - 1]);
    } else {
        lemma_no_output_without_install_time(outcomes, (k - 1) as nat);
        let j = choose|j: nat|
            j < k - 1 && #[trigger] stage_after(outcomes, j) == Stage::ReadInstallTime && outcomes[j as int];
        assert(j < k && stage_after(outcomes, j) == Stage::ReadInstallTime && outcomes[j as int]);
    }
}

/// Once the install-time marker could not be read the run has failed, and no
/// later step writes a file.
pub proof fn lemma_failed_install_time_writes_nothing(outcomes: Seq<bool>, i: nat, k: nat)
    requires
        i < k <= outcomes.len(),
        stage_after(outcomes, i) == Stage::ReadInstallTime,
        !outcomes[i as int],
    ensures
        stage_after(outcomes, k) == Stage::Failed,
        !writes_output(stage_after(outcomes, k)),
    decreases k,
{
    if k > i + 1 {
        lemma_failed_install_time_writes_nothing(outcomes, i, (k - 1) as nat);
    }
}

} // verus!
