//! Running the recovery of an interrupted swap, step by step: the caller
//! performs each action, reports how it went, and gets the next action back.
//! The journal is removed only once recovery has succeeded.
use vstd::prelude::*;
use crate::error::AppError;
use crate::filesystem::moves_paths;
use crate::journal::{
    recover_journal_core, recovery_rolls_back, spec_recovery_steps, Journal, RecoveryOutcome,
    RecoveryPlan,
};

verus! {

/// Where a recovery stands: the action whose outcome is awaited.
#[derive(Clone, Copy, Debug, PartialEq, Eq, Structural)]
pub enum RecoveryStage {
    /// Finishing the step with this index of the plan.
    Finishing(usize),
    Marking,
    Restoring,
    Clearing,
    Announcing,
    Done,
}

/// What the caller must do next for a recovery.
#[derive(Debug, PartialEq, Eq)]
pub enum RecoveryAction {
    /// Finish the step with this index of the plan: decide it with
    /// `move_completed_or_finish` and make the move when it is still to make.
    FinishStep(usize),
    /// Mark the plan's desktop as the owner of the Desktop items.
    MarkActive,
    /// Refresh the Desktop and restore the layout of the plan's desktop.
    RestoreLayout,
    /// Remove the journal.
    ClearJournal,
    /// Refresh the Desktop and log that the swap was recovered.
    Announce,
    /// The recovery is over, with this result.
    Finish(Result<(), AppError>),
}

/// A recovery in progress: its plan and where it stands.
pub struct RecoveryRun {
    pub plan: RecoveryPlan,
    pub stage: RecoveryStage,
}

/// The first stage and action of a recovery with `n` steps.
pub open spec fn recovery_first(n: nat) -> (RecoveryStage, RecoveryAction) {
    if n > 0 {
        (RecoveryStage::Finishing(0), RecoveryAction::FinishStep(0))
    } else {
        (RecoveryStage::Marking, RecoveryAction::MarkActive)
    }
}

/// The next stage and action of a recovery with `n` steps, given how the
/// awaited action went: it stops at the first failure; after the steps it
/// marks the desktop active, restores the layout when the swap was finished
/// (`to_target`), removes the journal, and announces the recovery. Removing
/// the journal and announcing go on whatever their outcome.
pub open spec fn recovery_next(
    stage: RecoveryStage,
    n: nat,
    to_target: bool,
    outcome: Result<(), AppError>,
) -> (RecoveryStage, RecoveryAction) {
    match stage {
        RecoveryStage::Finishing(i) => match outcome {
            Ok(_) => if i + 1 < n {
                (
                    RecoveryStage::Finishing((i + 1) as usize),
                    RecoveryAction::FinishStep((i + 1) as usize),
                )
            } else {
                (RecoveryStage::Marking, RecoveryAction::MarkActive)
            },
            Err(e) => (RecoveryStage::Done, RecoveryAction::Finish(Err(e))),
        },
        RecoveryStage::Marking => match outcome {
            Ok(_) => if to_target {
                (RecoveryStage::Restoring, RecoveryAction::RestoreLayout)
            } else {
                (RecoveryStage::Clearing, RecoveryAction::ClearJournal)
            },
            Err(e) => (RecoveryStage::Done, RecoveryAction::Finish(Err(e))),
        },
        RecoveryStage::Restoring => match outcome {
            Ok(_) => (RecoveryStage::Clearing, RecoveryAction::ClearJournal),
            Err(e) => (RecoveryStage::Done, RecoveryAction::Finish(Err(e))),
        },
        RecoveryStage::Clearing => (RecoveryStage::Announcing, RecoveryAction::Announce),
        RecoveryStage::Announcing => (RecoveryStage::Done, RecoveryAction::Finish(Ok(()))),
        RecoveryStage::Done => (RecoveryStage::Done, RecoveryAction::Finish(Ok(()))),
    }
}

/// How far a stage is from the end; every step lowers it.
pub open spec fn recovery_rank(stage: RecoveryStage, n: nat) -> int {
    match stage {
        RecoveryStage::Finishing(i) => n - i + 4,
        RecoveryStage::Marking => 4,
        RecoveryStage::Restoring => 3,
        RecoveryStage::Clearing => 2,
        RecoveryStage::Announcing => 1,
        RecoveryStage::Done => 0,
    }
}

impl RecoveryRun {
    /// Whether the stage names a step of the plan.
    pub open spec fn wf(&self) -> bool {
        match self.stage {
            RecoveryStage::Finishing(i) => i < self.plan.steps@.len(),
            _ => true,
        }
    }

    /// Whether recovery ends on the target desktop.
    pub open spec fn to_target(&self) -> bool {
        self.plan.outcome == RecoveryOutcome::CompletedToTarget
    }

    /// Starts recovering from `journal`: its plan (see `recover_journal_core`)
    /// and the first action.
    pub fn start(journal: Journal) -> (r: (RecoveryRun, RecoveryAction))
        ensures
            r.0.wf(),
            moves_paths(r.0.plan.steps@) == spec_recovery_steps(journal@),
            r.0.plan.active_guid matches Some(g) && g@ == (if recovery_rolls_back(journal.stage) {
                journal.from_guid@
            } else {
                journal.to_guid@
            }),
            r.0.plan.outcome == (if recovery_rolls_back(journal.stage) {
                RecoveryOutcome::RolledBackToFrom
            } else {
                RecoveryOutcome::CompletedToTarget
            }),
            (r.0.stage, r.1) == recovery_first(r.0.plan.steps@.len()),
    {
        let ghost j = journal@;
        let ghost stage = journal.stage;
        let ghost from = journal.from_guid@;
        let ghost to = journal.to_guid@;
        let opt = Some(journal);
        let plan = recover_journal_core(&opt);
        if plan.steps.len() > 0 {
            (
                RecoveryRun { plan, stage: RecoveryStage::Finishing(0) },
                RecoveryAction::FinishStep(0),
            )
        } else {
            (RecoveryRun { plan, stage: RecoveryStage::Marking }, RecoveryAction::MarkActive)
        }
    }

    /// The next step of the recovery, given how the awaited action went.
    pub fn advance(self, outcome: Result<(), AppError>) -> (r: (RecoveryRun, RecoveryAction))
        requires
            self.wf(),
            !(self.stage is Done),
        ensures
            r.0.wf(),
            r.0.plan == self.plan,
            (r.0.stage, r.1) == recovery_next(
                self.stage,
                self.plan.steps@.len(),
                self.to_target(),
                outcome,
            ),
            recovery_rank(r.0.stage, self.plan.steps@.len()) < recovery_rank(
                self.stage,
                self.plan.steps@.len(),
            ),
    {
        let RecoveryRun { plan, stage } = self;
        let to_target = plan.outcome == RecoveryOutcome::CompletedToTarget;
        let n = plan.steps.len();
        let (next, action) = match stage {
            RecoveryStage::Finishing(i) => match outcome {
                Ok(_) => if i + 1 < n {
                    (RecoveryStage::Finishing(i + 1), RecoveryAction::FinishStep(i + 1))
                } else {
                    (RecoveryStage::Marking, RecoveryAction::MarkActive)
                },
                Err(e) => (RecoveryStage::Done, RecoveryAction::Finish(Err(e))),
            },
            RecoveryStage::Marking => match outcome {
                Ok(_) => if to_target {
                    (RecoveryStage::Restoring, RecoveryAction::RestoreLayout)
                } else {
                    (RecoveryStage::Clearing, RecoveryAction::ClearJournal)
                },
                Err(e) => (RecoveryStage::Done, RecoveryAction::Finish(Err(e))),
            },
            RecoveryStage::Restoring => match outcome {
                Ok(_) => (RecoveryStage::Clearing, RecoveryAction::ClearJournal),
                Err(e) => (RecoveryStage::Done, RecoveryAction::Finish(Err(e))),
            },
            RecoveryStage::Clearing => (RecoveryStage::Announcing, RecoveryAction::Announce),
            RecoveryStage::Announcing => (RecoveryStage::Done, RecoveryAction::Finish(Ok(()))),
            RecoveryStage::Done => (RecoveryStage::Done, RecoveryAction::Finish(Ok(()))),
        };
        (RecoveryRun { plan, stage: next }, action)
    }
}

/// What has succeeded when a recovery with `n` steps is at `stage`: the
/// number of steps finished, and whether the desktop was marked active.
pub open spec fn recovery_progress(stage: RecoveryStage, n: nat, steps_done: nat, marked: bool) -> bool {
    match stage {
        RecoveryStage::Finishing(i) => steps_done == i && i < n && !marked,
        RecoveryStage::Marking => steps_done == n && !marked,
        RecoveryStage::Restoring | RecoveryStage::Clearing | RecoveryStage::Announcing => steps_done
            == n && marked,
        RecoveryStage::Done => true,
    }
}

/// The journal is kept until recovery has succeeded: a recovery starts with
/// nothing done, each step keeps the count of what succeeded, and the journal
/// is removed only once every step has been finished and the desktop marked
/// active (and, for a finished swap, its layout restored). Any failure before
/// that ends the recovery with the journal still there.
pub proof fn lemma_journal_cleared_only_after_recovery(
    stage: RecoveryStage,
    n: nat,
    to_target: bool,
    steps_done: nat,
    marked: bool,
    outcome: Result<(), AppError>,
)
    requires
        recovery_progress(stage, n, steps_done, marked),
        !(stage is Done),
        n <= usize::MAX,
    ensures
        recovery_progress(recovery_first(n).0, n, 0, false),
        ({
            let (next, action) = recovery_next(stage, n, to_target, outcome);
            let done2 = if stage is Finishing && outcome is Ok {
                steps_done + 1
            } else {
                steps_done
            };
            let marked2 = marked || (stage is Marking && outcome is Ok);
            &&& recovery_progress(next, n, done2, marked2)
            &&& action is ClearJournal ==> done2 == n && marked2 && (to_target ==> stage is Restoring
                && outcome is Ok)
            &&& outcome is Err && !(stage is Clearing) && !(stage is Announcing) ==> action
                is Finish && !(action is ClearJournal)
        }),
{
}

} // verus!
