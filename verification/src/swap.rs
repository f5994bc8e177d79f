//! Running a swap of the Desktop contents between two virtual desktops.
//!
//! A swap alternates work on the disk with decisions. The decisions live
//! here as state machines: the caller performs each action, reports how it
//! went, and gets the next action back. `MoveBatch` makes one set of moves
//! and knows what to put back when a move fails; `SwapRun` orders the steps
//! of a whole swap so that the journal on disk always describes the moves in
//! progress.
use vstd::prelude::*;
use crate::agent::swapped_moves;
use crate::error::AppError;
use crate::filesystem::{
    finish_move_set, fs_run, lemma_rollback_undoes_finish, moves_paths, paths_distinct,
    rollback_steps, MovePaths, PlannedMove,
};
use crate::journal::{Journal, JournalStage};

verus! {

// ---------------------------------------------------------------------------
// One batch of moves
// ---------------------------------------------------------------------------

/// A batch of moves being made in order, and how many are made so far.
pub struct MoveBatch {
    moves: Vec<PlannedMove>,
    made: usize,
}

impl MoveBatch {
    /// The moves of the batch.
    pub closed spec fn spec_moves(&self) -> Seq<PlannedMove> {
        self.moves@
    }

    /// How many moves are made.
    pub closed spec fn spec_made(&self) -> nat {
        self.made as nat
    }

    /// The count of made moves never passes the number of moves.
    #[verifier::type_invariant]
    closed spec fn made_in_range(&self) -> bool {
        self.made <= self.moves@.len()
    }

    /// A batch with no move made yet.
    pub fn new(moves: Vec<PlannedMove>) -> (b: MoveBatch)
        ensures
            b.spec_moves() == moves@,
            b.spec_made() == 0,
    {
        MoveBatch { moves, made: 0 }
    }

    /// The next move to make, or `None` once every move is made.
    pub fn next_move(&self) -> (m: Option<PlannedMove>)
        ensures
            self.spec_made() <= self.spec_moves().len(),
            match m {
                Some(m) => self.spec_made() < self.spec_moves().len() && m.paths()
                    == self.spec_moves()[self.spec_made() as int].paths(),
                None => self.spec_made() == self.spec_moves().len(),
            },
    {
        proof {
            use_type_invariant(self);
        }
        if self.made < self.moves.len() {
            Some(self.moves[self.made].copy())
        } else {
            None
        }
    }

    /// Records that the next move was made.
    pub fn record_made(&mut self)
        requires
            old(self).spec_made() < old(self).spec_moves().len(),
        ensures
            final(self).spec_moves() == old(self).spec_moves(),
            final(self).spec_made() == old(self).spec_made() + 1,
    {
        proof {
            use_type_invariant(&*self);
        }
        let n = self.moves.len();
        assert(self.made < n);
        self.made = self.made + 1;
    }

    /// The moves that put back what was made after a later move failed: the
    /// made moves reversed, last made first.
    pub fn undo_moves(&self) -> (r: Vec<PlannedMove>)
        ensures
            moves_paths(r@) == rollback_steps(
                moves_paths(self.spec_moves().take(self.spec_made() as int)),
            ),
    {
        proof {
            use_type_invariant(self);
        }
        let mut r: Vec<PlannedMove> = Vec::new();
        let mut i: usize = self.made;
        let ghost done = moves_paths(self.moves@.take(self.made as int));
        let ghost target = rollback_steps(done);
        while i > 0
            invariant
                i <= self.made <= self.moves@.len(),
                done == moves_paths(self.moves@.take(self.made as int)),
                target == rollback_steps(done),
                moves_paths(r@) == target.take(self.made - i),
            decreases i,
        {
            i = i - 1;
            let ghost before = r@;
            let m = self.moves[i].reversed();
            r.push(m);
            assert(done[i as int] == self.moves@[i as int].paths());
            assert(target[self.made - 1 - i] == m.paths());
            assert(moves_paths(r@) =~= moves_paths(before).push(m.paths()));
            assert(moves_paths(r@) =~= target.take(self.made - i));
        }
        assert(target.take(self.made as int) =~= target);
        r
    }
}

proof fn lemma_distinct_prefix(ms: Seq<MovePaths>, k: int)
    requires
        paths_distinct(ms),
        0 <= k <= ms.len(),
    ensures
        paths_distinct(ms.take(k)),
{
    let t = ms.take(k);
    assert forall|i: int| 0 <= i < t.len() implies #[trigger] t[i].0 != t[i].1 by {
        assert(t[i] == ms[i]);
    }
    assert forall|i: int, j: int|
        #![trigger t[i], t[j]]
        0 <= i < t.len() && 0 <= j < t.len() && i != j implies t[i].0 != t[j].0 && t[i].1 != t[j].1
        && t[i].0 != t[j].1 by {
        assert(t[i] == ms[i] && t[j] == ms[j]);
    }
}

/// A failed batch can be put back: when every source is there and no
/// destination is (what validating the batch checks), making the first `k`
/// moves and then the undo moves for them leaves the paths exactly as they
/// were. This holds when all the paths of the batch differ from each other.
pub proof fn lemma_batch_undo_restores(fs: Set<Seq<char>>, ms: Seq<MovePaths>, k: int)
    requires
        paths_distinct(ms),
        0 <= k <= ms.len(),
        forall|i: int| 0 <= i < ms.len() ==> fs.contains(#[trigger] ms[i].0) && !fs.contains(
            ms[i].1,
        ),
    ensures
        fs_run(fs, ms.take(k)) matches Some(made) && fs_run(made, rollback_steps(ms.take(k)))
            == Some(fs),
{
    lemma_distinct_prefix(ms, k);
    let t = ms.take(k);
    assert forall|i: int| 0 <= i < t.len() implies fs.contains(#[trigger] t[i].0) && !fs.contains(
        t[i].1,
    ) by {
        assert(t[i] == ms[i]);
    }
    lemma_rollback_undoes_finish(fs, t);
}

// ---------------------------------------------------------------------------
// A whole swap
// ---------------------------------------------------------------------------

/// The moves an action works on.
#[derive(Clone, Copy, Debug, PartialEq, Eq, Structural)]
pub enum MoveSet {
    /// The Desktop entries leaving for the source desktop's parked items.
    Outbound,
    /// The target desktop's parked items coming to the Desktop.
    Inbound,
    /// The outbound moves reversed, each in place: how a failed swap puts the
    /// Desktop back.
    Back,
}

/// The two desktops of a swap.
#[derive(Clone, Copy, Debug, PartialEq, Eq, Structural)]
pub enum SwapSide {
    /// The desktop that owned the Desktop items when the swap began.
    Source,
    /// The current desktop, which the swap gives the Desktop items.
    Target,
}

/// What the caller must do next for a swap.
#[derive(Debug, PartialEq, Eq)]
pub enum SwapAction {
    /// Save the icon layout of the source desktop.
    SaveSourceLayout,
    /// Check the moves against the disk (`validate_moves`).
    Validate(MoveSet),
    /// Write the journal at the given stage.
    WriteJournal(JournalStage),
    /// Make the moves as one batch (see `MoveBatch`); in a dry run, only
    /// check and print them.
    ApplyMoves(MoveSet),
    /// Mark a desktop as the owner of the Desktop items.
    MarkActive(SwapSide),
    /// Refresh the Desktop, wait for Explorer, and restore the target's layout.
    RestoreTargetLayout,
    /// Remove the journal.
    ClearJournal,
    /// Report that putting the Desktop back failed, with that error.
    ReportRollbackFailure(AppError),
    /// Log that the swap completed.
    LogComplete,
    /// The swap is over, with this result.
    Finish(Result<(), AppError>),
}

/// Where a swap stands: the action whose outcome is awaited. The states of
/// a failed swap carry the error it will end with.
#[derive(Clone, Debug, PartialEq, Eq)]
pub enum SwapState {
    SavingLayout,
    ValidatingOutbound,
    WritingPlanned,
    MovingOutbound,
    ValidatingInbound,
    WritingOutboundComplete,
    MovingInbound,
    WritingRollback(AppError),
    MovingBack(AppError),
    ReportingRollbackFailure(AppError),
    MarkingSource(AppError),
    ClearingAfterRollback(AppError),
    WritingInboundComplete,
    MarkingTarget,
    Restoring,
    Clearing,
    Logging,
    Finished,
}

/// A swap in progress: its journal, whether it is a dry run, and its state.
pub struct SwapRun {
    pub journal: Journal,
    pub dry_run: bool,
    pub state: SwapState,
}

/// The first state and action of a swap. A dry run does not save the layout.
pub open spec fn swap_first(dry_run: bool) -> (SwapState, SwapAction) {
    if dry_run {
        (SwapState::ValidatingOutbound, SwapAction::Validate(MoveSet::Outbound))
    } else {
        (SwapState::SavingLayout, SwapAction::SaveSourceLayout)
    }
}

/// The end of a swap with `result`.
pub open spec fn swap_end(result: Result<(), AppError>) -> (SwapState, SwapAction) {
    (SwapState::Finished, SwapAction::Finish(result))
}

/// What a failure while bringing the inbound moves calls for: a dry run
/// ends with the error; otherwise the journal is marked for rollback and the
/// Desktop put back, and the swap ends with that error.
pub open spec fn inbound_failed(dry_run: bool, e: AppError) -> (SwapState, SwapAction) {
    if dry_run {
        swap_end(Err(e))
    } else {
        (SwapState::WritingRollback(e), SwapAction::WriteJournal(JournalStage::Rollback))
    }
}

/// The next state and action of a swap, given how the awaited action went.
/// Writing the rollback journal and clearing the journal go on whatever
/// their outcome.
pub open spec fn swap_next(state: SwapState, dry_run: bool, outcome: Result<(), AppError>) -> (
    SwapState,
    SwapAction,
) {
    match state {
        SwapState::SavingLayout => match outcome {
            Ok(_) => (SwapState::ValidatingOutbound, SwapAction::Validate(MoveSet::Outbound)),
            Err(e) => swap_end(Err(e)),
        },
        SwapState::ValidatingOutbound => match outcome {
            Ok(_) => if dry_run {
                (SwapState::MovingOutbound, SwapAction::ApplyMoves(MoveSet::Outbound))
            } else {
                (SwapState::WritingPlanned, SwapAction::WriteJournal(JournalStage::Planned))
            },
            Err(e) => swap_end(Err(e)),
        },
        SwapState::WritingPlanned => match outcome {
            Ok(_) => (SwapState::MovingOutbound, SwapAction::ApplyMoves(MoveSet::Outbound)),
            Err(e) => swap_end(Err(e)),
        },
        SwapState::MovingOutbound => match outcome {
            Ok(_) => (SwapState::ValidatingInbound, SwapAction::Validate(MoveSet::Inbound)),
            Err(e) => swap_end(Err(e)),
        },
        SwapState::ValidatingInbound => match outcome {
            Ok(_) => if dry_run {
                (SwapState::MovingInbound, SwapAction::ApplyMoves(MoveSet::Inbound))
            } else {
                (
                    SwapState::WritingOutboundComplete,
                    SwapAction::WriteJournal(JournalStage::OutboundComplete),
                )
            },
            Err(e) => inbound_failed(dry_run, e),
        },
        SwapState::WritingOutboundComplete => match outcome {
            Ok(_) => (SwapState::MovingInbound, SwapAction::ApplyMoves(MoveSet::Inbound)),
            Err(e) => inbound_failed(dry_run, e),
        },
        SwapState::MovingInbound => match outcome {
            Ok(_) => if dry_run {
                swap_end(Ok(()))
            } else {
                (
                    SwapState::WritingInboundComplete,
                    SwapAction::WriteJournal(JournalStage::InboundComplete),
                )
            },
            Err(e) => inbound_failed(dry_run, e),
        },
        SwapState::WritingRollback(e) => (
            SwapState::MovingBack(e),
            SwapAction::ApplyMoves(MoveSet::Back),
        ),
        SwapState::MovingBack(e) => match outcome {
            Ok(_) => (SwapState::MarkingSource(e), SwapAction::MarkActive(SwapSide::Source)),
            Err(back) => (
                SwapState::ReportingRollbackFailure(e),
                SwapAction::ReportRollbackFailure(back),
            ),
        },
        SwapState::ReportingRollbackFailure(e) => swap_end(Err(e)),
        SwapState::MarkingSource(e) => match outcome {
            Ok(_) => (SwapState::ClearingAfterRollback(e), SwapAction::ClearJournal),
            Err(mark) => swap_end(Err(mark)),
        },
        SwapState::ClearingAfterRollback(e) => swap_end(Err(e)),
        SwapState::WritingInboundComplete => match outcome {
            Ok(_) => (SwapState::MarkingTarget, SwapAction::MarkActive(SwapSide::Target)),
            Err(e) => swap_end(Err(e)),
        },
        SwapState::MarkingTarget => match outcome {
            Ok(_) => (SwapState::Restoring, SwapAction::RestoreTargetLayout),
            Err(e) => swap_end(Err(e)),
        },
        SwapState::Restoring => match outcome {
            Ok(_) => (SwapState::Clearing, SwapAction::ClearJournal),
            Err(e) => swap_end(Err(e)),
        },
        SwapState::Clearing => (SwapState::Logging, SwapAction::LogComplete),
        SwapState::Logging => swap_end(Ok(())),
        SwapState::Finished => swap_end(Ok(())),
    }
}

/// How far a state is from the end; every step lowers it.
pub open spec fn swap_rank(state: SwapState) -> nat {
    match state {
        SwapState::SavingLayout => 17,
        SwapState::ValidatingOutbound => 16,
        SwapState::WritingPlanned => 15,
        SwapState::MovingOutbound => 14,
        SwapState::ValidatingInbound => 13,
        SwapState::WritingOutboundComplete => 12,
        SwapState::MovingInbound => 11,
        SwapState::WritingRollback(_) => 10,
        SwapState::MovingBack(_) => 9,
        SwapState::ReportingRollbackFailure(_) => 1,
        SwapState::MarkingSource(_) => 8,
        SwapState::ClearingAfterRollback(_) => 1,
        SwapState::WritingInboundComplete => 5,
        SwapState::MarkingTarget => 4,
        SwapState::Restoring => 3,
        SwapState::Clearing => 2,
        SwapState::Logging => 1,
        SwapState::Finished => 0,
    }
}

/// The journal stage that the awaited action writes, if it writes one.
pub open spec fn stage_written(state: SwapState) -> Option<JournalStage> {
    match state {
        SwapState::WritingPlanned => Some(JournalStage::Planned),
        SwapState::WritingOutboundComplete => Some(JournalStage::OutboundComplete),
        SwapState::WritingRollback(_) => Some(JournalStage::Rollback),
        SwapState::WritingInboundComplete => Some(JournalStage::InboundComplete),
        _ => None,
    }
}

/// The journal on disk (its stage, or `None` when there is none) once the
/// awaited action of `state` ended, successfully when `ok`.
pub open spec fn disk_after(disk: Option<JournalStage>, state: SwapState, ok: bool) -> Option<
    JournalStage,
> {
    if ok && stage_written(state) is Some {
        stage_written(state)
    } else if ok && (state is Clearing || state is ClearingAfterRollback) {
        None
    } else {
        disk
    }
}

/// What the journal on disk says while a swap is in `state`: none before
/// the planned journal is written; `planned` while the outbound moves are
/// made; `outbound-complete` while the inbound moves are made; a stage from
/// which recovery can finish or roll back while the Desktop is put back;
/// `inbound-complete` while the target is marked active and its layout
/// restored.
pub open spec fn journal_matches(state: SwapState, disk: Option<JournalStage>) -> bool {
    match state {
        SwapState::SavingLayout | SwapState::ValidatingOutbound | SwapState::WritingPlanned => disk
            is None,
        SwapState::MovingOutbound
        | SwapState::ValidatingInbound
        | SwapState::WritingOutboundComplete => disk == Some(JournalStage::Planned),
        SwapState::MovingInbound | SwapState::WritingInboundComplete => disk == Some(
            JournalStage::OutboundComplete,
        ),
        SwapState::WritingRollback(_) => disk == Some(JournalStage::Planned) || disk == Some(
            JournalStage::OutboundComplete,
        ),
        SwapState::MovingBack(_)
        | SwapState::ReportingRollbackFailure(_)
        | SwapState::MarkingSource(_)
        | SwapState::ClearingAfterRollback(_) => disk == Some(JournalStage::Planned) || disk
            == Some(JournalStage::OutboundComplete) || disk == Some(JournalStage::Rollback),
        SwapState::MarkingTarget | SwapState::Restoring | SwapState::Clearing => disk == Some(
            JournalStage::InboundComplete,
        ),
        SwapState::Logging | SwapState::Finished => true,
    }
}

/// While a swap runs, the journal on disk describes the moves in progress:
/// a swap starts with no journal, no outbound move is made before the
/// planned journal is written, no inbound move before the outbound-complete
/// journal, and the target desktop is marked active only once the
/// inbound-complete journal is written. Every step keeps this, whatever the
/// outcome of the action it follows.
pub proof fn lemma_swap_journal_discipline(
    state: SwapState,
    disk: Option<JournalStage>,
    outcome: Result<(), AppError>,
)
    requires
        journal_matches(state, disk),
        !(state is Finished),
    ensures
        journal_matches(swap_first(false).0, None),
        journal_matches(swap_next(state, false, outcome).0, disk_after(disk, state, outcome is Ok)),
{
}

/// The states a dry run can reach.
pub open spec fn dry_run_state(state: SwapState) -> bool {
    state is ValidatingOutbound || state is MovingOutbound || state is ValidatingInbound
        || state is MovingInbound || state is Finished
}

/// A dry run only checks and lists the moves: from its first state on, its
/// steps stay among the dry-run states, and each action is a check, a batch
/// of moves (which a dry run only prints) or the end. It never saves a
/// layout, writes or clears the journal, or marks a desktop active.
pub proof fn lemma_dry_run_only_checks(state: SwapState, outcome: Result<(), AppError>)
    requires
        dry_run_state(state),
    ensures
        dry_run_state(swap_first(true).0),
        swap_first(true).1 is Validate,
        dry_run_state(swap_next(state, true, outcome).0),
        swap_next(state, true, outcome).1 is Validate || swap_next(state, true, outcome).1 is ApplyMoves
            || swap_next(state, true, outcome).1 is Finish,
{
}

/// A failure before any Desktop item has moved ends the swap at once with
/// that error: a failed layout save, check of the outbound moves, planned
/// journal or outbound batch (which puts itself back) is followed by nothing
/// but the end, dry run or not.
pub proof fn lemma_failure_before_moves_ends_swap(state: SwapState, dry_run: bool, e: AppError)
    requires
        state is SavingLayout || state is ValidatingOutbound || state is WritingPlanned
            || state is MovingOutbound,
    ensures
        swap_next(state, dry_run, Err(e)) == (SwapState::Finished, SwapAction::Finish(Err(e))),
{
}

/// A failed step never moves a swap forward: after any failure the swap does
/// not check moves, journal a forward stage, make outbound or inbound moves,
/// mark the target active or restore its layout. Once the outbound moves are
/// made, a failure of a swap that is not a dry run first journals the
/// rollback and then puts the Desktop back.
pub proof fn lemma_failure_never_advances(state: SwapState, dry_run: bool, e: AppError)
    requires
        !(state is Finished),
    ensures
        ({
            let a = swap_next(state, dry_run, Err(e)).1;
            &&& !(a is Validate)
            &&& !(a matches SwapAction::WriteJournal(stage) && stage != JournalStage::Rollback)
            &&& !(a matches SwapAction::ApplyMoves(set) && set != MoveSet::Back)
            &&& a != SwapAction::MarkActive(SwapSide::Target)
            &&& !(a is RestoreTargetLayout)
        }),
        !dry_run && (state is ValidatingInbound || state is WritingOutboundComplete
            || state is MovingInbound) ==> swap_next(state, dry_run, Err(e)) == (
            SwapState::WritingRollback(e),
            SwapAction::WriteJournal(JournalStage::Rollback),
        ),
        !dry_run && (state matches SwapState::WritingRollback(first)) ==> swap_next(
            state,
            dry_run,
            Err(e),
        ).1 == SwapAction::ApplyMoves(MoveSet::Back),
{
}

/// The ended swap, with its result.
fn end_swap(journal: Journal, dry_run: bool, result: Result<(), AppError>) -> (r: (
    SwapRun,
    SwapAction,
))
    ensures
        r.0.journal == journal,
        r.0.dry_run == dry_run,
        (r.0.state, r.1) == swap_end(result),
{
    (SwapRun { journal, dry_run, state: SwapState::Finished }, SwapAction::Finish(result))
}

/// A state reached without ending.
fn go(journal: Journal, dry_run: bool, state: SwapState, action: SwapAction) -> (r: (
    SwapRun,
    SwapAction,
))
    ensures
        r.0.journal == journal,
        r.0.dry_run == dry_run,
        r.0.state == state,
        r.1 == action,
{
    (SwapRun { journal, dry_run, state }, action)
}

/// After a failure while bringing the inbound moves.
fn after_inbound_failure(journal: Journal, dry_run: bool, e: AppError) -> (r: (SwapRun, SwapAction))
    ensures
        r.0.journal == journal,
        r.0.dry_run == dry_run,
        (r.0.state, r.1) == inbound_failed(dry_run, e),
{
    if dry_run {
        end_swap(journal, dry_run, Err(e))
    } else {
        go(
            journal,
            dry_run,
            SwapState::WritingRollback(e),
            SwapAction::WriteJournal(JournalStage::Rollback),
        )
    }
}

impl SwapRun {
    /// Starts the swap planned in `journal` (see `plan_swap`).
    pub fn start(journal: Journal, dry_run: bool) -> (r: (SwapRun, SwapAction))
        ensures
            r.0.journal == journal,
            r.0.dry_run == dry_run,
            (r.0.state, r.1) == swap_first(dry_run),
    {
        if dry_run {
            go(
                journal,
                dry_run,
                SwapState::ValidatingOutbound,
                SwapAction::Validate(MoveSet::Outbound),
            )
        } else {
            go(journal, dry_run, SwapState::SavingLayout, SwapAction::SaveSourceLayout)
        }
    }

    /// The next step of the swap, given how the awaited action went.
    pub fn advance(self, outcome: Result<(), AppError>) -> (r: (SwapRun, SwapAction))
        requires
            !(self.state is Finished),
        ensures
            r.0.journal == self.journal,
            r.0.dry_run == self.dry_run,
            (r.0.state, r.1) == swap_next(self.state, self.dry_run, outcome),
            swap_rank(r.0.state) < swap_rank(self.state),
    {
        let SwapRun { journal, dry_run, state } = self;
        match state {
            SwapState::SavingLayout => match outcome {
                Ok(_) => go(
                    journal,
                    dry_run,
                    SwapState::ValidatingOutbound,
                    SwapAction::Validate(MoveSet::Outbound),
                ),
                Err(e) => end_swap(journal, dry_run, Err(e)),
            },
            SwapState::ValidatingOutbound => match outcome {
                Ok(_) => if dry_run {
                    go(
                        journal,
                        dry_run,
                        SwapState::MovingOutbound,
                        SwapAction::ApplyMoves(MoveSet::Outbound),
                    )
                } else {
                    go(
                        journal,
                        dry_run,
                        SwapState::WritingPlanned,
                        SwapAction::WriteJournal(JournalStage::Planned),
                    )
                },
                Err(e) => end_swap(journal, dry_run, Err(e)),
            },
            SwapState::WritingPlanned => match outcome {
                Ok(_) => go(
                    journal,
                    dry_run,
                    SwapState::MovingOutbound,
                    SwapAction::ApplyMoves(MoveSet::Outbound),
                ),
                Err(e) => end_swap(journal, dry_run, Err(e)),
            },
            SwapState::MovingOutbound => match outcome {
                Ok(_) => go(
                    journal,
                    dry_run,
                    SwapState::ValidatingInbound,
                    SwapAction::Validate(MoveSet::Inbound),
                ),
                Err(e) => end_swap(journal, dry_run, Err(e)),
            },
            SwapState::ValidatingInbound => match outcome {
                Ok(_) => if dry_run {
                    go(
                        journal,
                        dry_run,
                        SwapState::MovingInbound,
                        SwapAction::ApplyMoves(MoveSet::Inbound),
                    )
                } else {
                    go(
                        journal,
                        dry_run,
                        SwapState::WritingOutboundComplete,
                        SwapAction::WriteJournal(JournalStage::OutboundComplete),
                    )
                },
                Err(e) => after_inbound_failure(journal, dry_run, e),
            },
            SwapState::WritingOutboundComplete => match outcome {
                Ok(_) => go(
                    journal,
                    dry_run,
                    SwapState::MovingInbound,
                    SwapAction::ApplyMoves(MoveSet::Inbound),
                ),
                Err(e) => after_inbound_failure(journal, dry_run, e),
            },
            SwapState::MovingInbound => match outcome {
                Ok(_) => if dry_run {
                    end_swap(journal, dry_run, Ok(()))
                } else {
                    go(
                        journal,
                        dry_run,
                        SwapState::WritingInboundComplete,
                        SwapAction::WriteJournal(JournalStage::InboundComplete),
                    )
                },
                Err(e) => after_inbound_failure(journal, dry_run, e),
            },
            SwapState::WritingRollback(e) => go(
                journal,
                dry_run,
                SwapState::MovingBack(e),
                SwapAction::ApplyMoves(MoveSet::Back),
            ),
            SwapState::MovingBack(e) => match outcome {
                Ok(_) => go(
                    journal,
                    dry_run,
                    SwapState::MarkingSource(e),
                    SwapAction::MarkActive(SwapSide::Source),
                ),
                Err(back) => go(
                    journal,
                    dry_run,
                    SwapState::ReportingRollbackFailure(e),
                    SwapAction::ReportRollbackFailure(back),
                ),
            },
            SwapState::ReportingRollbackFailure(e) => end_swap(journal, dry_run, Err(e)),
            SwapState::MarkingSource(e) => match outcome {
                Ok(_) => go(
                    journal,
                    dry_run,
                    SwapState::ClearingAfterRollback(e),
                    SwapAction::ClearJournal,
                ),
                Err(mark) => end_swap(journal, dry_run, Err(mark)),
            },
            SwapState::ClearingAfterRollback(e) => end_swap(journal, dry_run, Err(e)),
            SwapState::WritingInboundComplete => match outcome {
                Ok(_) => go(
                    journal,
                    dry_run,
                    SwapState::MarkingTarget,
                    SwapAction::MarkActive(SwapSide::Target),
                ),
                Err(e) => end_swap(journal, dry_run, Err(e)),
            },
            SwapState::MarkingTarget => match outcome {
                Ok(_) => go(
                    journal,
                    dry_run,
                    SwapState::Restoring,
                    SwapAction::RestoreTargetLayout,
                ),
                Err(e) => end_swap(journal, dry_run, Err(e)),
            },
            SwapState::Restoring => match outcome {
                Ok(_) => go(journal, dry_run, SwapState::Clearing, SwapAction::ClearJournal),
                Err(e) => end_swap(journal, dry_run, Err(e)),
            },
            SwapState::Clearing => go(
                journal,
                dry_run,
                SwapState::Logging,
                SwapAction::LogComplete,
            ),
            SwapState::Logging => end_swap(journal, dry_run, Ok(())),
            SwapState::Finished => end_swap(journal, dry_run, Ok(())),
        }
    }

    /// The moves an action works on: the outbound or inbound moves of the
    /// journal, or the outbound moves reversed in place.
    pub fn moves_for(&self, set: MoveSet) -> (r: Vec<PlannedMove>)
        ensures
            moves_paths(r@) == match set {
                MoveSet::Outbound => moves_paths(self.journal.outbound@),
                MoveSet::Inbound => moves_paths(self.journal.inbound@),
                MoveSet::Back => moves_paths(self.journal.outbound@).map_values(
                    |m: MovePaths| (m.1, m.0),
                ),
            },
    {
        match set {
            MoveSet::Outbound => finish_move_set(self.journal.outbound.as_slice()),
            MoveSet::Inbound => finish_move_set(self.journal.inbound.as_slice()),
            MoveSet::Back => swapped_moves(self.journal.outbound.as_slice()),
        }
    }
}

} // verus!
