use deskicons::{
    AppError, Journal, JournalStage, MoveBatch, MoveSet, PlannedMove, SwapAction, SwapRun,
    SwapSide, SwapState,
};

fn mv(from: &str, to: &str) -> PlannedMove {
    PlannedMove { from: from.to_string(), to: to.to_string() }
}

fn journal() -> Journal {
    Journal {
        stage: JournalStage::Planned,
        from_guid: "g1".to_string(),
        to_guid: "g2".to_string(),
        outbound: vec![mv("D\\a", "S\\g1\\files\\a"), mv("D\\b", "S\\g1\\files\\b")],
        inbound: vec![mv("S\\g2\\files\\c", "D\\c")],
    }
}

/// Runs a swap, answering each action with the outcome `answer` gives, and
/// returns the actions in order.
fn run(dry_run: bool, mut answer: impl FnMut(&SwapAction) -> Result<(), AppError>) -> Vec<SwapAction> {
    let (mut swap, mut action) = SwapRun::start(journal(), dry_run);
    let mut actions = Vec::new();
    loop {
        if let SwapAction::Finish(_) = action {
            actions.push(action);
            return actions;
        }
        let outcome = answer(&action);
        actions.push(action);
        let (next, next_action) = swap.advance(outcome);
        swap = next;
        action = next_action;
    }
}

fn fail(text: &str) -> AppError {
    AppError::Message(text.to_string())
}

#[test]
fn a_successful_swap_journals_each_phase() {
    let actions = run(false, |_| Ok(()));
    assert_eq!(
        actions,
        vec![
            SwapAction::SaveSourceLayout,
            SwapAction::Validate(MoveSet::Outbound),
            SwapAction::WriteJournal(JournalStage::Planned),
            SwapAction::ApplyMoves(MoveSet::Outbound),
            SwapAction::Validate(MoveSet::Inbound),
            SwapAction::WriteJournal(JournalStage::OutboundComplete),
            SwapAction::ApplyMoves(MoveSet::Inbound),
            SwapAction::WriteJournal(JournalStage::InboundComplete),
            SwapAction::MarkActive(SwapSide::Target),
            SwapAction::RestoreTargetLayout,
            SwapAction::ClearJournal,
            SwapAction::LogComplete,
            SwapAction::Finish(Ok(())),
        ]
    );
}

#[test]
fn a_dry_run_only_checks_and_lists_moves() {
    let actions = run(true, |_| Ok(()));
    assert_eq!(
        actions,
        vec![
            SwapAction::Validate(MoveSet::Outbound),
            SwapAction::ApplyMoves(MoveSet::Outbound),
            SwapAction::Validate(MoveSet::Inbound),
            SwapAction::ApplyMoves(MoveSet::Inbound),
            SwapAction::Finish(Ok(())),
        ]
    );
    let actions = run(true, |a| match a {
        SwapAction::ApplyMoves(MoveSet::Inbound) => Err(fail("boom")),
        _ => Ok(()),
    });
    assert_eq!(actions.last(), Some(&SwapAction::Finish(Err(fail("boom")))));
}

#[test]
fn an_inbound_failure_puts_the_desktop_back() {
    let actions = run(false, |a| match a {
        SwapAction::ApplyMoves(MoveSet::Inbound) => Err(fail("in")),
        SwapAction::WriteJournal(JournalStage::Rollback) => Err(fail("ignored")),
        _ => Ok(()),
    });
    assert_eq!(
        actions[6..],
        vec![
            SwapAction::ApplyMoves(MoveSet::Inbound),
            SwapAction::WriteJournal(JournalStage::Rollback),
            SwapAction::ApplyMoves(MoveSet::Back),
            SwapAction::MarkActive(SwapSide::Source),
            SwapAction::ClearJournal,
            SwapAction::Finish(Err(fail("in"))),
        ]
    );
}

#[test]
fn a_failed_rollback_is_reported_and_the_first_error_returned() {
    let actions = run(false, |a| match a {
        SwapAction::Validate(MoveSet::Inbound) => Err(fail("in")),
        SwapAction::ApplyMoves(MoveSet::Back) => Err(fail("back")),
        _ => Ok(()),
    });
    assert_eq!(
        actions[4..],
        vec![
            SwapAction::Validate(MoveSet::Inbound),
            SwapAction::WriteJournal(JournalStage::Rollback),
            SwapAction::ApplyMoves(MoveSet::Back),
            SwapAction::ReportRollbackFailure(fail("back")),
            SwapAction::Finish(Err(fail("in"))),
        ]
    );
}

#[test]
fn an_outbound_failure_ends_the_swap_with_it() {
    let actions = run(false, |a| match a {
        SwapAction::ApplyMoves(MoveSet::Outbound) => Err(fail("out")),
        _ => Ok(()),
    });
    assert_eq!(actions.len(), 5);
    assert_eq!(actions[4], SwapAction::Finish(Err(fail("out"))));
    let actions = run(false, |a| match a {
        SwapAction::MarkActive(SwapSide::Target) => Err(fail("mark")),
        _ => Ok(()),
    });
    assert_eq!(actions.last(), Some(&SwapAction::Finish(Err(fail("mark")))));
}

#[test]
fn the_moves_of_each_set() {
    let (swap, _) = SwapRun::start(journal(), false);
    assert_eq!(swap.state, SwapState::SavingLayout);
    assert_eq!(swap.moves_for(MoveSet::Outbound), journal().outbound);
    assert_eq!(swap.moves_for(MoveSet::Inbound), journal().inbound);
    assert_eq!(
        swap.moves_for(MoveSet::Back),
        vec![mv("S\\g1\\files\\a", "D\\a"), mv("S\\g1\\files\\b", "D\\b")]
    );
}

#[test]
fn a_batch_undoes_made_moves_last_first() {
    let mut batch = MoveBatch::new(vec![mv("a", "x"), mv("b", "y"), mv("c", "z")]);
    assert_eq!(batch.next_move(), Some(mv("a", "x")));
    batch.record_made();
    assert_eq!(batch.next_move(), Some(mv("b", "y")));
    batch.record_made();
    assert_eq!(batch.undo_moves(), vec![mv("y", "b"), mv("x", "a")]);
    batch.record_made();
    assert_eq!(batch.next_move(), None);
    assert!(MoveBatch::new(Vec::new()).undo_moves().is_empty());
}
