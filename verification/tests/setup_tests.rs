use deskicons::{
    AppError, InstallAction, InstallRun, InstallState, Journal, JournalStage, PlannedMove,
    RecoveryAction, RecoveryRun, RecoveryStage, COPY_ATTEMPTS, COPY_RETRY_MS,
};

fn io(text: &str) -> AppError {
    AppError::Io(text.to_string())
}

/// Runs an install to its end, answering each action with `answer`; the
/// actions in order.
fn run_install(
    is_update: bool,
    accepted: bool,
    start_with_windows: bool,
    answer: &mut dyn FnMut(&InstallAction) -> Result<(), AppError>,
) -> Vec<InstallAction> {
    let (mut run, mut action) = InstallRun::start(is_update, accepted, start_with_windows);
    let mut actions = Vec::new();
    loop {
        let finished = matches!(action, InstallAction::Finish(_));
        let outcome = answer(&action);
        actions.push(action);
        if finished {
            return actions;
        }
        let (next_run, next_action) = run.advance(outcome);
        run = next_run;
        action = next_action;
    }
}

#[test]
fn cancelled_install_exits_without_disk_work() {
    let actions = run_install(false, false, true, &mut |_| Ok(()));
    assert_eq!(actions, vec![InstallAction::Finish(Ok(()))]);
    let (run, action) = InstallRun::start(true, false, false);
    assert_eq!(run.state, InstallState::Finished);
    assert_eq!(action, InstallAction::Finish(Ok(())));
}

#[test]
fn first_install_runs_every_step_in_order() {
    let actions = run_install(false, true, true, &mut |_| Ok(()));
    assert_eq!(
        actions,
        vec![
            InstallAction::CreateInstallDir,
            InstallAction::ParkOldExe,
            InstallAction::LocateExe,
            InstallAction::CopyExe,
            InstallAction::DropZoneIdentifier,
            InstallAction::RemoveOldExe,
            InstallAction::EnableStartup,
            InstallAction::RegisterUninstall,
            InstallAction::CreateShortcut,
            InstallAction::WriteInstallNotice,
            InstallAction::StartInstalledCopy,
            InstallAction::Finish(Ok(())),
        ]
    );
}

#[test]
fn update_stops_running_copy_and_skips_startup() {
    let actions = run_install(true, true, true, &mut |_| Ok(()));
    assert_eq!(actions[0], InstallAction::StopInstalledCopy);
    assert_eq!(actions[1], InstallAction::CreateInstallDir);
    assert!(!actions.contains(&InstallAction::EnableStartup));
    assert!(actions.contains(&InstallAction::StartInstalledCopy));
}

#[test]
fn startup_only_when_chosen_and_failure_only_warns() {
    let without = run_install(false, true, false, &mut |_| Ok(()));
    assert!(!without.contains(&InstallAction::EnableStartup));
    let warned = run_install(false, true, true, &mut |a| match a {
        InstallAction::EnableStartup => Err(io("access denied")),
        _ => Ok(()),
    });
    let at = warned.iter().position(|a| *a == InstallAction::EnableStartup).unwrap();
    assert_eq!(warned[at + 1], InstallAction::WarnStartup(io("access denied")));
    assert_eq!(warned[at + 2], InstallAction::RegisterUninstall);
    assert_eq!(warned.last(), Some(&InstallAction::Finish(Ok(()))));
}

#[test]
fn copy_is_tried_ten_times_then_reported() {
    assert_eq!(COPY_ATTEMPTS, 10);
    assert_eq!(COPY_RETRY_MS, 300);
    let actions = run_install(false, true, true, &mut |a| match a {
        InstallAction::CopyExe => Err(io("in use")),
        _ => Ok(()),
    });
    let copies = actions.iter().filter(|a| **a == InstallAction::CopyExe).count();
    let pauses = actions.iter().filter(|a| **a == InstallAction::PauseBeforeRetry).count();
    assert_eq!(copies, 10);
    assert_eq!(pauses, 10);
    let n = actions.len();
    assert_eq!(
        actions[n - 3..],
        [
            InstallAction::RemoveOldExe,
            InstallAction::ReportCopyFailure,
            InstallAction::Finish(Ok(())),
        ]
    );
    assert!(!actions.contains(&InstallAction::RegisterUninstall));
    assert!(!actions.contains(&InstallAction::DropZoneIdentifier));
    assert!(!actions.contains(&InstallAction::StartInstalledCopy));
}

#[test]
fn copy_succeeding_on_a_retry_goes_on() {
    let mut tries = 0;
    let actions = run_install(false, true, false, &mut |a| match a {
        InstallAction::CopyExe => {
            tries += 1;
            if tries < 3 { Err(io("busy")) } else { Ok(()) }
        }
        _ => Ok(()),
    });
    assert_eq!(actions.iter().filter(|a| **a == InstallAction::CopyExe).count(), 3);
    assert!(actions.contains(&InstallAction::DropZoneIdentifier));
    assert!(actions.contains(&InstallAction::StartInstalledCopy));
}

#[test]
fn install_errors_end_the_install() {
    let actions = run_install(false, true, true, &mut |a| match a {
        InstallAction::CreateInstallDir => Err(io("no space")),
        _ => Ok(()),
    });
    assert_eq!(
        actions,
        vec![InstallAction::CreateInstallDir, InstallAction::Finish(Err(io("no space")))]
    );
    let started = run_install(false, true, false, &mut |a| match a {
        InstallAction::StartInstalledCopy => Err(io("blocked")),
        _ => Ok(()),
    });
    let n = started.len();
    assert_eq!(
        started[n - 2..],
        [InstallAction::ReportStartFailure, InstallAction::Finish(Ok(()))]
    );
}

fn journal(stage: JournalStage) -> Journal {
    Journal {
        stage,
        from_guid: "from-guid".to_string(),
        to_guid: "to-guid".to_string(),
        outbound: vec![PlannedMove { from: "D\\a.txt".to_string(), to: "S\\from\\a.txt".to_string() }],
        inbound: vec![PlannedMove { from: "S\\to\\b.txt".to_string(), to: "D\\b.txt".to_string() }],
    }
}

fn run_recovery(
    j: Journal,
    answer: &mut dyn FnMut(&RecoveryAction) -> Result<(), AppError>,
) -> (RecoveryRun, Vec<RecoveryAction>) {
    let (mut run, mut action) = RecoveryRun::start(j);
    let mut actions = Vec::new();
    loop {
        let finished = matches!(action, RecoveryAction::Finish(_));
        let outcome = answer(&action);
        actions.push(action);
        if finished {
            return (run, actions);
        }
        let (next_run, next_action) = run.advance(outcome);
        run = next_run;
        action = next_action;
    }
}

#[test]
fn recovery_finishes_steps_then_marks_restores_and_clears() {
    let (run, actions) = run_recovery(journal(JournalStage::InboundComplete), &mut |_| Ok(()));
    assert_eq!(run.plan.steps.len(), 2);
    assert_eq!(run.plan.active_guid, Some("to-guid".to_string()));
    assert_eq!(
        actions,
        vec![
            RecoveryAction::FinishStep(0),
            RecoveryAction::FinishStep(1),
            RecoveryAction::MarkActive,
            RecoveryAction::RestoreLayout,
            RecoveryAction::ClearJournal,
            RecoveryAction::Announce,
            RecoveryAction::Finish(Ok(())),
        ]
    );
    assert_eq!(run.stage, RecoveryStage::Done);
}

#[test]
fn recovery_rollback_skips_layout_restore() {
    let (run, actions) = run_recovery(journal(JournalStage::Planned), &mut |_| Ok(()));
    assert_eq!(run.plan.active_guid, Some("from-guid".to_string()));
    assert_eq!(
        actions,
        vec![
            RecoveryAction::FinishStep(0),
            RecoveryAction::MarkActive,
            RecoveryAction::ClearJournal,
            RecoveryAction::Announce,
            RecoveryAction::Finish(Ok(())),
        ]
    );
}

#[test]
fn failed_recovery_keeps_the_journal() {
    let (_, actions) = run_recovery(journal(JournalStage::Rollback), &mut |a| match a {
        RecoveryAction::FinishStep(1) => Err(io("locked")),
        _ => Ok(()),
    });
    assert_eq!(
        actions,
        vec![
            RecoveryAction::FinishStep(0),
            RecoveryAction::FinishStep(1),
            RecoveryAction::Finish(Err(io("locked"))),
        ]
    );
    let (_, marked) = run_recovery(journal(JournalStage::OutboundComplete), &mut |a| match a {
        RecoveryAction::MarkActive => Err(io("registry")),
        _ => Ok(()),
    });
    assert!(!marked.contains(&RecoveryAction::ClearJournal));
    assert_eq!(marked.last(), Some(&RecoveryAction::Finish(Err(io("registry")))));
}
