//! Installing (or updating) the program into the user's local application
//! data, step by step: the caller performs each action, reports how it went,
//! and gets the next action back.
use vstd::prelude::*;
use crate::error::AppError;

verus! {

/// How many times copying the program is tried.
pub const COPY_ATTEMPTS: u32 = 10;

/// How long to wait between two copy attempts, in milliseconds.
pub const COPY_RETRY_MS: u32 = 300;

/// What the caller must do next for an install.
#[derive(Debug, PartialEq, Eq)]
pub enum InstallAction {
    /// Close the installed copy that is running (an update).
    StopInstalledCopy,
    /// Create the install folder.
    CreateInstallDir,
    /// Rename an installed program out of the way, if there is one; its
    /// outcome does not matter.
    ParkOldExe,
    /// Find the path of the running program.
    LocateExe,
    /// Copy the running program into the install folder (one attempt).
    CopyExe,
    /// Wait `COPY_RETRY_MS` after a failed copy.
    PauseBeforeRetry,
    /// Remove the downloaded-file marker from the copy.
    DropZoneIdentifier,
    /// Remove the renamed old program; its outcome does not matter.
    RemoveOldExe,
    /// Tell the user the copy failed.
    ReportCopyFailure,
    /// Register the installed copy to start with Windows.
    EnableStartup,
    /// Warn the user that registering for startup failed, with that error.
    WarnStartup(AppError),
    /// Register the uninstall entry.
    RegisterUninstall,
    /// Create the Start menu shortcut.
    CreateShortcut,
    /// Write the marker that makes the installed copy announce itself.
    WriteInstallNotice,
    /// Start the installed copy.
    StartInstalledCopy,
    /// Tell the user the installed copy could not be started.
    ReportStartFailure,
    /// The install is over: this process exits (`Ok`), or fails with the error.
    Finish(Result<(), AppError>),
}

/// Where an install stands: the action whose outcome is awaited.
#[derive(Clone, Copy, Debug, PartialEq, Eq, Structural)]
pub enum InstallState {
    Stopping,
    CreatingDir,
    ParkingOld,
    Locating,
    /// The copy attempt with this number (from one) is under way.
    Copying(u32),
    /// This many copy attempts have failed.
    Pausing(u32),
    DroppingZone,
    /// Removing the old program; whether the copy succeeded.
    RemovingOld(bool),
    ReportingCopyFailure,
    EnablingStartup,
    WarningStartup,
    Registering,
    Linking,
    WritingNotice,
    Starting,
    ReportingStartFailure,
    Finished,
}

/// An install in progress: whether it updates a running copy, whether the
/// copy is to start with Windows, and where it stands.
pub struct InstallRun {
    pub is_update: bool,
    pub start_with_windows: bool,
    pub state: InstallState,
}

/// The end of an install with `result`.
pub open spec fn install_end(result: Result<(), AppError>) -> (InstallState, InstallAction) {
    (InstallState::Finished, InstallAction::Finish(result))
}

/// The first state and action of an install, once the user answered the
/// dialog: a cancelled install exits at once; an update first closes the
/// running copy.
pub open spec fn install_first(is_update: bool, accepted: bool) -> (InstallState, InstallAction) {
    if !accepted {
        install_end(Ok(()))
    } else if is_update {
        (InstallState::Stopping, InstallAction::StopInstalledCopy)
    } else {
        (InstallState::CreatingDir, InstallAction::CreateInstallDir)
    }
}

/// The next state and action of an install, given how the awaited action
/// went. Copying is tried up to `COPY_ATTEMPTS` times with a pause after each
/// failure; if no attempt succeeds the user is told and the process exits.
/// Startup is registered only when chosen on a first install, and its
/// failure only warns.
pub open spec fn install_next(
    state: InstallState,
    is_update: bool,
    start_with_windows: bool,
    outcome: Result<(), AppError>,
) -> (InstallState, InstallAction) {
    match state {
        InstallState::Stopping => (InstallState::CreatingDir, InstallAction::CreateInstallDir),
        InstallState::CreatingDir => match outcome {
            Ok(_) => (InstallState::ParkingOld, InstallAction::ParkOldExe),
            Err(e) => install_end(Err(e)),
        },
        InstallState::ParkingOld => (InstallState::Locating, InstallAction::LocateExe),
        InstallState::Locating => match outcome {
            Ok(_) => (InstallState::Copying(1), InstallAction::CopyExe),
            Err(e) => install_end(Err(e)),
        },
        InstallState::Copying(k) => match outcome {
            Ok(_) => (InstallState::DroppingZone, InstallAction::DropZoneIdentifier),
            Err(_) => (InstallState::Pausing(k), InstallAction::PauseBeforeRetry),
        },
        InstallState::Pausing(k) => if k < COPY_ATTEMPTS {
            (InstallState::Copying((k + 1) as u32), InstallAction::CopyExe)
        } else {
            (InstallState::RemovingOld(false), InstallAction::RemoveOldExe)
        },
        InstallState::DroppingZone => (InstallState::RemovingOld(true), InstallAction::RemoveOldExe),
        InstallState::RemovingOld(copied) => if !copied {
            (InstallState::ReportingCopyFailure, InstallAction::ReportCopyFailure)
        } else if start_with_windows && !is_update {
            (InstallState::EnablingStartup, InstallAction::EnableStartup)
        } else {
            (InstallState::Registering, InstallAction::RegisterUninstall)
        },
        InstallState::ReportingCopyFailure => install_end(Ok(())),
        InstallState::EnablingStartup => match outcome {
            Ok(_) => (InstallState::Registering, InstallAction::RegisterUninstall),
            Err(e) => (InstallState::WarningStartup, InstallAction::WarnStartup(e)),
        },
        InstallState::WarningStartup => (InstallState::Registering, InstallAction::RegisterUninstall),
        InstallState::Registering => (InstallState::Linking, InstallAction::CreateShortcut),
        InstallState::Linking => (InstallState::WritingNotice, InstallAction::WriteInstallNotice),
        InstallState::WritingNotice => match outcome {
            Ok(_) => (InstallState::Starting, InstallAction::StartInstalledCopy),
            Err(e) => install_end(Err(e)),
        },
        InstallState::Starting => match outcome {
            Ok(_) => install_end(Ok(())),
            Err(_) => (InstallState::ReportingStartFailure, InstallAction::ReportStartFailure),
        },
        InstallState::ReportingStartFailure => install_end(Ok(())),
        InstallState::Finished => install_end(Ok(())),
    }
}

/// Whether the copy attempt numbers of a state are in range.
pub open spec fn install_state_wf(state: InstallState) -> bool {
    match state {
        InstallState::Copying(k) | InstallState::Pausing(k) => 1 <= k <= COPY_ATTEMPTS,
        _ => true,
    }
}

/// How far a state is from the end; every step lowers it.
pub open spec fn install_rank(state: InstallState) -> int {
    match state {
        InstallState::Stopping => 50,
        InstallState::CreatingDir => 49,
        InstallState::ParkingOld => 48,
        InstallState::Locating => 47,
        InstallState::Copying(k) => 46 - 2 * k,
        InstallState::Pausing(k) => 45 - 2 * k,
        InstallState::DroppingZone => 12,
        InstallState::RemovingOld(_) => 11,
        InstallState::ReportingCopyFailure => 1,
        InstallState::EnablingStartup => 10,
        InstallState::WarningStartup => 9,
        InstallState::Registering => 8,
        InstallState::Linking => 7,
        InstallState::WritingNotice => 6,
        InstallState::Starting => 5,
        InstallState::ReportingStartFailure => 1,
        InstallState::Finished => 0,
    }
}

fn finish_install(is_update: bool, start_with_windows: bool, result: Result<(), AppError>) -> (r: (
    InstallRun,
    InstallAction,
))
    ensures
        r.0.is_update == is_update,
        r.0.start_with_windows == start_with_windows,
        (r.0.state, r.1) == install_end(result),
{
    (
        InstallRun { is_update, start_with_windows, state: InstallState::Finished },
        InstallAction::Finish(result),
    )
}

impl InstallRun {
    /// Starts an install once the user answered the dialog (`accepted`, and
    /// whether to start with Windows) and it is known whether an installed
    /// copy is running.
    pub fn start(is_update: bool, accepted: bool, start_with_windows: bool) -> (r: (
        InstallRun,
        InstallAction,
    ))
        ensures
            r.0.is_update == is_update,
            r.0.start_with_windows == start_with_windows,
            install_state_wf(r.0.state),
            (r.0.state, r.1) == install_first(is_update, accepted),
    {
        if !accepted {
            finish_install(is_update, start_with_windows, Ok(()))
        } else if is_update {
            (
                InstallRun { is_update, start_with_windows, state: InstallState::Stopping },
                InstallAction::StopInstalledCopy,
            )
        } else {
            (
                InstallRun { is_update, start_with_windows, state: InstallState::CreatingDir },
                InstallAction::CreateInstallDir,
            )
        }
    }

    /// The next step of the install, given how the awaited action went.
    pub fn advance(self, outcome: Result<(), AppError>) -> (r: (InstallRun, InstallAction))
        requires
            install_state_wf(self.state),
            !(self.state is Finished),
        ensures
            r.0.is_update == self.is_update,
            r.0.start_with_windows == self.start_with_windows,
            install_state_wf(r.0.state),
            (r.0.state, r.1) == install_next(self.state, self.is_update, self.start_with_windows, outcome),
            install_rank(r.0.state) < install_rank(self.state),
    {
        let InstallRun { is_update, start_with_windows, state } = self;
        let (next, action) = match state {
            InstallState::Stopping => (InstallState::CreatingDir, InstallAction::CreateInstallDir),
            InstallState::CreatingDir => match outcome {
                Ok(_) => (InstallState::ParkingOld, InstallAction::ParkOldExe),
                Err(e) => (InstallState::Finished, InstallAction::Finish(Err(e))),
            },
            InstallState::ParkingOld => (InstallState::Locating, InstallAction::LocateExe),
            InstallState::Locating => match outcome {
                Ok(_) => (InstallState::Copying(1), InstallAction::CopyExe),
                Err(e) => (InstallState::Finished, InstallAction::Finish(Err(e))),
            },
            InstallState::Copying(k) => match outcome {
                Ok(_) => (InstallState::DroppingZone, InstallAction::DropZoneIdentifier),
                Err(_) => (InstallState::Pausing(k), InstallAction::PauseBeforeRetry),
            },
            InstallState::Pausing(k) => if k < COPY_ATTEMPTS {
                (InstallState::Copying(k + 1), InstallAction::CopyExe)
            } else {
                (InstallState::RemovingOld(false), InstallAction::RemoveOldExe)
            },
            InstallState::DroppingZone => (
                InstallState::RemovingOld(true),
                InstallAction::RemoveOldExe,
            ),
            InstallState::RemovingOld(copied) => if !copied {
                (InstallState::ReportingCopyFailure, InstallAction::ReportCopyFailure)
            } else if start_with_windows && !is_update {
                (InstallState::EnablingStartup, InstallAction::EnableStartup)
            } else {
                (InstallState::Registering, InstallAction::RegisterUninstall)
            },
            InstallState::ReportingCopyFailure => (
                InstallState::Finished,
                InstallAction::Finish(Ok(())),
            ),
            InstallState::EnablingStartup => match outcome {
                Ok(_) => (InstallState::Registering, InstallAction::RegisterUninstall),
                Err(e) => (InstallState::WarningStartup, InstallAction::WarnStartup(e)),
            },
            InstallState::WarningStartup => (
                InstallState::Registering,
                InstallAction::RegisterUninstall,
            ),
            InstallState::Registering => (InstallState::Linking, InstallAction::CreateShortcut),
            InstallState::Linking => (InstallState::WritingNotice, InstallAction::WriteInstallNotice),
            InstallState::WritingNotice => match outcome {
                Ok(_) => (InstallState::Starting, InstallAction::StartInstalledCopy),
                Err(e) => (InstallState::Finished, InstallAction::Finish(Err(e))),
            },
            InstallState::Starting => match outcome {
                Ok(_) => (InstallState::Finished, InstallAction::Finish(Ok(()))),
                Err(_) => (InstallState::ReportingStartFailure, InstallAction::ReportStartFailure),
            },
            InstallState::ReportingStartFailure => (
                InstallState::Finished,
                InstallAction::Finish(Ok(())),
            ),
            InstallState::Finished => (InstallState::Finished, InstallAction::Finish(Ok(()))),
        };
        (InstallRun { is_update, start_with_windows, state: next }, action)
    }
}

/// Whether the copy of the program has succeeded by the time `state` is reached.
pub open spec fn copy_succeeded(state: InstallState) -> bool {
    match state {
        InstallState::DroppingZone
        | InstallState::RemovingOld(true)
        | InstallState::EnablingStartup
        | InstallState::WarningStartup
        | InstallState::Registering
        | InstallState::Linking
        | InstallState::WritingNotice
        | InstallState::Starting
        | InstallState::ReportingStartFailure => true,
        _ => false,
    }
}

/// A cancelled install exits at once and does nothing on disk; an accepted
/// one closes the running copy first only when it is an update.
pub proof fn lemma_install_cancel_exits(is_update: bool, accepted: bool)
    ensures
        !accepted ==> install_first(is_update, accepted) == install_end(Ok(())),
        accepted ==> (install_first(is_update, accepted).1 is StopInstalledCopy <==> is_update),
{
}

/// Copying is tried at most `COPY_ATTEMPTS` times: every copy attempt is
/// numbered, the first one after the program was located and each later one
/// after a failed attempt and a pause, and no number passes `COPY_ATTEMPTS`.
pub proof fn lemma_install_copies_bounded(
    state: InstallState,
    is_update: bool,
    start_with_windows: bool,
    outcome: Result<(), AppError>,
)
    requires
        install_state_wf(state),
        !(state is Finished),
    ensures
        install_state_wf(install_next(state, is_update, start_with_windows, outcome).0),
        install_next(state, is_update, start_with_windows, outcome).1 is CopyExe ==> ({
            let next = install_next(state, is_update, start_with_windows, outcome).0;
            &&& next matches InstallState::Copying(k) && 1 <= k <= COPY_ATTEMPTS
            &&& (state is Locating && next == InstallState::Copying(1)) || (state matches InstallState::Pausing(j) && next == InstallState::Copying((j + 1) as u32))
        }),
{
}

/// Nothing is registered, linked, written or started unless the copy of the
/// program succeeded: these actions come only from states reached after a
/// successful copy, and such states are entered only from a copy attempt that
/// succeeded. Startup is registered only when it was chosen, on a first
/// install.
pub proof fn lemma_install_acts_only_after_copy(
    state: InstallState,
    is_update: bool,
    start_with_windows: bool,
    outcome: Result<(), AppError>,
)
    requires
        install_state_wf(state),
        !(state is Finished),
    ensures
        ({
            let (next, action) = install_next(state, is_update, start_with_windows, outcome);
            &&& (action is EnableStartup || action is RegisterUninstall || action is CreateShortcut
                || action is WriteInstallNotice || action is StartInstalledCopy) ==> copy_succeeded(
                next,
            )
            &&& copy_succeeded(next) && !copy_succeeded(state) ==> state is Copying && outcome is Ok
            &&& action is EnableStartup ==> start_with_windows && !is_update
            &&& copy_succeeded(state) ==> copy_succeeded(next) || next is Finished
        }),
{
}

/// After a successful copy every install, first or update, registers the
/// uninstall entry, then creates the Start menu shortcut, then writes the
/// notice, then starts the installed copy, in that order and without
/// skipping: registering follows the removal of the old program directly or
/// after registering for startup (and its warning, if that failed); the
/// shortcut comes only right after registering, the notice only right after
/// the shortcut, and the start only right after the notice.
pub proof fn lemma_install_registers_then_links(
    state: InstallState,
    is_update: bool,
    start_with_windows: bool,
    outcome: Result<(), AppError>,
)
    requires
        install_state_wf(state),
        !(state is Finished),
    ensures
        ({
            let (next, action) = install_next(state, is_update, start_with_windows, outcome);
            &&& state == InstallState::RemovingOld(true) ==> (action is RegisterUninstall || (
            action is EnableStartup && start_with_windows && !is_update))
            &&& (state is EnablingStartup || state is WarningStartup) ==> (action is RegisterUninstall
                || action is WarnStartup)
            &&& action is WarnStartup ==> forall|o: Result<(), AppError>|
                #[trigger] install_next(next, is_update, start_with_windows, o).1 is RegisterUninstall
            &&& action is RegisterUninstall ==> (state == InstallState::RemovingOld(true)
                || state is EnablingStartup || state is WarningStartup)
            &&& action is CreateShortcut <==> state is Registering
            &&& action is WriteInstallNotice <==> state is Linking
            &&& action is StartInstalledCopy ==> state is WritingNotice
        }),
{
}

} // verus!
