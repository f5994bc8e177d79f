//! The command line of `deskicons`.
use vstd::prelude::*;
use crate::config::str_equal;
use crate::text::string_views;

verus! {

/// Why a command line is refused.
#[derive(Clone, Copy, Debug, PartialEq, Eq, Structural)]
pub enum CliError {
    AdoptNeedsYes,
    RestoreLayoutNeedsYes,
    StartupNeedsOnOff,
}

/// The message for a refused command line.
pub open spec fn spec_cli_error_message(e: CliError) -> Seq<char> {
    match e {
        CliError::AdoptNeedsYes => "adopt requires --yes"@,
        CliError::RestoreLayoutNeedsYes => "restore-layout requires --yes"@,
        CliError::StartupNeedsOnOff => "startup requires 'on' or 'off'"@,
    }
}

impl CliError {
    /// The message shown for the refused command line.
    pub fn message(self) -> (s: &'static str)
        ensures
            s@ == spec_cli_error_message(self),
    {
        match self {
            CliError::AdoptNeedsYes => "adopt requires --yes",
            CliError::RestoreLayoutNeedsYes => "restore-layout requires --yes",
            CliError::StartupNeedsOnOff => "startup requires 'on' or 'off'",
        }
    }
}

/// What the command line asks for.
#[derive(Clone, Copy, Debug, PartialEq, Eq, Structural)]
pub enum CliCommand {
    /// No arguments: install if needed, then run in the tray.
    Default,
    Help,
    Status,
    Adopt,
    SwitchOnce { dry_run: bool },
    RestoreLayout,
    DumpVisible,
    Recover,
    Enable,
    Disable,
    Startup { on: bool },
    ExportState,
    Uninstall,
    Tray,
    Agent { dry_run: bool },
    /// An unknown command: print the usage and exit with status 2.
    Usage,
    Invalid(CliError),
}

/// Whether `arg` is one of the arguments.
pub open spec fn has_arg(args: Seq<Seq<char>>, arg: Seq<char>) -> bool {
    exists|i: int| 0 <= i < args.len() && args[i] == arg
}

/// What a command line (without the program name) asks for.
pub open spec fn spec_parse_cli(args: Seq<Seq<char>>) -> CliCommand {
    if args.len() == 0 {
        CliCommand::Default
    } else {
        let c = args[0];
        let dry_run = has_arg(args, "--dry-run"@);
        let yes = has_arg(args, "--yes"@);
        if c == "help"@ || c == "--help"@ || c == "-h"@ {
            CliCommand::Help
        } else if c == "status"@ {
            CliCommand::Status
        } else if c == "adopt"@ {
            if yes {
                CliCommand::Adopt
            } else {
                CliCommand::Invalid(CliError::AdoptNeedsYes)
            }
        } else if c == "switch-once"@ {
            CliCommand::SwitchOnce { dry_run }
        } else if c == "restore-layout"@ {
            if yes {
                CliCommand::RestoreLayout
            } else {
                CliCommand::Invalid(CliError::RestoreLayoutNeedsYes)
            }
        } else if c == "dump-visible"@ {
            CliCommand::DumpVisible
        } else if c == "recover"@ {
            CliCommand::Recover
        } else if c == "enable"@ {
            CliCommand::Enable
        } else if c == "disable"@ {
            CliCommand::Disable
        } else if c == "startup"@ {
            if args.len() > 1 && (args[1] == "on"@ || args[1] == "off"@) {
                CliCommand::Startup { on: args[1] == "on"@ }
            } else {
                CliCommand::Invalid(CliError::StartupNeedsOnOff)
            }
        } else if c == "export-state"@ {
            CliCommand::ExportState
        } else if c == "uninstall"@ {
            CliCommand::Uninstall
        } else if c == "tray"@ {
            CliCommand::Tray
        } else if c == "agent"@ {
            CliCommand::Agent { dry_run }
        } else {
            CliCommand::Usage
        }
    }
}

/// The word that names a command on the command line, for the commands that
/// have one (a refused command line is named by the command it refuses).
pub open spec fn command_word(c: CliCommand) -> Option<Seq<char>> {
    match c {
        CliCommand::Help => Some("help"@),
        CliCommand::Status => Some("status"@),
        CliCommand::Adopt => Some("adopt"@),
        CliCommand::SwitchOnce { .. } => Some("switch-once"@),
        CliCommand::RestoreLayout => Some("restore-layout"@),
        CliCommand::DumpVisible => Some("dump-visible"@),
        CliCommand::Recover => Some("recover"@),
        CliCommand::Enable => Some("enable"@),
        CliCommand::Disable => Some("disable"@),
        CliCommand::Startup { .. } => Some("startup"@),
        CliCommand::ExportState => Some("export-state"@),
        CliCommand::Uninstall => Some("uninstall"@),
        CliCommand::Tray => Some("tray"@),
        CliCommand::Agent { .. } => Some("agent"@),
        CliCommand::Invalid(CliError::AdoptNeedsYes) => Some("adopt"@),
        CliCommand::Invalid(CliError::RestoreLayoutNeedsYes) => Some("restore-layout"@),
        CliCommand::Invalid(CliError::StartupNeedsOnOff) => Some("startup"@),
        CliCommand::Default | CliCommand::Usage => None,
    }
}

/// The command line asks for the command its first word names: the command
/// parsed from it is named by that word (help also by `--help` and `-h`), and
/// a first word that names no command gives the usage. The options only
/// qualify the named command: `--yes` is needed to adopt or restore a
/// layout, `--dry-run` anywhere makes a switch or the agent a dry run, and
/// startup is switched on exactly by `on`.
pub proof fn lemma_command_named_by_first_word(args: Seq<Seq<char>>)
    requires
        args.len() > 0,
    ensures
        ({
            let r = spec_parse_cli(args);
            &&& r is Usage || command_word(r) == Some(args[0]) || (r is Help && (args[0] == "--help"@
                || args[0] == "-h"@))
            &&& r is Usage ==> forall|c: CliCommand| command_word(c) != Some(args[0])
            &&& (r is Adopt || r is RestoreLayout) ==> has_arg(args, "--yes"@)
            &&& (r matches CliCommand::SwitchOnce { dry_run } ==> dry_run == has_arg(
                args,
                "--dry-run"@,
            ))
            &&& (r matches CliCommand::Agent { dry_run } ==> dry_run == has_arg(args, "--dry-run"@))
            &&& (r matches CliCommand::Startup { on } ==> args.len() > 1 && on == (args[1]
                == "on"@))
        }),
{
    let r = spec_parse_cli(args);
    if r is Usage {
        assert forall|c: CliCommand| command_word(c) != Some(args[0]) by {
            match c {
                CliCommand::Invalid(e) => match e {
                    CliError::AdoptNeedsYes => {},
                    CliError::RestoreLayoutNeedsYes => {},
                    CliError::StartupNeedsOnOff => {},
                },
                _ => {},
            }
        }
    }
}

/// Whether `arg` is one of the arguments.
fn find_arg(args: &[String], arg: &str) -> (r: bool)
    ensures
        r == has_arg(string_views(args@), arg@),
{
    let ghost av = string_views(args@);
    let mut i: usize = 0;
    while i < args.len()
        invariant
            av == string_views(args@),
            i <= args@.len(),
            forall|j: int| 0 <= j < i ==> av[j] != arg@,
        decreases args@.len() - i,
    {
        if str_equal(args[i].as_str(), arg) {
            assert(av[i as int] == arg@);
            return true;
        }
        i = i + 1;
    }
    false
}

/// What the command line (without the program name) asks for.
pub fn parse_cli(args: &[String]) -> (c: CliCommand)
    ensures
        c == spec_parse_cli(string_views(args@)),
{
    let ghost av = string_views(args@);
    if args.len() == 0 {
        return CliCommand::Default;
    }
    assert(av[0] == args@[0]@);
    let c = args[0].as_str();
    let dry_run = find_arg(args, "--dry-run");
    let yes = find_arg(args, "--yes");
    if str_equal(c, "help") || str_equal(c, "--help") || str_equal(c, "-h") {
        CliCommand::Help
    } else if str_equal(c, "status") {
        CliCommand::Status
    } else if str_equal(c, "adopt") {
        if yes {
            CliCommand::Adopt
        } else {
            CliCommand::Invalid(CliError::AdoptNeedsYes)
        }
    } else if str_equal(c, "switch-once") {
        CliCommand::SwitchOnce { dry_run }
    } else if str_equal(c, "restore-layout") {
        if yes {
            CliCommand::RestoreLayout
        } else {
            CliCommand::Invalid(CliError::RestoreLayoutNeedsYes)
        }
    } else if str_equal(c, "dump-visible") {
        CliCommand::DumpVisible
    } else if str_equal(c, "recover") {
        CliCommand::Recover
    } else if str_equal(c, "enable") {
        CliCommand::Enable
    } else if str_equal(c, "disable") {
        CliCommand::Disable
    } else if str_equal(c, "startup") {
        if args.len() > 1 {
            assert(av[1] == args@[1]@);
            let on = str_equal(args[1].as_str(), "on");
            let off = str_equal(args[1].as_str(), "off");
            if on || off {
                return CliCommand::Startup { on };
            }
        }
        CliCommand::Invalid(CliError::StartupNeedsOnOff)
    } else if str_equal(c, "export-state") {
        CliCommand::ExportState
    } else if str_equal(c, "uninstall") {
        CliCommand::Uninstall
    } else if str_equal(c, "tray") {
        CliCommand::Tray
    } else if str_equal(c, "agent") {
        CliCommand::Agent { dry_run }
    } else {
        CliCommand::Usage
    }
}

} // verus!
