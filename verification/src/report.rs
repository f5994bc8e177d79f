//! The texts the program prints or writes: the status report, the manifest
//! of an exported state, the summary of a layout restore, the usage, the
//! registry entry for uninstalling, and the small files of the state folder.
use vstd::prelude::*;
use crate::agent::{contains_ci, desktop_looks_onedrive, export_stamp, spec_export_stamp, spec_uninstall_command, uninstall_command_for};
use crate::error::AppError;
use crate::guid::{hex_lower, push_hex};
use crate::path_logic::{ascii_ci_eq, path_equal_ci};
use crate::text::{
    chars_of, decimal, is_ascii_ws, push_decimal, push_str, spec_trim, string_from_chars,
    string_views,
};

verus! {

/// The version of the program.
pub const APP_VERSION: &'static str = "0.1.7";

/// Appends a line to a list of lines.
fn push_text(lines: &mut Vec<String>, v: Vec<char>)
    ensures
        string_views(final(lines)@) == string_views(old(lines)@).push(v@),
{
    let s = string_from_chars(v.as_slice());
    lines.push(s);
    assert(string_views(lines@) =~= string_views(old(lines)@).push(v@));
}

/// A line made of a label and a value.
fn labeled(label: &str, value: &str) -> (v: Vec<char>)
    ensures
        v@ == label@ + value@,
{
    let mut v = chars_of(label);
    push_str(&mut v, value);
    v
}

/// `yes` or `no`.
pub open spec fn yes_no(b: bool) -> Seq<char> {
    if b {
        "yes"@
    } else {
        "no"@
    }
}

/// The text of an optional value, or `none` in its place.
pub open spec fn text_or(o: Option<String>, none: Seq<char>) -> Seq<char> {
    match o {
        Some(s) => s@,
        None => none,
    }
}

/// What the status report shows.
pub struct StatusFacts {
    pub desktop: String,
    pub public_desktop: String,
    pub root: String,
    pub enabled: bool,
    pub startup: bool,
    pub manage_non_shortcuts: bool,
    pub poll_ms: u64,
    pub journal_pending: bool,
    pub current: Option<String>,
    pub active: Option<String>,
    pub known: Vec<String>,
}

/// The line of the status report for a known virtual desktop.
pub open spec fn known_line(i: nat, guid: Seq<char>) -> Seq<char> {
    "    ["@ + decimal(i) + "] "@ + guid
}

/// The lines of the status report before the OneDrive warning.
pub open spec fn status_head(f: StatusFacts) -> Seq<Seq<char>> {
    seq![
        "DeskIcons status"@,
        "  version:        "@ + APP_VERSION@,
        "  user desktop:   "@ + f.desktop@,
        "  public desktop: "@ + f.public_desktop@,
        "  managed scope:  user Desktop only; Public Desktop icons remain visible but unmanaged"@,
        "  state root:     "@ + f.root@,
        "  enabled:        "@ + yes_no(f.enabled),
        "  startup:        "@ + yes_no(f.startup),
        "  manage files:   "@ + if f.manage_non_shortcuts {
            "all user Desktop entries"@
        } else {
            "user Desktop shortcuts only"@
        },
        "  poll ms:        "@ + decimal(f.poll_ms as nat),
        "  journal:        "@ + if f.journal_pending {
            "pending"@
        } else {
            "none"@
        },
    ]
}

/// The warning shown when the Desktop looks synced by OneDrive.
pub open spec fn onedrive_warning(desktop: Seq<char>) -> Seq<Seq<char>> {
    if contains_ci(desktop, "onedrive"@) {
        seq!["  warning:        Desktop path appears to be OneDrive-synced"@]
    } else {
        seq![]
    }
}

/// The lines of the status report after the warning, before the known desktops.
pub open spec fn status_tail(f: StatusFacts) -> Seq<Seq<char>> {
    seq![
        "  note:           virtual desktop detection uses undocumented Windows Explorer registry state"@,
        "  current VD:     "@ + text_or(f.current, "<unknown>"@),
        "  active set:     "@ + text_or(f.active, "<none>"@),
        "  known VDs:      "@ + decimal(f.known@.len()),
    ]
}

/// The status report, line by line.
pub open spec fn spec_status_lines(f: StatusFacts) -> Seq<Seq<char>> {
    status_head(f) + onedrive_warning(f.desktop@) + status_tail(f) + Seq::new(
        f.known@.len(),
        |i: int| known_line(i as nat, f.known@[i]@),
    )
}

/// An optional value, or the text in its place.
fn text_or_else(o: &Option<String>, none: &str) -> (v: String)
    ensures
        v@ == text_or(*o, none@),
{
    match o {
        Some(s) => string_from_chars(chars_of(s.as_str()).as_slice()),
        None => string_from_chars(chars_of(none).as_slice()),
    }
}

/// The lines of `deskicons status`.
pub fn status_lines(f: &StatusFacts) -> (lines: Vec<String>)
    ensures
        string_views(lines@) == spec_status_lines(*f),
{
    let mut lines: Vec<String> = Vec::new();
    push_text(&mut lines, chars_of("DeskIcons status"));
    push_text(&mut lines, labeled("  version:        ", APP_VERSION));
    push_text(&mut lines, labeled("  user desktop:   ", f.desktop.as_str()));
    push_text(&mut lines, labeled("  public desktop: ", f.public_desktop.as_str()));
    push_text(
        &mut lines,
        chars_of(
            "  managed scope:  user Desktop only; Public Desktop icons remain visible but unmanaged",
        ),
    );
    push_text(&mut lines, labeled("  state root:     ", f.root.as_str()));
    push_text(&mut lines, labeled("  enabled:        ", if f.enabled { "yes" } else { "no" }));
    push_text(&mut lines, labeled("  startup:        ", if f.startup { "yes" } else { "no" }));
    push_text(
        &mut lines,
        labeled(
            "  manage files:   ",
            if f.manage_non_shortcuts {
                "all user Desktop entries"
            } else {
                "user Desktop shortcuts only"
            },
        ),
    );
    let mut poll = chars_of("  poll ms:        ");
    push_decimal(&mut poll, f.poll_ms);
    push_text(&mut lines, poll);
    push_text(
        &mut lines,
        labeled("  journal:        ", if f.journal_pending { "pending" } else { "none" }),
    );
    assert(string_views(lines@) =~= status_head(*f));
    if desktop_looks_onedrive(f.desktop.as_str()) {
        push_text(
            &mut lines,
            chars_of("  warning:        Desktop path appears to be OneDrive-synced"),
        );
    }
    let ghost upto_warning = status_head(*f) + onedrive_warning(f.desktop@);
    assert(string_views(lines@) =~= upto_warning);
    push_text(
        &mut lines,
        chars_of(
            "  note:           virtual desktop detection uses undocumented Windows Explorer registry state",
        ),
    );
    let current = text_or_else(&f.current, "<unknown>");
    push_text(&mut lines, labeled("  current VD:     ", current.as_str()));
    let active = text_or_else(&f.active, "<none>");
    push_text(&mut lines, labeled("  active set:     ", active.as_str()));
    let n = f.known.len();
    let mut count = chars_of("  known VDs:      ");
    push_decimal(&mut count, n as u64);
    push_text(&mut lines, count);
    let ghost before_known = upto_warning + status_tail(*f);
    assert(string_views(lines@) =~= before_known);
    let ghost known_lines = Seq::new(f.known@.len(), |i: int| known_line(i as nat, f.known@[i]@));
    let mut i: usize = 0;
    while i < n
        invariant
            n == f.known@.len(),
            i <= n,
            known_lines == Seq::new(f.known@.len(), |i: int| known_line(i as nat, f.known@[i]@)),
            string_views(lines@) == before_known + known_lines.take(i as int),
        decreases n - i,
    {
        let mut line = chars_of("    [");
        push_decimal(&mut line, i as u64);
        push_str(&mut line, "] ");
        push_str(&mut line, f.known[i].as_str());
        assert(line@ =~= known_line(i as nat, f.known@[i as int]@));
        push_text(&mut lines, line);
        assert(known_lines.take(i + 1) =~= known_lines.take(i as int).push(known_lines[i as int]));
        i = i + 1;
    }
    assert(known_lines.take(n as int) =~= known_lines);
    lines
}

/// The lines of the manifest of an exported state.
pub open spec fn spec_manifest_lines(
    exported: Seq<char>,
    desktop: Seq<char>,
    public_desktop: Seq<char>,
    current: Option<Seq<char>>,
    startup: bool,
) -> Seq<Seq<char>> {
    seq![
        "DeskIcons "@ + APP_VERSION@,
        "exported="@ + exported,
        "user_desktop="@ + desktop,
        "public_desktop="@ + public_desktop,
        "managed_scope=user_desktop_only"@,
        "virtual_desktop_source=undocumented_explorer_registry_state"@,
    ] + match current {
        Some(c) => seq!["current_virtual_desktop="@ + c],
        None => seq![],
    } + seq![
        "startup_enabled="@ + if startup {
            "1"@
        } else {
            "0"@
        },
    ]
}

/// The lines of `manifest.txt` in an exported state: the version, when it
/// was exported, the Desktop folders, the scope, the current virtual desktop
/// if known, and whether the program starts with Windows.
pub fn manifest_lines(
    exported: &str,
    desktop: &str,
    public_desktop: &str,
    current: Option<&str>,
    startup: bool,
) -> (lines: Vec<String>)
    ensures
        string_views(lines@) == spec_manifest_lines(
            exported@,
            desktop@,
            public_desktop@,
            match current {
                Some(c) => Some(c@),
                None => None,
            },
            startup,
        ),
{
    let mut lines: Vec<String> = Vec::new();
    push_text(&mut lines, labeled("DeskIcons ", APP_VERSION));
    push_text(&mut lines, labeled("exported=", exported));
    push_text(&mut lines, labeled("user_desktop=", desktop));
    push_text(&mut lines, labeled("public_desktop=", public_desktop));
    push_text(&mut lines, chars_of("managed_scope=user_desktop_only"));
    push_text(&mut lines, chars_of("virtual_desktop_source=undocumented_explorer_registry_state"));
    match current {
        Some(c) => push_text(&mut lines, labeled("current_virtual_desktop=", c)),
        None => {},
    }
    push_text(&mut lines, labeled("startup_enabled=", if startup { "1" } else { "0" }));
    assert(string_views(lines@) =~= spec_manifest_lines(
        exported@,
        desktop@,
        public_desktop@,
        match current {
            Some(c) => Some(c@),
            None => None,
        },
        startup,
    ));
    lines
}

/// The folder name of an exported state: `deskicons-state-` and the export
/// time, made usable in a file name.
pub fn export_folder_name(timestamp: &str) -> (name: String)
    ensures
        name@ == "deskicons-state-"@ + spec_export_stamp(timestamp@),
{
    let stamp = export_stamp(timestamp);
    string_from_chars(labeled("deskicons-state-", stamp.as_str()).as_slice())
}

/// The summary line of a restore.
pub open spec fn matched_line(matched: nat, total: nat, guid: Seq<char>) -> Seq<char> {
    "Matched "@ + decimal(matched) + " of "@ + decimal(total) + " saved icon positions for "@
        + guid
}

/// The lines listing the saved names missing from the view.
pub open spec fn missing_lines(missing: Seq<Seq<char>>) -> Seq<Seq<char>> {
    if missing.len() == 0 {
        seq![]
    } else {
        seq!["Missing from Explorer desktop view:"@] + missing.map_values(|m: Seq<char>| "  "@ + m)
    }
}

/// The line saying how applying the positions went (`hresult` is what
/// Explorer returned; it is not looked at when nothing matched).
pub open spec fn applied_line(matched: nat, hresult: i32) -> Seq<char> {
    if matched == 0 {
        "No positions were applied because no saved items matched the current desktop view."@
    } else if hresult >= 0 {
        "Applied "@ + decimal(matched) + " saved icon positions."@
    } else {
        "SelectAndPositionItems failed: HRESULT 0x"@ + hex_lower((hresult as u32) as nat, 8)
    }
}

/// What a verbose restore prints after applying the positions.
pub open spec fn spec_restore_summary(
    matched: nat,
    total: nat,
    guid: Seq<char>,
    missing: Seq<Seq<char>>,
    hresult: i32,
) -> Seq<Seq<char>> {
    seq![matched_line(matched, total, guid)] + missing_lines(missing) + seq![
        applied_line(matched, hresult),
    ]
}

/// The lines a verbose restore prints: how many saved positions matched an
/// item in view, the saved names that did not, and how applying went.
pub fn restore_summary(
    matched: usize,
    total: usize,
    guid: &str,
    missing: &[String],
    hresult: i32,
) -> (lines: Vec<String>)
    ensures
        string_views(lines@) == spec_restore_summary(
            matched as nat,
            total as nat,
            guid@,
            string_views(missing@),
            hresult,
        ),
{
    let ghost ms = string_views(missing@);
    let mut lines: Vec<String> = Vec::new();
    let mut head = chars_of("Matched ");
    push_decimal(&mut head, matched as u64);
    push_str(&mut head, " of ");
    push_decimal(&mut head, total as u64);
    push_str(&mut head, " saved icon positions for ");
    push_str(&mut head, guid);
    push_text(&mut lines, head);
    let ghost first = seq![matched_line(matched as nat, total as nat, guid@)];
    assert(string_views(lines@) =~= first);
    if missing.len() > 0 {
        push_text(&mut lines, chars_of("Missing from Explorer desktop view:"));
        let ghost named = ms.map_values(|m: Seq<char>| "  "@ + m);
        let mut i: usize = 0;
        while i < missing.len()
            invariant
                ms == string_views(missing@),
                named == ms.map_values(|m: Seq<char>| "  "@ + m),
                i <= missing@.len(),
                string_views(lines@) == first + seq!["Missing from Explorer desktop view:"@]
                    + named.take(i as int),
            decreases missing@.len() - i,
        {
            let line = labeled("  ", missing[i].as_str());
            assert(line@ == named[i as int]);
            push_text(&mut lines, line);
            assert(named.take(i + 1) =~= named.take(i as int).push(named[i as int]));
            i = i + 1;
        }
        assert(named.take(i as int) =~= named);
    }
    assert(string_views(lines@) =~= first + missing_lines(ms));
    if matched == 0 {
        push_text(
            &mut lines,
            chars_of(
                "No positions were applied because no saved items matched the current desktop view.",
            ),
        );
    } else if hresult >= 0 {
        let mut line = chars_of("Applied ");
        push_decimal(&mut line, matched as u64);
        push_str(&mut line, " saved icon positions.");
        push_text(&mut lines, line);
    } else {
        let mut line = chars_of("SelectAndPositionItems failed: HRESULT 0x");
        let code = hresult as u32;
        push_hex(&mut line, code as u64, 8);
        push_text(&mut lines, line);
    }
    assert(string_views(lines@) =~= spec_restore_summary(
        matched as nat,
        total as nat,
        guid@,
        ms,
        hresult,
    ));
    lines
}

/// The usage text of the command line.
pub open spec fn spec_usage() -> &'static str {
    "DeskIcons 0.1.7\n\nUsage:\n  deskicons status\n  deskicons adopt --yes\n  deskicons switch-once [--dry-run]\n  deskicons restore-layout --yes\n  deskicons dump-visible\n  deskicons recover\n  deskicons enable|disable\n  deskicons startup on|off\n  deskicons export-state\n  deskicons tray\n  deskicons agent [--dry-run]\n\nNotes:\n  status is read-only.\n  adopt records the current virtual desktop as the owner of current user Desktop items.\n  switch-once swaps user Desktop folder contents if Windows is now on another virtual desktop.\n  restore-layout reapplies the saved icon positions for the current virtual desktop.\n  dump-visible prints Explorer's current user Desktop item names and positions.\n  recover completes or rolls back an interrupted journaled swap according to journal stage.\n  tray runs the tray UI.\n  agent polls the current virtual desktop and runs switch-once on desktop changes.\n  Public Desktop icons remain visible but unmanaged.\n  Virtual desktop detection depends on undocumented Windows Explorer registry state."
}

/// The usage text of the command line.
pub fn usage() -> (s: &'static str)
    ensures
        s == spec_usage(),
{
    "DeskIcons 0.1.7\n\nUsage:\n  deskicons status\n  deskicons adopt --yes\n  deskicons switch-once [--dry-run]\n  deskicons restore-layout --yes\n  deskicons dump-visible\n  deskicons recover\n  deskicons enable|disable\n  deskicons startup on|off\n  deskicons export-state\n  deskicons tray\n  deskicons agent [--dry-run]\n\nNotes:\n  status is read-only.\n  adopt records the current virtual desktop as the owner of current user Desktop items.\n  switch-once swaps user Desktop folder contents if Windows is now on another virtual desktop.\n  restore-layout reapplies the saved icon positions for the current virtual desktop.\n  dump-visible prints Explorer's current user Desktop item names and positions.\n  recover completes or rolls back an interrupted journaled swap according to journal stage.\n  tray runs the tray UI.\n  agent polls the current virtual desktop and runs switch-once on desktop changes.\n  Public Desktop icons remain visible but unmanaged.\n  Virtual desktop detection depends on undocumented Windows Explorer registry state."
}

/// The values of the registry entry through which Windows lists the program
/// as installed and uninstalls it.
pub struct UninstallEntry {
    pub display_name: &'static str,
    pub display_version: &'static str,
    pub publisher: &'static str,
    pub install_location: String,
    pub uninstall_string: String,
    pub display_icon: String,
    pub no_modify: u32,
    pub no_repair: u32,
}

/// The uninstall entry for the program installed under `root` as `target_exe`.
pub fn uninstall_entry(root: &str, target_exe: &str) -> (e: UninstallEntry)
    ensures
        e.display_name == "DeskIcons",
        e.display_version == APP_VERSION,
        e.publisher == "DeskIcons",
        e.install_location@ == root@,
        e.uninstall_string@ == spec_uninstall_command(target_exe@),
        e.display_icon@ == target_exe@,
        e.no_modify == 1,
        e.no_repair == 1,
{
    UninstallEntry {
        display_name: "DeskIcons",
        display_version: APP_VERSION,
        publisher: "DeskIcons",
        install_location: string_from_chars(chars_of(root).as_slice()),
        uninstall_string: uninstall_command_for(target_exe),
        display_icon: string_from_chars(chars_of(target_exe).as_slice()),
        no_modify: 1,
        no_repair: 1,
    }
}

/// The content of a one-value file of the state folder (the active desktop,
/// the install notice): the value and a line feed.
pub fn text_file_content(value: &str) -> (text: String)
    ensures
        text@ == value@ + "\n"@,
{
    string_from_chars(labeled(value, "\n").as_slice())
}

/// Reading back a one-value file gives the value that was written, when the
/// value is not empty and has no whitespace at either end (as a GUID's text):
/// trimming what `text_file_content` writes gives the value again.
pub proof fn lemma_text_file_round_trip(value: Seq<char>)
    requires
        value.len() > 0,
        !is_ascii_ws(value[0]),
        !is_ascii_ws(value.last()),
    ensures
        spec_trim(value + "\n"@) == value,
{
    reveal_strlit("\n");
    let t = value + "\n"@;
    assert(t[0] == value[0]);
    assert(crate::text::trim_start_ws(t) == t);
    assert(t.last() == '\n');
    assert(t.drop_last() =~= value);
    assert(crate::text::trim_end_ws(value) == value);
}

/// Whether any virtual desktop still has parked Desktop items, given how
/// many entries each desktop's parked folder holds.
pub fn parked_files_exist(parked_counts: &[usize]) -> (r: bool)
    ensures
        r == exists|i: int| 0 <= i < parked_counts@.len() && parked_counts@[i] > 0,
{
    let mut i: usize = 0;
    while i < parked_counts.len()
        invariant
            i <= parked_counts@.len(),
            forall|j: int| 0 <= j < i ==> parked_counts@[j] == 0,
        decreases parked_counts@.len() - i,
    {
        if parked_counts[i] > 0 {
            return true;
        }
        i = i + 1;
    }
    false
}

/// The message refusing to uninstall while parked items exist.
pub open spec fn parked_refusal(sets: Seq<char>) -> Seq<char> {
    "Refusing to uninstall because parked desktop files still exist under "@ + sets
        + ". Switch through your virtual desktops or export state before uninstalling so user data is not deleted."@
}

/// Uninstalling is refused while parked Desktop items exist under `sets`,
/// so that no user data is deleted.
pub fn check_uninstall(sets: &str, parked_exist: bool) -> (r: Result<(), AppError>)
    ensures
        match r {
            Ok(_) => !parked_exist,
            Err(e) => parked_exist && e.text_view() == parked_refusal(sets@),
        },
{
    if parked_exist {
        let mut v = chars_of(
            "Refusing to uninstall because parked desktop files still exist under ",
        );
        push_str(&mut v, sets);
        push_str(
            &mut v,
            ". Switch through your virtual desktops or export state before uninstalling so user data is not deleted.",
        );
        return Err(AppError::message(string_from_chars(v.as_slice())));
    }
    Ok(())
}

/// Whether the running program is the installed copy: its folder and the
/// install folder are both known and name the same folder, in any ASCII case.
pub fn running_from_install_dir(exe_dir: Option<&str>, install_dir: Option<&str>) -> (r: bool)
    ensures
        r == match (exe_dir, install_dir) {
            (Some(a), Some(b)) => ascii_ci_eq(a@, b@),
            _ => false,
        },
{
    match (exe_dir, install_dir) {
        (Some(a), Some(b)) => path_equal_ci(a, b),
        _ => false,
    }
}

/// The message shown when the program could not be copied to its install
/// folder.
pub fn install_copy_error_text(prefix: &str, exe: &str, target: &str) -> (text: String)
    ensures
        text@ == prefix@ + "From: "@ + exe@ + "\nTo:   "@ + target@,
{
    let mut v = chars_of(prefix);
    push_str(&mut v, "From: ");
    push_str(&mut v, exe);
    push_str(&mut v, "\nTo:   ");
    push_str(&mut v, target);
    string_from_chars(v.as_slice())
}

/// The log message for an error.
pub fn error_log_message(err: &AppError) -> (text: String)
    ensures
        text@ == "ERROR "@ + err.text_view(),
{
    let t = err.text();
    string_from_chars(labeled("ERROR ", t.as_str()).as_slice())
}

} // verus!
