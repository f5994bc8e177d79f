//! The decisions of the agent: which command needs the single-instance lock,
//! what a tray menu item does, when a virtual desktop change calls for a
//! swap, how a swap is planned, and the small formats of the agent's files.
use vstd::prelude::*;
use crate::config::{str_equal, Language};
use crate::filesystem::{moves_paths, MovePaths, PlannedMove};
use crate::journal::{Journal, JournalStage, JournalView};
use crate::path_logic::{
    ascii_ci_eq, is_sep, join_name, moves_from_to, spec_join, spec_moves_from_to,
};
use crate::text::{chars_of, decimal, push_decimal, push_str, string_from_chars, string_views};

verus! {

// ---------------------------------------------------------------------------
// Commands
// ---------------------------------------------------------------------------

/// The commands that change state and so must not run beside another instance.
pub open spec fn spec_needs_single_instance(command: Seq<char>) -> bool {
    command == "adopt"@ || command == "switch-once"@ || command == "restore-layout"@ || command
        == "recover"@ || command == "enable"@ || command == "disable"@ || command == "startup"@
        || command == "uninstall"@ || command == "agent"@
}

/// Whether a command must hold the single-instance lock.
pub fn command_needs_single_instance(command: &str) -> (r: bool)
    ensures
        r == spec_needs_single_instance(command@),
{
    str_equal(command, "adopt") || str_equal(command, "switch-once") || str_equal(
        command,
        "restore-layout",
    ) || str_equal(command, "recover") || str_equal(command, "enable") || str_equal(
        command,
        "disable",
    ) || str_equal(command, "startup") || str_equal(command, "uninstall") || str_equal(
        command,
        "agent",
    )
}

/// The command line registered to start the agent with Windows.
pub open spec fn spec_startup_command(exe: Seq<char>) -> Seq<char> {
    "\""@ + exe + "\" tray"@
}

/// The command line that starts the installed executable in the tray: the
/// quoted path followed by `tray`.
pub fn startup_command_for(target_exe: &str) -> (cmd: String)
    ensures
        cmd@ == spec_startup_command(target_exe@),
{
    let mut v: Vec<char> = Vec::new();
    push_str(&mut v, "\"");
    push_str(&mut v, target_exe);
    push_str(&mut v, "\" tray");
    string_from_chars(v.as_slice())
}

/// The uninstall command registered for Windows' list of installed programs.
pub open spec fn spec_uninstall_command(exe: Seq<char>) -> Seq<char> {
    "\""@ + exe + "\" uninstall"@
}

/// The uninstall command line: the quoted path followed by `uninstall`.
pub fn uninstall_command_for(target_exe: &str) -> (cmd: String)
    ensures
        cmd@ == spec_uninstall_command(target_exe@),
{
    let mut v: Vec<char> = Vec::new();
    push_str(&mut v, "\"");
    push_str(&mut v, target_exe);
    push_str(&mut v, "\" uninstall");
    string_from_chars(v.as_slice())
}

/// The registry key under which Explorer keeps the virtual desktops of a session.
pub open spec fn spec_session_desktops_key(session_id: u32) -> Seq<char> {
    "Software\\Microsoft\\Windows\\CurrentVersion\\Explorer\\SessionInfo\\"@ + decimal(
        session_id as nat,
    ) + "\\VirtualDesktops"@
}

/// The registry key of a session's virtual desktops.
pub fn session_desktops_key(session_id: u32) -> (key: String)
    ensures
        key@ == spec_session_desktops_key(session_id),
{
    let mut v: Vec<char> = Vec::new();
    push_str(&mut v, "Software\\Microsoft\\Windows\\CurrentVersion\\Explorer\\SessionInfo\\");
    push_decimal(&mut v, session_id as u64);
    push_str(&mut v, "\\VirtualDesktops");
    string_from_chars(v.as_slice())
}

/// How the desktop watcher waits for one round: on nothing but the stop
/// signal (with a timeout) when neither registry key could be watched, else
/// on the stop signal and this many notification handles in all.
#[derive(Clone, Copy, Debug, PartialEq, Eq, Structural)]
pub enum WatchWait {
    Idle,
    Handles(usize),
}

/// What the desktop watcher does after a wait.
#[derive(Clone, Copy, Debug, PartialEq, Eq, Structural)]
pub enum WatchOutcome {
    /// The stop signal came: end the watcher.
    Stop,
    /// A registry key changed: tell the window, then watch again.
    Notify,
    /// Nothing to report (a timeout or a failed wait): watch again.
    Rearm,
}

/// The wait of one round, given which of the two registry keys (all
/// desktops, this session's desktops) could be watched: the stop signal, the
/// first key's signal, and the second key's only when it is watched.
pub fn watch_wait(main_ok: bool, sess_ok: bool) -> (r: WatchWait)
    ensures
        r == (if !main_ok && !sess_ok {
            WatchWait::Idle
        } else if sess_ok {
            WatchWait::Handles(3)
        } else {
            WatchWait::Handles(2)
        }),
{
    if !main_ok && !sess_ok {
        WatchWait::Idle
    } else if sess_ok {
        WatchWait::Handles(3)
    } else {
        WatchWait::Handles(2)
    }
}

/// What follows a wait that ended with the handle at `signalled` (counted
/// from the stop signal, which comes first): the stop signal ends the
/// watcher, a key's signal is reported, and anything else watches again.
pub fn watch_outcome(signalled: u32) -> (r: WatchOutcome)
    ensures
        r == (if signalled == 0 {
            WatchOutcome::Stop
        } else if signalled == 1 || signalled == 2 {
            WatchOutcome::Notify
        } else {
            WatchOutcome::Rearm
        }),
{
    if signalled == 0 {
        WatchOutcome::Stop
    } else if signalled == 1 || signalled == 2 {
        WatchOutcome::Notify
    } else {
        WatchOutcome::Rearm
    }
}

/// Whether a process's executable name is this program's, in any ASCII case.
pub fn is_app_executable(exe_name: &str) -> (r: bool)
    ensures
        r == ascii_ci_eq(exe_name@, "deskicons.exe"@),
{
    crate::path_logic::path_equal_ci(exe_name, "deskicons.exe")
}

/// The tray menu's item identifiers.
pub const ID_TRAY_ENABLE: u16 = 2001;
pub const ID_TRAY_ADOPT: u16 = 2002;
pub const ID_TRAY_RESTORE: u16 = 2003;
pub const ID_TRAY_RECOVER: u16 = 2004;
pub const ID_TRAY_OPEN_STATE: u16 = 2005;
pub const ID_TRAY_STARTUP: u16 = 2006;
pub const ID_TRAY_EXIT: u16 = 2007;
/// The first language item; the languages follow in the order English, German.
pub const ID_TRAY_LANG_BASE: u16 = 3000;

/// What a tray menu item does.
#[derive(Clone, Copy, Debug, PartialEq, Eq, Structural)]
pub enum TrayCommand {
    ToggleEnabled,
    AdoptCurrent,
    RestoreLayout,
    Recover,
    OpenStateFolder,
    ToggleStartup,
    Exit,
    SetLanguage(Language),
    Ignore,
}

/// What the tray menu item with identifier `id` does.
pub open spec fn spec_tray_command(id: u16) -> TrayCommand {
    if id == ID_TRAY_ENABLE {
        TrayCommand::ToggleEnabled
    } else if id == ID_TRAY_ADOPT {
        TrayCommand::AdoptCurrent
    } else if id == ID_TRAY_RESTORE {
        TrayCommand::RestoreLayout
    } else if id == ID_TRAY_RECOVER {
        TrayCommand::Recover
    } else if id == ID_TRAY_OPEN_STATE {
        TrayCommand::OpenStateFolder
    } else if id == ID_TRAY_STARTUP {
        TrayCommand::ToggleStartup
    } else if id == ID_TRAY_EXIT {
        TrayCommand::Exit
    } else if id == ID_TRAY_LANG_BASE {
        TrayCommand::SetLanguage(Language::En)
    } else if id == ID_TRAY_LANG_BASE + 1 {
        TrayCommand::SetLanguage(Language::De)
    } else {
        TrayCommand::Ignore
    }
}

/// What the tray menu item with identifier `id` does.
pub fn tray_command_for(id: u16) -> (c: TrayCommand)
    ensures
        c == spec_tray_command(id),
{
    if id == ID_TRAY_ENABLE {
        TrayCommand::ToggleEnabled
    } else if id == ID_TRAY_ADOPT {
        TrayCommand::AdoptCurrent
    } else if id == ID_TRAY_RESTORE {
        TrayCommand::RestoreLayout
    } else if id == ID_TRAY_RECOVER {
        TrayCommand::Recover
    } else if id == ID_TRAY_OPEN_STATE {
        TrayCommand::OpenStateFolder
    } else if id == ID_TRAY_STARTUP {
        TrayCommand::ToggleStartup
    } else if id == ID_TRAY_EXIT {
        TrayCommand::Exit
    } else if id == ID_TRAY_LANG_BASE {
        TrayCommand::SetLanguage(Language::En)
    } else if id == ID_TRAY_LANG_BASE + 1 {
        TrayCommand::SetLanguage(Language::De)
    } else {
        TrayCommand::Ignore
    }
}

/// The menu item identifier of a language.
pub fn language_menu_id(lang: Language) -> (id: u16)
    ensures
        spec_tray_command(id) == TrayCommand::SetLanguage(lang),
{
    match lang {
        Language::En => ID_TRAY_LANG_BASE,
        Language::De => ID_TRAY_LANG_BASE + 1,
    }
}

// ---------------------------------------------------------------------------
// Following the current virtual desktop
// ---------------------------------------------------------------------------

/// The last virtual desktop the agent has seen.
pub struct DesktopTracker {
    pub last: Option<String>,
}

/// The last desktop as text, if any.
pub open spec fn opt_view(o: Option<String>) -> Option<Seq<char>> {
    match o {
        Some(s) => Some(s@),
        None => None,
    }
}

impl DesktopTracker {
    /// A tracker that has seen no desktop yet.
    pub fn new() -> (t: DesktopTracker)
        ensures
            t.last is None,
    {
        DesktopTracker { last: None }
    }

    /// The tray's rule when Windows reports a desktop change and the agent is
    /// enabled: swap when the desktop is seen for the first time or differs
    /// from the last one; remember it either way.
    pub fn tray_change(&mut self, current: &str) -> (swap: bool)
        ensures
            swap == match opt_view(old(self).last) {
                None => true,
                Some(l) => l != current@,
            },
            opt_view(final(self).last) == Some(current@),
    {
        let swap = match &self.last {
            None => true,
            Some(l) => !str_equal(l.as_str(), current),
        };
        self.last = Some(string_from_chars(chars_of(current).as_slice()));
        swap
    }

    /// The polling agent's rule: the first desktop seen is only remembered;
    /// a different desktop calls for a swap when the agent is enabled, and is
    /// remembered either way.
    pub fn poll(&mut self, current: &str, enabled: bool) -> (swap: bool)
        ensures
            swap == match opt_view(old(self).last) {
                None => false,
                Some(l) => l != current@ && enabled,
            },
            opt_view(final(self).last) == Some(current@),
    {
        let swap = match &self.last {
            None => false,
            Some(l) => !str_equal(l.as_str(), current) && enabled,
        };
        self.last = Some(string_from_chars(chars_of(current).as_slice()));
        swap
    }
}

// ---------------------------------------------------------------------------
// Planning a swap
// ---------------------------------------------------------------------------

/// What switching to the current virtual desktop calls for.
#[derive(Clone, Copy, Debug, PartialEq, Eq, Structural)]
pub enum SwitchDecision {
    /// The agent is disabled: nothing happens.
    Disabled,
    /// No desktop owns the Desktop items yet: the current one adopts them.
    Adopt,
    /// The current desktop already owns them: only its layout is saved.
    AlreadyActive,
    /// Another desktop owns them: swap.
    Swap,
}

/// What switching calls for, given whether the agent is enabled, the
/// desktop that owns the Desktop items (if any) and the current one.
pub open spec fn spec_switch_decision(
    enabled: bool,
    active: Option<Seq<char>>,
    current: Seq<char>,
) -> SwitchDecision {
    if !enabled {
        SwitchDecision::Disabled
    } else {
        match active {
            None => SwitchDecision::Adopt,
            Some(a) => if a == current {
                SwitchDecision::AlreadyActive
            } else {
                SwitchDecision::Swap
            },
        }
    }
}

/// Decides what switching to the current desktop calls for.
pub fn switch_decision(enabled: bool, active: Option<&str>, current: &str) -> (d: SwitchDecision)
    ensures
        d == spec_switch_decision(
            enabled,
            match active {
                Some(a) => Some(a@),
                None => None,
            },
            current@,
        ),
{
    if !enabled {
        return SwitchDecision::Disabled;
    }
    match active {
        None => SwitchDecision::Adopt,
        Some(a) => if str_equal(a, current) {
            SwitchDecision::AlreadyActive
        } else {
            SwitchDecision::Swap
        },
    }
}

/// The folder that keeps the parked Desktop items of a desktop.
pub open spec fn spec_set_files_dir(sets: Seq<char>, guid: Seq<char>) -> Seq<char> {
    spec_join(spec_join(sets, guid), "files"@)
}

/// The folder that keeps the parked Desktop items of a desktop: `<sets>\<guid>\files`.
pub fn set_files_dir(sets: &str, guid: &str) -> (dir: String)
    ensures
        dir@ == spec_set_files_dir(sets@, guid@),
{
    let g = chars_of(guid);
    let d = join_name(sets, g.as_slice());
    let f = chars_of("files");
    join_name(d.as_str(), f.as_slice())
}

/// The layout file of a desktop.
pub open spec fn spec_layout_file(layouts: Seq<char>, guid: Seq<char>) -> Seq<char> {
    spec_join(layouts, guid + ".tsv"@)
}

/// The layout file of a desktop: `<layouts>\<guid>.tsv`.
pub fn layout_file_path(layouts: &str, guid: &str) -> (path: String)
    ensures
        path@ == spec_layout_file(layouts@, guid@),
{
    let mut name = chars_of(guid);
    push_str(&mut name, ".tsv");
    join_name(layouts, name.as_slice())
}

proof fn lemma_join_injective(dir: Seq<char>, a: Seq<char>, b: Seq<char>)
    requires
        spec_join(dir, a) == spec_join(dir, b),
    ensures
        a == b,
{
    let k = spec_join(dir, a).len() - a.len();
    assert(a =~= spec_join(dir, a).skip(k));
    assert(b =~= spec_join(dir, b).skip(k));
}

/// Each virtual desktop keeps its own state: two different desktops never
/// share the layout file, nor (when their names do not end with a path
/// separator, as a GUID's text does not) the folder of parked Desktop items.
pub proof fn lemma_desktops_keep_separate_state(
    sets: Seq<char>,
    layouts: Seq<char>,
    a: Seq<char>,
    b: Seq<char>,
)
    requires
        a != b,
        a.len() > 0 && !is_sep(a.last()),
        b.len() > 0 && !is_sep(b.last()),
    ensures
        spec_set_files_dir(sets, a) != spec_set_files_dir(sets, b),
        spec_layout_file(layouts, a) != spec_layout_file(layouts, b),
{
    let ja = spec_join(sets, a);
    let jb = spec_join(sets, b);
    assert(ja.last() == a.last());
    assert(jb.last() == b.last());
    if spec_set_files_dir(sets, a) == spec_set_files_dir(sets, b) {
        let fa = spec_set_files_dir(sets, a);
        assert(fa == ja + seq!['\\'] + "files"@);
        assert(spec_set_files_dir(sets, b) == jb + seq!['\\'] + "files"@);
        assert(ja =~= fa.take(ja.len() as int));
        assert(jb =~= fa.take(jb.len() as int));
        lemma_join_injective(sets, a, b);
    }
    if spec_layout_file(layouts, a) == spec_layout_file(layouts, b) {
        lemma_join_injective(layouts, a + ".tsv"@, b + ".tsv"@);
        assert(a =~= (a + ".tsv"@).take(a.len() as int));
        assert(b =~= (b + ".tsv"@).take(b.len() as int));
    }
}

/// The journal of a swap from `from_guid` to `to_guid`, before any move:
/// the managed Desktop entries go to the parked items of `from_guid`, and
/// the parked items of `to_guid` come to the Desktop.
pub fn plan_swap(
    from_guid: &str,
    to_guid: &str,
    desktop: &str,
    desktop_entries: &[String],
    from_files: &str,
    to_files_entries: &[String],
    manage_non_shortcuts: bool,
) -> (j: Journal)
    ensures
        j@ == (JournalView {
            stage: JournalStage::Planned,
            from_guid: from_guid@,
            to_guid: to_guid@,
            outbound: spec_moves_from_to(
                string_views(desktop_entries@),
                from_files@,
                manage_non_shortcuts,
            ),
            inbound: spec_moves_from_to(
                string_views(to_files_entries@),
                desktop@,
                manage_non_shortcuts,
            ),
        }),
{
    Journal {
        stage: JournalStage::Planned,
        from_guid: string_from_chars(chars_of(from_guid).as_slice()),
        to_guid: string_from_chars(chars_of(to_guid).as_slice()),
        outbound: moves_from_to(desktop_entries, from_files, manage_non_shortcuts),
        inbound: moves_from_to(to_files_entries, desktop, manage_non_shortcuts),
    }
}

/// Each move reversed, in the same order: how a swap puts back its outbound
/// moves when its inbound moves fail.
pub fn swapped_moves(moves: &[PlannedMove]) -> (r: Vec<PlannedMove>)
    ensures
        moves_paths(r@) == moves_paths(moves@).map_values(|m: MovePaths| (m.1, m.0)),
{
    let mut r: Vec<PlannedMove> = Vec::new();
    let mut i: usize = 0;
    while i < moves.len()
        invariant
            i <= moves@.len(),
            moves_paths(r@) == moves_paths(moves@).take(i as int).map_values(
                |m: MovePaths| (m.1, m.0),
            ),
        decreases moves@.len() - i,
    {
        let ghost before = r@;
        let m = moves[i].reversed();
        r.push(m);
        assert(moves_paths(r@) =~= moves_paths(before).push(m.paths()));
        i = i + 1;
        assert(moves_paths(r@) =~= moves_paths(moves@).take(i as int).map_values(
            |m: MovePaths| (m.1, m.0),
        ));
    }
    assert(moves_paths(moves@).take(i as int) =~= moves_paths(moves@));
    r
}

/// Whether a move that was made must be put back after a later move failed:
/// only when its destination is there and its source is not.
pub fn needs_undo(to_exists: bool, from_exists: bool) -> (r: bool)
    ensures
        r == (to_exists && !from_exists),
{
    to_exists && !from_exists
}

// ---------------------------------------------------------------------------
// Small formats
// ---------------------------------------------------------------------------

/// Whether `needle` occurs in `hay` up to ASCII case.
pub open spec fn contains_ci(hay: Seq<char>, needle: Seq<char>) -> bool {
    exists|i: int|
        0 <= i && i + needle.len() <= hay.len() && ascii_ci_eq(
            #[trigger] hay.subrange(i, i + needle.len()),
            needle,
        )
}

/// Whether the Desktop folder looks redirected to OneDrive: its path
/// contains `onedrive` in any ASCII case.
pub fn desktop_looks_onedrive(desktop: &str) -> (r: bool)
    ensures
        r == contains_ci(desktop@, "onedrive"@),
{
    let hay = chars_of(desktop);
    let needle = chars_of("onedrive");
    let n = hay.len();
    let m = needle.len();
    if m > n {
        proof {
            assert forall|i: int| 0 <= i && i + m <= n implies !ascii_ci_eq(
                #[trigger] hay@.subrange(i, i + m),
                needle@,
            ) by {}
        }
        return false;
    }
    let mut i: usize = 0;
    while i <= n - m
        invariant
            n == hay@.len(),
            m == needle@.len(),
            m <= n,
            hay@ == desktop@,
            needle@ == "onedrive"@,
            i <= n - m + 1,
            forall|k: int| 0 <= k < i ==> !ascii_ci_eq(#[trigger] hay@.subrange(k, k + m), needle@),
        decreases n - i,
    {
        let piece = crate::text::copy_range(hay.as_slice(), i, i + m);
        if crate::path_logic::chars_ci_eq(piece.as_slice(), needle.as_slice()) {
            return true;
        }
        i = i + 1;
    }
    false
}

/// A timestamp made usable in a folder name: `:` becomes `-` and a space `_`.
pub open spec fn spec_export_stamp(timestamp: Seq<char>) -> Seq<char> {
    timestamp.map_values(
        |c: char|
            if c == ':' {
                '-'
            } else if c == ' ' {
                '_'
            } else {
                c
            },
    )
}

/// A timestamp made usable in a folder name.
pub fn export_stamp(timestamp: &str) -> (s: String)
    ensures
        s@ == spec_export_stamp(timestamp@),
{
    let v = chars_of(timestamp);
    let mut out: Vec<char> = Vec::new();
    let mut i: usize = 0;
    while i < v.len()
        invariant
            i <= v@.len(),
            out@ == spec_export_stamp(v@.take(i as int)),
        decreases v@.len() - i,
    {
        let c = v[i];
        out.push(
            if c == ':' {
                '-'
            } else if c == ' ' {
                '_'
            } else {
                c
            },
        );
        i = i + 1;
        assert(out@ =~= spec_export_stamp(v@.take(i as int)));
    }
    assert(v@.take(i as int) =~= v@);
    string_from_chars(out.as_slice())
}

/// Copies a NUL-terminated UTF-16 text into a fixed buffer, cutting it to
/// fit and always ending it with NUL; an empty buffer is left as it is.
pub fn copy_wide_truncated(dest: &mut [u16], src: &[u16])
    ensures
        old(dest)@.len() == 0 ==> final(dest)@ == old(dest)@,
        old(dest)@.len() > 0 ==> {
            let n = wide_copy_len(src@, old(dest)@.len());
            &&& final(dest)@.len() == old(dest)@.len()
            &&& final(dest)@.subrange(0, n) == src@.subrange(0, n)
            &&& final(dest)@[n] == 0
            &&& final(dest)@.subrange(n + 1, old(dest)@.len() as int) == old(dest)@.subrange(
                n + 1,
                old(dest)@.len() as int,
            )
        },
{
    if dest.len() == 0 {
        return;
    }
    let mut n: usize = 0;
    while n < src.len() && src[n] != 0
        invariant
            n <= src@.len(),
            forall|j: int| 0 <= j < n ==> src@[j] != 0,
        decreases src@.len() - n,
    {
        n = n + 1;
    }
    proof {
        lemma_wide_len(src@, n as int);
    }
    if n > dest.len() - 1 {
        n = dest.len() - 1;
    }
    let ghost orig = dest@;
    let mut i: usize = 0;
    while i < n
        invariant
            n < dest@.len(),
            n <= src@.len(),
            dest@.len() == orig.len(),
            i <= n,
            forall|j: int| 0 <= j < i ==> dest@[j] == src@[j],
            forall|j: int| i <= j < dest@.len() ==> dest@[j] == orig[j],
        decreases n - i,
    {
        dest[i] = src[i];
        i = i + 1;
    }
    dest[n] = 0;
    assert(dest@.subrange(0, n as int) =~= src@.subrange(0, n as int));
    assert(dest@.subrange(n + 1, orig.len() as int) =~= orig.subrange(n + 1, orig.len() as int));
}

/// The position of the first NUL, or the length when there is none.
pub open spec fn wide_len(s: Seq<u16>) -> int
    decreases s.len(),
{
    if s.len() == 0 {
        0
    } else if s[0] == 0 {
        0
    } else {
        1 + wide_len(s.drop_first())
    }
}

/// How many units are copied into a buffer of `cap` units: the text up to
/// its first NUL, cut to leave room for the terminating NUL.
pub open spec fn wide_copy_len(s: Seq<u16>, cap: nat) -> int {
    if wide_len(s) < cap - 1 {
        wide_len(s)
    } else {
        cap - 1
    }
}

proof fn lemma_wide_len(s: Seq<u16>, k: int)
    requires
        0 <= k <= s.len(),
        forall|j: int| 0 <= j < k ==> s[j] != 0,
        k == s.len() || s[k] == 0,
    ensures
        wide_len(s) == k,
    decreases s.len(),
{
    if s.len() > 0 && s[0] != 0 {
        assert forall|j: int| 0 <= j < k - 1 implies s.drop_first()[j] != 0 by {
            assert(s.drop_first()[j] == s[j + 1]);
        }
        lemma_wide_len(s.drop_first(), k - 1);
    }
}

// ---------------------------------------------------------------------------
// COM initialization
// ---------------------------------------------------------------------------

/// `RPC_E_CHANGED_MODE`: COM is already initialized with another threading model.
pub const RPC_E_CHANGED_MODE: i32 = -2147417850i32;

/// A COM apartment on the current thread, and whether this code initialized
/// it (and so must uninitialize it).
pub struct CoApartment {
    initialized: bool,
}

impl CoApartment {
    /// Whether this code initialized the apartment.
    pub closed spec fn spec_initialized(&self) -> bool {
        self.initialized
    }

    /// The apartment after `CoInitializeEx` returned `hr`: success means it
    /// was initialized here; `RPC_E_CHANGED_MODE` means it already exists
    /// with another model and is used as it is; any other failure is an error.
    pub fn init(hr: i32) -> (r: Result<CoApartment, i32>)
        ensures
            match r {
                Ok(a) => (hr >= 0 && a.spec_initialized()) || (hr == RPC_E_CHANGED_MODE
                    && !a.spec_initialized()),
                Err(e) => hr < 0 && hr != RPC_E_CHANGED_MODE && e == hr,
            },
    {
        if hr < 0 {
            if hr != RPC_E_CHANGED_MODE {
                return Err(hr);
            }
            return Ok(CoApartment { initialized: false });
        }
        Ok(CoApartment { initialized: true })
    }

    /// Whether this code initialized the apartment and must uninitialize it.
    pub fn initialized(&self) -> (b: bool)
        ensures
            b == self.spec_initialized(),
    {
        self.initialized
    }
}

} // verus!
