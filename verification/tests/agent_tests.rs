use deskicons::{
    watch_outcome, watch_wait, WatchOutcome, WatchWait,
    command_needs_single_instance, copy_wide_truncated, desktop_looks_onedrive, export_stamp,
    guid_from_bytes, guid_to_string, guids_from_bytes, is_app_executable, language_menu_id,
    layout_file_path, needs_undo, parse_cli, plan_swap, session_desktops_key, set_files_dir,
    startup_command_for, swapped_moves, switch_decision, tray_command_for, uninstall_command_for,
    CliCommand, CliError, CoApartment, DesktopTracker, Guid, JournalStage, Language, PlannedMove,
    SwitchDecision, TrayCommand, ID_TRAY_EXIT, ID_TRAY_LANG_BASE, RPC_E_CHANGED_MODE,
};

fn args(list: &[&str]) -> Vec<String> {
    list.iter().map(|s| s.to_string()).collect()
}

#[test]
fn fixed_wide_buffers_are_nul_terminated_when_truncated() {
    let source: Vec<u16> = "abcdef".encode_utf16().chain(std::iter::once(0)).collect();
    let mut dest = [99u16; 4];
    copy_wide_truncated(&mut dest, &source);
    assert_eq!(&dest, &[b'a' as u16, b'b' as u16, b'c' as u16, 0]);
}

#[test]
fn short_wide_texts_are_copied_whole() {
    let source: Vec<u16> = "ab".encode_utf16().chain(std::iter::once(0)).collect();
    let mut dest = [99u16; 5];
    copy_wide_truncated(&mut dest, &source);
    assert_eq!(&dest, &[b'a' as u16, b'b' as u16, 0, 99, 99]);
    let mut empty: [u16; 0] = [];
    copy_wide_truncated(&mut empty, &source);
}

#[test]
fn commands_that_change_state_take_the_lock() {
    for c in ["adopt", "switch-once", "restore-layout", "recover", "enable", "disable", "startup", "uninstall", "agent"] {
        assert!(command_needs_single_instance(c));
    }
    for c in ["status", "help", "tray", "dump-visible", "export-state", ""] {
        assert!(!command_needs_single_instance(c));
    }
}

#[test]
fn command_lines_for_windows() {
    assert_eq!(startup_command_for("C:\\P\\deskicons.exe"), "\"C:\\P\\deskicons.exe\" tray");
    assert_eq!(uninstall_command_for("C:\\P\\deskicons.exe"), "\"C:\\P\\deskicons.exe\" uninstall");
    assert_eq!(
        session_desktops_key(42),
        "Software\\Microsoft\\Windows\\CurrentVersion\\Explorer\\SessionInfo\\42\\VirtualDesktops"
    );
    assert!(is_app_executable("DeskIcons.EXE"));
    assert!(!is_app_executable("deskicons.exe.bak"));
}

#[test]
fn tray_items_map_to_commands() {
    assert_eq!(tray_command_for(ID_TRAY_EXIT), TrayCommand::Exit);
    assert_eq!(tray_command_for(2001), TrayCommand::ToggleEnabled);
    assert_eq!(tray_command_for(ID_TRAY_LANG_BASE + 1), TrayCommand::SetLanguage(Language::De));
    assert_eq!(tray_command_for(1), TrayCommand::Ignore);
    for lang in [Language::En, Language::De] {
        assert_eq!(tray_command_for(language_menu_id(lang)), TrayCommand::SetLanguage(lang));
    }
}

#[test]
fn trackers_decide_when_to_swap() {
    let mut tray = DesktopTracker::new();
    assert!(tray.tray_change("a"));
    assert!(!tray.tray_change("a"));
    assert!(tray.tray_change("b"));
    let mut agent = DesktopTracker::new();
    assert!(!agent.poll("a", true));
    assert!(!agent.poll("a", true));
    assert!(!agent.poll("b", false));
    assert!(agent.poll("c", true));
    assert_eq!(agent.last.as_deref(), Some("c"));
}

#[test]
fn switching_decisions() {
    assert_eq!(switch_decision(false, Some("a"), "b"), SwitchDecision::Disabled);
    assert_eq!(switch_decision(true, None, "b"), SwitchDecision::Adopt);
    assert_eq!(switch_decision(true, Some("b"), "b"), SwitchDecision::AlreadyActive);
    assert_eq!(switch_decision(true, Some("a"), "b"), SwitchDecision::Swap);
}

#[test]
fn swap_plans_move_managed_entries_both_ways() {
    let sets = "C:\\State\\sets";
    let from_files = set_files_dir(sets, "g1");
    assert_eq!(from_files, "C:\\State\\sets\\g1\\files");
    assert_eq!(layout_file_path("C:\\State\\layouts\\", "g1"), "C:\\State\\layouts\\g1.tsv");
    let desktop_entries = args(&["C:\\D\\a.lnk", "C:\\D\\b.txt"]);
    let parked = args(&["C:\\State\\sets\\g2\\files\\c.lnk"]);
    let j = plan_swap("g1", "g2", "C:\\D", &desktop_entries, &from_files, &parked, false);
    assert_eq!(j.stage, JournalStage::Planned);
    assert_eq!((j.from_guid.as_str(), j.to_guid.as_str()), ("g1", "g2"));
    assert_eq!(
        j.outbound,
        vec![PlannedMove {
            from: "C:\\D\\a.lnk".to_string(),
            to: "C:\\State\\sets\\g1\\files\\a.lnk".to_string()
        }]
    );
    assert_eq!(
        j.inbound,
        vec![PlannedMove {
            from: "C:\\State\\sets\\g2\\files\\c.lnk".to_string(),
            to: "C:\\D\\c.lnk".to_string()
        }]
    );
    assert_eq!(swapped_moves(&j.outbound)[0], j.outbound[0].reversed());
    assert!(needs_undo(true, false));
    assert!(!needs_undo(true, true));
    assert!(!needs_undo(false, false));
}

#[test]
fn small_formats() {
    assert!(desktop_looks_onedrive("C:\\Users\\u\\OneDrive - Contoso\\Desktop"));
    assert!(!desktop_looks_onedrive("C:\\Users\\u\\Desktop"));
    assert!(!desktop_looks_onedrive("drive"));
    assert_eq!(export_stamp("2024-01-02 03:04:05"), "2024-01-02_03-04-05");
}

#[test]
fn guids_are_read_little_endian_and_written_in_lower_hex() {
    let bytes: Vec<u8> = (0u8..16).collect();
    let g = guid_from_bytes(&bytes).unwrap();
    assert_eq!(
        g,
        Guid { data1: 0x03020100, data2: 0x0504, data3: 0x0706, data4: [8, 9, 10, 11, 12, 13, 14, 15] }
    );
    assert_eq!(guid_to_string(&g), "03020100-0504-0706-0809-0a0b0c0d0e0f");
    assert!(guid_from_bytes(&bytes[..15]).is_none());
    let mut two = bytes.clone();
    two.extend(std::iter::repeat(0xab).take(16));
    let all = guids_from_bytes(&two).unwrap();
    assert_eq!(all.len(), 2);
    assert_eq!(guid_to_string(&all[1]), "abababab-abab-abab-abab-abababababab");
    assert!(guids_from_bytes(&[]).is_none());
    assert!(guids_from_bytes(&two[..20]).is_none());
}

#[test]
fn command_line_parsing() {
    assert_eq!(parse_cli(&args(&[])), CliCommand::Default);
    assert_eq!(parse_cli(&args(&["--help"])), CliCommand::Help);
    assert_eq!(parse_cli(&args(&["adopt"])), CliCommand::Invalid(CliError::AdoptNeedsYes));
    assert_eq!(parse_cli(&args(&["adopt", "--yes"])), CliCommand::Adopt);
    assert_eq!(parse_cli(&args(&["switch-once", "--dry-run"])), CliCommand::SwitchOnce { dry_run: true });
    assert_eq!(parse_cli(&args(&["restore-layout"])), CliCommand::Invalid(CliError::RestoreLayoutNeedsYes));
    assert_eq!(parse_cli(&args(&["startup", "off"])), CliCommand::Startup { on: false });
    assert_eq!(parse_cli(&args(&["startup", "maybe"])), CliCommand::Invalid(CliError::StartupNeedsOnOff));
    assert_eq!(parse_cli(&args(&["agent"])), CliCommand::Agent { dry_run: false });
    assert_eq!(parse_cli(&args(&["frobnicate"])), CliCommand::Usage);
    assert_eq!(CliError::StartupNeedsOnOff.message(), "startup requires 'on' or 'off'");
}

#[test]
fn com_initialization_results() {
    assert!(CoApartment::init(0).unwrap().initialized());
    assert!(CoApartment::init(1).unwrap().initialized());
    assert!(!CoApartment::init(RPC_E_CHANGED_MODE).unwrap().initialized());
    assert_eq!(CoApartment::init(-5).err(), Some(-5));
}

#[test]
fn each_desktop_keeps_its_own_folders() {
    let g1 = "0a1b2c3d-0000-0000-0000-000000000001";
    let g2 = "0a1b2c3d-0000-0000-0000-000000000002";
    assert_ne!(set_files_dir("C:\\S", g1), set_files_dir("C:\\S", g2));
    assert_ne!(layout_file_path("C:\\L", g1), layout_file_path("C:\\L", g2));
    // A name ending in a separator is where the folders could meet.
    assert_eq!(set_files_dir("C:\\S", "x\\"), set_files_dir("C:\\S", "x"));
}

#[test]
fn watcher_waits_on_the_keys_it_could_open() {
    assert_eq!(watch_wait(false, false), WatchWait::Idle);
    assert_eq!(watch_wait(true, false), WatchWait::Handles(2));
    assert_eq!(watch_wait(false, true), WatchWait::Handles(3));
    assert_eq!(watch_wait(true, true), WatchWait::Handles(3));
    assert_eq!(watch_outcome(0), WatchOutcome::Stop);
    assert_eq!(watch_outcome(1), WatchOutcome::Notify);
    assert_eq!(watch_outcome(2), WatchOutcome::Notify);
    assert_eq!(watch_outcome(258), WatchOutcome::Rearm);
    assert_eq!(watch_outcome(u32::MAX), WatchOutcome::Rearm);
}
