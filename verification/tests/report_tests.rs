use deskicons::{
    check_uninstall, error_log_message, export_folder_name, install_copy_error_text,
    install_dialog, language_menu, manifest_lines, parked_files_exist, restore_summary,
    running_from_install_dir, start_with_windows_choice, status_lines, strings_for,
    text_file_content, trimmed_text, tray_menu, uninstall_entry, usage, AppError, Language,
    MenuEntry, MenuItem, StatusFacts, APP_VERSION, ID_TRAY_EXIT, ID_TRAY_LANG_BASE,
    ID_TRAY_STARTUP,
};

fn facts(desktop: &str) -> StatusFacts {
    StatusFacts {
        desktop: desktop.to_string(),
        public_desktop: "C:\\Users\\Public\\Desktop".to_string(),
        root: "C:\\Users\\u\\AppData\\Local\\DeskIcons".to_string(),
        enabled: true,
        startup: false,
        manage_non_shortcuts: false,
        poll_ms: 750,
        journal_pending: true,
        current: Some("g2".to_string()),
        active: None,
        known: vec!["g1".to_string(), "g2".to_string()],
    }
}

#[test]
fn status_report_lines() {
    let lines = status_lines(&facts("C:\\Users\\u\\OneDrive\\Desktop"));
    assert_eq!(lines[0], "DeskIcons status");
    assert_eq!(lines[1], "  version:        0.1.7");
    assert_eq!(lines[6], "  enabled:        yes");
    assert_eq!(lines[7], "  startup:        no");
    assert_eq!(lines[8], "  manage files:   user Desktop shortcuts only");
    assert_eq!(lines[9], "  poll ms:        750");
    assert_eq!(lines[10], "  journal:        pending");
    assert_eq!(lines[11], "  warning:        Desktop path appears to be OneDrive-synced");
    assert_eq!(lines[13], "  current VD:     g2");
    assert_eq!(lines[14], "  active set:     <none>");
    assert_eq!(lines[15], "  known VDs:      2");
    assert_eq!(lines[16], "    [0] g1");
    assert_eq!(lines[17], "    [1] g2");
    assert_eq!(lines.len(), 18);
    let plain = status_lines(&facts("C:\\Users\\u\\Desktop"));
    assert_eq!(plain.len(), 17);
    assert!(plain[11].starts_with("  note:"));
}

#[test]
fn export_manifest_and_folder() {
    let lines = manifest_lines("2024-05-06 07:08:09", "D", "P", Some("g"), true);
    assert_eq!(
        lines,
        vec![
            "DeskIcons 0.1.7",
            "exported=2024-05-06 07:08:09",
            "user_desktop=D",
            "public_desktop=P",
            "managed_scope=user_desktop_only",
            "virtual_desktop_source=undocumented_explorer_registry_state",
            "current_virtual_desktop=g",
            "startup_enabled=1",
        ]
    );
    assert_eq!(manifest_lines("t", "D", "P", None, false).last().unwrap(), "startup_enabled=0");
    assert_eq!(export_folder_name("2024-05-06 07:08:09"), "deskicons-state-2024-05-06_07-08-09");
}

#[test]
fn restore_summaries() {
    let missing = vec!["a.lnk".to_string()];
    assert_eq!(
        restore_summary(2, 3, "g", &missing, 0),
        vec![
            "Matched 2 of 3 saved icon positions for g",
            "Missing from Explorer desktop view:",
            "  a.lnk",
            "Applied 2 saved icon positions.",
        ]
    );
    assert_eq!(
        restore_summary(1, 1, "g", &[], -2147467259),
        vec![
            "Matched 1 of 1 saved icon positions for g",
            "SelectAndPositionItems failed: HRESULT 0x80004005",
        ]
    );
    assert_eq!(
        restore_summary(0, 1, "g", &missing, 1)[3],
        "No positions were applied because no saved items matched the current desktop view."
    );
}

#[test]
fn usage_and_version() {
    assert_eq!(APP_VERSION, "0.1.7");
    assert!(usage().starts_with("DeskIcons 0.1.7\n\nUsage:\n  deskicons status\n"));
    assert!(usage().ends_with("Virtual desktop detection depends on undocumented Windows Explorer registry state."));
}

#[test]
fn uninstall_registry_entry() {
    let e = uninstall_entry("C:\\L\\DeskIcons", "C:\\L\\DeskIcons\\deskicons.exe");
    assert_eq!(e.display_name, "DeskIcons");
    assert_eq!(e.display_version, "0.1.7");
    assert_eq!(e.install_location, "C:\\L\\DeskIcons");
    assert_eq!(e.uninstall_string, "\"C:\\L\\DeskIcons\\deskicons.exe\" uninstall");
    assert_eq!(e.display_icon, "C:\\L\\DeskIcons\\deskicons.exe");
    assert_eq!((e.no_modify, e.no_repair), (1, 1));
}

#[test]
fn marker_files_round_trip() {
    let text = text_file_content("0a1b2c3d-0000-0000-0000-000000000001");
    assert_eq!(text, "0a1b2c3d-0000-0000-0000-000000000001\n");
    assert_eq!(trimmed_text(&text), Some("0a1b2c3d-0000-0000-0000-000000000001".to_string()));
}

#[test]
fn uninstall_is_refused_while_items_are_parked() {
    assert!(!parked_files_exist(&[0, 0]));
    assert!(parked_files_exist(&[0, 3]));
    assert!(check_uninstall("C:\\S", false).is_ok());
    let err = check_uninstall("C:\\S", true).unwrap_err();
    assert!(err.text().starts_with("Refusing to uninstall because parked desktop files still exist under C:\\S."));
}

#[test]
fn install_decisions_and_messages() {
    assert!(running_from_install_dir(Some("C:\\L\\DESKICONS"), Some("c:\\l\\deskicons")));
    assert!(!running_from_install_dir(None, Some("c:\\l")));
    assert!(!running_from_install_dir(Some("C:\\Downloads"), Some("C:\\L")));
    assert!(start_with_windows_choice(false, true, true));
    assert!(!start_with_windows_choice(true, true, true));
    assert!(!start_with_windows_choice(false, false, true));
    let s = strings_for(Language::En);
    assert_eq!(
        install_copy_error_text(s.install_copy_error_prefix, "a.exe", "b.exe"),
        "DeskIcons could not be installed:\n\nFrom: a.exe\nTo:   b.exe"
    );
    assert_eq!(
        error_log_message(&AppError::Message("disk full".to_string())),
        "ERROR disk full"
    );
}

#[test]
fn texts_in_both_languages() {
    let en = strings_for(Language::En);
    let de = strings_for(Language::De);
    assert_eq!(en.menu_exit, "Exit");
    assert_eq!(de.menu_exit, "Beenden");
    assert_eq!(de.msg_error_title, "DeskIcons Fehler");
    let d = install_dialog(Language::De, true);
    assert_eq!(d.title, "DeskIcons aktualisieren");
    assert_eq!(d.start_with_windows, None);
    let d = install_dialog(Language::En, false);
    assert_eq!(d.button, "Install");
    assert_eq!(d.start_with_windows, Some("Start automatically with Windows"));
}

#[test]
fn tray_menu_layout() {
    let menu = tray_menu(Language::En, true, false);
    assert_eq!(menu.len(), 11);
    assert_eq!(menu[0], MenuEntry::Item(MenuItem { id: 2001, label: "Enabled", checked: true }));
    assert_eq!(menu[1], MenuEntry::Separator);
    assert_eq!(
        menu[6],
        MenuEntry::Item(MenuItem { id: ID_TRAY_STARTUP, label: "Start with Windows", checked: false })
    );
    assert_eq!(menu[8], MenuEntry::LanguageSubmenu("Language"));
    assert_eq!(menu[10], MenuEntry::Item(MenuItem { id: ID_TRAY_EXIT, label: "Exit", checked: false }));
    let langs = language_menu(Language::De);
    assert_eq!(
        langs,
        vec![
            MenuItem { id: ID_TRAY_LANG_BASE, label: "English", checked: false },
            MenuItem { id: ID_TRAY_LANG_BASE + 1, label: "Deutsch", checked: true },
        ]
    );
}
