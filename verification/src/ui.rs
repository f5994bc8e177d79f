//! The texts of the user interface, and what the tray menu and the install
//! dialog show.
use vstd::prelude::*;
use crate::agent::{
    spec_tray_command, TrayCommand, ID_TRAY_ADOPT, ID_TRAY_ENABLE, ID_TRAY_EXIT, ID_TRAY_LANG_BASE, ID_TRAY_OPEN_STATE,
    ID_TRAY_RECOVER, ID_TRAY_RESTORE, ID_TRAY_STARTUP,
};
use crate::config::Language;

verus! {

/// The texts of the user interface in one language.
#[derive(Clone, Copy, Debug, PartialEq, Eq)]
pub struct Strings {
    pub install_title: &'static str,
    pub install_instruction: &'static str,
    pub install_content: &'static str,
    pub install_button: &'static str,
    pub install_start_with_windows: &'static str,
    pub install_fallback_content: &'static str,
    pub install_copy_error_prefix: &'static str,
    pub install_copy_error_title: &'static str,
    pub install_started_error: &'static str,
    pub update_title: &'static str,
    pub update_instruction: &'static str,
    pub update_content: &'static str,
    pub update_button: &'static str,
    pub update_fallback_content: &'static str,
    pub cancel_button: &'static str,
    pub menu_enabled: &'static str,
    pub menu_adopt: &'static str,
    pub menu_restore_layout: &'static str,
    pub menu_recover: &'static str,
    pub menu_open_state: &'static str,
    pub menu_startup: &'static str,
    pub menu_language: &'static str,
    pub menu_exit: &'static str,
    pub msg_adopt_ok: &'static str,
    pub msg_adopt_error: &'static str,
    pub msg_recover_nothing: &'static str,
    pub msg_title: &'static str,
    pub msg_error_title: &'static str,
    pub notif_active_title: &'static str,
    pub notif_installed: &'static str,
    pub notif_adopted: &'static str,
}

/// The English texts.
pub open spec fn english_strings() -> Strings {
    Strings {
        install_title: "Install DeskIcons",
        install_instruction: "Install DeskIcons for this user?",
        install_content: "DeskIcons needs to be installed under your local application data folder before it runs in the tray.",
        install_button: "Install",
        install_start_with_windows: "Start automatically with Windows",
        install_fallback_content: "Install DeskIcons under your local application data folder?",
        install_copy_error_prefix: "DeskIcons could not be installed:\n\n",
        install_copy_error_title: "Install DeskIcons",
        install_started_error: "DeskIcons was installed, but the installed copy could not be started.",
        update_title: "Update DeskIcons",
        update_instruction: "Update DeskIcons?",
        update_content: "Click Update to install the new version.",
        update_button: "Update",
        update_fallback_content: "Update DeskIcons in your local application data folder?",
        cancel_button: "Cancel",
        menu_enabled: "Enabled",
        menu_adopt: "Adopt Current Desktop",
        menu_restore_layout: "Restore Layout",
        menu_recover: "Recover Interrupted Swap",
        menu_open_state: "Open State Folder",
        menu_startup: "Start with Windows",
        menu_language: "Language",
        menu_exit: "Exit",
        msg_adopt_ok: "Current user Desktop adopted. Public Desktop icons remain unmanaged.",
        msg_adopt_error: "Could not determine the current virtual desktop.",
        msg_recover_nothing: "No interrupted swap journal exists.",
        msg_title: "DeskIcons",
        msg_error_title: "DeskIcons Error",
        notif_active_title: "DeskIcons is now active",
        notif_installed: "DeskIcons was installed and is running in the tray.",
        notif_adopted: "The current user Desktop was adopted for this virtual desktop. Public Desktop icons are unmanaged.",
    }
}

/// The German texts.
pub open spec fn german_strings() -> Strings {
    Strings {
        install_title: "DeskIcons installieren",
        install_instruction: "DeskIcons für diesen Benutzer installieren?",
        install_content: "DeskIcons muss in Ihrem lokalen App-Daten-Ordner installiert werden, bevor es im Infobereich ausgeführt werden kann.",
        install_button: "Installieren",
        install_start_with_windows: "Automatisch mit Windows starten",
        install_fallback_content: "DeskIcons im lokalen App-Daten-Ordner installieren?",
        install_copy_error_prefix: "DeskIcons konnte nicht installiert werden:\n\n",
        install_copy_error_title: "DeskIcons installieren",
        install_started_error: "DeskIcons wurde installiert, aber die installierte Version konnte nicht gestartet werden.",
        update_title: "DeskIcons aktualisieren",
        update_instruction: "DeskIcons aktualisieren?",
        update_content: "Klicken Sie auf 'Aktualisieren', um die neue Version zu installieren.",
        update_button: "Aktualisieren",
        update_fallback_content: "DeskIcons im lokalen App-Daten-Ordner aktualisieren?",
        cancel_button: "Abbrechen",
        menu_enabled: "Aktiviert",
        menu_adopt: "Aktuellen Desktop übernehmen",
        menu_restore_layout: "Layout wiederherstellen",
        menu_recover: "Unterbrochenen Tausch fortsetzen",
        menu_open_state: "Statusordner öffnen",
        menu_startup: "Mit Windows starten",
        menu_language: "Sprache",
        menu_exit: "Beenden",
        msg_adopt_ok: "Der Desktop des aktuellen Benutzers wurde übernommen. Öffentliche Desktop-Icons bleiben nicht verwaltet.",
        msg_adopt_error: "Der aktuelle virtuelle Desktop konnte nicht ermittelt werden.",
        msg_recover_nothing: "Kein unterbrochenes Tausch-Journal vorhanden.",
        msg_title: "DeskIcons",
        msg_error_title: "DeskIcons Fehler",
        notif_active_title: "DeskIcons ist jetzt aktiv",
        notif_installed: "DeskIcons wurde installiert und läuft im Infobereich.",
        notif_adopted: "Der aktuelle Desktop wurde für diesen virtual Desktop übernommen. Öffentliche Desktop-Icons sind nicht verwaltet.",
    }
}

/// The texts for a language.
pub open spec fn spec_strings(lang: Language) -> Strings {
    match lang {
        Language::En => english_strings(),
        Language::De => german_strings(),
    }
}

/// The texts of the user interface in `lang`.
pub fn strings_for(lang: Language) -> (s: Strings)
    ensures
        s == spec_strings(lang),
{
    match lang {
        Language::En => Strings {
            install_title: "Install DeskIcons",
            install_instruction: "Install DeskIcons for this user?",
            install_content: "DeskIcons needs to be installed under your local application data folder before it runs in the tray.",
            install_button: "Install",
            install_start_with_windows: "Start automatically with Windows",
            install_fallback_content: "Install DeskIcons under your local application data folder?",
            install_copy_error_prefix: "DeskIcons could not be installed:\n\n",
            install_copy_error_title: "Install DeskIcons",
            install_started_error: "DeskIcons was installed, but the installed copy could not be started.",
            update_title: "Update DeskIcons",
            update_instruction: "Update DeskIcons?",
            update_content: "Click Update to install the new version.",
            update_button: "Update",
            update_fallback_content: "Update DeskIcons in your local application data folder?",
            cancel_button: "Cancel",
            menu_enabled: "Enabled",
            menu_adopt: "Adopt Current Desktop",
            menu_restore_layout: "Restore Layout",
            menu_recover: "Recover Interrupted Swap",
            menu_open_state: "Open State Folder",
            menu_startup: "Start with Windows",
            menu_language: "Language",
            menu_exit: "Exit",
            msg_adopt_ok: "Current user Desktop adopted. Public Desktop icons remain unmanaged.",
            msg_adopt_error: "Could not determine the current virtual desktop.",
            msg_recover_nothing: "No interrupted swap journal exists.",
            msg_title: "DeskIcons",
            msg_error_title: "DeskIcons Error",
            notif_active_title: "DeskIcons is now active",
            notif_installed: "DeskIcons was installed and is running in the tray.",
            notif_adopted: "The current user Desktop was adopted for this virtual desktop. Public Desktop icons are unmanaged.",
        },
        Language::De => Strings {
            install_title: "DeskIcons installieren",
            install_instruction: "DeskIcons für diesen Benutzer installieren?",
            install_content: "DeskIcons muss in Ihrem lokalen App-Daten-Ordner installiert werden, bevor es im Infobereich ausgeführt werden kann.",
            install_button: "Installieren",
            install_start_with_windows: "Automatisch mit Windows starten",
            install_fallback_content: "DeskIcons im lokalen App-Daten-Ordner installieren?",
            install_copy_error_prefix: "DeskIcons konnte nicht installiert werden:\n\n",
            install_copy_error_title: "DeskIcons installieren",
            install_started_error: "DeskIcons wurde installiert, aber die installierte Version konnte nicht gestartet werden.",
            update_title: "DeskIcons aktualisieren",
            update_instruction: "DeskIcons aktualisieren?",
            update_content: "Klicken Sie auf 'Aktualisieren', um die neue Version zu installieren.",
            update_button: "Aktualisieren",
            update_fallback_content: "DeskIcons im lokalen App-Daten-Ordner aktualisieren?",
            cancel_button: "Abbrechen",
            menu_enabled: "Aktiviert",
            menu_adopt: "Aktuellen Desktop übernehmen",
            menu_restore_layout: "Layout wiederherstellen",
            menu_recover: "Unterbrochenen Tausch fortsetzen",
            menu_open_state: "Statusordner öffnen",
            menu_startup: "Mit Windows starten",
            menu_language: "Sprache",
            menu_exit: "Beenden",
            msg_adopt_ok: "Der Desktop des aktuellen Benutzers wurde übernommen. Öffentliche Desktop-Icons bleiben nicht verwaltet.",
            msg_adopt_error: "Der aktuelle virtuelle Desktop konnte nicht ermittelt werden.",
            msg_recover_nothing: "Kein unterbrochenes Tausch-Journal vorhanden.",
            msg_title: "DeskIcons",
            msg_error_title: "DeskIcons Fehler",
            notif_active_title: "DeskIcons ist jetzt aktiv",
            notif_installed: "DeskIcons wurde installiert und läuft im Infobereich.",
            notif_adopted: "Der aktuelle Desktop wurde für diesen virtual Desktop übernommen. Öffentliche Desktop-Icons sind nicht verwaltet.",
        },
    }
}

/// One item of the tray menu: its identifier, its text and whether it is checked.
#[derive(Clone, Copy, Debug, PartialEq, Eq)]
pub struct MenuItem {
    pub id: u16,
    pub label: &'static str,
    pub checked: bool,
}

/// One entry of the tray menu.
#[derive(Clone, Copy, Debug, PartialEq, Eq)]
pub enum MenuEntry {
    Item(MenuItem),
    Separator,
    /// The submenu of languages (see `language_menu`), under this label.
    LanguageSubmenu(&'static str),
}

/// An unchecked menu item.
pub open spec fn plain_item(id: u16, label: &'static str) -> MenuEntry {
    MenuEntry::Item(MenuItem { id, label, checked: false })
}

/// The tray menu: the enabled switch, the actions, the startup switch, the
/// languages, and exit.
pub open spec fn spec_tray_menu(s: Strings, enabled: bool, startup: bool) -> Seq<MenuEntry> {
    seq![
        MenuEntry::Item(MenuItem { id: ID_TRAY_ENABLE, label: s.menu_enabled, checked: enabled }),
        MenuEntry::Separator,
        plain_item(ID_TRAY_ADOPT, s.menu_adopt),
        plain_item(ID_TRAY_RESTORE, s.menu_restore_layout),
        plain_item(ID_TRAY_RECOVER, s.menu_recover),
        plain_item(ID_TRAY_OPEN_STATE, s.menu_open_state),
        MenuEntry::Item(MenuItem { id: ID_TRAY_STARTUP, label: s.menu_startup, checked: startup }),
        MenuEntry::Separator,
        MenuEntry::LanguageSubmenu(s.menu_language),
        MenuEntry::Separator,
        plain_item(ID_TRAY_EXIT, s.menu_exit),
    ]
}

/// The entries of the tray menu in `lang`, with the enabled and startup
/// items checked as given.
pub fn tray_menu(lang: Language, enabled: bool, startup: bool) -> (r: Vec<MenuEntry>)
    ensures
        r@ == spec_tray_menu(spec_strings(lang), enabled, startup),
{
    let s = strings_for(lang);
    let mut r: Vec<MenuEntry> = Vec::new();
    r.push(MenuEntry::Item(MenuItem { id: ID_TRAY_ENABLE, label: s.menu_enabled, checked: enabled }));
    r.push(MenuEntry::Separator);
    r.push(MenuEntry::Item(MenuItem { id: ID_TRAY_ADOPT, label: s.menu_adopt, checked: false }));
    r.push(
        MenuEntry::Item(MenuItem { id: ID_TRAY_RESTORE, label: s.menu_restore_layout, checked: false }),
    );
    r.push(MenuEntry::Item(MenuItem { id: ID_TRAY_RECOVER, label: s.menu_recover, checked: false }));
    r.push(
        MenuEntry::Item(MenuItem { id: ID_TRAY_OPEN_STATE, label: s.menu_open_state, checked: false }),
    );
    r.push(MenuEntry::Item(MenuItem { id: ID_TRAY_STARTUP, label: s.menu_startup, checked: startup }));
    r.push(MenuEntry::Separator);
    r.push(MenuEntry::LanguageSubmenu(s.menu_language));
    r.push(MenuEntry::Separator);
    r.push(MenuEntry::Item(MenuItem { id: ID_TRAY_EXIT, label: s.menu_exit, checked: false }));
    assert(r@ =~= spec_tray_menu(spec_strings(lang), enabled, startup));
    r
}

/// What a menu text in the texts `s` asks for.
pub open spec fn label_command(s: Strings, label: Seq<char>) -> TrayCommand {
    if label == s.menu_enabled@ {
        TrayCommand::ToggleEnabled
    } else if label == s.menu_adopt@ {
        TrayCommand::AdoptCurrent
    } else if label == s.menu_restore_layout@ {
        TrayCommand::RestoreLayout
    } else if label == s.menu_recover@ {
        TrayCommand::Recover
    } else if label == s.menu_open_state@ {
        TrayCommand::OpenStateFolder
    } else if label == s.menu_startup@ {
        TrayCommand::ToggleStartup
    } else if label == s.menu_exit@ {
        TrayCommand::Exit
    } else {
        TrayCommand::Ignore
    }
}

proof fn lemma_menu_labels_revealed(lang: Language)
    ensures
        spec_strings(lang).menu_enabled@ == (if lang == Language::En { "Enabled"@ } else { "Aktiviert"@ }),
        spec_strings(lang).menu_adopt@ == (if lang == Language::En {
            "Adopt Current Desktop"@
        } else {
            "Aktuellen Desktop übernehmen"@
        }),
        spec_strings(lang).menu_restore_layout@ == (if lang == Language::En {
            "Restore Layout"@
        } else {
            "Layout wiederherstellen"@
        }),
        spec_strings(lang).menu_recover@ == (if lang == Language::En {
            "Recover Interrupted Swap"@
        } else {
            "Unterbrochenen Tausch fortsetzen"@
        }),
        spec_strings(lang).menu_open_state@ == (if lang == Language::En {
            "Open State Folder"@
        } else {
            "Statusordner öffnen"@
        }),
        spec_strings(lang).menu_startup@ == (if lang == Language::En {
            "Start with Windows"@
        } else {
            "Mit Windows starten"@
        }),
        spec_strings(lang).menu_exit@ == (if lang == Language::En { "Exit"@ } else { "Beenden"@ }),
{
}

/// Every item of the tray menu, in either language, does what its text says:
/// the command of its identifier is the one its text names (the enabled
/// switch toggles enabling, "Restore Layout" restores the layout, "Recover
/// Interrupted Swap" recovers, and so on), and each item of the languages
/// submenu switches to the language it is named in.
pub proof fn lemma_menu_items_do_what_they_say(lang: Language, enabled: bool, startup: bool, current: Language)
    ensures
        forall|i: int|
            0 <= i < spec_tray_menu(spec_strings(lang), enabled, startup).len() ==> (
            #[trigger] spec_tray_menu(spec_strings(lang), enabled, startup)[i] matches MenuEntry::Item(
                it,
            ) ==> spec_tray_command(it.id) == label_command(spec_strings(lang), it.label@)),
        forall|i: int|
            0 <= i < spec_language_menu(current).len() ==> spec_tray_command(
                (#[trigger] spec_language_menu(current)[i]).id,
            ) == TrayCommand::SetLanguage(
                if spec_language_menu(current)[i].label@ == "English"@ {
                    Language::En
                } else {
                    Language::De
                },
            ),
{
    let s = spec_strings(lang);
    let m = spec_tray_menu(s, enabled, startup);
    lemma_menu_labels_revealed(lang);
    reveal_strlit("Enabled");
    reveal_strlit("Aktiviert");
    reveal_strlit("Adopt Current Desktop");
    reveal_strlit("Aktuellen Desktop übernehmen");
    reveal_strlit("Restore Layout");
    reveal_strlit("Layout wiederherstellen");
    reveal_strlit("Recover Interrupted Swap");
    reveal_strlit("Unterbrochenen Tausch fortsetzen");
    reveal_strlit("Open State Folder");
    reveal_strlit("Statusordner öffnen");
    reveal_strlit("Start with Windows");
    reveal_strlit("Mit Windows starten");
    reveal_strlit("Exit");
    reveal_strlit("Beenden");
    reveal_strlit("English");
    reveal_strlit("Deutsch");
    let ls = seq![
        s.menu_enabled@,
        s.menu_adopt@,
        s.menu_restore_layout@,
        s.menu_recover@,
        s.menu_open_state@,
        s.menu_startup@,
        s.menu_exit@,
    ];
    assert forall|a: int, b: int| 0 <= a < b < 7 implies #[trigger] ls[a] != #[trigger] ls[b] by {
        if ls[a].len() == ls[b].len() {
            assert(ls[a][0] != ls[b][0] || ls[a][1] != ls[b][1]);
        }
    }
    assert("English"@[0] != "Deutsch"@[0]);
}

/// The languages submenu: English, then German, each named in itself, the
/// current one checked.
pub open spec fn spec_language_menu(current: Language) -> Seq<MenuItem> {
    seq![
        MenuItem { id: ID_TRAY_LANG_BASE, label: "English", checked: current == Language::En },
        MenuItem {
            id: (ID_TRAY_LANG_BASE + 1) as u16,
            label: "Deutsch",
            checked: current == Language::De,
        },
    ]
}

/// The items of the languages submenu, with `current` checked.
pub fn language_menu(current: Language) -> (r: Vec<MenuItem>)
    ensures
        r@ == spec_language_menu(current),
{
    let mut r: Vec<MenuItem> = Vec::new();
    r.push(MenuItem { id: ID_TRAY_LANG_BASE, label: "English", checked: current == Language::En });
    r.push(MenuItem { id: ID_TRAY_LANG_BASE + 1, label: "Deutsch", checked: current == Language::De });
    assert(r@ =~= spec_language_menu(current));
    r
}

/// What the install (or update) dialog shows.
#[derive(Clone, Copy, Debug, PartialEq, Eq)]
pub struct InstallDialog {
    pub title: &'static str,
    pub instruction: &'static str,
    pub content: &'static str,
    pub button: &'static str,
    pub cancel: &'static str,
    /// The question asked instead when the dialog cannot be shown.
    pub fallback_content: &'static str,
    /// The text of the start-with-Windows check box; an update has none.
    pub start_with_windows: Option<&'static str>,
}

/// The install dialog for a first install, or the update dialog.
pub open spec fn spec_install_dialog(s: Strings, is_update: bool) -> InstallDialog {
    if is_update {
        InstallDialog {
            title: s.update_title,
            instruction: s.update_instruction,
            content: s.update_content,
            button: s.update_button,
            cancel: s.cancel_button,
            fallback_content: s.update_fallback_content,
            start_with_windows: None,
        }
    } else {
        InstallDialog {
            title: s.install_title,
            instruction: s.install_instruction,
            content: s.install_content,
            button: s.install_button,
            cancel: s.cancel_button,
            fallback_content: s.install_fallback_content,
            start_with_windows: Some(s.install_start_with_windows),
        }
    }
}

/// The texts of the install or update dialog in `lang`.
pub fn install_dialog(lang: Language, is_update: bool) -> (d: InstallDialog)
    ensures
        d == spec_install_dialog(spec_strings(lang), is_update),
{
    let s = strings_for(lang);
    if is_update {
        InstallDialog {
            title: s.update_title,
            instruction: s.update_instruction,
            content: s.update_content,
            button: s.update_button,
            cancel: s.cancel_button,
            fallback_content: s.update_fallback_content,
            start_with_windows: None,
        }
    } else {
        InstallDialog {
            title: s.install_title,
            instruction: s.install_instruction,
            content: s.install_content,
            button: s.install_button,
            cancel: s.cancel_button,
            fallback_content: s.install_fallback_content,
            start_with_windows: Some(s.install_start_with_windows),
        }
    }
}

/// Whether the installed copy starts with Windows: only a first install
/// whose dialog was shown and whose check box was left checked.
pub fn start_with_windows_choice(is_update: bool, dialog_shown: bool, checked: bool) -> (r: bool)
    ensures
        r == (dialog_shown && !is_update && checked),
{
    dialog_shown && !is_update && checked
}

} // verus!
