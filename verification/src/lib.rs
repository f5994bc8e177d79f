//! Verified core logic of DeskIcons: per-virtual-desktop sets of Desktop items.
pub mod agent;
pub mod cli;
pub mod config;
pub mod encoding;
pub mod error;
pub mod filesystem;
pub mod guid;
pub mod journal;
pub mod layout;
pub mod path_logic;
pub mod recovery;
pub mod report;
pub mod setup;
pub mod swap;
pub mod text;
pub mod ui;
pub mod winpath;

pub use agent::{
    command_needs_single_instance, copy_wide_truncated, is_app_executable, session_desktops_key,
    uninstall_command_for, desktop_looks_onedrive, export_stamp,
    language_menu_id, layout_file_path, needs_undo, plan_swap, set_files_dir, startup_command_for,
    swapped_moves, switch_decision, tray_command_for, watch_outcome, watch_wait, CoApartment,
    DesktopTracker, WatchOutcome, WatchWait,
    SwitchDecision, TrayCommand, ID_TRAY_ADOPT, ID_TRAY_ENABLE, ID_TRAY_EXIT, ID_TRAY_LANG_BASE,
    ID_TRAY_OPEN_STATE, ID_TRAY_RECOVER, ID_TRAY_RESTORE, ID_TRAY_STARTUP, RPC_E_CHANGED_MODE,
};
pub use cli::{parse_cli, CliCommand, CliError};
pub use config::{
    app_enabled, language_code, language_for_langid, language_from_code, parse_config,
    render_config, str_equal, trim_ascii, trimmed_text, Config, Language,
};
pub use encoding::{
    decode_path, encode_layout_name, encode_path, is_decodable, percent_decode, percent_encode,
};
pub use error::AppError;
pub use filesystem::{
    child_entries, finish_move_set, move_completed_or_finish, rollback_move_set, validate_moves, MoveAction,
    PlannedMove,
};
pub use guid::{guid_from_bytes, guid_to_string, guids_from_bytes, Guid};
pub use journal::{
    journal_lines_decodable, read_journal, recover_journal_core, render_journal, Journal, JournalStage, JournalStore,
    RecoveryOutcome, RecoveryPlan,
};
pub use layout::{
    count_matched, layout_line, positions_to_apply, layout_lines_decodable, layout_wait_over, load_layout_lines, match_layout, saved_layout_line,
    sort_layout_entries, IconPosition, LAYOUT_WAIT_MS,
};
pub use swap::{MoveBatch, MoveSet, SwapAction, SwapRun, SwapSide, SwapState};
pub use path_logic::{
    extension, file_name, is_skipped_desktop_entry, is_under_dir, join_name, moves_from_to,
    path_equal_ci, relative_name_for_desktop_item, should_manage_entry,
};
pub use recovery::{RecoveryAction, RecoveryRun, RecoveryStage};
pub use setup::{InstallAction, InstallRun, InstallState, COPY_ATTEMPTS, COPY_RETRY_MS};
pub use report::{
    check_uninstall, error_log_message, export_folder_name, install_copy_error_text,
    manifest_lines, parked_files_exist, restore_summary, running_from_install_dir, status_lines,
    text_file_content, uninstall_entry, usage, StatusFacts, UninstallEntry, APP_VERSION,
};
pub use text::{chars_of, text_lines};
pub use ui::{
    install_dialog, language_menu, start_with_windows_choice, strings_for, tray_menu,
    InstallDialog, MenuEntry, MenuItem, Strings,
};
