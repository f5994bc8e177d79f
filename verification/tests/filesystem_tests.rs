use deskicons::{
    child_entries, finish_move_set, is_skipped_desktop_entry, move_completed_or_finish, moves_from_to,
    rollback_move_set, should_manage_entry, validate_moves, MoveAction, PlannedMove,
};

fn mv(from: &str, to: &str) -> PlannedMove {
    PlannedMove { from: from.to_string(), to: to.to_string() }
}

#[test]
fn shortcut_only_policy_is_case_insensitive() {
    assert!(should_manage_entry("App.LNK", false));
    assert!(!should_manage_entry("notes.txt", false));
    assert!(should_manage_entry("notes.txt", true));
}

#[test]
fn shortcut_policy_looks_at_the_file_name() {
    assert!(should_manage_entry("C:\\Users\\u\\Desktop\\Tool.lnk", false));
    assert!(!should_manage_entry("C:\\Users\\u\\Desktop\\.lnk", false));
    assert!(!should_manage_entry("C:\\dir.lnk\\file", false));
}

#[test]
fn desktop_ini_is_skipped_in_any_case() {
    assert!(is_skipped_desktop_entry("C:\\Users\\u\\Desktop\\Desktop.ini"));
    assert!(is_skipped_desktop_entry("desktop.INI"));
    assert!(!is_skipped_desktop_entry("C:\\Users\\u\\Desktop\\a.txt"));
}

#[test]
fn filesystem_recovery_errors_when_both_move_paths_are_missing() {
    let base = "/tmp/deskicons-fs-missing";
    let m = mv(&format!("{base}/missing-source"), &format!("{base}/missing-destination"));
    let err = move_completed_or_finish(&m, false, false).unwrap_err();
    assert!(err.text().contains("Recovery lost both source and destination"));
}

#[test]
fn main_recovery_errors_when_both_move_paths_are_missing() {
    let base = "/tmp/deskicons-test";
    let m = mv(&format!("{base}/missing-source"), &format!("{base}/missing-destination"));
    let err = move_completed_or_finish(&m, false, false).unwrap_err();
    assert!(err.text().contains("Recovery lost both source and destination"));
}

#[test]
fn recovery_decides_each_move_by_what_exists() {
    let m = mv("a", "b");
    assert_eq!(move_completed_or_finish(&m, true, false).unwrap(), MoveAction::MoveNow);
    assert_eq!(move_completed_or_finish(&m, false, true).unwrap(), MoveAction::AlreadyDone);
    let err = move_completed_or_finish(&m, true, true).unwrap_err();
    assert_eq!(err.text(), "Recovery conflict: both source and destination exist for a");
    let err = move_completed_or_finish(&m, false, false).unwrap_err();
    assert_eq!(err.text(), "Recovery lost both source and destination: a -> b");
}

#[test]
fn validate_moves_rejects_overwrite() {
    let moves = [mv("/tmp/overwrite/from.txt", "/tmp/overwrite/to.txt")];
    let err = validate_moves(&moves, &[true], &[true]).unwrap_err();
    assert!(err.text().contains("Refusing to overwrite"));
}

#[test]
fn validate_moves_reports_the_first_problem() {
    let moves = [mv("a", "b"), mv("c", "d"), mv("e", "f")];
    assert!(validate_moves(&moves, &[true, true, true], &[false, false, false]).is_ok());
    let err = validate_moves(&moves, &[true, false, true], &[false, false, true]).unwrap_err();
    assert_eq!(err.text(), "Source disappeared before move: c");
    let err = validate_moves(&moves, &[true, true, true], &[false, false, true]).unwrap_err();
    assert_eq!(err.text(), "Refusing to overwrite existing path: f");
}

#[test]
fn rollback_reverses_order_and_direction() {
    let moves = [mv("a", "b"), mv("c", "d")];
    assert_eq!(finish_move_set(&moves), moves.to_vec());
    assert_eq!(rollback_move_set(&moves), vec![mv("d", "c"), mv("b", "a")]);
}

#[test]
fn moves_carry_managed_entries_under_their_names() {
    let entries = vec![
        "C:\\D\\a.lnk".to_string(),
        "C:\\D\\b.txt".to_string(),
        "C:\\D\\c.LNK".to_string(),
    ];
    let moves = moves_from_to(&entries, "C:\\S\\g\\files", false);
    assert_eq!(
        moves,
        vec![mv("C:\\D\\a.lnk", "C:\\S\\g\\files\\a.lnk"), mv("C:\\D\\c.LNK", "C:\\S\\g\\files\\c.LNK")]
    );
    assert_eq!(moves_from_to(&entries, "C:\\S\\", true).len(), 3);
    assert_eq!(moves_from_to(&entries, "C:\\S\\", true)[1].to, "C:\\S\\b.txt");
}

#[test]
fn child_entries_skips_desktop_ini_and_sorts() {
    let listed: Vec<String> = ["children\\z.txt", "children\\Desktop.ini", "children\\a.txt"]
        .iter()
        .map(|p| p.to_string())
        .collect();
    let entries: Vec<String> = child_entries(&listed)
        .into_iter()
        .map(|path| path.rsplit('\\').next().unwrap().to_string())
        .collect();
    assert_eq!(entries, vec!["a.txt", "z.txt"]);
}

#[test]
fn child_entries_order_by_code_point() {
    let listed: Vec<String> = ["d\\b", "d\\DESKTOP.INI", "d\\B", "d\\ä", "d\\a.lnk", "d\\a"]
        .iter()
        .map(|p| p.to_string())
        .collect();
    assert_eq!(child_entries(&listed), vec!["d\\B", "d\\a", "d\\a.lnk", "d\\b", "d\\ä"]);
    assert!(child_entries(&[]).is_empty());
}
