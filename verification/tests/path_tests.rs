use deskicons::{
    extension, file_name, is_under_dir, join_name, path_equal_ci, relative_name_for_desktop_item,
};

#[test]
fn relative_name_handles_unicode_children() {
    let desktop = "C:\\Temp\\deskicons-path-unicode";
    let item = format!("{desktop}\\folder\\ä-東京-😀.txt");

    assert_eq!(relative_name_for_desktop_item(&item, desktop), "folder\\ä-東京-😀.txt");
}

#[test]
fn containment_rejects_sibling_paths() {
    let parent = "C:\\Temp\\deskicons-path-parent";
    let sibling = format!("{parent}-sibling");

    assert!(!is_under_dir(&format!("{sibling}\\file.txt"), parent, true));
}

#[test]
fn containment_is_by_component_and_case_insensitive() {
    assert!(is_under_dir("C:\\Users\\A\\Desktop\\x.lnk", "c:\\users\\a\\desktop", true));
    assert!(is_under_dir("C:\\D", "c:\\d", false));
    assert!(!is_under_dir("C:\\D", "c:\\d", true));
    assert!(!is_under_dir("C:\\", "C:\\D", false));
    assert_eq!(relative_name_for_desktop_item("C:\\D", "C:\\D"), "");
    assert_eq!(relative_name_for_desktop_item("C:\\E\\x", "C:\\D"), "");
    assert_eq!(relative_name_for_desktop_item("c:\\d\\sub\\x.txt", "C:\\D"), "sub\\x.txt");
}

#[test]
fn file_names_and_extensions() {
    let s = |v: Option<Vec<char>>| v.map(|c| c.into_iter().collect::<String>());
    assert_eq!(s(file_name("C:\\a\\b.TXT")), Some("b.TXT".to_string()));
    assert_eq!(s(file_name("C:\\a\\")), Some("a".to_string()));
    assert_eq!(s(file_name("C:\\a\\..")), None);
    assert_eq!(s(extension("C:\\a\\b.tar.gz")), Some("gz".to_string()));
    assert_eq!(s(extension("C:\\a\\.profile")), None);
    assert_eq!(s(extension("C:\\a\\b")), None);
    assert!(path_equal_ci("ÄBC.lnk", "Äbc.LNK"));
    assert!(!path_equal_ci("Äbc", "äbc"));
    assert_eq!(join_name("C:\\D", &['x']), "C:\\D\\x");
    assert_eq!(join_name("C:\\D\\", &['x']), "C:\\D\\x");
    assert_eq!(join_name("", &['x']), "x");
}

#[test]
fn containment_compares_ancestor_texts() {
    // A parent written with a trailing separator is no ancestor's text.
    assert!(!is_under_dir("a\\b", "a\\", true));
    assert_eq!(relative_name_for_desktop_item("a\\b", "a\\"), "");
    assert!(is_under_dir("a\\b", "A", true));
    assert_eq!(relative_name_for_desktop_item("a\\b\\c", "A"), "b\\c");
    // Ancestors of a drive path end at the root; of a share, at the share.
    assert!(is_under_dir("C:\\x", "c:\\", true));
    assert!(!is_under_dir("C:\\x", "C:", true));
    assert!(is_under_dir("\\\\srv\\share\\x\\y", "\\\\SRV\\share\\", true));
    assert!(!is_under_dir("\\\\srv\\share\\x", "\\\\srv", true));
    assert_eq!(relative_name_for_desktop_item("\\\\?\\C:\\D\\a.lnk", "\\\\?\\c:\\d"), "a.lnk");
    // Skipped `.` components and repeated separators.
    assert!(is_under_dir("C:\\D\\.\\\\x", "C:\\D", true));
    assert_eq!(relative_name_for_desktop_item("C:\\D\\.\\\\x", "C:\\D"), "x");
    // Relative paths have the empty path as their last ancestor.
    assert!(is_under_dir("a", "", true));
    assert!(!is_under_dir("", "", true));
}
