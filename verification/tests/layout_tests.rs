use deskicons::{
    count_matched, layout_wait_over, positions_to_apply, saved_layout_line, sort_layout_entries,
    encode_layout_name, layout_line, load_layout_lines, match_layout, text_lines, IconPosition,
};

fn position(entries: &[(String, IconPosition)], name: &str) -> Option<IconPosition> {
    entries.iter().find(|(n, _)| n == name).map(|(_, p)| *p)
}

#[test]
fn load_layout_file_decodes_unicode_names_and_skips_bad_lines() {
    let text = format!(
        "{}\t10\t20\nbad-line\n{}\tx\t1\n",
        encode_layout_name("ä-東京-😀.txt"),
        encode_layout_name("bad.txt")
    );

    let (layout, skipped) = load_layout_lines(&text_lines(&text));

    assert_eq!(position(&layout, "ä-東京-😀.txt"), Some(IconPosition { x: 10, y: 20 }));
    assert_eq!(skipped, 2);
}

#[test]
fn layout_lines_round_trip_and_later_lines_win() {
    let a = IconPosition { x: -5, y: 2147483647 };
    let b = IconPosition { x: 0, y: -2147483648 };
    let text = format!(
        "{}\n{}\n{}\n",
        layout_line("dir\\a b.lnk", a),
        layout_line("c\t%.txt", b),
        layout_line("dir\\a b.lnk", b)
    );
    assert_eq!(layout_line("a b", IconPosition { x: 1, y: -2 }), "a b\t1\t-2");
    let (layout, skipped) = load_layout_lines(&text_lines(&text));
    assert_eq!(skipped, 0);
    assert_eq!(layout.len(), 2);
    assert_eq!(position(&layout, "dir\\a b.lnk"), Some(b));
    assert_eq!(position(&layout, "c\t%.txt"), Some(b));
}

#[test]
fn layout_numbers_are_parsed_as_i32() {
    let (layout, skipped) = load_layout_lines(&text_lines("a\t+3\t4\textra\nb\t2147483648\t0\nc\t1\n"));
    assert_eq!(position(&layout, "a"), Some(IconPosition { x: 3, y: 4 }));
    assert_eq!(skipped, 2);
}

#[test]
fn saved_names_are_matched_to_the_last_visible_item() {
    let saved = vec!["a".to_string(), "b".to_string(), "z".to_string()];
    let visible = vec!["b".to_string(), "a".to_string(), "b".to_string()];
    assert_eq!(match_layout(&saved, &visible), vec![Some(1), Some(2), None]);
}

#[test]
fn saving_and_waiting_for_layouts() {
    let pos = IconPosition { x: 3, y: 4 };
    assert_eq!(saved_layout_line("C:\\D\\sub\\a b.lnk", "C:\\D", pos), Some("sub\\a b.lnk\t3\t4".to_string()));
    assert_eq!(saved_layout_line("C:\\E\\a.lnk", "C:\\D", pos), None);
    assert_eq!(saved_layout_line("C:\\D", "C:\\D", pos), None);
    assert_eq!(count_matched(&[Some(1), None, Some(0)]), 2);
    assert!(layout_wait_over(3, 3, 0));
    assert!(!layout_wait_over(2, 3, 9999));
    assert!(layout_wait_over(2, 3, 10000));
}

#[test]
fn restored_positions_come_in_name_order() {
    let p = |x: i32| IconPosition { x, y: 0 };
    let entries = vec![
        ("b".to_string(), p(1)),
        ("ä".to_string(), p(2)),
        ("B".to_string(), p(3)),
        ("ab".to_string(), p(4)),
        ("a".to_string(), p(5)),
    ];
    let sorted = sort_layout_entries(&entries);
    let names: Vec<&str> = sorted.iter().map(|(n, _)| n.as_str()).collect();
    let mut expected: Vec<&str> = entries.iter().map(|(n, _)| n.as_str()).collect();
    expected.sort();
    assert_eq!(names, expected);
    assert_eq!(names, vec!["B", "a", "ab", "b", "ä"]);
    assert_eq!(sorted[4], ("ä".to_string(), p(2)));
}

#[test]
fn positions_pair_saved_entries_with_matches() {
    let layout = vec![
        ("a.lnk".to_string(), IconPosition { x: 10, y: 20 }),
        ("gone.txt".to_string(), IconPosition { x: 1, y: 2 }),
        ("b.lnk".to_string(), IconPosition { x: -5, y: 7 }),
    ];
    let (found, missing) = positions_to_apply(&layout, &[Some(4), None, Some(0)]);
    assert_eq!(found, vec![(4, IconPosition { x: 10, y: 20 }), (0, IconPosition { x: -5, y: 7 })]);
    assert_eq!(missing, vec!["gone.txt".to_string()]);
    let (found, missing) = positions_to_apply(&layout, &[None]);
    assert!(found.is_empty());
    assert_eq!(missing, vec!["a.lnk".to_string()]);
    let (found, missing) = positions_to_apply(&[], &[Some(1)]);
    assert!(found.is_empty() && missing.is_empty());
}
