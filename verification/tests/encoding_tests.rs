use deskicons::{
    decode_path, encode_layout_name, encode_path, is_decodable, journal_lines_decodable,
    layout_lines_decodable, percent_decode, percent_encode, text_lines,
};

#[test]
fn percent_encoding_round_trips_unicode_names() {
    let value = r#"Desktop\ä-東京-😀 %.txt"#;
    let encoded = percent_encode(value);
    assert_ne!(encoded, value);
    assert_eq!(percent_decode(&encoded), value);
    assert!(encoded.contains("%C3%A4"));
    assert!(encoded.contains("%F0%9F%98%80"));
}

#[test]
fn percent_encoding_keeps_unreserved_bytes() {
    assert_eq!(percent_encode("C:\\Users/a b_c-d.e"), "C:\\Users/a b_c-d.e");
    assert_eq!(percent_encode("%\t\n\r+"), "%25%09%0A%0D%2B");
    assert_eq!(percent_encode(""), "");
}

#[test]
fn percent_decoding_leaves_invalid_escapes() {
    assert_eq!(percent_decode("%zz"), "%zz");
    assert_eq!(percent_decode("%4"), "%4");
    assert_eq!(percent_decode("100%"), "100%");
    assert_eq!(percent_decode("%41%62"), "Ab");
    // std's hex parser accepts a leading plus sign.
    assert_eq!(percent_decode("%+9"), "\u{9}");
}

#[test]
fn percent_decoding_of_invalid_utf8_is_lossy() {
    assert_eq!(percent_decode("a%FFb"), "a\u{FFFD}b");
}

#[test]
fn path_and_layout_name_encodings_round_trip() {
    let path = "C:\\Users\\ä\\Desktop\\%tab\there.lnk";
    assert_eq!(decode_path(&encode_path(path)), path);
    assert_eq!(encode_layout_name("ä"), "%C3%A4");
}

#[test]
fn decoding_is_refused_where_it_would_cut_a_character() {
    assert!(is_decodable("%41%C3%A4 plain"));
    assert!(is_decodable("%é"));
    assert!(!is_decodable("%aé"));
    assert!(is_decodable("%41é"));
    assert!(is_decodable("%zzé"));
    assert!(journal_lines_decodable(&text_lines("stage\tbogus\nout\t%aé\tb\n")));
    assert!(!journal_lines_decodable(&text_lines("out\t%aé\tb\n")));
    assert!(layout_lines_decodable(&text_lines("%aé\tx\t1\n")));
    assert!(!layout_lines_decodable(&text_lines("%aé\t1\t1\n")));
}

#[test]
fn percent_encoding_of_joined_text_joins_encodings() {
    for (a, b) in [("C:\\Desk top\\", "ä#1.txt"), ("", "%x"), ("100%", ""), ("東京", "😀\t")] {
        let joined = format!("{a}{b}");
        assert_eq!(percent_encode(&joined), percent_encode(a) + &percent_encode(b));
    }
    assert_eq!(percent_encode(r"C:\Desktop\a b.txt"), r"C:\Desktop\a b.txt");
}
