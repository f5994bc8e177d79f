use deskicons::{
    app_enabled, language_code, language_for_langid, language_from_code, parse_config,
    render_config, text_lines, trim_ascii, trimmed_text, Config, Language,
};

fn parse_text(text: &str) -> Config {
    parse_config(&text_lines(text))
}

#[test]
fn config_parser_clamps_poll_and_reads_language() {
    let config =
        parse_text("enabled=0\nmanage_non_shortcuts=0\npoll_ms=5\nlanguage=de\nunknown=ignored\n");

    assert!(!config.enabled);
    assert!(!config.manage_non_shortcuts);
    assert_eq!(config.poll_ms, 250);
    assert_eq!(config.language, Some(Language::De));
}

#[test]
fn config_save_round_trips_values() {
    let config = Config {
        enabled: false,
        manage_non_shortcuts: false,
        poll_ms: 1250,
        language: Some(Language::En),
    };

    let text = render_config(&config);

    assert_eq!(parse_text(&text), config);
}

#[test]
fn config_defaults_and_comments() {
    assert_eq!(parse_text(""), Config::default());
    assert_eq!(Config::default().poll_ms, 750);
    let config = parse_text("# enabled=0\n; poll_ms=300\n  poll_ms = 99999 \r\nbogus\n");
    assert!(config.enabled);
    assert_eq!(config.poll_ms, 10_000);
    assert_eq!(parse_text("poll_ms=abc").poll_ms, 750);
    assert_eq!(parse_text("poll_ms=+400").poll_ms, 400);
    assert_eq!(parse_text("poll_ms=99999999999999999999999").poll_ms, 750);
    assert_eq!(parse_text("language=fr").language, Some(Language::En));
    assert!(parse_text("enabled=no").enabled);
}

#[test]
fn config_text_is_key_value_lines() {
    let config = Config {
        enabled: true,
        manage_non_shortcuts: false,
        poll_ms: 300,
        language: None,
    };
    assert_eq!(
        render_config(&config),
        "enabled=1\nmanage_non_shortcuts=0\npoll_ms=300\n"
    );
}

#[test]
fn language_codes_round_trip() {
    assert_eq!(language_code(Language::En), "en");
    assert_eq!(language_code(Language::De), "de");
    for lang in [Language::En, Language::De] {
        assert_eq!(language_from_code(language_code(lang)), lang);
    }
    assert_eq!(language_from_code("DE"), Language::En);
    assert_eq!(language_for_langid(0x0407), Language::De);
    assert_eq!(language_for_langid(0x0409), Language::En);
}

#[test]
fn trimming_ascii_whitespace() {
    assert_eq!(trim_ascii(" \t a b \r\n"), "a b");
    assert_eq!(trim_ascii("\u{a0}x\u{a0}"), "\u{a0}x\u{a0}");
    assert_eq!(trimmed_text("  guid-1 \n"), Some("guid-1".to_string()));
    assert_eq!(trimmed_text(" \n "), None);
}

#[test]
fn agent_runs_only_when_enabled_and_not_marked_disabled() {
    let config = Config::default();
    assert!(app_enabled(&config, false));
    assert!(!app_enabled(&config, true));
    let off = Config { enabled: false, ..config };
    assert!(!app_enabled(&off, false));
}

#[test]
fn config_round_trip_clamps_out_of_range_poll() {
    for (poll_ms, expected) in [(5u64, 250u64), (99_999, 10_000), (250, 250), (10_000, 10_000)] {
        let config = Config {
            enabled: true,
            manage_non_shortcuts: false,
            poll_ms,
            language: Some(Language::De),
        };
        let back = parse_config(&text_lines(&render_config(&config)));
        assert_eq!(back.poll_ms, expected);
        assert!(back.enabled);
        assert!(!back.manage_non_shortcuts);
        assert_eq!(back.language, Some(Language::De));
    }
}
