//! The settings file: `key=value` lines for `enabled`, `manage_non_shortcuts`,
//! `poll_ms` and `language`.
use vstd::prelude::*;
use vstd::string::StrSliceExecFns;
use crate::text::{
    chars_equal_str, chars_of, copy_range, find_char, is_plain_line, join_lines, lemma_find_char,
    lemma_lines_of_join, lemma_join_lines_push, lemma_parse_u64_decimal, lemma_trim_plain, parse_u64, push_decimal,
    push_str, spec_lines, spec_parse_u64, spec_trim, string_from_chars, string_views, trim_chars,
    trim_range, decimal, lemma_decimal_digits, is_ascii_ws, has_char,
};

verus! {

/// The languages of the user interface.
#[derive(Clone, Copy, Debug, PartialEq, Eq, Structural)]
pub enum Language {
    En,
    De,
}

/// The code under which a language is stored.
pub open spec fn spec_language_code(lang: Language) -> Seq<char> {
    match lang {
        Language::En => "en"@,
        Language::De => "de"@,
    }
}

/// The language a stored code stands for: German for `de`, English otherwise.
pub open spec fn spec_language_from_code(code: Seq<char>) -> Language {
    if code == "de"@ {
        Language::De
    } else {
        Language::En
    }
}

/// The code under which a language is stored (`en` or `de`).
pub fn language_code(lang: Language) -> (code: &'static str)
    ensures
        code@ == spec_language_code(lang),
{
    match lang {
        Language::En => "en",
        Language::De => "de",
    }
}

/// Whether two string slices hold the same characters.
pub fn str_equal(a: &str, b: &str) -> (r: bool)
    ensures
        r == (a@ == b@),
{
    let v = chars_of(a);
    chars_equal_str(v.as_slice(), b)
}

/// The language for a stored code: `de` is German, anything else English.
pub fn language_from_code(code: &str) -> (lang: Language)
    ensures
        lang == spec_language_from_code(code@),
{
    if str_equal(code, "de") {
        Language::De
    } else {
        Language::En
    }
}

/// Reading back a language's code gives the language.
pub proof fn lemma_language_code_round_trip(lang: Language)
    ensures
        spec_language_from_code(spec_language_code(lang)) == lang,
{
    reveal_strlit("en");
    reveal_strlit("de");
    if lang == Language::En {
        assert("en"@[0] != "de"@[0]);
    }
}

/// The user interface language for a Windows UI language identifier: German
/// when its primary language (the low ten bits) is German, English otherwise.
pub fn language_for_langid(langid: u16) -> (lang: Language)
    ensures
        lang == (if langid & 0x03ff == 0x07 {
            Language::De
        } else {
            Language::En
        }),
{
    if langid & 0x03ff == 0x07 {
        Language::De
    } else {
        Language::En
    }
}

/// The settings of the agent.
#[derive(Clone, Copy, Debug, PartialEq, Eq, Structural)]
pub struct Config {
    pub enabled: bool,
    pub manage_non_shortcuts: bool,
    pub poll_ms: u64,
    pub language: Option<Language>,
}

/// The settings in force when the file is missing or says nothing.
pub open spec fn spec_default_config() -> Config {
    Config { enabled: true, manage_non_shortcuts: true, poll_ms: 750, language: None }
}

impl Default for Config {
    fn default() -> (c: Self)
        ensures
            c == spec_default_config(),
    {
        Config { enabled: true, manage_non_shortcuts: true, poll_ms: 750, language: None }
    }
}

/// The shortest polling interval that is kept.
pub const MIN_POLL_MS: u64 = 250;

/// The longest polling interval that is kept.
pub const MAX_POLL_MS: u64 = 10000;

/// A polling interval brought into `[MIN_POLL_MS, MAX_POLL_MS]`.
pub open spec fn clamp_poll(v: u64) -> u64 {
    if v < MIN_POLL_MS {
        MIN_POLL_MS
    } else if v > MAX_POLL_MS {
        MAX_POLL_MS
    } else {
        v
    }
}

/// The key and value of a settings line, if it is one: blank lines, comments
/// (`#` or `;` first) and lines without `=` are not. Both sides are trimmed.
pub open spec fn config_entry(line: Seq<char>) -> Option<(Seq<char>, Seq<char>)> {
    let t = spec_trim(line);
    if t.len() == 0 || t[0] == '#' || t[0] == ';' {
        None
    } else {
        let k = find_char(t, '=') as int;
        if k >= t.len() {
            None
        } else {
            Some((spec_trim(t.take(k)), spec_trim(t.skip(k + 1))))
        }
    }
}

/// The settings after one more line of the file.
pub open spec fn apply_config_line(c: Config, line: Seq<char>) -> Config {
    match config_entry(line) {
        None => c,
        Some((key, value)) => if key == "enabled"@ {
            Config { enabled: value != "0"@, ..c }
        } else if key == "manage_non_shortcuts"@ {
            Config { manage_non_shortcuts: value != "0"@, ..c }
        } else if key == "poll_ms"@ {
            Config {
                poll_ms: clamp_poll(
                    match spec_parse_u64(value) {
                        Some(v) => v,
                        None => 750,
                    },
                ),
                ..c
            }
        } else if key == "language"@ {
            Config { language: Some(spec_language_from_code(value)), ..c }
        } else {
            c
        },
    }
}

/// The settings that a sequence of lines leaves, starting from `c`.
pub open spec fn apply_config_lines(c: Config, lines: Seq<Seq<char>>) -> Config
    decreases lines.len(),
{
    if lines.len() == 0 {
        c
    } else {
        apply_config_line(apply_config_lines(c, lines.drop_last()), lines.last())
    }
}

/// The settings that the lines of a settings file give.
pub open spec fn spec_parse_config(lines: Seq<Seq<char>>) -> Config {
    apply_config_lines(spec_default_config(), lines)
}

/// The settings for the lines of the settings file (the lines std's
/// `BufRead::lines` yields, up to the first that is not valid UTF-8).
pub fn parse_config(lines: &[String]) -> (config: Config)
    ensures
        config == spec_parse_config(string_views(lines@)),
{
    let ghost ls = string_views(lines@);
    let mut config = Config::default();
    let mut i: usize = 0;
    while i < lines.len()
        invariant
            ls == string_views(lines@),
            i <= lines@.len(),
            config == apply_config_lines(spec_default_config(), ls.take(i as int)),
        decreases lines@.len() - i,
    {
        let line = chars_of(lines[i].as_str());
        proof {
            assert(ls.take(i + 1).drop_last() =~= ls.take(i as int));
            assert(ls.take(i + 1).last() == line@);
        }
        config = apply_line(config, line.as_slice());
        i = i + 1;
    }
    assert(ls.take(i as int) =~= ls);
    config
}

/// One line of the settings file applied to `config`.
fn apply_line(config: Config, line: &[char]) -> (c: Config)
    ensures
        c == apply_config_line(config, line@),
{
    let trimmed = trim_chars(line);
    let t = trimmed.as_slice();
    if t.len() == 0 || t[0] == '#' || t[0] == ';' {
        return config;
    }
    let mut k: usize = 0;
    while k < t.len() && t[k] != '='
        invariant
            k <= t@.len(),
            forall|j: int| 0 <= j < k ==> t@[j] != '=',
        decreases t@.len() - k,
    {
        k = k + 1;
    }
    proof {
        lemma_find_char(t@, '=', k as int);
    }
    if k == t.len() {
        return config;
    }
    let key_raw = copy_range(t, 0, k);
    let value_raw = copy_range(t, k + 1, t.len());
    assert(key_raw@ =~= t@.take(k as int));
    assert(value_raw@ =~= t@.skip(k + 1));
    let key = trim_chars(key_raw.as_slice());
    let value = trim_chars(value_raw.as_slice());
    let mut c = config;
    if chars_equal_str(key.as_slice(), "enabled") {
        c.enabled = !chars_equal_str(value.as_slice(), "0");
    } else if chars_equal_str(key.as_slice(), "manage_non_shortcuts") {
        c.manage_non_shortcuts = !chars_equal_str(value.as_slice(), "0");
    } else if chars_equal_str(key.as_slice(), "poll_ms") {
        let v = match parse_u64(value.as_slice()) {
            Some(v) => v,
            None => 750,
        };
        c.poll_ms = if v < MIN_POLL_MS {
            MIN_POLL_MS
        } else if v > MAX_POLL_MS {
            MAX_POLL_MS
        } else {
            v
        };
    } else if chars_equal_str(key.as_slice(), "language") {
        let code = string_from_chars(value.as_slice());
        c.language = Some(language_from_code(code.as_str()));
    }
    c
}

/// The value of a flag as the settings file writes it.
pub open spec fn flag_text(b: bool) -> Seq<char> {
    if b {
        "1"@
    } else {
        "0"@
    }
}

/// The lines that `render_config` writes.
pub open spec fn spec_config_lines(c: Config) -> Seq<Seq<char>> {
    let base = seq![
        "enabled="@ + flag_text(c.enabled),
        "manage_non_shortcuts="@ + flag_text(c.manage_non_shortcuts),
        "poll_ms="@ + decimal(c.poll_ms as nat),
    ];
    match c.language {
        Some(lang) => base.push("language="@ + spec_language_code(lang)),
        None => base,
    }
}

/// The settings file text for `config`.
pub open spec fn spec_render_config(c: Config) -> Seq<char> {
    join_lines(spec_config_lines(c))
}

/// The text of the settings file for `config`, one `key=value` line each.
pub fn render_config(config: &Config) -> (text: String)
    ensures
        text@ == spec_render_config(*config),
{
    let ghost ls = spec_config_lines(*config);
    let mut out: Vec<char> = Vec::new();
    assert(out@ == join_lines(ls.take(0)));
    push_str(&mut out, "enabled=");
    push_str(&mut out, if config.enabled {
        "1"
    } else {
        "0"
    });
    out.push('\n');
    proof {
        lemma_join_lines_push(ls.take(0), ls[0]);
        assert(ls.take(0).push(ls[0]) =~= ls.take(1));
        assert(out@ =~= join_lines(ls.take(1)));
    }
    push_str(&mut out, "manage_non_shortcuts=");
    push_str(&mut out, if config.manage_non_shortcuts {
        "1"
    } else {
        "0"
    });
    out.push('\n');
    proof {
        lemma_join_lines_push(ls.take(1), ls[1]);
        assert(ls.take(1).push(ls[1]) =~= ls.take(2));
        assert(out@ =~= join_lines(ls.take(2)));
    }
    push_str(&mut out, "poll_ms=");
    push_decimal(&mut out, config.poll_ms);
    out.push('\n');
    proof {
        lemma_join_lines_push(ls.take(2), ls[2]);
        assert(ls.take(2).push(ls[2]) =~= ls.take(3));
        assert(out@ =~= join_lines(ls.take(3)));
    }
    if let Some(lang) = config.language {
        push_str(&mut out, "language=");
        push_str(&mut out, language_code(lang));
        out.push('\n');
        proof {
            lemma_join_lines_push(ls.take(3), ls[3]);
            assert(ls.take(3).push(ls[3]) =~= ls);
            assert(out@ =~= join_lines(ls));
        }
    } else {
        assert(ls.take(3) =~= ls);
    }
    string_from_chars(out.as_slice())
}

/// Reads `key=value` back as its key and value.
proof fn lemma_entry_of_pair(key: Seq<char>, value: Seq<char>)
    requires
        key.len() > 0,
        !has_char(key, '='),
        key[0] != '#' && key[0] != ';',
        !is_ascii_ws(key[0]) && !is_ascii_ws(key.last()),
        value.len() > 0,
        !is_ascii_ws(value[0]) && !is_ascii_ws(value.last()),
    ensures
        config_entry(key + "="@ + value) == Some((key, value)),
{
    reveal_strlit("=");
    let line = key + "="@ + value;
    lemma_trim_plain(line);
    assert forall|j: int| 0 <= j < key.len() implies line[j] != '=' by {
        assert(line[j] == key[j]);
    }
    assert(line[key.len() as int] == '=');
    lemma_find_char(line, '=', key.len() as int);
    assert(line.take(key.len() as int) =~= key);
    assert(line.skip(key.len() as int + 1) =~= value);
    lemma_trim_plain(key);
    lemma_trim_plain(value);
}

/// Every settings file gives a polling interval in `[MIN_POLL_MS, MAX_POLL_MS]`.
pub proof fn lemma_parse_config_poll_in_range(lines: Seq<Seq<char>>)
    ensures
        MIN_POLL_MS <= spec_parse_config(lines).poll_ms <= MAX_POLL_MS,
    decreases lines.len(),
{
    if lines.len() > 0 {
        lemma_parse_config_poll_in_range(lines.drop_last());
    }
}

proof fn lemma_apply_three(c: Config, a: Seq<char>, b: Seq<char>, d: Seq<char>)
    ensures
        apply_config_lines(c, seq![a, b, d]) == apply_config_line(
            apply_config_line(apply_config_line(c, a), b),
            d,
        ),
{
    let ls = seq![a, b, d];
    assert(ls.drop_last() =~= seq![a, b]);
    assert(seq![a, b].drop_last() =~= seq![a]);
    assert(seq![a].drop_last() =~= Seq::<Seq<char>>::empty());
    assert(apply_config_lines(c, Seq::<Seq<char>>::empty()) == c);
    assert(seq![a].last() == a);
    assert(seq![a, b].last() == b);
    assert(ls.last() == d);
    assert(apply_config_lines(c, seq![a]) == apply_config_line(c, a));
    assert(apply_config_lines(c, seq![a, b]) == apply_config_line(apply_config_line(c, a), b));
}

proof fn lemma_flag_text(b: bool)
    ensures
        flag_text(b).len() == 1,
        !is_ascii_ws(flag_text(b)[0]),
        (flag_text(b) != "0"@) == b,
        flag_text(b)[0] != '\n' && flag_text(b)[0] != '\r',
{
    reveal_strlit("0");
    reveal_strlit("1");
}

proof fn lemma_apply_enabled(c: Config, b: bool)
    ensures
        apply_config_line(c, "enabled="@ + flag_text(b)) == (Config { enabled: b, ..c }),
{
    reveal_strlit("enabled=");
    reveal_strlit("enabled");
    reveal_strlit("=");
    lemma_flag_text(b);
    assert("enabled="@ =~= "enabled"@ + "="@);
    lemma_entry_of_pair("enabled"@, flag_text(b));
}

proof fn lemma_apply_manage(c: Config, b: bool)
    ensures
        apply_config_line(c, "manage_non_shortcuts="@ + flag_text(b)) == (Config {
            manage_non_shortcuts: b,
            ..c
        }),
{
    reveal_strlit("manage_non_shortcuts=");
    reveal_strlit("manage_non_shortcuts");
    reveal_strlit("enabled");
    reveal_strlit("=");
    lemma_flag_text(b);
    assert("manage_non_shortcuts="@ =~= "manage_non_shortcuts"@ + "="@);
    lemma_entry_of_pair("manage_non_shortcuts"@, flag_text(b));
}

proof fn lemma_apply_poll(c: Config, p: u64)
    ensures
        apply_config_line(c, "poll_ms="@ + decimal(p as nat)) == (Config {
            poll_ms: clamp_poll(p),
            ..c
        }),
{
    reveal_strlit("poll_ms=");
    reveal_strlit("poll_ms");
    reveal_strlit("enabled");
    reveal_strlit("manage_non_shortcuts");
    reveal_strlit("=");
    lemma_decimal_digits(p as nat);
    lemma_parse_u64_decimal(p);
    let d = decimal(p as nat);
    assert('0' <= d[0] <= '9');
    assert('0' <= d[d.len() - 1] <= '9');
    assert("poll_ms="@ =~= "poll_ms"@ + "="@);
    lemma_entry_of_pair("poll_ms"@, d);
    assert("poll_ms"@[0] != "enabled"@[0]);
}

proof fn lemma_apply_language(c: Config, lang: Language)
    ensures
        apply_config_line(c, "language="@ + spec_language_code(lang)) == (Config {
            language: Some(lang),
            ..c
        }),
{
    reveal_strlit("language=");
    reveal_strlit("language");
    reveal_strlit("enabled");
    reveal_strlit("manage_non_shortcuts");
    reveal_strlit("poll_ms");
    reveal_strlit("=");
    reveal_strlit("en");
    reveal_strlit("de");
    assert("language="@ =~= "language"@ + "="@);
    lemma_entry_of_pair("language"@, spec_language_code(lang));
    lemma_language_code_round_trip(lang);
}

proof fn lemma_config_lines_plain(c: Config)
    ensures
        forall|i: int|
            0 <= i < spec_config_lines(c).len() ==> is_plain_line(
                #[trigger] spec_config_lines(c)[i],
            ),
{
    reveal_strlit("enabled=");
    reveal_strlit("manage_non_shortcuts=");
    reveal_strlit("poll_ms=");
    reveal_strlit("language=");
    reveal_strlit("en");
    reveal_strlit("de");
    lemma_flag_text(c.enabled);
    lemma_flag_text(c.manage_non_shortcuts);
    lemma_decimal_digits(c.poll_ms as nat);
    let ls = spec_config_lines(c);
    let d = decimal(c.poll_ms as nat);
    assert forall|i: int| 0 <= i < ls.len() implies is_plain_line(#[trigger] ls[i]) by {
        let l = ls[i];
        if i == 2 {
            assert(l == "poll_ms="@ + d);
            assert forall|j: int| 0 <= j < l.len() implies l[j] != '\n' by {
                if j >= 8 {
                    assert(l[j] == d[j - 8]);
                    assert('0' <= d[j - 8] <= '9');
                }
            }
            assert(l.last() == d.last());
            assert('0' <= d[d.len() - 1] <= '9');
        }
    }
}

/// Writing settings and reading them back gives the same settings, except
/// that a polling interval outside `[MIN_POLL_MS, MAX_POLL_MS]` comes back
/// brought into that range.
pub proof fn lemma_config_round_trip_clamps(c: Config)
    ensures
        spec_parse_config(spec_lines(spec_render_config(c))) == (Config {
            poll_ms: clamp_poll(c.poll_ms),
            ..c
        }),
{
    let ls = spec_config_lines(c);
    lemma_config_lines_plain(c);
    lemma_lines_of_join(ls);
    let c0 = spec_default_config();
    let l0 = "enabled="@ + flag_text(c.enabled);
    let l1 = "manage_non_shortcuts="@ + flag_text(c.manage_non_shortcuts);
    let l2 = "poll_ms="@ + decimal(c.poll_ms as nat);
    lemma_apply_enabled(c0, c.enabled);
    let c1 = Config { enabled: c.enabled, ..c0 };
    lemma_apply_manage(c1, c.manage_non_shortcuts);
    let c2 = Config { manage_non_shortcuts: c.manage_non_shortcuts, ..c1 };
    lemma_apply_poll(c2, c.poll_ms);
    let c3 = Config { poll_ms: clamp_poll(c.poll_ms), ..c2 };
    lemma_apply_three(c0, l0, l1, l2);
    match c.language {
        Some(lang) => {
            lemma_apply_language(c3, lang);
            assert(ls.drop_last() =~= seq![l0, l1, l2]);
        },
        None => {
            assert(ls =~= seq![l0, l1, l2]);
        },
    }
}

/// Writing settings and reading them back gives the same settings, when the
/// polling interval is one that reading keeps.
pub proof fn lemma_config_round_trip(c: Config)
    requires
        MIN_POLL_MS <= c.poll_ms <= MAX_POLL_MS,
    ensures
        spec_parse_config(spec_lines(spec_render_config(c))) == c,
{
    lemma_config_round_trip_clamps(c);
}

/// `str::trim_matches` with ASCII whitespace as the pattern: the text without
/// ASCII whitespace at either end.
pub fn trim_ascii(value: &str) -> (out: &str)
    ensures
        out@ == spec_trim(value@),
{
    let v = chars_of(value);
    let (a, b) = trim_range(v.as_slice());
    value.substring_char(a, b)
}

/// A text file's content without surrounding ASCII whitespace, or nothing
/// when only whitespace remains.
pub fn trimmed_text(value: &str) -> (out: Option<String>)
    ensures
        match out {
            Some(s) => s@ == spec_trim(value@) && s@.len() > 0,
            None => spec_trim(value@).len() == 0,
        },
{
    let v = chars_of(value);
    let t = trim_chars(v.as_slice());
    if t.len() == 0 {
        None
    } else {
        Some(string_from_chars(t.as_slice()))
    }
}

/// Whether the agent runs: enabled in the settings and no `disabled` marker file.
pub fn app_enabled(config: &Config, disabled_marker_exists: bool) -> (r: bool)
    ensures
        r == (config.enabled && !disabled_marker_exists),
{
    config.enabled && !disabled_marker_exists
}

} // verus!
