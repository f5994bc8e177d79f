//! Percent-encoding of names and paths for the tab-separated state files.
//!
//! Every UTF-8 byte outside a small unreserved set is written as `%XX` with
//! upper-case hex digits; decoding turns `%XX` back into the byte, leaving
//! anything that is not a valid escape as it is.
use vstd::prelude::*;
use vstd::utf8::{
    decode_utf8, encode_utf8, encode_utf8_decode_utf8, encode_utf8_valid_utf8,
    is_ascii_chars, is_ascii_chars_encode_utf8, is_continuation_byte, valid_utf8,
};
use crate::text::string_from_chars;

verus! {

/// What std's `String::from_utf8_lossy` makes of a byte sequence that is not
/// valid UTF-8 (each maximal invalid run becomes U+FFFD).
pub uninterp spec fn utf8_lossy(bytes: Seq<u8>) -> Seq<char>;

/// std's `String::from_utf8_lossy(..).into_owned()`.
/// Trusted: valid UTF-8 is decoded as it stands (the documentation: "If our
/// byte slice is valid UTF-8, then ... no changes are made"); for any other
/// input the result is the named lossy decoding of these bytes.
#[verifier::external_body]
pub(crate) fn string_from_utf8_lossy(bytes: &[u8]) -> (s: String)
    ensures
        s@ == (if valid_utf8(bytes@) {
            decode_utf8(bytes@)
        } else {
            utf8_lossy(bytes@)
        }),
{
    String::from_utf8_lossy(bytes).into_owned()
}

/// Bytes that are written as they are.
pub open spec fn is_unreserved(b: u8) -> bool {
    (0x41 <= b <= 0x5a) || (0x61 <= b <= 0x7a) || (0x30 <= b <= 0x39) || b == 0x2e || b == 0x2d
        || b == 0x5f || b == 0x20 || b == 0x5c || b == 0x2f || b == 0x3a
}

/// The upper-case hex digit (as an ASCII byte) for a value below sixteen.
pub open spec fn hex_upper(d: nat) -> u8 {
    if d < 10 {
        (48 + d) as u8
    } else {
        (55 + d) as u8
    }
}

/// The encoding of one byte: itself, or `%` and two upper-case hex digits.
pub open spec fn encode_byte(b: u8) -> Seq<u8> {
    if is_unreserved(b) {
        seq![b]
    } else {
        seq![0x25u8, hex_upper((b / 16) as nat), hex_upper((b % 16) as nat)]
    }
}

/// The percent-encoding of a byte sequence, as ASCII bytes.
pub open spec fn percent_encode_bytes(bs: Seq<u8>) -> Seq<u8>
    decreases bs.len(),
{
    if bs.len() == 0 {
        seq![]
    } else {
        encode_byte(bs[0]) + percent_encode_bytes(bs.drop_first())
    }
}

/// ASCII bytes read as characters.
pub open spec fn ascii_chars(bs: Seq<u8>) -> Seq<char> {
    bs.map_values(|b: u8| b as char)
}

/// The percent-encoding of a text: the encoding of its UTF-8 bytes.
pub open spec fn spec_percent_encode(s: Seq<char>) -> Seq<char> {
    ascii_chars(percent_encode_bytes(encode_utf8(s)))
}

/// The value of an ASCII hex digit of either case.
pub open spec fn hex_value(b: u8) -> Option<u8> {
    if 0x30 <= b <= 0x39 {
        Some((b - 0x30) as u8)
    } else if 0x61 <= b <= 0x66 {
        Some((b - 0x61 + 10) as u8)
    } else if 0x41 <= b <= 0x46 {
        Some((b - 0x41 + 10) as u8)
    } else {
        None
    }
}

/// std's `u8::from_str_radix(.., 16)` on a two-byte text: either `+` and one
/// hex digit, or two hex digits.
pub open spec fn hex_pair(b1: u8, b2: u8) -> Option<u8> {
    if b1 == 0x2b {
        hex_value(b2)
    } else {
        match (hex_value(b1), hex_value(b2)) {
            (Some(h), Some(l)) => Some((h * 16 + l) as u8),
            _ => None,
        }
    }
}

/// Whether an escape starts here: `%`, at least two more bytes, and they read as hex.
pub open spec fn escape_at_start(bs: Seq<u8>) -> bool {
    2 < bs.len() && bs[0] == 0x25 && hex_pair(bs[1], bs[2]) is Some
}

/// Percent-decoding of a byte sequence.
pub open spec fn percent_decode_bytes(bs: Seq<u8>) -> Seq<u8>
    decreases bs.len(),
{
    if bs.len() == 0 {
        seq![]
    } else if escape_at_start(bs) {
        seq![hex_pair(bs[1], bs[2]).unwrap()] + percent_decode_bytes(bs.skip(3))
    } else {
        seq![bs[0]] + percent_decode_bytes(bs.drop_first())
    }
}

/// Decoding never cuts a character in two: wherever a `%` is followed by at
/// least two bytes, the third byte after it starts a character (std panics
/// when slicing a `str` inside a character).
pub open spec fn decode_cuts_no_char(bs: Seq<u8>) -> bool
    decreases bs.len(),
{
    if bs.len() == 0 {
        true
    } else if bs[0] == 0x25 && 2 < bs.len() {
        (bs.len() == 3 || !is_continuation_byte(bs[3])) && if escape_at_start(bs) {
            decode_cuts_no_char(bs.skip(3))
        } else {
            decode_cuts_no_char(bs.drop_first())
        }
    } else {
        decode_cuts_no_char(bs.drop_first())
    }
}

/// The text that decoding yields: the decoded bytes read as UTF-8, lossily
/// where they are not valid.
pub open spec fn spec_percent_decode(s: Seq<char>) -> Seq<char> {
    let out = percent_decode_bytes(encode_utf8(s));
    if valid_utf8(out) {
        decode_utf8(out)
    } else {
        utf8_lossy(out)
    }
}

/// Whether `percent_decode` can run on this text.
pub open spec fn decodable(s: Seq<char>) -> bool {
    decode_cuts_no_char(encode_utf8(s))
}

proof fn lemma_encode_append(a: Seq<u8>, b: Seq<u8>)
    ensures
        percent_encode_bytes(a + b) == percent_encode_bytes(a) + percent_encode_bytes(b),
    decreases a.len(),
{
    if a.len() == 0 {
        assert(a + b =~= b);
    } else {
        assert((a + b).drop_first() =~= a.drop_first() + b);
        lemma_encode_append(a.drop_first(), b);
        assert(percent_encode_bytes(a + b) =~= percent_encode_bytes(a) + percent_encode_bytes(b));
    }
}

proof fn lemma_utf8_append(a: Seq<char>, b: Seq<char>)
    ensures
        encode_utf8(a + b) == encode_utf8(a) + encode_utf8(b),
    decreases a.len(),
{
    if a.len() == 0 {
        assert(a + b =~= b);
        assert(encode_utf8(a) =~= Seq::<u8>::empty());
        assert(encode_utf8(a) + encode_utf8(b) =~= encode_utf8(b));
    } else {
        assert((a + b).drop_first() =~= a.drop_first() + b);
        assert((a + b)[0] == a[0]);
        lemma_utf8_append(a.drop_first(), b);
        assert(encode_utf8(a + b) =~= encode_utf8(a) + encode_utf8(b));
    }
}

/// Percent-encoding a text made of two parts gives the encodings of the
/// parts, one after the other.
pub proof fn lemma_percent_encode_append(a: Seq<char>, b: Seq<char>)
    ensures
        spec_percent_encode(a + b) == spec_percent_encode(a) + spec_percent_encode(b),
{
    lemma_utf8_append(a, b);
    lemma_encode_append(encode_utf8(a), encode_utf8(b));
    let x = percent_encode_bytes(encode_utf8(a));
    let y = percent_encode_bytes(encode_utf8(b));
    assert(ascii_chars(x + y) =~= ascii_chars(x) + ascii_chars(y));
}

/// The characters that percent-encoding writes as they are: ASCII letters
/// and digits, `.`, `-`, `_`, space, `\`, `/` and `:`.
pub open spec fn is_safe_char(c: char) -> bool {
    ('A' <= c <= 'Z') || ('a' <= c <= 'z') || ('0' <= c <= '9') || c == '.' || c == '-' || c
        == '_' || c == ' ' || c == '\\' || c == '/' || c == ':'
}

/// The value of an upper-case hex digit.
pub open spec fn upper_hex_digit(d: char) -> Option<int> {
    if '0' <= d <= '9' {
        Some(d as int - '0' as int)
    } else if 'A' <= d <= 'F' {
        Some(d as int - 'A' as int + 10)
    } else {
        None
    }
}

/// Whether `e` is `%` followed by the two upper-case hex digits of `c`.
pub open spec fn is_escape_of(e: Seq<char>, c: char) -> bool {
    &&& e.len() == 3
    &&& e[0] == '%'
    &&& upper_hex_digit(e[1]) matches Some(h) && upper_hex_digit(e[2]) matches Some(l) && h * 16
        + l == c as int
}

/// The encoding of one ASCII character: the character itself when it is
/// safe, else `%` followed by two hex digits.
proof fn lemma_encode_ascii_char(c: char)
    requires
        c <= '\u{7f}',
    ensures
        is_safe_char(c) ==> spec_percent_encode(seq![c]) == seq![c],
        !is_safe_char(c) ==> is_escape_of(spec_percent_encode(seq![c]), c),
{
    let cs = seq![c];
    assert(is_ascii_chars(cs));
    is_ascii_chars_encode_utf8(cs);
    let b = c as u8;
    assert(encode_utf8(cs)[0] == b);
    assert(encode_utf8(cs) =~= seq![b]);
    assert(seq![b].drop_first() =~= Seq::<u8>::empty());
    assert(seq![b][0] == b);
    assert(percent_encode_bytes(Seq::<u8>::empty()) =~= Seq::<u8>::empty());
    assert(percent_encode_bytes(seq![b]) == encode_byte(b) + percent_encode_bytes(Seq::<u8>::empty()));
    assert(encode_byte(b) + Seq::<u8>::empty() =~= encode_byte(b));
    assert(percent_encode_bytes(seq![b]) =~= encode_byte(b));
    assert(is_safe_char(c) <==> is_unreserved(b));
    if is_unreserved(b) {
        assert(ascii_chars(seq![b]) =~= seq![b as char]);
        assert(b as char == c);
    } else {
        let e = encode_byte(b);
        let hi = (b / 16) as nat;
        let lo = (b % 16) as nat;
        let ec = ascii_chars(e);
        assert(ec[0] == (0x25u8) as char);
        assert(ec[1] == hex_upper(hi) as char);
        assert(ec[2] == hex_upper(lo) as char);
        assert(upper_hex_digit(ec[1]) == Some(hi as int));
        assert(upper_hex_digit(ec[2]) == Some(lo as int));
        assert(hi * 16 + lo == b as int);
    }
}

/// Text made only of safe characters is written as it is; every other ASCII
/// character is escaped as `%` and its two upper-case hex digits.
pub proof fn lemma_safe_text_encodes_as_itself(s: Seq<char>)
    ensures
        (forall|i: int| 0 <= i < s.len() ==> is_safe_char(#[trigger] s[i])) ==> spec_percent_encode(s)
            == s,
        forall|c: char|
            c <= '\u{7f}' && !is_safe_char(c) ==> is_escape_of(
                #[trigger] spec_percent_encode(seq![c]),
                c,
            ),
    decreases s.len(),
{
    assert forall|c: char| c <= '\u{7f}' && !is_safe_char(c) implies is_escape_of(
        #[trigger] spec_percent_encode(seq![c]),
        c,
    ) by {
        lemma_encode_ascii_char(c);
    }
    if forall|i: int| 0 <= i < s.len() ==> is_safe_char(#[trigger] s[i]) {
        if s.len() == 0 {
            assert(encode_utf8(s) =~= Seq::<u8>::empty());
            assert(spec_percent_encode(s) =~= s);
        } else {
            let c = s[0];
            let rest = s.drop_first();
            assert(s =~= seq![c] + rest);
            assert(is_safe_char(c));
            assert(c <= '\u{7f}');
            lemma_encode_ascii_char(c);
            assert forall|i: int| 0 <= i < rest.len() implies is_safe_char(#[trigger] rest[i]) by {
                assert(rest[i] == s[i + 1]);
            }
            lemma_safe_text_encodes_as_itself(rest);
            lemma_percent_encode_append(seq![c], rest);
        }
    }
}

/// The encoding is plain ASCII and uses no byte that the state files treat as
/// a delimiter: no tab, line feed, carriage return; every `%` starts a valid escape.
pub proof fn lemma_encode_is_plain(bs: Seq<u8>)
    ensures
        forall|i: int|
            0 <= i < percent_encode_bytes(bs).len() ==> {
                let e = #[trigger] percent_encode_bytes(bs)[i];
                &&& e < 0x80
                &&& e != 0x09 && e != 0x0a && e != 0x0d
                &&& (0x30 <= e <= 0x39) || (0x41 <= e <= 0x5a) || (0x61 <= e <= 0x7a) || e
                    == 0x2e || e == 0x2d || e == 0x5f || e == 0x20 || e == 0x5c || e == 0x2f || e
                    == 0x3a || e == 0x25
            },
    decreases bs.len(),
{
    if bs.len() > 0 {
        lemma_encode_is_plain(bs.drop_first());
        let e0 = encode_byte(bs[0]);
        let rest = percent_encode_bytes(bs.drop_first());
        assert forall|i: int| 0 <= i < percent_encode_bytes(bs).len() implies {
            let e = #[trigger] percent_encode_bytes(bs)[i];
            &&& e < 0x80
            &&& e != 0x09 && e != 0x0a && e != 0x0d
            &&& (0x30 <= e <= 0x39) || (0x41 <= e <= 0x5a) || (0x61 <= e <= 0x7a) || e == 0x2e
                || e == 0x2d || e == 0x5f || e == 0x20 || e == 0x5c || e == 0x2f || e == 0x3a || e
                == 0x25
        } by {
            if i >= e0.len() {
                assert(percent_encode_bytes(bs)[i] == rest[i - e0.len()]);
            }
        }
    }
}

/// Decoding the encoding of a byte sequence gives it back, and never cuts a character.
pub proof fn lemma_decode_encode_bytes(bs: Seq<u8>)
    ensures
        percent_decode_bytes(percent_encode_bytes(bs)) == bs,
        decode_cuts_no_char(percent_encode_bytes(bs)),
    decreases bs.len(),
{
    if bs.len() > 0 {
        let b = bs[0];
        let rest = bs.drop_first();
        let er = percent_encode_bytes(rest);
        let e = percent_encode_bytes(bs);
        lemma_decode_encode_bytes(rest);
        lemma_encode_is_plain(rest);
        if is_unreserved(b) {
            assert(e =~= seq![b] + er);
            assert(e.drop_first() =~= er);
            assert(!escape_at_start(e));
            assert(percent_decode_bytes(e) =~= bs);
        } else {
            let h = hex_upper((b / 16) as nat);
            let l = hex_upper((b % 16) as nat);
            assert(e =~= seq![0x25u8, h, l] + er);
            assert(hex_value(h) == Some((b / 16) as u8));
            assert(hex_value(l) == Some((b % 16) as u8));
            assert(hex_pair(h, l) == Some(b));
            assert(escape_at_start(e));
            assert(e.skip(3) =~= er);
            assert(percent_decode_bytes(e) =~= bs);
            if e.len() > 3 {
                assert(e[3] == er[0]);
                assert(er[0] < 0x80);
            }
        }
    }
}

/// ASCII bytes read as characters and encoded as UTF-8 are the same bytes.
pub proof fn lemma_ascii_chars_utf8(bs: Seq<u8>)
    requires
        forall|i: int| 0 <= i < bs.len() ==> bs[i] < 0x80,
    ensures
        is_ascii_chars(ascii_chars(bs)),
        encode_utf8(ascii_chars(bs)) == bs,
        decode_utf8(bs) == ascii_chars(bs),
{
    let cs = ascii_chars(bs);
    assert forall|i: int| 0 <= i < cs.len() implies '\0' <= #[trigger] cs[i] <= '\u{7f}' by {
        assert(cs[i] == bs[i] as char);
    }
    is_ascii_chars_encode_utf8(cs);
    assert forall|i: int| 0 <= i < bs.len() implies encode_utf8(cs)[i] == bs[i] by {
        assert(cs[i] as u8 == encode_utf8(cs)[i]);
        assert(cs[i] == bs[i] as char);
    }
    assert(encode_utf8(cs) =~= bs);
    encode_utf8_decode_utf8(cs);
}

/// Decoding undoes encoding: `percent_decode(percent_encode(s)) == s` for every text.
pub proof fn lemma_percent_round_trip(s: Seq<char>)
    ensures
        decodable(spec_percent_encode(s)),
        spec_percent_decode(spec_percent_encode(s)) == s,
{
    let bs = encode_utf8(s);
    let e = percent_encode_bytes(bs);
    lemma_encode_is_plain(bs);
    lemma_ascii_chars_utf8(e);
    lemma_decode_encode_bytes(bs);
    encode_utf8_valid_utf8(s);
    encode_utf8_decode_utf8(s);
}

/// The percent-encoding of a text is ASCII and holds no tab, line feed or
/// carriage return, so it stays one field of one line.
pub proof fn lemma_percent_encode_plain(s: Seq<char>)
    ensures
        is_ascii_chars(spec_percent_encode(s)),
        forall|i: int|
            0 <= i < spec_percent_encode(s).len() ==> {
                let c = #[trigger] spec_percent_encode(s)[i];
                c != '\t' && c != '\n' && c != '\r'
            },
        spec_percent_encode(s).len() == 0 <==> s.len() == 0,
{
    let bs = encode_utf8(s);
    let e = percent_encode_bytes(bs);
    lemma_encode_is_plain(bs);
    lemma_ascii_chars_utf8(e);
    assert forall|i: int| 0 <= i < spec_percent_encode(s).len() implies {
        let c = #[trigger] spec_percent_encode(s)[i];
        c != '\t' && c != '\n' && c != '\r'
    } by {
        assert(spec_percent_encode(s)[i] == e[i] as char);
    }
    lemma_encode_len(bs);
    lemma_utf8_len(s);
}

proof fn lemma_encode_len(bs: Seq<u8>)
    ensures
        percent_encode_bytes(bs).len() >= bs.len(),
    decreases bs.len(),
{
    if bs.len() > 0 {
        lemma_encode_len(bs.drop_first());
    }
}

proof fn lemma_utf8_len(s: Seq<char>)
    ensures
        encode_utf8(s).len() == 0 <==> s.len() == 0,
{
    if s.len() > 0 {
        vstd::utf8::char_is_scalar(s[0]);
        assert(vstd::utf8::encode_scalar(s[0] as u32).len() > 0);
    }
}

/// The upper-case hex digit for a value below sixteen.
fn hex_upper_char(d: u8) -> (c: char)
    requires
        d < 16,
    ensures
        c == hex_upper(d as nat) as char,
{
    if d < 10 {
        (48 + d) as char
    } else {
        (55 + d) as char
    }
}

fn is_unreserved_byte(b: u8) -> (r: bool)
    ensures
        r == is_unreserved(b),
{
    (0x41 <= b && b <= 0x5a) || (0x61 <= b && b <= 0x7a) || (0x30 <= b && b <= 0x39) || b == 0x2e
        || b == 0x2d || b == 0x5f || b == 0x20 || b == 0x5c || b == 0x2f || b == 0x3a
}

/// Percent-encodes the UTF-8 bytes of `value`, keeping ASCII letters, digits
/// and `. - _` space `\ / :` as they are.
pub fn percent_encode(value: &str) -> (out: String)
    ensures
        out@ == spec_percent_encode(value@),
{
    let bytes = value.as_bytes();
    let ghost bs = bytes@;
    let mut chars: Vec<char> = Vec::new();
    let mut i: usize = 0;
    while i < bytes.len()
        invariant
            bs == bytes@,
            i <= bs.len(),
            chars@ == ascii_chars(percent_encode_bytes(bs.take(i as int))),
        decreases bs.len() - i,
    {
        let b = bytes[i];
        let ghost before = chars@;
        if is_unreserved_byte(b) {
            chars.push(b as char);
        } else {
            chars.push('%');
            chars.push(hex_upper_char(b / 16));
            chars.push(hex_upper_char(b % 16));
        }
        proof {
            assert(bs.take(i + 1) =~= bs.take(i as int) + seq![b]);
            lemma_encode_append(bs.take(i as int), seq![b]);
            assert(percent_encode_bytes(seq![b]) =~= encode_byte(b)) by {
                assert(seq![b].drop_first() =~= Seq::<u8>::empty());
                assert(seq![b][0] == b);
                assert(percent_encode_bytes(Seq::<u8>::empty()) =~= Seq::<u8>::empty());
                assert(encode_byte(b) + Seq::<u8>::empty() =~= encode_byte(b));
            }
            assert(0x25u8 as char == '%');
            assert(chars@ =~= ascii_chars(percent_encode_bytes(bs.take(i + 1))));
        }
        i = i + 1;
    }
    assert(bs.take(bs.len() as int) =~= bs);
    string_from_chars(chars.as_slice())
}

/// The value of an ASCII hex digit of either case.
fn hex_digit_value(b: u8) -> (r: Option<u8>)
    ensures
        r == hex_value(b),
{
    if 0x30 <= b && b <= 0x39 {
        Some(b - 0x30)
    } else if 0x61 <= b && b <= 0x66 {
        Some(b - 0x61 + 10)
    } else if 0x41 <= b && b <= 0x46 {
        Some(b - 0x41 + 10)
    } else {
        None
    }
}

fn hex_pair_value(b1: u8, b2: u8) -> (r: Option<u8>)
    ensures
        r == hex_pair(b1, b2),
{
    if b1 == 0x2b {
        hex_digit_value(b2)
    } else {
        match (hex_digit_value(b1), hex_digit_value(b2)) {
            (Some(h), Some(l)) => Some(h * 16 + l),
            _ => None,
        }
    }
}

/// Decodes `%XX` escapes (and `%+X`, which std's hex parser also accepts) in
/// the UTF-8 bytes of `value`; the bytes are then read as UTF-8, lossily if
/// they are not valid.
pub fn percent_decode(value: &str) -> (out: String)
    requires
        decodable(value@),
    ensures
        out@ == spec_percent_decode(value@),
{
    let bytes = value.as_bytes();
    let ghost bs = bytes@;
    let mut out: Vec<u8> = Vec::new();
    let mut i: usize = 0;
    assert(bs.skip(0) =~= bs);
    while i < bytes.len()
        invariant
            bs == bytes@,
            i <= bs.len(),
            decode_cuts_no_char(bs.skip(i as int)),
            out@ + percent_decode_bytes(bs.skip(i as int)) == percent_decode_bytes(bs),
        decreases bs.len() - i,
    {
        let ghost rest = bs.skip(i as int);
        let ghost before = out@;
        let b = bytes[i];
        assert(rest[0] == b);
        let mut decoded: Option<u8> = None;
        if b == 0x25 && bytes.len() - i > 2 {
            assert(rest[1] == bs[i + 1]);
            assert(rest[2] == bs[i + 2]);
            decoded = hex_pair_value(bytes[i + 1], bytes[i + 2]);
        }
        match decoded {
            Some(v) => {
                out.push(v);
                proof {
                    assert(escape_at_start(rest));
                    assert(rest.skip(3) =~= bs.skip(i + 3));
                    assert(out@ + percent_decode_bytes(bs.skip(i + 3)) =~= before
                        + percent_decode_bytes(rest));
                }
                i = i + 3;
            },
            None => {
                out.push(b);
                proof {
                    assert(!escape_at_start(rest));
                    assert(rest.drop_first() =~= bs.skip(i + 1));
                    assert(out@ + percent_decode_bytes(bs.skip(i + 1)) =~= before
                        + percent_decode_bytes(rest));
                }
                i = i + 1;
            },
        }
    }
    assert(bs.skip(i as int) =~= Seq::<u8>::empty());
    assert(out@ =~= percent_decode_bytes(bs));
    string_from_utf8_lossy(out.as_slice())
}

/// Percent-encodes a path for the swap journal.
pub fn encode_path(path: &str) -> (out: String)
    ensures
        out@ == spec_percent_encode(path@),
{
    percent_encode(path)
}

/// Decodes a path written by `encode_path`.
pub fn decode_path(value: &str) -> (out: String)
    requires
        decodable(value@),
    ensures
        out@ == spec_percent_decode(value@),
{
    percent_decode(value)
}

/// Percent-encodes a Desktop item name for a layout file.
pub fn encode_layout_name(name: &str) -> (out: String)
    ensures
        out@ == spec_percent_encode(name@),
{
    percent_encode(name)
}

/// Whether `percent_decode` can run on `value`: no escape it reads would cut
/// a character in two.
pub fn is_decodable(value: &str) -> (b: bool)
    ensures
        b == decodable(value@),
{
    let bytes = value.as_bytes();
    let ghost bs = bytes@;
    let mut i: usize = 0;
    assert(bs.skip(0) =~= bs);
    while i < bytes.len()
        invariant
            bs == bytes@,
            bs == encode_utf8(value@),
            i <= bs.len(),
            decode_cuts_no_char(bs) == decode_cuts_no_char(bs.skip(i as int)),
        decreases bs.len() - i,
    {
        let ghost rest = bs.skip(i as int);
        let b = bytes[i];
        assert(rest[0] == b);
        if b == 0x25 && bytes.len() - i > 2 {
            assert(rest[1] == bs[i + 1]);
            assert(rest[2] == bs[i + 2]);
            if bytes.len() - i > 3 {
                assert(rest[3] == bs[i + 3]);
                let c = bytes[i + 3];
                if 0x80 <= c && c <= 0xbf {
                    assert(is_continuation_byte(rest[3]));
                    assert(rest.len() != 3);
                    assert(!decode_cuts_no_char(rest));
                    return false;
                }
            }
            if hex_pair_value(bytes[i + 1], bytes[i + 2]).is_some() {
                assert(rest.skip(3) =~= bs.skip(i + 3));
                i = i + 3;
            } else {
                assert(rest.drop_first() =~= bs.skip(i + 1));
                i = i + 1;
            }
        } else {
            assert(rest.drop_first() =~= bs.skip(i + 1));
            i = i + 1;
        }
    }
    assert(bs.skip(i as int) =~= Seq::<u8>::empty());
    true
}

} // verus!
