//! Character-level helpers shared by the parsers and printers of the library:
//! splitting into lines and fields, trimming, and decimal numbers.
use vstd::prelude::*;

verus! {

// ---------------------------------------------------------------------------
// Conversions between `str`/`String` and character vectors
// ---------------------------------------------------------------------------

/// The characters of a string slice, in order.
pub fn chars_of(s: &str) -> (out: Vec<char>)
    ensures
        out@ == s@,
{
    let mut out: Vec<char> = Vec::new();
    for c in it: s.chars()
        invariant
            out@ == it.seq().take(it.index() as int),
    {
        out.push(c);
    }
    out
}

/// Builds a `String` from a slice of characters (std's `String::from_iter`).
/// Trusted: the resulting string holds exactly the given characters, in order,
/// as the documentation of `FromIterator<&char> for String` states.
#[verifier::external_body]
pub(crate) fn string_from_chars(chars: &[char]) -> (s: String)
    ensures
        s@ == chars@,
{
    String::from_iter(chars.iter())
}

/// Whether a character slice spells exactly the given string.
pub fn chars_equal_str(v: &[char], lit: &str) -> (b: bool)
    ensures
        b == (v@ == lit@),
{
    let w = chars_of(lit);
    if v.len() != w.len() {
        return false;
    }
    let mut i: usize = 0;
    while i < v.len()
        invariant
            v@.len() == w@.len(),
            w@ == lit@,
            i <= v@.len(),
            forall|j: int| 0 <= j < i ==> v@[j] == w@[j],
        decreases v@.len() - i,
    {
        if v[i] != w[i] {
            assert(v@[i as int] != w@[i as int]);
            return false;
        }
        i = i + 1;
    }
    assert(v@ =~= w@);
    true
}

/// Copies a range of a character slice into a new vector.
pub fn copy_range(v: &[char], start: usize, end: usize) -> (out: Vec<char>)
    requires
        start <= end <= v@.len(),
    ensures
        out@ == v@.subrange(start as int, end as int),
{
    let mut out: Vec<char> = Vec::new();
    let mut i: usize = start;
    while i < end
        invariant
            start <= i <= end <= v@.len(),
            out@ == v@.subrange(start as int, i as int),
        decreases end - i,
    {
        out.push(v[i]);
        i = i + 1;
        assert(out@ =~= v@.subrange(start as int, i as int));
    }
    out
}

/// Appends all characters of `src` to `dst`.
pub fn push_all(dst: &mut Vec<char>, src: &[char])
    ensures
        final(dst)@ == old(dst)@ + src@,
{
    let mut i: usize = 0;
    while i < src.len()
        invariant
            i <= src@.len(),
            dst@ == old(dst)@ + src@.take(i as int),
        decreases src@.len() - i,
    {
        dst.push(src[i]);
        i = i + 1;
        assert(dst@ =~= old(dst)@ + src@.take(i as int));
    }
    assert(src@.take(src@.len() as int) =~= src@);
}

/// Appends all characters of a string slice to `dst`.
pub fn push_str(dst: &mut Vec<char>, s: &str)
    ensures
        final(dst)@ == old(dst)@ + s@,
{
    let w = chars_of(s);
    push_all(dst, w.as_slice());
}

// ---------------------------------------------------------------------------
// Searching and splitting
// ---------------------------------------------------------------------------

/// Index of the first occurrence of `c` in `s`, or the length of `s` if absent.
pub open spec fn find_char(s: Seq<char>, c: char) -> nat
    decreases s.len(),
{
    if s.len() == 0 {
        0
    } else if s[0] == c {
        0
    } else {
        1 + find_char(s.drop_first(), c)
    }
}

/// What `find_char` returns, stated by its defining properties.
pub proof fn lemma_find_char(s: Seq<char>, c: char, k: int)
    requires
        0 <= k <= s.len(),
        forall|j: int| 0 <= j < k ==> s[j] != c,
        k == s.len() || s[k] == c,
    ensures
        find_char(s, c) == k,
    decreases s.len(),
{
    if s.len() > 0 && s[0] != c {
        assert forall|j: int| 0 <= j < k - 1 implies s.drop_first()[j] != c by {
            assert(s.drop_first()[j] == s[j + 1]);
        }
        lemma_find_char(s.drop_first(), c, k - 1);
    }
}

/// `find_char` lies within the sequence, points at `c`, and nothing before it is `c`.
pub proof fn lemma_find_char_props(s: Seq<char>, c: char)
    ensures
        find_char(s, c) <= s.len(),
        find_char(s, c) < s.len() ==> s[find_char(s, c) as int] == c,
        forall|j: int| 0 <= j < find_char(s, c) ==> s[j] != c,
    decreases s.len(),
{
    if s.len() > 0 && s[0] != c {
        lemma_find_char_props(s.drop_first(), c);
        assert forall|j: int| 0 <= j < find_char(s, c) implies s[j] != c by {
            if j > 0 {
                assert(s[j] == s.drop_first()[j - 1]);
            }
        }
    }
}

/// The pieces of `s` between occurrences of `c` (std's `str::split` with a
/// `char` pattern): always at least one piece, empty pieces kept.
pub open spec fn split_on(s: Seq<char>, c: char) -> Seq<Seq<char>>
    decreases s.len(),
{
    let k = find_char(s, c) as int;
    if k >= s.len() {
        seq![s]
    } else {
        seq![s.take(k)] + split_on(s.skip(k + 1), c)
    }
}

/// The views of a sequence of character vectors.
pub open spec fn char_vec_views(vs: Seq<Vec<char>>) -> Seq<Seq<char>> {
    vs.map_values(|v: Vec<char>| v@)
}

/// The views of a sequence of strings.
pub open spec fn string_views(vs: Seq<String>) -> Seq<Seq<char>> {
    vs.map_values(|v: String| v@)
}

/// Splits a character slice at every occurrence of `c`.
pub fn split_chars(v: &[char], c: char) -> (parts: Vec<Vec<char>>)
    ensures
        char_vec_views(parts@) == split_on(v@, c),
{
    let n = v.len();
    let mut parts: Vec<Vec<char>> = Vec::new();
    let mut start: usize = 0;
    assert(v@.skip(0) =~= v@);
    loop
        invariant
            start <= n == v@.len(),
            split_on(v@, c) == char_vec_views(parts@) + split_on(v@.skip(start as int), c),
        decreases n - start,
    {
        let mut j: usize = start;
        while j < n && v[j] != c
            invariant
                start <= j <= n == v@.len(),
                forall|i: int| start <= i < j ==> v@[i] != c,
            decreases n - j,
        {
            j = j + 1;
        }
        let piece = copy_range(v, start, j);
        let ghost rest = v@.skip(start as int);
        proof {
            assert forall|i: int| 0 <= i < j - start implies rest[i] != c by {
                assert(rest[i] == v@[start + i]);
            }
            lemma_find_char(rest, c, j - start);
            assert(rest.take(j - start) =~= piece@);
        }
        let ghost old_parts = parts@;
        parts.push(piece);
        assert(char_vec_views(parts@) =~= char_vec_views(old_parts).push(piece@));
        if j == n {
            assert(split_on(v@, c) =~= char_vec_views(parts@));
            return parts;
        }
        proof {
            assert(rest.skip(j - start + 1) =~= v@.skip(j + 1));
            assert(split_on(rest, c) == seq![piece@] + split_on(v@.skip(j + 1), c));
            assert(char_vec_views(old_parts) + split_on(rest, c) =~= char_vec_views(parts@)
                + split_on(v@.skip(j + 1), c));
        }
        start = j + 1;
    }
}

/// Joins pieces with a separator character in between.
pub open spec fn join_with(parts: Seq<Seq<char>>, c: char) -> Seq<char>
    decreases parts.len(),
{
    if parts.len() == 0 {
        seq![]
    } else if parts.len() == 1 {
        parts[0]
    } else {
        parts[0] + seq![c] + join_with(parts.drop_first(), c)
    }
}

/// Whether `c` occurs in `s`.
pub open spec fn has_char(s: Seq<char>, c: char) -> bool {
    exists|i: int| 0 <= i < s.len() && s[i] == c
}

/// Splitting undoes joining, provided no piece holds the separator.
pub proof fn lemma_split_join(parts: Seq<Seq<char>>, c: char)
    requires
        parts.len() > 0,
        forall|i: int| 0 <= i < parts.len() ==> !has_char(#[trigger] parts[i], c),
    ensures
        split_on(join_with(parts, c), c) == parts,
    decreases parts.len(),
{
    let s = join_with(parts, c);
    let p0 = parts[0];
    assert(!has_char(p0, c));
    if parts.len() == 1 {
        lemma_find_char(p0, c, p0.len() as int);
        assert(split_on(s, c) =~= parts);
    } else {
        let rest = parts.drop_first();
        assert forall|i: int| 0 <= i < rest.len() implies !has_char(#[trigger] rest[i], c) by {
            assert(rest[i] == parts[i + 1]);
        }
        lemma_split_join(rest, c);
        assert forall|j: int| 0 <= j < p0.len() implies s[j] != c by {
            assert(s[j] == p0[j]);
        }
        assert(s[p0.len() as int] == c);
        lemma_find_char(s, c, p0.len() as int);
        assert(s.take(p0.len() as int) =~= p0);
        assert(s.skip(p0.len() as int + 1) =~= join_with(rest, c));
        assert(split_on(s, c) =~= parts);
    }
}

// ---------------------------------------------------------------------------
// Lines
// ---------------------------------------------------------------------------

/// Drops one trailing carriage return.
pub open spec fn strip_cr(s: Seq<char>) -> Seq<char> {
    if s.len() > 0 && s.last() == '\r' {
        s.drop_last()
    } else {
        s
    }
}

/// The lines of a text as std's `BufRead::lines` yields them: split at each
/// `'\n'`, a `"\r\n"` ending counts as one line end, and a final empty piece
/// after the last newline is not a line.
pub open spec fn spec_lines(s: Seq<char>) -> Seq<Seq<char>> {
    let parts = split_on(s, '\n');
    let init = parts.drop_last().map_values(|p: Seq<char>| strip_cr(p));
    if parts.last().len() == 0 {
        init
    } else {
        init.push(parts.last())
    }
}

/// Each line followed by a newline.
pub open spec fn join_lines(lines: Seq<Seq<char>>) -> Seq<char>
    decreases lines.len(),
{
    if lines.len() == 0 {
        seq![]
    } else {
        lines[0] + seq!['\n'] + join_lines(lines.drop_first())
    }
}

/// Writing one more line appends it and a newline.
pub proof fn lemma_join_lines_push(lines: Seq<Seq<char>>, l: Seq<char>)
    ensures
        join_lines(lines.push(l)) == join_lines(lines) + l + seq!['\n'],
    decreases lines.len(),
{
    if lines.len() == 0 {
        assert(lines.push(l).drop_first() =~= Seq::<Seq<char>>::empty());
        assert(join_lines(Seq::<Seq<char>>::empty()) =~= Seq::<char>::empty());
        assert(lines.push(l)[0] == l);
        assert(join_lines(lines.push(l)) =~= join_lines(lines) + l + seq!['\n']);
    } else {
        lemma_join_lines_push(lines.drop_first(), l);
        assert(lines.push(l).drop_first() =~= lines.drop_first().push(l));
        assert(join_lines(lines.push(l)) =~= join_lines(lines) + l + seq!['\n']);
    }
}

/// A line that reads back unchanged: no newline inside, no carriage return at its end.
pub open spec fn is_plain_line(l: Seq<char>) -> bool {
    !has_char(l, '\n') && !(l.len() > 0 && l.last() == '\r')
}

proof fn lemma_join_lines_as_join_with(lines: Seq<Seq<char>>)
    ensures
        join_lines(lines) == join_with(lines.push(seq![]), '\n'),
    decreases lines.len(),
{
    if lines.len() == 0 {
        assert(join_with(lines.push(seq![]), '\n') =~= seq![]);
    } else {
        lemma_join_lines_as_join_with(lines.drop_first());
        assert(lines.push(seq![]).drop_first() =~= lines.drop_first().push(seq![]));
        assert(join_lines(lines) =~= join_with(lines.push(seq![]), '\n'));
    }
}

/// Reading the lines of text written line by line gives back the lines.
pub proof fn lemma_lines_of_join(lines: Seq<Seq<char>>)
    requires
        forall|i: int| 0 <= i < lines.len() ==> is_plain_line(#[trigger] lines[i]),
    ensures
        spec_lines(join_lines(lines)) == lines,
{
    let parts = lines.push(seq![]);
    lemma_join_lines_as_join_with(lines);
    assert forall|i: int| 0 <= i < parts.len() implies !has_char(#[trigger] parts[i], '\n') by {
        if i < lines.len() {
            assert(parts[i] == lines[i]);
            assert(is_plain_line(lines[i]));
        } else {
            assert(parts[i] =~= seq![]);
        }
    }
    lemma_split_join(parts, '\n');
    assert(parts.drop_last() =~= lines);
    let init = lines.map_values(|p: Seq<char>| strip_cr(p));
    assert forall|i: int| 0 <= i < lines.len() implies init[i] == lines[i] by {
        assert(is_plain_line(lines[i]));
    }
    assert(init =~= lines);
}

/// The lines of a text, as std's `BufRead::lines` would read them.
pub fn text_lines(text: &str) -> (lines: Vec<String>)
    ensures
        string_views(lines@) == spec_lines(text@),
{
    let v = chars_of(text);
    let parts = split_chars(v.as_slice(), '\n');
    let ghost pv = char_vec_views(parts@);
    assert(pv.len() == parts@.len());
    let n = parts.len();
    let mut lines: Vec<String> = Vec::new();
    let mut i: usize = 0;
    while i + 1 < n
        invariant
            pv == char_vec_views(parts@),
            pv == split_on(v@, '\n'),
            n == parts@.len(),
            n >= 1,
            i + 1 <= n,
            string_views(lines@) == pv.take(i as int).map_values(|p: Seq<char>| strip_cr(p)),
        decreases n - i,
    {
        let p = &parts[i];
        let s = if p.len() > 0 && p[p.len() - 1] == '\r' {
            string_from_chars(vstd::slice::slice_subrange(p.as_slice(), 0, p.len() - 1))
        } else {
            string_from_chars(p.as_slice())
        };
        proof {
            assert(pv[i as int] == p@);
            if p@.len() > 0 && p@.last() == '\r' {
                assert(s@ =~= p@.drop_last());
            }
        }
        let ghost old_lines = lines@;
        lines.push(s);
        proof {
            assert(string_views(lines@) =~= string_views(old_lines).push(s@));
            assert(pv.take(i + 1) =~= pv.take(i as int).push(pv[i as int]));
            assert(pv.take(i + 1).map_values(|p: Seq<char>| strip_cr(p)) =~= pv.take(
                i as int,
            ).map_values(|p: Seq<char>| strip_cr(p)).push(strip_cr(pv[i as int])));
        }
        i = i + 1;
    }
    proof {
        assert(i + 1 == n);
        assert(pv.take(i as int) =~= pv.drop_last());
    }
    let last = &parts[n - 1];
    if last.len() > 0 {
        let s = string_from_chars(last.as_slice());
        lines.push(s);
        assert(string_views(lines@) =~= spec_lines(text@));
    }
    lines
}

// ---------------------------------------------------------------------------
// Trimming
// ---------------------------------------------------------------------------

/// std's `char::is_ascii_whitespace`: space, tab, line feed, form feed, carriage return.
pub open spec fn is_ascii_ws(c: char) -> bool {
    c == ' ' || c == '\t' || c == '\n' || c == '\x0C' || c == '\r'
}

/// Drops leading ASCII whitespace.
pub open spec fn trim_start_ws(s: Seq<char>) -> Seq<char>
    decreases s.len(),
{
    if s.len() > 0 && is_ascii_ws(s[0]) {
        trim_start_ws(s.drop_first())
    } else {
        s
    }
}

/// Drops trailing ASCII whitespace.
pub open spec fn trim_end_ws(s: Seq<char>) -> Seq<char>
    decreases s.len(),
{
    if s.len() > 0 && is_ascii_ws(s.last()) {
        trim_end_ws(s.drop_last())
    } else {
        s
    }
}

/// Drops ASCII whitespace at both ends.
pub open spec fn spec_trim(s: Seq<char>) -> Seq<char> {
    trim_end_ws(trim_start_ws(s))
}

/// A text with no whitespace at either end is its own trim.
pub proof fn lemma_trim_plain(s: Seq<char>)
    requires
        s.len() > 0 ==> !is_ascii_ws(s[0]) && !is_ascii_ws(s.last()),
    ensures
        spec_trim(s) == s,
{
}

/// Trimming twice is trimming once.
pub proof fn lemma_trim_idempotent(s: Seq<char>)
    ensures
        spec_trim(spec_trim(s)) == spec_trim(s),
{
    lemma_trim_shape(s);
}

/// The trim of `s` is a range of `s` whose ends are not whitespace.
pub proof fn lemma_trim_shape(s: Seq<char>)
    ensures
        spec_trim(s).len() > 0 ==> !is_ascii_ws(spec_trim(s)[0]) && !is_ascii_ws(
            spec_trim(s).last(),
        ),
{
    lemma_trim_start_shape(s);
    lemma_trim_end_shape(trim_start_ws(s));
}

proof fn lemma_trim_start_shape(s: Seq<char>)
    ensures
        trim_start_ws(s).len() > 0 ==> !is_ascii_ws(trim_start_ws(s)[0]),
    decreases s.len(),
{
    if s.len() > 0 && is_ascii_ws(s[0]) {
        lemma_trim_start_shape(s.drop_first());
    }
}

proof fn lemma_trim_end_shape(s: Seq<char>)
    ensures
        trim_end_ws(s).len() > 0 ==> !is_ascii_ws(trim_end_ws(s).last()),
        trim_end_ws(s).len() > 0 && s.len() > 0 && !is_ascii_ws(s[0]) ==> !is_ascii_ws(
            trim_end_ws(s)[0],
        ),
        trim_end_ws(s).len() <= s.len(),
        trim_end_ws(s) == s.take(trim_end_ws(s).len() as int),
    decreases s.len(),
{
    if s.len() > 0 && is_ascii_ws(s.last()) {
        lemma_trim_end_shape(s.drop_last());
        let t = trim_end_ws(s.drop_last());
        assert(t =~= s.take(t.len() as int));
        if t.len() > 0 {
            assert(t[0] == s[0]);
        }
    } else {
        assert(s.take(s.len() as int) =~= s);
    }
}

proof fn lemma_trim_start_skip(s: Seq<char>, i: int)
    requires
        0 <= i <= s.len(),
        forall|j: int| 0 <= j < i ==> is_ascii_ws(s[j]),
    ensures
        trim_start_ws(s) == trim_start_ws(s.skip(i)),
    decreases i,
{
    if i > 0 {
        assert forall|j: int| 0 <= j < i - 1 implies is_ascii_ws(s.drop_first()[j]) by {
            assert(s.drop_first()[j] == s[j + 1]);
        }
        lemma_trim_start_skip(s.drop_first(), i - 1);
        assert(s.drop_first().skip(i - 1) =~= s.skip(i));
    } else {
        assert(s.skip(0) =~= s);
    }
}

proof fn lemma_trim_end_take(s: Seq<char>, i: int)
    requires
        0 <= i <= s.len(),
        forall|j: int| i <= j < s.len() ==> is_ascii_ws(s[j]),
    ensures
        trim_end_ws(s) == trim_end_ws(s.take(i)),
    decreases s.len() - i,
{
    if i < s.len() {
        assert forall|j: int| i <= j < s.drop_last().len() implies is_ascii_ws(
            s.drop_last()[j],
        ) by {
            assert(s.drop_last()[j] == s[j]);
        }
        lemma_trim_end_take(s.drop_last(), i);
        assert(s.drop_last().take(i) =~= s.take(i));
    } else {
        assert(s.take(i) =~= s);
    }
}

/// Trims ASCII whitespace from both ends of a character slice: the range
/// `[start, end)` that remains.
pub fn trim_range(v: &[char]) -> (r: (usize, usize))
    ensures
        r.0 <= r.1 <= v@.len(),
        v@.subrange(r.0 as int, r.1 as int) == spec_trim(v@),
{
    let n = v.len();
    let mut i: usize = 0;
    while i < n && is_ascii_whitespace(v[i])
        invariant
            i <= n == v@.len(),
            forall|j: int| 0 <= j < i ==> is_ascii_ws(v@[j]),
        decreases n - i,
    {
        i = i + 1;
    }
    proof {
        lemma_trim_start_skip(v@, i as int);
        if i < n {
            assert(!is_ascii_ws(v@.skip(i as int)[0]));
        }
        assert(trim_start_ws(v@.skip(i as int)) == v@.skip(i as int));
    }
    let mut k: usize = n;
    while k > i && is_ascii_whitespace(v[k - 1])
        invariant
            i <= k <= n == v@.len(),
            forall|j: int| k <= j < n ==> is_ascii_ws(v@[j]),
        decreases k,
    {
        k = k - 1;
    }
    proof {
        let t = v@.skip(i as int);
        assert forall|j: int| k - i <= j < t.len() implies is_ascii_ws(t[j]) by {
            assert(t[j] == v@[i + j]);
        }
        lemma_trim_end_take(t, k - i);
        assert(t.take(k - i) =~= v@.subrange(i as int, k as int));
        let u = v@.subrange(i as int, k as int);
        if u.len() > 0 {
            assert(u.last() == v@[k - 1]);
        }
        assert(trim_end_ws(u) == u);
    }
    (i, k)
}

/// `char::is_ascii_whitespace`.
pub fn is_ascii_whitespace(c: char) -> (b: bool)
    ensures
        b == is_ascii_ws(c),
{
    c == ' ' || c == '\t' || c == '\n' || c == '\x0C' || c == '\r'
}

/// Removes ASCII whitespace from both ends of a character vector.
pub fn trim_chars(v: &[char]) -> (out: Vec<char>)
    ensures
        out@ == spec_trim(v@),
{
    let (a, b) = trim_range(v);
    copy_range(v, a, b)
}

// ---------------------------------------------------------------------------
// Decimal numbers
// ---------------------------------------------------------------------------

/// The value of an ASCII decimal digit.
pub open spec fn digit_value(c: char) -> nat {
    (c as u32 - '0' as u32) as nat
}

/// Whether every character is an ASCII decimal digit.
pub open spec fn all_digits(s: Seq<char>) -> bool {
    forall|i: int| 0 <= i < s.len() ==> '0' <= #[trigger] s[i] <= '9'
}

/// The number that a string of decimal digits spells.
pub open spec fn digits_value(s: Seq<char>) -> nat
    decreases s.len(),
{
    if s.len() == 0 {
        0
    } else {
        digits_value(s.drop_last()) * 10 + digit_value(s.last())
    }
}

/// std's `u64::from_str`: an optional `+`, then one or more decimal digits,
/// with a value that fits.
pub open spec fn spec_parse_u64(s: Seq<char>) -> Option<u64> {
    let d = if s.len() > 0 && s[0] == '+' {
        s.drop_first()
    } else {
        s
    };
    if d.len() > 0 && all_digits(d) && digits_value(d) <= u64::MAX {
        Some(digits_value(d) as u64)
    } else {
        None
    }
}

/// std's `i32::from_str`: an optional sign, then one or more decimal digits,
/// with a value that fits.
pub open spec fn spec_parse_i32(s: Seq<char>) -> Option<i32> {
    if s.len() > 0 && s[0] == '-' {
        let d = s.drop_first();
        if d.len() > 0 && all_digits(d) && digits_value(d) <= 0x8000_0000 {
            Some((0 - digits_value(d)) as i32)
        } else {
            None
        }
    } else {
        let d = if s.len() > 0 && s[0] == '+' {
            s.drop_first()
        } else {
            s
        };
        if d.len() > 0 && all_digits(d) && digits_value(d) <= 0x7fff_ffff {
            Some(digits_value(d) as i32)
        } else {
            None
        }
    }
}

/// A longer digit string is worth at least as much as any of its prefixes.
pub proof fn lemma_digits_value_prefix(s: Seq<char>, i: int)
    requires
        0 <= i <= s.len(),
    ensures
        digits_value(s.take(i)) <= digits_value(s),
    decreases s.len() - i,
{
    if i < s.len() {
        lemma_digits_value_prefix(s.drop_last(), i);
        assert(s.drop_last().take(i) =~= s.take(i));
    } else {
        assert(s.take(i) =~= s);
    }
}

/// Reads a run of decimal digits, giving up (`None`) once the value exceeds `bound`.
fn digits_upto(d: &[char], bound: u64) -> (r: Option<u64>)
    requires
        d@.len() > 0,
        bound < 0x1000_0000_0000_0000u64,
    ensures
        match r {
            Some(v) => all_digits(d@) && digits_value(d@) <= bound && v == digits_value(d@),
            None => !(all_digits(d@) && digits_value(d@) <= bound),
        },
{
    let mut acc: u64 = 0;
    let mut i: usize = 0;
    while i < d.len()
        invariant
            i <= d@.len(),
            all_digits(d@.take(i as int)),
            acc == digits_value(d@.take(i as int)),
            acc <= bound,
            bound < 0x1000_0000_0000_0000u64,
        decreases d@.len() - i,
    {
        let c = d[i];
        if !('0' <= c && c <= '9') {
            proof {
                assert(d@[i as int] == c);
                assert(!all_digits(d@));
            }
            return None;
        }
        let dv = (c as u32 - '0' as u32) as u64;
        let next = acc * 10 + dv;
        proof {
            assert(d@.take(i + 1).drop_last() =~= d@.take(i as int));
            assert(d@.take(i + 1).last() == c);
            assert(digits_value(d@.take(i + 1)) == next);
        }
        if next > bound {
            proof {
                lemma_digits_value_prefix(d@, i + 1);
            }
            return None;
        }
        acc = next;
        i = i + 1;
        assert(all_digits(d@.take(i as int)));
    }
    assert(d@.take(i as int) =~= d@);
    Some(acc)
}

/// std's `str::parse::<u64>` on a character slice.
pub fn parse_u64(s: &[char]) -> (r: Option<u64>)
    ensures
        r == spec_parse_u64(s@),
{
    let d: &[char] = if s.len() > 0 && s[0] == '+' {
        vstd::slice::slice_subrange(s, 1, s.len())
    } else {
        s
    };
    assert(d@ == (if s@.len() > 0 && s@[0] == '+' {
        s@.drop_first()
    } else {
        s@
    }));
    if d.len() == 0 {
        return None;
    }
    let mut acc: u64 = 0;
    let mut i: usize = 0;
    while i < d.len()
        invariant
            i <= d@.len(),
            d@ == (if s@.len() > 0 && s@[0] == '+' {
                s@.drop_first()
            } else {
                s@
            }),
            all_digits(d@.take(i as int)),
            acc == digits_value(d@.take(i as int)),
        decreases d@.len() - i,
    {
        let c = d[i];
        if !('0' <= c && c <= '9') {
            assert(d@[i as int] == c);
            assert(!all_digits(d@));
            return None;
        }
        let dv = (c as u32 - '0' as u32) as u64;
        proof {
            assert(d@.take(i + 1).drop_last() =~= d@.take(i as int));
            assert(d@.take(i + 1).last() == c);
            assert(digits_value(d@.take(i + 1)) == acc * 10 + dv);
        }
        match acc.checked_mul(10) {
            None => {
                proof {
                    lemma_digits_value_prefix(d@, i + 1);
                }
                return None;
            },
            Some(m) => match m.checked_add(dv) {
                None => {
                    proof {
                        lemma_digits_value_prefix(d@, i + 1);
                    }
                    return None;
                },
                Some(next) => {
                    acc = next;
                },
            },
        }
        i = i + 1;
        assert(all_digits(d@.take(i as int)));
    }
    assert(d@.take(i as int) =~= d@);
    Some(acc)
}

/// std's `str::parse::<i32>` on a character slice.
pub fn parse_i32(s: &[char]) -> (r: Option<i32>)
    ensures
        r == spec_parse_i32(s@),
{
    if s.len() > 0 && s[0] == '-' {
        let d = vstd::slice::slice_subrange(s, 1, s.len());
        assert(d@ == s@.drop_first());
        if d.len() == 0 {
            return None;
        }
        match digits_upto(d, 0x8000_0000) {
            Some(v) => Some((0 - (v as i64)) as i32),
            None => None,
        }
    } else {
        let d: &[char] = if s.len() > 0 && s[0] == '+' {
            vstd::slice::slice_subrange(s, 1, s.len())
        } else {
            s
        };
        assert(d@ == (if s@.len() > 0 && s@[0] == '+' {
            s@.drop_first()
        } else {
            s@
        }));
        if d.len() == 0 {
            return None;
        }
        match digits_upto(d, 0x7fff_ffff) {
            Some(v) => Some(v as i32),
            None => None,
        }
    }
}

/// The ASCII digit for a value below ten.
pub open spec fn digit_char(d: nat) -> char {
    if d == 0 {
        '0'
    } else if d == 1 {
        '1'
    } else if d == 2 {
        '2'
    } else if d == 3 {
        '3'
    } else if d == 4 {
        '4'
    } else if d == 5 {
        '5'
    } else if d == 6 {
        '6'
    } else if d == 7 {
        '7'
    } else if d == 8 {
        '8'
    } else {
        '9'
    }
}

/// The ASCII digit for a value below ten.
pub fn digit_to_char(d: u8) -> (c: char)
    requires
        d < 10,
    ensures
        c == digit_char(d as nat),
{
    if d == 0 {
        '0'
    } else if d == 1 {
        '1'
    } else if d == 2 {
        '2'
    } else if d == 3 {
        '3'
    } else if d == 4 {
        '4'
    } else if d == 5 {
        '5'
    } else if d == 6 {
        '6'
    } else if d == 7 {
        '7'
    } else if d == 8 {
        '8'
    } else {
        '9'
    }
}

/// The decimal representation of a natural number, without leading zeros.
pub open spec fn decimal(n: nat) -> Seq<char>
    decreases n,
{
    if n < 10 {
        seq![digit_char(n)]
    } else {
        decimal(n / 10) + seq![digit_char(n % 10)]
    }
}

/// The decimal representation of a signed number, as `Display` writes it.
pub open spec fn decimal_i32(x: i32) -> Seq<char> {
    if x < 0 {
        seq!['-'] + decimal((0 - x) as nat)
    } else {
        decimal(x as nat)
    }
}

/// Reading a decimal representation gives back the number.
pub proof fn lemma_decimal_digits(n: nat)
    ensures
        decimal(n).len() > 0,
        all_digits(decimal(n)),
        digits_value(decimal(n)) == n,
        decimal(n)[0] != '+' && decimal(n)[0] != '-',
    decreases n,
{
    if n < 10 {
        assert(digit_value(digit_char(n)) == n);
        assert(decimal(n).drop_last() =~= seq![]);
        assert(digits_value(decimal(n)) == digits_value(decimal(n).drop_last()) * 10 + digit_value(decimal(n).last()));
    } else {
        lemma_decimal_digits(n / 10);
        vstd::arithmetic::div_mod::lemma_fundamental_div_mod(n as int, 10);
        let s = decimal(n);
        assert(s.drop_last() =~= decimal(n / 10));
        assert(digit_value(digit_char(n % 10)) == n % 10);
        assert(s.last() == digit_char(n % 10));
        assert(digits_value(s) == digits_value(decimal(n / 10)) * 10 + digit_value(s.last()));
        assert(digits_value(s) == n);
        assert(s[0] == decimal(n / 10)[0]);
        assert forall|i: int| 0 <= i < s.len() implies '0' <= #[trigger] s[i] <= '9' by {
            if i < s.len() - 1 {
                assert(s[i] == decimal(n / 10)[i]);
            }
        }
    }
}

/// Parsing the decimal form of a `u64` gives it back.
pub proof fn lemma_parse_u64_decimal(n: u64)
    ensures
        spec_parse_u64(decimal(n as nat)) == Some(n),
{
    lemma_decimal_digits(n as nat);
}

/// Parsing the decimal form of an `i32` gives it back.
pub proof fn lemma_parse_i32_decimal(x: i32)
    ensures
        spec_parse_i32(decimal_i32(x)) == Some(x),
{
    if x < 0 {
        lemma_decimal_digits((0 - x) as nat);
        assert((seq!['-'] + decimal((0 - x) as nat)).drop_first() =~= decimal((0 - x) as nat));
    } else {
        lemma_decimal_digits(x as nat);
    }
}

/// Appends the decimal form of `n`.
pub fn push_decimal(out: &mut Vec<char>, n: u64)
    ensures
        final(out)@ == old(out)@ + decimal(n as nat),
    decreases n,
{
    if n >= 10 {
        push_decimal(out, n / 10);
    }
    let c = digit_to_char((n % 10) as u8);
    out.push(c);
    assert(old(out)@ + decimal(n as nat) =~= out@);
}

/// Appends the decimal form of `x`, with a minus sign when negative.
pub fn push_decimal_i32(out: &mut Vec<char>, x: i32)
    ensures
        final(out)@ == old(out)@ + decimal_i32(x),
{
    if x < 0 {
        out.push('-');
        let m = (0 - (x as i64)) as u64;
        push_decimal(out, m);
        assert(out@ =~= old(out)@ + decimal_i32(x));
    } else {
        push_decimal(out, x as u64);
    }
}

} // verus!
