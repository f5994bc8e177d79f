//! Saved icon layouts: one tab-separated line per Desktop item, with its
//! percent-encoded relative name and its icon position.
use vstd::prelude::*;
use crate::encoding::{
    decodable, is_decodable, lemma_percent_encode_plain, lemma_percent_round_trip, percent_decode,
    percent_encode, spec_percent_decode, spec_percent_encode,
};
use crate::path_logic::{relative_name_for_desktop_item, spec_relative_name};
use crate::text::{
    char_vec_views, chars_of, decimal_i32, has_char, is_plain_line, join_lines, join_with,
    lemma_decimal_digits, lemma_lines_of_join, lemma_parse_i32_decimal, lemma_split_join,
    push_decimal_i32, push_str, spec_lines, spec_parse_i32, split_chars, split_on,
    string_from_chars, string_views, parse_i32,
};

verus! {

/// The position of a Desktop icon.
#[derive(Clone, Copy, Debug, Eq, PartialEq, Structural)]
pub struct IconPosition {
    pub x: i32,
    pub y: i32,
}

/// Saved positions, by relative name, each name once.
pub type LayoutEntries = Seq<(Seq<char>, IconPosition)>;

/// The index of `key` among the entries, or their number when absent.
pub open spec fn key_index(entries: LayoutEntries, key: Seq<char>) -> int
    decreases entries.len(),
{
    if entries.len() == 0 {
        0
    } else if entries[0].0 == key {
        0
    } else {
        1 + key_index(entries.drop_first(), key)
    }
}

/// The entries with `key` set to `pos`: replaced where the key is, added at
/// the end otherwise (a map from names to positions, in first-seen order).
pub open spec fn upsert(entries: LayoutEntries, key: Seq<char>, pos: IconPosition) -> LayoutEntries {
    let k = key_index(entries, key);
    if k < entries.len() {
        entries.update(k, (key, pos))
    } else {
        entries.push((key, pos))
    }
}

/// The layout after one more line: `name<TAB>x<TAB>y[<TAB>...]` with both
/// numbers readable sets the position of the decoded name; any other line is
/// counted as skipped.
pub open spec fn layout_step(acc: (LayoutEntries, nat), line: Seq<char>) -> (LayoutEntries, nat) {
    let parts = split_on(line, '\t');
    if parts.len() >= 3 {
        match (spec_parse_i32(parts[1]), spec_parse_i32(parts[2])) {
            (Some(x), Some(y)) => (
                upsert(acc.0, spec_percent_decode(parts[0]), IconPosition { x, y }),
                acc.1,
            ),
            _ => (acc.0, acc.1 + 1),
        }
    } else {
        (acc.0, acc.1 + 1)
    }
}

/// The layout and the number of skipped lines that a layout file's lines give.
pub open spec fn spec_parse_layout(lines: Seq<Seq<char>>) -> (LayoutEntries, nat)
    decreases lines.len(),
{
    if lines.len() == 0 {
        (seq![], 0)
    } else {
        layout_step(spec_parse_layout(lines.drop_last()), lines.last())
    }
}

/// Whether the name of every line that sets a position can be decoded.
pub open spec fn layout_decodable(lines: Seq<Seq<char>>) -> bool {
    forall|i: int|
        0 <= i < lines.len() ==> {
            let parts = #[trigger] split_on(lines[i], '\t');
            (parts.len() >= 3 && spec_parse_i32(parts[1]) is Some && spec_parse_i32(parts[2]) is Some)
                ==> decodable(parts[0])
        }
}

/// The entries as values.
pub open spec fn entries_view(v: Seq<(String, IconPosition)>) -> LayoutEntries {
    v.map_values(|e: (String, IconPosition)| (e.0@, e.1))
}

/// Sets the position of `key`, replacing an earlier one.
fn upsert_entry(entries: &mut Vec<(String, IconPosition)>, key: String, pos: IconPosition)
    ensures
        entries_view(final(entries)@) == upsert(entries_view(old(entries)@), key@, pos),
{
    let ghost ev = entries_view(entries@);
    let kv = chars_of(key.as_str());
    let mut i: usize = 0;
    while i < entries.len()
        invariant
            ev == entries_view(entries@),
            entries@ == old(entries)@,
            kv@ == key@,
            i <= entries@.len(),
            forall|j: int| 0 <= j < i ==> ev[j].0 != key@,
        decreases entries@.len() - i,
    {
        if crate::text::chars_equal_str(kv.as_slice(), entries[i].0.as_str()) {
            proof {
                assert(ev[i as int].0 == key@);
                lemma_key_index(ev, key@, i as int);
            }
            entries.set(i, (key, pos));
            assert(entries_view(entries@) =~= upsert(ev, key@, pos));
            return;
        }
        i = i + 1;
    }
    proof {
        lemma_key_index(ev, key@, i as int);
    }
    entries.push((key, pos));
    assert(entries_view(entries@) =~= upsert(ev, key@, pos));
}

proof fn lemma_key_index(entries: LayoutEntries, key: Seq<char>, k: int)
    requires
        0 <= k <= entries.len(),
        forall|j: int| 0 <= j < k ==> entries[j].0 != key,
        k == entries.len() || entries[k].0 == key,
    ensures
        key_index(entries, key) == k,
    decreases entries.len(),
{
    if entries.len() > 0 && entries[0].0 != key {
        assert forall|j: int| 0 <= j < k - 1 implies entries.drop_first()[j].0 != key by {
            assert(entries.drop_first()[j] == entries[j + 1]);
        }
        lemma_key_index(entries.drop_first(), key, k - 1);
    }
}

/// Reads the lines of a layout file (the lines std's `BufRead::lines`
/// yields, up to the first that is not valid UTF-8): the saved positions by
/// name, and how many lines were skipped as malformed.
pub fn load_layout_lines(lines: &[String]) -> (r: (Vec<(String, IconPosition)>, usize))
    requires
        layout_decodable(string_views(lines@)),
    ensures
        (entries_view(r.0@), r.1 as nat) == spec_parse_layout(string_views(lines@)),
{
    let ghost ls = string_views(lines@);
    let mut entries: Vec<(String, IconPosition)> = Vec::new();
    let mut skipped: usize = 0;
    let mut i: usize = 0;
    assert(ls.take(0) =~= Seq::<Seq<char>>::empty());
    assert(entries_view(entries@) =~= Seq::<(Seq<char>, IconPosition)>::empty());
    while i < lines.len()
        invariant
            ls == string_views(lines@),
            i <= lines@.len(),
            layout_decodable(ls),
            skipped <= i,
            (entries_view(entries@), skipped as nat) == spec_parse_layout(ls.take(i as int)),
        decreases lines@.len() - i,
    {
        let line = chars_of(lines[i].as_str());
        proof {
            assert(ls.take(i + 1).drop_last() =~= ls.take(i as int));
            assert(ls.take(i + 1).last() == line@);
            assert(ls[i as int] == line@);
        }
        let parts = split_chars(line.as_slice(), '\t');
        let ghost pv = char_vec_views(parts@);
        assert(pv.len() == parts@.len());
        if parts.len() >= 3 {
            assert(pv[0] == parts@[0]@ && pv[1] == parts@[1]@ && pv[2] == parts@[2]@);
            match (parse_i32(parts[1].as_slice()), parse_i32(parts[2].as_slice())) {
                (Some(x), Some(y)) => {
                    let encoded = string_from_chars(parts[0].as_slice());
                    let name = percent_decode(encoded.as_str());
                    upsert_entry(&mut entries, name, IconPosition { x, y });
                },
                _ => {
                    skipped = skipped + 1;
                },
            }
        } else {
            skipped = skipped + 1;
        }
        i = i + 1;
    }
    assert(ls.take(i as int) =~= ls);
    (entries, skipped)
}

/// The line saved for one icon.
pub open spec fn spec_layout_line(name: Seq<char>, pos: IconPosition) -> Seq<char> {
    spec_percent_encode(name) + "\t"@ + decimal_i32(pos.x) + "\t"@ + decimal_i32(pos.y)
}

/// The line saved for one icon: encoded relative name, x and y, tab-separated.
pub fn layout_line(name: &str, pos: IconPosition) -> (line: String)
    ensures
        line@ == spec_layout_line(name@, pos),
{
    let mut v: Vec<char> = Vec::new();
    let e = percent_encode(name);
    push_str(&mut v, e.as_str());
    v.push('\t');
    push_decimal_i32(&mut v, pos.x);
    v.push('\t');
    push_decimal_i32(&mut v, pos.y);
    proof {
        reveal_strlit("\t");
        assert(v@ =~= spec_layout_line(name@, pos));
    }
    string_from_chars(v.as_slice())
}

/// The text of a layout file holding the given entries.
pub open spec fn spec_layout_text(entries: LayoutEntries) -> Seq<char> {
    join_lines(entries.map_values(|e: (Seq<char>, IconPosition)| spec_layout_line(e.0, e.1)))
}

/// Whether no name occurs twice.
pub open spec fn names_distinct(entries: LayoutEntries) -> bool {
    forall|i: int, j: int|
        #![trigger entries[i], entries[j]]
        0 <= i < entries.len() && 0 <= j < entries.len() && i != j ==> entries[i].0 != entries[j].0
}

proof fn lemma_decimal_i32_plain(x: i32)
    ensures
        decimal_i32(x).len() > 0,
        !has_char(decimal_i32(x), '\t'),
        !has_char(decimal_i32(x), '\n'),
        decimal_i32(x).last() != '\r',
{
    let d = if x < 0 {
        (0 - x) as nat
    } else {
        x as nat
    };
    lemma_decimal_digits(d);
    let s = decimal_i32(x);
    assert forall|i: int| 0 <= i < s.len() implies s[i] != '\t' && s[i] != '\n' by {
        if x < 0 {
            if i > 0 {
                assert(s[i] == crate::text::decimal(d)[i - 1]);
            }
        } else {
            assert(s[i] == crate::text::decimal(d)[i]);
        }
    }
    if x < 0 {
        assert(s.last() == crate::text::decimal(d).last());
    }
    assert('0' <= crate::text::decimal(d)[crate::text::decimal(d).len() - 1] <= '9');
}

#[verifier::spinoff_prover]
#[verifier::rlimit(40)]
proof fn lemma_layout_fields(name: Seq<char>, pos: IconPosition)
    ensures
        split_on(spec_layout_line(name, pos), '\t') == seq![
            spec_percent_encode(name),
            decimal_i32(pos.x),
            decimal_i32(pos.y),
        ],
{
    reveal_strlit("\t");
    let e = spec_percent_encode(name);
    let a = decimal_i32(pos.x);
    let b = decimal_i32(pos.y);
    lemma_percent_encode_plain(name);
    lemma_decimal_i32_plain(pos.x);
    lemma_decimal_i32_plain(pos.y);
    assert(!has_char(e, '\t')) by {
        assert forall|i: int| 0 <= i < e.len() implies e[i] != '\t' by {
            let c = e[i];
        }
    }
    let parts = seq![e, a, b];
    assert(parts.drop_first() =~= seq![a, b]);
    assert(seq![a, b].drop_first() =~= seq![b]);
    assert(join_with(seq![b], '\t') == b);
    assert(join_with(seq![a, b], '\t') =~= a + "\t"@ + b);
    assert(join_with(parts, '\t') =~= spec_layout_line(name, pos));
    lemma_split_join(parts, '\t');
}

proof fn lemma_layout_plain(name: Seq<char>, pos: IconPosition)
    ensures
        is_plain_line(spec_layout_line(name, pos)),
{
    reveal_strlit("\t");
    let e = spec_percent_encode(name);
    let a = decimal_i32(pos.x);
    let b = decimal_i32(pos.y);
    lemma_percent_encode_plain(name);
    lemma_decimal_i32_plain(pos.x);
    lemma_decimal_i32_plain(pos.y);
    let l = spec_layout_line(name, pos);
    assert(l =~= e + "\t"@ + a + "\t"@ + b);
    assert forall|i: int| 0 <= i < l.len() implies l[i] != '\n' by {
        if i < e.len() {
            assert(l[i] == e[i]);
        } else if i == e.len() {
        } else if i < e.len() + 1 + a.len() {
            assert(l[i] == a[i - e.len() - 1]);
        } else if i == e.len() + 1 + a.len() {
        } else {
            assert(l[i] == b[i - e.len() - 2 - a.len()]);
        }
    }
    assert(l.last() == b.last());
}

proof fn lemma_layout_line_reads(acc: (LayoutEntries, nat), name: Seq<char>, pos: IconPosition)
    ensures
        is_plain_line(spec_layout_line(name, pos)),
        layout_step(acc, spec_layout_line(name, pos)) == (upsert(acc.0, name, pos), acc.1),
        decodable(split_on(spec_layout_line(name, pos), '\t')[0]),
        split_on(spec_layout_line(name, pos), '\t').len() == 3,
{
    lemma_layout_fields(name, pos);
    lemma_layout_plain(name, pos);
    lemma_percent_round_trip(name);
    lemma_parse_i32_decimal(pos.x);
    lemma_parse_i32_decimal(pos.y);
}

/// Saving a layout and loading it back gives the same positions for the same
/// names, with no line skipped, when no name occurs twice.
pub proof fn lemma_layout_round_trip(entries: LayoutEntries)
    requires
        names_distinct(entries),
    ensures
        layout_decodable(spec_lines(spec_layout_text(entries))),
        spec_parse_layout(spec_lines(spec_layout_text(entries))) == (entries, 0nat),
{
    let ls = entries.map_values(|e: (Seq<char>, IconPosition)| spec_layout_line(e.0, e.1));
    assert forall|i: int| 0 <= i < ls.len() implies is_plain_line(#[trigger] ls[i]) by {
        lemma_layout_line_reads((seq![], 0), entries[i].0, entries[i].1);
    }
    lemma_lines_of_join(ls);
    assert forall|i: int| 0 <= i < ls.len() implies {
        let parts = #[trigger] split_on(ls[i], '\t');
        (parts.len() >= 3 && spec_parse_i32(parts[1]) is Some && spec_parse_i32(parts[2]) is Some)
            ==> decodable(parts[0])
    } by {
        lemma_layout_line_reads((seq![], 0), entries[i].0, entries[i].1);
    }
    lemma_layout_prefix(entries, ls, entries.len() as int);
    assert(ls.take(entries.len() as int) =~= ls);
    assert(entries.take(entries.len() as int) =~= entries);
}

proof fn lemma_layout_prefix(entries: LayoutEntries, ls: Seq<Seq<char>>, k: int)
    requires
        names_distinct(entries),
        ls == entries.map_values(|e: (Seq<char>, IconPosition)| spec_layout_line(e.0, e.1)),
        0 <= k <= entries.len(),
    ensures
        spec_parse_layout(ls.take(k)) == (entries.take(k), 0nat),
    decreases k,
{
    if k == 0 {
        assert(ls.take(0) =~= Seq::<Seq<char>>::empty());
        assert(entries.take(0) =~= Seq::<(Seq<char>, IconPosition)>::empty());
    } else {
        lemma_layout_prefix(entries, ls, k - 1);
        assert(ls.take(k).drop_last() =~= ls.take(k - 1));
        assert(ls.take(k).last() == spec_layout_line(entries[k - 1].0, entries[k - 1].1));
        lemma_layout_line_reads((entries.take(k - 1), 0), entries[k - 1].0, entries[k - 1].1);
        let prev = entries.take(k - 1);
        assert forall|j: int| 0 <= j < prev.len() implies prev[j].0 != entries[k - 1].0 by {
            assert(prev[j] == entries[j]);
        }
        lemma_key_index(prev, entries[k - 1].0, prev.len() as int);
        assert(prev.push((entries[k - 1].0, entries[k - 1].1)) =~= entries.take(k));
    }
}

/// The index of the last visible item named `name`, if any (the view keeps
/// the last of items with the same name).
pub open spec fn last_index_of(visible: Seq<Seq<char>>, name: Seq<char>) -> Option<int>
    decreases visible.len(),
{
    if visible.len() == 0 {
        None
    } else if visible.last() == name {
        Some(visible.len() - 1)
    } else {
        last_index_of(visible.drop_last(), name)
    }
}

proof fn lemma_last_index_of(visible: Seq<Seq<char>>, name: Seq<char>, k: int)
    requires
        -1 <= k < visible.len(),
        forall|j: int| k < j < visible.len() ==> visible[j] != name,
        k >= 0 ==> visible[k] == name,
    ensures
        last_index_of(visible, name) == (if k >= 0 {
            Some(k)
        } else {
            None::<int>
        }),
    decreases visible.len(),
{
    if visible.len() > 0 && k < visible.len() - 1 {
        lemma_last_index_of(visible.drop_last(), name, k);
    }
}

/// For each saved name, the visible item that carries it: which icons a
/// restore can place, and which saved names are missing from the view.
pub fn match_layout(saved: &[String], visible: &[String]) -> (r: Vec<Option<usize>>)
    ensures
        r@.len() == saved@.len(),
        forall|i: int|
            0 <= i < saved@.len() ==> match #[trigger] r@[i] {
                Some(k) => last_index_of(string_views(visible@), saved@[i]@) == Some(k as int),
                None => last_index_of(string_views(visible@), saved@[i]@) is None,
            },
{
    let ghost vv = string_views(visible@);
    let mut r: Vec<Option<usize>> = Vec::new();
    let mut i: usize = 0;
    while i < saved.len()
        invariant
            vv == string_views(visible@),
            i <= saved@.len(),
            r@.len() == i,
            forall|j: int|
                0 <= j < i ==> match #[trigger] r@[j] {
                    Some(k) => last_index_of(vv, saved@[j]@) == Some(k as int),
                    None => last_index_of(vv, saved@[j]@) is None,
                },
        decreases saved@.len() - i,
    {
        let name = saved[i].as_str();
        let mut k: usize = visible.len();
        let mut found: Option<usize> = None;
        while k > 0 && found.is_none()
            invariant
                vv == string_views(visible@),
                k <= visible@.len(),
                match found {
                    None => forall|j: int| k <= j < visible@.len() ==> vv[j] != name@,
                    Some(f) => f == k && f < visible@.len() && vv[f as int] == name@ && forall|
                        j: int,
                    |
                        f < j < visible@.len() ==> vv[j] != name@,
                },
            decreases k,
        {
            k = k - 1;
            assert(vv[k as int] == visible@[k as int]@);
            if crate::config::str_equal(visible[k].as_str(), name) {
                found = Some(k);
            }
        }
        proof {
            match found {
                Some(f) => {
                    lemma_last_index_of(vv, name@, f as int);
                },
                None => {
                    lemma_last_index_of(vv, name@, -1);
                },
            }
        }
        r.push(found);
        i = i + 1;
    }
    r
}

/// The line saved for a Desktop item at `pos`: its relative name under the
/// Desktop folder with the position, or none when the item is not under the
/// Desktop (both paths already canonical).
pub fn saved_layout_line(item_path: &str, desktop: &str, pos: IconPosition) -> (line: Option<
    String,
>)
    ensures
        match line {
            Some(l) => spec_relative_name(item_path@, desktop@).len() > 0 && l@ == spec_layout_line(
                spec_relative_name(item_path@, desktop@),
                pos,
            ),
            None => spec_relative_name(item_path@, desktop@).len() == 0,
        },
{
    let rel = relative_name_for_desktop_item(item_path, desktop);
    if chars_of(rel.as_str()).len() == 0 {
        None
    } else {
        Some(layout_line(rel.as_str(), pos))
    }
}

/// How many entries are `Some`.
pub open spec fn count_some(ms: Seq<Option<usize>>) -> nat
    decreases ms.len(),
{
    if ms.len() == 0 {
        0
    } else {
        count_some(ms.drop_last()) + if ms.last() is Some {
            1nat
        } else {
            0nat
        }
    }
}

/// How many saved names were found in view (from `match_layout`).
pub fn count_matched(matches: &[Option<usize>]) -> (n: usize)
    ensures
        n == count_some(matches@),
{
    let mut n: usize = 0;
    let mut i: usize = 0;
    while i < matches.len()
        invariant
            i <= matches@.len(),
            n == count_some(matches@.take(i as int)),
            n <= i,
        decreases matches@.len() - i,
    {
        assert(matches@.take(i + 1).drop_last() =~= matches@.take(i as int));
        if matches[i].is_some() {
            n = n + 1;
        }
        i = i + 1;
    }
    assert(matches@.take(i as int) =~= matches@);
    n
}

/// How long a restore waits for Explorer to show the saved items, in milliseconds.
pub const LAYOUT_WAIT_MS: u64 = 10000;

/// Whether waiting for Explorer to show the saved items is over: all of
/// them are in view, or the time allowed has passed.
pub fn layout_wait_over(matched: usize, total: usize, elapsed_ms: u64) -> (r: bool)
    ensures
        r == (matched == total || elapsed_ms >= LAYOUT_WAIT_MS),
{
    matched == total || elapsed_ms >= LAYOUT_WAIT_MS
}

/// The first `n` saved entries paired with their matches: the visible item
/// and saved position of each matched entry, and the names of the others,
/// both in the saved order.
pub open spec fn paired_positions(
    layout: LayoutEntries,
    matches: Seq<Option<usize>>,
    n: nat,
) -> (Seq<(usize, IconPosition)>, Seq<Seq<char>>)
    decreases n,
{
    if n == 0 {
        (Seq::empty(), Seq::empty())
    } else {
        let (found, missing) = paired_positions(layout, matches, (n - 1) as nat);
        match matches[n - 1] {
            Some(k) => (found.push((k, layout[n - 1].1)), missing),
            None => (found, missing.push(layout[n - 1].0)),
        }
    }
}

/// The saved entries paired with their matches, as far as both lists go.
pub open spec fn spec_positions_to_apply(layout: LayoutEntries, matches: Seq<Option<usize>>) -> (
    Seq<(usize, IconPosition)>,
    Seq<Seq<char>>,
) {
    let n = if layout.len() <= matches.len() {
        layout.len()
    } else {
        matches.len()
    };
    paired_positions(layout, matches, n)
}

/// What restoring a layout applies: for each saved entry that matched a
/// visible item, that item's index and the saved position; and the names of
/// the saved entries that matched none.
pub fn positions_to_apply(layout: &[(String, IconPosition)], matches: &[Option<usize>]) -> (r: (
    Vec<(usize, IconPosition)>,
    Vec<String>,
))
    ensures
        (r.0@, string_views(r.1@)) == spec_positions_to_apply(entries_view(layout@), matches@),
{
    let ghost lv = entries_view(layout@);
    let n = if layout.len() <= matches.len() {
        layout.len()
    } else {
        matches.len()
    };
    let mut found: Vec<(usize, IconPosition)> = Vec::new();
    let mut missing: Vec<String> = Vec::new();
    let mut i: usize = 0;
    while i < n
        invariant
            lv == entries_view(layout@),
            n <= layout@.len(),
            n <= matches@.len(),
            i <= n,
            (found@, string_views(missing@)) == paired_positions(lv, matches@, i as nat),
        decreases n - i,
    {
        assert(lv[i as int] == (layout@[i as int].0@, layout@[i as int].1));
        match matches[i] {
            Some(k) => {
                found.push((k, layout[i].1));
            },
            None => {
                let ghost before = string_views(missing@);
                missing.push(layout[i].0.clone());
                assert(string_views(missing@) =~= before.push(lv[i as int].0));
            },
        }
        i = i + 1;
    }
    (found, missing)
}

/// Whether `load_layout_lines` can read these lines: the name of every line
/// that sets a position can be decoded.
pub fn layout_lines_decodable(lines: &[String]) -> (b: bool)
    ensures
        b == layout_decodable(string_views(lines@)),
{
    let ghost ls = string_views(lines@);
    let mut i: usize = 0;
    while i < lines.len()
        invariant
            ls == string_views(lines@),
            i <= lines@.len(),
            forall|j: int|
                0 <= j < i ==> {
                    let parts = #[trigger] split_on(ls[j], '\t');
                    (parts.len() >= 3 && spec_parse_i32(parts[1]) is Some && spec_parse_i32(
                        parts[2],
                    ) is Some) ==> decodable(parts[0])
                },
        decreases lines@.len() - i,
    {
        let line = chars_of(lines[i].as_str());
        assert(ls[i as int] == line@);
        let parts = split_chars(line.as_slice(), '\t');
        let ghost pv = char_vec_views(parts@);
        assert(pv.len() == parts@.len());
        if parts.len() >= 3 {
            assert(pv[0] == parts@[0]@ && pv[1] == parts@[1]@ && pv[2] == parts@[2]@);
            if parse_i32(parts[1].as_slice()).is_some() && parse_i32(parts[2].as_slice()).is_some() {
                let name = string_from_chars(parts[0].as_slice());
                if !is_decodable(name.as_str()) {
                    assert(!layout_decodable(ls)) by {
                        let parts_i = split_on(ls[i as int], '\t');
                        assert(parts_i == pv);
                    }
                    return false;
                }
            }
        }
        i = i + 1;
    }
    true
}

// ---------------------------------------------------------------------------
// Name order
// ---------------------------------------------------------------------------

/// The order of `String`s: character by character by code point, a prefix
/// first (the order of their UTF-8 bytes).
pub open spec fn name_le(a: Seq<char>, b: Seq<char>) -> bool
    decreases a.len(),
{
    if a.len() == 0 {
        true
    } else if b.len() == 0 {
        false
    } else if a[0] != b[0] {
        a[0] < b[0]
    } else {
        name_le(a.drop_first(), b.drop_first())
    }
}

/// The order of names is total.
pub proof fn lemma_name_le_total(a: Seq<char>, b: Seq<char>)
    ensures
        name_le(a, b) || name_le(b, a),
    decreases a.len(),
{
    if a.len() > 0 && b.len() > 0 && a[0] == b[0] {
        lemma_name_le_total(a.drop_first(), b.drop_first());
    }
}

/// The order of names is transitive.
pub proof fn lemma_name_le_transitive(a: Seq<char>, b: Seq<char>, c: Seq<char>)
    requires
        name_le(a, b),
        name_le(b, c),
    ensures
        name_le(a, c),
    decreases a.len(),
{
    if a.len() > 0 && b.len() > 0 && c.len() > 0 && a[0] == b[0] && b[0] == c[0] {
        lemma_name_le_transitive(a.drop_first(), b.drop_first(), c.drop_first());
    }
}

/// Names that come before each other are equal.
pub proof fn lemma_name_le_antisymmetric(a: Seq<char>, b: Seq<char>)
    requires
        name_le(a, b),
        name_le(b, a),
    ensures
        a == b,
    decreases a.len(),
{
    if a.len() > 0 && b.len() > 0 {
        lemma_name_le_antisymmetric(a.drop_first(), b.drop_first());
        assert(a =~= seq![a[0]] + a.drop_first());
        assert(b =~= seq![b[0]] + b.drop_first());
    }
}

/// Whether `a` comes before or equals `b`.
pub(crate) fn chars_le(a: &[char], b: &[char]) -> (r: bool)
    ensures
        r == name_le(a@, b@),
{
    let mut i: usize = 0;
    assert(a@.skip(0) =~= a@ && b@.skip(0) =~= b@);
    assert(a@.take(0) =~= b@.take(0));
    while i < a.len() && i < b.len() && a[i] == b[i]
        invariant
            i <= a@.len(),
            i <= b@.len(),
            a@.take(i as int) == b@.take(i as int),
            name_le(a@, b@) == name_le(a@.skip(i as int), b@.skip(i as int)),
        decreases a@.len() - i,
    {
        proof {
            let sa = a@.skip(i as int);
            let sb = b@.skip(i as int);
            assert(sa[0] == a@[i as int] && sb[0] == b@[i as int]);
            assert(sa.drop_first() =~= a@.skip(i + 1));
            assert(sb.drop_first() =~= b@.skip(i + 1));
            assert(a@.take(i + 1) =~= a@.take(i as int).push(a@[i as int]));
            assert(b@.take(i + 1) =~= b@.take(i as int).push(b@[i as int]));
        }
        i = i + 1;
    }
    let ghost sa = a@.skip(i as int);
    let ghost sb = b@.skip(i as int);
    if i == a.len() {
        assert(sa.len() == 0);
        true
    } else if i == b.len() {
        assert(sb.len() == 0);
        false
    } else {
        assert(sa[0] == a@[i as int] && sb[0] == b@[i as int]);
        a[i] < b[i]
    }
}

/// Whether the entries are in the order of their names.
pub open spec fn sorted_by_name(es: LayoutEntries) -> bool {
    forall|i: int, j: int| 0 <= i < j < es.len() ==> name_le(#[trigger] es[i].0, #[trigger] es[j].0)
}

/// The saved positions in the order of their names, as a sorted map of
/// names lists them: the same entries, sorted.
pub fn sort_layout_entries(entries: &[(String, IconPosition)]) -> (r: Vec<(String, IconPosition)>)
    ensures
        entries_view(r@).to_multiset() == entries_view(entries@).to_multiset(),
        sorted_by_name(entries_view(r@)),
{
    let ghost ev = entries_view(entries@);
    let mut r: Vec<(String, IconPosition)> = Vec::new();
    let mut i: usize = 0;
    assert(ev.take(0) =~= Seq::<(Seq<char>, IconPosition)>::empty());
    assert(entries_view(r@) =~= Seq::<(Seq<char>, IconPosition)>::empty());
    while i < entries.len()
        invariant
            ev == entries_view(entries@),
            i <= entries@.len(),
            entries_view(r@).to_multiset() == ev.take(i as int).to_multiset(),
            sorted_by_name(entries_view(r@)),
        decreases entries@.len() - i,
    {
        let name = chars_of(entries[i].0.as_str());
        let pos_value = entries[i].1;
        let ghost rv = entries_view(r@);
        let mut k: usize = 0;
        while k < r.len() && chars_le(chars_of(r[k].0.as_str()).as_slice(), name.as_slice())
            invariant
                rv == entries_view(r@),
                k <= r@.len(),
                forall|m: int| 0 <= m < k ==> name_le(#[trigger] rv[m].0, name@),
            decreases r@.len() - k,
        {
            k = k + 1;
        }
        let item = (string_from_chars(name.as_slice()), pos_value);
        let ghost x = (name@, pos_value);
        proof {
            if k < r@.len() {
                assert(!name_le(rv[k as int].0, name@));
                lemma_name_le_total(rv[k as int].0, name@);
            }
            assert forall|m: int| k <= m < rv.len() implies name_le(name@, #[trigger] rv[m].0) by {
                if m > k {
                    lemma_name_le_transitive(name@, rv[k as int].0, rv[m].0);
                }
            }
        }
        r.insert(k, item);
        proof {
            let nv = entries_view(r@);
            assert(nv =~= rv.insert(k as int, x));
            assert(ev[i as int] == x);
            assert(ev.take(i + 1) =~= ev.take(i as int).push(x));
            vstd::seq_lib::to_multiset_insert(rv, k as int, x);
            vstd::seq_lib::to_multiset_build(ev.take(i as int), x);
            assert forall|a: int, b: int| 0 <= a < b < nv.len() implies name_le(
                #[trigger] nv[a].0,
                #[trigger] nv[b].0,
            ) by {
                if a < k && b < k {
                    assert(nv[a] == rv[a] && nv[b] == rv[b]);
                } else if a < k && b == k {
                    assert(nv[a] == rv[a]);
                } else if a < k && b > k {
                    assert(nv[a] == rv[a] && nv[b] == rv[b - 1]);
                } else if a == k {
                    assert(nv[b] == rv[b - 1]);
                } else {
                    assert(nv[a] == rv[a - 1] && nv[b] == rv[b - 1]);
                }
            }
        }
        i = i + 1;
    }
    assert(ev.take(i as int) =~= ev);
    r
}

} // verus!
