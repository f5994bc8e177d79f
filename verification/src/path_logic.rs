//! Paths as text: components, file names and extensions, case-insensitive
//! comparison, containment, and joining.
//!
//! Paths follow Windows conventions: both `\` and `/` separate components,
//! empty and `.` components are dropped, and joined paths use `\`. Paths are
//! compared as given; callers that need canonical paths canonicalize them first.
use vstd::prelude::*;
use crate::filesystem::{is_source, moves_paths, MovePaths, PlannedMove};
use crate::winpath::{has_ancestor_ci, parent_length, win_components, win_path_components};
use crate::text::{
    char_vec_views, chars_of, copy_range, push_all, string_from_chars,
    string_views, join_with,
};

verus! {

/// Whether a character separates path components.
pub open spec fn is_sep(c: char) -> bool {
    c == '\\' || c == '/'
}

/// Index of the first separator, or the length when there is none.
pub open spec fn find_sep(s: Seq<char>) -> nat
    decreases s.len(),
{
    if s.len() == 0 {
        0
    } else if is_sep(s[0]) {
        0
    } else {
        1 + find_sep(s.drop_first())
    }
}

proof fn lemma_find_sep(s: Seq<char>, k: int)
    requires
        0 <= k <= s.len(),
        forall|j: int| 0 <= j < k ==> !is_sep(s[j]),
        k == s.len() || is_sep(s[k]),
    ensures
        find_sep(s) == k,
    decreases s.len(),
{
    if s.len() > 0 && !is_sep(s[0]) {
        assert forall|j: int| 0 <= j < k - 1 implies !is_sep(s.drop_first()[j]) by {
            assert(s.drop_first()[j] == s[j + 1]);
        }
        lemma_find_sep(s.drop_first(), k - 1);
    }
}

/// The components of a path: the pieces between separators, without empty
/// pieces and without `.`.
pub open spec fn components(s: Seq<char>) -> Seq<Seq<char>>
    decreases s.len(),
{
    if s.len() == 0 {
        seq![]
    } else {
        let k = find_sep(s) as int;
        let head = s.take(k);
        let rest = if k < s.len() {
            components(s.skip(k + 1))
        } else {
            seq![]
        };
        if head.len() == 0 || head == seq!['.'] {
            rest
        } else {
            seq![head] + rest
        }
    }
}

/// The components of a path.
pub fn path_components(path: &[char]) -> (parts: Vec<Vec<char>>)
    ensures
        char_vec_views(parts@) == components(path@),
{
    let n = path.len();
    let mut parts: Vec<Vec<char>> = Vec::new();
    let mut start: usize = 0;
    assert(path@.skip(0) =~= path@);
    while start < n
        invariant
            start <= n == path@.len(),
            components(path@) == char_vec_views(parts@) + components(path@.skip(start as int)),
        decreases n - start,
    {
        let mut j: usize = start;
        while j < n && !(path[j] == '\\' || path[j] == '/')
            invariant
                start <= j <= n == path@.len(),
                forall|i: int| start <= i < j ==> !is_sep(path@[i]),
            decreases n - j,
        {
            j = j + 1;
        }
        let ghost rest = path@.skip(start as int);
        proof {
            assert forall|i: int| 0 <= i < j - start implies !is_sep(rest[i]) by {
                assert(rest[i] == path@[start + i]);
            }
            if j < n {
                assert(rest[j - start] == path@[j as int]);
            }
            lemma_find_sep(rest, j - start);
            if j < n {
                assert(rest.skip(j - start + 1) =~= path@.skip(j + 1));
            }
        }
        let piece = copy_range(path, start, j);
        assert(piece@ =~= rest.take(j - start));
        let ghost old_parts = parts@;
        let dot = piece.len() == 1 && piece[0] == '.';
        assert(dot == (piece@ == seq!['.'])) by {
            if piece@ == seq!['.'] {
                assert(piece@[0] == '.');
            }
            if dot {
                assert(piece@ =~= seq!['.']);
            }
        }
        if piece.len() > 0 && !dot {
            parts.push(piece);
            assert(char_vec_views(parts@) =~= char_vec_views(old_parts).push(piece@));
        }
        if j == n {
            proof {
                assert(components(path@.skip(n as int)) =~= Seq::<Seq<char>>::empty());
                assert(components(path@) =~= char_vec_views(parts@));
            }
            start = n;
        } else {
            proof {
                assert(components(path@) =~= char_vec_views(parts@) + components(
                    path@.skip(j + 1),
                ));
            }
            start = j + 1;
        }
    }
    assert(components(path@.skip(start as int)) =~= Seq::<Seq<char>>::empty());
    assert(components(path@) =~= char_vec_views(parts@));
    parts
}

/// ASCII lower case of a character; other characters are unchanged.
pub open spec fn ascii_lower(c: char) -> char {
    if 'A' <= c <= 'Z' {
        (((c as u32) + 32) as u8) as char
    } else {
        c
    }
}

/// Equality up to ASCII case (std's `eq_ignore_ascii_case`).
pub open spec fn ascii_ci_eq(a: Seq<char>, b: Seq<char>) -> bool {
    a.len() == b.len() && forall|i: int| 0 <= i < a.len() ==> ascii_lower(a[i]) == ascii_lower(b[i])
}

/// ASCII lower case of a character.
fn to_ascii_lower(c: char) -> (r: char)
    ensures
        r == ascii_lower(c),
{
    if 'A' <= c && c <= 'Z' {
        (((c as u32) + 32) as u8) as char
    } else {
        c
    }
}

/// Equality of character slices up to ASCII case.
pub fn chars_ci_eq(a: &[char], b: &[char]) -> (r: bool)
    ensures
        r == ascii_ci_eq(a@, b@),
{
    if a.len() != b.len() {
        return false;
    }
    let mut i: usize = 0;
    while i < a.len()
        invariant
            a@.len() == b@.len(),
            i <= a@.len(),
            forall|j: int| 0 <= j < i ==> ascii_lower(a@[j]) == ascii_lower(b@[j]),
        decreases a@.len() - i,
    {
        if to_ascii_lower(a[i]) != to_ascii_lower(b[i]) {
            return false;
        }
        i = i + 1;
    }
    true
}

/// Whether two paths are the same text up to ASCII case.
pub fn path_equal_ci(a: &str, b: &str) -> (r: bool)
    ensures
        r == ascii_ci_eq(a@, b@),
{
    let av = chars_of(a);
    let bv = chars_of(b);
    chars_ci_eq(av.as_slice(), bv.as_slice())
}

/// Comparing paths up to case is an equivalence.
pub proof fn lemma_path_equal_ci_equivalence(a: Seq<char>, b: Seq<char>, c: Seq<char>)
    ensures
        ascii_ci_eq(a, a),
        ascii_ci_eq(a, b) == ascii_ci_eq(b, a),
        ascii_ci_eq(a, b) && ascii_ci_eq(b, c) ==> ascii_ci_eq(a, c),
{
}

/// Whether `child` lies under `parent`: the same text up to ASCII case
/// counts when `strict` is false; otherwise some proper ancestor of `child`
/// (as std's `Path::ancestors` yields them) must be `parent`'s text up to
/// ASCII case.
pub open spec fn spec_is_under_dir(child: Seq<char>, parent: Seq<char>, strict: bool) -> bool {
    if ascii_ci_eq(child, parent) {
        !strict
    } else {
        has_ancestor_ci(child, parent)
    }
}

/// Whether `child` lies under `parent`, comparing the texts of `child`'s
/// ancestors with `parent`'s text.
pub fn is_under_dir(child: &str, parent: &str, strict: bool) -> (r: bool)
    ensures
        r == spec_is_under_dir(child@, parent@, strict),
{
    if path_equal_ci(child, parent) {
        return !strict;
    }
    let q = chars_of(parent);
    let mut cur = chars_of(child);
    loop
        invariant
            q@ == parent@,
            !ascii_ci_eq(child@, parent@),
            has_ancestor_ci(cur@, q@) == has_ancestor_ci(child@, parent@),
        decreases cur@.len(),
    {
        match parent_length(cur.as_slice()) {
            None => {
                return false;
            },
            Some(m) => {
                let p = copy_range(cur.as_slice(), 0, m);
                assert(p@ =~= cur@.take(m as int));
                if chars_ci_eq(p.as_slice(), q.as_slice()) {
                    return true;
                }
                cur = p;
            },
        }
    }
}

/// A path is under itself exactly when containment is not strict.
pub proof fn lemma_under_self(p: Seq<char>, strict: bool)
    ensures
        spec_is_under_dir(p, p, strict) == !strict,
{
}

/// The relative name of a Desktop item: its components (std's
/// `Path::components`) after as many as the Desktop folder has, joined with
/// `\`; empty when the item is not strictly under the Desktop or has no more
/// components.
pub open spec fn spec_relative_name(item: Seq<char>, desktop: Seq<char>) -> Seq<char> {
    let ic = win_components(item);
    let dl = win_components(desktop).len();
    if !spec_is_under_dir(item, desktop, true) || ic.len() <= dl {
        seq![]
    } else {
        join_with(ic.skip(dl as int), '\\')
    }
}

/// The name under which a Desktop item's icon position is saved; empty when
/// the item is not under the Desktop.
pub fn relative_name_for_desktop_item(item_path: &str, desktop: &str) -> (name: String)
    ensures
        name@ == spec_relative_name(item_path@, desktop@),
{
    if !is_under_dir(item_path, desktop, true) {
        return String::new();
    }
    let iv = chars_of(item_path);
    let dv = chars_of(desktop);
    let ic = win_path_components(iv.as_slice());
    let dc = win_path_components(dv.as_slice());
    let ghost icv = char_vec_views(ic@);
    assert(icv.len() == ic@.len());
    assert(char_vec_views(dc@).len() == dc@.len());
    if ic.len() <= dc.len() {
        return String::new();
    }
    let dl = dc.len();
    let ghost rest = icv.skip(dl as int);
    let mut out: Vec<char> = Vec::new();
    let mut i: usize = dl;
    assert(rest.take(0) =~= Seq::<Seq<char>>::empty());
    while i < ic.len()
        invariant
            icv == char_vec_views(ic@),
            icv.len() == ic@.len(),
            rest == icv.skip(dl as int),
            dl < ic@.len(),
            dl <= i <= ic@.len(),
            i > dl ==> out@ == join_with(rest.take(i - dl), '\\'),
            i == dl ==> out@.len() == 0,
        decreases ic@.len() - i,
    {
        let ghost before = out@;
        if i > dl {
            out.push('\\');
        }
        push_all(&mut out, ic[i].as_slice());
        proof {
            assert(icv[i as int] == ic@[i as int]@);
            assert(rest[i - dl] == icv[i as int]);
            lemma_join_with_push(rest.take(i - dl), rest[i - dl], '\\');
            assert(rest.take(i - dl).push(rest[i - dl]) =~= rest.take(i + 1 - dl));
            if i == dl {
                assert(before =~= Seq::<char>::empty());
                assert(rest.take(0).push(rest[0]) =~= seq![rest[0]]);
                assert(out@ =~= rest[0]);
            }
        }
        i = i + 1;
    }
    assert(rest.take(i - dl) =~= rest);
    string_from_chars(out.as_slice())
}

/// Joining one more piece appends a separator and the piece.
pub proof fn lemma_join_with_push(parts: Seq<Seq<char>>, p: Seq<char>, c: char)
    ensures
        join_with(parts.push(p), c) == if parts.len() == 0 {
            p
        } else {
            join_with(parts, c) + seq![c] + p
        },
    decreases parts.len(),
{
    if parts.len() == 0 {
        assert(parts.push(p) =~= seq![p]);
    } else if parts.len() == 1 {
        assert(parts.push(p).drop_first() =~= seq![p]);
        assert(join_with(seq![p], c) == p);
        assert(join_with(parts.push(p), c) =~= join_with(parts, c) + seq![c] + p);
    } else {
        lemma_join_with_push(parts.drop_first(), p, c);
        assert(parts.push(p).drop_first() =~= parts.drop_first().push(p));
        assert(join_with(parts.push(p), c) =~= join_with(parts, c) + seq![c] + p);
    }
}

// ---------------------------------------------------------------------------
// File names, extensions, and the entries that are managed
// ---------------------------------------------------------------------------

/// The file name of a path: its last component, unless that is `..` or the
/// path has no component.
pub open spec fn spec_file_name(path: Seq<char>) -> Option<Seq<char>> {
    let cs = components(path);
    if cs.len() == 0 || cs.last() == seq!['.', '.'] {
        None
    } else {
        Some(cs.last())
    }
}

/// The file name of a path.
pub fn file_name(path: &str) -> (name: Option<Vec<char>>)
    ensures
        match (name, spec_file_name(path@)) {
            (Some(a), Some(b)) => a@ == b,
            (None, None) => true,
            _ => false,
        },
{
    let v = chars_of(path);
    let mut cs = path_components(v.as_slice());
    let ghost cv = char_vec_views(cs@);
    assert(cv.len() == cs@.len());
    match cs.pop() {
        None => None,
        Some(last) => {
            assert(last@ == cv.last());
            let dotdot = last.len() == 2 && last[0] == '.' && last[1] == '.';
            assert(dotdot == (last@ == seq!['.', '.'])) by {
                if dotdot {
                    assert(last@ =~= seq!['.', '.']);
                }
                if last@ == seq!['.', '.'] {
                    assert(last@[0] == '.' && last@[1] == '.');
                }
            }
            if dotdot {
                None
            } else {
                Some(last)
            }
        },
    }
}

/// Index of the last `.` in `s`, if any.
pub open spec fn last_dot(s: Seq<char>) -> Option<int>
    decreases s.len(),
{
    if s.len() == 0 {
        None
    } else if s.last() == '.' {
        Some(s.len() - 1)
    } else {
        last_dot(s.drop_last())
    }
}

/// The extension of a path: what follows the last `.` of its file name,
/// when that `.` is not the name's first character.
pub open spec fn spec_extension(path: Seq<char>) -> Option<Seq<char>> {
    match spec_file_name(path) {
        None => None,
        Some(name) => match last_dot(name) {
            Some(k) => if k > 0 {
                Some(name.skip(k + 1))
            } else {
                None
            },
            None => None,
        },
    }
}

proof fn lemma_last_dot(s: Seq<char>, k: int)
    requires
        -1 <= k < s.len(),
        forall|j: int| k < j < s.len() ==> s[j] != '.',
        k >= 0 ==> s[k] == '.',
    ensures
        last_dot(s) == (if k >= 0 {
            Some(k)
        } else {
            None::<int>
        }),
    decreases s.len(),
{
    if s.len() > 0 && k < s.len() - 1 {
        lemma_last_dot(s.drop_last(), k);
    }
}

/// The extension of a path.
pub fn extension(path: &str) -> (ext: Option<Vec<char>>)
    ensures
        match (ext, spec_extension(path@)) {
            (Some(a), Some(b)) => a@ == b,
            (None, None) => true,
            _ => false,
        },
{
    match file_name(path) {
        None => None,
        Some(name) => {
            let n = name.len();
            let mut k: usize = n;
            while k > 0 && name[k - 1] != '.'
                invariant
                    k <= n == name@.len(),
                    forall|j: int| k <= j < n ==> name@[j] != '.',
                decreases k,
            {
                k = k - 1;
            }
            proof {
                lemma_last_dot(name@, k - 1);
            }
            if k > 1 {
                let e = copy_range(name.as_slice(), k, n);
                assert(e@ =~= name@.skip(k as int));
                Some(e)
            } else {
                None
            }
        },
    }
}

/// Whether a Desktop entry is Explorer's `desktop.ini`, which is never moved.
pub open spec fn spec_is_skipped_desktop_entry(path: Seq<char>) -> bool {
    match spec_file_name(path) {
        Some(name) => ascii_ci_eq(name, "desktop.ini"@),
        None => false,
    }
}

/// Whether a Desktop entry is Explorer's `desktop.ini` (in any case).
pub fn is_skipped_desktop_entry(path: &str) -> (r: bool)
    ensures
        r == spec_is_skipped_desktop_entry(path@),
{
    match file_name(path) {
        Some(name) => {
            let target = chars_of("desktop.ini");
            chars_ci_eq(name.as_slice(), target.as_slice())
        },
        None => false,
    }
}

/// Whether an entry is moved along with its desktop: everything when
/// non-shortcuts are managed, otherwise only `.lnk` shortcuts (in any case).
pub open spec fn spec_should_manage_entry(path: Seq<char>, manage_non_shortcuts: bool) -> bool {
    manage_non_shortcuts || match spec_extension(path) {
        Some(e) => ascii_ci_eq(e, "lnk"@),
        None => false,
    }
}

/// Whether an entry is moved along with its desktop.
pub fn should_manage_entry(path: &str, manage_non_shortcuts: bool) -> (r: bool)
    ensures
        r == spec_should_manage_entry(path@, manage_non_shortcuts),
{
    if manage_non_shortcuts {
        return true;
    }
    match extension(path) {
        Some(e) => {
            let target = chars_of("lnk");
            chars_ci_eq(e.as_slice(), target.as_slice())
        },
        None => false,
    }
}

/// A file name appended to a folder: with a `\` in between unless the folder
/// is empty or already ends with a separator.
pub open spec fn spec_join(dir: Seq<char>, name: Seq<char>) -> Seq<char> {
    if dir.len() == 0 || is_sep(dir.last()) {
        dir + name
    } else {
        dir + seq!['\\'] + name
    }
}

/// A file name appended to a folder.
pub fn join_name(dir: &str, name: &[char]) -> (path: String)
    ensures
        path@ == spec_join(dir@, name@),
{
    let mut v = chars_of(dir);
    let n = v.len();
    if n > 0 && !(v[n - 1] == '\\' || v[n - 1] == '/') {
        v.push('\\');
    }
    push_all(&mut v, name);
    proof {
        if dir@.len() > 0 {
            assert(dir@.last() == dir@[n - 1]);
        }
    }
    assert(v@ =~= spec_join(dir@, name@));
    string_from_chars(v.as_slice())
}

/// The moves that carry the managed entries of a folder into `to_dir`, under
/// the same file names.
pub open spec fn spec_moves_from_to(
    entries: Seq<Seq<char>>,
    to_dir: Seq<char>,
    manage_non_shortcuts: bool,
) -> Seq<MovePaths>
    decreases entries.len(),
{
    if entries.len() == 0 {
        seq![]
    } else {
        let e = entries.last();
        let before = spec_moves_from_to(entries.drop_last(), to_dir, manage_non_shortcuts);
        if spec_should_manage_entry(e, manage_non_shortcuts) {
            let name = match spec_file_name(e) {
                Some(n) => n,
                None => seq![],
            };
            before.push((e, spec_join(to_dir, name)))
        } else {
            before
        }
    }
}

/// The moves that carry the managed entries of a folder (listed in `entries`)
/// into `to_dir`.
pub fn moves_from_to(entries: &[String], to_dir: &str, manage_non_shortcuts: bool) -> (moves: Vec<
    PlannedMove,
>)
    ensures
        moves_paths(moves@) == spec_moves_from_to(
            string_views(entries@),
            to_dir@,
            manage_non_shortcuts,
        ),
{
    let ghost es = string_views(entries@);
    let mut moves: Vec<PlannedMove> = Vec::new();
    let mut i: usize = 0;
    while i < entries.len()
        invariant
            es == string_views(entries@),
            i <= entries@.len(),
            moves_paths(moves@) == spec_moves_from_to(es.take(i as int), to_dir@, manage_non_shortcuts),
        decreases entries@.len() - i,
    {
        let item = &entries[i];
        proof {
            assert(es.take(i + 1).drop_last() =~= es.take(i as int));
            assert(es.take(i + 1).last() == item@);
        }
        if should_manage_entry(item.as_str(), manage_non_shortcuts) {
            let name = match file_name(item.as_str()) {
                Some(n) => n,
                None => Vec::new(),
            };
            let to = join_name(to_dir, name.as_slice());
            let m = PlannedMove { from: item.clone(), to };
            let ghost before = moves@;
            moves.push(m);
            assert(moves_paths(moves@) =~= moves_paths(before).push(m.paths()));
        }
        i = i + 1;
    }
    assert(es.take(i as int) =~= es);
    moves
}

/// The name under which an entry is moved: its file name, or nothing.
pub open spec fn moved_name(entry: Seq<char>) -> Seq<char> {
    match spec_file_name(entry) {
        Some(n) => n,
        None => seq![],
    }
}

/// Whether a move takes one of the entries that the policy manages into
/// `to_dir` under the entry's file name.
pub open spec fn moved_from(
    entries: Seq<Seq<char>>,
    to_dir: Seq<char>,
    manage_non_shortcuts: bool,
    m: MovePaths,
) -> bool {
    exists|k: int|
        0 <= k < entries.len() && m == (#[trigger] entries[k], spec_join(
            to_dir,
            moved_name(entries[k]),
        )) && spec_should_manage_entry(entries[k], manage_non_shortcuts)
}

/// The moves of a swap stay within the folders it was given: each move takes
/// one of the listed entries that the policy manages, and puts it in the
/// target folder under its own file name; and each managed entry is moved.
pub proof fn lemma_moves_stay_in_folders(
    entries: Seq<Seq<char>>,
    to_dir: Seq<char>,
    manage_non_shortcuts: bool,
)
    ensures
        forall|i: int|
            0 <= i < spec_moves_from_to(entries, to_dir, manage_non_shortcuts).len()
                ==> #[trigger] moved_from(
                entries,
                to_dir,
                manage_non_shortcuts,
                spec_moves_from_to(entries, to_dir, manage_non_shortcuts)[i],
            ),
        forall|k: int|
            0 <= k < entries.len() && spec_should_manage_entry(#[trigger] entries[k], manage_non_shortcuts)
                ==> is_source(spec_moves_from_to(entries, to_dir, manage_non_shortcuts), entries[k]),
    decreases entries.len(),
{
    if entries.len() > 0 {
        let before = entries.drop_last();
        lemma_moves_stay_in_folders(before, to_dir, manage_non_shortcuts);
        let ms = spec_moves_from_to(entries, to_dir, manage_non_shortcuts);
        let mb = spec_moves_from_to(before, to_dir, manage_non_shortcuts);
        let e = entries.last();
        assert forall|i: int| 0 <= i < ms.len() implies #[trigger] moved_from(
            entries,
            to_dir,
            manage_non_shortcuts,
            ms[i],
        ) by {
            if i < mb.len() {
                assert(ms[i] == mb[i]);
                assert(moved_from(before, to_dir, manage_non_shortcuts, mb[i]));
                let k = choose|k: int|
                    0 <= k < before.len() && mb[i] == (#[trigger] before[k], spec_join(
                        to_dir,
                        moved_name(before[k]),
                    )) && spec_should_manage_entry(before[k], manage_non_shortcuts);
                assert(entries[k] == before[k]);
            } else {
                let k = entries.len() - 1;
                assert(ms[i] == (e, spec_join(to_dir, moved_name(e))));
                assert(entries[k] == e);
            }
        }
        assert forall|k: int|
            0 <= k < entries.len() && spec_should_manage_entry(
                #[trigger] entries[k],
                manage_non_shortcuts,
            ) implies is_source(ms, entries[k]) by {
            if k < before.len() {
                assert(before[k] == entries[k]);
                assert(is_source(mb, before[k]));
                let i = choose|i: int| 0 <= i < mb.len() && mb[i].0 == before[k];
                assert(ms[i] == mb[i]);
            } else {
                assert(ms[mb.len() as int].0 == e);
            }
        }
    }
}

} // verus!
