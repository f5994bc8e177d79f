//! How std reads a Windows path: its prefix (`C:`, `\\server\share`,
//! `\\.\device`, `\\?\...`), its root separator, its components, and its
//! parent, as `std::path::Path::components` and `Path::parent` give them on
//! Windows. Paths are texts here; the parent of a path is a prefix of its text.
use vstd::prelude::*;
use crate::path_logic::is_sep;
use crate::text::{char_vec_views, copy_range};

verus! {

/// Whether a path is verbatim (starts with `\\?\`): then only `\` separates
/// and `.` is a component like any other.
pub open spec fn is_verbatim(s: Seq<char>) -> bool {
    s.len() >= 4 && s[0] == '\\' && s[1] == '\\' && s[2] == '?' && s[3] == '\\'
}

/// Whether `c` separates components (`\`, and `/` outside verbatim paths).
pub open spec fn sep_of(v: bool, c: char) -> bool {
    c == '\\' || (!v && c == '/')
}

/// The index of the first separator at or after `i`, or the length.
pub open spec fn next_sep(s: Seq<char>, i: int, v: bool) -> int
    decreases s.len() - i,
{
    if i < 0 || i >= s.len() {
        s.len() as int
    } else if sep_of(v, s[i]) {
        i
    } else {
        next_sep(s, i + 1, v)
    }
}

/// Whether a path starts with two separators without being verbatim.
pub open spec fn is_unc_start(s: Seq<char>) -> bool {
    !is_verbatim(s) && s.len() >= 2 && is_sep(s[0]) && is_sep(s[1])
}

/// Whether a path starts with a device prefix (`\\.\`).
pub open spec fn is_device(s: Seq<char>) -> bool {
    is_unc_start(s) && s.len() >= 4 && s[2] == '.' && is_sep(s[3])
}

/// Whether a verbatim path names a share (`\\?\UNC\`).
pub open spec fn is_verbatim_unc(s: Seq<char>) -> bool {
    is_verbatim(s) && s.len() >= 8 && s[4] == 'U' && s[5] == 'N' && s[6] == 'C' && s[7] == '\\'
}

/// Whether a character is an ASCII letter.
pub open spec fn is_ascii_alpha(c: char) -> bool {
    ('a' <= c && c <= 'z') || ('A' <= c && c <= 'Z')
}

/// The length of the path's prefix; zero when it has none. A verbatim
/// prefix takes the first component (two for `\\?\UNC\`), a device prefix
/// one, a share (`\\server\share`) two non-empty ones, a drive two characters.
pub open spec fn prefix_len(s: Seq<char>) -> int {
    if is_verbatim(s) {
        if is_verbatim_unc(s) {
            let a = next_sep(s, 8, true);
            if a < s.len() && next_sep(s, a + 1, true) > a + 1 {
                next_sep(s, a + 1, true)
            } else {
                a
            }
        } else {
            next_sep(s, 4, true)
        }
    } else if is_unc_start(s) {
        if is_device(s) {
            next_sep(s, 4, false)
        } else {
            let a = next_sep(s, 2, false);
            if a > 2 && a < s.len() && next_sep(s, a + 1, false) > a + 1 {
                next_sep(s, a + 1, false)
            } else {
                0
            }
        }
    } else if s.len() >= 2 && is_ascii_alpha(s[0]) && s[1] == ':' {
        2
    } else {
        0
    }
}

/// Whether a separator follows the prefix (a root of its own).
pub open spec fn root_sep(s: Seq<char>) -> bool {
    prefix_len(s) < s.len() && sep_of(is_verbatim(s), s[prefix_len(s)])
}

/// Whether the path has a root component: a root separator, or a share or
/// device prefix, which always has a root.
pub open spec fn has_root_part(s: Seq<char>) -> bool {
    root_sep(s) || (is_unc_start(s) && prefix_len(s) > 0)
}

/// Whether a `.` component comes right after the prefix, with no root.
pub open spec fn cur_dir_head(s: Seq<char>) -> bool {
    let p = prefix_len(s);
    !root_sep(s) && p < s.len() && s[p] == '.' && (p + 1 == s.len() || sep_of(
        is_verbatim(s),
        s[p + 1],
    ))
}

/// Where the components after the prefix and root start. After a drive
/// prefix, a leading `.` belongs to the prefix part; without any prefix, a
/// leading `.` is a component of its own.
pub open spec fn body_start(s: Seq<char>) -> int {
    if cur_dir_head(s) && prefix_len(s) > 0 {
        prefix_len(s) + 1
    } else if root_sep(s) {
        prefix_len(s) + 1
    } else {
        prefix_len(s)
    }
}

/// Whether the character before `e` ends a `.` component that std skips.
pub open spec fn skipped_dot_before(s: Seq<char>, e: int) -> bool {
    !is_verbatim(s) && s[e - 1] == '.' && ((e - 1 == body_start(s) && root_sep(s)) || (e - 1
        > body_start(s) && sep_of(false, s[e - 2])))
}

/// The end of the text before `e` once trailing separators and skipped `.`
/// components are removed (never below the start of the components).
pub open spec fn trim_end(s: Seq<char>, e: int) -> int
    decreases e,
{
    if e <= body_start(s) || e <= 0 {
        e
    } else if sep_of(is_verbatim(s), s[e - 1]) || skipped_dot_before(s, e) {
        trim_end(s, e - 1)
    } else {
        e
    }
}

/// Where the component that ends at `e` starts.
pub open spec fn comp_start(s: Seq<char>, e: int) -> int
    decreases e,
{
    if e <= body_start(s) || e <= 0 {
        body_start(s)
    } else if sep_of(is_verbatim(s), s[e - 1]) {
        e
    } else {
        comp_start(s, e - 1)
    }
}

/// The length of the parent of a path (std's `Path::parent`): the text
/// before its last component, without trailing separators; none when the
/// path has no component after its prefix and root.
pub open spec fn parent_len(s: Seq<char>) -> Option<int> {
    let e = trim_end(s, s.len() as int);
    if e <= body_start(s) {
        None
    } else {
        Some(trim_end(s, comp_start(s, e)))
    }
}

/// Whether some proper ancestor of `c` (its parent, the parent of that, and
/// so on, as std's `Path::ancestors` after the path itself) is `q` up to
/// ASCII case.
pub open spec fn has_ancestor_ci(c: Seq<char>, q: Seq<char>) -> bool
    decreases c.len(),
{
    match parent_len(c) {
        Some(m) => if 0 <= m < c.len() {
            crate::path_logic::ascii_ci_eq(c.take(m), q) || has_ancestor_ci(c.take(m), q)
        } else {
            false
        },
        None => false,
    }
}

/// The head components of a path as text: the prefix, and `\` for the root.
pub open spec fn head_parts(s: Seq<char>) -> Seq<Seq<char>> {
    (if prefix_len(s) > 0 {
        seq![s.take(prefix_len(s))]
    } else {
        seq![]
    }) + (if has_root_part(s) {
        seq![seq!['\\']]
    } else {
        seq![]
    })
}

/// Whether the piece of the path from `i` is a component std keeps: not
/// empty, and not a `.` (outside verbatim paths) unless it opens a path
/// without prefix or root.
pub open spec fn keeps_piece(s: Seq<char>, i: int, piece: Seq<char>) -> bool {
    piece.len() > 0 && (is_verbatim(s) || piece != seq!['.'] || (i == body_start(s)
        && prefix_len(s) == 0 && !root_sep(s)))
}

/// The components of the path from `i` on.
pub open spec fn pieces_from(s: Seq<char>, i: int) -> Seq<Seq<char>>
    decreases s.len() - i,
{
    if i < 0 || i >= s.len() {
        seq![]
    } else {
        let j = next_sep(s, i, is_verbatim(s));
        let rest = if i <= j < s.len() {
            pieces_from(s, j + 1)
        } else {
            seq![]
        };
        if i <= j && keeps_piece(s, i, s.subrange(i, j)) {
            seq![s.subrange(i, j)] + rest
        } else {
            rest
        }
    }
}

/// The components of a path as std's `Path::components` gives them, each
/// as text (the root as `\`).
pub open spec fn win_components(s: Seq<char>) -> Seq<Seq<char>> {
    head_parts(s) + pieces_from(s, body_start(s))
}

// ---------------------------------------------------------------------------
// Computing them
// ---------------------------------------------------------------------------

proof fn lemma_next_sep_range(s: Seq<char>, i: int, v: bool)
    requires
        0 <= i <= s.len(),
    ensures
        i <= next_sep(s, i, v) <= s.len(),
    decreases s.len() - i,
{
    if i < s.len() && !sep_of(v, s[i]) {
        lemma_next_sep_range(s, i + 1, v);
    }
}

fn is_sep_in(v: bool, c: char) -> (b: bool)
    ensures
        b == sep_of(v, c),
{
    c == '\\' || (!v && c == '/')
}

fn next_sep_from(s: &[char], i: usize, v: bool) -> (j: usize)
    requires
        i <= s@.len(),
    ensures
        j == next_sep(s@, i as int, v),
        i <= j <= s@.len(),
{
    let mut j = i;
    while j < s.len() && !is_sep_in(v, s[j])
        invariant
            i <= j <= s@.len(),
            next_sep(s@, i as int, v) == next_sep(s@, j as int, v),
        decreases s@.len() - j,
    {
        j = j + 1;
    }
    j
}

/// The shape of a path: verbatim, prefix length, root separator, a share or
/// device prefix, and where its components start.
struct Shape {
    v: bool,
    prefix: usize,
    root: bool,
    unc: bool,
    body: usize,
}

fn shape(s: &[char]) -> (r: Shape)
    ensures
        r.v == is_verbatim(s@),
        r.prefix == prefix_len(s@),
        r.root == root_sep(s@),
        r.unc == is_unc_start(s@),
        r.body == body_start(s@),
        r.prefix <= r.body <= s@.len(),
{
    let n = s.len();
    let v = n >= 4 && s[0] == '\\' && s[1] == '\\' && s[2] == '?' && s[3] == '\\';
    let unc = !v && n >= 2 && (s[0] == '\\' || s[0] == '/') && (s[1] == '\\' || s[1] == '/');
    let prefix: usize = if v {
        if n >= 8 && s[4] == 'U' && s[5] == 'N' && s[6] == 'C' && s[7] == '\\' {
            let a = next_sep_from(s, 8, true);
            if a < n {
                let b = next_sep_from(s, a + 1, true);
                if b > a + 1 {
                    b
                } else {
                    a
                }
            } else {
                a
            }
        } else {
            next_sep_from(s, 4, true)
        }
    } else if unc {
        if n >= 4 && s[2] == '.' && (s[3] == '\\' || s[3] == '/') {
            next_sep_from(s, 4, false)
        } else {
            let a = next_sep_from(s, 2, false);
            if a > 2 && a < n {
                let b = next_sep_from(s, a + 1, false);
                if b > a + 1 {
                    b
                } else {
                    0
                }
            } else {
                0
            }
        }
    } else if n >= 2 && (('a' <= s[0] && s[0] <= 'z') || ('A' <= s[0] && s[0] <= 'Z')) && s[1]
        == ':' {
        2
    } else {
        0
    };
    let root = prefix < n && is_sep_in(v, s[prefix]);
    let cur = !root && prefix < n && s[prefix] == '.' && (prefix + 1 == n || is_sep_in(
        v,
        s[prefix + 1],
    ));
    let body = if cur && prefix > 0 {
        prefix + 1
    } else if root {
        prefix + 1
    } else {
        prefix
    };
    Shape { v, prefix, root, unc, body }
}

fn trim_end_from(s: &[char], sh: &Shape, e: usize) -> (r: usize)
    requires
        e <= s@.len(),
        sh.v == is_verbatim(s@),
        sh.root == root_sep(s@),
        sh.body == body_start(s@),
    ensures
        r == trim_end(s@, e as int),
        r <= e,
{
    let ghost e0 = e;
    let mut e = e;
    while e > sh.body && (is_sep_in(sh.v, s[e - 1]) || (!sh.v && s[e - 1] == '.' && ((e - 1
        == sh.body && sh.root) || (e - 1 > sh.body && is_sep_in(false, s[e - 2])))))
        invariant
            e <= s@.len(),
            sh.v == is_verbatim(s@),
            sh.root == root_sep(s@),
            sh.body == body_start(s@),
            trim_end(s@, e0 as int) == trim_end(s@, e as int),
            e <= e0,
        decreases e,
    {
        e = e - 1;
    }
    e
}

fn comp_start_from(s: &[char], sh: &Shape, e: usize) -> (r: usize)
    requires
        e <= s@.len(),
        sh.v == is_verbatim(s@),
        sh.body == body_start(s@),
    ensures
        r == comp_start(s@, e as int),
{
    let ghost e0 = e;
    let mut e = e;
    while e > sh.body && !is_sep_in(sh.v, s[e - 1])
        invariant
            e <= s@.len(),
            sh.v == is_verbatim(s@),
            sh.body == body_start(s@),
            comp_start(s@, e0 as int) == comp_start(s@, e as int),
        decreases e,
    {
        e = e - 1;
    }
    if e <= sh.body {
        sh.body
    } else {
        e
    }
}

/// The length of a path's parent (std's `Path::parent`), if it has one.
pub fn parent_length(s: &[char]) -> (r: Option<usize>)
    ensures
        match (r, parent_len(s@)) {
            (Some(a), Some(b)) => a == b && a < s@.len(),
            (None, None) => true,
            _ => false,
        },
{
    let sh = shape(s);
    let e = trim_end_from(s, &sh, s.len());
    proof {
        lemma_body_start_range(s@);
        lemma_trim_end_stops(s@, s@.len() as int);
    }
    if e <= sh.body {
        None
    } else {
        let k = comp_start_from(s, &sh, e);
        proof {
            lemma_comp_start_below(s@, e as int);
        }
        Some(trim_end_from(s, &sh, k))
    }
}

proof fn lemma_comp_start_below(s: Seq<char>, e: int)
    requires
        0 <= body_start(s) < e <= s.len(),
        !sep_of(is_verbatim(s), s[e - 1]),
    ensures
        comp_start(s, e) < e,
    decreases e,
{
    assert(comp_start(s, e) == comp_start(s, e - 1));
    if e - 1 > body_start(s) && !sep_of(is_verbatim(s), s[e - 2]) {
        lemma_comp_start_below(s, e - 1);
    }
}

proof fn lemma_trim_end_stops(s: Seq<char>, e: int)
    requires
        0 <= e <= s.len(),
    ensures
        trim_end(s, e) <= e,
        trim_end(s, e) > body_start(s) ==> !sep_of(is_verbatim(s), s[trim_end(s, e) - 1]),
    decreases e,
{
    lemma_body_start_range(s);
    if e > body_start(s) && e > 0 && (sep_of(is_verbatim(s), s[e - 1]) || skipped_dot_before(s, e)) {
        lemma_trim_end_stops(s, e - 1);
    }
}

proof fn lemma_body_start_range(s: Seq<char>)
    ensures
        0 <= prefix_len(s) <= body_start(s) <= s.len(),
{
    if s.len() >= 4 {
        lemma_next_sep_range(s, 4, true);
        lemma_next_sep_range(s, 4, false);
    }
    if s.len() >= 8 {
        lemma_next_sep_range(s, 8, true);
    }
    if s.len() >= 2 {
        lemma_next_sep_range(s, 2, false);
    }
    if s.len() >= 8 {
        let a = next_sep(s, 8, true);
        if a < s.len() {
            lemma_next_sep_range(s, a + 1, true);
        }
    }
    if s.len() >= 2 {
        let a = next_sep(s, 2, false);
        if a < s.len() {
            lemma_next_sep_range(s, a + 1, false);
        }
    }
}

/// The components of a path (std's `Path::components`), each as text.
pub fn win_path_components(s: &[char]) -> (parts: Vec<Vec<char>>)
    ensures
        char_vec_views(parts@) == win_components(s@),
{
    let sh = shape(s);
    let n = s.len();
    let mut parts: Vec<Vec<char>> = Vec::new();
    if sh.prefix > 0 {
        parts.push(copy_range(s, 0, sh.prefix));
    }
    if sh.root || (sh.unc && sh.prefix > 0) {
        let mut r: Vec<char> = Vec::new();
        r.push('\\');
        parts.push(r);
    }
    assert(char_vec_views(parts@) =~= head_parts(s@));
    let ghost head = head_parts(s@);
    let mut start: usize = sh.body;
    while start < n
        invariant
            n == s@.len(),
            sh.body <= start <= n,
            sh.v == is_verbatim(s@),
            sh.prefix == prefix_len(s@),
            sh.root == root_sep(s@),
            sh.body == body_start(s@),
            head == head_parts(s@),
            head + pieces_from(s@, sh.body as int) == char_vec_views(parts@) + pieces_from(
                s@,
                start as int,
            ),
        decreases n - start,
    {
        let j = next_sep_from(s, start, sh.v);
        let piece = copy_range(s, start, j);
        let dot = piece.len() == 1 && piece[0] == '.';
        assert(dot == (piece@ == seq!['.'])) by {
            if piece@ == seq!['.'] {
                assert(piece@[0] == '.');
            }
            if dot {
                assert(piece@ =~= seq!['.']);
            }
        }
        let keep = piece.len() > 0 && (sh.v || !dot || (start == sh.body && sh.prefix == 0
            && !sh.root));
        let ghost before = parts@;
        let ghost tail = if j < n {
            pieces_from(s@, j + 1)
        } else {
            Seq::<Seq<char>>::empty()
        };
        assert(pieces_from(s@, start as int) == if keep {
            seq![piece@] + tail
        } else {
            tail
        });
        if keep {
            parts.push(piece);
            assert(char_vec_views(parts@) =~= char_vec_views(before).push(piece@));
            assert(char_vec_views(parts@) + tail =~= char_vec_views(before) + (seq![piece@]
                + tail));
        }
        if j < n {
            start = j + 1;
        } else {
            assert(tail =~= Seq::<Seq<char>>::empty());
            start = n;
        }
    }
    assert(pieces_from(s@, start as int) =~= Seq::<Seq<char>>::empty());
    assert(char_vec_views(parts@) =~= win_components(s@));
    parts
}

} // verus!
