//! Planned moves of Desktop items, the checks before moving them, and the
//! decisions that finish or roll back an interrupted set of moves.
//!
//! The library does not touch the file system: the caller tells it which
//! paths exist, performs the moves it asks for, and reports back.
use vstd::prelude::*;
use crate::error::{AppError, message_with};
use crate::layout::{chars_le, lemma_name_le_total, lemma_name_le_transitive, name_le};
use crate::path_logic::{is_skipped_desktop_entry, spec_is_skipped_desktop_entry};
use crate::text::{chars_of, push_str, string_from_chars, string_views};

verus! {

/// The paths of a folder's entries that the program manages: all but
/// Explorer's `desktop.ini`, in their listed order.
pub open spec fn kept_child_entries(paths: Seq<Seq<char>>) -> Seq<Seq<char>>
    decreases paths.len(),
{
    if paths.len() == 0 {
        Seq::empty()
    } else {
        let rest = kept_child_entries(paths.drop_last());
        if spec_is_skipped_desktop_entry(paths.last()) {
            rest
        } else {
            rest.push(paths.last())
        }
    }
}

/// Whether texts are in ascending order.
pub open spec fn sorted_texts(ts: Seq<Seq<char>>) -> bool {
    forall|i: int, j: int| 0 <= i < j < ts.len() ==> name_le(#[trigger] ts[i], #[trigger] ts[j])
}

/// The entries of one folder that the program manages, from the paths that
/// listing the folder gave: `desktop.ini` left out, the rest sorted. For the
/// paths of one folder this is the order of their names, which is how the
/// folder's paths sort.
pub fn child_entries(paths: &[String]) -> (r: Vec<String>)
    ensures
        string_views(r@).to_multiset() == kept_child_entries(string_views(paths@)).to_multiset(),
        sorted_texts(string_views(r@)),
{
    let ghost pv = string_views(paths@);
    let mut r: Vec<String> = Vec::new();
    let mut i: usize = 0;
    assert(pv.take(0) =~= Seq::<Seq<char>>::empty());
    assert(string_views(r@) =~= Seq::<Seq<char>>::empty());
    while i < paths.len()
        invariant
            pv == string_views(paths@),
            i <= paths@.len(),
            string_views(r@).to_multiset() == kept_child_entries(pv.take(i as int)).to_multiset(),
            sorted_texts(string_views(r@)),
        decreases paths@.len() - i,
    {
        assert(pv.take(i + 1).drop_last() =~= pv.take(i as int));
        assert(pv.take(i + 1).last() == pv[i as int]);
        assert(pv[i as int] == paths@[i as int]@);
        if is_skipped_desktop_entry(paths[i].as_str()) {
            i = i + 1;
        } else {
            let name = chars_of(paths[i].as_str());
            let ghost rv = string_views(r@);
            let mut k: usize = 0;
            while k < r.len() && chars_le(chars_of(r[k].as_str()).as_slice(), name.as_slice())
                invariant
                    rv == string_views(r@),
                    k <= r@.len(),
                    forall|m: int| 0 <= m < k ==> name_le(#[trigger] rv[m], name@),
                decreases r@.len() - k,
            {
                k = k + 1;
            }
            let item = paths[i].clone();
            let ghost x = name@;
            proof {
                if k < r@.len() {
                    assert(!name_le(rv[k as int], name@));
                    lemma_name_le_total(rv[k as int], name@);
                }
                assert forall|m: int| k <= m < rv.len() implies name_le(name@, #[trigger] rv[m]) by {
                    if m > k {
                        lemma_name_le_transitive(name@, rv[k as int], rv[m]);
                    }
                }
            }
            r.insert(k, item);
            proof {
                let nv = string_views(r@);
                assert(nv =~= rv.insert(k as int, x));
                vstd::seq_lib::to_multiset_insert(rv, k as int, x);
                vstd::seq_lib::to_multiset_build(kept_child_entries(pv.take(i as int)), x);
                assert forall|a: int, b: int| 0 <= a < b < nv.len() implies name_le(
                    #[trigger] nv[a],
                    #[trigger] nv[b],
                ) by {
                    if a < k && b < k {
                        assert(nv[a] == rv[a] && nv[b] == rv[b]);
                    } else if a < k && b == k {
                        assert(nv[a] == rv[a]);
                    } else if a < k && b > k {
                        assert(nv[a] == rv[a] && nv[b] == rv[b - 1]);
                    } else if a == k {
                        assert(nv[b] == rv[b - 1]);
                    } else {
                        assert(nv[a] == rv[a - 1] && nv[b] == rv[b - 1]);
                    }
                }
            }
            i = i + 1;
        }
    }
    assert(pv.take(i as int) =~= pv);
    r
}

/// A move of one path to another.
#[derive(Clone, Debug, PartialEq, Eq)]
pub struct PlannedMove {
    pub from: String,
    pub to: String,
}

/// A move as a pair of paths.
pub type MovePaths = (Seq<char>, Seq<char>);

impl PlannedMove {
    /// The move as a pair of paths.
    pub open spec fn paths(&self) -> MovePaths {
        (self.from@, self.to@)
    }

    /// A copy of the move.
    pub fn copy(&self) -> (m: PlannedMove)
        ensures
            m.paths() == self.paths(),
    {
        PlannedMove { from: self.from.clone(), to: self.to.clone() }
    }

    /// The same paths the other way round.
    pub fn reversed(&self) -> (m: PlannedMove)
        ensures
            m.paths() == (self.to@, self.from@),
    {
        PlannedMove { from: self.to.clone(), to: self.from.clone() }
    }
}

/// The moves of a sequence as pairs of paths.
pub open spec fn moves_paths(ms: Seq<PlannedMove>) -> Seq<MovePaths> {
    ms.map_values(|m: PlannedMove| m.paths())
}

/// The message when a move's source is gone.
pub open spec fn source_missing_message(from: Seq<char>) -> Seq<char> {
    "Source disappeared before move: "@ + from
}

/// The message when a move would overwrite its destination.
pub open spec fn overwrite_message(to: Seq<char>) -> Seq<char> {
    "Refusing to overwrite existing path: "@ + to
}

/// The outcome of checking moves, given for each whether its source and its
/// destination exist: the first move whose source is missing or whose
/// destination exists fails the check.
pub open spec fn spec_validate_moves(
    ms: Seq<MovePaths>,
    from_exists: Seq<bool>,
    to_exists: Seq<bool>,
) -> Result<(), Seq<char>>
    decreases ms.len(),
{
    if ms.len() == 0 {
        Ok(())
    } else if !from_exists[0] {
        Err(source_missing_message(ms[0].0))
    } else if to_exists[0] {
        Err(overwrite_message(ms[0].1))
    } else {
        spec_validate_moves(ms.drop_first(), from_exists.drop_first(), to_exists.drop_first())
    }
}

/// Checks moves before any is made: every source must exist and no
/// destination may exist. `from_exists[i]` and `to_exists[i]` tell whether
/// the paths of `moves[i]` exist.
pub fn validate_moves(moves: &[PlannedMove], from_exists: &[bool], to_exists: &[bool]) -> (r:
    Result<(), AppError>)
    requires
        from_exists@.len() == moves@.len(),
        to_exists@.len() == moves@.len(),
    ensures
        match (r, spec_validate_moves(moves_paths(moves@), from_exists@, to_exists@)) {
            (Ok(()), Ok(())) => true,
            (Err(e), Err(m)) => e.text_view() == m,
            _ => false,
        },
        r is Ok <==> forall|i: int| 0 <= i < moves@.len() ==> from_exists@[i] && !to_exists@[i],
{
    let ghost ms = moves_paths(moves@);
    let mut i: usize = 0;
    proof {
        assert(ms.skip(0) =~= ms);
        assert(from_exists@.skip(0) =~= from_exists@);
        assert(to_exists@.skip(0) =~= to_exists@);
    }
    while i < moves.len()
        invariant
            ms == moves_paths(moves@),
            from_exists@.len() == moves@.len(),
            to_exists@.len() == moves@.len(),
            i <= moves@.len(),
            spec_validate_moves(ms, from_exists@, to_exists@) == spec_validate_moves(
                ms.skip(i as int),
                from_exists@.skip(i as int),
                to_exists@.skip(i as int),
            ),
            forall|j: int| 0 <= j < i ==> from_exists@[j] && !to_exists@[j],
        decreases moves@.len() - i,
    {
        proof {
            assert(ms.skip(i as int)[0] == moves@[i as int].paths());
            assert(from_exists@.skip(i as int)[0] == from_exists@[i as int]);
            assert(to_exists@.skip(i as int)[0] == to_exists@[i as int]);
        }
        if !from_exists[i] {
            return Err(message_with("Source disappeared before move: ", moves[i].from.as_str()));
        }
        if to_exists[i] {
            return Err(message_with("Refusing to overwrite existing path: ", moves[i].to.as_str()));
        }
        proof {
            assert(ms.skip(i as int).drop_first() =~= ms.skip(i + 1));
            assert(from_exists@.skip(i as int).drop_first() =~= from_exists@.skip(i + 1));
            assert(to_exists@.skip(i as int).drop_first() =~= to_exists@.skip(i + 1));
        }
        i = i + 1;
    }
    proof {
        assert(ms.skip(i as int) =~= Seq::<MovePaths>::empty());
    }
    Ok(())
}

/// What to do about one move when finishing an interrupted set of moves.
#[derive(Clone, Copy, Debug, PartialEq, Eq, Structural)]
pub enum MoveAction {
    /// The source is still there: move it now.
    MoveNow,
    /// Only the destination is there: the move was already made.
    AlreadyDone,
}

/// The message when both paths of a move exist.
pub open spec fn conflict_message(from: Seq<char>) -> Seq<char> {
    "Recovery conflict: both source and destination exist for "@ + from
}

/// The message when neither path of a move exists.
pub open spec fn lost_message(from: Seq<char>, to: Seq<char>) -> Seq<char> {
    "Recovery lost both source and destination: "@ + from + " -> "@ + to
}

/// The decision for one move, given whether its source and its destination exist.
pub open spec fn spec_move_decision(m: MovePaths, src_exists: bool, dst_exists: bool) -> Result<
    MoveAction,
    Seq<char>,
> {
    if src_exists && dst_exists {
        Err(conflict_message(m.0))
    } else if src_exists {
        Ok(MoveAction::MoveNow)
    } else if !dst_exists {
        Err(lost_message(m.0, m.1))
    } else {
        Ok(MoveAction::AlreadyDone)
    }
}

/// Decides about one move of an interrupted set, given whether its source
/// and its destination exist: move it if only the source exists, leave it if
/// only the destination exists, and fail if both or neither exist.
pub fn move_completed_or_finish(mv: &PlannedMove, src_exists: bool, dst_exists: bool) -> (r: Result<
    MoveAction,
    AppError,
>)
    ensures
        match (r, spec_move_decision(mv.paths(), src_exists, dst_exists)) {
            (Ok(a), Ok(b)) => a == b,
            (Err(e), Err(m)) => e.text_view() == m,
            _ => false,
        },
{
    if src_exists && dst_exists {
        return Err(
            message_with(
                "Recovery conflict: both source and destination exist for ",
                mv.from.as_str(),
            ),
        );
    }
    if src_exists && !dst_exists {
        return Ok(MoveAction::MoveNow);
    }
    if !src_exists && !dst_exists {
        let mut v: Vec<char> = Vec::new();
        push_str(&mut v, "Recovery lost both source and destination: ");
        push_str(&mut v, mv.from.as_str());
        push_str(&mut v, " -> ");
        push_str(&mut v, mv.to.as_str());
        return Err(AppError::message(string_from_chars(v.as_slice())));
    }
    Ok(MoveAction::AlreadyDone)
}

/// The moves that roll back a set of moves: each one reversed, last first.
pub open spec fn rollback_steps(ms: Seq<MovePaths>) -> Seq<MovePaths> {
    Seq::new(ms.len(), |i: int| (ms[ms.len() - 1 - i].1, ms[ms.len() - 1 - i].0))
}

/// The steps that finish a set of moves: each move, in order.
pub fn finish_move_set(moves: &[PlannedMove]) -> (steps: Vec<PlannedMove>)
    ensures
        moves_paths(steps@) == moves_paths(moves@),
{
    let mut steps: Vec<PlannedMove> = Vec::new();
    let mut i: usize = 0;
    while i < moves.len()
        invariant
            i <= moves@.len(),
            moves_paths(steps@) == moves_paths(moves@).take(i as int),
        decreases moves@.len() - i,
    {
        let ghost old_steps = steps@;
        let m = moves[i].copy();
        steps.push(m);
        assert(steps@ == old_steps.push(m));
        assert(moves_paths(steps@) =~= moves_paths(old_steps).push(m.paths()));
        i = i + 1;
        assert(moves_paths(steps@) =~= moves_paths(moves@).take(i as int));
    }
    assert(moves_paths(moves@).take(i as int) =~= moves_paths(moves@));
    steps
}

/// The steps that roll back a set of moves: each move reversed, last first.
pub fn rollback_move_set(moves: &[PlannedMove]) -> (steps: Vec<PlannedMove>)
    ensures
        moves_paths(steps@) == rollback_steps(moves_paths(moves@)),
{
    let ghost target = rollback_steps(moves_paths(moves@));
    let mut steps: Vec<PlannedMove> = Vec::new();
    let mut i: usize = moves.len();
    while i > 0
        invariant
            i <= moves@.len(),
            target == rollback_steps(moves_paths(moves@)),
            moves_paths(steps@) == target.take(moves@.len() - i),
        decreases i,
    {
        i = i - 1;
        let ghost old_steps = steps@;
        let m = moves[i].reversed();
        steps.push(m);
        assert(steps@ == old_steps.push(m));
        assert(moves_paths(steps@) =~= moves_paths(old_steps).push(m.paths()));
        assert(target[moves@.len() - 1 - i] == m.paths());
        assert(moves_paths(steps@) =~= target.take(moves@.len() - i));
    }
    assert(target.take(moves@.len() as int) =~= target);
    steps
}

// ---------------------------------------------------------------------------
// A model of the file system, for the laws of finishing and rolling back
// ---------------------------------------------------------------------------

/// One step of finishing, on the set of existing paths: move if only the
/// source exists, nothing if only the destination exists, stop otherwise.
pub open spec fn fs_step(fs: Set<Seq<char>>, m: MovePaths) -> Option<Set<Seq<char>>> {
    match spec_move_decision(m, fs.contains(m.0), fs.contains(m.1)) {
        Ok(MoveAction::MoveNow) => Some(fs.remove(m.0).insert(m.1)),
        Ok(MoveAction::AlreadyDone) => Some(fs),
        Err(_) => None,
    }
}

/// Steps taken one after another, stopping at the first failure.
pub open spec fn fs_run(fs: Set<Seq<char>>, steps: Seq<MovePaths>) -> Option<Set<Seq<char>>>
    decreases steps.len(),
{
    if steps.len() == 0 {
        Some(fs)
    } else {
        match fs_step(fs, steps[0]) {
            Some(next) => fs_run(next, steps.drop_first()),
            None => None,
        }
    }
}

/// Whether `p` is the source of some move.
pub open spec fn is_source(ms: Seq<MovePaths>, p: Seq<char>) -> bool {
    exists|i: int| 0 <= i < ms.len() && ms[i].0 == p
}

/// Whether `p` is the destination of some move.
pub open spec fn is_destination(ms: Seq<MovePaths>, p: Seq<char>) -> bool {
    exists|i: int| 0 <= i < ms.len() && ms[i].1 == p
}

/// All the paths of the moves are different from each other.
pub open spec fn paths_distinct(ms: Seq<MovePaths>) -> bool {
    &&& forall|i: int| 0 <= i < ms.len() ==> #[trigger] ms[i].0 != ms[i].1
    &&& forall|i: int, j: int|
        #![trigger ms[i], ms[j]]
        0 <= i < ms.len() && 0 <= j < ms.len() && i != j ==> ms[i].0 != ms[j].0 && ms[i].1
            != ms[j].1 && ms[i].0 != ms[j].1
}

/// Each move is either not yet made (only its source exists) or made (only
/// its destination exists): the states an interrupted set of moves leaves.
pub open spec fn each_pending_or_done(fs: Set<Seq<char>>, ms: Seq<MovePaths>) -> bool {
    forall|i: int| 0 <= i < ms.len() ==> fs.contains(#[trigger] ms[i].0) != fs.contains(ms[i].1)
}

/// The paths when every move is made, everything else unchanged.
pub open spec fn all_done(fs: Set<Seq<char>>, ms: Seq<MovePaths>) -> Set<Seq<char>> {
    Set::new(
        |p: Seq<char>|
            if is_destination(ms, p) {
                true
            } else if is_source(ms, p) {
                false
            } else {
                fs.contains(p)
            },
    )
}

/// The paths when no move is made, everything else unchanged.
pub open spec fn none_done(fs: Set<Seq<char>>, ms: Seq<MovePaths>) -> Set<Seq<char>> {
    Set::new(
        |p: Seq<char>|
            if is_source(ms, p) {
                true
            } else if is_destination(ms, p) {
                false
            } else {
                fs.contains(p)
            },
    )
}

proof fn lemma_distinct_drop_first(ms: Seq<MovePaths>)
    requires
        ms.len() > 0,
        paths_distinct(ms),
    ensures
        paths_distinct(ms.drop_first()),
        !is_source(ms.drop_first(), ms[0].0),
        !is_destination(ms.drop_first(), ms[0].0),
        !is_source(ms.drop_first(), ms[0].1),
        !is_destination(ms.drop_first(), ms[0].1),
{
    let r = ms.drop_first();
    assert forall|i: int| 0 <= i < r.len() implies #[trigger] r[i].0 != r[i].1 by {
        assert(r[i] == ms[i + 1]);
    }
    assert forall|i: int, j: int|
        #![trigger r[i], r[j]]
        0 <= i < r.len() && 0 <= j < r.len() && i != j implies r[i].0 != r[j].0 && r[i].1 != r[j].1
        && r[i].0 != r[j].1 by {
        assert(r[i] == ms[i + 1]);
        assert(r[j] == ms[j + 1]);
    }
    if is_source(r, ms[0].0) {
        let i = choose|i: int| 0 <= i < r.len() && r[i].0 == ms[0].0;
        assert(ms[i + 1].0 == ms[0].0);
    }
    if is_destination(r, ms[0].0) {
        let i = choose|i: int| 0 <= i < r.len() && r[i].1 == ms[0].0;
        assert(ms[i + 1].1 == ms[0].0);
        assert(ms[0].0 != ms[i + 1].1);
    }
    if is_source(r, ms[0].1) {
        let i = choose|i: int| 0 <= i < r.len() && r[i].0 == ms[0].1;
        assert(ms[i + 1].0 == ms[0].1);
        assert(ms[i + 1].0 != ms[0].1);
    }
    if is_destination(r, ms[0].1) {
        let i = choose|i: int| 0 <= i < r.len() && r[i].1 == ms[0].1;
        assert(ms[i + 1].1 == ms[0].1);
    }
}

/// Finishing an interrupted set of moves makes every move, from any state in
/// which each move is either made or not yet made, and touches nothing else.
pub proof fn lemma_finish_completes(fs: Set<Seq<char>>, ms: Seq<MovePaths>)
    requires
        paths_distinct(ms),
        each_pending_or_done(fs, ms),
    ensures
        fs_run(fs, ms) == Some(all_done(fs, ms)),
    decreases ms.len(),
{
    if ms.len() == 0 {
        assert(all_done(fs, ms) =~= fs);
    } else {
        let m = ms[0];
        let r = ms.drop_first();
        lemma_distinct_drop_first(ms);
        assert(fs.contains(m.0) != fs.contains(m.1));
        let next = if fs.contains(m.0) {
            fs.remove(m.0).insert(m.1)
        } else {
            fs
        };
        assert(fs_step(fs, m) == Some(next));
        assert forall|i: int| 0 <= i < r.len() implies next.contains(#[trigger] r[i].0)
            != next.contains(r[i].1) by {
            assert(r[i] == ms[i + 1]);
            assert(fs.contains(ms[i + 1].0) != fs.contains(ms[i + 1].1));
            assert(r[i].0 != m.0 && r[i].0 != m.1 && r[i].1 != m.0 && r[i].1 != m.1);
        }
        lemma_finish_completes(next, r);
        assert forall|p: Seq<char>| all_done(next, r).contains(p) == all_done(fs, ms).contains(p) by {
            if is_destination(r, p) {
                let i = choose|i: int| 0 <= i < r.len() && r[i].1 == p;
                assert(ms[i + 1].1 == p);
            } else if is_source(r, p) {
                let i = choose|i: int| 0 <= i < r.len() && r[i].0 == p;
                assert(ms[i + 1].0 == p);
                assert(!is_destination(ms, p)) by {
                    if is_destination(ms, p) {
                        let j = choose|j: int| 0 <= j < ms.len() && ms[j].1 == p;
                        assert(ms[j].1 == ms[i + 1].0);
                    }
                }
            } else {
                if is_destination(ms, p) {
                    let j = choose|j: int| 0 <= j < ms.len() && ms[j].1 == p;
                    if j > 0 {
                        assert(r[j - 1].1 == p);
                    }
                } else if is_source(ms, p) {
                    let j = choose|j: int| 0 <= j < ms.len() && ms[j].0 == p;
                    if j > 0 {
                        assert(r[j - 1].0 == p);
                    }
                }
            }
        }
        assert(all_done(next, r) =~= all_done(fs, ms));
    }
}

proof fn lemma_rollback_steps_shape(ms: Seq<MovePaths>)
    requires
        ms.len() > 0,
    ensures
        rollback_steps(ms)[0] == (ms.last().1, ms.last().0),
        rollback_steps(ms).drop_first() == rollback_steps(ms.drop_last()),
{
    assert(rollback_steps(ms).drop_first() =~= rollback_steps(ms.drop_last()));
}

proof fn lemma_distinct_drop_last(ms: Seq<MovePaths>)
    requires
        ms.len() > 0,
        paths_distinct(ms),
    ensures
        paths_distinct(ms.drop_last()),
        !is_source(ms.drop_last(), ms.last().0),
        !is_destination(ms.drop_last(), ms.last().0),
        !is_source(ms.drop_last(), ms.last().1),
        !is_destination(ms.drop_last(), ms.last().1),
{
    let r = ms.drop_last();
    let l = ms.len() - 1;
    assert forall|i: int| 0 <= i < r.len() implies #[trigger] r[i].0 != r[i].1 by {
        assert(r[i] == ms[i]);
    }
    assert forall|i: int, j: int|
        #![trigger r[i], r[j]]
        0 <= i < r.len() && 0 <= j < r.len() && i != j implies r[i].0 != r[j].0 && r[i].1 != r[j].1
        && r[i].0 != r[j].1 by {
        assert(r[i] == ms[i]);
        assert(r[j] == ms[j]);
    }
    if is_source(r, ms[l].0) {
        let i = choose|i: int| 0 <= i < r.len() && r[i].0 == ms[l].0;
        assert(ms[i].0 == ms[l].0);
    }
    if is_destination(r, ms[l].0) {
        let i = choose|i: int| 0 <= i < r.len() && r[i].1 == ms[l].0;
        assert(ms[i].1 == ms[l].0);
        assert(ms[l].0 != ms[i].1);
    }
    if is_source(r, ms[l].1) {
        let i = choose|i: int| 0 <= i < r.len() && r[i].0 == ms[l].1;
        assert(ms[i].0 == ms[l].1);
        assert(ms[i].0 != ms[l].1);
    }
    if is_destination(r, ms[l].1) {
        let i = choose|i: int| 0 <= i < r.len() && r[i].1 == ms[l].1;
        assert(ms[i].1 == ms[l].1);
    }
}

/// Rolling back an interrupted set of moves undoes every move that was made,
/// from any state in which each move is either made or not yet made, and
/// touches nothing else.
pub proof fn lemma_rollback_restores(fs: Set<Seq<char>>, ms: Seq<MovePaths>)
    requires
        paths_distinct(ms),
        each_pending_or_done(fs, ms),
    ensures
        fs_run(fs, rollback_steps(ms)) == Some(none_done(fs, ms)),
    decreases ms.len(),
{
    if ms.len() == 0 {
        assert(none_done(fs, ms) =~= fs);
        assert(rollback_steps(ms) =~= Seq::<MovePaths>::empty());
    } else {
        let m = ms.last();
        let l = ms.len() - 1;
        let r = ms.drop_last();
        lemma_distinct_drop_last(ms);
        lemma_rollback_steps_shape(ms);
        assert(fs.contains(ms[l].0) != fs.contains(ms[l].1));
        let step = (m.1, m.0);
        let next = if fs.contains(m.1) {
            fs.remove(m.1).insert(m.0)
        } else {
            fs
        };
        assert(fs_step(fs, step) == Some(next));
        assert forall|i: int| 0 <= i < r.len() implies next.contains(#[trigger] r[i].0)
            != next.contains(r[i].1) by {
            assert(r[i] == ms[i]);
            assert(fs.contains(ms[i].0) != fs.contains(ms[i].1));
            assert(r[i].0 != m.0 && r[i].0 != m.1 && r[i].1 != m.0 && r[i].1 != m.1);
        }
        lemma_rollback_restores(next, r);
        assert forall|p: Seq<char>|
            none_done(next, r).contains(p) == none_done(fs, ms).contains(p) by {
            if is_source(r, p) {
                let i = choose|i: int| 0 <= i < r.len() && r[i].0 == p;
                assert(ms[i].0 == p);
            } else if is_destination(r, p) {
                let i = choose|i: int| 0 <= i < r.len() && r[i].1 == p;
                assert(ms[i].1 == p);
                assert(!is_source(ms, p)) by {
                    if is_source(ms, p) {
                        let j = choose|j: int| 0 <= j < ms.len() && ms[j].0 == p;
                        assert(ms[j].0 == ms[i].1);
                    }
                }
            } else {
                if is_source(ms, p) {
                    let j = choose|j: int| 0 <= j < ms.len() && ms[j].0 == p;
                    if j < l {
                        assert(r[j].0 == p);
                    }
                } else if is_destination(ms, p) {
                    let j = choose|j: int| 0 <= j < ms.len() && ms[j].1 == p;
                    if j < l {
                        assert(r[j].1 == p);
                    }
                }
            }
        }
        assert(none_done(next, r) =~= none_done(fs, ms));
    }
}

/// Rolling back after finishing leaves the paths as they were before any move.
pub proof fn lemma_rollback_undoes_finish(fs: Set<Seq<char>>, ms: Seq<MovePaths>)
    requires
        paths_distinct(ms),
        forall|i: int| 0 <= i < ms.len() ==> fs.contains(#[trigger] ms[i].0) && !fs.contains(
            ms[i].1,
        ),
    ensures
        fs_run(fs, ms) matches Some(done) && fs_run(done, rollback_steps(ms)) == Some(fs),
{
    lemma_finish_completes(fs, ms);
    let done = all_done(fs, ms);
    assert forall|i: int| 0 <= i < ms.len() implies done.contains(#[trigger] ms[i].0)
        != done.contains(ms[i].1) by {
        assert(is_destination(ms, ms[i].1));
        assert(!is_destination(ms, ms[i].0)) by {
            if is_destination(ms, ms[i].0) {
                let j = choose|j: int| 0 <= j < ms.len() && ms[j].1 == ms[i].0;
            }
        }
        assert(is_source(ms, ms[i].0));
    }
    lemma_rollback_restores(done, ms);
    assert forall|p: Seq<char>| none_done(done, ms).contains(p) == fs.contains(p) by {
        if is_source(ms, p) {
            let i = choose|i: int| 0 <= i < ms.len() && ms[i].0 == p;
        } else if is_destination(ms, p) {
            let i = choose|i: int| 0 <= i < ms.len() && ms[i].1 == p;
        }
    }
    assert(none_done(done, ms) =~= fs);
}

/// Steps run one after another in two parts run as the whole.
pub proof fn lemma_fs_run_append(fs: Set<Seq<char>>, a: Seq<MovePaths>, b: Seq<MovePaths>)
    ensures
        fs_run(fs, a + b) == match fs_run(fs, a) {
            Some(mid) => fs_run(mid, b),
            None => None,
        },
    decreases a.len(),
{
    if a.len() == 0 {
        assert(a + b =~= b);
    } else {
        assert((a + b)[0] == a[0]);
        assert((a + b).drop_first() =~= a.drop_first() + b);
        match fs_step(fs, a[0]) {
            Some(next) => lemma_fs_run_append(next, a.drop_first(), b),
            None => {},
        }
    }
}

/// Whether `s` is one of the moves, or one of them reversed.
pub open spec fn is_step_of(ms: Seq<MovePaths>, s: MovePaths) -> bool {
    exists|i: int| 0 <= i < ms.len() && (s == ms[i] || s == (ms[i].1, ms[i].0))
}

/// Whether two states have the same paths outside the paths of the moves.
pub open spec fn agree_outside(f: Set<Seq<char>>, g: Set<Seq<char>>, ms: Seq<MovePaths>) -> bool {
    forall|p: Seq<char>|
        !is_source(ms, p) && !is_destination(ms, p) ==> (#[trigger] f.contains(p) == g.contains(p))
}

proof fn lemma_step_keeps_pending_or_done(fs: Set<Seq<char>>, ms: Seq<MovePaths>, s: MovePaths)
    requires
        paths_distinct(ms),
        each_pending_or_done(fs, ms),
        is_step_of(ms, s),
    ensures
        fs_step(fs, s) matches Some(r) && each_pending_or_done(r, ms) && agree_outside(fs, r, ms),
{
    let i = choose|i: int| 0 <= i < ms.len() && (s == ms[i] || s == (ms[i].1, ms[i].0));
    assert(fs.contains(ms[i].0) != fs.contains(ms[i].1));
    assert(s.0 != s.1);
    let r = if fs.contains(s.0) {
        fs.remove(s.0).insert(s.1)
    } else {
        fs
    };
    assert(fs_step(fs, s) == Some(r));
    assert forall|k: int| 0 <= k < ms.len() implies r.contains(#[trigger] ms[k].0) != r.contains(
        ms[k].1,
    ) by {
        if k != i {
            assert(ms[k].0 != ms[i].0 && ms[k].0 != ms[i].1);
            assert(ms[k].1 != ms[i].0 && ms[k].1 != ms[i].1);
        }
    }
    assert forall|p: Seq<char>| !is_source(ms, p) && !is_destination(ms, p) implies (
    #[trigger] fs.contains(p) == r.contains(p)) by {
        assert(p != ms[i].0 && p != ms[i].1);
    }
}

/// Steps taken from a set of moves (each a move or a move reversed) never
/// fail on a state in which each move is made or not yet made, keep every
/// move made or not yet made, and touch no other path.
pub proof fn lemma_run_keeps_pending_or_done(
    fs: Set<Seq<char>>,
    ms: Seq<MovePaths>,
    steps: Seq<MovePaths>,
)
    requires
        paths_distinct(ms),
        each_pending_or_done(fs, ms),
        forall|k: int| 0 <= k < steps.len() ==> is_step_of(ms, #[trigger] steps[k]),
    ensures
        fs_run(fs, steps) matches Some(r) && each_pending_or_done(r, ms) && agree_outside(
            fs,
            r,
            ms,
        ),
    decreases steps.len(),
{
    if steps.len() == 0 {
    } else {
        assert(is_step_of(ms, steps[0]));
        lemma_step_keeps_pending_or_done(fs, ms, steps[0]);
        let next = fs_step(fs, steps[0])->Some_0;
        let rest = steps.drop_first();
        assert forall|k: int| 0 <= k < rest.len() implies is_step_of(ms, #[trigger] rest[k]) by {
            assert(rest[k] == steps[k + 1]);
        }
        lemma_run_keeps_pending_or_done(next, ms, rest);
    }
}

} // verus!
