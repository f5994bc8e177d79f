//! The swap journal: which moves a desktop swap plans and how far it got, so
//! that an interrupted swap can be finished or rolled back.
//!
//! The journal file has tab-separated lines: `version 1`, `stage <stage>`,
//! `from <guid>`, `to <guid>`, then `out <from> <to>` for each outbound and
//! `in <from> <to>` for each inbound move, with percent-encoded paths.
use vstd::prelude::*;
use crate::encoding::{
    decodable, is_decodable, lemma_percent_encode_plain, lemma_percent_round_trip, percent_decode,
    percent_encode, spec_percent_decode, spec_percent_encode,
};
use crate::error::{message_str, message_with, AppError};
use crate::filesystem::{
    agree_outside, all_done, each_pending_or_done, finish_move_set, fs_run, is_destination,
    is_source, is_step_of, lemma_run_keeps_pending_or_done,
    lemma_finish_completes, lemma_fs_run_append, lemma_rollback_restores, moves_paths, none_done,
    paths_distinct, rollback_move_set, rollback_steps, MovePaths, PlannedMove,
};
use crate::text::{
    chars_equal_str, chars_of, has_char, is_plain_line, join_lines, join_with,
    lemma_join_lines_push, lemma_lines_of_join, lemma_split_join, push_str, spec_lines, split_chars,
    split_on, string_from_chars, string_views, char_vec_views,
};

verus! {

/// How far a swap got.
#[derive(Clone, Copy, Debug, PartialEq, Eq, Structural)]
pub enum JournalStage {
    /// Moves planned; outbound moves may be partly made.
    Planned,
    /// All outbound moves made; inbound moves may be partly made.
    OutboundComplete,
    /// All moves made.
    InboundComplete,
    /// The swap is being rolled back.
    Rollback,
}

/// The name of a stage in the journal file.
pub open spec fn spec_stage_str(stage: JournalStage) -> Seq<char> {
    match stage {
        JournalStage::Planned => "planned"@,
        JournalStage::OutboundComplete => "outbound-complete"@,
        JournalStage::InboundComplete => "inbound-complete"@,
        JournalStage::Rollback => "rollback"@,
    }
}

/// The message for a stage name that is not known.
pub open spec fn unknown_stage_message(value: Seq<char>) -> Seq<char> {
    "Swap journal has unknown stage: "@ + value
}

/// The stage a name stands for; an empty name means `Planned`.
pub open spec fn spec_parse_stage(value: Seq<char>) -> Result<JournalStage, Seq<char>> {
    if value.len() == 0 || value == "planned"@ {
        Ok(JournalStage::Planned)
    } else if value == "outbound-complete"@ {
        Ok(JournalStage::OutboundComplete)
    } else if value == "inbound-complete"@ {
        Ok(JournalStage::InboundComplete)
    } else if value == "rollback"@ {
        Ok(JournalStage::Rollback)
    } else {
        Err(unknown_stage_message(value))
    }
}

impl JournalStage {
    /// The stage named by `value` (an empty name is `Planned`), or an error
    /// naming the unknown stage.
    pub fn parse(value: &str) -> (r: Result<JournalStage, AppError>)
        ensures
            match (r, spec_parse_stage(value@)) {
                (Ok(a), Ok(b)) => a == b,
                (Err(e), Err(m)) => e.text_view() == m,
                _ => false,
            },
    {
        let v = chars_of(value);
        if v.len() == 0 || chars_equal_str(v.as_slice(), "planned") {
            Ok(JournalStage::Planned)
        } else if chars_equal_str(v.as_slice(), "outbound-complete") {
            Ok(JournalStage::OutboundComplete)
        } else if chars_equal_str(v.as_slice(), "inbound-complete") {
            Ok(JournalStage::InboundComplete)
        } else if chars_equal_str(v.as_slice(), "rollback") {
            Ok(JournalStage::Rollback)
        } else {
            Err(message_with("Swap journal has unknown stage: ", value))
        }
    }

    /// The name of the stage in the journal file.
    pub fn as_str(self) -> (s: &'static str)
        ensures
            s@ == spec_stage_str(self),
    {
        match self {
            JournalStage::Planned => "planned",
            JournalStage::OutboundComplete => "outbound-complete",
            JournalStage::InboundComplete => "inbound-complete",
            JournalStage::Rollback => "rollback",
        }
    }
}

/// Reading a stage's name gives the stage.
pub proof fn lemma_stage_round_trip(stage: JournalStage)
    ensures
        spec_parse_stage(spec_stage_str(stage)) == Ok::<JournalStage, Seq<char>>(stage),
        spec_stage_str(stage).len() > 0,
        !has_char(spec_stage_str(stage), '\t'),
        is_plain_line(spec_stage_str(stage)),
{
    reveal_strlit("planned");
    reveal_strlit("outbound-complete");
    reveal_strlit("inbound-complete");
    reveal_strlit("rollback");
    let s = spec_stage_str(stage);
    assert("planned"@[0] != "outbound-complete"@[0]);
    assert("planned"@[0] != "inbound-complete"@[0]);
    assert("planned"@[0] != "rollback"@[0]);
    assert("outbound-complete"@[0] != "inbound-complete"@[0]);
    assert(!has_char(s, '\t'));
    assert(!has_char(s, '\n'));
}

/// A planned or interrupted swap of the Desktop contents between two virtual desktops.
#[derive(Clone, Debug, PartialEq, Eq)]
pub struct Journal {
    pub stage: JournalStage,
    pub from_guid: String,
    pub to_guid: String,
    pub outbound: Vec<PlannedMove>,
    pub inbound: Vec<PlannedMove>,
}

/// A journal as values.
pub struct JournalView {
    pub stage: JournalStage,
    pub from_guid: Seq<char>,
    pub to_guid: Seq<char>,
    pub outbound: Seq<MovePaths>,
    pub inbound: Seq<MovePaths>,
}

impl View for Journal {
    type V = JournalView;

    open spec fn view(&self) -> JournalView {
        JournalView {
            stage: self.stage,
            from_guid: self.from_guid@,
            to_guid: self.to_guid@,
            outbound: moves_paths(self.outbound@),
            inbound: moves_paths(self.inbound@),
        }
    }
}

/// What recovering from the journal did.
#[derive(Clone, Copy, Debug, PartialEq, Eq, Structural)]
pub enum RecoveryOutcome {
    /// There was no journal.
    NoJournal,
    /// The swap was rolled back; the source desktop is active.
    RolledBackToFrom,
    /// The swap was finished; the target desktop is active.
    CompletedToTarget,
}

/// Where the journal and the active-desktop marker are kept.
#[derive(Clone, Debug)]
pub struct JournalStore {
    pub root: String,
    pub active_file: String,
    pub journal_file: String,
}

impl JournalStore {
    /// A store with the given state folder, active-desktop file and journal file.
    pub fn new(root: String, active_file: String, journal_file: String) -> (s: JournalStore)
        ensures
            s.root == root,
            s.active_file == active_file,
            s.journal_file == journal_file,
    {
        JournalStore { root, active_file, journal_file }
    }
}

// ---------------------------------------------------------------------------
// Writing the journal
// ---------------------------------------------------------------------------

/// The line for one move: tag, encoded source, encoded destination.
pub open spec fn move_line(tag: Seq<char>, m: MovePaths) -> Seq<char> {
    tag + "\t"@ + spec_percent_encode(m.0) + "\t"@ + spec_percent_encode(m.1)
}

/// The first four lines of the journal file.
pub open spec fn header_lines(j: JournalView, stage: JournalStage) -> Seq<Seq<char>> {
    seq![
        "version\t1"@,
        "stage\t"@ + spec_stage_str(stage),
        "from\t"@ + j.from_guid,
        "to\t"@ + j.to_guid,
    ]
}

/// The lines for a sequence of moves.
pub open spec fn move_lines(tag: Seq<char>, ms: Seq<MovePaths>) -> Seq<Seq<char>> {
    ms.map_values(|m: MovePaths| move_line(tag, m))
}

/// The lines of the journal file for `j`, written at `stage`.
pub open spec fn spec_journal_lines(j: JournalView, stage: JournalStage) -> Seq<Seq<char>> {
    header_lines(j, stage) + move_lines("out"@, j.outbound) + move_lines("in"@, j.inbound)
}

/// Appends one line to the text, keeping it equal to the joined lines so far.
fn push_line(out: &mut Vec<char>, line: &[char], Ghost(done): Ghost<Seq<Seq<char>>>)
    requires
        old(out)@ == join_lines(done),
    ensures
        final(out)@ == join_lines(done.push(line@)),
{
    let ghost before = out@;
    crate::text::push_all(out, line);
    out.push('\n');
    proof {
        lemma_join_lines_push(done, line@);
        assert(out@ =~= before + line@ + seq!['\n']);
    }
}

/// The line for one move.
fn render_move_line(tag: &str, m: &PlannedMove) -> (line: Vec<char>)
    ensures
        line@ == move_line(tag@, m.paths()),
{
    let mut line: Vec<char> = Vec::new();
    push_str(&mut line, tag);
    line.push('\t');
    let f = percent_encode(m.from.as_str());
    push_str(&mut line, f.as_str());
    line.push('\t');
    let t = percent_encode(m.to.as_str());
    push_str(&mut line, t.as_str());
    proof {
        reveal_strlit("\t");
        assert(line@ =~= move_line(tag@, m.paths()));
    }
    line
}

/// Appends the lines of a sequence of moves.
fn push_move_lines(
    out: &mut Vec<char>,
    tag: &str,
    moves: &[PlannedMove],
    Ghost(done): Ghost<Seq<Seq<char>>>,
)
    requires
        old(out)@ == join_lines(done),
    ensures
        final(out)@ == join_lines(done + move_lines(tag@, moves_paths(moves@))),
{
    let ghost all = move_lines(tag@, moves_paths(moves@));
    let mut i: usize = 0;
    assert(done + all.take(0) =~= done);
    while i < moves.len()
        invariant
            i <= moves@.len(),
            all == move_lines(tag@, moves_paths(moves@)),
            out@ == join_lines(done + all.take(i as int)),
        decreases moves@.len() - i,
    {
        let line = render_move_line(tag, &moves[i]);
        push_line(out, line.as_slice(), Ghost(done + all.take(i as int)));
        assert((done + all.take(i as int)).push(line@) =~= done + all.take(i + 1));
        i = i + 1;
    }
    assert(all.take(i as int) =~= all);
}

/// The text of the journal file for `journal`, with `stage` as its stage.
pub fn render_journal(journal: &Journal, stage: JournalStage) -> (text: String)
    ensures
        text@ == join_lines(spec_journal_lines(journal@, stage)),
{
    let ghost j = journal@;
    let ghost h = header_lines(j, stage);
    let mut out: Vec<char> = Vec::new();
    let mut line: Vec<char> = Vec::new();
    push_str(&mut line, "version\t1");
    assert(line@ =~= h[0]);
    push_line(&mut out, line.as_slice(), Ghost(Seq::empty()));
    assert(Seq::<Seq<char>>::empty().push(h[0]) =~= h.take(1));
    let mut line: Vec<char> = Vec::new();
    push_str(&mut line, "stage\t");
    push_str(&mut line, stage.as_str());
    assert(line@ =~= h[1]);
    push_line(&mut out, line.as_slice(), Ghost(h.take(1)));
    assert(h.take(1).push(h[1]) =~= h.take(2));
    let mut line: Vec<char> = Vec::new();
    push_str(&mut line, "from\t");
    push_str(&mut line, journal.from_guid.as_str());
    assert(line@ =~= h[2]);
    push_line(&mut out, line.as_slice(), Ghost(h.take(2)));
    assert(h.take(2).push(h[2]) =~= h.take(3));
    let mut line: Vec<char> = Vec::new();
    push_str(&mut line, "to\t");
    push_str(&mut line, journal.to_guid.as_str());
    assert(line@ =~= h[3]);
    push_line(&mut out, line.as_slice(), Ghost(h.take(3)));
    assert(h.take(3).push(h[3]) =~= h);
    push_move_lines(&mut out, "out", journal.outbound.as_slice(), Ghost(h));
    push_move_lines(
        &mut out,
        "in",
        journal.inbound.as_slice(),
        Ghost(h + move_lines("out"@, j.outbound)),
    );
    string_from_chars(out.as_slice())
}

// ---------------------------------------------------------------------------
// Reading the journal
// ---------------------------------------------------------------------------

/// The journal before any line is read.
pub open spec fn empty_journal_view() -> JournalView {
    JournalView {
        stage: JournalStage::Planned,
        from_guid: Seq::empty(),
        to_guid: Seq::empty(),
        outbound: Seq::empty(),
        inbound: Seq::empty(),
    }
}

/// The journal after one more line; lines of no known shape are ignored.
pub open spec fn journal_step(acc: JournalView, line: Seq<char>) -> Result<JournalView, Seq<char>> {
    let parts = split_on(line, '\t');
    if parts.len() == 2 && parts[0] == "stage"@ {
        match spec_parse_stage(parts[1]) {
            Ok(stage) => Ok(JournalView { stage, ..acc }),
            Err(m) => Err(m),
        }
    } else if parts.len() == 2 && parts[0] == "from"@ {
        Ok(JournalView { from_guid: parts[1], ..acc })
    } else if parts.len() == 2 && parts[0] == "to"@ {
        Ok(JournalView { to_guid: parts[1], ..acc })
    } else if parts.len() == 3 && parts[0] == "out"@ {
        Ok(
            JournalView {
                outbound: acc.outbound.push(
                    (spec_percent_decode(parts[1]), spec_percent_decode(parts[2])),
                ),
                ..acc
            },
        )
    } else if parts.len() == 3 && parts[0] == "in"@ {
        Ok(
            JournalView {
                inbound: acc.inbound.push(
                    (spec_percent_decode(parts[1]), spec_percent_decode(parts[2])),
                ),
                ..acc
            },
        )
    } else {
        Ok(acc)
    }
}

/// The journal that a sequence of lines gives, or the first error.
pub open spec fn journal_fold(lines: Seq<Seq<char>>) -> Result<JournalView, Seq<char>>
    decreases lines.len(),
{
    if lines.len() == 0 {
        Ok(empty_journal_view())
    } else {
        match journal_fold(lines.drop_last()) {
            Ok(acc) => journal_step(acc, lines.last()),
            Err(m) => Err(m),
        }
    }
}

/// The message for a journal without both desktops.
pub open spec fn malformed_message() -> Seq<char> {
    "Swap journal is malformed"@
}

/// The journal that the lines of a journal file give: an unknown stage is an
/// error, and so is a journal that does not name both desktops.
pub open spec fn spec_read_journal(lines: Seq<Seq<char>>) -> Result<JournalView, Seq<char>> {
    match journal_fold(lines) {
        Ok(j) => if j.from_guid.len() == 0 || j.to_guid.len() == 0 {
            Err(malformed_message())
        } else {
            Ok(j)
        },
        Err(m) => Err(m),
    }
}

/// Whether the paths of a move line can be decoded.
pub open spec fn line_decodable(line: Seq<char>) -> bool {
    let parts = split_on(line, '\t');
    (parts.len() == 3 && (parts[0] == "out"@ || parts[0] == "in"@)) ==> decodable(parts[1])
        && decodable(parts[2])
}

/// Whether every move line that reading reaches can be decoded.
pub open spec fn journal_decodable(lines: Seq<Seq<char>>) -> bool
    decreases lines.len(),
{
    lines.len() == 0 || (journal_decodable(lines.drop_last()) && (journal_fold(lines.drop_last()) is Ok
        ==> line_decodable(lines.last())))
}

/// Builds a move from the two encoded path fields of a journal line.
fn decode_move(from: &[char], to: &[char]) -> (m: PlannedMove)
    requires
        decodable(from@),
        decodable(to@),
    ensures
        m.paths() == (spec_percent_decode(from@), spec_percent_decode(to@)),
{
    let f = string_from_chars(from);
    let t = string_from_chars(to);
    PlannedMove { from: percent_decode(f.as_str()), to: percent_decode(t.as_str()) }
}

/// Reads the lines of a journal file (as std's `BufRead::lines` yields them).
pub fn read_journal(lines: &[String]) -> (r: Result<Journal, AppError>)
    requires
        journal_decodable(string_views(lines@)),
    ensures
        match (r, spec_read_journal(string_views(lines@))) {
            (Ok(j), Ok(v)) => j@ == v,
            (Err(e), Err(m)) => e.text_view() == m,
            _ => false,
        },
{
    let ghost ls = string_views(lines@);
    let mut journal = Journal {
        stage: JournalStage::Planned,
        from_guid: String::new(),
        to_guid: String::new(),
        outbound: Vec::new(),
        inbound: Vec::new(),
    };
    proof {
        assert(journal@.from_guid =~= Seq::<char>::empty());
        assert(journal@.to_guid =~= Seq::<char>::empty());
        assert(journal@.outbound =~= Seq::<MovePaths>::empty());
        assert(journal@.inbound =~= Seq::<MovePaths>::empty());
        assert(ls.take(0) =~= Seq::<Seq<char>>::empty());
    }
    let mut i: usize = 0;
    while i < lines.len()
        invariant
            ls == string_views(lines@),
            i <= lines@.len(),
            journal_decodable(ls),
            journal_fold(ls.take(i as int)) == Ok::<JournalView, Seq<char>>(journal@),
        decreases lines@.len() - i,
    {
        let line = chars_of(lines[i].as_str());
        let ghost acc = journal@;
        proof {
            assert(ls.take(i + 1).drop_last() =~= ls.take(i as int));
            assert(ls.take(i + 1).last() == line@);
            lemma_decodable_prefix(ls, i + 1);
        }
        let parts = split_chars(line.as_slice(), '\t');
        let ghost pv = char_vec_views(parts@);
        assert(pv.len() == parts@.len());
        if parts.len() >= 1 {
            assert(pv[0] == parts@[0]@);
        }
        if parts.len() >= 2 {
            assert(pv[1] == parts@[1]@);
        }
        if parts.len() >= 3 {
            assert(pv[2] == parts@[2]@);
        }
        if parts.len() == 2 && chars_equal_str(parts[0].as_slice(), "stage") {
            let value = string_from_chars(parts[1].as_slice());
            match JournalStage::parse(value.as_str()) {
                Ok(stage) => {
                    journal.stage = stage;
                },
                Err(e) => {
                    proof {
                        lemma_fold_err_prefix(ls, i + 1);
                    }
                    return Err(e);
                },
            }
        } else if parts.len() == 2 && chars_equal_str(parts[0].as_slice(), "from") {
            journal.from_guid = string_from_chars(parts[1].as_slice());
        } else if parts.len() == 2 && chars_equal_str(parts[0].as_slice(), "to") {
            journal.to_guid = string_from_chars(parts[1].as_slice());
        } else if parts.len() == 3 && chars_equal_str(parts[0].as_slice(), "out") {
            let m = decode_move(parts[1].as_slice(), parts[2].as_slice());
            journal.outbound.push(m);
            assert(journal@.outbound =~= acc.outbound.push(m.paths()));
        } else if parts.len() == 3 && chars_equal_str(parts[0].as_slice(), "in") {
            let m = decode_move(parts[1].as_slice(), parts[2].as_slice());
            journal.inbound.push(m);
            assert(journal@.inbound =~= acc.inbound.push(m.paths()));
        }
        proof {
            assert(journal_fold(ls.take(i + 1)) == journal_step(acc, line@));
            assert(journal_step(acc, line@) == Ok::<JournalView, Seq<char>>(journal@));
        }
        i = i + 1;
    }
    assert(ls.take(i as int) =~= ls);
    if journal.from_guid.as_str().is_empty() || journal.to_guid.as_str().is_empty() {
        return Err(message_str("Swap journal is malformed"));
    }
    Ok(journal)
}

proof fn lemma_decodable_prefix(ls: Seq<Seq<char>>, k: int)
    requires
        0 <= k <= ls.len(),
        journal_decodable(ls),
    ensures
        journal_decodable(ls.take(k)),
    decreases ls.len() - k,
{
    if k < ls.len() {
        assert(ls.drop_last().take(k) =~= ls.take(k));
        lemma_decodable_prefix(ls.drop_last(), k);
    } else {
        assert(ls.take(k) =~= ls);
    }
}

proof fn lemma_fold_err_prefix(ls: Seq<Seq<char>>, k: int)
    requires
        0 <= k <= ls.len(),
        journal_fold(ls.take(k)) is Err,
    ensures
        journal_fold(ls) == journal_fold(ls.take(k)),
    decreases ls.len() - k,
{
    if k < ls.len() {
        assert(ls.drop_last().take(k) =~= ls.take(k));
        lemma_fold_err_prefix(ls.drop_last(), k);
    } else {
        assert(ls.take(k) =~= ls);
    }
}

// ---------------------------------------------------------------------------
// The journal reads back what was written
// ---------------------------------------------------------------------------

/// A desktop identifier that the journal can hold: not empty, and no tab or
/// line break in it or carriage return at its end.
pub open spec fn storable_guid(g: Seq<char>) -> bool {
    g.len() > 0 && !has_char(g, '\t') && is_plain_line(g)
}

proof fn lemma_two_fields(a: Seq<char>, b: Seq<char>)
    requires
        !has_char(a, '\t'),
        !has_char(b, '\t'),
    ensures
        split_on(a + "\t"@ + b, '\t') == seq![a, b],
{
    reveal_strlit("\t");
    let parts = seq![a, b];
    assert(parts.drop_first() =~= seq![b]);
    assert(join_with(seq![b], '\t') == b);
    assert(join_with(parts, '\t') =~= a + "\t"@ + b);
    lemma_split_join(parts, '\t');
}

proof fn lemma_three_fields(a: Seq<char>, b: Seq<char>, c: Seq<char>)
    requires
        !has_char(a, '\t'),
        !has_char(b, '\t'),
        !has_char(c, '\t'),
    ensures
        split_on(a + "\t"@ + b + "\t"@ + c, '\t') == seq![a, b, c],
{
    reveal_strlit("\t");
    let parts = seq![a, b, c];
    assert(parts.drop_first() =~= seq![b, c]);
    assert(seq![b, c].drop_first() =~= seq![c]);
    assert(join_with(seq![c], '\t') == c);
    assert(join_with(seq![b, c], '\t') =~= b + "\t"@ + c);
    assert(join_with(parts, '\t') =~= a + "\t"@ + b + "\t"@ + c);
    lemma_split_join(parts, '\t');
}

proof fn lemma_encoded_plain(p: Seq<char>)
    ensures
        !has_char(spec_percent_encode(p), '\t'),
        !has_char(spec_percent_encode(p), '\n'),
        !(spec_percent_encode(p).len() > 0 && spec_percent_encode(p).last() == '\r'),
        decodable(spec_percent_encode(p)),
        spec_percent_decode(spec_percent_encode(p)) == p,
{
    lemma_percent_encode_plain(p);
    lemma_percent_round_trip(p);
    let e = spec_percent_encode(p);
    if e.len() > 0 {
        assert(e.last() == e[e.len() - 1]);
    }
}

proof fn lemma_move_line_reads(acc: JournalView, tag: Seq<char>, m: MovePaths)
    requires
        tag == "out"@ || tag == "in"@,
    ensures
        is_plain_line(move_line(tag, m)),
        line_decodable(move_line(tag, m)),
        journal_step(acc, move_line(tag, m)) == Ok::<JournalView, Seq<char>>(
            if tag == "out"@ {
                JournalView { outbound: acc.outbound.push(m), ..acc }
            } else {
                JournalView { inbound: acc.inbound.push(m), ..acc }
            },
        ),
{
    reveal_strlit("out");
    reveal_strlit("in");
    reveal_strlit("\t");
    reveal_strlit("stage");
    reveal_strlit("from");
    reveal_strlit("to");
    lemma_encoded_plain(m.0);
    lemma_encoded_plain(m.1);
    let e0 = spec_percent_encode(m.0);
    let e1 = spec_percent_encode(m.1);
    assert(!has_char(tag, '\t'));
    lemma_three_fields(tag, e0, e1);
    let l = move_line(tag, m);
    assert(l =~= tag + "\t"@ + e0 + "\t"@ + e1);
    assert(!has_char(l, '\n')) by {
        assert forall|i: int| 0 <= i < l.len() implies l[i] != '\n' by {
            if i < tag.len() {
                assert(l[i] == tag[i]);
            } else if i == tag.len() {
            } else if i < tag.len() + 1 + e0.len() {
                assert(l[i] == e0[i - tag.len() - 1]);
            } else if i == tag.len() + 1 + e0.len() {
            } else {
                assert(l[i] == e1[i - tag.len() - 2 - e0.len()]);
            }
        }
    }
    if e1.len() > 0 {
        assert(l.last() == e1.last());
    } else {
        assert(l.last() == '\t');
    }
    assert("out"@[0] != "in"@[0]);
}

proof fn lemma_header_reads(j: JournalView, stage: JournalStage)
    requires
        storable_guid(j.from_guid),
        storable_guid(j.to_guid),
    ensures
        forall|i: int| 0 <= i < 4 ==> is_plain_line(#[trigger] header_lines(j, stage)[i]),
        journal_fold(header_lines(j, stage)) == Ok::<JournalView, Seq<char>>(
            JournalView {
                stage,
                from_guid: j.from_guid,
                to_guid: j.to_guid,
                outbound: Seq::empty(),
                inbound: Seq::empty(),
            },
        ),
        journal_decodable(header_lines(j, stage)),
{
    reveal_strlit("version\t1");
    reveal_strlit("version");
    reveal_strlit("1");
    reveal_strlit("stage\t");
    reveal_strlit("from\t");
    reveal_strlit("to\t");
    reveal_strlit("stage");
    reveal_strlit("from");
    reveal_strlit("to");
    reveal_strlit("out");
    reveal_strlit("in");
    reveal_strlit("\t");
    let h = header_lines(j, stage);
    lemma_stage_round_trip(stage);
    let st = spec_stage_str(stage);
    assert("version\t1"@ =~= "version"@ + "\t"@ + "1"@);
    assert(!has_char("version"@, '\t'));
    assert(!has_char("1"@, '\t'));
    lemma_two_fields("version"@, "1"@);
    assert("stage\t"@ =~= "stage"@ + "\t"@);
    assert(!has_char("stage"@, '\t'));
    lemma_two_fields("stage"@, st);
    assert("from\t"@ =~= "from"@ + "\t"@);
    assert(!has_char("from"@, '\t'));
    lemma_two_fields("from"@, j.from_guid);
    assert("to\t"@ =~= "to"@ + "\t"@);
    assert(!has_char("to"@, '\t'));
    lemma_two_fields("to"@, j.to_guid);
    assert forall|i: int| 0 <= i < 4 implies is_plain_line(#[trigger] h[i]) by {
        let l = h[i];
        if i == 0 {
            assert(!has_char(l, '\n'));
        } else {
            let (pre, v) = if i == 1 {
                ("stage\t"@, st)
            } else if i == 2 {
                ("from\t"@, j.from_guid)
            } else {
                ("to\t"@, j.to_guid)
            };
            assert(l == pre + v);
            assert(is_plain_line(v));
            assert forall|k: int| 0 <= k < l.len() implies l[k] != '\n' by {
                if k >= pre.len() {
                    assert(l[k] == v[k - pre.len()]);
                }
            }
            assert(l.last() == v.last());
        }
    }
    let e = empty_journal_view();
    assert(h.take(1) =~= seq![h[0]]);
    assert(h.take(2) =~= h.take(1).push(h[1]));
    assert(h.take(3) =~= h.take(2).push(h[2]));
    assert(h =~= h.take(3).push(h[3]));
    assert(h.take(1).drop_last() =~= Seq::<Seq<char>>::empty());
    assert(h.take(2).drop_last() =~= h.take(1));
    assert(h.take(3).drop_last() =~= h.take(2));
    assert(h.drop_last() =~= h.take(3));
    assert("version"@[0] != "stage"@[0]);
    assert("version"@.len() != "from"@.len());
    assert("version"@.len() != "to"@.len());
    assert("stage"@.len() != "from"@.len());
    assert("stage"@.len() != "to"@.len());
    assert("from"@.len() != "to"@.len());
    let s1 = journal_step(e, h[0]);
    assert(s1 == Ok::<JournalView, Seq<char>>(e));
    assert(journal_fold(Seq::<Seq<char>>::empty()) == Ok::<JournalView, Seq<char>>(e));
    assert(journal_decodable(Seq::<Seq<char>>::empty()));
    assert(h.take(1).last() == h[0]);
    assert(journal_fold(h.take(1)) == s1);
    let v2 = JournalView { stage, ..e };
    assert(journal_fold(h.take(2)) == Ok::<JournalView, Seq<char>>(v2));
    let v3 = JournalView { from_guid: j.from_guid, ..v2 };
    assert(journal_fold(h.take(3)) == Ok::<JournalView, Seq<char>>(v3));
    let v4 = JournalView { to_guid: j.to_guid, ..v3 };
    assert(journal_fold(h) == Ok::<JournalView, Seq<char>>(v4));
    assert(journal_decodable(h.take(1)));
    assert(journal_decodable(h.take(2)));
    assert(journal_decodable(h.take(3)));
}

proof fn lemma_moves_read(
    prefix: Seq<Seq<char>>,
    acc: JournalView,
    tag: Seq<char>,
    ms: Seq<MovePaths>,
    k: int,
)
    requires
        tag == "out"@ || tag == "in"@,
        0 <= k <= ms.len(),
        journal_fold(prefix) == Ok::<JournalView, Seq<char>>(acc),
        journal_decodable(prefix),
    ensures
        journal_fold(prefix + move_lines(tag, ms).take(k)) == Ok::<JournalView, Seq<char>>(
            if tag == "out"@ {
                JournalView { outbound: acc.outbound + ms.take(k), ..acc }
            } else {
                JournalView { inbound: acc.inbound + ms.take(k), ..acc }
            },
        ),
        journal_decodable(prefix + move_lines(tag, ms).take(k)),
    decreases k,
{
    let mls = move_lines(tag, ms);
    if k == 0 {
        assert(prefix + mls.take(0) =~= prefix);
        assert(acc.outbound + ms.take(0) =~= acc.outbound);
        assert(acc.inbound + ms.take(0) =~= acc.inbound);
    } else {
        lemma_moves_read(prefix, acc, tag, ms, k - 1);
        let before = if tag == "out"@ {
            JournalView { outbound: acc.outbound + ms.take(k - 1), ..acc }
        } else {
            JournalView { inbound: acc.inbound + ms.take(k - 1), ..acc }
        };
        let all = prefix + mls.take(k);
        assert(all.drop_last() =~= prefix + mls.take(k - 1));
        assert(all.last() == move_line(tag, ms[k - 1]));
        lemma_move_line_reads(before, tag, ms[k - 1]);
        assert(acc.outbound + ms.take(k - 1) + seq![ms[k - 1]] =~= acc.outbound + ms.take(k));
        assert(acc.inbound + ms.take(k - 1) + seq![ms[k - 1]] =~= acc.inbound + ms.take(k));
        assert((acc.outbound + ms.take(k - 1)).push(ms[k - 1]) =~= acc.outbound + ms.take(k));
        assert((acc.inbound + ms.take(k - 1)).push(ms[k - 1]) =~= acc.inbound + ms.take(k));
    }
}

/// Writing a journal and reading back the lines of the file gives the same
/// journal, at the stage it was written with, when both desktop identifiers
/// can be stored.
pub proof fn lemma_journal_round_trip(j: JournalView, stage: JournalStage)
    requires
        storable_guid(j.from_guid),
        storable_guid(j.to_guid),
    ensures
        journal_decodable(spec_lines(join_lines(spec_journal_lines(j, stage)))),
        spec_read_journal(spec_lines(join_lines(spec_journal_lines(j, stage)))) == Ok::<
            JournalView,
            Seq<char>,
        >(JournalView { stage, ..j }),
{
    reveal_strlit("out");
    reveal_strlit("in");
    let h = header_lines(j, stage);
    let outs = move_lines("out"@, j.outbound);
    let ins = move_lines("in"@, j.inbound);
    let ls = spec_journal_lines(j, stage);
    lemma_header_reads(j, stage);
    assert forall|i: int| 0 <= i < ls.len() implies is_plain_line(#[trigger] ls[i]) by {
        if i < 4 {
            assert(ls[i] == h[i]);
        } else if i < 4 + outs.len() {
            assert(ls[i] == outs[i - 4]);
            lemma_move_line_reads(empty_journal_view(), "out"@, j.outbound[i - 4]);
        } else {
            assert(ls[i] == ins[i - 4 - outs.len()]);
            lemma_move_line_reads(empty_journal_view(), "in"@, j.inbound[i - 4 - outs.len()]);
        }
    }
    lemma_lines_of_join(ls);
    let a0 = JournalView {
        stage,
        from_guid: j.from_guid,
        to_guid: j.to_guid,
        outbound: Seq::empty(),
        inbound: Seq::empty(),
    };
    lemma_moves_read(h, a0, "out"@, j.outbound, j.outbound.len() as int);
    assert(outs.take(j.outbound.len() as int) =~= outs);
    assert(Seq::<MovePaths>::empty() + j.outbound.take(j.outbound.len() as int) =~= j.outbound);
    let a1 = JournalView { outbound: j.outbound, ..a0 };
    lemma_moves_read(h + outs, a1, "in"@, j.inbound, j.inbound.len() as int);
    assert(ins.take(j.inbound.len() as int) =~= ins);
    assert(Seq::<MovePaths>::empty() + j.inbound.take(j.inbound.len() as int) =~= j.inbound);
    assert(h + outs + ins =~= ls);
}

// ---------------------------------------------------------------------------
// Recovering from the journal
// ---------------------------------------------------------------------------

/// What recovery must do: the moves to finish in order, the desktop to mark
/// active afterwards, and the outcome to report.
#[derive(Debug)]
pub struct RecoveryPlan {
    pub steps: Vec<PlannedMove>,
    pub active_guid: Option<String>,
    pub outcome: RecoveryOutcome,
}

/// The moves that recovery makes for a journal at its stage: a planned swap
/// rolls back its outbound moves; a swap past its outbound moves finishes
/// both sets; a swap being rolled back rolls back both sets, inbound first.
pub open spec fn spec_recovery_steps(j: JournalView) -> Seq<MovePaths> {
    match j.stage {
        JournalStage::Planned => rollback_steps(j.outbound),
        JournalStage::OutboundComplete | JournalStage::InboundComplete => j.outbound + j.inbound,
        JournalStage::Rollback => rollback_steps(j.inbound) + rollback_steps(j.outbound),
    }
}

/// Whether recovery ends on the source desktop.
pub open spec fn recovery_rolls_back(stage: JournalStage) -> bool {
    stage == JournalStage::Planned || stage == JournalStage::Rollback
}

/// Plans the recovery from a journal, if there is one: the moves to finish
/// (each decided by `move_completed_or_finish`), the desktop to mark active
/// once they are all made, and the outcome to report.
pub fn recover_journal_core(journal: &Option<Journal>) -> (plan: RecoveryPlan)
    ensures
        match journal {
            None => plan.steps@.len() == 0 && plan.active_guid is None && plan.outcome
                == RecoveryOutcome::NoJournal,
            Some(j) => {
                &&& moves_paths(plan.steps@) == spec_recovery_steps(j@)
                &&& plan.active_guid matches Some(g) && g@ == (if recovery_rolls_back(j.stage) {
                    j.from_guid@
                } else {
                    j.to_guid@
                })
                &&& plan.outcome == (if recovery_rolls_back(j.stage) {
                    RecoveryOutcome::RolledBackToFrom
                } else {
                    RecoveryOutcome::CompletedToTarget
                })
            },
        },
{
    match journal {
        None => RecoveryPlan {
            steps: Vec::new(),
            active_guid: None,
            outcome: RecoveryOutcome::NoJournal,
        },
        Some(j) => match j.stage {
            JournalStage::Planned => RecoveryPlan {
                steps: rollback_move_set(j.outbound.as_slice()),
                active_guid: Some(j.from_guid.clone()),
                outcome: RecoveryOutcome::RolledBackToFrom,
            },
            JournalStage::OutboundComplete | JournalStage::InboundComplete => {
                let mut steps = finish_move_set(j.outbound.as_slice());
                let mut rest = finish_move_set(j.inbound.as_slice());
                let ghost a = steps@;
                let ghost b = rest@;
                steps.append(&mut rest);
                assert(moves_paths(steps@) =~= moves_paths(a) + moves_paths(b));
                RecoveryPlan {
                    steps,
                    active_guid: Some(j.to_guid.clone()),
                    outcome: RecoveryOutcome::CompletedToTarget,
                }
            },
            JournalStage::Rollback => {
                let mut steps = rollback_move_set(j.inbound.as_slice());
                let mut rest = rollback_move_set(j.outbound.as_slice());
                let ghost a = steps@;
                let ghost b = rest@;
                steps.append(&mut rest);
                assert(moves_paths(steps@) =~= moves_paths(a) + moves_paths(b));
                RecoveryPlan {
                    steps,
                    active_guid: Some(j.from_guid.clone()),
                    outcome: RecoveryOutcome::RolledBackToFrom,
                }
            },
        },
    }
}

proof fn lemma_distinct_split(a: Seq<MovePaths>, b: Seq<MovePaths>)
    requires
        paths_distinct(a + b),
    ensures
        paths_distinct(a),
        paths_distinct(b),
        forall|i: int|
            0 <= i < b.len() ==> !is_source(a, #[trigger] b[i].0) && !is_destination(a, b[i].0)
                && !is_source(a, b[i].1) && !is_destination(a, b[i].1),
{
    let ab = a + b;
    assert forall|i: int| 0 <= i < a.len() implies #[trigger] a[i].0 != a[i].1 by {
        assert(ab[i] == a[i]);
    }
    assert forall|i: int, j: int|
        #![trigger a[i], a[j]]
        0 <= i < a.len() && 0 <= j < a.len() && i != j implies a[i].0 != a[j].0 && a[i].1 != a[j].1
        && a[i].0 != a[j].1 by {
        assert(ab[i] == a[i]);
        assert(ab[j] == a[j]);
    }
    assert forall|i: int| 0 <= i < b.len() implies #[trigger] b[i].0 != b[i].1 by {
        assert(ab[a.len() + i] == b[i]);
    }
    assert forall|i: int, j: int|
        #![trigger b[i], b[j]]
        0 <= i < b.len() && 0 <= j < b.len() && i != j implies b[i].0 != b[j].0 && b[i].1 != b[j].1
        && b[i].0 != b[j].1 by {
        assert(ab[a.len() + i] == b[i]);
        assert(ab[a.len() + j] == b[j]);
    }
    assert forall|i: int| 0 <= i < b.len() implies !is_source(a, #[trigger] b[i].0)
        && !is_destination(a, b[i].0) && !is_source(a, b[i].1) && !is_destination(a, b[i].1) by {
        assert(ab[a.len() + i] == b[i]);
        if is_source(a, b[i].0) {
            let k = choose|k: int| 0 <= k < a.len() && a[k].0 == b[i].0;
            assert(ab[k] == a[k]);
        }
        if is_destination(a, b[i].0) {
            let k = choose|k: int| 0 <= k < a.len() && a[k].1 == b[i].0;
            assert(ab[k] == a[k]);
        }
        if is_source(a, b[i].1) {
            let k = choose|k: int| 0 <= k < a.len() && a[k].0 == b[i].1;
            assert(ab[k] == a[k]);
        }
        if is_destination(a, b[i].1) {
            let k = choose|k: int| 0 <= k < a.len() && a[k].1 == b[i].1;
            assert(ab[k] == a[k]);
        }
    }
}

/// The state that recovery reaches for a journal at its stage.
pub open spec fn recovered_state(fs: Set<Seq<char>>, j: JournalView) -> Set<Seq<char>> {
    match j.stage {
        JournalStage::Planned => none_done(fs, j.outbound),
        JournalStage::OutboundComplete | JournalStage::InboundComplete => all_done(
            all_done(fs, j.outbound),
            j.inbound,
        ),
        JournalStage::Rollback => none_done(none_done(fs, j.inbound), j.outbound),
    }
}

/// An interrupted swap can always be recovered: from any state in which each
/// planned move is either made or not yet made, the recovery steps for the
/// journal's stage all succeed; a planned swap (or one being rolled back) ends
/// with no move made, a swap past its outbound moves ends with every move
/// made, and no other path is touched. This holds when all the paths of the
/// swap differ from each other.
pub proof fn lemma_recovery_converges(fs: Set<Seq<char>>, j: JournalView)
    requires
        paths_distinct(j.outbound + j.inbound),
        each_pending_or_done(fs, j.outbound),
        each_pending_or_done(fs, j.inbound),
    ensures
        fs_run(fs, spec_recovery_steps(j)) == Some(recovered_state(fs, j)),
{
    let o = j.outbound;
    let n = j.inbound;
    lemma_distinct_split(o, n);
    match j.stage {
        JournalStage::Planned => {
            lemma_rollback_restores(fs, o);
        },
        JournalStage::OutboundComplete | JournalStage::InboundComplete => {
            lemma_finish_completes(fs, o);
            let f1 = all_done(fs, o);
            assert forall|i: int| 0 <= i < n.len() implies f1.contains(#[trigger] n[i].0)
                != f1.contains(n[i].1) by {
                assert(!is_source(o, n[i].0) && !is_destination(o, n[i].0));
                assert(!is_source(o, n[i].1) && !is_destination(o, n[i].1));
            }
            lemma_finish_completes(f1, n);
            lemma_fs_run_append(fs, o, n);
        },
        JournalStage::Rollback => {
            lemma_rollback_restores(fs, n);
            let f1 = none_done(fs, n);
            lemma_distinct_split(o, n);
            assert forall|i: int| 0 <= i < o.len() implies f1.contains(#[trigger] o[i].0)
                != f1.contains(o[i].1) by {
                if is_source(n, o[i].0) {
                    let k = choose|k: int| 0 <= k < n.len() && n[k].0 == o[i].0;
                    assert(is_source(o, n[k].0));
                }
                if is_destination(n, o[i].0) {
                    let k = choose|k: int| 0 <= k < n.len() && n[k].1 == o[i].0;
                    assert(is_source(o, n[k].1));
                }
                if is_source(n, o[i].1) {
                    let k = choose|k: int| 0 <= k < n.len() && n[k].0 == o[i].1;
                    assert(is_destination(o, n[k].0));
                }
                if is_destination(n, o[i].1) {
                    let k = choose|k: int| 0 <= k < n.len() && n[k].1 == o[i].1;
                    assert(is_destination(o, n[k].1));
                }
            }
            lemma_rollback_restores(f1, o);
            lemma_fs_run_append(fs, rollback_steps(n), rollback_steps(o));
        },
    }
}

proof fn lemma_concat_paths(a: Seq<MovePaths>, b: Seq<MovePaths>, p: Seq<char>)
    ensures
        is_source(a + b, p) <==> is_source(a, p) || is_source(b, p),
        is_destination(a + b, p) <==> is_destination(a, p) || is_destination(b, p),
{
    let ab = a + b;
    if is_source(ab, p) {
        let k = choose|k: int| 0 <= k < ab.len() && ab[k].0 == p;
        if k < a.len() {
            assert(a[k] == ab[k]);
        } else {
            assert(b[k - a.len()] == ab[k]);
        }
    }
    if is_destination(ab, p) {
        let k = choose|k: int| 0 <= k < ab.len() && ab[k].1 == p;
        if k < a.len() {
            assert(a[k] == ab[k]);
        } else {
            assert(b[k - a.len()] == ab[k]);
        }
    }
    if is_source(a, p) {
        let k = choose|k: int| 0 <= k < a.len() && a[k].0 == p;
        assert(ab[k] == a[k]);
    }
    if is_destination(a, p) {
        let k = choose|k: int| 0 <= k < a.len() && a[k].1 == p;
        assert(ab[k] == a[k]);
    }
    if is_source(b, p) {
        let k = choose|k: int| 0 <= k < b.len() && b[k].0 == p;
        assert(ab[a.len() + k] == b[k]);
    }
    if is_destination(b, p) {
        let k = choose|k: int| 0 <= k < b.len() && b[k].1 == p;
        assert(ab[a.len() + k] == b[k]);
    }
}

proof fn lemma_recovered_state_outside(f: Set<Seq<char>>, g: Set<Seq<char>>, j: JournalView)
    requires
        agree_outside(
            f,
            g,
            if j.stage == JournalStage::Planned {
                j.outbound
            } else {
                j.outbound + j.inbound
            },
        ),
    ensures
        recovered_state(f, j) == recovered_state(g, j),
{
    let o = j.outbound;
    let n = j.inbound;
    assert forall|p: Seq<char>| recovered_state(f, j).contains(p) == recovered_state(g, j).contains(
        p,
    ) by {
        lemma_concat_paths(o, n, p);
        if j.stage != JournalStage::Planned {
            if !is_source(o + n, p) && !is_destination(o + n, p) {
                assert(f.contains(p) == g.contains(p));
            }
        } else if !is_source(o, p) && !is_destination(o, p) {
            assert(f.contains(p) == g.contains(p));
        }
    }
    assert(recovered_state(f, j) =~= recovered_state(g, j));
}

/// Recovery survives its own interruption: if recovery is cut off after any
/// number of its steps, each move is still either made or not yet made, and
/// recovering again from there runs through and ends in the very state that
/// the uninterrupted recovery reaches. This holds when all the paths of the
/// swap differ from each other.
pub proof fn lemma_recovery_survives_interruption(fs: Set<Seq<char>>, j: JournalView, k: int)
    requires
        paths_distinct(j.outbound + j.inbound),
        each_pending_or_done(fs, j.outbound),
        each_pending_or_done(fs, j.inbound),
        0 <= k <= spec_recovery_steps(j).len(),
    ensures
        fs_run(fs, spec_recovery_steps(j).take(k)) matches Some(mid) && each_pending_or_done(
            mid,
            j.outbound,
        ) && each_pending_or_done(mid, j.inbound) && fs_run(mid, spec_recovery_steps(j)) == Some(
            recovered_state(fs, j),
        ),
{
    let o = j.outbound;
    let n = j.inbound;
    let all = o + n;
    let steps = spec_recovery_steps(j);
    let prefix = steps.take(k);
    lemma_distinct_split(o, n);
    let ms = if j.stage == JournalStage::Planned {
        o
    } else {
        all
    };
    assert(paths_distinct(ms));
    assert forall|i: int| 0 <= i < all.len() implies fs.contains(#[trigger] all[i].0)
        != fs.contains(all[i].1) by {
        if i < o.len() {
            assert(all[i] == o[i]);
        } else {
            assert(all[i] == n[i - o.len()]);
        }
    }
    assert(each_pending_or_done(fs, ms));
    assert forall|i: int| 0 <= i < prefix.len() implies is_step_of(ms, #[trigger] prefix[i]) by {
        assert(prefix[i] == steps[i]);
        match j.stage {
            JournalStage::Planned => {
                let m = o[o.len() - 1 - i];
                assert(steps[i] == (m.1, m.0));
                assert(ms[o.len() - 1 - i] == m);
            },
            JournalStage::OutboundComplete | JournalStage::InboundComplete => {
                assert(ms[i] == steps[i]);
            },
            JournalStage::Rollback => {
                let rn = rollback_steps(n);
                let ro = rollback_steps(o);
                if i < rn.len() {
                    assert(steps[i] == rn[i]);
                    let m = n[n.len() - 1 - i];
                    assert(ms[o.len() + n.len() - 1 - i] == m);
                } else {
                    assert(steps[i] == ro[i - rn.len()]);
                    let m = o[o.len() - 1 - (i - rn.len())];
                    assert(ms[o.len() - 1 - (i - rn.len())] == m);
                }
            },
        }
    }
    lemma_run_keeps_pending_or_done(fs, ms, prefix);
    let mid = fs_run(fs, prefix)->Some_0;
    assert forall|i: int| 0 <= i < o.len() implies mid.contains(#[trigger] o[i].0) != mid.contains(
        o[i].1,
    ) by {
        if j.stage != JournalStage::Planned {
            assert(ms[i] == o[i]);
        }
    }
    assert forall|i: int| 0 <= i < n.len() implies mid.contains(#[trigger] n[i].0) != mid.contains(
        n[i].1,
    ) by {
        if j.stage == JournalStage::Planned {
            assert(!is_source(o, n[i].0) && !is_destination(o, n[i].0));
            assert(!is_source(o, n[i].1) && !is_destination(o, n[i].1));
            assert(fs.contains(n[i].0) == mid.contains(n[i].0));
            assert(fs.contains(n[i].1) == mid.contains(n[i].1));
        } else {
            assert(ms[o.len() + i] == n[i]);
        }
    }
    lemma_recovered_state_outside(fs, mid, j);
    lemma_recovery_converges(mid, j);
}

proof fn lemma_step_err(acc: JournalView, line: Seq<char>)
    ensures
        journal_step(acc, line) is Err <==> ({
            let parts = split_on(line, '\t');
            parts.len() == 2 && parts[0] == "stage"@ && spec_parse_stage(parts[1]) is Err
        }),
{
}

/// Whether `read_journal` can read these lines: every move line it reaches
/// has paths that can be decoded.
pub fn journal_lines_decodable(lines: &[String]) -> (b: bool)
    ensures
        b == journal_decodable(string_views(lines@)),
{
    let ghost ls = string_views(lines@);
    let mut ok = true;
    let mut i: usize = 0;
    assert(ls.take(0) =~= Seq::<Seq<char>>::empty());
    while i < lines.len()
        invariant
            ls == string_views(lines@),
            i <= lines@.len(),
            journal_decodable(ls.take(i as int)),
            ok == journal_fold(ls.take(i as int)) is Ok,
        decreases lines@.len() - i,
    {
        let line = chars_of(lines[i].as_str());
        proof {
            assert(ls.take(i + 1).drop_last() =~= ls.take(i as int));
            assert(ls.take(i + 1).last() == line@);
        }
        let parts = split_chars(line.as_slice(), '\t');
        let ghost pv = char_vec_views(parts@);
        assert(pv.len() == parts@.len());
        if parts.len() >= 1 {
            assert(pv[0] == parts@[0]@);
        }
        if parts.len() >= 2 {
            assert(pv[1] == parts@[1]@);
        }
        if parts.len() >= 3 {
            assert(pv[2] == parts@[2]@);
        }
        if ok {
            if parts.len() == 3 && (chars_equal_str(parts[0].as_slice(), "out") || chars_equal_str(
                parts[0].as_slice(),
                "in",
            )) {
                let f = string_from_chars(parts[1].as_slice());
                let t = string_from_chars(parts[2].as_slice());
                if !is_decodable(f.as_str()) || !is_decodable(t.as_str()) {
                    proof {
                        assert(!journal_decodable(ls.take(i + 1)));
                        if journal_decodable(ls) {
                            lemma_decodable_prefix(ls, i + 1);
                        }
                    }
                    return false;
                }
            }
            let ghost acc = journal_fold(ls.take(i as int))->Ok_0;
            proof {
                lemma_step_err(acc, line@);
            }
            if parts.len() == 2 && chars_equal_str(parts[0].as_slice(), "stage") {
                let value = string_from_chars(parts[1].as_slice());
                if JournalStage::parse(value.as_str()).is_err() {
                    ok = false;
                }
            }
        }
        i = i + 1;
    }
    assert(ls.take(i as int) =~= ls);
    true
}

} // verus!
