//! The mathematical model of the line registry.
//!
//! A registry is a screen-ordered sequence of logical lines together with the
//! identity of the line the physical terminal cursor sits on (`None` when the
//! cursor is below every managed line, in scroll space), the counter from
//! which fresh line ids are drawn, and the row budget.  Every operation of the
//! executable registry is specified as a transition over this model, and the
//! terminal output of an operation is specified as a sequence of relative
//! cursor commands.

use vstd::prelude::*;
use vstd::arithmetic::div_mod::lemma_fundamental_div_mod;
use vstd::arithmetic::div_mod::lemma_add_mod_noop;
use vstd::arithmetic::div_mod::lemma_small_mod;
use vstd::arithmetic::div_mod::lemma_mod_self_0;
use vstd::set_lib::lemma_len_subset;

verus! {

/// One logical line: its identity, its display text, and whether its handle
/// has been released (after which it may be evicted but no longer edited).
#[verifier::ext_equal]
pub ghost struct LineModel {
    pub id: nat,
    pub text: Seq<char>,
    pub finalized: bool,
}

/// One relative terminal command.  Only relative cursor motion is ever used:
/// the scrollback above the managed region is unbounded and unknowable, so no
/// command addresses an absolute row.
#[verifier::ext_equal]
pub ghost enum CommandModel {
    /// Move the cursor up the given number of rows, to the start of the row.
    Up(nat),
    /// Move the cursor down the given number of rows, to the start of the row.
    Down(nat),
    /// Move the cursor to the start of the current row.
    ColumnStart,
    /// Print the given text at the cursor position.
    Print(Seq<char>),
    /// Clear from the cursor position to the end of the row.
    Clear,
    /// Emit a line break: the cursor moves to the start of the next row, and
    /// the row it left is never written to again.
    Break,
}

/// The abstract state of a line registry.
#[verifier::ext_equal]
pub ghost struct RegistryModel {
    /// The managed lines, in top-to-bottom screen order.
    pub lines: Seq<LineModel>,
    /// The id of the line the cursor sits on, or `None` in scroll space.
    pub cursor: Option<nat>,
    /// The counter from which the next line id is drawn.
    pub next_id: nat,
    /// The maximum number of concurrently managed lines.
    pub budget: nat,
}

/// Whether some line of `lines` carries the id `id`.
pub open spec fn contains_id(lines: Seq<LineModel>, id: nat) -> bool {
    exists|i: int| 0 <= i < lines.len() && lines[i].id == id
}

/// Whether the ids of `lines` are pairwise distinct.
pub open spec fn ids_distinct(lines: Seq<LineModel>) -> bool {
    forall|i: int, j: int| 0 <= i < j < lines.len() ==> lines[i].id != lines[j].id
}

/// The index of the line carrying `id`.  Meaningful when `contains_id` holds
/// and the ids are pairwise distinct, in which case the index is unique.
pub open spec fn index_of_id(lines: Seq<LineModel>, id: nat) -> int {
    choose|i: int| 0 <= i < lines.len() && lines[i].id == id
}

/// Whether some line of `lines` is finalized.
pub open spec fn has_finalized(lines: Seq<LineModel>) -> bool {
    exists|i: int| 0 <= i < lines.len() && lines[i].finalized
}

/// The index of the first finalized line of `lines`, or `lines.len()` when no
/// line is finalized.
pub open spec fn first_finalized(lines: Seq<LineModel>) -> int
    decreases lines.len(),
{
    if lines.len() == 0 {
        0
    } else if lines[0].finalized {
        0
    } else {
        1 + first_finalized(lines.drop_first())
    }
}

impl RegistryModel {
    /// Well-formedness: the lines fit in the row budget, no two live lines
    /// share an id, and the cursor only ever sits on a line that is present.
    pub open spec fn wf(self) -> bool {
        &&& self.lines.len() <= self.budget
        &&& ids_distinct(self.lines)
        &&& (self.cursor matches Some(id) ==> contains_id(self.lines, id))
    }

    /// The row the cursor occupies: the index of its line, or one past the
    /// last row when the cursor is below every managed line.
    pub open spec fn cursor_row(self) -> int {
        match self.cursor {
            Some(id) => index_of_id(self.lines, id),
            None => self.lines.len() as int,
        }
    }
}

/// The model with the cursor placed on the line carrying `id`.
pub open spec fn select_line(m: RegistryModel, id: nat) -> RegistryModel {
    RegistryModel { cursor: Some(id), ..m }
}

/// The commands that redraw the line carrying `id` in place: the minimal
/// relative motion from the cursor's row to the line's row, then the line's
/// text, then a clear to the end of the row.
pub open spec fn render_commands(m: RegistryModel, id: nat) -> Seq<CommandModel> {
    let self_row = index_of_id(m.lines, id);
    let text = m.lines[self_row].text;
    let diff = self_row - m.cursor_row();
    if diff < 0 {
        seq![CommandModel::Up((-diff) as nat), CommandModel::Print(text), CommandModel::Clear]
    } else if diff == 0 {
        seq![CommandModel::ColumnStart, CommandModel::Print(text), CommandModel::Clear]
    } else {
        seq![CommandModel::Down(diff as nat), CommandModel::Print(text), CommandModel::Clear]
    }
}

/// The model with the text of the line carrying `id` replaced.
pub open spec fn with_text(m: RegistryModel, id: nat, text: Seq<char>) -> RegistryModel {
    let i = index_of_id(m.lines, id);
    RegistryModel { lines: m.lines.update(i, LineModel { text, ..m.lines[i] }), ..m }
}

/// Replacing a line's text: the new state and the commands that redraw the
/// line, after which the cursor sits on it.
pub open spec fn replace_transition(m: RegistryModel, id: nat, text: Seq<char>) -> (
    RegistryModel,
    Seq<CommandModel>,
) {
    let updated = with_text(m, id, text);
    (select_line(updated, id), render_commands(updated, id))
}

/// The model with the line carrying `id` marked finalized, irreversibly.
pub open spec fn finalize_transition(m: RegistryModel, id: nat) -> RegistryModel {
    let i = index_of_id(m.lines, id);
    RegistryModel {
        lines: m.lines.update(i, LineModel { finalized: true, ..m.lines[i] }),
        ..m
    }
}

/// Whether a row is free for a new line.
pub open spec fn has_room(m: RegistryModel) -> bool {
    m.lines.len() < m.budget
}

/// Whether the topmost line can be reclaimed: no room, and the topmost line
/// is finalized.
pub open spec fn evict_ready(m: RegistryModel) -> bool {
    &&& !has_room(m)
    &&& m.lines.len() > 0
    &&& m.lines[0].finalized
}

/// Whether a finalized line is buried below still-active lines and must be
/// relocated to the top before it can be reclaimed.
pub open spec fn relocate_ready(m: RegistryModel) -> bool {
    &&& !has_room(m)
    &&& m.lines.len() > 0
    &&& !m.lines[0].finalized
    &&& has_finalized(m.lines)
}

/// Whether no row can currently be reclaimed, so a caller seeking space must
/// wait for a finalization event.
pub open spec fn must_wait(m: RegistryModel) -> bool {
    &&& !has_room(m)
    &&& !has_finalized(m.lines)
}

/// Evicting the topmost line, which must be finalized: the line leaves the
/// sequence and its row scrolls out of the managed region.  If the cursor sat
/// on it, the cursor moves to the next line if one exists, and otherwise one
/// row down into scroll space, with a line break so that the evicted row is
/// never overwritten.
pub open spec fn evict_transition(m: RegistryModel) -> (RegistryModel, Seq<CommandModel>) {
    let rest = m.lines.drop_first();
    if m.cursor == Some(m.lines[0].id) {
        if m.lines.len() > 1 {
            (
                RegistryModel { lines: rest, cursor: Some(m.lines[1].id), ..m },
                seq![CommandModel::Down(1)],
            )
        } else {
            (
                RegistryModel { lines: rest, cursor: None, ..m },
                seq![CommandModel::Break],
            )
        }
    } else {
        (RegistryModel { lines: rest, ..m }, Seq::<CommandModel>::empty())
    }
}

/// The lines with the one at index `f` moved to the top and everything that
/// was above it shifted down one place; the order of all other lines is kept.
pub open spec fn relocated_lines(lines: Seq<LineModel>, f: int) -> Seq<LineModel> {
    seq![lines[f]] + lines.subrange(0, f) + lines.subrange(f + 1, lines.len() as int)
}

/// Redrawing the first `k` lines of `m.lines` in order, each redraw moving
/// the cursor onto the line it drew.  Returns the final state and the
/// concatenated commands.
pub open spec fn rerender_prefix(m: RegistryModel, k: int) -> (RegistryModel, Seq<CommandModel>)
    decreases k,
{
    if k <= 0 {
        (m, Seq::<CommandModel>::empty())
    } else {
        let prev = rerender_prefix(m, k - 1);
        let id = m.lines[k - 1].id;
        (select_line(prev.0, id), prev.1 + render_commands(prev.0, id))
    }
}

/// Relocating the first finalized line to the top of the sequence and
/// redrawing every row from the top down through the line's old position, so
/// that the screen content is unchanged even though the internal order is
/// not.
pub open spec fn relocate_transition(m: RegistryModel) -> (RegistryModel, Seq<CommandModel>) {
    let f = first_finalized(m.lines);
    let moved = RegistryModel { lines: relocated_lines(m.lines, f), ..m };
    rerender_prefix(moved, f + 1)
}

/// The commands that move the cursor below every managed line: down to the
/// bottom line, then a line break into scroll space.  Empty when the cursor
/// is already in scroll space.
pub open spec fn park_cursor_commands(m: RegistryModel) -> Seq<CommandModel> {
    match m.cursor {
        Some(_) => seq![
            CommandModel::Down((m.lines.len() - 1 - m.cursor_row()) as nat),
            CommandModel::Break,
        ],
        None => Seq::<CommandModel>::empty(),
    }
}

/// The model with a fresh line appended at the bottom, after the cursor was
/// parked in scroll space.
pub open spec fn appended(m: RegistryModel, id: nat, text: Seq<char>) -> RegistryModel {
    RegistryModel {
        lines: m.lines.push(LineModel { id, text, finalized: false }),
        cursor: None,
        ..m
    }
}

/// The commands emitted when a fresh line is inserted at the bottom: park the
/// cursor in scroll space if needed, then render the new line.
pub open spec fn insert_commands(m: RegistryModel, id: nat, text: Seq<char>) -> Seq<
    CommandModel,
> {
    park_cursor_commands(m) + render_commands(appended(m, id, text), id)
}

/// The number of distinct line ids: one more than the largest id value.
pub open spec fn id_space() -> nat {
    usize::MAX as nat + 1
}

/// The id counter advanced by one, wrapping on overflow.
pub open spec fn wrap_inc(x: nat) -> nat {
    if x == usize::MAX as nat {
        0
    } else {
        x + 1
    }
}

/// The id counter advanced `k` times, wrapping on overflow.
pub open spec fn wrap_step(x: nat, k: nat) -> nat {
    (x + k) % id_space()
}

/// In pairwise-distinct lines, the index of an id is the only index that
/// carries it.
pub proof fn lemma_index_of_id(lines: Seq<LineModel>, id: nat, i: int)
    requires
        ids_distinct(lines),
        0 <= i < lines.len(),
        lines[i].id == id,
    ensures
        index_of_id(lines, id) == i,
{
    let j = index_of_id(lines, id);
    assert(0 <= j < lines.len() && lines[j].id == id);
}

/// Characterization of `first_finalized`: everything before it is active, and
/// it is finalized whenever it is a valid index.
pub proof fn lemma_first_finalized(lines: Seq<LineModel>)
    ensures
        0 <= first_finalized(lines) <= lines.len(),
        forall|j: int| 0 <= j < first_finalized(lines) ==> !lines[j].finalized,
        first_finalized(lines) < lines.len() ==> lines[first_finalized(lines)].finalized,
        (first_finalized(lines) == lines.len()) == !has_finalized(lines),
    decreases lines.len(),
{
    if lines.len() == 0 {
    } else if lines[0].finalized {
    } else {
        let rest = lines.drop_first();
        lemma_first_finalized(rest);
        let f = first_finalized(lines);
        assert forall|j: int| 0 <= j < f implies !lines[j].finalized by {
            if j > 0 {
                assert(rest[j - 1] == lines[j]);
            }
        }
        if f < lines.len() {
            assert(rest[f - 1] == lines[f]);
        }
        if has_finalized(lines) {
            let w = choose|i: int| 0 <= i < lines.len() && lines[i].finalized;
            assert(rest[w - 1] == lines[w]);
            assert(has_finalized(rest));
        } else {
            if has_finalized(rest) {
                let w = choose|i: int| 0 <= i < rest.len() && rest[i].finalized;
                assert(rest[w] == lines[w + 1]);
            }
        }
    }
}

/// Redrawing a prefix of the lines changes nothing but the cursor, which
/// ends on the last line drawn.
pub proof fn lemma_rerender_prefix_state(m: RegistryModel, k: int)
    ensures
        rerender_prefix(m, k).0.lines == m.lines,
        rerender_prefix(m, k).0.next_id == m.next_id,
        rerender_prefix(m, k).0.budget == m.budget,
        k <= 0 ==> rerender_prefix(m, k).0 == m,
        k > 0 ==> rerender_prefix(m, k).0.cursor == Some(m.lines[k - 1].id),
    decreases k,
{
    if k > 0 {
        lemma_rerender_prefix_state(m, k - 1);
    }
}

/// Advancing the wrapped counter once more is one more wrapped step.
pub proof fn lemma_wrap_step_inc(x: nat, k: nat)
    requires
        x < id_space(),
    ensures
        wrap_inc(wrap_step(x, k)) == wrap_step(x, k + 1),
{
    let m = id_space() as int;
    let c = wrap_step(x, k) as int;
    lemma_add_mod_noop((x + k) as int, 1, m);
    lemma_small_mod(1, m as nat);
    if c + 1 < m {
        lemma_small_mod((c + 1) as nat, m as nat);
    } else {
        lemma_mod_self_0(m);
    }
}

/// Distinct step counts below the id space give distinct wrapped ids.
pub proof fn lemma_wrap_step_injective(start: nat, j1: nat, j2: nat)
    requires
        start < id_space(),
        j1 < j2,
        j2 < id_space(),
    ensures
        wrap_step(start, j1) != wrap_step(start, j2),
{
    let m = id_space() as int;
    let a = (start + j1) as int;
    let b = (start + j2) as int;
    lemma_fundamental_div_mod(a, m);
    lemma_fundamental_div_mod(b, m);
    if wrap_step(start, j1) == wrap_step(start, j2) {
        let q = b / m - a / m;
        assert(b - a == m * q) by (nonlinear_arith)
            requires
                a == m * (a / m) + a % m,
                b == m * (b / m) + b % m,
                a % m == b % m,
                q == b / m - a / m,
        ;
        assert(0 < b - a < m);
        assert(false) by (nonlinear_arith)
            requires
                b - a == m * q,
                0 < b - a < m,
        ;
    }
}

/// Pigeonhole bound on id allocation: if `count` successive wrapped candidate
/// ids are all taken by live lines with pairwise-distinct ids, there are at
/// least `count` lines.
pub proof fn lemma_taken_candidates_bounded(
    lines: Seq<LineModel>,
    start: nat,
    count: nat,
)
    requires
        ids_distinct(lines),
        start < id_space(),
        count <= id_space(),
        forall|j: nat| j < count ==> contains_id(lines, wrap_step(start, j)),
    ensures
        count <= lines.len(),
{
    broadcast use vstd::seq_lib::seq_to_set_is_finite;

    let cands = Seq::<nat>::new(count, |j: int| wrap_step(start, j as nat));
    let ids = lines.map_values(|l: LineModel| l.id);
    assert forall|i: int, j: int| 0 <= i < j < cands.len() implies cands[i] != cands[j] by {
        lemma_wrap_step_injective(start, i as nat, j as nat);
    }
    assert(cands.no_duplicates());
    cands.unique_seq_to_set();
    ids.lemma_cardinality_of_set();
    assert forall|x: nat| cands.to_set().contains(x) implies ids.to_set().contains(x) by {
        let j = choose|j: int| 0 <= j < cands.len() && cands[j] == x;
        assert(contains_id(lines, wrap_step(start, j as nat)));
        let i = choose|i: int| 0 <= i < lines.len() && lines[i].id == x;
        assert(ids[i] == x);
        assert(ids.contains(x));
    }
    lemma_len_subset(cands.to_set(), ids.to_set());
}

} // verus!
