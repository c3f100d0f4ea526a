//! The executable line registry: the ordered pool of logical lines mapped
//! onto terminal rows, the cursor-coordination algorithm that redraws any
//! line in place through relative motion only, and the space scheduler that
//! reclaims rows from finalized lines.
//!
//! The registry performs no I/O itself: every operation that draws returns
//! the sequence of terminal commands to issue, in order, so that callers can
//! drive a real terminal while the placement logic stays pure.

use vstd::prelude::*;
use crate::model::CommandModel;
use crate::model::LineModel;
use crate::model::RegistryModel;
use crate::model::contains_id;
use crate::model::ids_distinct;
use crate::model::index_of_id;
use crate::model::has_room;
use crate::model::lemma_index_of_id;
use crate::model::select_line;
use crate::model::render_commands;
use crate::model::with_text;
use crate::model::replace_transition;
use crate::model::finalize_transition;
use crate::model::evict_ready;
use crate::model::relocate_ready;
use crate::model::must_wait;
use crate::model::evict_transition;
use crate::model::relocate_transition;
use crate::model::relocated_lines;
use crate::model::rerender_prefix;
use crate::model::first_finalized;
use crate::model::has_finalized;
use crate::model::lemma_first_finalized;
use crate::model::lemma_rerender_prefix_state;
use crate::model::wrap_inc;
use crate::model::wrap_step;
use crate::model::id_space;
use crate::model::insert_commands;
use crate::model::appended;
use crate::model::park_cursor_commands;
use crate::model::lemma_wrap_step_inc;
use crate::model::lemma_taken_candidates_bounded;
use vstd::arithmetic::div_mod::lemma_small_mod;

verus! {

/// One managed line as stored by the registry.
pub struct Line {
    /// The line's identity, unique among currently live lines.
    pub id: usize,
    /// The text currently displayed on the line's row.
    pub text: String,
    /// Whether the line's handle has been released.
    pub finalized: bool,
}

impl View for Line {
    type V = LineModel;

    open spec fn view(&self) -> LineModel {
        LineModel { id: self.id as nat, text: self.text@, finalized: self.finalized }
    }
}

/// One relative terminal command, ready to be issued to a terminal.
pub enum TermCommand {
    /// Move the cursor up the given number of rows, to the start of the row.
    MoveUp(usize),
    /// Move the cursor down the given number of rows, to the start of the row.
    MoveDown(usize),
    /// Move the cursor to the start of the current row.
    MoveToColumnStart,
    /// Print the given text at the cursor position.
    Print(String),
    /// Clear from the cursor position to the end of the row.
    ClearToLineEnd,
    /// Emit a line break into the row below.
    LineBreak,
}

impl View for TermCommand {
    type V = CommandModel;

    open spec fn view(&self) -> CommandModel {
        match self {
            TermCommand::MoveUp(n) => CommandModel::Up(*n as nat),
            TermCommand::MoveDown(n) => CommandModel::Down(*n as nat),
            TermCommand::MoveToColumnStart => CommandModel::ColumnStart,
            TermCommand::Print(s) => CommandModel::Print(s@),
            TermCommand::ClearToLineEnd => CommandModel::Clear,
            TermCommand::LineBreak => CommandModel::Break,
        }
    }
}

/// The models of a sequence of terminal commands, in order.
pub open spec fn command_views(cmds: Seq<TermCommand>) -> Seq<CommandModel> {
    cmds.map_values(|c: TermCommand| c@)
}

/// The models of a sequence of lines, in order.
pub open spec fn line_views(lines: Seq<Line>) -> Seq<LineModel> {
    lines.map_values(|l: Line| l@)
}

/// The outcome of one step of the space scheduler.
pub enum RoomStep {
    /// A row is free: a new line can be inserted.
    HasRoom,
    /// The topmost line was finalized and has been evicted; retry.
    Evicted,
    /// A buried finalized line was relocated to the top; retry.
    Relocated,
    /// No row is free and no line is finalized: the caller must wait for a
    /// finalization event, then retry.
    MustWait,
}

/// The line registry: the ordered sequence of logical lines, the line the
/// physical cursor sits on, the id counter, and the row budget.
pub struct Registry {
    lines: Vec<Line>,
    cursor_line: Option<usize>,
    next_id: usize,
    row_budget: usize,
}

impl View for Registry {
    type V = RegistryModel;

    closed spec fn view(&self) -> RegistryModel {
        RegistryModel {
            lines: line_views(self.lines@),
            cursor: match self.cursor_line {
                Some(id) => Some(id as nat),
                None => None,
            },
            next_id: self.next_id as nat,
            budget: self.row_budget as nat,
        }
    }
}

impl Registry {
    /// An empty registry with the given row budget and no line under the
    /// cursor.
    pub fn new(row_budget: usize) -> (r: Registry)
        ensures
            r@.wf(),
            r@.lines.len() == 0,
            r@.cursor is None,
            r@.next_id == 0,
            r@.budget == row_budget as nat,
    {
        let r = Registry { lines: Vec::new(), cursor_line: None, next_id: 0, row_budget };
        proof {
            assert(r@.lines =~= Seq::<LineModel>::empty());
        }
        r
    }

    /// The number of managed lines.
    pub fn len(&self) -> (n: usize)
        ensures
            n as nat == self@.lines.len(),
    {
        self.lines.len()
    }

    /// Whether a row is free for a new line.
    pub fn has_room(&self) -> (r: bool)
        ensures
            r == has_room(self@),
    {
        self.lines.len() < self.row_budget
    }

    /// The id of the line at the given row.
    pub fn line_id(&self, row: usize) -> (id: usize)
        requires
            row < self@.lines.len(),
        ensures
            id as nat == self@.lines[row as int].id,
    {
        self.lines[row].id
    }

    /// The text of the line at the given row.
    pub fn line_text(&self, row: usize) -> (text: &String)
        requires
            row < self@.lines.len(),
        ensures
            text@ == self@.lines[row as int].text,
    {
        &self.lines[row].text
    }

    /// Whether the line at the given row is finalized.
    pub fn line_finalized(&self, row: usize) -> (finalized: bool)
        requires
            row < self@.lines.len(),
        ensures
            finalized == self@.lines[row as int].finalized,
    {
        self.lines[row].finalized
    }

    /// The id of the line the cursor sits on, or `None` when the cursor is
    /// below every managed line.
    pub fn cursor_line(&self) -> (c: Option<usize>)
        ensures
            self@.cursor == (match c {
                Some(id) => Some(id as nat),
                None => None::<nat>,
            }),
    {
        self.cursor_line
    }

    /// Whether a live line carries the given id.
    pub fn contains(&self, id: usize) -> (r: bool)
        ensures
            r == contains_id(self@.lines, id as nat),
    {
        let n = self.lines.len();
        let mut i: usize = 0;
        while i < n
            invariant
                n as nat == self@.lines.len(),
                i <= n,
                forall|j: int| 0 <= j < i ==> self@.lines[j].id != id as nat,
            decreases n - i,
        {
            if self.lines[i].id == id {
                proof {
                    assert(self@.lines[i as int].id == id as nat);
                }
                return true;
            }
            i += 1;
        }
        false
    }

    /// The row of the line carrying the given id.
    fn index_of(&self, id: usize) -> (row: usize)
        requires
            ids_distinct(self@.lines),
            contains_id(self@.lines, id as nat),
        ensures
            row < self@.lines.len(),
            row as int == index_of_id(self@.lines, id as nat),
    {
        let n = self.lines.len();
        let mut i: usize = 0;
        loop
            invariant
                n as nat == self@.lines.len(),
                i <= n,
                ids_distinct(self@.lines),
                contains_id(self@.lines, id as nat),
                forall|j: int| 0 <= j < i ==> self@.lines[j].id != id as nat,
            decreases n - i,
        {
            if i >= n {
                proof {
                    let w = choose|w: int|
                        0 <= w < self@.lines.len() && self@.lines[w].id == id as nat;
                    assert(false);
                }
            }
            if self.lines[i].id == id {
                proof {
                    lemma_index_of_id(self@.lines, id as nat, i as int);
                }
                return i;
            }
            i += 1;
        }
    }

    /// Redraws the line carrying `id` in place, wherever the cursor currently
    /// is, using only relative motion; afterwards the cursor sits on that
    /// line.  The registry's lines are unchanged.
    pub fn update_line(&mut self, id: usize) -> (cmds: Vec<TermCommand>)
        requires
            old(self)@.wf(),
            contains_id(old(self)@.lines, id as nat),
        ensures
            final(self)@.wf(),
            final(self)@ == select_line(old(self)@, id as nat),
            final(self)@.cursor == Some(id as nat),
            final(self)@.lines == old(self)@.lines,
            command_views(cmds@) == render_commands(old(self)@, id as nat),
    {
        let self_row = self.index_of(id);
        let cursor_row = match self.cursor_line {
            Some(cid) => self.index_of(cid),
            None => self.lines.len(),
        };
        let mut cmds: Vec<TermCommand> = Vec::new();
        if self_row < cursor_row {
            cmds.push(TermCommand::MoveUp(cursor_row - self_row));
        } else if self_row == cursor_row {
            cmds.push(TermCommand::MoveToColumnStart);
        } else {
            cmds.push(TermCommand::MoveDown(self_row - cursor_row));
        }
        cmds.push(TermCommand::Print(self.lines[self_row].text.clone()));
        cmds.push(TermCommand::ClearToLineEnd);
        self.cursor_line = Some(id);
        proof {
            assert(self@ =~= select_line(old(self)@, id as nat));
            assert(command_views(cmds@) =~= render_commands(old(self)@, id as nat));
        }
        cmds
    }

    /// Marks the line carrying `id` as finalized, irreversibly.  The line
    /// stays on screen until the space scheduler evicts it.
    pub fn finalize(&mut self, id: usize)
        requires
            old(self)@.wf(),
            contains_id(old(self)@.lines, id as nat),
        ensures
            final(self)@.wf(),
            final(self)@ == finalize_transition(old(self)@, id as nat),
    {
        let row = self.index_of(id);
        let line = self.lines.remove(row);
        self.lines.insert(row, Line { finalized: true, ..line });
        proof {
            let target = finalize_transition(old(self)@, id as nat);
            assert(self@.lines =~= target.lines);
            assert(self@ =~= target);
            assert forall|k: int| 0 <= k < self@.lines.len() implies self@.lines[k].id
                == old(self)@.lines[k].id by {}
            if old(self)@.cursor is Some {
                let cid = old(self)@.cursor->Some_0;
                let w = choose|w: int|
                    0 <= w < old(self)@.lines.len() && old(self)@.lines[w].id == cid;
                assert(self@.lines[w].id == cid);
            }
        }
    }

    /// Replaces the text of the line carrying `id` and redraws it in place;
    /// afterwards the cursor sits on that line.
    pub fn replace(&mut self, id: usize, new_text: String) -> (cmds: Vec<TermCommand>)
        requires
            old(self)@.wf(),
            contains_id(old(self)@.lines, id as nat),
        ensures
            final(self)@.wf(),
            final(self)@ == replace_transition(old(self)@, id as nat, new_text@).0,
            command_views(cmds@) == replace_transition(old(self)@, id as nat, new_text@).1,
    {
        let row = self.index_of(id);
        let line = self.lines.remove(row);
        self.lines.insert(row, Line { text: new_text, ..line });
        proof {
            let mid = with_text(old(self)@, id as nat, new_text@);
            assert(self@.lines =~= mid.lines);
            assert(self@ =~= mid);
            assert forall|k: int| 0 <= k < self@.lines.len() implies self@.lines[k].id
                == old(self)@.lines[k].id by {}
            if old(self)@.cursor is Some {
                let cid = old(self)@.cursor->Some_0;
                let w = choose|w: int|
                    0 <= w < old(self)@.lines.len() && old(self)@.lines[w].id == cid;
                assert(self@.lines[w].id == cid);
            }
            assert(contains_id(self@.lines, id as nat)) by {
                assert(self@.lines[row as int].id == id as nat);
            }
        }
        self.update_line(id)
    }

    /// One step of the space scheduler, run when a caller wants a row for a
    /// new line.  Evicts the topmost line when it is finalized; otherwise
    /// relocates the first buried finalized line to the top (redrawing the
    /// rows whose content changed, so the screen looks the same); otherwise
    /// reports whether a row is free or the caller must wait for a
    /// finalization event and retry.
    pub fn make_room_step(&mut self) -> (r: (RoomStep, Vec<TermCommand>))
        requires
            old(self)@.wf(),
        ensures
            final(self)@.wf(),
            final(self)@.budget == old(self)@.budget,
            final(self)@.next_id == old(self)@.next_id,
            (r.0 is HasRoom) == has_room(old(self)@),
            (r.0 is Evicted) == evict_ready(old(self)@),
            (r.0 is Relocated) == relocate_ready(old(self)@),
            (r.0 is MustWait) == must_wait(old(self)@),
            r.0 is HasRoom ==> final(self)@ == old(self)@ && r.1@.len() == 0,
            r.0 is MustWait ==> final(self)@ == old(self)@ && r.1@.len() == 0,
            r.0 is Evicted ==> old(self)@.lines[0].finalized && final(self)@.lines == old(
                self,
            )@.lines.drop_first(),
            r.0 is Evicted ==> final(self)@ == evict_transition(old(self)@).0
                && command_views(r.1@) == evict_transition(old(self)@).1,
            r.0 is Relocated ==> final(self)@ == relocate_transition(old(self)@).0
                && command_views(r.1@) == relocate_transition(old(self)@).1,
    {
        let n = self.lines.len();
        if n < self.row_budget {
            return (RoomStep::HasRoom, Vec::new());
        }
        if n > 0 && self.lines[0].finalized {
            // The topmost line is finalized: let it scroll out of the managed
            // region.  If the cursor sat on it, step the cursor off it first.
            let mut cmds: Vec<TermCommand> = Vec::new();
            let evicted_id = self.lines[0].id;
            let on_evicted = match self.cursor_line {
                Some(cid) => cid == evicted_id,
                None => false,
            };
            if on_evicted {
                if n > 1 {
                    let second_id = self.lines[1].id;
                    cmds.push(TermCommand::MoveDown(1));
                    self.cursor_line = Some(second_id);
                } else {
                    cmds.push(TermCommand::LineBreak);
                    self.cursor_line = None;
                }
            }
            self.lines.remove(0);
            proof {
                let m = old(self)@;
                assert(self@.lines =~= m.lines.drop_first());
                assert(self@ =~= evict_transition(m).0);
                assert(command_views(cmds@) =~= evict_transition(m).1);
                assert forall|i: int, j: int| 0 <= i < j < self@.lines.len() implies self@
                    .lines[i].id != self@.lines[j].id by {
                    assert(self@.lines[i] == m.lines[i + 1]);
                    assert(self@.lines[j] == m.lines[j + 1]);
                }
                if self@.cursor is Some {
                    let cid = self@.cursor->Some_0;
                    if m.cursor == Some(m.lines[0].id) {
                        assert(self@.lines[0] == m.lines[1]);
                    } else {
                        let w = choose|w: int|
                            0 <= w < m.lines.len() && m.lines[w].id == cid;
                        assert(w != 0);
                        assert(self@.lines[w - 1] == m.lines[w]);
                    }
                }
            }
            return (RoomStep::Evicted, cmds);
        }
        // Look for a finalized line buried below still-active lines.
        let mut f: usize = 0;
        while f < n && !self.lines[f].finalized
            invariant
                n as nat == self@.lines.len(),
                f <= n,
                forall|j: int| 0 <= j < f ==> !self@.lines[j].finalized,
            decreases n - f,
        {
            f += 1;
        }
        proof {
            lemma_first_finalized(old(self)@.lines);
        }
        if f == n {
            // No row is free and nothing is finalized: the caller must wait.
            return (RoomStep::MustWait, Vec::new());
        }
        // Move the finalized line to the top of the sequence, then redraw the
        // rows from the top down through its old position: their contents
        // shifted by one, so the screen is repainted to look unchanged.
        proof {
            assert(first_finalized(old(self)@.lines) == f as int);
        }
        let moved_line = self.lines.remove(f);
        self.lines.insert(0, moved_line);
        proof {
            let m = old(self)@;
            assert forall|i: int| 0 <= i < self@.lines.len() implies self@.lines[i] == (if i
                == 0 {
                m.lines[f as int]
            } else if i <= f as int {
                m.lines[i - 1]
            } else {
                m.lines[i]
            }) by {}
            assert(self@.lines =~= relocated_lines(m.lines, f as int));
            assert forall|i: int, j: int| 0 <= i < j < self@.lines.len() implies self@
                .lines[i].id != self@.lines[j].id by {}
            if m.cursor is Some {
                let cid = m.cursor->Some_0;
                let w = choose|w: int| 0 <= w < m.lines.len() && m.lines[w].id == cid;
                if w == f as int {
                    assert(self@.lines[0].id == cid);
                } else if w < f as int {
                    assert(self@.lines[w + 1].id == cid);
                } else {
                    assert(self@.lines[w].id == cid);
                }
            }
        }
        let ghost moved = self@;
        proof {
            assert(moved =~= RegistryModel {
                lines: relocated_lines(old(self)@.lines, f as int),
                ..old(self)@
            });
            assert(moved.wf());
        }
        let mut cmds: Vec<TermCommand> = Vec::new();
        let end = f + 1;
        let mut k: usize = 0;
        while k < end
            invariant
                moved.wf(),
                end as nat <= moved.lines.len(),
                k <= end,
                self@ == rerender_prefix(moved, k as int).0,
                command_views(cmds@) == rerender_prefix(moved, k as int).1,
            decreases end - k,
        {
            proof {
                lemma_rerender_prefix_state(moved, k as int);
                assert(self@.wf()) by {
                    if k > 0 {
                        assert(self@.lines[k - 1].id == moved.lines[k - 1].id);
                    }
                }
            }
            let id = self.lines[k].id;
            proof {
                assert(self@.lines[k as int].id == id as nat);
            }
            let mut c = self.update_line(id);
            cmds.append(&mut c);
            k += 1;
            proof {
                lemma_rerender_prefix_state(moved, k as int);
                assert(command_views(cmds@) =~= rerender_prefix(moved, k as int).1);
            }
        }
        proof {
            lemma_rerender_prefix_state(moved, end as int);
            assert(self@.lines == moved.lines);
            assert(self@.cursor == Some(moved.lines[f as int].id));
            assert(contains_id(self@.lines, moved.lines[f as int].id)) by {
                assert(self@.lines[f as int].id == moved.lines[f as int].id);
            }
            assert(self@.wf());
            assert(first_finalized(old(self)@.lines) == f as int);
            assert(moved == RegistryModel {
                lines: relocated_lines(old(self)@.lines, f as int),
                ..old(self)@
            });
            assert(relocate_transition(old(self)@) == rerender_prefix(moved, end as int));
        }
        (RoomStep::Relocated, cmds)
    }

    /// Inserts a fresh line at the bottom of the sequence and renders it;
    /// afterwards the cursor sits on it.  The id is drawn from the wrapping
    /// counter, skipping ids still carried by live lines, so no two live
    /// lines ever share an id.  Callers must first make room (the space
    /// scheduler), so that the row budget is never exceeded.
    pub fn insert_line(&mut self, text: String) -> (r: (usize, Vec<TermCommand>))
        requires
            old(self)@.wf(),
            has_room(old(self)@),
        ensures
            final(self)@.wf(),
            !contains_id(old(self)@.lines, r.0 as nat),
            !contains_id(old(self)@.lines, old(self)@.next_id) ==> r.0 as nat == old(
                self,
            )@.next_id,
            final(self)@.next_id == wrap_inc(r.0 as nat),
            final(self)@.budget == old(self)@.budget,
            final(self)@.lines == old(self)@.lines.push(
                LineModel { id: r.0 as nat, text: text@, finalized: false },
            ),
            final(self)@.cursor == Some(r.0 as nat),
            command_views(r.1@) == insert_commands(old(self)@, r.0 as nat, text@),
    {
        let n = self.lines.len();
        // Draw an id that no live line carries.
        let ghost start = self.next_id as nat;
        let ghost mut tries: nat = 0;
        let mut id = self.next_id;
        self.next_id = self.next_id.wrapping_add(1);
        proof {
            lemma_small_mod(start, id_space());
        }
        while self.contains(id)
            invariant
                self@.lines == old(self)@.lines,
                self@.cursor == old(self)@.cursor,
                self@.budget == old(self)@.budget,
                old(self)@.wf(),
                n as nat == self@.lines.len(),
                start < id_space(),
                tries <= n as nat,
                id as nat == wrap_step(start, tries),
                self@.next_id == wrap_inc(id as nat),
                forall|j: nat| j < tries ==> contains_id(self@.lines, wrap_step(start, j)),
            decreases n as nat - tries,
        {
            proof {
                assert(contains_id(self@.lines, wrap_step(start, tries)));
                lemma_taken_candidates_bounded(self@.lines, start, tries + 1);
            }
            id = self.next_id;
            self.next_id = self.next_id.wrapping_add(1);
            proof {
                lemma_wrap_step_inc(start, tries);
                tries = tries + 1;
                lemma_wrap_step_inc(start, tries);
            }
        }
        proof {
            if !contains_id(old(self)@.lines, old(self)@.next_id) {
                assert(wrap_step(start, 0) == start);
                assert(tries == 0);
            }
        }
        // Park the cursor in scroll space below the managed region, so the
        // new bottom row is reached from a known position.
        let mut cmds: Vec<TermCommand> = Vec::new();
        match self.cursor_line {
            Some(cid) => {
                let crow = self.index_of(cid);
                cmds.push(TermCommand::MoveDown(n - 1 - crow));
                cmds.push(TermCommand::LineBreak);
                self.cursor_line = None;
            },
            None => {},
        }
        proof {
            assert(command_views(cmds@) =~= park_cursor_commands(old(self)@));
        }
        self.lines.push(Line { id, text, finalized: false });
        proof {
            let pushed = appended(old(self)@, id as nat, text@);
            assert(self@.lines =~= pushed.lines);
            assert forall|i: int, j: int| 0 <= i < j < self@.lines.len() implies self@
                .lines[i].id != self@.lines[j].id by {
                if j == n as int {
                    assert(self@.lines[i] == old(self)@.lines[i]);
                }
            }
            assert(contains_id(self@.lines, id as nat)) by {
                assert(self@.lines[n as int].id == id as nat);
            }
            assert(self@.wf());
        }
        let ghost before_render = self@;
        let mut rc = self.update_line(id);
        cmds.append(&mut rc);
        proof {
            let pushed = appended(old(self)@, id as nat, text@);
            assert(before_render.lines == pushed.lines && before_render.cursor
                == pushed.cursor);
            assert(render_commands(before_render, id as nat) == render_commands(
                pushed,
                id as nat,
            ));
            assert(command_views(cmds@) =~= insert_commands(old(self)@, id as nat, text@));
            assert(self@.lines == old(self)@.lines.push(
                LineModel { id: id as nat, text: text@, finalized: false },
            ));
        }
        (id, cmds)
    }

    /// The commands that move the cursor below every managed line and emit a
    /// trailing line break, used at teardown so the host's later output does
    /// not overwrite a managed row.  Empty when the cursor is already in
    /// scroll space.
    pub fn teardown_commands(&self) -> (cmds: Vec<TermCommand>)
        requires
            self@.wf(),
        ensures
            command_views(cmds@) == park_cursor_commands(self@),
    {
        let mut cmds: Vec<TermCommand> = Vec::new();
        match self.cursor_line {
            Some(cid) => {
                let crow = self.index_of(cid);
                cmds.push(TermCommand::MoveDown(self.lines.len() - 1 - crow));
                cmds.push(TermCommand::LineBreak);
            },
            None => {},
        }
        proof {
            assert(command_views(cmds@) =~= park_cursor_commands(self@));
        }
        cmds
    }
}

} // verus!
