//! The general laws of the line registry, stated and proved over its model.

use vstd::prelude::*;
use crate::model::CommandModel;
use crate::model::RegistryModel;
use crate::model::contains_id;
use crate::model::evict_ready;
use crate::model::evict_transition;
use crate::model::has_room;
use crate::model::must_wait;
use crate::model::relocate_ready;
use crate::model::index_of_id;
use crate::model::lemma_index_of_id;
use crate::model::replace_transition;
use crate::model::select_line;
use crate::model::with_text;

verus! {

/// In every well-formed registry state, the managed lines fit in the row
/// budget, and no two live lines share an id.  Every operation of
/// [`crate::Registry`] requires and ensures well-formedness, so both hold at
/// every quiescent point.
pub proof fn lemma_registry_invariants(m: RegistryModel)
    requires
        m.wf(),
    ensures
        m.lines.len() <= m.budget,
        forall|i: int, j: int|
            0 <= i < m.lines.len() && 0 <= j < m.lines.len() && i != j ==> m.lines[i].id
                != m.lines[j].id,
{
    assert forall|i: int, j: int|
        0 <= i < m.lines.len() && 0 <= j < m.lines.len() && i != j implies m.lines[i].id
        != m.lines[j].id by {
        if j < i {
            assert(m.lines[j].id != m.lines[i].id);
        }
    }
}

/// Eviction removes exactly the line at sequence index 0, and only ever
/// fires when that line is finalized; every other line keeps its place, one
/// row higher.
pub proof fn lemma_eviction_removes_top(m: RegistryModel)
    requires
        m.wf(),
        evict_ready(m),
    ensures
        m.lines[0].finalized,
        evict_transition(m).0.lines == m.lines.drop_first(),
        evict_transition(m).0.lines.len() == m.lines.len() - 1,
        forall|i: int|
            0 <= i < m.lines.len() - 1 ==> evict_transition(m).0.lines[i] == m.lines[i + 1],
{
}

/// Exactly one outcome of the space scheduler applies in every state, and
/// reclaiming the topmost row is always preferred: a buried finalized line
/// is only ever relocated when the topmost line is still active, and a
/// caller only ever waits when no line anywhere is finalized.
pub proof fn lemma_room_step_outcomes_partition(m: RegistryModel)
    ensures
        has_room(m) || evict_ready(m) || relocate_ready(m) || must_wait(m),
        !(has_room(m) && evict_ready(m)),
        !(has_room(m) && relocate_ready(m)),
        !(has_room(m) && must_wait(m)),
        !(evict_ready(m) && relocate_ready(m)),
        !(evict_ready(m) && must_wait(m)),
        !(relocate_ready(m) && must_wait(m)),
{
}

/// Replacing a line's text twice in a row with the same text leaves the
/// registry exactly as one replacement does, and the second replacement's
/// terminal output is only the redundant in-place write: no cursor motion,
/// just the same text printed again on the same row.
pub proof fn lemma_replace_idempotent(m: RegistryModel, id: nat, text: Seq<char>)
    requires
        m.wf(),
        contains_id(m.lines, id),
    ensures
        replace_transition(replace_transition(m, id, text).0, id, text).0
            == replace_transition(m, id, text).0,
        replace_transition(replace_transition(m, id, text).0, id, text).1 == seq![
            CommandModel::ColumnStart,
            CommandModel::Print(text),
            CommandModel::Clear,
        ],
{
    let i = index_of_id(m.lines, id);
    assert(0 <= i < m.lines.len() && m.lines[i].id == id);
    let m1 = replace_transition(m, id, text).0;
    assert(m1 == select_line(with_text(m, id, text), id));
    assert forall|p: int, q: int| 0 <= p < q < m1.lines.len() implies m1.lines[p].id
        != m1.lines[q].id by {
        assert(m1.lines[p].id == m.lines[p].id);
        assert(m1.lines[q].id == m.lines[q].id);
    }
    assert(m1.lines[i].id == id);
    lemma_index_of_id(m1.lines, id, i);
    let m2 = with_text(m1, id, text);
    assert(m2.lines =~= m1.lines);
    assert(replace_transition(m1, id, text).0 == select_line(m2, id));
    assert(select_line(m2, id) == m1);
    assert(replace_transition(m1, id, text).1 == seq![
        CommandModel::ColumnStart,
        CommandModel::Print(text),
        CommandModel::Clear,
    ]);
}

} // verus!
