use vstd::prelude::*;

use crate::editor::{lines_wf, MAX_LINES, MAX_LINE_LEN};

verus! {

/// A step of an edit or a motion for one cursor: from the lines and that cursor's
/// (column, row) to the new lines and its new position.
pub type CursorStep = spec_fn(Seq<Seq<char>>, (u16, u16)) -> (Seq<Seq<char>>, (u16, u16));

/// The row a cursor acts on: its own, or the last line if it lies below the text.
pub open spec fn clamp_row(lines: Seq<Seq<char>>, pos: (u16, u16)) -> int {
    if (pos.1 as int) < lines.len() {
        pos.1 as int
    } else {
        lines.len() - 1
    }
}

/// The column a cursor acts on: its own, or the end of its line if it lies past it.
pub open spec fn clamp_col(lines: Seq<Seq<char>>, pos: (u16, u16)) -> int {
    let r = clamp_row(lines, pos);
    if (pos.0 as int) <= lines[r].len() {
        pos.0 as int
    } else {
        lines[r].len() as int
    }
}

/// A position inside the text: on a line, at most one past its last character.
pub open spec fn pos_valid(lines: Seq<Seq<char>>, pos: (u16, u16)) -> bool {
    &&& (pos.1 as int) < lines.len()
    &&& (pos.0 as int) <= lines[pos.1 as int].len()
}

/// The cursors are handled in their stored order; `fold_cursors(step, lines, cs, n)`
/// is the state after the first `n` of them.
pub open spec fn fold_cursors(
    step: CursorStep,
    lines: Seq<Seq<char>>,
    cs: Seq<(u16, u16)>,
    n: nat,
) -> (Seq<Seq<char>>, Seq<(u16, u16)>)
    decreases n,
{
    if n == 0 || n > cs.len() {
        (lines, cs)
    } else {
        let prev = fold_cursors(step, lines, cs, (n - 1) as nat);
        let next = step(prev.0, prev.1[n - 1]);
        (next.0, prev.1.update(n - 1, next.1))
    }
}

pub proof fn lemma_clamp(lines: Seq<Seq<char>>, pos: (u16, u16))
    requires
        lines_wf(lines),
    ensures
        0 <= clamp_row(lines, pos) < lines.len(),
        0 <= clamp_col(lines, pos) <= lines[clamp_row(lines, pos)].len(),
        clamp_row(lines, pos) < MAX_LINES,
        clamp_col(lines, pos) <= MAX_LINE_LEN,
        pos_valid(lines, pos) ==> clamp_row(lines, pos) == pos.1 && clamp_col(lines, pos) == pos.0,
{
    let r = clamp_row(lines, pos);
    assert(lines[r].len() <= MAX_LINE_LEN);
}

/// Cursors after the first `n` are not yet touched.
pub proof fn lemma_fold_untouched(step: CursorStep, lines: Seq<Seq<char>>, cs: Seq<(u16, u16)>, n: nat)
    ensures
        fold_cursors(step, lines, cs, n).1.len() == cs.len(),
        forall|k: int| n <= k < cs.len() ==> #[trigger] fold_cursors(step, lines, cs, n).1[k] == cs[k],
    decreases n,
{
    if n == 0 || n > cs.len() {
    } else {
        lemma_fold_untouched(step, lines, cs, (n - 1) as nat);
    }
}

} // verus!
