use vstd::prelude::*;

use crate::cursor_model::{
    clamp_col, clamp_row, fold_cursors, lemma_clamp, lemma_fold_untouched, CursorStep,
};
use crate::editor::{lines_wf, EditorBuffer};

verus! {

/// A direction of cursor motion.
#[derive(Clone, Copy, PartialEq, Eq, Debug)]
pub enum CursorDirections {
    Left,
    Right,
    Up,
    Down,
}

pub open spec fn min_int(a: int, b: int) -> int {
    if a <= b { a } else { b }
}

/// One cursor moved one cell: Left/Right within `[0, line length]`; Up/Down within
/// the lines, with the column clamped to the destination line's length.
pub open spec fn move_position(direction: CursorDirections, lines: Seq<Seq<char>>, pos: (u16, u16)) -> (u16, u16) {
    let r = clamp_row(lines, pos);
    let c = clamp_col(lines, pos);
    match direction {
        CursorDirections::Left => if c > 0 { ((c - 1) as u16, r as u16) } else { (c as u16, r as u16) },
        CursorDirections::Right => if c < lines[r].len() { ((c + 1) as u16, r as u16) } else { (c as u16, r as u16) },
        CursorDirections::Up => if r > 0 {
            (min_int(c, lines[r - 1].len() as int) as u16, (r - 1) as u16)
        } else {
            (c as u16, r as u16)
        },
        CursorDirections::Down => if r + 1 < lines.len() {
            (min_int(c, lines[r + 1].len() as int) as u16, (r + 1) as u16)
        } else {
            (c as u16, r as u16)
        },
    }
}

pub open spec fn move_step(direction: CursorDirections) -> CursorStep {
    |lines: Seq<Seq<char>>, pos: (u16, u16)| (lines, move_position(direction, lines, pos))
}

/// Moves every cursor of the buffer one cell in `direction`.
pub fn move_cursors(buffer: &mut EditorBuffer, direction: CursorDirections)
    requires
        old(buffer).wf(),
    ensures
        final(buffer).wf(),
        old(buffer).same_but_text(&*final(buffer)),
        final(buffer).content@ == old(buffer).content@,
        final(buffer).pivot == old(buffer).pivot,
        final(buffer).positions() == fold_cursors(
            move_step(direction),
            old(buffer).lines(),
            old(buffer).positions(),
            old(buffer).cursors@.len() as nat,
        ).1,
{
    let ghost lines = buffer.lines();
    let ghost start = buffer.positions();
    let ghost step = move_step(direction);
    let n = buffer.cursors.len();
    let mut i: usize = 0;
    while i < n
        invariant
            0 <= i <= n,
            n == buffer.cursors@.len(),
            buffer.wf(),
            old(buffer).same_but_text(&*buffer),
            buffer.content@ == old(buffer).content@,
            buffer.pivot == old(buffer).pivot,
            lines == buffer.lines(),
            start == old(buffer).positions(),
            step == move_step(direction),
            fold_cursors(step, lines, start, i as nat).0 == lines,
            buffer.positions() == fold_cursors(step, lines, start, i as nat).1,
        decreases n - i,
    {
        proof {
            lemma_fold_untouched(step, lines, start, i as nat);
        }
        let mut cursor = buffer.cursors[i];
        let pos = cursor.position;
        let ghost gpos = pos;
        assert(pos == start[i as int]) by {
            assert(buffer.positions()[i as int] == buffer.cursors@[i as int].position);
        }
        let rows = buffer.content.len();
        let row: usize = if (pos.1 as usize) < rows { pos.1 as usize } else { rows - 1 };
        proof {
            lemma_clamp(lines, pos);
        }
        let len = buffer.line_len(row);
        let col: usize = if (pos.0 as usize) <= len { pos.0 as usize } else { len };
        let new_pos: (u16, u16) = match direction {
            CursorDirections::Left => if col > 0 { ((col - 1) as u16, row as u16) } else { (col as u16, row as u16) },
            CursorDirections::Right => if col < len { ((col + 1) as u16, row as u16) } else { (col as u16, row as u16) },
            CursorDirections::Up => if row > 0 {
                let above = buffer.line_len(row - 1);
                (if col <= above { col as u16 } else { above as u16 }, (row - 1) as u16)
            } else {
                (col as u16, row as u16)
            },
            CursorDirections::Down => if row + 1 < rows {
                let below = buffer.line_len(row + 1);
                (if col <= below { col as u16 } else { below as u16 }, (row + 1) as u16)
            } else {
                (col as u16, row as u16)
            },
        };
        assert(new_pos == move_position(direction, lines, gpos));
        cursor.position = new_pos;
        buffer.cursors.set(i, cursor);
        proof {
            let prev = fold_cursors(step, lines, start, i as nat);
            assert(prev.1[i as int] == gpos);
            assert(step(prev.0, prev.1[i as int]) == (lines, new_pos));
            assert(buffer.positions() =~= prev.1.update(i as int, new_pos));
        }
        i += 1;
    }
}

} // verus!
