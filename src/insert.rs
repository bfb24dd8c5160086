use vstd::prelude::*;

use crate::cursor_model::{clamp_col, clamp_row, fold_cursors, lemma_clamp, lemma_fold_untouched, CursorStep};
use crate::editor::{lines_wf, EditorBuffer, MAX_LINE_LEN};
use crate::text::{chars_of, push_all, string_of};

verus! {

/// `text` spliced into a line at column `c`.
pub open spec fn splice(line: Seq<char>, c: int, text: Seq<char>) -> Seq<char> {
    line.subrange(0, c) + text + line.subrange(c, line.len() as int)
}

/// One cursor inserts `text` at its position and moves past it; a line that would
/// grow beyond what a column can address is left as it is.
pub open spec fn insert_at(text: Seq<char>, lines: Seq<Seq<char>>, pos: (u16, u16)) -> (Seq<Seq<char>>, (u16, u16)) {
    let r = clamp_row(lines, pos);
    let c = clamp_col(lines, pos);
    if lines[r].len() + text.len() > MAX_LINE_LEN {
        (lines, (c as u16, r as u16))
    } else {
        (lines.update(r, splice(lines[r], c, text)), ((c + text.len()) as u16, r as u16))
    }
}

pub open spec fn insert_step(text: Seq<char>) -> CursorStep {
    |lines: Seq<Seq<char>>, pos: (u16, u16)| insert_at(text, lines, pos)
}

/// Inserts `chs` at every cursor, in stored order, each cursor moving past the text.
pub fn insert_chars_to_buffer(buffer: &mut EditorBuffer, chs: Vec<char>)
    requires
        old(buffer).wf(),
    ensures
        final(buffer).wf(),
        old(buffer).same_but_text(&*final(buffer)),
        ({
            let r = fold_cursors(insert_step(chs@), old(buffer).lines(), old(buffer).positions(), old(buffer).cursors@.len() as nat);
            &&& final(buffer).lines() == r.0
            &&& final(buffer).positions() == r.1
        }),
        final(buffer).pivot == old(buffer).pivot,
{
    let ghost start_lines = buffer.lines();
    let ghost start = buffer.positions();
    let ghost step = insert_step(chs@);
    let n = buffer.cursors.len();
    let mut i: usize = 0;
    while i < n
        invariant
            0 <= i <= n,
            n == buffer.cursors@.len(),
            buffer.wf(),
            old(buffer).same_but_text(&*buffer),
            start_lines == old(buffer).lines(),
            start == old(buffer).positions(),
            step == insert_step(chs@),
            buffer.lines() == fold_cursors(step, start_lines, start, i as nat).0,
            buffer.positions() == fold_cursors(step, start_lines, start, i as nat).1,
            buffer.pivot == old(buffer).pivot,
        decreases n - i,
    {
        proof {
            lemma_fold_untouched(step, start_lines, start, i as nat);
        }
        let ghost lines = buffer.lines();
        let ghost before = buffer.positions();
        let mut cursor = buffer.cursors[i];
        let pos = cursor.position;
        assert(pos == start[i as int]) by {
            assert(buffer.positions()[i as int] == buffer.cursors@[i as int].position);
        }
        let rows = buffer.content.len();
        let row: usize = if (pos.1 as usize) < rows { pos.1 as usize } else { rows - 1 };
        proof {
            lemma_clamp(lines, pos);
        }
        let mut line = chars_of(buffer.content[row].as_str());
        assert(line@ == lines[row as int]);
        let len = line.len();
        let col: usize = if (pos.0 as usize) <= len { pos.0 as usize } else { len };
        if chs.len() <= MAX_LINE_LEN - len {
            let rest = line.split_off(col);
            push_all(&mut line, &chs);
            push_all(&mut line, &rest);
            let ghost new_line = line@;
            assert(new_line =~= splice(lines[row as int], col as int, chs@));
            buffer.content.set(row, string_of(&line));
            cursor.position = ((col + chs.len()) as u16, row as u16);
            proof {
                assert(buffer.lines() =~= lines.update(row as int, new_line));
            }
        } else {
            cursor.position = (col as u16, row as u16);
        }
        buffer.cursors.set(i, cursor);
        proof {
            assert(step(lines, before[i as int]) == (buffer.lines(), cursor.position));
            assert(buffer.positions() =~= before.update(i as int, cursor.position));
            assert forall|k: int| 0 <= k < buffer.lines().len() implies #[trigger] buffer.lines()[k].len() <= MAX_LINE_LEN by {
                if k != row {
                    assert(buffer.lines()[k] == lines[k]);
                }
            }
            assert(lines_wf(buffer.lines()));
        }
        i += 1;
    }
}

} // verus!
