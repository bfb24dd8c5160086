use vstd::prelude::*;

use crate::cursor_model::{clamp_col, clamp_row, fold_cursors, lemma_clamp, lemma_fold_untouched, CursorStep};
use crate::editor::{lines_wf, EditorBuffer, MAX_LINES, MAX_LINE_LEN};
use crate::insert::{insert_at, insert_step};
use crate::text::{alphanumeric, chars_of, is_alphanumeric, push_all, string_of};

verus! {

/// An edit or motion that every cursor of a buffer performs in turn.
#[derive(Clone, Copy, PartialEq, Eq, Debug)]
pub enum TextEdit {
    /// Split the line at the cursor; the cursor goes to the start of the new line.
    Newline,
    /// Delete the character before the cursor, or join the line to the previous one.
    BackspaceChar,
    /// Delete back to the start of the word before the cursor, or join lines.
    BackspaceWord,
    /// Move to the start of the next word, or to the next line.
    WordForward,
    /// Move to the start of the previous word, or to the end of the previous line.
    WordBackward,
}

/// From column `c`, skip forward over spaces, never past the last character.
pub open spec fn skip_spaces_forward(l: Seq<char>, c: int) -> int
    decreases l.len() - c,
{
    if 0 <= c && c + 1 < l.len() && l[c] == ' ' {
        skip_spaces_forward(l, c + 1)
    } else {
        c
    }
}

/// From column `c`, advance while the character's class (alphanumeric or not) is `cls`,
/// never past the last character.
pub open spec fn advance_class(l: Seq<char>, c: int, cls: bool) -> int
    decreases l.len() - c,
{
    if 0 <= c && c + 1 < l.len() && alphanumeric(l[c]) == cls {
        advance_class(l, c + 1, cls)
    } else {
        c
    }
}

/// From column `k`, skip back over spaces, never before column 0.
pub open spec fn skip_spaces_back(l: Seq<char>, k: int) -> int
    decreases k,
{
    if 0 < k < l.len() && l[k] == ' ' {
        skip_spaces_back(l, k - 1)
    } else {
        k
    }
}

/// From column `c`, retreat while the character before is of class `cls`.
pub open spec fn retreat_class(l: Seq<char>, c: int, cls: bool) -> int
    decreases c,
{
    if 0 < c <= l.len() && alphanumeric(l[c - 1]) == cls {
        retreat_class(l, c - 1, cls)
    } else {
        c
    }
}

/// Line `r` joined onto line `r - 1`; the cursor lands where the joined text begins.
/// Joins that would overflow a line's limit are not made.
pub open spec fn join_with_previous(lines: Seq<Seq<char>>, c: int, r: int) -> (Seq<Seq<char>>, (u16, u16)) {
    if r > 0 {
        let prev = lines[r - 1];
        if prev.len() + lines[r].len() > MAX_LINE_LEN {
            (lines, (c as u16, r as u16))
        } else {
            (lines.update(r - 1, prev + lines[r]).remove(r), (prev.len() as u16, (r - 1) as u16))
        }
    } else {
        (lines, (c as u16, r as u16))
    }
}

/// What one cursor does for an edit.
pub open spec fn edit_at(edit: TextEdit, lines: Seq<Seq<char>>, pos: (u16, u16)) -> (Seq<Seq<char>>, (u16, u16)) {
    edit_at_cell(edit, lines, clamp_col(lines, pos), clamp_row(lines, pos))
}

/// What a cursor at column `c` of row `r` (inside the text) does for an edit.
pub open spec fn edit_at_cell(edit: TextEdit, lines: Seq<Seq<char>>, c: int, r: int) -> (Seq<Seq<char>>, (u16, u16)) {
    let l = lines[r];
    match edit {
        TextEdit::Newline => if lines.len() >= MAX_LINES {
            (lines, (c as u16, r as u16))
        } else {
            (
                lines.update(r, l.subrange(0, c)).insert(r + 1, l.subrange(c, l.len() as int)),
                (0u16, (r + 1) as u16),
            )
        },
        TextEdit::BackspaceChar => if c > 0 {
            (lines.update(r, l.remove(c - 1)), ((c - 1) as u16, r as u16))
        } else {
            join_with_previous(lines, c, r)
        },
        TextEdit::BackspaceWord => if c > 0 {
            let k = retreat_class(l, retreat_class(l, c, false), true);
            (lines.update(r, l.subrange(0, k) + l.subrange(c, l.len() as int)), (k as u16, r as u16))
        } else {
            join_with_previous(lines, c, r)
        },
        TextEdit::WordForward => if c + 1 < l.len() {
            let c1 = skip_spaces_forward(l, c);
            let c2 = advance_class(l, c1, alphanumeric(l[c]));
            (lines, (skip_spaces_forward(l, c2) as u16, r as u16))
        } else if r + 1 < lines.len() {
            (lines, (0u16, (r + 1) as u16))
        } else {
            (lines, (c as u16, r as u16))
        },
        TextEdit::WordBackward => if c > 0 {
            let k = skip_spaces_back(l, c - 1);
            (lines, (retreat_class(l, k, alphanumeric(l[k])) as u16, r as u16))
        } else if r > 0 {
            let prev = lines[r - 1];
            (lines, (if prev.len() > 0 { (prev.len() - 1) as u16 } else { 0u16 }, (r - 1) as u16))
        } else {
            (lines, (c as u16, r as u16))
        },
    }
}

pub open spec fn edit_step(edit: TextEdit) -> CursorStep {
    |lines: Seq<Seq<char>>, pos: (u16, u16)| edit_at(edit, lines, pos)
}

fn skip_spaces_forward_exec(l: &Vec<char>, c: usize) -> (k: usize)
    requires
        c < l@.len(),
    ensures
        k == skip_spaces_forward(l@, c as int),
        c <= k < l@.len(),
{
    let mut k = c;
    while k < l.len() - 1 && l[k] == ' '
        invariant
            c <= k < l@.len(),
            skip_spaces_forward(l@, k as int) == skip_spaces_forward(l@, c as int),
        decreases l@.len() - k,
    {
        k += 1;
    }
    k
}

fn advance_class_exec(l: &Vec<char>, c: usize, cls: bool) -> (k: usize)
    requires
        c < l@.len(),
    ensures
        k == advance_class(l@, c as int, cls),
        c <= k < l@.len(),
{
    let mut k = c;
    while k < l.len() - 1 && is_alphanumeric(l[k]) == cls
        invariant
            c <= k < l@.len(),
            advance_class(l@, k as int, cls) == advance_class(l@, c as int, cls),
        decreases l@.len() - k,
    {
        k += 1;
    }
    k
}

fn skip_spaces_back_exec(l: &Vec<char>, c: usize) -> (k: usize)
    requires
        c < l@.len(),
    ensures
        k == skip_spaces_back(l@, c as int),
        k <= c,
{
    let mut k = c;
    while k > 0 && l[k] == ' '
        invariant
            k <= c < l@.len(),
            skip_spaces_back(l@, k as int) == skip_spaces_back(l@, c as int),
        decreases k,
    {
        k -= 1;
    }
    k
}

fn retreat_class_exec(l: &Vec<char>, c: usize, cls: bool) -> (k: usize)
    requires
        c <= l@.len(),
    ensures
        k == retreat_class(l@, c as int, cls),
        k <= c,
{
    let mut k = c;
    while k > 0 && is_alphanumeric(l[k - 1]) == cls
        invariant
            k <= c <= l@.len(),
            retreat_class(l@, k as int, cls) == retreat_class(l@, c as int, cls),
        decreases k,
    {
        k -= 1;
    }
    k
}

/// The buffer after a cursor at (`col`, `row`) performs `edit`: its text, and the
/// cursor's new position.
pub open spec fn cell_edited(old: &EditorBuffer, new: &EditorBuffer, edit: TextEdit, col: usize, row: usize, p: (u16, u16)) -> bool {
    &&& new.wf()
    &&& old.same_but_text(new)
    &&& new.pivot == old.pivot
    &&& new.cursors@ == old.cursors@
    &&& edit_at_cell(edit, old.lines(), col as int, row as int) == (new.lines(), p)
}

fn newline_cell(buffer: &mut EditorBuffer, col: usize, row: usize) -> (p: (u16, u16))
    requires
        old(buffer).wf(),
        row < old(buffer).lines().len(),
        col <= old(buffer).lines()[row as int].len(),
    ensures
        cell_edited(&*old(buffer), &*final(buffer), TextEdit::Newline, col, row, p),
{
    let ghost lines = buffer.lines();
    let rows = buffer.content.len();
    if rows >= MAX_LINES {
        return (col as u16, row as u16);
    }
    let mut line = chars_of(buffer.content[row].as_str());
    let ghost l = line@;
    let rest = line.split_off(col);
    buffer.content.set(row, string_of(&line));
    buffer.content.insert(row + 1, string_of(&rest));
    proof {
        assert(buffer.lines() =~= lines.update(row as int, l.subrange(0, col as int)).insert(
            row + 1,
            l.subrange(col as int, l.len() as int),
        ));
        assert forall|k: int| 0 <= k < buffer.lines().len() implies #[trigger] buffer.lines()[k].len() <= MAX_LINE_LEN by {
            assert(lines_wf(lines));
        }
    }
    (0, (row + 1) as u16)
}

fn join_cell(buffer: &mut EditorBuffer, edit: TextEdit, col: usize, row: usize) -> (p: (u16, u16))
    requires
        old(buffer).wf(),
        row < old(buffer).lines().len(),
        col == 0,
        edit == TextEdit::BackspaceChar || edit == TextEdit::BackspaceWord,
    ensures
        cell_edited(&*old(buffer), &*final(buffer), edit, col, row, p),
{
    let ghost lines = buffer.lines();
    if row == 0 {
        return (col as u16, row as u16);
    }
    let line = chars_of(buffer.content[row].as_str());
    let mut prev = chars_of(buffer.content[row - 1].as_str());
    assert(lines_wf(lines));
    assert(line@ == lines[row as int] && prev@ == lines[row - 1]);
    assert(line@.len() <= MAX_LINE_LEN && prev@.len() <= MAX_LINE_LEN);
    if prev.len() + line.len() > MAX_LINE_LEN {
        return (col as u16, row as u16);
    }
    let prev_len = prev.len();
    push_all(&mut prev, &line);
    let ghost joined = prev@;
    buffer.content.set(row - 1, string_of(&prev));
    let _ = buffer.content.remove(row);
    proof {
        assert(buffer.lines() =~= lines.update(row - 1, joined).remove(row as int));
        assert forall|k: int| 0 <= k < buffer.lines().len() implies #[trigger] buffer.lines()[k].len() <= MAX_LINE_LEN by {
            if k < row - 1 {
                assert(buffer.lines()[k] == lines[k]);
            } else if k >= row {
                assert(buffer.lines()[k] == lines[k + 1]);
            }
        }
    }
    (prev_len as u16, (row - 1) as u16)
}

fn delete_back_cell(buffer: &mut EditorBuffer, edit: TextEdit, col: usize, row: usize) -> (p: (u16, u16))
    requires
        old(buffer).wf(),
        row < old(buffer).lines().len(),
        0 < col <= old(buffer).lines()[row as int].len(),
        edit == TextEdit::BackspaceChar || edit == TextEdit::BackspaceWord,
    ensures
        cell_edited(&*old(buffer), &*final(buffer), edit, col, row, p),
{
    let ghost lines = buffer.lines();
    let mut line = chars_of(buffer.content[row].as_str());
    let ghost l = line@;
    let k: usize = match edit {
        TextEdit::BackspaceChar => col - 1,
        _ => {
            let j = retreat_class_exec(&line, col, false);
            retreat_class_exec(&line, j, true)
        },
    };
    let rest = line.split_off(col);
    let _ = line.split_off(k);
    push_all(&mut line, &rest);
    proof {
        if edit == TextEdit::BackspaceChar {
            assert(line@ =~= l.remove(col - 1));
        } else {
            assert(line@ =~= l.subrange(0, k as int) + l.subrange(col as int, l.len() as int));
        }
    }
    let ghost new_line = line@;
    buffer.content.set(row, string_of(&line));
    proof {
        assert(buffer.lines() =~= lines.update(row as int, new_line));
        assert forall|j: int| 0 <= j < buffer.lines().len() implies #[trigger] buffer.lines()[j].len() <= MAX_LINE_LEN by {
            assert(lines_wf(lines));
        }
    }
    (k as u16, row as u16)
}

fn motion_cell(buffer: &EditorBuffer, edit: TextEdit, col: usize, row: usize) -> (p: (u16, u16))
    requires
        buffer.wf(),
        row < buffer.lines().len(),
        col <= buffer.lines()[row as int].len(),
        edit == TextEdit::WordForward || edit == TextEdit::WordBackward,
    ensures
        edit_at_cell(edit, buffer.lines(), col as int, row as int) == (buffer.lines(), p),
{
    let ghost lines = buffer.lines();
    let line = chars_of(buffer.content[row].as_str());
    let rows = buffer.content.len();
    let len = line.len();
    assert(lines_wf(lines));
    match edit {
        TextEdit::WordForward => {
            if col + 1 < len {
                let cls = is_alphanumeric(line[col]);
                let c1 = skip_spaces_forward_exec(&line, col);
                let c2 = advance_class_exec(&line, c1, cls);
                let c3 = skip_spaces_forward_exec(&line, c2);
                (c3 as u16, row as u16)
            } else if row + 1 < rows {
                (0, (row + 1) as u16)
            } else {
                (col as u16, row as u16)
            }
        },
        _ => {
            if col > 0 {
                let k = skip_spaces_back_exec(&line, col - 1);
                let cls = is_alphanumeric(line[k]);
                let k2 = retreat_class_exec(&line, k, cls);
                (k2 as u16, row as u16)
            } else if row > 0 {
                let prev_len = buffer.line_len(row - 1);
                (if prev_len > 0 { (prev_len - 1) as u16 } else { 0 }, (row - 1) as u16)
            } else {
                (col as u16, row as u16)
            }
        },
    }
}

/// Cursor `i` performs `edit`.
#[verifier::rlimit(40)]
fn edit_one(buffer: &mut EditorBuffer, i: usize, edit: TextEdit)
    requires
        old(buffer).wf(),
        i < old(buffer).cursors@.len(),
    ensures
        final(buffer).wf(),
        old(buffer).same_but_text(&*final(buffer)),
        final(buffer).pivot == old(buffer).pivot,
        ({
            let r = edit_at(edit, old(buffer).lines(), old(buffer).positions()[i as int]);
            &&& final(buffer).lines() == r.0
            &&& final(buffer).positions() == old(buffer).positions().update(i as int, r.1)
        }),
{
    let ghost lines = buffer.lines();
    let ghost before = buffer.positions();
    let mut cursor = buffer.cursors[i];
    let pos = cursor.position;
    assert(pos == before[i as int]) by {
        assert(buffer.positions()[i as int] == buffer.cursors@[i as int].position);
    }
    let rows = buffer.content.len();
    let row: usize = if (pos.1 as usize) < rows { pos.1 as usize } else { rows - 1 };
    proof {
        lemma_clamp(lines, pos);
    }
    let len = buffer.line_len(row);
    let col: usize = if (pos.0 as usize) <= len { pos.0 as usize } else { len };
    let p = match edit {
        TextEdit::Newline => newline_cell(buffer, col, row),
        TextEdit::BackspaceChar | TextEdit::BackspaceWord => if col > 0 {
            delete_back_cell(buffer, edit, col, row)
        } else {
            join_cell(buffer, edit, col, row)
        },
        _ => motion_cell(buffer, edit, col, row),
    };
    cursor.position = p;
    buffer.cursors.set(i, cursor);
    proof {
        assert(buffer.positions() =~= before.update(i as int, p));
    }
}

/// Every cursor, in stored order, performs `edit`.
pub fn apply_edit(buffer: &mut EditorBuffer, edit: TextEdit)
    requires
        old(buffer).wf(),
    ensures
        final(buffer).wf(),
        old(buffer).same_but_text(&*final(buffer)),
        final(buffer).pivot == old(buffer).pivot,
        ({
            let r = fold_cursors(edit_step(edit), old(buffer).lines(), old(buffer).positions(), old(buffer).cursors@.len() as nat);
            &&& final(buffer).lines() == r.0
            &&& final(buffer).positions() == r.1
        }),
{
    let ghost start_lines = buffer.lines();
    let ghost start = buffer.positions();
    let ghost step = edit_step(edit);
    let n = buffer.cursors.len();
    let mut i: usize = 0;
    while i < n
        invariant
            0 <= i <= n,
            n == buffer.cursors@.len(),
            buffer.wf(),
            old(buffer).same_but_text(&*buffer),
            buffer.pivot == old(buffer).pivot,
            start_lines == old(buffer).lines(),
            start == old(buffer).positions(),
            step == edit_step(edit),
            buffer.lines() == fold_cursors(step, start_lines, start, i as nat).0,
            buffer.positions() == fold_cursors(step, start_lines, start, i as nat).1,
        decreases n - i,
    {
        proof {
            lemma_fold_untouched(step, start_lines, start, i as nat);
        }
        edit_one(buffer, i, edit);
        i += 1;
    }
}

} // verus!

verus! {

/// An operation of one cursor on the text: an insertion or an edit.
pub enum LineOp {
    Insert(Seq<char>),
    Edit(TextEdit),
}

pub open spec fn line_op(op: LineOp, lines: Seq<Seq<char>>, pos: (u16, u16)) -> (Seq<Seq<char>>, (u16, u16)) {
    match op {
        LineOp::Insert(text) => insert_at(text, lines, pos),
        LineOp::Edit(e) => edit_at(e, lines, pos),
    }
}

/// Whether `op` splits a line (a newline that the line limit lets through).
pub open spec fn splits(op: LineOp, lines: Seq<Seq<char>>) -> bool {
    op == LineOp::Edit(TextEdit::Newline) && lines.len() < MAX_LINES
}

/// Whether `op` joins two lines (a backspace at the start of a line below the first,
/// when the joined line fits).
pub open spec fn joins(op: LineOp, lines: Seq<Seq<char>>, pos: (u16, u16)) -> bool {
    let r = clamp_row(lines, pos);
    &&& (op == LineOp::Edit(TextEdit::BackspaceChar) || op == LineOp::Edit(TextEdit::BackspaceWord))
    &&& clamp_col(lines, pos) == 0
    &&& r > 0
    &&& lines[r - 1].len() + lines[r].len() <= MAX_LINE_LEN
}

/// `op` as a step of one cursor.
pub open spec fn op_step(op: LineOp) -> CursorStep {
    |lines: Seq<Seq<char>>, pos: (u16, u16)| line_op(op, lines, pos)
}

/// The splits and joins made while the first `n` cursors perform `op` in turn.
pub open spec fn op_counts(op: LineOp, lines: Seq<Seq<char>>, cs: Seq<(u16, u16)>, n: nat) -> (int, int)
    decreases n,
{
    if n == 0 || n > cs.len() {
        (0, 0)
    } else {
        let prev = fold_cursors(op_step(op), lines, cs, (n - 1) as nat);
        let c = op_counts(op, lines, cs, (n - 1) as nat);
        (
            c.0 + if splits(op, prev.0) { 1int } else { 0 },
            c.1 + if joins(op, prev.0, prev.1[n - 1]) { 1int } else { 0 },
        )
    }
}

/// The lines, the cursors, and the numbers of splits and joins after every cursor of
/// `cs` performs each operation of `ops`, in order.
pub open spec fn run_ops(lines: Seq<Seq<char>>, cs: Seq<(u16, u16)>, ops: Seq<LineOp>) -> (Seq<Seq<char>>, Seq<(u16, u16)>, int, int)
    decreases ops.len(),
{
    if ops.len() == 0 {
        (lines, cs, 0, 0)
    } else {
        let prev = run_ops(lines, cs, ops.drop_last());
        let op = ops.last();
        let next = fold_cursors(op_step(op), prev.0, prev.1, prev.1.len());
        let c = op_counts(op, prev.0, prev.1, prev.1.len());
        (next.0, next.1, prev.2 + c.0, prev.3 + c.1)
    }
}

/// One operation adds a line when it splits, removes one when it joins, and keeps the
/// lines well formed.
pub proof fn lemma_line_op_count(op: LineOp, lines: Seq<Seq<char>>, pos: (u16, u16))
    requires
        lines_wf(lines),
    ensures
        lines_wf(line_op(op, lines, pos).0),
        line_op(op, lines, pos).0.len() == lines.len() + (if splits(op, lines) { 1int } else { 0 }) - (if joins(op, lines, pos) { 1int } else { 0 }),
{
    lemma_clamp(lines, pos);
    let r = clamp_row(lines, pos);
    let c = clamp_col(lines, pos);
    let out = line_op(op, lines, pos).0;
    let l = lines[r];
    assert(lines_wf(lines));
    match op {
        LineOp::Insert(text) => {
            if l.len() + text.len() <= MAX_LINE_LEN {
                assert(out == lines.update(r, crate::insert::splice(l, c, text)));
            }
            assert forall|k: int| 0 <= k < out.len() implies #[trigger] out[k].len() <= MAX_LINE_LEN by {
                if k != r {
                    assert(out[k] == lines[k]);
                }
            }
        },
        LineOp::Edit(e) => {
            if e == TextEdit::Newline {
                if lines.len() < MAX_LINES {
                    assert forall|k: int| 0 <= k < out.len() implies #[trigger] out[k].len() <= MAX_LINE_LEN by {
                        if k < r {
                            assert(out[k] == lines[k]);
                        } else if k > r + 1 {
                            assert(out[k] == lines[k - 1]);
                        }
                    }
                }
            } else if e == TextEdit::BackspaceChar || e == TextEdit::BackspaceWord {
                if c > 0 {
                    assert forall|k: int| 0 <= k < out.len() implies #[trigger] out[k].len() <= MAX_LINE_LEN by {
                        if k != r {
                            assert(out[k] == lines[k]);
                        } else if e == TextEdit::BackspaceWord {
                            let j = retreat_class(l, retreat_class(l, c, false), true);
                            lemma_retreat_le(l, c, false);
                            lemma_retreat_le(l, retreat_class(l, c, false), true);
                            assert(out[k] == l.subrange(0, j) + l.subrange(c, l.len() as int));
                        }
                    }
                } else if r > 0 && lines[r - 1].len() + l.len() <= MAX_LINE_LEN {
                    assert(out == lines.update(r - 1, lines[r - 1] + l).remove(r));
                    assert forall|k: int| 0 <= k < out.len() implies #[trigger] out[k].len() <= MAX_LINE_LEN by {
                        if k < r - 1 {
                            assert(out[k] == lines[k]);
                        } else if k >= r {
                            assert(out[k] == lines[k + 1]);
                        }
                    }
                }
            }
        },
    }
}

/// Retreating never moves right, nor before column 0.
pub proof fn lemma_retreat_le(l: Seq<char>, c: int, cls: bool)
    requires
        0 <= c <= l.len(),
    ensures
        0 <= retreat_class(l, c, cls) <= c,
    decreases c,
{
    if 0 < c && alphanumeric(l[c - 1]) == cls {
        lemma_retreat_le(l, c - 1, cls);
    }
}

/// While cursors perform `op` in turn, each split adds a line and each join removes one.
pub proof fn lemma_op_counts(op: LineOp, lines: Seq<Seq<char>>, cs: Seq<(u16, u16)>, n: nat)
    requires
        lines_wf(lines),
    ensures
        lines_wf(fold_cursors(op_step(op), lines, cs, n).0),
        fold_cursors(op_step(op), lines, cs, n).0.len() == lines.len() + op_counts(op, lines, cs, n).0 - op_counts(op, lines, cs, n).1,
    decreases n,
{
    if n == 0 || n > cs.len() {
    } else {
        lemma_op_counts(op, lines, cs, (n - 1) as nat);
        let prev = fold_cursors(op_step(op), lines, cs, (n - 1) as nat);
        lemma_line_op_count(op, prev.0, prev.1[n - 1]);
    }
}

/// Line-count conservation: after any sequence of insertions, newlines and backspaces,
/// each performed by every cursor in turn, the text has its initial number of lines,
/// plus one per line split, minus one per line join.
pub proof fn lemma_line_count_conserved(lines: Seq<Seq<char>>, cs: Seq<(u16, u16)>, ops: Seq<LineOp>)
    requires
        lines_wf(lines),
    ensures
        lines_wf(run_ops(lines, cs, ops).0),
        run_ops(lines, cs, ops).0.len() == lines.len() + run_ops(lines, cs, ops).2 - run_ops(lines, cs, ops).3,
    decreases ops.len(),
{
    if ops.len() > 0 {
        lemma_line_count_conserved(lines, cs, ops.drop_last());
        let prev = run_ops(lines, cs, ops.drop_last());
        lemma_op_counts(ops.last(), prev.0, prev.1, prev.1.len());
    }
}

/// The buffer operations perform these steps: `apply_edit` folds `edit_step(e)`, which
/// is the step of `LineOp::Edit(e)`, and `insert_chars_to_buffer` folds
/// `insert_step(t)`, the step of `LineOp::Insert(t)`.
pub proof fn lemma_op_steps(e: TextEdit, t: Seq<char>)
    ensures
        op_step(LineOp::Edit(e)) == edit_step(e),
        op_step(LineOp::Insert(t)) == insert_step(t),
{
    assert(op_step(LineOp::Edit(e)) =~= edit_step(e));
    assert(op_step(LineOp::Insert(t)) =~= insert_step(t));
}

/// Backspace at column 0 of line `row > 0` joins that line onto the one above, and
/// the cursor lands at that line's length before the join (when the joined line fits).
pub proof fn lemma_backspace_joins(lines: Seq<Seq<char>>, row: u16)
    requires
        lines_wf(lines),
        0 < row < lines.len(),
        lines[row - 1].len() + lines[row as int].len() <= MAX_LINE_LEN,
    ensures
        edit_at(TextEdit::BackspaceChar, lines, (0u16, row)) == (
            lines.update(row - 1, lines[row - 1] + lines[row as int]).remove(row as int),
            (lines[row - 1].len() as u16, (row - 1) as u16),
        ),
{
    lemma_clamp(lines, (0u16, row));
}

} // verus!
