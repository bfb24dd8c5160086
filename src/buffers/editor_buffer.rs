use vstd::prelude::*;

use crate::buffers::text_edit::{apply_edit, edit_step, lemma_op_counts, lemma_op_steps, op_counts, LineOp, TextEdit};
use crate::buffers::{adapt_pivot_from_cursor, follow, numbered, numbered_colors, numeration_name, sync_numeration};
use crate::cursor_model::{fold_cursors, lemma_clamp, CursorStep};
use crate::editor::{Editor, EditorBuffer, EditorError, EditorWindow, MAX_LINE_LEN};
use crate::editor_modes::EditorMode;
use crate::insert::{insert_chars_to_buffer, insert_step};
use crate::normal::{move_cursors, move_step, CursorDirections};
use crate::text::str_eq;

verus! {

/// What a key does to the focused buffer and the mode.
#[derive(Clone, Copy, PartialEq, Eq, Debug)]
pub enum KeyEffect {
    SetMode(EditorMode),
    /// Enter Command mode with a fresh history entry.
    OpenCommand,
    Move(CursorDirections),
    Edit(TextEdit),
    /// Insert one character at every cursor.
    Type(char),
    /// Insert the buffer's tab width of spaces at every cursor.
    Tab,
    Nothing,
}

/// A token of one character between angle brackets, such as `<x>`.
pub open spec fn bracketed_char(key: Seq<char>) -> bool {
    key.len() == 3 && key[0] == '<' && key[2] == '>'
}

/// Insert mode: Esc or Ctrl-c leave it; Enter, Space, Backspace, Alt-Backspace and
/// Tab edit; any other bracketed single character is typed.
pub open spec fn insert_key_effect(key: Seq<char>) -> KeyEffect {
    if key == "<C-c>"@ || key == "<Esc>"@ {
        KeyEffect::SetMode(EditorMode::Normal)
    } else if key == "<Enter>"@ {
        KeyEffect::Edit(TextEdit::Newline)
    } else if key == "<Space>"@ {
        KeyEffect::Type(' ')
    } else if key == "<BS>"@ {
        KeyEffect::Edit(TextEdit::BackspaceChar)
    } else if key == "<C-h>"@ {
        KeyEffect::Nothing
    } else if bracketed_char(key) {
        KeyEffect::Type(key[1])
    } else if key == "<A-BS>"@ {
        KeyEffect::Edit(TextEdit::BackspaceWord)
    } else if key == "<Tab>"@ {
        KeyEffect::Tab
    } else {
        KeyEffect::Nothing
    }
}

/// Normal mode: `i` enters Insert, `:` enters Command, `h j k l` move, `w b` move by words.
pub open spec fn normal_key_effect(key: Seq<char>) -> KeyEffect {
    if key == "<i>"@ {
        KeyEffect::SetMode(EditorMode::Insert)
    } else if key == "<:>"@ {
        KeyEffect::OpenCommand
    } else if key == "<h>"@ {
        KeyEffect::Move(CursorDirections::Left)
    } else if key == "<j>"@ {
        KeyEffect::Move(CursorDirections::Down)
    } else if key == "<k>"@ {
        KeyEffect::Move(CursorDirections::Up)
    } else if key == "<l>"@ {
        KeyEffect::Move(CursorDirections::Right)
    } else if key == "<w>"@ {
        KeyEffect::Edit(TextEdit::WordForward)
    } else if key == "<b>"@ {
        KeyEffect::Edit(TextEdit::WordBackward)
    } else {
        KeyEffect::Nothing
    }
}

pub fn insert_key_effect_exec(key: &str) -> (r: KeyEffect)
    ensures
        r == insert_key_effect(key@),
{
    if str_eq(key, "<C-c>") || str_eq(key, "<Esc>") {
        KeyEffect::SetMode(EditorMode::Normal)
    } else if str_eq(key, "<Enter>") {
        KeyEffect::Edit(TextEdit::Newline)
    } else if str_eq(key, "<Space>") {
        KeyEffect::Type(' ')
    } else if str_eq(key, "<BS>") {
        KeyEffect::Edit(TextEdit::BackspaceChar)
    } else if str_eq(key, "<C-h>") {
        KeyEffect::Nothing
    } else if key.unicode_len() == 3 && key.get_char(0) == '<' && key.get_char(2) == '>' {
        KeyEffect::Type(key.get_char(1))
    } else if str_eq(key, "<A-BS>") {
        KeyEffect::Edit(TextEdit::BackspaceWord)
    } else if str_eq(key, "<Tab>") {
        KeyEffect::Tab
    } else {
        KeyEffect::Nothing
    }
}

pub fn normal_key_effect_exec(key: &str) -> (r: KeyEffect)
    ensures
        r == normal_key_effect(key@),
{
    if str_eq(key, "<i>") {
        KeyEffect::SetMode(EditorMode::Insert)
    } else if str_eq(key, "<:>") {
        KeyEffect::OpenCommand
    } else if str_eq(key, "<h>") {
        KeyEffect::Move(CursorDirections::Left)
    } else if str_eq(key, "<j>") {
        KeyEffect::Move(CursorDirections::Down)
    } else if str_eq(key, "<k>") {
        KeyEffect::Move(CursorDirections::Up)
    } else if str_eq(key, "<l>") {
        KeyEffect::Move(CursorDirections::Right)
    } else if str_eq(key, "<w>") {
        KeyEffect::Edit(TextEdit::WordForward)
    } else if str_eq(key, "<b>") {
        KeyEffect::Edit(TextEdit::WordBackward)
    } else {
        KeyEffect::Nothing
    }
}

/// `n` spaces.
pub open spec fn spaces(n: nat) -> Seq<char> {
    Seq::new(n, |_i: int| ' ')
}

/// The text and cursors of `new` are those of `old` after `effect`.
pub open spec fn effect_applied(old: &EditorBuffer, new: &EditorBuffer, effect: KeyEffect) -> bool {
    let n = old.cursors@.len() as nat;
    &&& old.same_but_text(new)
    &&& match effect {
        KeyEffect::Move(d) => new.lines() == old.lines()
            && new.positions() == fold_cursors(move_step(d), old.lines(), old.positions(), n).1,
        KeyEffect::Edit(e) => (new.lines(), new.positions()) == fold_cursors(edit_step(e), old.lines(), old.positions(), n),
        KeyEffect::Type(c) => (new.lines(), new.positions()) == fold_cursors(insert_step(seq![c]), old.lines(), old.positions(), n),
        KeyEffect::Tab => (new.lines(), new.positions())
            == fold_cursors(insert_step(spaces(old.tab_width as nat)), old.lines(), old.positions(), n),
        _ => new.lines() == old.lines() && new.positions() == old.positions(),
    }
}

/// The pivot after the view follows the first cursor (if there is one).
pub open spec fn settled_pivot(p: (u16, u16), positions: Seq<(u16, u16)>, window: EditorWindow) -> (u16, u16) {
    if positions.len() > 0 {
        (follow(p.0, positions[0].0, window.width()), follow(p.1, positions[0].1, window.height()))
    } else {
        p
    }
}

/// `new` is the numeration buffer `old` brought in line with the text buffer `text`.
pub open spec fn numeration_synced(old: &EditorBuffer, new: &EditorBuffer, text: &EditorBuffer) -> bool {
    &&& new.wf()
    &&& new.lines() == numbered(old.lines(), text.lines().len())
    &&& new.styles() == numbered_colors(old.styles(), old.lines().len(), text.lines().len())
    &&& new.pivot == (old.pivot.0, text.pivot.1)
    &&& new.cursors@ == old.cursors@
    &&& new.file_name == old.file_name
    &&& new.buffer_window == old.buffer_window
    &&& new.kind == old.kind
    &&& new.tab_width == old.tab_width
}

pub open spec fn history(e: &Editor) -> Seq<Seq<char>> {
    e.commands_hist@.map_values(|s: String| s@)
}

/// `new` is `old` after a key with `effect` reached the buffer handler: Err, and no
/// change, when the focused buffer is missing; else the focused buffer takes the
/// effect and its view follows its first cursor, the numeration buffer follows it,
/// and the mode and history change as the effect says.
pub open spec fn key_applied(old: &Editor, new: &Editor, effect: KeyEffect, r: Result<(), EditorError>) -> bool {
    &&& new.wf()
    &&& new.focus_buffer == old.focus_buffer
    &&& new.buffers_to_show@ == old.buffers_to_show@
    &&& new.close == old.close
    &&& new.terminal_size == old.terminal_size
    &&& match old.find_index(old.focus_buffer@) {
        None => {
            &&& r is Err
            &&& new.buffers@ == old.buffers@
            &&& new.editor_mode == old.editor_mode
            &&& new.commands_hist@ == old.commands_hist@
        },
        Some(fi) => {
            let ob = old.buffers@[fi].1;
            let nb = new.buffers@[fi].1;
            &&& r is Ok
            &&& new.buffers@.len() == old.buffers@.len()
            &&& new.names() == old.names()
            &&& effect_applied(&ob, &nb, effect)
            &&& nb.pivot == settled_pivot(ob.pivot, nb.positions(), ob.buffer_window)
            &&& forall|j: int|
                0 <= j < old.buffers@.len() && j != fi ==> if old.names()[j] == numeration_name() {
                    numeration_synced(&old.buffers@[j].1, &new.buffers@[j].1, &nb)
                } else {
                    new.buffers@[j] == old.buffers@[j]
                }
            &&& match effect {
                KeyEffect::SetMode(m) => new.editor_mode == m && new.commands_hist@ == old.commands_hist@,
                KeyEffect::OpenCommand => new.editor_mode == EditorMode::Command
                    && history(new) == history(old).push(Seq::empty()),
                _ => new.editor_mode == old.editor_mode && new.commands_hist@ == old.commands_hist@,
            }
        },
    }
}

/// Performs the buffer part of `effect`.
pub fn apply_effect(buffer: &mut EditorBuffer, effect: KeyEffect)
    requires
        old(buffer).wf(),
    ensures
        final(buffer).wf(),
        effect_applied(&*old(buffer), &*final(buffer), effect),
        final(buffer).pivot == old(buffer).pivot,
{
    match effect {
        KeyEffect::Move(d) => move_cursors(buffer, d),
        KeyEffect::Edit(e) => apply_edit(buffer, e),
        KeyEffect::Type(c) => {
            let mut text: Vec<char> = Vec::new();
            text.push(c);
            assert(text@ =~= seq![c]);
            insert_chars_to_buffer(buffer, text);
        },
        KeyEffect::Tab => {
            let n = buffer.tab_width;
            let mut text: Vec<char> = Vec::new();
            let mut i: u16 = 0;
            while i < n
                invariant
                    0 <= i <= n,
                    text@ == spaces(i as nat),
                decreases n - i,
            {
                text.push(' ');
                i += 1;
                assert(text@ =~= spaces(i as nat));
            }
            insert_chars_to_buffer(buffer, text);
        },
        _ => {},
    }
}

/// Scrolls the view to the first cursor, if there is one.
pub fn settle_pivot(buffer: &mut EditorBuffer)
    requires
        old(buffer).wf(),
    ensures
        final(buffer).wf(),
        final(buffer).pivot == settled_pivot(old(buffer).pivot, old(buffer).positions(), old(buffer).buffer_window),
        old(buffer).same_but_text(&*final(buffer)),
        final(buffer).content@ == old(buffer).content@,
        final(buffer).cursors@ == old(buffer).cursors@,
{
    if buffer.cursors.len() > 0 {
        let first = buffer.cursors[0];
        assert(first.position == buffer.positions()[0]);
        adapt_pivot_from_cursor(&first, buffer);
    }
}

/// Runs a key's effect on the focused buffer, then lets the view and the numeration
/// buffer follow.
#[verifier::rlimit(80)]
pub fn dispatch_key_effect(editor: &mut Editor, effect: KeyEffect) -> (r: Result<(), EditorError>)
    requires
        old(editor).wf(),
    ensures
        key_applied(&*old(editor), &*final(editor), effect, r),
{
    let fi = match editor.find_buffer(editor.focus_buffer.as_str()) {
        Some(i) => i,
        None => {
            proof {
                if let Some(k) = editor.find_index(editor.focus_buffer@) {
                    assert(editor.names()[k] == editor.focus_buffer@);
                }
            }
            return Err(EditorError::MissingBuffer(editor.focus_buffer.clone()));
        },
    };
    proof {
        editor.lemma_find_index(editor.focus_buffer@, fi as int);
    }
    let ghost old_names = editor.names();
    match effect {
        KeyEffect::SetMode(m) => {
            editor.editor_mode = m;
        },
        KeyEffect::OpenCommand => {
            editor.editor_mode = EditorMode::Command;
            editor.commands_hist.push(String::new());
            assert(history(editor) =~= history(old(editor)).push(Seq::empty()));
        },
        _ => {},
    }
    let (name, mut buffer) = editor.buffers.remove(fi);
    apply_effect(&mut buffer, effect);
    settle_pivot(&mut buffer);
    let count = buffer.content.len();
    let pivot_row = buffer.pivot.1;
    let ghost nb = buffer;
    editor.buffers.insert(fi, (name, buffer));
    assert(editor.names() =~= old_names);
    let ghost after_focus = editor.buffers@;
    match editor.find_buffer("numerate_lines") {
        Some(ni) => {
            if ni != fi {
                let (nname, mut numeration) = editor.buffers.remove(ni);
                sync_numeration(&mut numeration, count, pivot_row);
                editor.buffers.insert(ni, (nname, numeration));
                assert(editor.names() =~= old_names);
                assert(editor.buffers@ =~= after_focus.update(ni as int, (nname, numeration)));
            }
        },
        None => {},
    }
    proof {
        assert(editor.buffers@[fi as int].1 == nb);
        assert forall|i: int| 0 <= i < editor.buffers@.len() implies (#[trigger] editor.buffers@[i]).1.wf() by {
            assert(old(editor).buffers@[i].1.wf());
        }
        assert forall|j: int| 0 <= j < old(editor).buffers@.len() && j != fi implies if old(editor).names()[j] == numeration_name() {
            numeration_synced(&old(editor).buffers@[j].1, &editor.buffers@[j].1, &nb)
        } else {
            editor.buffers@[j] == old(editor).buffers@[j]
        } by {
            if old(editor).names()[j] == numeration_name() {
                reveal_strlit("numerate_lines");
            }
        }
    }
    Ok(())
}

/// Insert-mode keys of a text buffer.
pub fn match_keys_insert(editor: &mut Editor, key: &str) -> (r: Result<(), EditorError>)
    requires
        old(editor).wf(),
    ensures
        key_applied(&*old(editor), &*final(editor), insert_key_effect(key@), r),
{
    let effect = insert_key_effect_exec(key);
    dispatch_key_effect(editor, effect)
}

/// Normal-mode keys of a text buffer.
pub fn match_keys_normal(editor: &mut Editor, key: &str) -> (r: Result<(), EditorError>)
    requires
        old(editor).wf(),
    ensures
        key_applied(&*old(editor), &*final(editor), normal_key_effect(key@), r),
{
    let effect = normal_key_effect_exec(key);
    dispatch_key_effect(editor, effect)
}

/// The handler of a text buffer: Insert and Normal keys; other modes ignore keys here.
pub fn match_editor_mode(editor: &mut Editor, key: &str) -> (r: Result<(), EditorError>)
    requires
        old(editor).wf(),
    ensures
        old(editor).editor_mode == EditorMode::Insert ==> key_applied(&*old(editor), &*final(editor), insert_key_effect(key@), r),
        old(editor).editor_mode == EditorMode::Normal ==> key_applied(&*old(editor), &*final(editor), normal_key_effect(key@), r),
        old(editor).editor_mode != EditorMode::Insert && old(editor).editor_mode != EditorMode::Normal ==> {
            &&& r is Ok
            &&& *final(editor) == *old(editor)
        },
{
    match editor.editor_mode {
        EditorMode::Insert => match_keys_insert(editor, key),
        EditorMode::Normal => match_keys_normal(editor, key),
        _ => Ok(()),
    }
}

} // verus!

verus! {

/// The view shows the first cursor: `pivot <= cursor <= pivot + window size` on both axes.
pub open spec fn viewport_ok(b: &EditorBuffer) -> bool {
    b.cursors@.len() > 0 ==> {
        let p = b.positions()[0];
        &&& b.pivot.1 <= p.1 <= b.pivot.1 + b.buffer_window.height()
        &&& b.pivot.0 <= p.0 <= b.pivot.0 + b.buffer_window.width()
    }
}

pub proof fn lemma_follow(p: u16, c: u16, size: int)
    requires
        0 <= size <= 65535,
    ensures
        follow(p, c, size) <= c <= follow(p, c, size) + size,
{
}

/// Viewport invariant: after a key reaches a buffer handler, every buffer with a cursor
/// shows its first cursor, given that this held before and that the numeration buffer,
/// whose pivot is derived, has no cursor.
pub proof fn lemma_viewport_kept(old: &Editor, new: &Editor, effect: KeyEffect, r: Result<(), EditorError>)
    requires
        old.wf(),
        key_applied(old, new, effect, r),
        forall|i: int| 0 <= i < old.buffers@.len() ==> viewport_ok(&(#[trigger] old.buffers@[i]).1),
        forall|i: int| 0 <= i < old.buffers@.len() && #[trigger] old.names()[i] == numeration_name()
            ==> old.buffers@[i].1.cursors@.len() == 0,
    ensures
        forall|i: int| 0 <= i < new.buffers@.len() ==> viewport_ok(&(#[trigger] new.buffers@[i]).1),
{
    match old.find_index(old.focus_buffer@) {
        None => {},
        Some(fi) => {
            let nb = new.buffers@[fi].1;
            let ob = old.buffers@[fi].1;
            assert(nb.buffer_window == ob.buffer_window);
            assert(nb.buffer_window.wf()) by {
                assert(new.buffers@[fi].1.wf());
            }
            if nb.cursors@.len() > 0 {
                lemma_follow(ob.pivot.0, nb.positions()[0].0, nb.buffer_window.width());
                lemma_follow(ob.pivot.1, nb.positions()[0].1, nb.buffer_window.height());
            }
            assert forall|i: int| 0 <= i < new.buffers@.len() implies viewport_ok(&(#[trigger] new.buffers@[i]).1) by {
                if i != fi {
                    assert(viewport_ok(&old.buffers@[i].1));
                    if old.names()[i] == numeration_name() {
                        assert(old.buffers@[i].1.cursors@.len() == 0);
                    }
                }
            }
        },
    }
}

/// Numeration-buffer coupling: after a key reaches the handler of a buffer other than
/// the numeration buffer, the numeration buffer has as many lines as that buffer, and
/// the same vertical pivot.
pub proof fn lemma_numeration_coupled(old: &Editor, new: &Editor, effect: KeyEffect, r: Result<(), EditorError>)
    requires
        old.wf(),
        key_applied(old, new, effect, r),
        old.focus_buffer@ != numeration_name(),
    ensures
        r is Ok ==> match new.find_index(new.focus_buffer@) {
            Some(fi) => forall|j: int| 0 <= j < new.buffers@.len() && #[trigger] new.names()[j] == numeration_name() ==> {
                &&& new.buffers@[j].1.lines().len() == new.buffers@[fi].1.lines().len()
                &&& new.buffers@[j].1.pivot.1 == new.buffers@[fi].1.pivot.1
            },
            None => false,
        },
{
    match old.find_index(old.focus_buffer@) {
        None => {},
        Some(fi) => {
            assert(old.names()[fi] == old.focus_buffer@);
            new.lemma_find_index(new.focus_buffer@, fi);
            let nb = new.buffers@[fi].1;
            assert forall|j: int| 0 <= j < new.buffers@.len() && #[trigger] new.names()[j] == numeration_name() implies {
                &&& new.buffers@[j].1.lines().len() == nb.lines().len()
                &&& new.buffers@[j].1.pivot.1 == nb.pivot.1
            } by {
                assert(j != fi);
                let ol = old.buffers@[j].1.lines();
                assert(numbered(ol, nb.lines().len()).len() == nb.lines().len());
            }
        },
    }
}

} // verus!

verus! {

/// Folding a step over a single cursor is that step.
pub proof fn lemma_fold_one(step: CursorStep, lines: Seq<Seq<char>>, p: (u16, u16))
    ensures
        fold_cursors(step, lines, seq![p], 1) == (step(lines, p).0, seq![step(lines, p).1]),
{
    let r = fold_cursors(step, lines, seq![p], 1);
    assert(fold_cursors(step, lines, seq![p], 0) == (lines, seq![p]));
    assert(r.1 =~= seq![step(lines, p).1]);
}

/// Backspace (or Alt-Backspace) in Insert mode, with one cursor at column 0 of line
/// `row > 0` of the focused buffer, appends that line to the one above and puts the
/// cursor at that line's length before the join (when the joined line fits a line).
pub proof fn lemma_insert_backspace_joins(old: &Editor, new: &Editor, key: Seq<char>, r: Result<(), EditorError>, fi: int, row: u16)
    requires
        old.wf(),
        key == "<BS>"@ || key == "<A-BS>"@,
        key_applied(old, new, insert_key_effect(key), r),
        old.find_index(old.focus_buffer@) == Some(fi),
        old.buffers@[fi].1.positions() == seq![(0u16, row)],
        0 < row < old.buffers@[fi].1.lines().len(),
        old.buffers@[fi].1.lines()[row - 1].len() + old.buffers@[fi].1.lines()[row as int].len() <= MAX_LINE_LEN,
    ensures
        ({
            let l = old.buffers@[fi].1.lines();
            &&& new.buffers@[fi].1.lines() == l.update(row - 1, l[row - 1] + l[row as int]).remove(row as int)
            &&& new.buffers@[fi].1.positions() == seq![(l[row - 1].len() as u16, (row - 1) as u16)]
        }),
{
    reveal_strlit("<BS>");
    reveal_strlit("<A-BS>");
    reveal_strlit("<C-c>");
    reveal_strlit("<Esc>");
    reveal_strlit("<Enter>");
    reveal_strlit("<Space>");
    reveal_strlit("<C-h>");
    let ob = old.buffers@[fi].1;
    let l = ob.lines();
    let e = if key == "<BS>"@ { TextEdit::BackspaceChar } else { TextEdit::BackspaceWord };
    assert("<BS>"@.len() == 4 && "<A-BS>"@.len() == 6);
    assert("<C-c>"@.len() == 5 && "<Esc>"@.len() == 5 && "<C-h>"@.len() == 5);
    assert("<Enter>"@.len() == 7 && "<Space>"@.len() == 7);
    assert(insert_key_effect(key) == KeyEffect::Edit(e));
    assert(ob.cursors@.len() == 1);
    lemma_fold_one(edit_step(e), l, (0u16, row));
    lemma_clamp(l, (0u16, row));
}

/// Line-count conservation for one key: the focused buffer gains one line per line
/// split and loses one per line join that its cursors make.
pub proof fn lemma_key_line_count(old: &Editor, new: &Editor, effect: KeyEffect, r: Result<(), EditorError>, fi: int)
    requires
        old.wf(),
        key_applied(old, new, effect, r),
        old.find_index(old.focus_buffer@) == Some(fi),
    ensures
        ({
            let ob = old.buffers@[fi].1;
            let op = match effect {
                KeyEffect::Edit(e) => Some(LineOp::Edit(e)),
                KeyEffect::Type(c) => Some(LineOp::Insert(seq![c])),
                KeyEffect::Tab => Some(LineOp::Insert(spaces(ob.tab_width as nat))),
                _ => None,
            };
            match op {
                Some(op) => {
                    let c = op_counts(op, ob.lines(), ob.positions(), ob.cursors@.len() as nat);
                    new.buffers@[fi].1.lines().len() == ob.lines().len() + c.0 - c.1
                },
                None => new.buffers@[fi].1.lines() == ob.lines(),
            }
        }),
{
    let ob = old.buffers@[fi].1;
    assert(ob.wf());
    let n = ob.cursors@.len() as nat;
    assert(ob.positions().len() == n);
    match effect {
        KeyEffect::Edit(e) => {
            lemma_op_steps(e, Seq::empty());
            lemma_op_counts(LineOp::Edit(e), ob.lines(), ob.positions(), n);
        },
        KeyEffect::Type(c) => {
            lemma_op_steps(TextEdit::Newline, seq![c]);
            lemma_op_counts(LineOp::Insert(seq![c]), ob.lines(), ob.positions(), n);
        },
        KeyEffect::Tab => {
            lemma_op_steps(TextEdit::Newline, spaces(ob.tab_width as nat));
            lemma_op_counts(LineOp::Insert(spaces(ob.tab_width as nat)), ob.lines(), ob.positions(), n);
        },
        _ => {},
    }
}

} // verus!
