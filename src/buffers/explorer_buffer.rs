use vstd::prelude::*;

use crate::buffers::editor_buffer::{dispatch_key_effect, key_applied, KeyEffect};
use crate::editor::{
    lines_of, lines_wf, BufferKind, CursorForm, Editor, EditorBuffer, EditorCursor, EditorError, EditorWindow,
    MAX_LINES, MAX_LINE_LEN,
};
use crate::editor_modes::EditorMode;
use crate::normal::CursorDirections;
use crate::text::str_eq;

verus! {

/// Normal mode in a directory listing: `:` enters Command, `h j k l` move.
pub open spec fn explorer_key_effect(key: Seq<char>) -> KeyEffect {
    if key == "<:>"@ {
        KeyEffect::OpenCommand
    } else if key == "<h>"@ {
        KeyEffect::Move(CursorDirections::Left)
    } else if key == "<j>"@ {
        KeyEffect::Move(CursorDirections::Down)
    } else if key == "<k>"@ {
        KeyEffect::Move(CursorDirections::Up)
    } else if key == "<l>"@ {
        KeyEffect::Move(CursorDirections::Right)
    } else {
        KeyEffect::Nothing
    }
}

/// Normal-mode keys of a directory listing.
pub fn match_keys_normal(editor: &mut Editor, key: &str) -> (r: Result<(), EditorError>)
    requires
        old(editor).wf(),
    ensures
        key_applied(&*old(editor), &*final(editor), explorer_key_effect(key@), r),
{
    let effect = if str_eq(key, "<:>") {
        KeyEffect::OpenCommand
    } else if str_eq(key, "<h>") {
        KeyEffect::Move(CursorDirections::Left)
    } else if str_eq(key, "<j>") {
        KeyEffect::Move(CursorDirections::Down)
    } else if str_eq(key, "<k>") {
        KeyEffect::Move(CursorDirections::Up)
    } else if str_eq(key, "<l>") {
        KeyEffect::Move(CursorDirections::Right)
    } else {
        KeyEffect::Nothing
    };
    dispatch_key_effect(editor, effect)
}

/// The handler of a directory listing: Normal keys only.
pub fn match_editor_mode(editor: &mut Editor, key: &str) -> (r: Result<(), EditorError>)
    requires
        old(editor).wf(),
    ensures
        old(editor).editor_mode == EditorMode::Normal ==> key_applied(&*old(editor), &*final(editor), explorer_key_effect(key@), r),
        old(editor).editor_mode != EditorMode::Normal ==> r is Ok && *final(editor) == *old(editor),
{
    match editor.editor_mode {
        EditorMode::Normal => match_keys_normal(editor, key),
        _ => Ok(()),
    }
}

/// A rule of dashes that frames the listing's header.
pub open spec fn rule() -> Seq<char> {
    "---------------------------------"@
}

/// The listing: a framed header naming `root`, a parent entry, then the entries.
pub open spec fn listing(root: Seq<char>, entries: Seq<Seq<char>>) -> Seq<Seq<char>> {
    seq![rule(), Seq::empty(), root, Seq::empty(), rule(), "../"@] + entries
}

/// A directory-listing buffer for `root` holding `entries`, drawn right of the line
/// numbers and above the status line.
pub fn init_explorer_buffer(root: &str, terminal_size: (u16, u16), entries: Vec<String>) -> (r: EditorBuffer)
    requires
        terminal_size.0 >= 8,
        terminal_size.1 >= 2,
        root@.len() <= MAX_LINE_LEN,
        entries@.len() + 6 <= MAX_LINES,
        forall|i: int| 0 <= i < entries@.len() ==> (#[trigger] entries@[i])@.len() <= MAX_LINE_LEN,
    ensures
        r.wf(),
        r.lines() == listing(root@, lines_of(entries@)),
        r.kind == BufferKind::Explorer,
        r.buffer_window == (EditorWindow { start: (8, 1), end: (terminal_size.0, (terminal_size.1 - 1) as u16) }),
        r.tab_width == 4,
        r.pivot == (0u16, 0u16),
        r.positions() == seq![(0u16, 0u16)],
        r.file_name.is_none(),
{
    let mut buffer = EditorBuffer::new(
        BufferKind::Explorer,
        EditorWindow { start: (8, 1), end: (terminal_size.0, terminal_size.1 - 1) },
        4,
    );
    let mut paths: Vec<String> = Vec::new();
    paths.push("---------------------------------".to_owned());
    paths.push(String::new());
    paths.push(root.to_owned());
    paths.push(String::new());
    paths.push("---------------------------------".to_owned());
    paths.push("../".to_owned());
    let ghost header = lines_of(paths@);
    assert(header =~= seq![rule(), Seq::empty(), root@, Seq::empty(), rule(), "../"@]);
    let mut entries = entries;
    let ghost all = entries@;
    paths.append(&mut entries);
    buffer.content = paths;
    proof {
        assert(buffer.lines() =~= listing(root@, lines_of(all)));
        reveal_strlit("---------------------------------");
        reveal_strlit("../");
        assert forall|i: int| 0 <= i < buffer.lines().len() implies #[trigger] buffer.lines()[i].len() <= MAX_LINE_LEN by {
            if i >= 6 {
                assert(buffer.lines()[i] == all[i - 6]@);
            }
        }
    }
    buffer
}

} // verus!
