use vstd::prelude::*;

use crate::editor::{ColorRange, Editor, EditorBuffer, EditorCursorContext, EditorWindow};
use crate::editor_modes::EditorMode;

verus! {

/// What a plugin client sees of a buffer.
pub struct EditorBufferContext {
    pub cursors: Vec<EditorCursorContext>,
    pub content: Vec<String>,
    pub colors: Vec<Vec<ColorRange>>,
    pub memory: Vec<String>,
    pub buffer_window: EditorWindow,
    pub tab_width: u16,
}

/// What a plugin client sees of the editor.
pub struct EditorContext {
    pub buffers: Vec<(String, EditorBufferContext)>,
    pub buffers_to_show: Vec<String>,
    pub focus_buffer: String,
    pub editor_mode: EditorMode,
    pub terminal_size: (u16, u16),
    pub commands_hist: Vec<String>,
}

/// `ctx` shows exactly the cursors, text, styles, memory, window and tab width of `b`.
pub open spec fn shows_buffer(ctx: &EditorBufferContext, b: &EditorBuffer) -> bool {
    &&& ctx.cursors@.map_values(|c: EditorCursorContext| c.position) == b.positions()
    &&& ctx.content@ == b.content@
    &&& ctx.colors@.map_values(|v: Vec<ColorRange>| v@) == b.styles()
    &&& ctx.memory@ == b.memory@
    &&& ctx.buffer_window == b.buffer_window
    &&& ctx.tab_width == b.tab_width
}

/// `ctx` shows every buffer of `e` under its name, and the rest of `e`'s state.
pub open spec fn shows_editor(ctx: &EditorContext, e: &Editor) -> bool {
    &&& ctx.buffers@.len() == e.buffers@.len()
    &&& forall|i: int| 0 <= i < e.buffers@.len() ==> {
        &&& (#[trigger] ctx.buffers@[i]).0 == e.buffers@[i].0
        &&& shows_buffer(&ctx.buffers@[i].1, &e.buffers@[i].1)
    }
    &&& ctx.buffers_to_show@ == e.buffers_to_show@
    &&& ctx.focus_buffer == e.focus_buffer
    &&& ctx.editor_mode == e.editor_mode
    &&& ctx.terminal_size == e.terminal_size
    &&& ctx.commands_hist@ == e.commands_hist@
}

pub fn clone_strings(v: &Vec<String>) -> (r: Vec<String>)
    ensures
        r@ == v@,
{
    let mut out: Vec<String> = Vec::new();
    let mut i: usize = 0;
    while i < v.len()
        invariant
            0 <= i <= v@.len(),
            out@ == v@.subrange(0, i as int),
        decreases v@.len() - i,
    {
        out.push(v[i].clone());
        i += 1;
        assert(out@ =~= v@.subrange(0, i as int));
    }
    assert(v@.subrange(0, v@.len() as int) =~= v@);
    out
}

pub fn clone_styles(v: &Vec<Vec<ColorRange>>) -> (r: Vec<Vec<ColorRange>>)
    ensures
        r@.map_values(|s: Vec<ColorRange>| s@) == v@.map_values(|s: Vec<ColorRange>| s@),
{
    let mut out: Vec<Vec<ColorRange>> = Vec::new();
    let mut i: usize = 0;
    while i < v.len()
        invariant
            0 <= i <= v@.len(),
            out@.len() == i,
            forall|k: int| 0 <= k < i ==> (#[trigger] out@[k])@ == v@[k]@,
        decreases v@.len() - i,
    {
        let mut row: Vec<ColorRange> = Vec::new();
        let mut j: usize = 0;
        while j < v[i].len()
            invariant
                0 <= i < v@.len(),
                0 <= j <= v@[i as int]@.len(),
                row@ == v@[i as int]@.subrange(0, j as int),
            decreases v@[i as int]@.len() - j,
        {
            row.push(v[i][j]);
            j += 1;
            assert(row@ =~= v@[i as int]@.subrange(0, j as int));
        }
        assert(row@ =~= v@[i as int]@);
        out.push(row);
        i += 1;
    }
    assert(out@.map_values(|s: Vec<ColorRange>| s@) =~= v@.map_values(|s: Vec<ColorRange>| s@));
    out
}

impl EditorBuffer {
    /// The buffer as a plugin client sees it.
    pub fn to_buffer_context(&self) -> (r: EditorBufferContext)
        ensures
            shows_buffer(&r, self),
    {
        let mut cursors: Vec<EditorCursorContext> = Vec::new();
        let mut i: usize = 0;
        while i < self.cursors.len()
            invariant
                0 <= i <= self.cursors@.len(),
                cursors@.len() == i,
                forall|k: int| 0 <= k < i ==> (#[trigger] cursors@[k]).position == self.cursors@[k].position,
            decreases self.cursors@.len() - i,
        {
            let c = self.cursors[i].to_cursor_context();
            cursors.push(c);
            i += 1;
        }
        assert(cursors@.map_values(|c: EditorCursorContext| c.position) =~= self.positions());
        EditorBufferContext {
            cursors,
            content: clone_strings(&self.content),
            colors: clone_styles(&self.colors),
            memory: clone_strings(&self.memory),
            buffer_window: self.buffer_window,
            tab_width: self.tab_width,
        }
    }
}

impl Editor {
    /// The full state snapshot sent to a plugin client.
    pub fn to_editor_context(&self) -> (r: EditorContext)
        ensures
            shows_editor(&r, self),
    {
        let mut buffers: Vec<(String, EditorBufferContext)> = Vec::new();
        let mut i: usize = 0;
        while i < self.buffers.len()
            invariant
                0 <= i <= self.buffers@.len(),
                buffers@.len() == i,
                forall|k: int| 0 <= k < i ==> {
                    &&& (#[trigger] buffers@[k]).0 == self.buffers@[k].0
                    &&& shows_buffer(&buffers@[k].1, &self.buffers@[k].1)
                },
            decreases self.buffers@.len() - i,
        {
            let entry = (self.buffers[i].0.clone(), self.buffers[i].1.to_buffer_context());
            buffers.push(entry);
            i += 1;
        }
        EditorContext {
            buffers,
            buffers_to_show: clone_strings(&self.buffers_to_show),
            focus_buffer: self.focus_buffer.clone(),
            editor_mode: self.editor_mode,
            terminal_size: self.terminal_size,
            commands_hist: clone_strings(&self.commands_hist),
        }
    }
}

} // verus!
