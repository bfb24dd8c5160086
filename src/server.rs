use vstd::prelude::*;

use crate::buffers::editor_buffer::{numeration_synced, settle_pivot, settled_pivot};
use crate::buffers::{numeration_name, sync_numeration};
use crate::context::{clone_strings, clone_styles, shows_buffer, shows_editor, EditorBufferContext};
use crate::editor::{
    lines_of, lines_wf, CursorForm, Editor, EditorAction, EditorBuffer, EditorCursor, EditorCursorContext, EditorError,
    MAX_LINES, MAX_LINE_LEN,
};
use crate::editor_modes::key_executed;
use crate::server::server_messages::{ContextMessage, ServerMessages};
use crate::text::str_eq;

pub mod server_messages;

verus! {

/// The plugin endpoint: a local stream socket at a path given by the caller.
pub struct UnixServer {
    socket_path: String,
}

impl UnixServer {
    pub fn new(socket_path: &str) -> (r: UnixServer)
        ensures
            r.path() == socket_path@,
    {
        UnixServer { socket_path: socket_path.to_owned() }
    }

    pub closed spec fn path(&self) -> Seq<char> {
        self.socket_path@
    }

    /// Where the socket is bound.
    pub fn socket_path(&self) -> (r: &str)
        ensures
            r@ == self.path(),
    {
        self.socket_path.as_str()
    }

    /// The first message a client receives: the full editor state.
    pub fn handshake(editor: &Editor) -> (r: ServerMessages)
        ensures
            r matches ServerMessages::Context(m) && shows_editor(&m.editor, editor),
    {
        ServerMessages::Context(ContextMessage { editor: editor.to_editor_context() })
    }
}

} // verus!

verus! {

/// A submitted buffer that the editor can hold.
pub open spec fn valid_context(ctx: &EditorBufferContext) -> bool {
    &&& lines_wf(lines_of(ctx.content@))
    &&& ctx.buffer_window.wf()
}

/// `new` is the buffer `old` with the state that `ctx` submits: its text, cursors
/// (as block cursors), styles, memory, window and tab width; the view follows the
/// first cursor.
pub open spec fn takes_context(old: &EditorBuffer, new: &EditorBuffer, ctx: &EditorBufferContext) -> bool {
    &&& new.wf()
    &&& shows_buffer(ctx, new)
    &&& forall|k: int| 0 <= k < new.cursors@.len() ==> (#[trigger] new.cursors@[k]).form == CursorForm::SteadyBlock
    &&& new.file_name == old.file_name
    &&& new.is_modified == old.is_modified
    &&& new.kind == old.kind
    &&& new.pivot == settled_pivot(old.pivot, new.positions(), new.buffer_window)
}

/// `new` is `old` after a client message: an input is run as a key; a buffer replaces
/// the state of the buffer of that name (and, for the focused buffer, the numeration
/// buffer follows it); a context snapshot changes nothing.
pub open spec fn message_applied(old: &Editor, new: &Editor, message: &ServerMessages, r: Result<EditorAction, EditorError>) -> bool {
    match message {
        ServerMessages::Input(m) => key_executed(old, new, old.editor_mode, m.input@, r),
        ServerMessages::Context(_) => r matches Ok(EditorAction::Nothing) && *new == *old,
        ServerMessages::Buffer(m) => match old.find_index(m.buffer_name@) {
            None => r matches Err(EditorError::MissingBuffer(_)) && *new == *old,
            Some(i) => if !valid_context(&m.buffer) {
                r matches Err(EditorError::InvalidBuffer(_)) && *new == *old
            } else {
                let nb = new.buffers@[i].1;
                &&& r matches Ok(EditorAction::Nothing)
                &&& new.buffers@.len() == old.buffers@.len()
                &&& new.names() == old.names()
                &&& takes_context(&old.buffers@[i].1, &nb, &m.buffer)
                &&& forall|j: int| 0 <= j < old.buffers@.len() && j != i ==> if old.names()[j] == numeration_name()
                    && old.names()[i] == old.focus_buffer@ {
                    numeration_synced(&old.buffers@[j].1, &new.buffers@[j].1, &nb)
                } else {
                    new.buffers@[j] == old.buffers@[j]
                }
                &&& new.focus_buffer == old.focus_buffer
                &&& new.buffers_to_show@ == old.buffers_to_show@
                &&& new.editor_mode == old.editor_mode
                &&& new.commands_hist@ == old.commands_hist@
                &&& new.close == old.close
                &&& new.terminal_size == old.terminal_size
            },
        },
    }
}

fn check_context(ctx: &EditorBufferContext) -> (r: bool)
    ensures
        r == valid_context(ctx),
{
    let n = ctx.content.len();
    if n < 1 || n > MAX_LINES {
        return false;
    }
    let mut i: usize = 0;
    while i < n
        invariant
            n == ctx.content@.len(),
            0 <= i <= n,
            forall|k: int| 0 <= k < i ==> (#[trigger] lines_of(ctx.content@)[k]).len() <= MAX_LINE_LEN,
        decreases n - i,
    {
        if ctx.content[i].as_str().unicode_len() > MAX_LINE_LEN {
            assert(lines_of(ctx.content@)[i as int].len() > MAX_LINE_LEN);
            return false;
        }
        i += 1;
    }
    ctx.buffer_window.start.0 <= ctx.buffer_window.end.0 && ctx.buffer_window.start.1 <= ctx.buffer_window.end.1
}

/// `b` with the submitted state of `ctx`.
fn take_context(b: &mut EditorBuffer, ctx: &EditorBufferContext)
    requires
        valid_context(ctx),
    ensures
        takes_context(&*old(b), &*final(b), ctx),
{
    let mut cursors: Vec<EditorCursor> = Vec::new();
    let mut k: usize = 0;
    while k < ctx.cursors.len()
        invariant
            0 <= k <= ctx.cursors@.len(),
            cursors@.len() == k,
            forall|j: int| 0 <= j < k ==> {
                &&& (#[trigger] cursors@[j]).position == ctx.cursors@[j].position
                &&& cursors@[j].form == CursorForm::SteadyBlock
            },
        decreases ctx.cursors@.len() - k,
    {
        cursors.push(EditorCursor { position: ctx.cursors[k].position, form: CursorForm::SteadyBlock });
        k += 1;
    }
    b.cursors = cursors;
    b.content = clone_strings(&ctx.content);
    b.colors = clone_styles(&ctx.colors);
    b.memory = clone_strings(&ctx.memory);
    b.buffer_window = ctx.buffer_window;
    b.tab_width = ctx.tab_width;
    assert(ctx.cursors@.map_values(|c: EditorCursorContext| c.position) =~= b.positions());
    settle_pivot(b);
}

impl Editor {
    /// Applies a message from a plugin client.
    pub fn apply_message(&mut self, message: &ServerMessages) -> (r: Result<EditorAction, EditorError>)
        requires
            old(self).wf(),
        ensures
            final(self).wf(),
            message_applied(&*old(self), &*final(self), message, r),
    {
        match message {
            ServerMessages::Input(m) => self.execute_key(m.input.as_str()),
            ServerMessages::Context(_) => Ok(EditorAction::Nothing),
            ServerMessages::Buffer(m) => {
                let i = match self.find_buffer(m.buffer_name.as_str()) {
                    Some(i) => i,
                    None => {
                        proof {
                            if let Some(k) = self.find_index(m.buffer_name@) {
                                assert(self.names()[k] == m.buffer_name@);
                            }
                        }
                        return Err(EditorError::MissingBuffer(m.buffer_name.clone()));
                    },
                };
                proof {
                    self.lemma_find_index(m.buffer_name@, i as int);
                }
                if !check_context(&m.buffer) {
                    return Err(EditorError::InvalidBuffer(m.buffer_name.clone()));
                }
                let ghost old_names = self.names();
                let is_focus = str_eq(m.buffer_name.as_str(), self.focus_buffer.as_str());
                let (name, mut buffer) = self.buffers.remove(i);
                take_context(&mut buffer, &m.buffer);
                let count = buffer.content.len();
                let pivot_row = buffer.pivot.1;
                let ghost nb = buffer;
                self.buffers.insert(i, (name, buffer));
                assert(self.names() =~= old_names);
                let ghost after = self.buffers@;
                if is_focus {
                    match self.find_buffer("numerate_lines") {
                        Some(ni) => {
                            if ni != i {
                                let (nname, mut numeration) = self.buffers.remove(ni);
                                sync_numeration(&mut numeration, count, pivot_row);
                                self.buffers.insert(ni, (nname, numeration));
                                assert(self.names() =~= old_names);
                                assert(self.buffers@ =~= after.update(ni as int, (nname, numeration)));
                            }
                        },
                        None => {},
                    }
                }
                proof {
                    assert(self.buffers@[i as int].1 == nb);
                    assert forall|j: int| 0 <= j < self.buffers@.len() implies (#[trigger] self.buffers@[j]).1.wf() by {
                        assert(old(self).buffers@[j].1.wf());
                    }
                    assert forall|j: int| 0 <= j < old(self).buffers@.len() && j != i implies if old(self).names()[j] == numeration_name()
                        && old(self).names()[i as int] == old(self).focus_buffer@ {
                        numeration_synced(&old(self).buffers@[j].1, &self.buffers@[j].1, &nb)
                    } else {
                        self.buffers@[j] == old(self).buffers@[j]
                    } by {
                        if old(self).names()[j] == numeration_name() {
                            reveal_strlit("numerate_lines");
                        }
                    }
                }
                Ok(EditorAction::Nothing)
            },
        }
    }
}

} // verus!
