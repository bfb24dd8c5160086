use vstd::prelude::*;

use crate::buffers::editor_buffer::{
    insert_key_effect, key_applied, match_editor_mode as text_keys, normal_key_effect, KeyEffect,
};
use crate::buffers::explorer_buffer::{explorer_key_effect, match_editor_mode as listing_keys};
use crate::command::{command_key_applied, match_keys_command};
use crate::editor::{BufferKind, Editor, EditorAction, EditorError};

verus! {

/// The modal state of the editor.
#[derive(Clone, Copy, PartialEq, Eq, Debug)]
pub enum EditorMode {
    Visual,
    Insert,
    Command,
    Normal,
}

impl EditorMode {
    pub open spec fn spec_name(self) -> Seq<char> {
        match self {
            EditorMode::Visual => "Visual"@,
            EditorMode::Insert => "Insert"@,
            EditorMode::Command => "Command"@,
            EditorMode::Normal => "Normal"@,
        }
    }

    /// The display name of the mode.
    pub fn name(&self) -> (r: &'static str)
        ensures
            r@ == self.spec_name(),
    {
        match self {
            EditorMode::Visual => "Visual",
            EditorMode::Insert => "Insert",
            EditorMode::Command => "Command",
            EditorMode::Normal => "Normal",
        }
    }
}

/// What a key does to a buffer of `kind` while the editor is in `mode`; `None` when
/// that buffer ignores keys in that mode.
pub open spec fn buffer_key_effect(kind: BufferKind, mode: EditorMode, key: Seq<char>) -> Option<KeyEffect> {
    match kind {
        BufferKind::Main => match mode {
            EditorMode::Insert => Some(insert_key_effect(key)),
            EditorMode::Normal => Some(normal_key_effect(key)),
            _ => None,
        },
        BufferKind::Explorer => match mode {
            EditorMode::Normal => Some(explorer_key_effect(key)),
            _ => None,
        },
        BufferKind::Auxiliary => None,
    }
}

/// `new` is `old` after the focused buffer's handler took `key`.
pub open spec fn handler_applied(old: &Editor, new: &Editor, key: Seq<char>, r: Result<(), EditorError>) -> bool {
    match old.find_index(old.focus_buffer@) {
        None => r is Err && *new == *old,
        Some(fi) => match buffer_key_effect(old.buffers@[fi].1.kind, old.editor_mode, key) {
            Some(effect) => key_applied(old, new, effect, r),
            None => r is Ok && *new == *old,
        },
    }
}

/// `new` is `old` after `key` was run as `mode` asks: Command-mode keys edit and run
/// commands, the others go to the focused buffer's handler.
pub open spec fn key_executed(old: &Editor, new: &Editor, mode: EditorMode, key: Seq<char>, r: Result<EditorAction, EditorError>) -> bool {
    if mode == EditorMode::Command {
        command_key_applied(old, new, key, r)
    } else {
        match r {
            Ok(a) => a is Nothing && handler_applied(old, new, key, Ok(())),
            Err(e) => handler_applied(old, new, key, Err(e)),
        }
    }
}

/// Running a key in a mode.
pub trait ExecuteKey {
    fn execute_key(self, key: &str, editor: &mut Editor) -> (r: Result<EditorAction, EditorError>)
        requires
            old(editor).wf(),
        ensures
            final(editor).wf(),
    ;
}

impl ExecuteKey for EditorMode {
    /// Runs `key` as this mode asks.
    fn execute_key(self, key: &str, editor: &mut Editor) -> (r: Result<EditorAction, EditorError>)
        ensures
            key_executed(&*old(editor), &*final(editor), self, key@, r),
    {
        editor.execute_key_in(self, key)
    }
}

impl Editor {
    /// Hands `key` to the focused buffer's handler.
    pub fn invoke_buffer_handler(&mut self, key: &str) -> (r: Result<(), EditorError>)
        requires
            old(self).wf(),
        ensures
            final(self).wf(),
            handler_applied(&*old(self), &*final(self), key@, r),
    {
        match self.find_buffer(self.focus_buffer.as_str()) {
            None => {
                proof {
                    if let Some(k) = self.find_index(self.focus_buffer@) {
                        assert(self.names()[k] == self.focus_buffer@);
                    }
                }
                Err(EditorError::MissingBuffer(self.focus_buffer.clone()))
            },
            Some(fi) => {
                proof {
                    self.lemma_find_index(self.focus_buffer@, fi as int);
                }
                match self.buffers[fi].1.kind {
                    BufferKind::Main => text_keys(self, key),
                    BufferKind::Explorer => listing_keys(self, key),
                    BufferKind::Auxiliary => Ok(()),
                }
            },
        }
    }

    /// Runs `key` as `mode` asks.
    pub fn execute_key_in(&mut self, mode: EditorMode, key: &str) -> (r: Result<EditorAction, EditorError>)
        requires
            old(self).wf(),
        ensures
            final(self).wf(),
            key_executed(&*old(self), &*final(self), mode, key@, r),
    {
        match mode {
            EditorMode::Command => match_keys_command(self, key),
            _ => match self.invoke_buffer_handler(key) {
                Ok(()) => Ok(EditorAction::Nothing),
                Err(e) => Err(e),
            },
        }
    }

    /// Runs `key` in the current mode.
    pub fn execute_key(&mut self, key: &str) -> (r: Result<EditorAction, EditorError>)
        requires
            old(self).wf(),
        ensures
            final(self).wf(),
            key_executed(&*old(self), &*final(self), old(self).editor_mode, key@, r),
    {
        let mode = self.editor_mode;
        self.execute_key_in(mode, key)
    }
}

} // verus!
