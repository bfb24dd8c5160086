use vstd::prelude::*;

use crate::buffers::editor_buffer::{bracketed_char, history};
use crate::editor::{terminated, Editor, EditorAction, EditorError};
use crate::editor_modes::EditorMode;
use crate::escape::{red_fg, reset_fg};
use crate::text::{chars_of, str_eq, string_of};

verus! {

pub open spec fn saved_message(path: Seq<char>) -> Seq<char> {
    "File saved: "@ + path
}

pub open spec fn failed_message(error: Seq<char>) -> Seq<char> {
    "Failed to save file: "@ + error
}

/// The history line for the outcome of a save to `path`.
pub open spec fn save_report(path: Seq<char>, outcome: Result<(), String>) -> Seq<char> {
    match outcome {
        Ok(_) => saved_message(path),
        Err(e) => failed_message(e@),
    }
}

pub open spec fn no_file_error() -> Seq<char> {
    "No file name specified"@
}

/// The history line for an unknown command, drawn in red.
pub open spec fn not_found_message(command: Seq<char>) -> Seq<char> {
    "\x1b[38;5;1m"@ + "Command \""@ + command + "\" not found."@ + "\x1b[39m"@
}

/// `s` without its last `.`-separated segment (and that `.`); empty if it has no `.`.
pub open spec fn cut_last_segment(s: Seq<char>) -> Seq<char>
    decreases s.len(),
{
    if s.len() == 0 {
        s
    } else if s.last() == '.' {
        s.drop_last()
    } else {
        cut_last_segment(s.drop_last())
    }
}

/// Nothing but the history and the mode differ between `old` and `new`.
pub open spec fn only_history_changed(old: &Editor, new: &Editor) -> bool {
    &&& new.buffers@ == old.buffers@
    &&& new.buffers_to_show@ == old.buffers_to_show@
    &&& new.focus_buffer == old.focus_buffer
    &&& new.close == old.close
    &&& new.terminal_size == old.terminal_size
}

/// The history ends with `lines`, in order, after what `old` had; back to Normal mode.
pub open spec fn reported(old: &Editor, new: &Editor, lines: Seq<Seq<char>>) -> bool {
    &&& only_history_changed(old, new)
    &&& history(new) == history(old) + lines
    &&& new.editor_mode == EditorMode::Normal
}

/// `new` is `old` after running the command named `command`.
pub open spec fn command_applied(old: &Editor, new: &Editor, command: Seq<char>, r: Result<EditorAction, EditorError>) -> bool {
    if command == "q"@ {
        &&& r matches Ok(EditorAction::Quit)
        &&& new.close
        &&& new.buffers@ == old.buffers@
        &&& new.buffers_to_show@ == old.buffers_to_show@
        &&& new.focus_buffer == old.focus_buffer
        &&& new.terminal_size == old.terminal_size
        &&& new.editor_mode == old.editor_mode
        &&& new.commands_hist@ == old.commands_hist@
    } else if command == "w"@ {
        match old.find_index(old.focus_buffer@) {
            None => {
                &&& r is Err
                &&& *new == *old
            },
            Some(fi) => match old.buffers@[fi].1.file_name {
                None => {
                    &&& r matches Ok(EditorAction::Nothing)
                    &&& reported(old, new, seq![failed_message(no_file_error()), Seq::empty()])
                },
                Some(path) => {
                    &&& *new == *old
                    &&& match r {
                        Ok(EditorAction::Save { path: p, text }) => p@ == path@ && text@ == terminated(old.buffers@[fi].1.lines()),
                        _ => false,
                    }
                },
            },
        }
    } else {
        &&& r matches Ok(EditorAction::Nothing)
        &&& reported(old, new, seq![not_found_message(command), Seq::empty()])
    }
}

/// Runs the command named `command`: `q` asks to quit, `w` asks to save the focused
/// buffer to its file, anything else is reported as not found.
pub fn execute_assignated_command(editor: &mut Editor, command: &str) -> (r: Result<EditorAction, EditorError>)
    requires
        old(editor).wf(),
    ensures
        final(editor).wf(),
        command_applied(&*old(editor), &*final(editor), command@, r),
{
    if str_eq(command, "q") {
        editor.close_editor();
        return Ok(EditorAction::Quit);
    }
    if str_eq(command, "w") {
        let fi = match editor.find_buffer(editor.focus_buffer.as_str()) {
            Some(i) => i,
            None => {
                proof {
                    if let Some(k) = editor.find_index(editor.focus_buffer@) {
                        assert(editor.names()[k] == editor.focus_buffer@);
                    }
                }
                return Err(EditorError::MissingBuffer(editor.focus_buffer.clone()));
            },
        };
        proof {
            editor.lemma_find_index(editor.focus_buffer@, fi as int);
        }
        match &editor.buffers[fi].1.file_name {
            Some(path) => {
                let text = editor.buffers[fi].1.file_text();
                return Ok(EditorAction::Save { path: path.clone(), text });
            },
            None => {
                let mut message = "Failed to save file: ".to_owned();
                message.append("No file name specified");
                editor.commands_hist.push(message);
                editor.commands_hist.push(String::new());
                editor.editor_mode = EditorMode::Normal;
                assert(history(editor) =~= history(old(editor)) + seq![failed_message(no_file_error()), Seq::empty()]);
                return Ok(EditorAction::Nothing);
            },
        }
    }
    let mut message = red_fg();
    message.append("Command \"");
    message.append(command);
    message.append("\" not found.");
    let reset = reset_fg();
    message.append(reset.as_str());
    editor.commands_hist.push(message);
    editor.commands_hist.push(String::new());
    editor.editor_mode = EditorMode::Normal;
    assert(history(editor) =~= history(old(editor)) + seq![not_found_message(command@), Seq::empty()]);
    Ok(EditorAction::Nothing)
}

impl Editor {
    /// Records how a save asked for by `w` went: a confirmation naming `path`, or the
    /// error; then a blank line, and Normal mode.
    pub fn finish_save(&mut self, path: &str, outcome: Result<(), String>)
        requires
            old(self).wf(),
        ensures
            final(self).wf(),
            reported(&*old(self), &*final(self), seq![save_report(path@, outcome), Seq::empty()]),
    {
        let ghost expected = save_report(path@, outcome);
        let message = match outcome {
            Ok(_) => {
                let mut m = "File saved: ".to_owned();
                m.append(path);
                assert(m@ == saved_message(path@));
                m
            },
            Err(e) => {
                let mut m = "Failed to save file: ".to_owned();
                m.append(e.as_str());
                assert(m@ == failed_message(e@));
                m
            },
        };
        self.commands_hist.push(message);
        self.commands_hist.push(String::new());
        self.editor_mode = EditorMode::Normal;
        assert(message@ == expected);
        assert(history(self) =~= history(old(self)) + seq![expected, Seq::empty()]);
    }
}

/// `s` without its last `.`-separated segment.
fn cut_last_segment_exec(s: &str) -> (r: String)
    ensures
        r@ == cut_last_segment(s@),
{
    let mut chars = chars_of(s);
    let ghost whole = chars@;
    while chars.len() > 0
        invariant
            whole == s@,
            cut_last_segment(chars@) == cut_last_segment(whole),
        decreases chars@.len(),
    {
        let ghost before = chars@;
        let last = chars.pop();
        if last == Some('.') {
            assert(before.last() == '.');
            assert(chars@ == before.drop_last());
            assert(cut_last_segment(before) == before.drop_last());
            return string_of(&chars);
        }
    }
    string_of(&chars)
}

/// The last history entry after a key that edits it; `None` for a key that does not.
pub open spec fn edited_entry(last: Seq<char>, key: Seq<char>) -> Option<Seq<char>> {
    if key == "<BS>"@ {
        Some(if last.len() > 0 { last.drop_last() } else { last })
    } else if key == "<C-h>"@ {
        Some(cut_last_segment(last))
    } else if bracketed_char(key) {
        Some(last.push(key[1]))
    } else if key == "<Space>"@ {
        Some(last.push(' '))
    } else {
        None
    }
}

/// `new` is `old` after `key` in Command mode: Enter runs the typed command; Backspace,
/// Ctrl-h, characters and Space edit it; any other key cancels it and returns to Normal.
pub open spec fn command_key_applied(old: &Editor, new: &Editor, key: Seq<char>, r: Result<EditorAction, EditorError>) -> bool {
    let h = history(old);
    if h.len() == 0 {
        &&& r matches Ok(EditorAction::Nothing)
        &&& *new == *old
    } else if key == "<Enter>"@ {
        command_applied(old, new, h.last(), r)
    } else {
        &&& r matches Ok(EditorAction::Nothing)
        &&& only_history_changed(old, new)
        &&& match edited_entry(h.last(), key) {
            Some(entry) => history(new) == h.drop_last().push(entry) && new.editor_mode == old.editor_mode,
            None => history(new) == h.drop_last().push(Seq::empty()) && new.editor_mode == EditorMode::Normal,
        }
    }
}

/// Keys in Command mode.
pub fn match_keys_command(editor: &mut Editor, key: &str) -> (r: Result<EditorAction, EditorError>)
    requires
        old(editor).wf(),
    ensures
        final(editor).wf(),
        command_key_applied(&*old(editor), &*final(editor), key@, r),
{
    let n = editor.commands_hist.len();
    if n == 0 {
        return Ok(EditorAction::Nothing);
    }
    let last = editor.commands_hist[n - 1].clone();
    assert(last@ == history(editor).last());
    if str_eq(key, "<Enter>") {
        return execute_assignated_command(editor, last.as_str());
    }
    let entry: String = if str_eq(key, "<BS>") {
        let mut chars = chars_of(last.as_str());
        let _ = chars.pop();
        string_of(&chars)
    } else if str_eq(key, "<C-h>") {
        cut_last_segment_exec(last.as_str())
    } else if key.unicode_len() == 3 && key.get_char(0) == '<' && key.get_char(2) == '>' {
        let mut chars = chars_of(last.as_str());
        chars.push(key.get_char(1));
        string_of(&chars)
    } else if str_eq(key, "<Space>") {
        let mut chars = chars_of(last.as_str());
        chars.push(' ');
        string_of(&chars)
    } else {
        editor.editor_mode = EditorMode::Normal;
        String::new()
    };
    let _ = editor.commands_hist.pop();
    editor.commands_hist.push(entry);
    assert(history(editor) =~= history(old(editor)).drop_last().push(entry@));
    Ok(EditorAction::Nothing)
}

} // verus!
