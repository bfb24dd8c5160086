use vstd::prelude::*;

pub mod buffers;
pub mod command;
pub mod context;
pub mod cursor_model;
pub mod editor;
pub mod editor_modes;
pub mod escape;
pub mod insert;
pub mod normal;
pub mod render;
pub mod server;
pub mod text;

use crate::text::{decimal, decimal_string, str_eq, string_of};

verus! {

/// What the producer tasks send to the loop that draws frames.
pub enum EditorMessage {
    Close,
    Render(String),
}

/// A key as the terminal reports it.
#[derive(Clone, Copy, PartialEq, Eq, Debug)]
pub enum Key {
    Backspace,
    Left,
    ShiftLeft,
    AltLeft,
    CtrlLeft,
    Right,
    ShiftRight,
    AltRight,
    CtrlRight,
    Up,
    ShiftUp,
    AltUp,
    CtrlUp,
    Down,
    ShiftDown,
    AltDown,
    CtrlDown,
    Home,
    CtrlHome,
    End,
    CtrlEnd,
    PageUp,
    PageDown,
    BackTab,
    Delete,
    Insert,
    F(u8),
    Char(char),
    Alt(char),
    Ctrl(char),
    Null,
    Esc,
}

/// The name of a character inside a key token: whitespace and delete get a word.
pub open spec fn special_key_name(c: Seq<char>) -> Seq<char> {
    if c == "\t"@ {
        "Tab"@
    } else if c == "\n"@ || c == "\r"@ {
        "Enter"@
    } else if c == " "@ {
        "Space"@
    } else if c == "\u{7f}"@ {
        "BS"@
    } else {
        c
    }
}

/// The canonical token of a key (`<c>`, `<C-c>`, `<A-c>`, `<Enter>`, `<F5>`, ...).
pub open spec fn key_token(key: Key) -> Seq<char> {
    match key {
        Key::Char(c) => "<"@ + special_key_name(seq![c]) + ">"@,
        Key::Ctrl(c) => "<C-"@ + special_key_name(seq![c]) + ">"@,
        Key::Alt(c) => "<A-"@ + special_key_name(seq![c]) + ">"@,
        Key::ShiftLeft => "<S-Left>"@,
        Key::ShiftRight => "<S-Right>"@,
        Key::ShiftUp => "<S-Up>"@,
        Key::ShiftDown => "<S-Down>"@,
        Key::CtrlLeft => "<C-Left>"@,
        Key::CtrlRight => "<C-Right>"@,
        Key::CtrlUp => "<C-Up>"@,
        Key::CtrlDown => "<C-Down>"@,
        Key::AltLeft => "<A-Left>"@,
        Key::AltRight => "<A-Right>"@,
        Key::AltUp => "<A-Up>"@,
        Key::AltDown => "<A-Down>"@,
        Key::BackTab => "<S-Tab>"@,
        Key::Backspace => "<BS>"@,
        Key::Insert => "<Ins>"@,
        Key::Delete => "<Del>"@,
        Key::Left => "<Left>"@,
        Key::Right => "<Right>"@,
        Key::Up => "<Up>"@,
        Key::Down => "<Down>"@,
        Key::Home => "<Home>"@,
        Key::End => "<End>"@,
        Key::PageUp => "<PageUp>"@,
        Key::PageDown => "<PageDown>"@,
        Key::Esc => "<Esc>"@,
        Key::F(n) => "<F"@ + decimal(n as nat) + ">"@,
        _ => "<Unknown>"@,
    }
}

/// Wraps the character `c` in `prefix` and `suffix`, naming tab, newline, space and delete.
pub fn match_char_with_special_keys(c: &str, prefix: &str, suffix: &str) -> (r: String)
    ensures
        r@ == prefix@ + special_key_name(c@) + suffix@,
{
    let name: &str = if str_eq(c, "\t") {
        "Tab"
    } else if str_eq(c, "\n") || str_eq(c, "\r") {
        "Enter"
    } else if str_eq(c, " ") {
        "Space"
    } else if str_eq(c, "\u{7f}") {
        "BS"
    } else {
        c
    };
    let mut out = prefix.to_owned();
    out.append(name);
    out.append(suffix);
    out
}

/// The canonical token of a key.
pub fn key_to_string(key: Key) -> (r: String)
    ensures
        r@ == key_token(key),
{
    let fixed: &str = match key {
        Key::Char(c) => {
            let s = string_of(&vec![c]);
            assert(s@ =~= seq![c]);
            return match_char_with_special_keys(s.as_str(), "<", ">");
        },
        Key::Ctrl(c) => {
            let s = string_of(&vec![c]);
            assert(s@ =~= seq![c]);
            return match_char_with_special_keys(s.as_str(), "<C-", ">");
        },
        Key::Alt(c) => {
            let s = string_of(&vec![c]);
            assert(s@ =~= seq![c]);
            return match_char_with_special_keys(s.as_str(), "<A-", ">");
        },
        Key::F(n) => {
            let mut out = "<F".to_owned();
            let digits = decimal_string(n as u64);
            out.append(digits.as_str());
            out.append(">");
            return out;
        },
        Key::ShiftLeft => "<S-Left>",
        Key::ShiftRight => "<S-Right>",
        Key::ShiftUp => "<S-Up>",
        Key::ShiftDown => "<S-Down>",
        Key::CtrlLeft => "<C-Left>",
        Key::CtrlRight => "<C-Right>",
        Key::CtrlUp => "<C-Up>",
        Key::CtrlDown => "<C-Down>",
        Key::AltLeft => "<A-Left>",
        Key::AltRight => "<A-Right>",
        Key::AltUp => "<A-Up>",
        Key::AltDown => "<A-Down>",
        Key::BackTab => "<S-Tab>",
        Key::Backspace => "<BS>",
        Key::Insert => "<Ins>",
        Key::Delete => "<Del>",
        Key::Left => "<Left>",
        Key::Right => "<Right>",
        Key::Up => "<Up>",
        Key::Down => "<Down>",
        Key::Home => "<Home>",
        Key::End => "<End>",
        Key::PageUp => "<PageUp>",
        Key::PageDown => "<PageDown>",
        Key::Esc => "<Esc>",
        _ => "<Unknown>",
    };
    fixed.to_owned()
}

} // verus!
