use vstd::prelude::*;

use crate::editor::Rgb;
use crate::text::decimal;

verus! {

/// Relies on `termion::clear::All` (`AsRef<str>`): the sequence that clears the screen.
#[verifier::external_body]
pub(crate) fn clear_all() -> (r: String)
    ensures
        r@ == "\x1b[2J"@,
{
    let s: &str = termion::clear::All.as_ref();
    s.to_owned()
}

/// Relies on `termion::cursor::Hide` (`AsRef<str>`): the sequence that hides the cursor.
#[verifier::external_body]
pub(crate) fn cursor_hide() -> (r: String)
    ensures
        r@ == "\x1b[?25l"@,
{
    let s: &str = termion::cursor::Hide.as_ref();
    s.to_owned()
}

/// Relies on `termion::cursor::Show` (`AsRef<str>`): the sequence that shows the cursor.
#[verifier::external_body]
pub(crate) fn cursor_show() -> (r: String)
    ensures
        r@ == "\x1b[?25h"@,
{
    let s: &str = termion::cursor::Show.as_ref();
    s.to_owned()
}

/// The sequence that moves the cursor to column `x`, row `y` (one-based).
pub open spec fn goto_code(x: u16, y: u16) -> Seq<char> {
    "\x1b["@ + decimal(y as nat) + ";"@ + decimal(x as nat) + "H"@
}

/// Relies on `From<termion::cursor::Goto> for String`: `ESC [ y ; x H` in decimal.
#[verifier::external_body]
pub(crate) fn goto(x: u16, y: u16) -> (r: String)
    ensures
        r@ == goto_code(x, y),
{
    String::from(termion::cursor::Goto(x, y))
}

/// The truecolor sequence with the given selector (`38` foreground, `48` background).
pub open spec fn rgb_code(selector: Seq<char>, c: Rgb) -> Seq<char> {
    "\x1b["@ + selector + ";2;"@ + decimal(c.0 as nat) + ";"@ + decimal(c.1 as nat) + ";"@
        + decimal(c.2 as nat) + "m"@
}

/// Relies on `termion::color::Rgb::fg_string`: `ESC [ 38;2;r;g;b m` in decimal.
#[verifier::external_body]
pub(crate) fn rgb_fg(c: Rgb) -> (r: String)
    ensures
        r@ == rgb_code("38"@, c),
{
    termion::color::Rgb(c.0, c.1, c.2).fg_string()
}

/// Relies on `termion::color::Rgb::bg_string`: `ESC [ 48;2;r;g;b m` in decimal.
#[verifier::external_body]
pub(crate) fn rgb_bg(c: Rgb) -> (r: String)
    ensures
        r@ == rgb_code("48"@, c),
{
    termion::color::Rgb(c.0, c.1, c.2).bg_string()
}

/// Relies on `termion::color::Reset::fg_str`: the default foreground.
#[verifier::external_body]
pub(crate) fn reset_fg() -> (r: String)
    ensures
        r@ == "\x1b[39m"@,
{
    termion::color::Reset.fg_str().to_owned()
}

/// Relies on `termion::color::Reset::bg_str`: the default background.
#[verifier::external_body]
pub(crate) fn reset_bg() -> (r: String)
    ensures
        r@ == "\x1b[49m"@,
{
    termion::color::Reset.bg_str().to_owned()
}

/// Relies on `termion::color::Red::fg_str`: palette color 1 as foreground.
#[verifier::external_body]
pub(crate) fn red_fg() -> (r: String)
    ensures
        r@ == "\x1b[38;5;1m"@,
{
    termion::color::Red.fg_str().to_owned()
}

/// Relies on `termion::color::Yellow::fg_str`: palette color 3 as foreground.
#[verifier::external_body]
pub(crate) fn yellow_fg() -> (r: String)
    ensures
        r@ == "\x1b[38;5;3m"@,
{
    termion::color::Yellow.fg_str().to_owned()
}

/// Relies on `termion::color::Cyan::fg_str`: palette color 6 as foreground.
#[verifier::external_body]
pub(crate) fn cyan_fg() -> (r: String)
    ensures
        r@ == "\x1b[38;5;6m"@,
{
    termion::color::Cyan.fg_str().to_owned()
}

} // verus!
