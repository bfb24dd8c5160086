use vstd::prelude::*;

use crate::editor::{ColorRange, Editor, EditorBuffer, Rgb};
use crate::editor_modes::EditorMode;
use crate::escape::{
    clear_all, cursor_hide, cursor_show, cyan_fg, goto, goto_code, reset_bg, reset_fg, rgb_bg, rgb_code, rgb_fg,
    yellow_fg,
};
use crate::text::{chars_of, push_all, string_of};

verus! {

pub open spec fn fg_code(c: Rgb) -> Seq<char> {
    rgb_code("38"@, c)
}

pub open spec fn bg_code(c: Rgb) -> Seq<char> {
    rgb_code("48"@, c)
}

/// Default background, then default foreground.
pub open spec fn reset_code() -> Seq<char> {
    "\x1b[49m"@ + "\x1b[39m"@
}

pub open spec fn range_bg(r: ColorRange) -> Rgb {
    match r.bg_color {
        Some(c) => c,
        None => Rgb(0, 0, 0),
    }
}

pub open spec fn range_fg(r: ColorRange) -> Rgb {
    match r.fg_color {
        Some(c) => c,
        None => Rgb(255, 255, 255),
    }
}

/// A cell outside any style: the character, in reverse video under a cursor.
pub open spec fn plain_cell(ch: char, cursor: bool) -> Seq<char> {
    if cursor {
        fg_code(Rgb(0, 0, 0)) + bg_code(Rgb(255, 255, 255)) + seq![ch] + reset_code()
    } else {
        seq![ch]
    }
}

/// The first cell of a style: its colors are set (background color as foreground and
/// foreground color as background). Under a cursor the cell is drawn with those colors
/// reversed, and the style's colors are set after it.
pub open spec fn start_cell(ch: char, bg: Rgb, fg: Rgb, cursor: bool) -> Seq<char> {
    if cursor {
        fg_code(fg) + bg_code(bg) + seq![ch] + fg_code(bg) + bg_code(fg)
    } else {
        fg_code(bg) + bg_code(fg) + seq![ch]
    }
}

/// A cell inside a style: the character, or under a cursor the character in the
/// style's colors reversed, after which the style's colors are restored.
pub open spec fn inside_cell(ch: char, bg: Rgb, fg: Rgb, cursor: bool) -> Seq<char> {
    if cursor {
        fg_code(fg) + bg_code(bg) + seq![ch] + fg_code(bg) + bg_code(fg)
    } else {
        seq![ch]
    }
}

/// The cell at column `j` while style `k` of `ranges` is the next to start or end:
/// its text, and the style that comes next. A style's colors are set where it starts,
/// or at the first visible column (`opening`) when the style began before it, and
/// reset where it ends; a cursor cell is drawn in reverse video.
pub open spec fn draw_cell(ch: char, j: int, ranges: Seq<ColorRange>, k: int, cursor: bool, opening: bool) -> (Seq<char>, int) {
    if 0 <= k < ranges.len() {
        let r = ranges[k];
        let bg = range_bg(r);
        let fg = range_fg(r);
        if j == r.range.0 || (opening && r.range.0 < j < r.range.1) {
            (start_cell(ch, bg, fg, cursor), k)
        } else if j == r.range.1 {
            (reset_code() + plain_cell(ch, cursor), k + 1)
        } else if r.range.0 < j {
            (inside_cell(ch, bg, fg, cursor), k)
        } else {
            (plain_cell(ch, cursor), k)
        }
    } else {
        (plain_cell(ch, cursor), k)
    }
}

/// Whether one of the cursors `ps` stands at column `col` of row `row`.
pub open spec fn cursor_at(ps: Seq<(u16, u16)>, row: int, col: int) -> bool {
    exists|k: int| 0 <= k < ps.len() && ps[k].1 as int == row && ps[k].0 as int == col
}

/// Cells `j .. stop` of `chars` (those that exist) on row `row`, whose first visible
/// column is `first`, with the cursors `ps`.
pub open spec fn draw_cells(
    chars: Seq<char>,
    j: int,
    stop: int,
    ranges: Seq<ColorRange>,
    k: int,
    ps: Seq<(u16, u16)>,
    row: int,
    first: int,
) -> Seq<char>
    decreases stop - j,
{
    if j < 0 || j >= stop || j >= chars.len() {
        Seq::empty()
    } else {
        let cell = draw_cell(chars[j], j, ranges, k, cursor_at(ps, row, j), j == first);
        cell.0 + draw_cells(chars, j + 1, stop, ranges, cell.1, ps, row, first)
    }
}

/// The first of the styles from the `k`-th on that does not end before column `col`.
pub open spec fn first_live(ranges: Seq<ColorRange>, col: int, k: int) -> int
    decreases ranges.len() - k,
{
    if 0 <= k < ranges.len() && (ranges[k].range.1 as int) < col {
        first_live(ranges, col, k + 1)
    } else {
        k
    }
}

/// The styles of line `i` (none if the buffer has no entry for it).
pub open spec fn styles_of_line(b: &EditorBuffer, i: int) -> Seq<ColorRange> {
    if 0 <= i < b.styles().len() {
        b.styles()[i]
    } else {
        Seq::empty()
    }
}

/// Line `i` of a buffer: moved to its place in the window, the visible columns
/// `[pivot.col, pivot.col + width]` of the line plus one trailing space (so that a
/// cursor at the end shows), then colors reset. The styles that end before the first
/// visible column are passed over; `ps` are the cursors to draw.
pub open spec fn draw_row(b: &EditorBuffer, i: int, ps: Seq<(u16, u16)>) -> Seq<char> {
    let chars = b.lines()[i] + seq![' '];
    let ranges = styles_of_line(b, i);
    goto_code(b.buffer_window.start.0, (b.buffer_window.start.1 + i - b.pivot.1) as u16)
        + draw_cells(
            chars,
            b.pivot.0 as int,
            b.pivot.0 + b.buffer_window.width() + 1,
            ranges,
            first_live(ranges, b.pivot.0 as int, 0),
            ps,
            i,
            b.pivot.0 as int,
        )
        + reset_code()
}

/// The cursors drawn: all of the buffer's, none in Command mode.
pub open spec fn drawn_cursors(b: &EditorBuffer, mode: EditorMode) -> Seq<(u16, u16)> {
    if mode == EditorMode::Command {
        Seq::empty()
    } else {
        b.positions()
    }
}

/// Lines `i .. stop` of a buffer (those that exist).
pub open spec fn draw_rows(b: &EditorBuffer, i: int, stop: int, mode: EditorMode) -> Seq<char>
    decreases stop - i,
{
    if i < 0 || i >= stop || i >= b.lines().len() {
        Seq::empty()
    } else {
        draw_row(b, i, drawn_cursors(b, mode)) + draw_rows(b, i + 1, stop, mode)
    }
}

/// The visible lines of a buffer: rows `[pivot.row, pivot.row + height]`.
pub open spec fn draw_buffer(b: &EditorBuffer, mode: EditorMode) -> Seq<char> {
    draw_rows(b, b.pivot.1 as int, b.pivot.1 + b.buffer_window.height() + 1, mode)
}

/// The first `n` buffers named in `buffers_to_show`, in order; a name with no buffer draws nothing.
pub open spec fn draw_shown(e: &Editor, n: int) -> Seq<char>
    decreases n,
{
    if n <= 0 || n > e.buffers_to_show@.len() {
        Seq::empty()
    } else {
        draw_shown(e, n - 1) + match e.find_index(e.buffers_to_show@[n - 1]@) {
            Some(i) => draw_buffer(&e.buffers@[i].1, e.editor_mode),
            None => Seq::empty(),
        }
    }
}

/// The status line: the typed command in Command mode, a banner in Insert and Visual,
/// the outcome of the last command in Normal mode.
pub open spec fn status_line(e: &Editor) -> Seq<char> {
    let h = e.commands_hist@;
    match e.editor_mode {
        EditorMode::Command => "Command: "@ + (if h.len() > 0 { h.last()@ } else { Seq::empty() }) + "\x1b[?25h"@,
        EditorMode::Visual => "\x1b[38;5;6m"@ + "--VISUAL--"@ + "\x1b[39m"@,
        EditorMode::Insert => "\x1b[38;5;3m"@ + "--INSERT--"@ + "\x1b[39m"@,
        EditorMode::Normal => if h.len() >= 2 { h[h.len() - 2]@ } else { Seq::empty() },
    }
}

/// The column where a right-aligned text of `n` characters starts.
pub open spec fn right_align(width: u16, n: int) -> u16 {
    if (width as int) > n { (width - n) as u16 } else { 0 }
}

/// A whole frame: clear, hide the cursor, the shown buffers, the status line on the
/// last row, then `info` right-aligned over it (drawn last, it wins where they meet).
pub open spec fn frame(e: &Editor, info: Seq<char>) -> Seq<char> {
    "\x1b[2J"@ + goto_code(1, 1) + "\x1b[?25l"@ + draw_shown(e, e.buffers_to_show@.len() as int)
        + goto_code(1, e.terminal_size.1) + status_line(e)
        + goto_code(right_align(e.terminal_size.0, info.len() as int), e.terminal_size.1) + info
}

/// Appends the characters of `s`.
fn emit(out: &mut Vec<char>, s: &str)
    ensures
        final(out)@ == old(out)@ + s@,
{
    let chars = chars_of(s);
    push_all(out, &chars);
}

fn start_exec(out: &mut Vec<char>, ch: char, bg: Rgb, fg: Rgb, cursor: bool)
    ensures
        final(out)@ == old(out)@ + start_cell(ch, bg, fg, cursor),
{
    let ghost start = out@;
    if cursor {
        emit(out, rgb_fg(fg).as_str());
        emit(out, rgb_bg(bg).as_str());
        out.push(ch);
        emit(out, rgb_fg(bg).as_str());
        emit(out, rgb_bg(fg).as_str());
    } else {
        emit(out, rgb_fg(bg).as_str());
        emit(out, rgb_bg(fg).as_str());
        out.push(ch);
    }
    assert(out@ =~= start + start_cell(ch, bg, fg, cursor));
}

fn inside_exec(out: &mut Vec<char>, ch: char, bg: Rgb, fg: Rgb, cursor: bool)
    ensures
        final(out)@ == old(out)@ + inside_cell(ch, bg, fg, cursor),
{
    let ghost start = out@;
    if cursor {
        emit(out, rgb_fg(fg).as_str());
        emit(out, rgb_bg(bg).as_str());
        out.push(ch);
        emit(out, rgb_fg(bg).as_str());
        emit(out, rgb_bg(fg).as_str());
    } else {
        out.push(ch);
    }
    assert(out@ =~= start + inside_cell(ch, bg, fg, cursor));
}

fn end_exec(out: &mut Vec<char>, ch: char, cursor: bool)
    ensures
        final(out)@ == old(out)@ + (reset_code() + plain_cell(ch, cursor)),
{
    let ghost start = out@;
    emit(out, reset_bg().as_str());
    emit(out, reset_fg().as_str());
    plain_exec(out, ch, cursor);
    assert(out@ =~= start + (reset_code() + plain_cell(ch, cursor)));
}

fn cell_exec(out: &mut Vec<char>, ch: char, j: usize, ranges: &Vec<ColorRange>, k: usize, cursor: bool, opening: bool) -> (next: usize)
    ensures
        final(out)@ == old(out)@ + draw_cell(ch, j as int, ranges@, k as int, cursor, opening).0,
        next as int == draw_cell(ch, j as int, ranges@, k as int, cursor, opening).1,
        next <= k + 1,
{
    if k < ranges.len() {
        let r = ranges[k];
        let bg = match r.bg_color { Some(c) => c, None => Rgb(0, 0, 0) };
        let fg = match r.fg_color { Some(c) => c, None => Rgb(255, 255, 255) };
        assert(bg == range_bg(r) && fg == range_fg(r));
        if j == r.range.0 as usize || (opening && (r.range.0 as usize) < j && j < r.range.1 as usize) {
            start_exec(out, ch, bg, fg, cursor);
            k
        } else if j == r.range.1 as usize {
            end_exec(out, ch, cursor);
            k + 1
        } else if (r.range.0 as usize) < j {
            inside_exec(out, ch, bg, fg, cursor);
            k
        } else {
            plain_exec(out, ch, cursor);
            k
        }
    } else {
        plain_exec(out, ch, cursor);
        k
    }
}

fn plain_exec(out: &mut Vec<char>, ch: char, cursor: bool)
    ensures
        final(out)@ == old(out)@ + plain_cell(ch, cursor),
{
    let ghost start = out@;
    if cursor {
        emit(out, rgb_fg(Rgb(0, 0, 0)).as_str());
        emit(out, rgb_bg(Rgb(255, 255, 255)).as_str());
        out.push(ch);
        emit(out, reset_bg().as_str());
        emit(out, reset_fg().as_str());
        assert(out@ =~= start + plain_cell(ch, cursor));
    } else {
        out.push(ch);
    }
}

/// Whether a cursor of `b` stands at (`col`, `row`) and cursors are drawn.
fn cursor_at_exec(b: &EditorBuffer, row: usize, col: usize, show: bool) -> (r: bool)
    ensures
        r == (show && cursor_at(b.positions(), row as int, col as int)),
{
    if !show {
        return false;
    }
    let mut i: usize = 0;
    while i < b.cursors.len()
        invariant
            show,
            0 <= i <= b.cursors@.len(),
            forall|k: int| 0 <= k < i ==> !(b.positions()[k].1 as int == row && b.positions()[k].0 as int == col),
        decreases b.cursors@.len() - i,
    {
        let p = b.cursors[i].position;
        assert(p == b.positions()[i as int]);
        if p.1 as usize == row && p.0 as usize == col {
            assert(b.positions()[i as int].1 as int == row as int && b.positions()[i as int].0 as int == col as int);
            return true;
        }
        i += 1;
    }
    false
}

fn first_live_exec(ranges: &Vec<ColorRange>, col: usize) -> (k: usize)
    ensures
        k == first_live(ranges@, col as int, 0),
        k <= ranges@.len(),
{
    let mut k: usize = 0;
    while k < ranges.len() && (ranges[k].range.1 as usize) < col
        invariant
            0 <= k <= ranges@.len(),
            first_live(ranges@, col as int, k as int) == first_live(ranges@, col as int, 0),
        decreases ranges@.len() - k,
    {
        k += 1;
    }
    k
}

fn cells_exec(
    out: &mut Vec<char>,
    chars: &Vec<char>,
    from: usize,
    stop: usize,
    ranges: &Vec<ColorRange>,
    b: &EditorBuffer,
    row: usize,
    show: bool,
)
    ensures
        final(out)@ == old(out)@ + draw_cells(
            chars@,
            from as int,
            stop as int,
            ranges@,
            first_live(ranges@, from as int, 0),
            if show { b.positions() } else { Seq::empty() },
            row as int,
            from as int,
        ),
{
    let ghost ps = if show { b.positions() } else { Seq::<(u16, u16)>::empty() };
    let k0 = first_live_exec(ranges, from);
    let ghost whole = draw_cells(chars@, from as int, stop as int, ranges@, k0 as int, ps, row as int, from as int);
    let mut j: usize = from;
    let mut k: usize = k0;
    while j < stop && j < chars.len()
        invariant
            from <= j,
            k <= k0 + (j - from),
            k0 <= ranges@.len(),
            ps == (if show { b.positions() } else { Seq::<(u16, u16)>::empty() }),
            old(out)@ + whole == out@ + draw_cells(chars@, j as int, stop as int, ranges@, k as int, ps, row as int, from as int),
        decreases stop - j,
    {
        let at_cursor = cursor_at_exec(b, row, j, show);
        assert(at_cursor == cursor_at(ps, row as int, j as int));
        let ghost before = out@;
        let ghost cell = draw_cell(chars@[j as int], j as int, ranges@, k as int, at_cursor, j == from);
        let next = cell_exec(out, chars[j], j, ranges, k, at_cursor, j == from);
        proof {
            assert(draw_cells(chars@, j as int, stop as int, ranges@, k as int, ps, row as int, from as int)
                == cell.0 + draw_cells(chars@, j + 1, stop as int, ranges@, next as int, ps, row as int, from as int));
            assert(out@ == before + cell.0);
            assert(before + (cell.0 + draw_cells(chars@, j + 1, stop as int, ranges@, next as int, ps, row as int, from as int))
                =~= out@ + draw_cells(chars@, j + 1, stop as int, ranges@, next as int, ps, row as int, from as int));
        }
        j += 1;
        k = next;
    }
    assert(out@ =~= old(out)@ + whole);
}

fn row_exec(out: &mut Vec<char>, b: &EditorBuffer, i: usize, show: bool)
    requires
        b.wf(),
        i < b.lines().len(),
        b.pivot.1 <= i <= b.pivot.1 + b.buffer_window.height(),
    ensures
        final(out)@ == old(out)@ + draw_row(b, i as int, if show { b.positions() } else { Seq::empty() }),
{
    let ghost start = out@;
    let w = (b.buffer_window.end.0 - b.buffer_window.start.0) as usize;
    let y: u16 = b.buffer_window.start.1 + (i as u16 - b.pivot.1);
    emit(out, goto(b.buffer_window.start.0, y).as_str());
    let mut chars = chars_of(b.content[i].as_str());
    chars.push(' ');
    let none: Vec<ColorRange> = Vec::new();
    let ranges: &Vec<ColorRange> = if i < b.colors.len() { &b.colors[i] } else { &none };
    assert(ranges@ == styles_of_line(b, i as int));
    cells_exec(out, &chars, b.pivot.0 as usize, b.pivot.0 as usize + w + 1, ranges, b, i, show);
    emit(out, reset_bg().as_str());
    emit(out, reset_fg().as_str());
    assert(chars@ == b.lines()[i as int] + seq![' ']);
    assert(out@ =~= start + draw_row(b, i as int, if show { b.positions() } else { Seq::empty() }));
}

fn buffer_exec(out: &mut Vec<char>, b: &EditorBuffer, mode: EditorMode)
    requires
        b.wf(),
    ensures
        final(out)@ == old(out)@ + draw_buffer(b, mode),
{
    let ghost whole = draw_buffer(b, mode);
    let h = (b.buffer_window.end.1 - b.buffer_window.start.1) as usize;
    let stop = b.pivot.1 as usize + h + 1;
    let mut i = b.pivot.1 as usize;
    while i < stop && i < b.content.len()
        invariant
            b.wf(),
            b.pivot.1 <= i,
            stop == b.pivot.1 + b.buffer_window.height() + 1,
            old(out)@ + whole == out@ + draw_rows(b, i as int, stop as int, mode),
        decreases stop - i,
    {
        let show = match mode {
            EditorMode::Command => false,
            _ => true,
        };
        assert(drawn_cursors(b, mode) == if show { b.positions() } else { Seq::empty() });
        let ghost before = out@;
        row_exec(out, b, i, show);
        proof {
            assert(before + draw_rows(b, i as int, stop as int, mode)
                =~= out@ + draw_rows(b, i + 1, stop as int, mode));
        }
        i += 1;
    }
    assert(out@ =~= old(out)@ + whole);
}

fn status_exec(out: &mut Vec<char>, e: &Editor)
    ensures
        final(out)@ == old(out)@ + status_line(e),
{
    let ghost start = out@;
    let n = e.commands_hist.len();
    match e.editor_mode {
        EditorMode::Command => {
            emit(out, "Command: ");
            if n > 0 {
                emit(out, e.commands_hist[n - 1].as_str());
            }
            emit(out, cursor_show().as_str());
        },
        EditorMode::Visual => {
            emit(out, cyan_fg().as_str());
            emit(out, "--VISUAL--");
            emit(out, reset_fg().as_str());
        },
        EditorMode::Insert => {
            emit(out, yellow_fg().as_str());
            emit(out, "--INSERT--");
            emit(out, reset_fg().as_str());
        },
        EditorMode::Normal => {
            if n >= 2 {
                emit(out, e.commands_hist[n - 2].as_str());
            }
        },
    }
    assert(out@ =~= start + status_line(e));
}

impl Editor {
    /// The frame that shows the editor's state, with `info` at the right of the status line.
    pub fn render(&self, info: &str) -> (r: String)
        requires
            self.wf(),
        ensures
            r@ == frame(self, info@),
    {
        let mut out: Vec<char> = Vec::new();
        emit(&mut out, clear_all().as_str());
        emit(&mut out, goto(1, 1).as_str());
        emit(&mut out, cursor_hide().as_str());
        let ghost base = out@;
        let mut n: usize = 0;
        while n < self.buffers_to_show.len()
            invariant
                self.wf(),
                0 <= n <= self.buffers_to_show@.len(),
                out@ == base + draw_shown(self, n as int),
            decreases self.buffers_to_show@.len() - n,
        {
            let ghost before = out@;
            match self.find_buffer(self.buffers_to_show[n].as_str()) {
                Some(i) => {
                    proof {
                        self.lemma_find_index(self.buffers_to_show@[n as int]@, i as int);
                    }
                    buffer_exec(&mut out, &self.buffers[i].1, self.editor_mode);
                },
                None => {
                    proof {
                        if let Some(k) = self.find_index(self.buffers_to_show@[n as int]@) {
                            assert(self.names()[k] == self.buffers_to_show@[n as int]@);
                        }
                    }
                },
            }
            n += 1;
            assert(out@ =~= base + draw_shown(self, n as int));
        }
        emit(&mut out, goto(1, self.terminal_size.1).as_str());
        status_exec(&mut out, self);
        let width = info.unicode_len();
        let padding: u16 = if (self.terminal_size.0 as usize) > width { self.terminal_size.0 - width as u16 } else { 0 };
        emit(&mut out, goto(padding, self.terminal_size.1).as_str());
        emit(&mut out, info);
        string_of(&out)
    }
}

} // verus!
