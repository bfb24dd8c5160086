use vstd::prelude::*;

use crate::editor::{lines_wf, BufferKind, ColorRange, EditorBuffer, EditorCursor, EditorWindow, Rgb, MAX_LINES, MAX_LINE_LEN};
use crate::text::{decimal, decimal_string, lemma_decimal_len, pad_left, pad_left_exec, string_of};

pub mod editor_buffer;
pub mod explorer_buffer;
pub mod text_edit;

verus! {

/// One coordinate of the pivot after following a cursor coordinate `c` through a
/// window `size` cells wide: scroll just enough that `p <= c <= p + size`.
pub open spec fn follow(p: u16, c: u16, size: int) -> u16 {
    if c > size + p {
        (c - size) as u16
    } else if c < p {
        c
    } else {
        p
    }
}

/// Scrolls the buffer's viewport so that `cursor` is visible.
pub fn adapt_pivot_from_cursor(cursor: &EditorCursor, buffer: &mut EditorBuffer)
    requires
        old(buffer).buffer_window.wf(),
    ensures
        final(buffer).pivot == (
            follow(old(buffer).pivot.0, cursor.position.0, old(buffer).buffer_window.width()),
            follow(old(buffer).pivot.1, cursor.position.1, old(buffer).buffer_window.height()),
        ),
        final(buffer).pivot.1 <= cursor.position.1 <= final(buffer).pivot.1 + final(buffer).buffer_window.height(),
        final(buffer).pivot.0 <= cursor.position.0 <= final(buffer).pivot.0 + final(buffer).buffer_window.width(),
        old(buffer).same_but_text(&*final(buffer)),
        final(buffer).content@ == old(buffer).content@,
        final(buffer).cursors@ == old(buffer).cursors@,
{
    let window_height = buffer.buffer_window.end.1 - buffer.buffer_window.start.1;
    let window_width = buffer.buffer_window.end.0 - buffer.buffer_window.start.0;

    if cursor.position.1 as u32 > window_height as u32 + buffer.pivot.1 as u32 {
        buffer.pivot.1 = cursor.position.1 - window_height;
    } else if cursor.position.1 < buffer.pivot.1 {
        buffer.pivot.1 = cursor.position.1;
    }
    if cursor.position.0 as u32 > window_width as u32 + buffer.pivot.0 as u32 {
        buffer.pivot.0 = cursor.position.0 - window_width;
    } else if cursor.position.0 < buffer.pivot.0 {
        buffer.pivot.0 = cursor.position.0;
    }
}

} // verus!

verus! {

/// The name of the buffer that numbers the lines of the focused one.
pub open spec fn numeration_name() -> Seq<char> {
    "numerate_lines"@
}

/// The label of line `n` (1-based) in the numeration buffer: the number right-aligned
/// in six columns, then a space.
pub open spec fn line_label(n: nat) -> Seq<char> {
    pad_left(decimal(n), 6) + seq![' ']
}

/// The numeration lines for a text of `count` lines: missing labels are appended,
/// surplus lines dropped.
pub open spec fn numbered(lines: Seq<Seq<char>>, count: nat) -> Seq<Seq<char>> {
    if lines.len() < count {
        lines + Seq::new((count - lines.len()) as nat, |k: int| line_label((lines.len() + k + 1) as nat))
    } else {
        lines.subrange(0, count as int)
    }
}

/// The style of a numeration line.
pub open spec fn label_colors() -> ColorRange {
    ColorRange { range: (0, 7), bg_color: Some(Rgb(42, 42, 55)), fg_color: Some(Rgb(84, 83, 108)) }
}

/// The numeration styles for `count` lines: one label style per appended line,
/// surplus styles dropped.
pub open spec fn numbered_colors(colors: Seq<Seq<ColorRange>>, old_count: nat, count: nat) -> Seq<Seq<ColorRange>> {
    if old_count <= count {
        colors + Seq::new((count - old_count) as nat, |k: int| seq![label_colors()])
    } else if count < colors.len() {
        colors.subrange(0, count as int)
    } else {
        colors
    }
}

/// The text of line label `n`.
pub fn line_label_exec(n: usize) -> (r: String)
    requires
        n <= MAX_LINES,
    ensures
        r@ == line_label(n as nat),
        r@.len() <= MAX_LINE_LEN,
{
    let digits = decimal_string(n as u64);
    let mut label = pad_left_exec(digits.as_str(), 6);
    label.push(' ');
    proof {
        lemma_decimal_len(n as nat);
    }
    string_of(&label)
}

/// Brings the numeration buffer in line with a text of `count` lines whose vertical
/// pivot is `pivot_row`.
pub fn sync_numeration(numeration: &mut EditorBuffer, count: usize, pivot_row: u16)
    requires
        old(numeration).wf(),
        1 <= count <= MAX_LINES,
    ensures
        final(numeration).wf(),
        final(numeration).lines() == numbered(old(numeration).lines(), count as nat),
        final(numeration).lines().len() == count,
        final(numeration).styles() == numbered_colors(old(numeration).styles(), old(numeration).lines().len(), count as nat),
        final(numeration).pivot == (old(numeration).pivot.0, pivot_row),
        final(numeration).cursors@ == old(numeration).cursors@,
        final(numeration).file_name == old(numeration).file_name,
        final(numeration).buffer_window == old(numeration).buffer_window,
        final(numeration).kind == old(numeration).kind,
        final(numeration).tab_width == old(numeration).tab_width,
{
    let ghost old_lines = numeration.lines();
    let current = numeration.content.len();
    if current < count {
        assert(numeration.styles() =~= numbered_colors(old(numeration).styles(), current as nat, current as nat));
        let mut i: usize = current;
        while i < count
            invariant
                current <= i <= count <= MAX_LINES,
                current == old_lines.len(),
                numeration.lines() == numbered(old_lines, i as nat),
                numeration.styles() == numbered_colors(old(numeration).styles(), current as nat, i as nat),
                lines_wf(numeration.lines()),
                numeration.buffer_window == old(numeration).buffer_window,
                numeration.cursors@ == old(numeration).cursors@,
                numeration.file_name == old(numeration).file_name,
                numeration.kind == old(numeration).kind,
                numeration.tab_width == old(numeration).tab_width,
                numeration.pivot == old(numeration).pivot,
            decreases count - i,
        {
            let label = line_label_exec(i + 1);
            let ghost before = numeration.lines();
            let ghost before_colors = numeration.styles();
            numeration.content.push(label);
            let mut style: Vec<ColorRange> = Vec::new();
            style.push(ColorRange {
                range: (0, 7),
                bg_color: Some(Rgb(42, 42, 55)),
                fg_color: Some(Rgb(84, 83, 108)),
            });
            numeration.colors.push(style);
            proof {
                assert(numeration.lines() =~= before.push(label@));
                assert(numeration.lines() =~= numbered(old_lines, (i + 1) as nat));
                assert(numeration.styles() =~= numbered_colors(old(numeration).styles(), current as nat, (i + 1) as nat)) by {
                    assert(numeration.styles() =~= before_colors.push(seq![label_colors()]));
                }
                assert forall|k: int| 0 <= k < numeration.lines().len() implies #[trigger] numeration.lines()[k].len() <= MAX_LINE_LEN by {
                    if k < before.len() {
                        assert(numeration.lines()[k] == before[k]);
                    }
                }
            }
            i += 1;
        }
    } else if current == count {
        assert(numeration.styles() =~= numbered_colors(old(numeration).styles(), current as nat, count as nat));
        assert(numeration.lines() =~= numbered(old_lines, count as nat));
    } else {
        numeration.content.truncate(count);
        numeration.colors.truncate(count);
        proof {
            assert(numeration.lines() =~= old_lines.subrange(0, count as int));
            assert forall|k: int| 0 <= k < numeration.lines().len() implies #[trigger] numeration.lines()[k].len() <= MAX_LINE_LEN by {
                assert(numeration.lines()[k] == old_lines[k]);
            }
        }
    }
    numeration.pivot.1 = pivot_row;
}

} // verus!

verus! {

/// The labels of lines `1..=count`.
pub open spec fn labels(count: nat) -> Seq<Seq<char>> {
    Seq::new(count, |k: int| line_label((k + 1) as nat))
}

/// The line-number buffer for a text of `count` lines, drawn in the first eight
/// columns above the status line; it has no cursor.
pub fn numeration_buffer(count: usize, terminal_height: u16) -> (r: EditorBuffer)
    requires
        1 <= count <= MAX_LINES,
        terminal_height >= 2,
    ensures
        r.wf(),
        r.lines() == labels(count as nat),
        r.styles() == Seq::new(count as nat, |_k: int| seq![label_colors()]),
        r.cursors@.len() == 0,
        r.kind == BufferKind::Auxiliary,
        r.buffer_window == (EditorWindow { start: (1, 1), end: (8, (terminal_height - 1) as u16) }),
        r.pivot == (0u16, 0u16),
{
    let mut content: Vec<String> = Vec::new();
    content.push(line_label_exec(1));
    let mut style: Vec<ColorRange> = Vec::new();
    style.push(ColorRange { range: (0, 7), bg_color: Some(Rgb(42, 42, 55)), fg_color: Some(Rgb(84, 83, 108)) });
    let mut colors: Vec<Vec<ColorRange>> = Vec::new();
    colors.push(style);
    let mut buffer = EditorBuffer {
        cursors: Vec::new(),
        content,
        colors,
        file_name: None,
        is_modified: false,
        memory: Vec::new(),
        buffer_window: EditorWindow { start: (1, 1), end: (8, terminal_height - 1) },
        kind: BufferKind::Auxiliary,
        pivot: (0, 0),
        tab_width: 4,
    };
    assert(buffer.lines() =~= seq![line_label(1)]);
    assert(buffer.styles() =~= seq![seq![label_colors()]]);
    sync_numeration(&mut buffer, count, 0);
    assert(buffer.lines() =~= labels(count as nat));
    assert(buffer.styles() =~= Seq::new(count as nat, |_k: int| seq![label_colors()]));
    buffer
}

} // verus!
