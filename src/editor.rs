use vstd::prelude::*;

use crate::editor_modes::EditorMode;
use crate::buffers::{labels, numeration_buffer, numeration_name};
use crate::text::{chars_of, push_all, str_eq, string_of};

verus! {

/// Most lines a buffer holds: a row must fit a `u16`.
pub const MAX_LINES: usize = 65535;

/// Most characters a line holds: a column must fit a `u16`.
pub const MAX_LINE_LEN: usize = 65535;

/// A truecolor value.
#[derive(Clone, Copy, PartialEq, Eq, Debug)]
pub struct Rgb(pub u8, pub u8, pub u8);

/// The visual form of a cursor.
#[derive(Clone, Copy, PartialEq, Eq, Debug)]
pub enum CursorForm {
    SteadyBar,
    SteadyBlock,
    SteadyUnderline,
}

impl CursorForm {
    pub open spec fn glyph(self) -> char {
        match self {
            CursorForm::SteadyBar => '|',
            CursorForm::SteadyBlock => '█',
            CursorForm::SteadyUnderline => '_',
        }
    }

    /// A character that pictures the cursor's form.
    pub fn to_char(&self) -> (r: char)
        ensures
            r == self.glyph(),
    {
        match self {
            CursorForm::SteadyBar => '|',
            CursorForm::SteadyBlock => '█',
            CursorForm::SteadyUnderline => '_',
        }
    }
}

/// A cursor: `position` is (column, row), in characters.
#[derive(Clone, Copy, Debug)]
pub struct EditorCursor {
    pub position: (u16, u16),
    pub form: CursorForm,
}

/// What a plugin client sees of a cursor.
#[derive(Clone, Copy, Debug)]
pub struct EditorCursorContext {
    pub position: (u16, u16),
}

impl EditorCursor {
    pub fn to_cursor_context(self) -> (r: EditorCursorContext)
        ensures
            r.position == self.position,
    {
        EditorCursorContext { position: self.position }
    }
}

/// A rectangle of the terminal, as (column, row) corners.
#[derive(Clone, Copy, Debug)]
pub struct EditorWindow {
    pub start: (u16, u16),
    pub end: (u16, u16),
}

impl EditorWindow {
    pub open spec fn wf(self) -> bool {
        self.start.0 <= self.end.0 && self.start.1 <= self.end.1
    }

    pub open spec fn width(self) -> int {
        self.end.0 - self.start.0
    }

    pub open spec fn height(self) -> int {
        self.end.1 - self.start.1
    }
}

/// A half-open column interval `[range.0, range.1)` drawn with the given colors.
#[derive(Clone, Copy, Debug)]
pub struct ColorRange {
    pub range: (u16, u16),
    pub bg_color: Option<Rgb>,
    pub fg_color: Option<Rgb>,
}

/// How a buffer answers keys.
#[derive(Clone, Copy, PartialEq, Eq, Debug)]
pub enum BufferKind {
    /// A text buffer: the modal editing keys.
    Main,
    /// A directory listing: motion and command entry only.
    Explorer,
    /// Derived state drawn beside another buffer; keys do nothing.
    Auxiliary,
}

/// Lines of text with cursors, styles and a viewport.
pub struct EditorBuffer {
    pub cursors: Vec<EditorCursor>,
    pub content: Vec<String>,
    pub colors: Vec<Vec<ColorRange>>,
    pub file_name: Option<String>,
    pub is_modified: bool,
    pub memory: Vec<String>,
    pub buffer_window: EditorWindow,
    pub kind: BufferKind,
    pub pivot: (u16, u16),
    pub tab_width: u16,
}

/// Lines as character sequences.
pub open spec fn lines_of(content: Seq<String>) -> Seq<Seq<char>> {
    content.map_values(|s: String| s@)
}

/// Lines that a buffer can hold: at least one, rows and columns within `u16`.
pub open spec fn lines_wf(lines: Seq<Seq<char>>) -> bool {
    &&& 1 <= lines.len() <= MAX_LINES
    &&& forall|i: int| 0 <= i < lines.len() ==> #[trigger] lines[i].len() <= MAX_LINE_LEN
}

impl EditorBuffer {
    pub open spec fn lines(&self) -> Seq<Seq<char>> {
        lines_of(self.content@)
    }

    pub open spec fn styles(&self) -> Seq<Seq<ColorRange>> {
        self.colors@.map_values(|v: Vec<ColorRange>| v@)
    }

    pub open spec fn positions(&self) -> Seq<(u16, u16)> {
        self.cursors@.map_values(|c: EditorCursor| c.position)
    }

    pub open spec fn wf(&self) -> bool {
        &&& lines_wf(self.lines())
        &&& self.buffer_window.wf()
    }

    /// Everything but the text, the cursor positions and the pivot is the same in `other`.
    pub open spec fn same_but_text(&self, other: &EditorBuffer) -> bool {
        &&& other.cursors@.len() == self.cursors@.len()
        &&& forall|k: int| 0 <= k < self.cursors@.len() ==> #[trigger] other.cursors@[k].form == self.cursors@[k].form
        &&& other.colors@ == self.colors@
        &&& other.file_name == self.file_name
        &&& other.is_modified == self.is_modified
        &&& other.memory@ == self.memory@
        &&& other.buffer_window == self.buffer_window
        &&& other.kind == self.kind
        &&& other.tab_width == self.tab_width
    }

    /// The number of characters of line `r`.
    pub fn line_len(&self, r: usize) -> (n: usize)
        requires
            r < self.content.len(),
        ensures
            n == self.lines()[r as int].len(),
    {
        self.content[r].as_str().unicode_len()
    }
}

} // verus!

verus! {

/// An operation that could not run because the editor's state breaks a contract.
#[derive(Clone, Debug)]
pub enum EditorError {
    /// No buffer of this name is in the table.
    MissingBuffer(String),
    /// A buffer submitted for this name has no line, too many lines, a line too
    /// long, or a window whose corners are out of order.
    InvalidBuffer(String),
}

/// Outside work that a key asks of the program around the editor.
#[derive(Clone, Debug)]
pub enum EditorAction {
    /// Nothing to do outside.
    Nothing,
    /// Restore the terminal and end the process.
    Quit,
    /// Write `text` to the file at `path`, then report the outcome to `Editor::finish_save`.
    Save { path: String, text: String },
}

/// The shared editor state: buffers by name, focus, mode, and command history.
pub struct Editor {
    pub buffers: Vec<(String, EditorBuffer)>,
    pub buffers_to_show: Vec<String>,
    pub focus_buffer: String,
    pub editor_mode: EditorMode,
    pub close: bool,
    pub terminal_size: (u16, u16),
    pub commands_hist: Vec<String>,
}

pub open spec fn names_of(table: Seq<(String, EditorBuffer)>) -> Seq<Seq<char>> {
    table.map_values(|e: (String, EditorBuffer)| e.0@)
}

/// Each name once, and every buffer well formed.
pub open spec fn table_wf(table: Seq<(String, EditorBuffer)>) -> bool {
    &&& forall|i: int, j: int|
        0 <= i < table.len() && 0 <= j < table.len() && i != j
            ==> #[trigger] names_of(table)[i] != #[trigger] names_of(table)[j]
    &&& forall|i: int| 0 <= i < table.len() ==> (#[trigger] table[i]).1.wf()
}

impl Editor {
    pub open spec fn names(&self) -> Seq<Seq<char>> {
        names_of(self.buffers@)
    }

    /// The buffer table holds each name once, and every buffer is well formed.
    pub open spec fn wf(&self) -> bool {
        table_wf(self.buffers@)
    }

    /// An editor with no buffers, in Normal mode.
    pub fn new(terminal_size: (u16, u16)) -> (r: Editor)
        ensures
            r.wf(),
            r.buffers@.len() == 0,
            r.buffers_to_show@.len() == 0,
            r.focus_buffer@.len() == 0,
            r.editor_mode == EditorMode::Normal,
            !r.close,
            r.terminal_size == terminal_size,
            r.commands_hist@.len() == 0,
    {
        Editor {
            buffers: Vec::new(),
            buffers_to_show: Vec::new(),
            focus_buffer: String::new(),
            editor_mode: EditorMode::Normal,
            close: false,
            terminal_size,
            commands_hist: Vec::new(),
        }
    }

    /// The index of the buffer called `key`.
    pub fn find_buffer(&self, key: &str) -> (r: Option<usize>)
        ensures
            match r {
                Some(i) => i < self.buffers@.len() && self.names()[i as int] == key@,
                None => forall|i: int| 0 <= i < self.buffers@.len() ==> self.names()[i] != key@,
            },
    {
        let mut i: usize = 0;
        while i < self.buffers.len()
            invariant
                0 <= i <= self.buffers@.len(),
                forall|k: int| 0 <= k < i ==> self.names()[k] != key@,
            decreases self.buffers@.len() - i,
        {
            if str_eq(self.buffers[i].0.as_str(), key) {
                return Some(i);
            }
            i += 1;
        }
        None
    }

    /// Adds a buffer under `key`, replacing any buffer of that name.
    pub fn add_buffer(&mut self, key: String, buffer: EditorBuffer)
        requires
            old(self).wf(),
            buffer.wf(),
        ensures
            final(self).wf(),
            final(self).buffers@ == match old(self).find_index(key@) {
                Some(i) => old(self).buffers@.update(i, (key, buffer)),
                None => old(self).buffers@.push((key, buffer)),
            },
            final(self).focus_buffer == old(self).focus_buffer,
            final(self).editor_mode == old(self).editor_mode,
            final(self).commands_hist@ == old(self).commands_hist@,
            final(self).buffers_to_show@ == old(self).buffers_to_show@,
            final(self).terminal_size == old(self).terminal_size,
            final(self).close == old(self).close,
    {
        match self.find_buffer(key.as_str()) {
            Some(i) => {
                self.buffers.set(i, (key, buffer));
                proof {
                    assert(self.names() =~= old(self).names());
                }
            },
            None => {
                self.buffers.push((key, buffer));
                proof {
                    assert(self.names() =~= old(self).names().push(key@));
                }
            },
        }
    }

    /// The index of the buffer called `name`, if there is one.
    pub open spec fn find_index(&self, name: Seq<char>) -> Option<int> {
        if exists|i: int| 0 <= i < self.buffers@.len() && self.names()[i] == name {
            Some(choose|i: int| 0 <= i < self.buffers@.len() && self.names()[i] == name)
        } else {
            None
        }
    }

    /// The buffer called `key`.
    pub fn get_buffer(&self, key: &str) -> (r: Option<&EditorBuffer>)
        requires
            self.wf(),
        ensures
            match self.find_index(key@) {
                Some(i) => r == Some(&self.buffers@[i].1),
                None => r.is_none(),
            },
    {
        match self.find_buffer(key) {
            Some(i) => {
                proof {
                    self.lemma_find_index(key@, i as int);
                }
                Some(&self.buffers[i].1)
            },
            None => None,
        }
    }

    /// The buffer called `key`, to change in place; a change that breaks the buffer's
    /// well-formedness breaks the editor's.
    pub fn get_buffer_mut(&mut self, key: &str) -> (r: Option<&mut EditorBuffer>)
        requires
            old(self).wf(),
        ensures
            match old(self).find_index(key@) {
                Some(i) => r matches Some(b) && *b == old(self).buffers@[i].1
                    && final(self).buffers@ == old(self).buffers@.update(i, (old(self).buffers@[i].0, *final(b))),
                None => r.is_none() && final(self).buffers@ == old(self).buffers@,
            },
            final(self).focus_buffer == old(self).focus_buffer,
            final(self).editor_mode == old(self).editor_mode,
            final(self).commands_hist@ == old(self).commands_hist@,
    {
        match self.find_buffer(key) {
            Some(i) => {
                proof {
                    self.lemma_find_index(key@, i as int);
                }
                Some(&mut self.buffers[i].1)
            },
            None => None,
        }
    }

    /// In a well-formed table, the only buffer called `name` is the one at `i`.
    pub proof fn lemma_find_index(&self, name: Seq<char>, i: int)
        requires
            self.wf(),
            0 <= i < self.buffers@.len(),
            self.names()[i] == name,
        ensures
            self.find_index(name) == Some(i),
    {
        let j = choose|j: int| 0 <= j < self.buffers@.len() && self.names()[j] == name;
        assert(self.names()[j] == name);
    }

    /// Stores the terminal's new size.
    pub fn redraw(&mut self, terminal_size: (u16, u16))
        ensures
            final(self).terminal_size == terminal_size,
            final(self).buffers@ == old(self).buffers@,
            final(self).buffers_to_show@ == old(self).buffers_to_show@,
            final(self).editor_mode == old(self).editor_mode,
            final(self).focus_buffer == old(self).focus_buffer,
            final(self).commands_hist@ == old(self).commands_hist@,
            final(self).close == old(self).close,
    {
        self.terminal_size = terminal_size;
    }

    /// Marks the editor as closing; the program around it restores the terminal.
    pub fn close_editor(&mut self)
        ensures
            final(self).close,
            final(self).terminal_size == old(self).terminal_size,
            final(self).buffers@ == old(self).buffers@,
            final(self).buffers_to_show@ == old(self).buffers_to_show@,
            final(self).editor_mode == old(self).editor_mode,
            final(self).focus_buffer == old(self).focus_buffer,
            final(self).commands_hist@ == old(self).commands_hist@,
    {
        self.close = true;
    }
}

} // verus!

verus! {

/// Lines written one after another, each ended by a newline.
pub open spec fn terminated(lines: Seq<Seq<char>>) -> Seq<char>
    decreases lines.len(),
{
    if lines.len() == 0 {
        Seq::empty()
    } else {
        terminated(lines.drop_last()) + lines.last() + seq!['\n']
    }
}

impl EditorBuffer {
    /// What saving the buffer writes: every line, each followed by a newline.
    pub fn file_text(&self) -> (r: String)
        ensures
            r@ == terminated(self.lines()),
    {
        let ghost lines = self.lines();
        let mut out: Vec<char> = Vec::new();
        let mut i: usize = 0;
        while i < self.content.len()
            invariant
                0 <= i <= self.content@.len(),
                lines == self.lines(),
                out@ == terminated(lines.subrange(0, i as int)),
            decreases self.content@.len() - i,
        {
            let line = chars_of(self.content[i].as_str());
            push_all(&mut out, &line);
            out.push('\n');
            proof {
                let next = lines.subrange(0, i + 1);
                assert(next.drop_last() =~= lines.subrange(0, i as int));
                assert(next.last() == lines[i as int]);
            }
            i += 1;
        }
        assert(lines.subrange(0, lines.len() as int) =~= lines);
        string_of(&out)
    }
}

} // verus!

verus! {

impl EditorBuffer {
    /// An empty buffer: one empty line, one block cursor at the origin.
    pub fn new(kind: BufferKind, buffer_window: EditorWindow, tab_width: u16) -> (r: EditorBuffer)
        ensures
            r.lines() == seq![Seq::<char>::empty()],
            r.positions() == seq![(0u16, 0u16)],
            r.cursors@[0].form == CursorForm::SteadyBlock,
            r.styles().len() == 0,
            r.memory@.len() == 1 && r.memory@[0]@ == Seq::<char>::empty(),
            r.file_name.is_none(),
            !r.is_modified,
            r.buffer_window == buffer_window,
            r.kind == kind,
            r.pivot == (0u16, 0u16),
            r.tab_width == tab_width,
            buffer_window.wf() ==> r.wf(),
    {
        let mut cursors: Vec<EditorCursor> = Vec::new();
        cursors.push(EditorCursor { position: (0, 0), form: CursorForm::SteadyBlock });
        let mut content: Vec<String> = Vec::new();
        content.push(String::new());
        let mut memory: Vec<String> = Vec::new();
        memory.push(String::new());
        let r = EditorBuffer {
            cursors,
            content,
            colors: Vec::new(),
            file_name: None,
            is_modified: false,
            memory,
            buffer_window,
            kind,
            pivot: (0, 0),
            tab_width,
        };
        assert(r.lines() =~= seq![Seq::<char>::empty()]);
        assert(r.positions() =~= seq![(0u16, 0u16)]);
        assert(r.styles() =~= Seq::empty());
        r
    }
}

} // verus!

verus! {

/// `s` with every tab replaced by `tab` spaces.
pub open spec fn expand_tabs(s: Seq<char>, tab: nat) -> Seq<char>
    decreases s.len(),
{
    if s.len() == 0 {
        s
    } else {
        expand_tabs(s.drop_last(), tab) + if s.last() == '\t' {
            Seq::new(tab, |_i: int| ' ')
        } else {
            seq![s.last()]
        }
    }
}

/// The text of a buffer loaded from a file: the file's lines with tabs expanded, or
/// one empty line when the file could not be read or holds no line.
pub open spec fn loaded_lines(file: Option<Seq<Seq<char>>>, tab: nat) -> Seq<Seq<char>> {
    match file {
        Some(ls) => if ls.len() > 0 {
            Seq::new(ls.len(), |i: int| expand_tabs(ls[i], tab))
        } else {
            seq![Seq::empty()]
        },
        None => seq![Seq::empty()],
    }
}

fn expand_tabs_exec(s: &str, tab: u16) -> (r: String)
    ensures
        r@ == expand_tabs(s@, tab as nat),
{
    let chars = chars_of(s);
    let mut out: Vec<char> = Vec::new();
    let mut i: usize = 0;
    while i < chars.len()
        invariant
            0 <= i <= chars@.len(),
            chars@ == s@,
            out@ == expand_tabs(chars@.subrange(0, i as int), tab as nat),
        decreases chars@.len() - i,
    {
        let c = chars[i];
        let ghost before = out@;
        if c == '\t' {
            let mut k: u16 = 0;
            while k < tab
                invariant
                    0 <= k <= tab,
                    out@ == before + Seq::new(k as nat, |_i: int| ' '),
                decreases tab - k,
            {
                out.push(' ');
                k += 1;
                assert(out@ =~= before + Seq::new(k as nat, |_i: int| ' '));
            }
        } else {
            out.push(c);
        }
        proof {
            let next = chars@.subrange(0, i + 1);
            assert(next.drop_last() =~= chars@.subrange(0, i as int));
            assert(next.last() == c);
            if c != '\t' {
                assert(out@ =~= before + seq![c]);
            }
        }
        i += 1;
    }
    assert(chars@.subrange(0, chars@.len() as int) =~= chars@);
    string_of(&out)
}

impl EditorBuffer {
    /// A buffer bound to `file_path` holding `file`'s lines (`None` when the file could
    /// not be read), tabs expanded to `tab_width` spaces.
    pub fn from_file(
        file_path: &str,
        file: Option<Vec<String>>,
        kind: BufferKind,
        buffer_window: EditorWindow,
        tab_width: u16,
    ) -> (r: EditorBuffer)
        requires
            buffer_window.wf(),
            file matches Some(ls) ==> {
                &&& ls@.len() <= MAX_LINES
                &&& forall|i: int| 0 <= i < ls@.len() ==> expand_tabs((#[trigger] ls@[i])@, tab_width as nat).len() <= MAX_LINE_LEN
            },
        ensures
            r.wf(),
            r.lines() == loaded_lines(
                match file {
                    Some(ls) => Some(lines_of(ls@)),
                    None => None,
                },
                tab_width as nat,
            ),
            r.positions() == seq![(0u16, 0u16)],
            r.cursors@[0].form == CursorForm::SteadyBlock,
            r.styles().len() == 0,
            r.memory@.len() == 1 && r.memory@[0]@ == Seq::<char>::empty(),
            !r.is_modified,
            r.file_name matches Some(p) && p@ == file_path@,
            r.buffer_window == buffer_window,
            r.kind == kind,
            r.pivot == (0u16, 0u16),
            r.tab_width == tab_width,
    {
        let mut buffer = EditorBuffer::new(kind, buffer_window, tab_width);
        buffer.file_name = Some(file_path.to_owned());
        match file {
            Some(ls) => {
                if ls.len() > 0 {
                    let mut content: Vec<String> = Vec::new();
                    let mut i: usize = 0;
                    while i < ls.len()
                        invariant
                            0 <= i <= ls@.len() <= MAX_LINES,
                            lines_of(content@) == Seq::new(i as nat, |k: int| expand_tabs(ls@[k]@, tab_width as nat)),
                            forall|k: int| 0 <= k < ls@.len() ==> expand_tabs((#[trigger] ls@[k])@, tab_width as nat).len() <= MAX_LINE_LEN,
                        decreases ls@.len() - i,
                    {
                        let line = expand_tabs_exec(ls[i].as_str(), tab_width);
                        let ghost before = content@;
                        content.push(line);
                        assert(lines_of(content@) =~= lines_of(before).push(line@));
                        i += 1;
                        assert(lines_of(content@) =~= Seq::new(i as nat, |k: int| expand_tabs(ls@[k]@, tab_width as nat)));
                    }
                    buffer.content = content;
                    assert(buffer.lines() =~= Seq::new(ls@.len(), |k: int| expand_tabs(ls@[k]@, tab_width as nat)));
                    assert(lines_of(ls@).len() == ls@.len());
                    assert(buffer.lines() =~= loaded_lines(Some(lines_of(ls@)), tab_width as nat));
                }
            },
            None => {},
        }
        buffer
    }
}

} // verus!

verus! {

impl Editor {
    /// The editor as the program starts it: `main` under the name `focus`, focused,
    /// with a line-number buffer drawn to its left.
    pub fn open(terminal_size: (u16, u16), focus: String, main: EditorBuffer) -> (r: Editor)
        requires
            main.wf(),
            terminal_size.1 >= 2,
            focus@ != numeration_name(),
        ensures
            r.wf(),
            r.names() == seq![focus@, numeration_name()],
            r.buffers@[0].1 == main,
            r.buffers@[1].1.lines() == labels(main.lines().len()),
            r.buffers@[1].1.pivot == (0u16, 0u16),
            r.buffers_to_show@.map_values(|s: String| s@) == seq![numeration_name(), focus@],
            r.focus_buffer@ == focus@,
            r.editor_mode == EditorMode::Normal,
            r.commands_hist@.len() == 0,
            r.terminal_size == terminal_size,
            !r.close,
    {
        let mut editor = Editor::new(terminal_size);
        let count = main.content.len();
        editor.add_buffer(focus.clone(), main);
        let numeration = numeration_buffer(count, terminal_size.1);
        editor.add_buffer("numerate_lines".to_owned(), numeration);
        let mut shown: Vec<String> = Vec::new();
        shown.push("numerate_lines".to_owned());
        shown.push(focus.clone());
        editor.buffers_to_show = shown;
        editor.focus_buffer = focus;
        proof {
            assert(editor.names() =~= seq![focus@, numeration_name()]);
            assert(editor.buffers_to_show@.map_values(|s: String| s@) =~= seq![numeration_name(), focus@]);
        }
        editor
    }
}

} // verus!

verus! {

/// The number of newlines in `s`.
pub open spec fn count_newlines(s: Seq<char>) -> int
    decreases s.len(),
{
    if s.len() == 0 {
        0
    } else {
        count_newlines(s.drop_last()) + if s.last() == '\n' { 1int } else { 0 }
    }
}

/// The index of the last newline of `s`, or -1.
pub open spec fn last_newline(s: Seq<char>) -> int
    decreases s.len(),
{
    if s.len() == 0 {
        -1
    } else if s.last() == '\n' {
        s.len() - 1
    } else {
        last_newline(s.drop_last())
    }
}

/// The lines of a text whose every line ends with a newline.
pub open spec fn split_lines(s: Seq<char>) -> Seq<Seq<char>>
    decreases s.len(),
{
    if s.len() == 0 {
        Seq::empty()
    } else {
        let body = s.drop_last();
        let k = last_newline(body);
        let cut = if -1 <= k < body.len() { k + 1 } else { 0 };
        split_lines(body.subrange(0, cut)).push(body.subrange(cut, body.len() as int))
    }
}

pub open spec fn no_newline(l: Seq<char>) -> bool {
    forall|i: int| 0 <= i < l.len() ==> l[i] != '\n'
}

proof fn lemma_newlines_append(a: Seq<char>, b: Seq<char>)
    ensures
        count_newlines(a + b) == count_newlines(a) + count_newlines(b),
        no_newline(b) ==> last_newline(a + b) == last_newline(a),
        no_newline(b) ==> count_newlines(b) == 0,
    decreases b.len(),
{
    if b.len() > 0 {
        lemma_newlines_append(a, b.drop_last());
        assert((a + b).drop_last() =~= a + b.drop_last());
        assert((a + b).last() == b.last());
    } else {
        assert(a + b =~= a);
    }
}

proof fn lemma_terminated_ends(lines: Seq<Seq<char>>)
    ensures
        last_newline(terminated(lines)) == terminated(lines).len() - 1,
{
    if lines.len() > 0 {
        let t = terminated(lines);
        assert(t.last() == '\n');
    }
}

/// Save round trip: when no line holds a newline, the saved text has exactly one
/// newline per line, and splitting it at its newlines gives back the lines.
pub proof fn lemma_save_round_trip(lines: Seq<Seq<char>>)
    requires
        forall|i: int| 0 <= i < lines.len() ==> no_newline(#[trigger] lines[i]),
    ensures
        count_newlines(terminated(lines)) == lines.len(),
        split_lines(terminated(lines)) == lines,
    decreases lines.len(),
{
    if lines.len() > 0 {
        let rest = lines.drop_last();
        let l = lines.last();
        assert(no_newline(l)) by {
            assert(lines[lines.len() - 1] == l);
        }
        lemma_save_round_trip(rest);
        let t = terminated(rest);
        let s = terminated(lines);
        assert(s == t + l + seq!['\n']);
        lemma_newlines_append(t, l);
        lemma_newlines_append(t + l, seq!['\n']);
        lemma_terminated_ends(rest);
        let body = s.drop_last();
        assert(body =~= t + l);
        assert(last_newline(body) == t.len() - 1);
        assert(body.subrange(0, t.len() as int) =~= t);
        assert(body.subrange(t.len() as int, body.len() as int) =~= l);
        assert(lines =~= rest.push(l));
    }
}

} // verus!

verus! {

proof fn lemma_expand_prefix(s: Seq<char>, i: int, tab: nat)
    requires
        0 <= i <= s.len(),
    ensures
        expand_tabs(s.subrange(0, i), tab).len() <= expand_tabs(s, tab).len(),
    decreases s.len() - i,
{
    if i < s.len() {
        lemma_expand_prefix(s, i + 1, tab);
        let next = s.subrange(0, i + 1);
        assert(next.drop_last() =~= s.subrange(0, i));
    } else {
        assert(s.subrange(0, i) =~= s);
    }
}

fn expanded_fits(s: &str, tab: u16) -> (r: bool)
    ensures
        r == (expand_tabs(s@, tab as nat).len() <= MAX_LINE_LEN),
{
    let chars = chars_of(s);
    let mut n: usize = 0;
    let mut i: usize = 0;
    while i < chars.len()
        invariant
            0 <= i <= chars@.len(),
            chars@ == s@,
            n == expand_tabs(chars@.subrange(0, i as int), tab as nat).len(),
            n <= MAX_LINE_LEN,
        decreases chars@.len() - i,
    {
        let piece: usize = if chars[i] == '\t' { tab as usize } else { 1 };
        proof {
            let next = chars@.subrange(0, i + 1);
            assert(next.drop_last() =~= chars@.subrange(0, i as int));
        }
        if piece > MAX_LINE_LEN - n {
            proof {
                lemma_expand_prefix(chars@, i + 1, tab as nat);
            }
            return false;
        }
        n += piece;
        i += 1;
    }
    assert(chars@.subrange(0, chars@.len() as int) =~= chars@);
    true
}

/// Whether lines read from a file fit a buffer once tabs are expanded to `tab_width`
/// spaces: what `EditorBuffer::from_file` asks of them.
pub fn lines_fit(lines: &Vec<String>, tab_width: u16) -> (r: bool)
    ensures
        r == (lines@.len() <= MAX_LINES && forall|i: int|
            0 <= i < lines@.len() ==> expand_tabs((#[trigger] lines@[i])@, tab_width as nat).len() <= MAX_LINE_LEN),
{
    if lines.len() > MAX_LINES {
        return false;
    }
    let mut i: usize = 0;
    while i < lines.len()
        invariant
            0 <= i <= lines@.len(),
            forall|k: int| 0 <= k < i ==> expand_tabs((#[trigger] lines@[k])@, tab_width as nat).len() <= MAX_LINE_LEN,
        decreases lines@.len() - i,
    {
        if !expanded_fits(lines[i].as_str(), tab_width) {
            return false;
        }
        i += 1;
    }
    true
}

} // verus!

verus! {

pub open spec fn no_tab(l: Seq<char>) -> bool {
    forall|i: int| 0 <= i < l.len() ==> l[i] != '\t'
}

proof fn lemma_expand_no_tab(s: Seq<char>, tab: nat)
    requires
        no_tab(s),
    ensures
        expand_tabs(s, tab) == s,
    decreases s.len(),
{
    if s.len() > 0 {
        assert(no_tab(s.drop_last()));
        lemma_expand_no_tab(s.drop_last(), tab);
        assert(s.last() != '\t');
        assert(s.drop_last() + seq![s.last()] =~= s);
    }
}

/// Load after save: reading back the saved text of lines that hold no newline and no
/// tab, one line per newline, gives the same lines.
pub proof fn lemma_save_then_load(lines: Seq<Seq<char>>, tab: nat)
    requires
        lines.len() >= 1,
        forall|i: int| 0 <= i < lines.len() ==> no_newline(#[trigger] lines[i]) && no_tab(lines[i]),
    ensures
        loaded_lines(Some(split_lines(terminated(lines))), tab) == lines,
{
    lemma_save_round_trip(lines);
    assert forall|i: int| 0 <= i < lines.len() implies expand_tabs(#[trigger] lines[i], tab) == lines[i] by {
        lemma_expand_no_tab(lines[i], tab);
    }
    assert(loaded_lines(Some(lines), tab) =~= lines);
}

} // verus!
