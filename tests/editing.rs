use rustpen::buffers::text_edit::{apply_edit, TextEdit};
use rustpen::editor::{BufferKind, Editor, EditorBuffer, EditorWindow};
use rustpen::editor_modes::{EditorMode, ExecuteKey};
use rustpen::insert::insert_chars_to_buffer;
use rustpen::normal::{move_cursors, CursorDirections};

fn window() -> EditorWindow {
    EditorWindow { start: (9, 1), end: (80, 23) }
}

fn buffer_with(lines: &[&str]) -> EditorBuffer {
    let mut b = EditorBuffer::new(BufferKind::Main, window(), 4);
    b.content = lines.iter().map(|s| s.to_string()).collect();
    b
}

fn editor_with(lines: &[&str]) -> Editor {
    Editor::open((80, 24), "main".to_string(), buffer_with(lines))
}

fn focused(e: &Editor) -> &EditorBuffer {
    e.get_buffer("main").unwrap()
}

fn numeration(e: &Editor) -> &EditorBuffer {
    e.get_buffer("numerate_lines").unwrap()
}

fn type_keys(e: &mut Editor, keys: &[&str]) {
    for k in keys {
        e.execute_key(k).unwrap();
    }
}

#[test]
fn word_motion_on_foo_bar_baz() {
    let mut b = buffer_with(&["foo bar  baz"]);
    apply_edit(&mut b, TextEdit::WordForward);
    assert_eq!(b.cursors[0].position, (4, 0));
    apply_edit(&mut b, TextEdit::WordForward);
    assert_eq!(b.cursors[0].position, (9, 0));
    apply_edit(&mut b, TextEdit::WordBackward);
    assert_eq!(b.cursors[0].position, (4, 0));
    apply_edit(&mut b, TextEdit::WordBackward);
    assert_eq!(b.cursors[0].position, (0, 0));
}

#[test]
fn word_motion_wraps_lines() {
    let mut b = buffer_with(&["ab", "", "cd"]);
    b.cursors[0].position = (1, 0);
    apply_edit(&mut b, TextEdit::WordForward);
    assert_eq!(b.cursors[0].position, (0, 1));
    b.cursors[0].position = (0, 2);
    apply_edit(&mut b, TextEdit::WordBackward);
    assert_eq!(b.cursors[0].position, (0, 1));
    apply_edit(&mut b, TextEdit::WordBackward);
    assert_eq!(b.cursors[0].position, (1, 0));
}

#[test]
fn normal_mode_word_keys() {
    let mut e = editor_with(&["foo bar  baz"]);
    type_keys(&mut e, &["<w>", "<w>"]);
    assert_eq!(focused(&e).cursors[0].position, (9, 0));
    type_keys(&mut e, &["<b>"]);
    assert_eq!(focused(&e).cursors[0].position, (4, 0));
}

#[test]
fn backspace_at_line_start_joins_lines() {
    let mut b = buffer_with(&["hello", "world"]);
    b.cursors[0].position = (0, 1);
    apply_edit(&mut b, TextEdit::BackspaceChar);
    assert_eq!(b.content, vec!["helloworld".to_string()]);
    assert_eq!(b.cursors[0].position, (5, 0));
}

#[test]
fn backspace_deletes_previous_char() {
    let mut b = buffer_with(&["abc"]);
    b.cursors[0].position = (2, 0);
    apply_edit(&mut b, TextEdit::BackspaceChar);
    assert_eq!(b.content, vec!["ac".to_string()]);
    assert_eq!(b.cursors[0].position, (1, 0));
}

#[test]
fn backspace_at_origin_does_nothing() {
    let mut b = buffer_with(&["abc"]);
    apply_edit(&mut b, TextEdit::BackspaceChar);
    assert_eq!(b.content, vec!["abc".to_string()]);
    assert_eq!(b.cursors[0].position, (0, 0));
}

#[test]
fn backspace_word_deletes_word_and_trailing_gap() {
    let mut b = buffer_with(&["foo bar"]);
    b.cursors[0].position = (7, 0);
    apply_edit(&mut b, TextEdit::BackspaceWord);
    assert_eq!(b.content, vec!["foo ".to_string()]);
    assert_eq!(b.cursors[0].position, (4, 0));

    let mut b = buffer_with(&["foo  x"]);
    b.cursors[0].position = (5, 0);
    apply_edit(&mut b, TextEdit::BackspaceWord);
    assert_eq!(b.content, vec!["x".to_string()]);
    assert_eq!(b.cursors[0].position, (0, 0));
}

#[test]
fn newline_splits_line() {
    let mut b = buffer_with(&["hello"]);
    b.cursors[0].position = (2, 0);
    apply_edit(&mut b, TextEdit::Newline);
    assert_eq!(b.content, vec!["he".to_string(), "llo".to_string()]);
    assert_eq!(b.cursors[0].position, (0, 1));
}

#[test]
fn insert_advances_cursor() {
    let mut b = buffer_with(&["ad"]);
    b.cursors[0].position = (1, 0);
    insert_chars_to_buffer(&mut b, vec!['b', 'c']);
    assert_eq!(b.content, vec!["abcd".to_string()]);
    assert_eq!(b.cursors[0].position, (3, 0));
}

#[test]
fn typing_scrolls_only_as_far_as_needed() {
    let mut b = buffer_with(&[""]);
    b.buffer_window = EditorWindow { start: (0, 0), end: (3, 3) };
    insert_chars_to_buffer(&mut b, vec!['a', 'b', 'c', 'd', 'e']);
    assert_eq!(b.cursors[0].position, (5, 0));
    assert_eq!(b.pivot, (0, 0));

    let mut b = buffer_with(&[""]);
    b.buffer_window = EditorWindow { start: (0, 0), end: (10, 3) };
    let mut e = Editor::open((80, 24), "main".to_string(), b);
    type_keys(&mut e, &["<i>"]);
    for _ in 0..25 {
        e.execute_key("<x>").unwrap();
    }
    assert_eq!(focused(&e).pivot.0, 15);
    // moving back inside the view and typing again does not scroll
    let before = focused(&e).pivot.0;
    type_keys(&mut e, &["<Esc>", "<h>", "<h>", "<h>", "<h>", "<h>", "<i>", "<y>"]);
    assert_eq!(focused(&e).cursors[0].position.0, 21);
    assert_eq!(focused(&e).pivot.0, before);
}

#[test]
fn line_count_conservation() {
    let mut e = editor_with(&["one", "two"]);
    let before = focused(&e).content.len();
    type_keys(&mut e, &["<i>", "<x>", "<Enter>", "<Enter>", "<y>", "<BS>", "<BS>", "<BS>", "<Enter>"]);
    // three newlines, two joins (the last two backspaces are at column 0)
    assert_eq!(focused(&e).content.len(), before + 3 - 2);
    assert_eq!(focused(&e).content, vec!["x".to_string(), "one".to_string(), "two".to_string()]);
}

#[test]
fn moves_clamp_column() {
    let mut b = buffer_with(&["long line", "ab"]);
    b.cursors[0].position = (8, 0);
    move_cursors(&mut b, CursorDirections::Down);
    assert_eq!(b.cursors[0].position, (2, 1));
    move_cursors(&mut b, CursorDirections::Right);
    assert_eq!(b.cursors[0].position, (2, 1));
    move_cursors(&mut b, CursorDirections::Up);
    assert_eq!(b.cursors[0].position, (2, 0));
    move_cursors(&mut b, CursorDirections::Left);
    assert_eq!(b.cursors[0].position, (1, 0));
    move_cursors(&mut b, CursorDirections::Up);
    assert_eq!(b.cursors[0].position, (1, 0));
}

#[test]
fn viewport_follows_cursor() {
    let lines: Vec<String> = (0..50).map(|i| format!("line {}", i)).collect();
    let refs: Vec<&str> = lines.iter().map(|s| s.as_str()).collect();
    let mut e = editor_with(&refs);
    for _ in 0..30 {
        e.execute_key("<j>").unwrap();
    }
    let b = focused(&e);
    let height = b.buffer_window.end.1 - b.buffer_window.start.1;
    assert_eq!(b.cursors[0].position.1, 30);
    assert_eq!(b.pivot.1, 30 - height);
    assert!(b.pivot.1 <= 30 && 30 <= b.pivot.1 + height);
    for _ in 0..25 {
        e.execute_key("<k>").unwrap();
    }
    let b = focused(&e);
    assert_eq!(b.pivot.1, 5);
    assert_eq!(numeration(&e).pivot.1, 5);
}

#[test]
fn numeration_follows_edits() {
    let mut e = editor_with(&["a"]);
    type_keys(&mut e, &["<i>", "<Enter>", "<Enter>"]);
    assert_eq!(numeration(&e).content.len(), 3);
    assert_eq!(numeration(&e).content[2], "     3 ");
    assert_eq!(numeration(&e).colors.len(), 3);
    type_keys(&mut e, &["<BS>"]);
    assert_eq!(numeration(&e).content.len(), 2);
    assert_eq!(numeration(&e).content, vec!["     1 ".to_string(), "     2 ".to_string()]);
}

#[test]
fn insert_mode_keys() {
    let mut e = editor_with(&[""]);
    type_keys(&mut e, &["<i>", "<a>", "<Space>", "<b>", "<Tab>", "<c>"]);
    assert_eq!(focused(&e).content, vec!["a b    c".to_string()]);
    type_keys(&mut e, &["<A-BS>"]);
    assert_eq!(focused(&e).content, vec!["a b    ".to_string()]);
    type_keys(&mut e, &["<C-h>", "<Left>"]);
    assert_eq!(focused(&e).content, vec!["a b    ".to_string()]);
    type_keys(&mut e, &["<Esc>"]);
    assert_eq!(e.editor_mode, EditorMode::Normal);
    type_keys(&mut e, &["<i>", "<C-c>"]);
    assert_eq!(e.editor_mode, EditorMode::Normal);
}

#[test]
fn missing_focus_is_an_error() {
    let mut e = editor_with(&["a"]);
    e.focus_buffer = "nowhere".to_string();
    assert!(e.execute_key("<j>").is_err());
}

#[test]
fn visual_mode_ignores_keys() {
    let mut e = editor_with(&["abc"]);
    e.editor_mode = EditorMode::Visual;
    e.execute_key("<l>").unwrap();
    assert_eq!(focused(&e).cursors[0].position, (0, 0));
}

#[test]
fn buffer_lookup_by_name() {
    let mut e = editor_with(&["a"]);
    assert!(e.get_buffer("missing").is_none());
    assert!(e.get_buffer_mut("missing").is_none());
    e.get_buffer_mut("main").unwrap().cursors[0].position = (1, 0);
    assert_eq!(focused(&e).cursors[0].position, (1, 0));
    assert_eq!(e.find_buffer("numerate_lines"), Some(1));
    e.redraw((100, 40));
    assert_eq!(e.terminal_size, (100, 40));
}

#[test]
fn every_cursor_edits_in_stored_order() {
    let mut b = buffer_with(&["ab", "cd"]);
    let form = b.cursors[0].form;
    b.cursors.push(rustpen::editor::EditorCursor { position: (1, 1), form });
    insert_chars_to_buffer(&mut b, vec!['x']);
    assert_eq!(b.content, vec!["xab".to_string(), "cxd".to_string()]);
    assert_eq!(b.cursors[0].position, (1, 0));
    assert_eq!(b.cursors[1].position, (2, 1));
    apply_edit(&mut b, TextEdit::Newline);
    // the first split shifts the lines below, so the second cursor's row now holds "ab"
    assert_eq!(b.content, vec!["x".to_string(), "ab".to_string(), "".to_string(), "cxd".to_string()]);
    assert_eq!(b.cursors[0].position, (0, 1));
    assert_eq!(b.cursors[1].position, (0, 2));
}

#[test]
fn cursor_past_line_end_acts_at_end() {
    let mut b = buffer_with(&["ab"]);
    b.cursors[0].position = (9, 5);
    insert_chars_to_buffer(&mut b, vec!['!']);
    assert_eq!(b.content, vec!["ab!".to_string()]);
    assert_eq!(b.cursors[0].position, (3, 0));
}

#[test]
fn mode_runs_key_through_trait() {
    let mut e = editor_with(&["abc"]);
    EditorMode::Normal.execute_key("<l>", &mut e).unwrap();
    assert_eq!(focused(&e).cursors[0].position, (1, 0));
    EditorMode::Command.execute_key("<x>", &mut e).unwrap();
    assert_eq!(focused(&e).cursors[0].position, (1, 0));
    e.editor_mode = EditorMode::Visual;
    EditorMode::Visual.execute_key("<l>", &mut e).unwrap();
    assert_eq!(focused(&e).cursors[0].position, (1, 0));
}
