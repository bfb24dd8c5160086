use rustpen::editor::{BufferKind, ColorRange, Editor, EditorBuffer, EditorWindow, Rgb};
use rustpen::editor_modes::EditorMode;

fn small_editor() -> Editor {
    let mut b = EditorBuffer::new(BufferKind::Main, EditorWindow { start: (3, 1), end: (6, 2) }, 4);
    b.content = vec!["ab".to_string()];
    let mut e = Editor::new((10, 4));
    e.add_buffer("main".to_string(), b);
    e.buffers_to_show = vec!["main".to_string()];
    e.focus_buffer = "main".to_string();
    e
}

#[test]
fn frame_positions_use_decimal_rows_and_columns() {
    let mut b = EditorBuffer::new(BufferKind::Main, EditorWindow { start: (12, 3), end: (40, 3) }, 4);
    b.content = vec!["x".to_string()];
    b.cursors.clear();
    let mut e = Editor::new((120, 37));
    e.add_buffer("main".to_string(), b);
    e.buffers_to_show = vec!["main".to_string()];
    e.focus_buffer = "main".to_string();
    let frame = e.render("abc");
    assert!(frame.starts_with("\x1b[2J\x1b[1;1H\x1b[?25l\x1b[3;12Hx \x1b[49m\x1b[39m"));
    assert!(frame.ends_with("\x1b[37;1H\x1b[37;117Habc"));
}

#[test]
fn frame_of_a_small_buffer() {
    let e = small_editor();
    let frame = e.render("hi");
    let expected: String = [
        "\x1b[2J\x1b[1;1H\x1b[?25l",
        "\x1b[1;3H",
        "\x1b[38;2;0;0;0m\x1b[48;2;255;255;255ma\x1b[49m\x1b[39m",
        "b ",
        "\x1b[49m\x1b[39m",
        "\x1b[4;1H",
        "\x1b[4;8Hhi"
    ]
    .concat();
    assert_eq!(frame, expected);
}

#[test]
fn frame_hides_cursor_in_command_mode() {
    let mut e = small_editor();
    e.editor_mode = EditorMode::Command;
    e.commands_hist = vec!["wq".to_string()];
    let frame = e.render("");
    let expected: String = [
        "\x1b[2J\x1b[1;1H\x1b[?25l",
        "\x1b[1;3Hab \x1b[49m\x1b[39m",
        "\x1b[4;1HCommand: wq\x1b[?25h",
        "\x1b[4;10H"
    ]
    .concat();
    assert_eq!(frame, expected);
}

#[test]
fn frame_status_lines() {
    let mut e = small_editor();
    e.editor_mode = EditorMode::Insert;
    assert!(e.render("").contains("\x1b[38;5;3m--INSERT--\x1b[39m"));
    e.editor_mode = EditorMode::Visual;
    assert!(e.render("").contains("\x1b[38;5;6m--VISUAL--\x1b[39m"));
    e.editor_mode = EditorMode::Normal;
    e.commands_hist = vec!["w".to_string(), "File saved: x".to_string(), "".to_string()];
    assert!(e.render("").ends_with("\x1b[4;1HFile saved: x\x1b[4;10H"));
    e.commands_hist.pop();
    assert!(e.render("").ends_with("\x1b[4;1Hw\x1b[4;10H"));
}

#[test]
fn frame_applies_color_ranges() {
    let mut e = small_editor();
    e.buffers[0].1.cursors.clear();
    e.buffers[0].1.content = vec!["abcd".to_string()];
    e.buffers[0].1.colors = vec![vec![ColorRange { range: (1, 3), bg_color: Some(Rgb(1, 2, 3)), fg_color: None }]];
    let frame = e.render("");
    let expected: String = [
        "\x1b[2J\x1b[1;1H\x1b[?25l",
        "\x1b[1;3Ha",
        "\x1b[38;2;1;2;3m\x1b[48;2;255;255;255mbc",
        "\x1b[49m\x1b[39md",
        "\x1b[49m\x1b[39m",
        "\x1b[4;1H",
        "\x1b[4;10H"
    ]
    .concat();
    assert_eq!(frame, expected);
}

#[test]
fn frame_scrolls_with_pivot() {
    let mut e = small_editor();
    e.buffers[0].1.content = vec!["0".to_string(), "1".to_string(), "2".to_string(), "3".to_string()];
    e.buffers[0].1.cursors.clear();
    e.buffers[0].1.pivot = (0, 1);
    let frame = e.render("");
    assert!(frame.contains("\x1b[1;3H1 \x1b[49m\x1b[39m\x1b[2;3H2 \x1b[49m\x1b[39m\x1b[4;1H"));
    assert!(!frame.contains("0 "));
    assert!(!frame.contains("3 "));
}

#[test]
fn every_cursor_of_a_row_is_reversed() {
    let mut e = small_editor();
    let form = e.buffers[0].1.cursors[0].form;
    e.buffers[0].1.cursors.push(rustpen::editor::EditorCursor { position: (2, 0), form });
    let frame = e.render("");
    let reversed = |c: &str| format!("\x1b[38;2;0;0;0m\x1b[48;2;255;255;255m{}\x1b[49m\x1b[39m", c);
    let expected: String = ["\x1b[1;3H".to_string(), reversed("a"), "b".to_string(), reversed(" "), "\x1b[49m\x1b[39m".to_string()].concat();
    assert!(frame.contains(&expected));
}

#[test]
fn cursor_on_a_style_start_is_reversed() {
    let mut e = small_editor();
    e.buffers[0].1.content = vec!["abcd".to_string()];
    e.buffers[0].1.cursors[0].position = (1, 0);
    e.buffers[0].1.colors = vec![vec![ColorRange { range: (1, 3), bg_color: Some(Rgb(1, 2, 3)), fg_color: Some(Rgb(4, 5, 6)) }]];
    let frame = e.render("");
    let expected: String = [
        "\x1b[1;3Ha",
        "\x1b[38;2;4;5;6m\x1b[48;2;1;2;3mb\x1b[38;2;1;2;3m\x1b[48;2;4;5;6m",
        "c",
        "\x1b[49m\x1b[39md",
        "\x1b[49m\x1b[39m",
    ]
    .concat();
    assert!(frame.contains(&expected));
}

#[test]
fn styles_begun_before_the_view_are_drawn() {
    let mut e = small_editor();
    e.buffers[0].1.cursors.clear();
    e.buffers[0].1.content = vec!["abcdefgh".to_string()];
    e.buffers[0].1.pivot = (3, 0);
    e.buffers[0].1.colors = vec![vec![
        ColorRange { range: (0, 1), bg_color: Some(Rgb(9, 9, 9)), fg_color: None },
        ColorRange { range: (2, 5), bg_color: Some(Rgb(1, 2, 3)), fg_color: None },
    ]];
    let frame = e.render("");
    let expected: String = [
        "\x1b[1;3H",
        "\x1b[38;2;1;2;3m\x1b[48;2;255;255;255md",
        "e",
        "\x1b[49m\x1b[39mf",
        "g",
        "\x1b[49m\x1b[39m",
    ]
    .concat();
    assert!(frame.contains(&expected));
}
