use rustpen::editor::{BufferKind, Editor, EditorAction, EditorBuffer, EditorWindow};
use rustpen::editor_modes::EditorMode;

fn window() -> EditorWindow {
    EditorWindow { start: (9, 1), end: (80, 23) }
}

fn editor_with(buffer: EditorBuffer) -> Editor {
    Editor::open((80, 24), "main".to_string(), buffer)
}

fn plain(lines: &[&str]) -> EditorBuffer {
    let mut b = EditorBuffer::new(BufferKind::Main, window(), 4);
    b.content = lines.iter().map(|s| s.to_string()).collect();
    b
}

fn run(e: &mut Editor, keys: &[&str]) -> EditorAction {
    let mut last = EditorAction::Nothing;
    for k in keys {
        last = e.execute_key(k).unwrap();
    }
    last
}

#[test]
fn colon_opens_command_entry() {
    let mut e = editor_with(plain(&["a"]));
    run(&mut e, &["<:>"]);
    assert_eq!(e.editor_mode, EditorMode::Command);
    assert_eq!(e.commands_hist, vec!["".to_string()]);
    run(&mut e, &["<a>", "<.>", "<b>", "<Space>", "<c>"]);
    assert_eq!(e.commands_hist, vec!["a.b c".to_string()]);
    run(&mut e, &["<BS>"]);
    assert_eq!(e.commands_hist, vec!["a.b ".to_string()]);
    run(&mut e, &["<C-h>"]);
    assert_eq!(e.commands_hist, vec!["a".to_string()]);
    run(&mut e, &["<C-h>"]);
    assert_eq!(e.commands_hist, vec!["".to_string()]);
}

#[test]
fn other_key_cancels_command() {
    let mut e = editor_with(plain(&["a"]));
    run(&mut e, &["<:>", "<x>", "<Up>"]);
    assert_eq!(e.editor_mode, EditorMode::Normal);
    assert_eq!(e.commands_hist, vec!["".to_string()]);
}

#[test]
fn unknown_command_is_reported() {
    let mut e = editor_with(plain(&["a"]));
    let action = run(&mut e, &["<:>", "<z>", "<Enter>"]);
    assert!(matches!(action, EditorAction::Nothing));
    assert_eq!(e.editor_mode, EditorMode::Normal);
    assert_eq!(
        e.commands_hist,
        vec!["z".to_string(), "\x1b[38;5;1mCommand \"z\" not found.\x1b[39m".to_string(), "".to_string()]
    );
}

#[test]
fn quit_command_closes() {
    let mut e = editor_with(plain(&["a"]));
    let action = run(&mut e, &["<:>", "<q>", "<Enter>"]);
    assert!(matches!(action, EditorAction::Quit));
    assert!(e.close);
}

#[test]
fn write_without_file_reports_error() {
    let mut e = editor_with(plain(&["a"]));
    run(&mut e, &["<:>", "<w>", "<Enter>"]);
    assert_eq!(e.editor_mode, EditorMode::Normal);
    assert_eq!(
        e.commands_hist,
        vec!["w".to_string(), "Failed to save file: No file name specified".to_string(), "".to_string()]
    );
}

#[test]
fn write_with_file_asks_to_save() {
    let b = EditorBuffer::from_file(
        "notes.txt",
        Some(vec!["one".to_string(), "two".to_string()]),
        BufferKind::Main,
        window(),
        4,
    );
    let mut e = editor_with(b);
    let action = run(&mut e, &["<:>", "<w>", "<Enter>"]);
    match action {
        EditorAction::Save { path, text } => {
            assert_eq!(path, "notes.txt");
            assert_eq!(text, "one\ntwo\n");
            e.finish_save(&path, Ok(()));
        }
        _ => panic!("expected a save"),
    }
    assert_eq!(
        e.commands_hist,
        vec!["w".to_string(), "File saved: notes.txt".to_string(), "".to_string()]
    );
    e.finish_save("notes.txt", Err("denied".to_string()));
    assert_eq!(e.commands_hist[3], "Failed to save file: denied");
    assert_eq!(e.editor_mode, EditorMode::Normal);
}

#[test]
fn save_text_has_one_newline_per_line() {
    let b = plain(&["a", "", "b c"]);
    let text = b.file_text();
    assert_eq!(text, "a\n\nb c\n");
    assert_eq!(text.matches('\n').count(), 3);
    let back: Vec<&str> = text.lines().collect();
    assert_eq!(back, vec!["a", "", "b c"]);
}

#[test]
fn from_file_expands_tabs() {
    let b = EditorBuffer::from_file("x", Some(vec!["\ta\tb".to_string()]), BufferKind::Main, window(), 2);
    assert_eq!(b.content, vec!["  a  b".to_string()]);
    let b = EditorBuffer::from_file("x", None, BufferKind::Main, window(), 2);
    assert_eq!(b.content, vec!["".to_string()]);
    assert_eq!(b.file_name, Some("x".to_string()));
    let b = EditorBuffer::from_file("x", Some(vec![]), BufferKind::Main, window(), 2);
    assert_eq!(b.content, vec!["".to_string()]);
}
