use rustpen::buffers::explorer_buffer::init_explorer_buffer;
use rustpen::buffers::{line_label_exec, numeration_buffer};
use rustpen::context::EditorBufferContext;
use rustpen::editor::{
    lines_fit, BufferKind, CursorForm, Editor, EditorBuffer, EditorCursor, EditorCursorContext, EditorError, EditorWindow,
};
use rustpen::editor_modes::EditorMode;
use rustpen::server::server_messages::{BufferMessage, InputMessage, ServerMessages};
use rustpen::server::UnixServer;
use rustpen::{key_to_string, match_char_with_special_keys, Key};

#[test]
fn key_tokens() {
    assert_eq!(key_to_string(Key::Char('a')), "<a>");
    assert_eq!(key_to_string(Key::Char('\n')), "<Enter>");
    assert_eq!(key_to_string(Key::Char('\t')), "<Tab>");
    assert_eq!(key_to_string(Key::Char(' ')), "<Space>");
    assert_eq!(key_to_string(Key::Char('\u{7f}')), "<BS>");
    assert_eq!(key_to_string(Key::Ctrl('c')), "<C-c>");
    assert_eq!(key_to_string(Key::Alt('\u{7f}')), "<A-BS>");
    assert_eq!(key_to_string(Key::F(12)), "<F12>");
    assert_eq!(key_to_string(Key::ShiftLeft), "<S-Left>");
    assert_eq!(key_to_string(Key::BackTab), "<S-Tab>");
    assert_eq!(key_to_string(Key::Backspace), "<BS>");
    assert_eq!(key_to_string(Key::Esc), "<Esc>");
    assert_eq!(key_to_string(Key::PageDown), "<PageDown>");
    assert_eq!(key_to_string(Key::Null), "<Unknown>");
    assert_eq!(key_to_string(Key::CtrlHome), "<Unknown>");
}

#[test]
fn special_key_names() {
    assert_eq!(match_char_with_special_keys("\r", "[", "]"), "[Enter]");
    assert_eq!(match_char_with_special_keys("x", "<C-", ">"), "<C-x>");
    assert_eq!(match_char_with_special_keys("ab", "", ""), "ab");
}

#[test]
fn cursor_glyphs() {
    assert_eq!(CursorForm::SteadyBar.to_char(), '|');
    assert_eq!(CursorForm::SteadyBlock.to_char(), '█');
    assert_eq!(CursorForm::SteadyUnderline.to_char(), '_');
    let c = EditorCursor { position: (3, 4), form: CursorForm::SteadyBar };
    assert_eq!(c.to_cursor_context().position, (3, 4));
}

#[test]
fn mode_names() {
    assert_eq!(EditorMode::Normal.name(), "Normal");
    assert_eq!(EditorMode::Insert.name(), "Insert");
    assert_eq!(EditorMode::Command.name(), "Command");
    assert_eq!(EditorMode::Visual.name(), "Visual");
}

#[test]
fn line_labels() {
    assert_eq!(line_label_exec(1), "     1 ");
    assert_eq!(line_label_exec(57921), " 57921 ");
    let n = numeration_buffer(3, 24);
    assert_eq!(n.content, vec!["     1 ".to_string(), "     2 ".to_string(), "     3 ".to_string()]);
    assert_eq!(n.colors.len(), 3);
    assert_eq!(n.colors[0][0].range, (0, 7));
    assert!(n.cursors.is_empty());
}

#[test]
fn handshake_carries_initial_focus() {
    let b = EditorBuffer::new(BufferKind::Main, EditorWindow { start: (9, 1), end: (80, 23) }, 4);
    let e = Editor::open((80, 24), "main".to_string(), b);
    match UnixServer::handshake(&e) {
        ServerMessages::Context(m) => {
            assert_eq!(m.editor.focus_buffer, "main");
            assert_eq!(m.editor.buffers.len(), 2);
            assert_eq!(m.editor.buffers_to_show, vec!["numerate_lines".to_string(), "main".to_string()]);
            assert_eq!(m.editor.buffers[0].1.content, vec!["".to_string()]);
            assert_eq!(m.editor.buffers[0].1.cursors[0].position, (0, 0));
            assert_eq!(m.editor.editor_mode, EditorMode::Normal);
        }
        _ => panic!("expected a context message"),
    }
    let server = UnixServer::new("/tmp/socket");
    assert_eq!(server.socket_path(), "/tmp/socket");
}

#[test]
fn explorer_listing() {
    let b = init_explorer_buffer("/root", (80, 24), vec!["a.txt".to_string(), "src".to_string()]);
    assert_eq!(b.content[2], "/root");
    assert_eq!(b.content[5], "../");
    assert_eq!(b.content[6], "a.txt");
    assert_eq!(b.content.len(), 8);
    assert_eq!(b.buffer_window.start, (8, 1));
    assert_eq!(b.buffer_window.end, (80, 23));
    let mut e = Editor::open((80, 24), "explorer".to_string(), b);
    e.execute_key("<j>").unwrap();
    assert_eq!(e.get_buffer("explorer").unwrap().cursors[0].position, (0, 1));
    e.execute_key("<i>").unwrap();
    assert_eq!(e.editor_mode, EditorMode::Normal);
    e.execute_key("<:>").unwrap();
    assert_eq!(e.editor_mode, EditorMode::Command);
}

#[test]
fn plugin_input_runs_as_a_key() {
    let b = EditorBuffer::new(BufferKind::Main, EditorWindow { start: (9, 1), end: (80, 23) }, 4);
    let mut e = Editor::open((80, 24), "main".to_string(), b);
    let m = ServerMessages::Input(InputMessage { input: "<i>".to_string(), editor_mode: EditorMode::Normal });
    e.apply_message(&m).unwrap();
    assert_eq!(e.editor_mode, EditorMode::Insert);
    let m = ServerMessages::Input(InputMessage { input: "<z>".to_string(), editor_mode: EditorMode::Insert });
    e.apply_message(&m).unwrap();
    assert_eq!(e.get_buffer("main").unwrap().content, vec!["z".to_string()]);
}

#[test]
fn plugin_buffer_replaces_state() {
    let b = EditorBuffer::new(BufferKind::Main, EditorWindow { start: (9, 1), end: (80, 23) }, 4);
    let mut e = Editor::open((80, 24), "main".to_string(), b);
    let context = |content: Vec<String>| EditorBufferContext {
        cursors: vec![EditorCursorContext { position: (1, 2) }],
        content,
        colors: vec![],
        memory: vec![],
        buffer_window: EditorWindow { start: (9, 1), end: (80, 23) },
        tab_width: 2,
    };
    let m = ServerMessages::Buffer(BufferMessage {
        request_id: "1".to_string(),
        buffer_name: "main".to_string(),
        buffer: context(vec!["a".to_string(), "b".to_string(), "cd".to_string()]),
    });
    e.apply_message(&m).unwrap();
    let main = e.get_buffer("main").unwrap();
    assert_eq!(main.content.len(), 3);
    assert_eq!(main.cursors[0].position, (1, 2));
    assert_eq!(main.tab_width, 2);
    assert_eq!(e.get_buffer("numerate_lines").unwrap().content.len(), 3);

    let empty = ServerMessages::Buffer(BufferMessage {
        request_id: "2".to_string(),
        buffer_name: "main".to_string(),
        buffer: context(vec![]),
    });
    assert!(matches!(e.apply_message(&empty), Err(EditorError::InvalidBuffer(_))));
    let missing = ServerMessages::Buffer(BufferMessage {
        request_id: "3".to_string(),
        buffer_name: "other".to_string(),
        buffer: context(vec!["x".to_string()]),
    });
    assert!(matches!(e.apply_message(&missing), Err(EditorError::MissingBuffer(_))));
}

#[test]
fn lines_fit_limits() {
    assert!(lines_fit(&vec!["\tx".to_string()], 4));
    let long = "\t".repeat(20000);
    assert!(!lines_fit(&vec![long.clone()], 4));
    assert!(lines_fit(&vec![long], 3));
}
