use vm_curator::editor::{EditorCommand, EditorKey, ScriptEditor};

fn editor(lines: &[&str], cursor: (usize, usize)) -> ScriptEditor {
    ScriptEditor {
        lines: lines.iter().map(|l| l.to_string()).collect(),
        cursor,
        scroll: 0,
        h_scroll: 0,
        modified: false,
    }
}

#[test]
fn opening_splits_lines() {
    let e = ScriptEditor::open("a\nbc\n");
    assert_eq!(e.lines, vec!["a", "bc"]);
    assert_eq!(e.cursor, (0, 0));
    assert!(!e.modified);
    let e = ScriptEditor::open("");
    assert_eq!(e.lines, vec![""]);
}

#[test]
fn typing_then_backspace_restores_text() {
    let mut e = editor(&["ab"], (0, 1));
    assert_eq!(e.handle_key(EditorKey::Char('X')), EditorCommand::Nothing);
    assert_eq!(e.lines, vec!["aXb"]);
    assert_eq!(e.cursor, (0, 2));
    assert!(e.modified);
    e.handle_key(EditorKey::Backspace);
    assert_eq!(e.lines, vec!["ab"]);
    assert_eq!(e.cursor, (0, 1));
}

#[test]
fn columns_count_bytes() {
    let mut e = editor(&["é"], (0, 0));
    e.handle_key(EditorKey::End);
    assert_eq!(e.cursor, (0, 2));
    e.handle_key(EditorKey::Char('z'));
    assert_eq!(e.lines, vec!["éz"]);
    assert_eq!(e.cursor, (0, 3));
    e.handle_key(EditorKey::Home);
    e.handle_key(EditorKey::Delete);
    assert_eq!(e.lines, vec!["z"]);
}

#[test]
fn enter_splits_and_backspace_joins() {
    let mut e = editor(&["abc", "d"], (0, 1));
    e.handle_key(EditorKey::Enter);
    assert_eq!(e.lines, vec!["a", "bc", "d"]);
    assert_eq!(e.cursor, (1, 0));
    e.handle_key(EditorKey::Backspace);
    assert_eq!(e.lines, vec!["abc", "d"]);
    assert_eq!(e.cursor, (0, 1));
}

#[test]
fn delete_at_line_end_joins_next_line() {
    let mut e = editor(&["ab", "cd"], (0, 2));
    e.handle_key(EditorKey::Delete);
    assert_eq!(e.lines, vec!["abcd"]);
    assert_eq!(e.cursor, (0, 2));
    let mut e = editor(&["ab"], (0, 2));
    e.handle_key(EditorKey::Delete);
    assert_eq!(e.lines, vec!["ab"]);
    assert!(!e.modified);
}

#[test]
fn tab_inserts_four_spaces() {
    let mut e = editor(&["x"], (0, 0));
    e.handle_key(EditorKey::Tab);
    assert_eq!(e.lines, vec!["    x"]);
    assert_eq!(e.cursor, (0, 4));
}

#[test]
fn cursor_moves_keep_column_within_line() {
    let mut e = editor(&["abcdef", "ab", "abcd"], (0, 5));
    e.handle_key(EditorKey::Down);
    assert_eq!(e.cursor, (1, 2));
    e.handle_key(EditorKey::Down);
    assert_eq!(e.cursor, (2, 2));
    e.handle_key(EditorKey::Down);
    assert_eq!(e.cursor, (2, 2));
    e.handle_key(EditorKey::Right);
    e.handle_key(EditorKey::Right);
    e.handle_key(EditorKey::Right);
    assert_eq!(e.cursor, (2, 4));
    e.handle_key(EditorKey::Up);
    assert_eq!(e.cursor, (1, 2));
    e.handle_key(EditorKey::Right);
    assert_eq!(e.cursor, (2, 0));
    e.handle_key(EditorKey::Left);
    assert_eq!(e.cursor, (1, 2));
    e.handle_key(EditorKey::Home);
    e.handle_key(EditorKey::Left);
    assert_eq!(e.cursor, (0, 6));
    assert!(!e.modified);
}

#[test]
fn scrolling_follows_cursor() {
    let lines: Vec<String> = (0..60).map(|i| i.to_string()).collect();
    let mut e = ScriptEditor { lines, cursor: (34, 0), scroll: 0, h_scroll: 0, modified: false };
    e.handle_key(EditorKey::Down);
    assert_eq!(e.cursor, (35, 0));
    assert_eq!(e.scroll, 1);
    e.handle_key(EditorKey::PageDown);
    assert_eq!(e.cursor, (55, 0));
    assert_eq!(e.scroll, 21);
    e.handle_key(EditorKey::PageDown);
    assert_eq!(e.cursor, (59, 0));
    assert_eq!(e.scroll, 41);
    e.handle_key(EditorKey::PageUp);
    assert_eq!(e.cursor, (39, 0));
    assert_eq!(e.scroll, 21);
    let mut e = editor(&[&"x".repeat(100)], (0, 79));
    e.handle_key(EditorKey::Right);
    assert_eq!(e.cursor, (0, 80));
    assert_eq!(e.h_scroll, 1);
    e.handle_key(EditorKey::Home);
    assert_eq!(e.h_scroll, 0);
}

#[test]
fn commands_for_save_and_escape() {
    let mut e = editor(&["a"], (0, 0));
    assert_eq!(e.handle_key(EditorKey::Ctrl('s')), EditorCommand::Save);
    assert_eq!(e.handle_key(EditorKey::Ctrl('x')), EditorCommand::Nothing);
    assert_eq!(e.handle_key(EditorKey::Esc), EditorCommand::Close);
    assert!(e.lines.is_empty());
    let mut e = editor(&["a"], (0, 1));
    e.handle_key(EditorKey::Char('b'));
    assert_eq!(e.handle_key(EditorKey::Esc), EditorCommand::ConfirmDiscard);
    assert_eq!(e.lines, vec!["ab"]);
}

#[test]
fn saved_texts() {
    assert_eq!(editor(&["a", "b"], (0, 0)).script_text(), "a\nb\n");
    assert_eq!(editor(&["a", ""], (0, 0)).script_text(), "a\n");
    assert_eq!(editor(&[""], (0, 0)).script_text(), "\n");
    assert_eq!(editor(&["note", "  ", ""], (0, 0)).notes_text(), Some("note".to_string()));
    assert_eq!(editor(&["", " "], (0, 0)).notes_text(), None);
}
