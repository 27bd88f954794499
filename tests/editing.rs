use md_editor::editor::{Cursor, Editor};

fn typed(text: &str) -> Editor {
    let mut e = Editor::new();
    for c in text.chars() {
        if c == '\n' {
            e.new_line();
        } else {
            e.push(c);
        }
    }
    e
}

fn at(line: usize, col: usize, max_col: usize) -> Cursor {
    Cursor { line, col, max_col }
}

#[test]
fn new_editor_has_one_empty_line() {
    let e = Editor::new();
    assert_eq!(e.get_file(), vec![String::new()]);
    assert_eq!(e.get_cursor(), at(0, 0, 0));
}

#[test]
fn typing_appends_and_inserts() {
    let mut e = typed("ac");
    assert_eq!(e.get_file(), vec!["ac".to_string()]);
    e.cursor_left();
    e.push('b');
    assert_eq!(e.get_file(), vec!["abc".to_string()]);
    assert_eq!(e.get_cursor(), at(0, 2, 0));
}

#[test]
fn insert_before_last_character() {
    let mut e = typed("xz");
    e.cursor_left();
    e.push('y');
    assert_eq!(e.get_file(), vec!["xyz".to_string()]);
}

#[test]
fn typing_non_ascii_counts_characters() {
    let mut e = typed("αγ");
    e.cursor_left();
    e.push('β');
    assert_eq!(e.get_file(), vec!["αβγ".to_string()]);
    assert_eq!(e.get_cursor(), at(0, 2, 0));
}

#[test]
fn new_line_splits_at_cursor() {
    let mut e = typed("hello");
    e.cursor_left();
    e.cursor_left();
    e.new_line();
    assert_eq!(e.get_file(), vec!["hel".to_string(), "lo".to_string()]);
    assert_eq!(e.get_cursor(), at(1, 0, 0));
}

#[test]
fn new_line_then_backspace_restores_text_and_cursor() {
    for col in 0..=5usize {
        let mut e = typed("ab\nhello\ncd");
        e.cursor_up();
        while e.get_cursor().col > col {
            e.cursor_left();
        }
        while e.get_cursor().col < col {
            e.cursor_right();
        }
        let text = e.get_file();
        let cursor = e.get_cursor();
        e.new_line();
        e.backspace();
        assert_eq!(e.get_file(), text);
        assert_eq!(e.get_cursor(), cursor);
    }
}

#[test]
fn backspace_at_document_start_is_a_no_op() {
    let mut e = typed("ab\ncd");
    e.cursor_up();
    e.cursor_left();
    e.cursor_left();
    assert_eq!(e.get_cursor().line, 0);
    assert_eq!(e.get_cursor().col, 0);
    let text = e.get_file();
    e.backspace();
    assert_eq!(e.get_file(), text);
    assert_eq!(e.get_cursor().line, 0);
    assert_eq!(e.get_cursor().col, 0);
}

#[test]
fn backspace_at_line_start_joins_lines() {
    let mut e = typed("ab\ncd\nef");
    e.cursor_up();
    e.cursor_left();
    e.cursor_left();
    assert_eq!(e.get_cursor().line, 1);
    assert_eq!(e.get_cursor().col, 0);
    e.backspace();
    assert_eq!(e.get_file(), vec!["abcd".to_string(), "ef".to_string()]);
    assert_eq!(e.get_cursor().line, 0);
    assert_eq!(e.get_cursor().col, 2);
}

#[test]
fn backspace_removes_character_before_cursor() {
    let mut e = typed("abc");
    e.cursor_left();
    e.backspace();
    assert_eq!(e.get_file(), vec!["ac".to_string()]);
    assert_eq!(e.get_cursor(), at(0, 1, 0));
}

#[test]
fn backspace_past_line_end_only_moves_cursor() {
    let mut e = typed("abcdef\nab");
    e.cursor_up();
    e.cursor_right();
    e.cursor_right();
    e.cursor_right();
    e.cursor_right();
    e.cursor_down();
    assert_eq!(e.get_cursor().col, 6);
    e.backspace();
    assert_eq!(e.get_file(), vec!["abcdef".to_string(), "ab".to_string()]);
    assert_eq!(e.get_cursor().col, 5);
}

#[test]
fn edits_keep_cursor_in_text() {
    let mut e = Editor::new();
    let script = "ab\u{8}\n\u{8}\u{8}\u{8}cd\nx\u{8}\u{8}\u{8}y\n\n";
    for c in script.chars() {
        match c {
            '\n' => e.new_line(),
            '\u{8}' => e.backspace(),
            c => e.push(c),
        }
        let file = e.get_file();
        let cur = e.get_cursor();
        assert!(!file.is_empty());
        assert!(cur.line < file.len());
        assert!(cur.col <= file[cur.line].chars().count());
    }
}

#[test]
fn left_then_right_returns() {
    let mut e = typed("ab\ncd");
    for _ in 0..5 {
        let before = e.get_cursor();
        e.cursor_left();
        e.cursor_right();
        assert_eq!((e.get_cursor().line, e.get_cursor().col), (before.line, before.col));
        e.cursor_left();
    }
}

#[test]
fn right_then_left_returns() {
    let mut e = typed("ab\ncd");
    e.cursor_up();
    e.cursor_left();
    e.cursor_left();
    for _ in 0..4 {
        let before = e.get_cursor();
        e.cursor_right();
        e.cursor_left();
        assert_eq!((e.get_cursor().line, e.get_cursor().col), (before.line, before.col));
        e.cursor_right();
    }
}

#[test]
fn moves_at_document_boundaries_stay_put() {
    let mut e = typed("ab\ncd");
    e.cursor_right();
    assert_eq!(e.get_cursor(), at(1, 2, 0));
    e.cursor_up();
    e.cursor_left();
    e.cursor_left();
    e.cursor_left();
    assert_eq!((e.get_cursor().line, e.get_cursor().col), (0, 0));
}

#[test]
fn left_wraps_to_end_of_previous_line() {
    let mut e = typed("abc\n");
    e.cursor_left();
    assert_eq!((e.get_cursor().line, e.get_cursor().col), (0, 3));
    e.cursor_right();
    assert_eq!((e.get_cursor().line, e.get_cursor().col), (1, 0));
}

#[test]
fn up_remembers_column_and_clamps() {
    let mut e = typed("ab\nabcdef");
    e.cursor_up();
    assert_eq!(e.get_cursor(), at(0, 2, 6));
}

#[test]
fn down_keeps_column_unclamped() {
    let mut e = typed("ab\nabcdef");
    e.cursor_up();
    e.cursor_down();
    assert_eq!(e.get_cursor(), at(1, 2, 6));
    e.cursor_down();
    assert_eq!(e.get_cursor(), at(1, 2, 6));
}

#[test]
fn ensure_file_lines_only_grows() {
    let mut e = typed("a");
    e.ensure_file_lines(2);
    assert_eq!(e.get_file(), vec!["a".to_string(), String::new(), String::new()]);
    e.ensure_file_lines(0);
    assert_eq!(e.get_file().len(), 3);
}
