use textedit::config::Config;
use textedit::editor::Editor;
use textedit::lines::build_lines;

const H: usize = 24;

fn ed(s: &str) -> Editor {
    Editor::with_text(s.as_bytes().to_vec(), None)
}

fn check_partition(s: &str) {
    let bytes = s.as_bytes().to_vec();
    let lines = build_lines(&bytes);
    assert!(lines.len() >= 1);
    assert_eq!(lines[0].start, 0);
    assert_eq!(lines[lines.len() - 1].end, bytes.len());
    for i in 0..lines.len() {
        assert!(lines[i].start <= lines[i].end);
        if i + 1 < lines.len() {
            assert_eq!(lines[i].end + 1, lines[i + 1].start);
            assert_eq!(bytes[lines[i].end], b'\n');
        }
        for j in lines[i].start..lines[i].end {
            assert!(bytes[j] != b'\n');
        }
    }
}

#[test]
fn line_index_partitions_for_any_text() {
    check_partition("");
    check_partition("abc");
    check_partition("abc\ndef\n");
    check_partition("\n");
    check_partition("\n\n\n");
    check_partition("one\ntwo\nthree");
    check_partition("héllo\nwörld\n");
}

#[test]
fn line_index_of_two_line_text() {
    let e = ed("abc\ndef\n");
    assert_eq!(e.lines.len(), 3);
    assert_eq!((e.lines[0].start, e.lines[0].end), (0, 3));
    assert_eq!((e.lines[1].start, e.lines[1].end), (4, 7));
    assert_eq!((e.lines[2].start, e.lines[2].end), (8, 8));
}

#[test]
fn empty_document_has_one_empty_line() {
    let e = Editor::new(None);
    assert_eq!(e.lines.len(), 1);
    assert_eq!((e.lines[0].start, e.lines[0].end), (0, 0));
    assert_eq!(e.cursor.line, 0);
    assert_eq!(e.cursor.column, 0);
    assert!(e.is_unsaved());
}

#[test]
fn move_right_then_left_returns_ascii() {
    let mut e = ed("abc\ndef");
    for start in [(0usize, 0usize), (0, 1), (0, 3), (1, 0)] {
        e.cursor.line = start.0;
        e.cursor.column = start.1;
        e.move_right(H);
        e.move_left(H);
        assert_eq!((e.cursor.line, e.cursor.column), start);
    }
}

#[test]
fn move_right_then_left_returns_multibyte() {
    // "é" is two bytes, "∀" is three.
    let mut e = ed("aé∀b");
    for col in [0usize, 1, 3, 6] {
        e.cursor.column = col;
        e.move_right(H);
        e.move_left(H);
        assert_eq!(e.cursor.line, 0);
        assert_eq!(e.cursor.column, col);
    }
}

#[test]
fn move_right_steps_over_multibyte_char() {
    let mut e = ed("aé b");
    e.move_right(H);
    assert_eq!(e.cursor.column, 1);
    e.move_right(H);
    assert_eq!(e.cursor.column, 3);
}

#[test]
fn move_left_wraps_to_previous_line_end() {
    let mut e = ed("abc\ndef");
    e.cursor.line = 1;
    e.cursor.column = 0;
    e.move_left(H);
    assert_eq!((e.cursor.line, e.cursor.column), (0, 3));
}

#[test]
fn moves_are_no_ops_at_document_edges() {
    let mut e = ed("ab");
    e.move_left(H);
    assert_eq!((e.cursor.line, e.cursor.column), (0, 0));
    e.cursor.column = 2;
    e.move_right(H);
    assert_eq!((e.cursor.line, e.cursor.column), (0, 2));
}

#[test]
fn insert_then_backspace_restores_ascii() {
    let mut e = ed("abc\ndef");
    e.cursor.line = 1;
    e.cursor.column = 2;
    e.insert_char('x', H);
    assert_eq!(e.text, b"abc\ndexf".to_vec());
    e.backspace(H);
    assert_eq!(e.text, b"abc\ndef".to_vec());
    assert_eq!((e.cursor.line, e.cursor.column), (1, 2));
}

#[test]
fn insert_then_backspace_restores_newline() {
    let mut e = ed("abcd");
    e.cursor.column = 2;
    e.insert_char('\n', H);
    assert_eq!(e.text, b"ab\ncd".to_vec());
    assert_eq!((e.cursor.line, e.cursor.column), (1, 0));
    e.backspace(H);
    assert_eq!(e.text, b"abcd".to_vec());
    assert_eq!((e.cursor.line, e.cursor.column), (0, 2));
}

#[test]
fn insert_then_backspace_restores_multibyte() {
    let mut e = ed("ab");
    e.cursor.column = 1;
    e.insert_char('é', H);
    assert_eq!(e.text, "aéb".as_bytes().to_vec());
    assert_eq!(e.cursor.column, 3);
    e.backspace(H);
    assert_eq!(e.text, b"ab".to_vec());
    assert_eq!(e.cursor.column, 1);
}

#[test]
fn backspace_at_document_start_is_no_op() {
    let mut e = ed("abc");
    e.backspace(H);
    assert_eq!(e.text, b"abc".to_vec());
    assert_eq!((e.cursor.line, e.cursor.column), (0, 0));
}

#[test]
fn delete_removes_character_under_cursor() {
    let mut e = ed("abc");
    e.cursor.column = 1;
    e.delete();
    assert_eq!(e.text, b"ac".to_vec());
    assert_eq!(e.cursor.column, 1);
}

#[test]
fn delete_at_document_end_is_no_op() {
    let mut e = ed("abc");
    e.cursor.column = 3;
    e.delete();
    assert_eq!(e.text, b"abc".to_vec());
}

#[test]
fn delete_joins_lines_at_line_end() {
    let mut e = ed("ab\ncd");
    e.cursor.column = 2;
    e.delete();
    assert_eq!(e.text, b"abcd".to_vec());
    assert_eq!(e.lines.len(), 1);
}

#[test]
fn cut_then_paste_restores_selection() {
    let mut e = ed("hello world");
    let mut cfg = Config::new();
    e.marker = Some(3);
    e.cursor.column = 8;
    e.cut(&mut cfg);
    assert_eq!(cfg.clipboard, b"lo wo".to_vec());
    assert_eq!(e.text, b"helrld".to_vec());
    assert_eq!(e.cursor.column, 3);
    e.paste(&cfg);
    assert_eq!(e.text, b"hello world".to_vec());
    assert_eq!(e.cursor.column, 8);
}

#[test]
fn cut_then_paste_restores_whole_line_with_newline() {
    let mut e = ed("abc\ndef\n");
    let mut cfg = Config::new();
    e.cursor.line = 0;
    e.cursor.column = 1;
    e.cut(&mut cfg);
    assert_eq!(cfg.clipboard, b"abc\n".to_vec());
    assert_eq!(e.text, b"def\n".to_vec());
    assert_eq!((e.cursor.line, e.cursor.column), (0, 0));
    e.paste(&cfg);
    assert_eq!(e.text, b"abc\ndef\n".to_vec());
}

#[test]
fn cut_of_final_line_without_newline_gains_one_on_paste() {
    // The one case where cut-then-paste is not exact: the whole-line cut of
    // a final line with no terminating newline still puts a newline on the
    // clipboard, so pasting it back appends one.
    let mut e = ed("abc");
    let mut cfg = Config::new();
    e.cut(&mut cfg);
    assert_eq!(cfg.clipboard, b"abc\n".to_vec());
    assert_eq!(e.text, b"".to_vec());
    e.paste(&cfg);
    assert_eq!(e.text, b"abc\n".to_vec());
}

#[test]
fn selection_is_normalized_both_ways() {
    let mut e = ed("hello");
    e.marker = Some(4);
    e.cursor.column = 1;
    let sel = e.selection().unwrap();
    assert!(sel.start <= sel.end);
    assert_eq!((sel.start, sel.end), (1, 4));
    e.marker = Some(1);
    e.cursor.column = 4;
    let sel = e.selection().unwrap();
    assert!(sel.start <= sel.end);
    assert_eq!((sel.start, sel.end), (1, 4));
    e.marker = None;
    assert!(e.selection().is_none());
}

#[test]
fn selection_or_line_falls_back_to_current_line() {
    let mut e = ed("abc\ndef");
    e.cursor.line = 1;
    let r = e.selection_or_line();
    assert_eq!((r.start, r.end), (4, 7));
    e.marker = Some(5);
    e.cursor.column = 2;
    let r = e.selection_or_line();
    assert_eq!((r.start, r.end), (5, 6));
}

#[test]
fn copy_without_selection_appends_newline() {
    let mut e = ed("abc\ndef\n");
    let mut cfg = Config::new();
    e.move_down(1, H);
    assert_eq!((e.cursor.line, e.cursor.column), (1, 0));
    e.copy(&mut cfg);
    assert_eq!(cfg.clipboard, b"def\n".to_vec());
    // Copying leaves the text and cursor alone.
    assert_eq!(e.text, b"abc\ndef\n".to_vec());
    assert_eq!((e.cursor.line, e.cursor.column), (1, 0));
}

#[test]
fn copy_with_selection_is_exact() {
    let mut e = ed("abc\ndef");
    let mut cfg = Config::new();
    e.marker = Some(2);
    e.cursor.line = 1;
    e.cursor.column = 1;
    e.copy(&mut cfg);
    assert_eq!(cfg.clipboard, b"c\nd".to_vec());
}

#[test]
fn paste_reads_clipboard_without_consuming() {
    let mut e = Editor::new(None);
    let mut cfg = Config::new();
    cfg.set_clipboard(b"ab".to_vec());
    e.paste(&cfg);
    e.paste(&cfg);
    assert_eq!(e.text, b"abab".to_vec());
    assert_eq!(cfg.clipboard, b"ab".to_vec());
}

#[test]
fn vertical_moves_preserve_character_column() {
    let mut e = ed("wide line\nx\nlonger line");
    e.cursor.column = 7;
    e.move_down(1, H);
    assert_eq!((e.cursor.line, e.cursor.column), (1, 1));
    e.move_down(1, H);
    assert_eq!((e.cursor.line, e.cursor.column), (2, 1));
    e.move_up(5, H);
    assert_eq!((e.cursor.line, e.cursor.column), (0, 1));
}

#[test]
fn vertical_move_snaps_to_character_boundary() {
    // Line 0 starts with a two-byte character; a character count of 1 from
    // line 1 would land between its bytes and must snap back to its start.
    let mut e = ed("éx\nab");
    e.cursor.line = 1;
    e.cursor.column = 1;
    e.move_up(1, H);
    assert_eq!((e.cursor.line, e.cursor.column), (0, 0));
}

#[test]
fn move_down_saturates_at_last_line() {
    let mut e = ed("a\nb\nc");
    e.move_down(99, H);
    assert_eq!(e.cursor.line, 2);
    e.move_up(99, H);
    assert_eq!(e.cursor.line, 0);
}

#[test]
fn move_home_and_end() {
    let mut e = ed("hello\nworld");
    e.cursor.column = 3;
    e.move_home();
    assert_eq!(e.cursor.column, 0);
    e.move_end();
    assert_eq!(e.cursor.column, 5);
}

#[test]
fn move_to_byte_finds_line_and_column() {
    let mut e = ed("abc\ndef\ng");
    e.move_to_byte(5);
    assert_eq!((e.cursor.line, e.cursor.column), (1, 1));
    e.move_to_byte(3);
    assert_eq!((e.cursor.line, e.cursor.column), (0, 3));
    e.move_to_byte(9);
    assert_eq!((e.cursor.line, e.cursor.column), (2, 1));
}

#[test]
fn scroll_follows_cursor() {
    let text = vec![b'a', b'\n'].repeat(50);
    let mut e = Editor::with_text(text, None);
    e.move_down(40, 12);
    assert_eq!(e.cursor.line, 40);
    // The cursor line must sit between scroll and scroll + (height - 2).
    assert!(e.scroll <= 40);
    assert!(40 <= e.scroll + 10);
    e.move_up(40, 12);
    assert_eq!(e.cursor.line, 0);
    assert_eq!(e.scroll, 0);
}
