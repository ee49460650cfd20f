use textedit::clipboard::Clipboard;
use textedit::config::Config;
use textedit::edit::{Key, Mods};
use textedit::editor::Editor;

const H: usize = 24;

fn ed(s: &str) -> Editor {
    Editor::with_text(s.as_bytes().to_vec(), None)
}

#[test]
fn physical_column_expands_tabs() {
    // "a\tb": the characters before byte column 2 are 'a' and the tab; the
    // tab renders four columns wide, so it adds TAB_SIZE - 1 extra columns.
    let mut e = ed("a\tb");
    e.cursor.column = 2;
    assert_eq!(e.physical_column(), 5);
    e.cursor.column = 3;
    assert_eq!(e.physical_column(), 6);
    e.cursor.column = 1;
    assert_eq!(e.physical_column(), 1);
    e.cursor.column = 0;
    assert_eq!(e.physical_column(), 0);
}

#[test]
fn physical_column_counts_characters_not_bytes() {
    let mut e = ed("éé");
    e.cursor.column = 4;
    assert_eq!(e.physical_column(), 2);
}

#[test]
fn shift_movement_selects_and_cut_takes_it() {
    // Document "hello world": five shift-rights anchor the marker at byte 0
    // and carry the cursor to byte 5; cut takes exactly "hello".
    let mut e = ed("hello world");
    let mut cfg = Config::new();
    for _ in 0..5 {
        let moved = e.input_movement(Key::Right, true, H);
        assert!(moved);
    }
    assert_eq!(e.marker, Some(0));
    assert_eq!((e.cursor.line, e.cursor.column), (0, 5));
    e.cut(&mut cfg);
    assert_eq!(cfg.clipboard, b"hello".to_vec());
    assert_eq!(e.text, b" world".to_vec());
    assert_eq!((e.cursor.line, e.cursor.column), (0, 0));
    assert!(e.marker.is_none());
}

#[test]
fn unshifted_movement_clears_marker() {
    let mut e = ed("abc");
    e.input_movement(Key::Right, true, H);
    assert_eq!(e.marker, Some(0));
    e.input_movement(Key::Right, true, H);
    assert_eq!(e.marker, Some(0));
    e.input_movement(Key::Left, false, H);
    assert!(e.marker.is_none());
}

#[test]
fn non_movement_key_is_not_consumed_by_input_movement() {
    let mut e = ed("abc");
    let moved = e.input_movement(Key::Char('q'), false, H);
    assert!(!moved);
    assert_eq!(e.text, b"abc".to_vec());
}

#[test]
fn cancelled_save_prompt_keeps_document_untitled() {
    // An empty, untitled document: saving first asks for a path; when the
    // prompt is cancelled the path stays absent and the document unsaved.
    let mut e = Editor::new(None);
    let path_was_new = e.path().is_none();
    assert!(path_was_new);
    let entered: Option<Vec<u8>> = None;
    e.set_path(entered);
    assert!(e.path().is_none());
    assert!(e.is_unsaved());
}

#[test]
fn successful_save_clears_unsaved_and_reports() {
    let mut e = Editor::new(None);
    e.set_path(Some(b"/tmp/x".to_vec()));
    e.finish_save(true, Vec::new(), true);
    assert!(!e.is_unsaved());
    assert_eq!(e.message.clone().unwrap(), b"Saved file as '/tmp/x'".to_vec());
    assert_eq!(e.path().clone().unwrap(), b"/tmp/x".to_vec());
}

#[test]
fn failed_save_reverts_freshly_chosen_path() {
    let mut e = Editor::new(None);
    e.set_path(Some(b"/tmp/x".to_vec()));
    e.finish_save(false, b"denied".to_vec(), true);
    assert!(e.is_unsaved());
    assert!(e.path().is_none());
    assert_eq!(
        e.message.clone().unwrap(),
        b"Could not save file as '/tmp/x': denied".to_vec()
    );
}

#[test]
fn failed_save_keeps_preexisting_path() {
    let mut e = Editor::with_text(Vec::new(), Some(b"/tmp/x".to_vec()));
    e.insert_char('a', H);
    e.finish_save(false, b"denied".to_vec(), false);
    assert!(e.is_unsaved());
    assert_eq!(e.path().clone().unwrap(), b"/tmp/x".to_vec());
}

#[test]
fn title_marks_unsaved_documents() {
    let e = Editor::with_text(Vec::new(), Some(b"/home/u/notes.txt".to_vec()));
    assert_eq!(e.title(), b" notes.txt".to_vec());
    let mut e2 = e;
    e2.insert_char('a', H);
    assert_eq!(e2.title(), b"*notes.txt".to_vec());
}

#[test]
fn title_falls_back_to_untitled() {
    let e = Editor::new(None);
    assert_eq!(e.title(), b"*untitled".to_vec());
    let e2 = Editor::with_text(Vec::new(), Some(b"dir/".to_vec()));
    assert_eq!(e2.title(), b"*untitled".to_vec());
}

#[test]
fn status_text_shows_position_and_title() {
    let mut e = Editor::new(None);
    assert_eq!(e.status_text(), b"[1, 0] *untitled".to_vec());
    e.insert_char('a', H);
    e.insert_char('\n', H);
    assert_eq!(e.status_text(), b"[2, 0] *untitled".to_vec());
}

#[test]
fn status_text_prefers_message() {
    let mut e = Editor::new(None);
    e.set_message(b"hi there".to_vec());
    assert_eq!(e.status_text(), b"hi there".to_vec());
    e.clear_message();
    assert_eq!(e.status_text(), b"[1, 0] *untitled".to_vec());
}

#[test]
fn input_plain_keys_edit_text() {
    let mut e = Editor::new(None);
    let mut cfg = Config::new();
    assert!(!e.input(&mut cfg, Key::Char('h'), Mods::Plain, H));
    assert!(!e.input(&mut cfg, Key::Char('i'), Mods::Plain, H));
    assert!(!e.input(&mut cfg, Key::Enter, Mods::Plain, H));
    assert!(!e.input(&mut cfg, Key::Tab, Mods::Plain, H));
    assert_eq!(e.text, b"hi\n\t".to_vec());
    assert!(!e.input(&mut cfg, Key::Backspace, Mods::Plain, H));
    assert_eq!(e.text, b"hi\n".to_vec());
}

#[test]
fn input_shifted_letters_are_uppercased() {
    let mut e = Editor::new(None);
    let mut cfg = Config::new();
    e.input(&mut cfg, Key::Char('a'), Mods::Shift, H);
    e.input(&mut cfg, Key::Char('!'), Mods::Shift, H);
    assert_eq!(e.text, b"A!".to_vec());
}

#[test]
fn input_control_combinations() {
    let mut e = ed("abc");
    let mut cfg = Config::new();
    // Control-s only reports that a save is wanted.
    assert!(e.input(&mut cfg, Key::Char('s'), Mods::Ctrl, H));
    assert_eq!(e.text, b"abc".to_vec());
    // Control-c copies the current line.
    assert!(!e.input(&mut cfg, Key::Char('c'), Mods::Ctrl, H));
    assert_eq!(cfg.clipboard, b"abc\n".to_vec());
    // Control-l toggles line numbers.
    assert!(cfg.line_numbers);
    assert!(!e.input(&mut cfg, Key::Char('l'), Mods::Ctrl, H));
    assert!(!cfg.line_numbers);
    // Control-v pastes.
    assert!(!e.input(&mut cfg, Key::Char('v'), Mods::Ctrl, H));
    assert_eq!(e.text, b"abc\nabc".to_vec());
}

#[test]
fn input_esc_deactivates() {
    let mut e = ed("abc");
    let mut cfg = Config::new();
    e.enter();
    assert!(e.is_active());
    e.input(&mut cfg, Key::Esc, Mods::Plain, H);
    assert!(!e.is_active());
}

#[test]
fn input_movement_key_moves_cursor() {
    let mut e = ed("abc\ndef");
    let mut cfg = Config::new();
    assert!(!e.input(&mut cfg, Key::Down, Mods::Plain, H));
    assert_eq!((e.cursor.line, e.cursor.column), (1, 0));
    assert!(!e.input(&mut cfg, Key::End, Mods::Plain, H));
    assert_eq!((e.cursor.line, e.cursor.column), (1, 3));
}

#[test]
fn clipboard_slot_replaces_and_reads() {
    let mut c = Clipboard::new();
    assert_eq!(c.get(), Vec::<u8>::new());
    c.set(b"one".to_vec());
    assert_eq!(c.get(), b"one".to_vec());
    c.set(b"two".to_vec());
    assert_eq!(c.get(), b"two".to_vec());
    // Reading does not consume.
    assert_eq!(c.get(), b"two".to_vec());
}

#[test]
fn config_defaults() {
    let cfg = Config::new();
    assert!(cfg.line_numbers);
    assert_eq!(cfg.clipboard().clone(), Vec::<u8>::new());
}

#[test]
fn editor_enter_builds_lines_and_activates() {
    let mut e = Editor::with_text(b"a\nb".to_vec(), Some(b"f".to_vec()));
    e.enter();
    assert!(e.is_active());
    assert_eq!(e.lines.len(), 2);
    assert!(!e.is_unsaved());
}
