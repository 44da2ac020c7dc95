use joskilo::screen::{message_line, status_line, truncated, welcome_line};
use joskilo::{Action, Document, Editor, Key, Position, ScreenLine};

fn editor(text: &str) -> Editor {
    Editor::new(Document::from_text(text, None))
}

fn lines(ed: &Editor) -> Vec<String> {
    let doc = ed.document();
    (0..doc.len()).map(|i| doc.row(i).unwrap().as_str().to_string()).collect()
}

fn go(ed: &mut Editor, x: usize, y: usize) {
    for _ in 0..y {
        ed.move_cursor(Key::Down, 10);
    }
    for _ in 0..x {
        ed.move_cursor(Key::Right, 10);
    }
}

#[test]
fn right_at_line_end_wraps_to_next_line() {
    let mut ed = editor("ab\ncd\n");
    go(&mut ed, 2, 0);
    assert_eq!(ed.cursor_pos(), Position { x: 2, y: 0 });
    ed.move_cursor(Key::Right, 10);
    assert_eq!(ed.cursor_pos(), Position { x: 0, y: 1 });
}

#[test]
fn left_at_line_start_wraps_to_previous_line_end() {
    let mut ed = editor("abc\nd\n");
    ed.move_cursor(Key::Down, 10);
    assert_eq!(ed.cursor_pos(), Position { x: 0, y: 1 });
    ed.move_cursor(Key::Left, 10);
    assert_eq!(ed.cursor_pos(), Position { x: 3, y: 0 });
    ed.move_cursor(Key::Home, 10);
    ed.move_cursor(Key::Left, 10);
    assert_eq!(ed.cursor_pos(), Position { x: 0, y: 0 });
}

#[test]
fn column_is_clamped_to_shorter_line() {
    let mut ed = editor("abcdef\nxy\n");
    ed.move_cursor(Key::End, 10);
    assert_eq!(ed.cursor_pos(), Position { x: 6, y: 0 });
    ed.move_cursor(Key::Down, 10);
    assert_eq!(ed.cursor_pos(), Position { x: 2, y: 1 });
    ed.move_cursor(Key::Down, 10);
    assert_eq!(ed.cursor_pos(), Position { x: 0, y: 2 });
    ed.move_cursor(Key::Down, 10);
    assert_eq!(ed.cursor_pos(), Position { x: 0, y: 2 });
    ed.move_cursor(Key::Up, 10);
    ed.move_cursor(Key::Up, 10);
    ed.move_cursor(Key::Up, 10);
    assert_eq!(ed.cursor_pos(), Position { x: 0, y: 0 });
}

#[test]
fn page_moves_are_clamped() {
    let text: String = (0..25).map(|i| format!("{}\n", i)).collect();
    let mut ed = editor(&text);
    ed.move_cursor(Key::PageDown, 10);
    assert_eq!(ed.cursor_pos().y, 10);
    ed.move_cursor(Key::PageDown, 10);
    ed.move_cursor(Key::PageDown, 10);
    assert_eq!(ed.cursor_pos().y, 25);
    ed.move_cursor(Key::PageUp, 10);
    assert_eq!(ed.cursor_pos().y, 15);
    ed.move_cursor(Key::PageUp, 20);
    assert_eq!(ed.cursor_pos().y, 0);
}

#[test]
fn viewport_follows_cursor_minimally() {
    let text: String = (0..30).map(|i| format!("line {}\n", i)).collect();
    let mut ed = editor(&text);
    for _ in 0..7 {
        ed.process_keypress(Key::Down, 80, 5);
    }
    assert_eq!(ed.cursor_pos().y, 7);
    assert_eq!(ed.offset().y, 3);
    ed.process_keypress(Key::Up, 80, 5);
    assert_eq!(ed.offset().y, 3);
    for _ in 0..4 {
        ed.process_keypress(Key::Up, 80, 5);
    }
    assert_eq!(ed.cursor_pos().y, 2);
    assert_eq!(ed.offset().y, 2);
    ed.move_cursor(Key::End, 5);
    ed.scroll(3, 5);
    assert_eq!(ed.offset().x, 4);
    ed.move_cursor(Key::Home, 5);
    ed.scroll(3, 5);
    assert_eq!(ed.offset().x, 0);
}

#[test]
fn typing_inserts_and_advances() {
    let mut ed = editor("ab\ncd\n");
    ed.move_cursor(Key::Right, 10);
    assert_eq!(ed.process_keypress(Key::Char('X'), 80, 24), Action::Nothing);
    assert_eq!(lines(&ed), vec!["aXb", "cd"]);
    assert_eq!(ed.cursor_pos(), Position { x: 2, y: 0 });
    ed.process_keypress(Key::Char('\n'), 80, 24);
    assert_eq!(lines(&ed), vec!["aX", "b", "cd"]);
    assert_eq!(ed.cursor_pos(), Position { x: 0, y: 1 });
}

#[test]
fn backspace_and_delete() {
    let mut ed = editor("ab\ncd\n");
    ed.process_keypress(Key::Backspace, 80, 24);
    assert_eq!(lines(&ed), vec!["ab", "cd"]);
    ed.process_keypress(Key::Down, 80, 24);
    ed.process_keypress(Key::Backspace, 80, 24);
    assert_eq!(lines(&ed), vec!["abcd"]);
    assert_eq!(ed.cursor_pos(), Position { x: 2, y: 0 });
    ed.process_keypress(Key::Delete, 80, 24);
    assert_eq!(lines(&ed), vec!["abd"]);
    assert_eq!(ed.cursor_pos(), Position { x: 2, y: 0 });
}

#[test]
fn quit_and_save_commands() {
    let mut ed = editor("a");
    assert_eq!(ed.process_keypress(Key::Ctrl('s'), 80, 24), Action::Save);
    assert!(!ed.should_quit());
    assert_eq!(ed.process_keypress(Key::Ctrl('x'), 80, 24), Action::Nothing);
    assert_eq!(ed.process_keypress(Key::Other, 80, 24), Action::Nothing);
    assert_eq!(ed.process_keypress(Key::Ctrl('q'), 80, 24), Action::Quit);
    assert!(ed.should_quit());
    assert_eq!(lines(&ed), vec!["a"]);
}

#[test]
fn screen_rows_show_lines_welcome_or_filler() {
    let ed = editor("a\tb\nsecond\n");
    assert_eq!(ed.screen_line(0, 80, 9), ScreenLine::Text("a b".to_string()));
    assert_eq!(ed.screen_line(1, 3, 9), ScreenLine::Text("sec".to_string()));
    assert_eq!(ed.screen_line(3, 80, 9), ScreenLine::Filler);
    let empty = editor("");
    assert_eq!(empty.screen_line(3, 80, 9), ScreenLine::Welcome);
    assert_eq!(empty.screen_line(2, 80, 9), ScreenLine::Filler);
}

#[test]
fn screen_cursor_is_relative_to_window() {
    let text: String = (0..30).map(|i| format!("{}\n", i)).collect();
    let mut ed = editor(&text);
    for _ in 0..12 {
        ed.process_keypress(Key::Down, 80, 10);
    }
    assert_eq!(ed.screen_cursor(), Position { x: 0, y: 9 });
}

#[test]
fn status_bar_text() {
    assert_eq!(
        status_line(Some("file.txt"), 3, 1, 30),
        "file.txt - 3 lines         1/3"
    );
    assert_eq!(status_line(None, 0, 1, 10), "[No Name] ");
    assert_eq!(status_line(None, 120, 45, 19), "[No Name] - 120 lin");
    assert_eq!(
        status_line(Some("a_very_long_file_name_indeed.txt"), 7, 7, 40),
        "a_very_long_file_nam - 7 lines       7/7"
    );
    let ed = Editor::new(Document::from_text("x\ny\n", Some("n".to_string())));
    assert_eq!(ed.status_bar(20), "n - 2 lines      1/2");
}

#[test]
fn welcome_text_is_centred() {
    let line = welcome_line("0.1.0", 80);
    assert_eq!(line, format!("~{}Joskilo editor -- version 0.1.0", " ".repeat(23)));
    assert_eq!(welcome_line("0.1.0", 5), "~Josk");
}

#[test]
fn message_shows_for_five_seconds() {
    assert_eq!(message_line("saved", 4999, 80), "saved");
    assert_eq!(message_line("saved", 5000, 80), "");
    assert_eq!(message_line("saved", 0, 3), "sav");
    assert_eq!(truncated("\u{e9}t\u{e9}", 2), "\u{e9}t");
}
