use serial_unit_testing::monitor::help_window::{HelpEntry, HelpWindow};
use serial_unit_testing::monitor::main_window::{MainAction, MainWindow};
use serial_unit_testing::monitor::text_storage::TextStorage;
use serial_unit_testing::utils::{NewlineFormat, TextFormat};
use serial_unit_testing::windows::{
    is_quit_key, KeyCode, KeyEvent, KeyModifiers, TextStyle, WindowError, WindowStack,
};

fn key(code: KeyCode) -> KeyEvent {
    KeyEvent { code, modifiers: KeyModifiers { shift: false, control: false, alt: false } }
}

fn ctrl(c: char) -> KeyEvent {
    KeyEvent {
        code: KeyCode::Char(c),
        modifiers: KeyModifiers { shift: false, control: true, alt: false },
    }
}

fn shift(code: KeyCode) -> KeyEvent {
    KeyEvent { code, modifiers: KeyModifiers { shift: true, control: false, alt: false } }
}

fn typed(text: &str) -> TextStorage {
    let mut s = TextStorage::default();
    for c in text.chars() {
        s.input_add(c);
    }
    s
}

#[test]
fn typing_keeps_cursor_at_end() {
    let s = typed("abc");
    assert_eq!(s.get_input(), "abc");
    assert_eq!(s.get_cursor_position(), 3);
    let s = TextStorage::default();
    assert_eq!(s.get_cursor_position(), 1);
    assert!(s.is_input_empty());
}

#[test]
fn editing_at_the_cursor() {
    let mut s = typed("abc");
    s.retreat_cursor();
    s.input_add('x');
    assert_eq!(s.get_input(), "abxc");
    assert_eq!(s.get_cursor_position(), 3);
    s.remove_character(true);
    assert_eq!(s.get_input(), "abc");
    assert_eq!(s.get_cursor_position(), 2);
    s.remove_character(false);
    assert_eq!(s.get_input(), "ab");
    s.cursor_at_beginning();
    s.remove_character(true);
    assert_eq!(s.get_input(), "ab");
    s.remove_character(false);
    assert_eq!(s.get_input(), "b");
    s.cursor_at_end();
    assert_eq!(s.get_cursor_position(), 1);
    s.remove_character(true);
    assert!(s.is_input_empty());
    assert_eq!(s.get_cursor_position(), 1);
}

#[test]
fn cursor_stays_in_the_input() {
    let mut s = typed("ab");
    for _ in 0..5 {
        s.advance_cursor();
    }
    assert_eq!(s.get_cursor_position(), 2);
    for _ in 0..5 {
        s.retreat_cursor();
    }
    assert_eq!(s.get_cursor_position(), 1);
}

#[test]
fn history_navigation() {
    let mut s = typed("first");
    s.add_history_entry();
    s.reset_input();
    for c in "second".chars() {
        s.input_add(c);
    }
    s.add_history_entry();
    s.add_history_entry();
    s.reset_input();
    for c in "typing".chars() {
        s.input_add(c);
    }
    s.advance_history();
    assert_eq!(s.get_input(), "second");
    assert_eq!(s.get_cursor_position(), 6);
    s.advance_history();
    assert_eq!(s.get_input(), "first");
    s.advance_history();
    assert_eq!(s.get_input(), "first");
    s.retreat_history();
    assert_eq!(s.get_input(), "second");
    s.retreat_history();
    assert_eq!(s.get_input(), "typing");
    s.retreat_history();
    assert_eq!(s.get_input(), "typing");
}

#[test]
fn output_lines() {
    let mut s = TextStorage::default();
    s.output_add_str("one\ntwo\r\nthree");
    assert_eq!(s.get_output(), "one\ntwo\r\nthree");
    assert_eq!(s.get_output_line(), 2);
    s.advance_output();
    assert_eq!(s.get_output_line(), 3);
    s.advance_output();
    assert_eq!(s.get_output_line(), 3);
    s.retreat_output();
    assert_eq!(s.get_output_line(), 2);
    s.reset_output();
    assert_eq!(s.get_output(), "");
    assert_eq!(s.get_output_line(), 0);
    s.retreat_output();
    assert_eq!(s.get_output_line(), 0);
}

#[test]
fn last_lines_of_a_text() {
    let text = "one\ntwo\r\nthree";
    assert_eq!(TextStorage::get_last_lines(text, 0, 2), "two\nthree\n");
    assert_eq!(TextStorage::get_last_lines(text, 7, 10), "one\ntwo\nthree\n");
    assert_eq!(TextStorage::get_last_lines(text, 0, 0), "");
    assert_eq!(TextStorage::get_last_lines("a\n\nb\n", 0, 2), "\nb\n");
    assert_eq!(TextStorage::get_last_lines("", 0, 3), "");
}

#[test]
fn help_window_pages() {
    let mut w = HelpWindow::new();
    assert_eq!(w.title(), "Help: 1/1");
    assert_eq!(w.exit_text(), "Press ESC to exit help");
    // 15 entries, 5 rows hold one entry a page
    assert_eq!(w.update_pages(5), 1);
    assert_eq!(w.title(), "Help: 1/16");
    assert_eq!(w.exit_text(), "Press left or right to change pages, ESC to exit help");
    w.handle_key_event(key(KeyCode::Right));
    w.handle_key_event(key(KeyCode::Right));
    assert_eq!(w.title(), "Help: 3/16");
    w.handle_key_event(key(KeyCode::Left));
    assert_eq!(w.title(), "Help: 2/16");
    let text = w.page_text(1);
    assert_eq!(text.len(), 4);
    assert_eq!(text[0].text, "Key   Action\n\n");
    assert_eq!(text[0].style, TextStyle::Bold);
    assert_eq!(text[1].text, " ");
    assert_eq!(text[2].text, "F2");
    assert_eq!(text[2].style, TextStyle::Highlighted);
    assert_eq!(text[3].text, " - Change the input format\n\n");
    // a tall area shows every entry on one page
    assert_eq!(w.update_pages(40), 18);
    assert_eq!(w.title(), "Help: 2/1");
    w.handle_key_event(key(KeyCode::Right));
    assert_eq!(w.title(), "Help: 2/1");
    assert!(!w.should_close());
    w.handle_key_event(key(KeyCode::Esc));
    assert!(w.should_close());
}

#[test]
fn help_entries_are_right_aligned() {
    let entries = vec![
        HelpEntry::new("F1".to_string(), "Help".to_string()),
        HelpEntry::new("Ctrl + C".to_string(), "Quit".to_string()),
    ];
    let text = HelpWindow::get_help_text_entries(&entries, 0, 10);
    assert_eq!(text.len(), 7);
    assert_eq!(text[0].text, "     Key   Action\n\n");
    assert_eq!(text[1].text, "      ");
    assert_eq!(text[2].text, "F1");
    assert_eq!(text[4].text, "");
    assert_eq!(text[5].text, "Ctrl + C");
    assert_eq!(text[6].text, " - Quit\n\n");
    let text = HelpWindow::get_help_text_entries(&entries, 5, 10);
    assert_eq!(text.len(), 1);
    assert_eq!(text[0].text, "Key   Action\n\n");
}

#[test]
fn main_window_typing_and_sending() {
    let mut w = MainWindow::new();
    assert_eq!(w.control_text().len(), 14);
    assert_eq!(w.control_text()[0].text, "F1");
    assert_eq!(w.control_text()[1].text, "Help ");
    assert_eq!(w.control_text()[12].text, "F10");
    for c in "hi".chars() {
        assert!(matches!(w.handle_key_event(key(KeyCode::Char(c))), MainAction::Nothing));
    }
    assert_eq!(w.get_input_render_text(), "hi");
    w.handle_tick();
    assert_eq!(w.get_input_render_text(), "hi\u{2588}");
    w.handle_key_event(key(KeyCode::Left));
    assert_eq!(w.get_input_render_text(), "h\u{2588}");
    match w.handle_key_event(key(KeyCode::Char('\n'))) {
        MainAction::Send(text, format) => {
            assert_eq!(text, "hi\n");
            assert_eq!(format, TextFormat::Text);
        }
        _ => panic!("a newline sends the input"),
    }
    assert!(w.text_storage.is_input_empty());
    w.handle_key_event(key(KeyCode::Up));
    assert_eq!(w.text_storage.get_input(), "hi");
}

#[test]
fn main_window_function_keys() {
    let mut w = MainWindow::new();
    assert!(matches!(w.handle_key_event(key(KeyCode::F(1))), MainAction::OpenHelp));
    w.handle_key_event(key(KeyCode::F(2)));
    assert_eq!(w.text_storage.input_format, TextFormat::Binary);
    w.handle_key_event(key(KeyCode::F(3)));
    assert_eq!(w.text_storage.output_format, TextFormat::Binary);
    w.handle_key_event(key(KeyCode::F(5)));
    assert_eq!(w.text_storage.newline_format, NewlineFormat::Both);
    w.handle_key_event(key(KeyCode::F(6)));
    assert!(w.text_storage.escape_input);
    assert_eq!(
        w.input_title(),
        "Input - Binary/Output - Binary/Newline - Both/Escape input - Yes "
    );
    match w.handle_key_event(key(KeyCode::Char('\n'))) {
        MainAction::Send(text, format) => {
            assert_eq!(text, "0000110100001010");
            assert_eq!(format, TextFormat::Binary);
        }
        _ => panic!("a newline sends the input"),
    }
    assert!(!w.should_close());
    w.handle_key_event(key(KeyCode::F(10)));
    assert!(w.should_close());
}

#[test]
fn main_window_control_keys_and_output() {
    let mut w = MainWindow::new();
    for c in "abc".chars() {
        w.handle_key_event(key(KeyCode::Char(c)));
    }
    w.handle_key_event(ctrl('a'));
    assert_eq!(w.text_storage.get_cursor_position(), 0);
    w.handle_key_event(ctrl('d'));
    assert_eq!(w.text_storage.get_input(), "bc");
    w.handle_key_event(ctrl('e'));
    w.handle_key_event(ctrl('h'));
    assert_eq!(w.text_storage.get_input(), "b");

    let text = w.output_text(b"a\r\nb").unwrap();
    assert_eq!(text, "a\nb");
    w.text_storage.output_add_str(&text);
    assert_eq!(w.text_storage.get_output_line(), 1);
    w.handle_key_event(shift(KeyCode::Up));
    assert_eq!(w.text_storage.get_output_line(), 0);
    w.handle_key_event(shift(KeyCode::Down));
    assert_eq!(w.text_storage.get_output_line(), 1);
    w.handle_key_event(ctrl('l'));
    assert_eq!(w.text_storage.get_output(), "");
    assert!(w.output_text(&[0xff]).is_err());
}

#[test]
fn main_window_errors() {
    let mut w = MainWindow::new();
    w.set_error("Unable to read from serial".to_string(), true);
    assert_eq!(
        w.get_input_render_text(),
        "Error: Unable to read from serial. Press ESC to continue"
    );
    w.handle_key_event(key(KeyCode::Esc));
    assert!(w.error().is_none());
    assert!(!w.should_close());
    w.set_error("I/O thread closed".to_string(), false);
    assert_eq!(w.get_input_render_text(), "Error: I/O thread closed. Press ESC to close");
    w.handle_key_event(key(KeyCode::Esc));
    assert!(w.should_close());
}

#[test]
fn quit_key() {
    assert!(is_quit_key(&ctrl('c')));
    assert!(!is_quit_key(&key(KeyCode::Char('c'))));
    let e = WindowError::new("x".to_string(), false);
    assert_eq!(e.description, "x");
    assert!(!e.recoverable);
}

#[test]
fn typing_then_backspace_restores_the_input() {
    let mut s = typed("abc");
    s.retreat_cursor();
    let cursor = s.get_cursor_position();
    s.input_add('x');
    s.remove_character(true);
    assert_eq!(s.get_input(), "abc");
    assert_eq!(s.get_cursor_position(), cursor);

    let mut s = typed("abc");
    s.cursor_at_beginning();
    s.input_add('x');
    s.remove_character(true);
    assert_eq!(s.get_input(), "abc");
    assert_eq!(s.get_cursor_position(), 1);
}

#[test]
fn window_stack() {
    let mut stack: WindowStack<&str> = WindowStack::new();
    assert!(stack.is_empty());
    stack.push_window("main");
    stack.apply_event_result(false, Some("help"));
    assert_eq!(*stack.top_mut(), "help");
    stack.apply_event_result(true, None);
    assert_eq!(*stack.top_mut(), "main");
    stack.apply_event_result(true, Some("other"));
    assert_eq!(*stack.top_mut(), "other");
    stack.close_top();
    assert!(stack.is_empty());
    stack.close_top();
    stack.apply_event_result(true, None);
    assert!(stack.is_empty());
}
