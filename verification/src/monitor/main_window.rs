//! The main window of the monitor: the output received, the input being
//! typed, and what each key does to them.

use vstd::prelude::*;
use crate::chars::push_chars;
use crate::error::Result;
use crate::monitor::text_storage::{
    TextStorage, TextStorageView, char_added, char_removed, cursor_advanced, cursor_at_last,
    cursor_at_start, cursor_retreated, history_added, initial_storage, history_advanced, history_retreated,
    input_reset, lemma_operations_keep_wf, output_advanced, output_reset, output_retreated,
    storage_wf,
};
use crate::stdlib::string_push;
use crate::utils::{
    TextFormat, add_newline, char_count, escape_text, escaped_text, format_name,
    get_bool, get_format_name, get_newline_format_name, get_next_format, get_next_newline_format,
    insert_char, min_digits, newline_format_name, newline_text, next_format,
    next_newline_format, push_decimal, radix_string, remove_char,
};
use crate::windows::{
    KeyCode, KeyEvent, StyledText, TextStyle, WindowError, only_control, only_shift, styled_view,
};

verus! {

/// What the main window is: whether it is to be closed, its title, the
/// hot keys shown at the bottom, its texts, the error shown (its
/// description and whether it is recoverable), and whether the blinking
/// cursor is drawn.
pub struct MainWindowView {
    pub should_close: bool,
    pub title: Seq<char>,
    pub control_text: Seq<(Seq<char>, TextStyle)>,
    pub text_storage: TextStorageView,
    pub error: Option<(Seq<char>, bool)>,
    pub cursor_state: bool,
}

/// The main window of the monitor.
pub struct MainWindow {
    should_close: bool,
    /// The title shown above the output.
    pub title: String,
    control_text: Vec<StyledText>,
    /// The texts of the window.
    pub text_storage: TextStorage,
    error: Option<WindowError>,
    cursor_state: bool,
}

/// An error as a value.
pub open spec fn error_view(e: Option<WindowError>) -> Option<(Seq<char>, bool)> {
    match e {
        Some(err) => Some((err.description@, err.recoverable)),
        None => None,
    }
}

impl View for MainWindow {
    type V = MainWindowView;

    closed spec fn view(&self) -> MainWindowView {
        MainWindowView {
            should_close: self.should_close,
            title: self.title@,
            control_text: self.control_text@.map_values(|t: StyledText| styled_view(t)),
            text_storage: self.text_storage@,
            error: error_view(self.error),
            cursor_state: self.cursor_state,
        }
    }
}

/// What a key asks of the monitor besides changing the window.
pub enum MainAction {
    /// Nothing more.
    Nothing,
    /// Open the help window.
    OpenHelp,
    /// Send a text in a format to the serial port.
    Send(String, TextFormat),
}

/// An action as a value.
pub enum MainActionView {
    Nothing,
    OpenHelp,
    Send(Seq<char>, TextFormat),
}

impl View for MainAction {
    type V = MainActionView;

    open spec fn view(&self) -> MainActionView {
        match self {
            MainAction::Nothing => MainActionView::Nothing,
            MainAction::OpenHelp => MainActionView::OpenHelp,
            MainAction::Send(t, f) => MainActionView::Send(t@, *f),
        }
    }
}

/// The hot key `F<num>` and its name, as shown at the bottom.
pub open spec fn control_key(num: nat, name: Seq<char>) -> Seq<(Seq<char>, TextStyle)> {
    seq![("F"@ + min_digits(num, 10), TextStyle::Plain), (name + " "@, TextStyle::Highlighted)]
}

/// The hot keys shown at the bottom of the main window.
pub open spec fn control_keys() -> Seq<(Seq<char>, TextStyle)> {
    control_key(1, "Help"@) + control_key(2, "Input format"@) + control_key(3, "Output format"@)
        + control_key(4, "Clear"@) + control_key(5, "Newline"@) + control_key(
        6,
        "Input escape"@,
    ) + control_key(10, "Close"@)
}

/// The main window at the start.
pub open spec fn initial_main_window(storage: TextStorageView) -> MainWindowView {
    MainWindowView {
        should_close: false,
        title: Seq::empty(),
        control_text: control_keys(),
        text_storage: storage,
        error: None,
        cursor_state: false,
    }
}

/// The cursor character drawn in the input.
pub open spec fn cursor_char() -> char {
    '\u{2588}'
}

/// The input line as drawn: the error and how to go on when there is one;
/// else the input, with the character at the cursor replaced by the cursor
/// character while it blinks on (appended when the cursor is at the end).
pub open spec fn input_render_text(w: MainWindowView) -> Seq<char> {
    match w.error {
        Some((description, recoverable)) => "Error: "@ + description + ". "@ + if recoverable {
            "Press ESC to continue"@
        } else {
            "Press ESC to close"@
        },
        None => {
            let input = w.text_storage.input;
            let cursor = w.text_storage.cursor_position;
            if !w.cursor_state {
                input
            } else {
                let without = if input.len() > 0 && cursor < input.len() {
                    input.remove(cursor as int)
                } else {
                    input
                };
                if cursor < without.len() {
                    without.insert(cursor as int, cursor_char())
                } else {
                    without.push(cursor_char())
                }
            }
        },
    }
}

/// The title of the input box: the input and output formats, the newline
/// appended and whether input escapes are resolved.
pub open spec fn input_title(s: TextStorageView) -> Seq<char> {
    "Input - "@ + format_name(s.input_format) + "/Output - "@ + format_name(s.output_format)
        + "/Newline - "@ + newline_format_name(s.newline_format) + "/Escape input - "@ + (if s.escape_input {
        "Yes"@
    } else {
        "No"@
    }) + " "@
}

/// The text sent for the input: the input with the newline of the newline
/// format in the input format appended, escapes resolved when asked.
pub open spec fn sent_input(s: TextStorageView) -> Seq<char> {
    let text = s.input + newline_text(s.input_format, s.newline_format);
    if s.escape_input {
        escaped_text(text)
    } else {
        text
    }
}

/// The texts after the input is sent: kept in the history unless empty,
/// then cleared.
pub open spec fn after_send(s: TextStorageView) -> TextStorageView {
    input_reset(
        if s.input.len() > 0 {
            history_added(s)
        } else {
            s
        },
    )
}

/// The main window with other texts.
pub open spec fn with_storage(w: MainWindowView, s: TextStorageView) -> MainWindowView {
    MainWindowView { text_storage: s, ..w }
}

/// The main window after a key, and what the key asks for besides.
pub open spec fn main_key_step(w: MainWindowView, event: KeyEvent) -> (
    MainWindowView,
    MainActionView,
) {
    let s = w.text_storage;
    let m = event.modifiers;
    match event.code {
        KeyCode::Char(c) => if only_control(m) {
            let s2 = if c == 'a' {
                cursor_at_start(s)
            } else if c == 'd' {
                char_removed(s, false)
            } else if c == 'e' {
                cursor_at_last(s)
            } else if c == 'h' {
                char_removed(s, true)
            } else if c == 'l' {
                output_reset(s)
            } else {
                s
            };
            (with_storage(w, s2), MainActionView::Nothing)
        } else if c == '\n' {
            (
                with_storage(w, after_send(s)),
                MainActionView::Send(sent_input(s), s.input_format),
            )
        } else {
            (with_storage(w, char_added(s, c)), MainActionView::Nothing)
        },
        KeyCode::Backspace => (with_storage(w, char_removed(s, true)), MainActionView::Nothing),
        KeyCode::Delete => (with_storage(w, char_removed(s, false)), MainActionView::Nothing),
        KeyCode::Left => (with_storage(w, cursor_retreated(s)), MainActionView::Nothing),
        KeyCode::Right => (with_storage(w, cursor_advanced(s)), MainActionView::Nothing),
        KeyCode::Up => if only_shift(m) {
            (with_storage(w, output_retreated(s)), MainActionView::Nothing)
        } else {
            (with_storage(w, history_advanced(s)), MainActionView::Nothing)
        },
        KeyCode::Down => if only_shift(m) {
            (with_storage(w, output_advanced(s)), MainActionView::Nothing)
        } else {
            (with_storage(w, history_retreated(s)), MainActionView::Nothing)
        },
        KeyCode::Esc => if w.error matches Some((_, recoverable)) && recoverable {
            (
                MainWindowView { error: None, text_storage: history_advanced(s), ..w },
                MainActionView::Nothing,
            )
        } else {
            (MainWindowView { should_close: true, ..w }, MainActionView::Nothing)
        },
        KeyCode::Home => (with_storage(w, cursor_at_start(s)), MainActionView::Nothing),
        KeyCode::End => (with_storage(w, cursor_at_last(s)), MainActionView::Nothing),
        KeyCode::F(n) => if n == 1 {
            (w, MainActionView::OpenHelp)
        } else if n == 2 {
            (
                with_storage(
                    w,
                    TextStorageView { input_format: next_format(s.input_format), ..s },
                ),
                MainActionView::Nothing,
            )
        } else if n == 3 {
            (
                with_storage(
                    w,
                    TextStorageView { output_format: next_format(s.output_format), ..s },
                ),
                MainActionView::Nothing,
            )
        } else if n == 4 {
            (with_storage(w, output_reset(s)), MainActionView::Nothing)
        } else if n == 5 {
            (
                with_storage(
                    w,
                    TextStorageView { newline_format: next_newline_format(s.newline_format), ..s },
                ),
                MainActionView::Nothing,
            )
        } else if n == 6 {
            (
                with_storage(w, TextStorageView { escape_input: !s.escape_input, ..s }),
                MainActionView::Nothing,
            )
        } else if n == 10 {
            (MainWindowView { should_close: true, ..w }, MainActionView::Nothing)
        } else {
            (w, MainActionView::Nothing)
        },
        _ => (w, MainActionView::Nothing),
    }
}

/// Received bytes without carriage returns (byte 13), which stop a line feed
/// from working in the output.
pub open spec fn without_carriage_returns(data: Seq<u8>) -> Seq<u8>
    decreases data.len(),
{
    if data.len() == 0 {
        Seq::empty()
    } else {
        let rest = without_carriage_returns(data.drop_last());
        if data.last() == 13 {
            rest
        } else {
            rest.push(data.last())
        }
    }
}

fn add_control_key(entries: &mut Vec<StyledText>, num: u8, name: &str)
    ensures
        final(entries)@.map_values(|t: StyledText| styled_view(t)) == old(entries)@.map_values(
            |t: StyledText| styled_view(t),
        ) + control_key(num as nat, name@),
{
    let mut key = String::new();
    push_chars(&mut key, "F");
    push_decimal(&mut key, num as u32);
    let mut label = String::new();
    push_chars(&mut label, name);
    push_chars(&mut label, " ");
    entries.push(StyledText { text: key, style: TextStyle::Plain });
    entries.push(StyledText { text: label, style: TextStyle::Highlighted });
    assert(entries@.map_values(|t: StyledText| styled_view(t)) =~= old(entries)@.map_values(
        |t: StyledText| styled_view(t),
    ) + control_key(num as nat, name@));
}

impl MainWindow {
    /// Create the main window.
    pub fn new() -> (w: Box<MainWindow>)
        ensures
            w@ == initial_main_window(initial_storage()),
            storage_wf(w@.text_storage),
    {
        let mut control_text: Vec<StyledText> = Vec::new();
        assert(control_text@.map_values(|t: StyledText| styled_view(t)) =~= Seq::empty());
        add_control_key(&mut control_text, 1, "Help");
        add_control_key(&mut control_text, 2, "Input format");
        add_control_key(&mut control_text, 3, "Output format");
        add_control_key(&mut control_text, 4, "Clear");
        add_control_key(&mut control_text, 5, "Newline");
        add_control_key(&mut control_text, 6, "Input escape");
        add_control_key(&mut control_text, 10, "Close");
        assert(control_text@.map_values(|t: StyledText| styled_view(t)) =~= control_keys());
        let w = MainWindow {
            should_close: false,
            title: String::new(),
            control_text,
            text_storage: TextStorage::default(),
            error: None,
            cursor_state: false,
        };
        Box::new(w)
    }

    /// The hot keys shown at the bottom.
    pub fn control_text(&self) -> (r: &Vec<StyledText>)
        ensures
            r@.map_values(|t: StyledText| styled_view(t)) == self@.control_text,
    {
        &self.control_text
    }

    /// The error shown, if any.
    pub fn error(&self) -> (r: &Option<WindowError>)
        ensures
            error_view(*r) == self@.error,
    {
        &self.error
    }

    /// The input line as drawn.
    pub fn get_input_render_text(&self) -> (r: String)
        ensures
            r@ == input_render_text(self@),
    {
        if let Some(error) = &self.error {
            let mut r = String::new();
            push_chars(&mut r, "Error: ");
            push_chars(&mut r, error.description.as_str());
            push_chars(&mut r, ". ");
            if error.recoverable {
                push_chars(&mut r, "Press ESC to continue");
            } else {
                push_chars(&mut r, "Press ESC to close");
            }
            return r;
        }
        if !self.cursor_state {
            return self.text_storage.get_input();
        }
        let mut input = self.text_storage.get_input();
        let cursor_position = self.text_storage.get_cursor_position();
        if char_count(&input) > 0 && cursor_position < char_count(&input) {
            remove_char(&mut input, cursor_position);
        }
        if cursor_position < char_count(&input) {
            insert_char(&mut input, cursor_position, '\u{2588}');
        } else {
            string_push(&mut input, '\u{2588}');
        }
        input
    }

    /// The title of the input box.
    pub fn input_title(&self) -> (r: String)
        ensures
            r@ == input_title(self@.text_storage),
    {
        let mut r = String::new();
        push_chars(&mut r, "Input - ");
        push_chars(&mut r, get_format_name(&self.text_storage.input_format()));
        push_chars(&mut r, "/Output - ");
        push_chars(&mut r, get_format_name(&self.text_storage.output_format()));
        push_chars(&mut r, "/Newline - ");
        push_chars(&mut r, get_newline_format_name(&self.text_storage.newline_format()));
        push_chars(&mut r, "/Escape input - ");
        push_chars(&mut r, get_bool(self.text_storage.escape_input()));
        push_chars(&mut r, " ");
        r
    }

    /// Take the input for sending: the text and format to send; the input
    /// is kept in the history unless empty, then cleared.
    pub fn send_input(&mut self) -> (r: (String, TextFormat))
        requires
            storage_wf(old(self)@.text_storage),
            old(self)@.text_storage.input_history.len() < i32::MAX,
        ensures
            r.0@ == sent_input(old(self)@.text_storage),
            r.1 == old(self)@.text_storage.input_format,
            final(self)@ == with_storage(old(self)@, after_send(old(self)@.text_storage)),
            storage_wf(final(self)@.text_storage),
    {
        let mut text = self.text_storage.get_input();
        add_newline(&mut text, self.text_storage.input_format(), self.text_storage.newline_format());
        if self.text_storage.escape_input() {
            text = escape_text(text);
        }
        if !self.text_storage.is_input_empty() {
            self.text_storage.add_history_entry();
        }
        self.text_storage.reset_input();
        (text, self.text_storage.input_format())
    }

    /// Show an error.
    pub fn set_error(&mut self, message: String, recoverable: bool)
        ensures
            final(self)@ == (MainWindowView { error: Some((message@, recoverable)), ..old(self)@ }),
    {
        self.error = Some(WindowError::new(message, recoverable));
    }

    /// React to a key; gives what the key asks for besides changing the
    /// window.
    pub fn handle_key_event(&mut self, event: KeyEvent) -> (action: MainAction)
        requires
            storage_wf(old(self)@.text_storage),
            old(self)@.text_storage.input_history.len() < i32::MAX,
        ensures
            (final(self)@, action@) == main_key_step(old(self)@, event),
            storage_wf(final(self)@.text_storage),
    {
        let m = event.modifiers;
        let only_control = m.control && !m.shift && !m.alt;
        let only_shift = m.shift && !m.control && !m.alt;
        match event.code {
            KeyCode::Char(c) => {
                if only_control {
                    if c == 'a' {
                        self.text_storage.cursor_at_beginning();
                    } else if c == 'd' {
                        self.text_storage.remove_character(false);
                    } else if c == 'e' {
                        self.text_storage.cursor_at_end();
                    } else if c == 'h' {
                        self.text_storage.remove_character(true);
                    } else if c == 'l' {
                        self.text_storage.reset_output();
                    }
                    MainAction::Nothing
                } else if c == '\n' {
                    let (text, format) = self.send_input();
                    MainAction::Send(text, format)
                } else {
                    self.text_storage.input_add(c);
                    MainAction::Nothing
                }
            },
            KeyCode::Backspace => {
                self.text_storage.remove_character(true);
                MainAction::Nothing
            },
            KeyCode::Delete => {
                self.text_storage.remove_character(false);
                MainAction::Nothing
            },
            KeyCode::Left => {
                self.text_storage.retreat_cursor();
                MainAction::Nothing
            },
            KeyCode::Right => {
                self.text_storage.advance_cursor();
                MainAction::Nothing
            },
            KeyCode::Up => {
                if only_shift {
                    self.text_storage.retreat_output();
                } else {
                    self.text_storage.advance_history();
                }
                MainAction::Nothing
            },
            KeyCode::Down => {
                if only_shift {
                    self.text_storage.advance_output();
                } else {
                    self.text_storage.retreat_history();
                }
                MainAction::Nothing
            },
            KeyCode::Esc => {
                let recoverable = match &self.error {
                    Some(err) => err.recoverable,
                    None => false,
                };
                if recoverable {
                    self.error = None;
                    self.text_storage.advance_history();
                } else {
                    self.should_close = true;
                }
                MainAction::Nothing
            },
            KeyCode::Home => {
                self.text_storage.cursor_at_beginning();
                MainAction::Nothing
            },
            KeyCode::End => {
                self.text_storage.cursor_at_end();
                MainAction::Nothing
            },
            KeyCode::F(num) => {
                if num == 1 {
                    MainAction::OpenHelp
                } else {
                    if num == 2 {
                        let f = get_next_format(&self.text_storage.input_format());
                        self.text_storage.set_input_format(f);
                    } else if num == 3 {
                        let f = get_next_format(&self.text_storage.output_format());
                        self.text_storage.set_output_format(f);
                    } else if num == 4 {
                        self.text_storage.reset_output();
                    } else if num == 5 {
                        let f = get_next_newline_format(&self.text_storage.newline_format());
                        self.text_storage.set_newline_format(f);
                    } else if num == 6 {
                        let e = !self.text_storage.escape_input();
                        self.text_storage.set_escape_input(e);
                    } else if num == 10 {
                        self.should_close = true;
                    }
                    MainAction::Nothing
                }
            },
            _ => MainAction::Nothing,
        }
    }

    /// A timer tick: the cursor blinks.
    pub fn handle_tick(&mut self)
        ensures
            final(self)@ == (MainWindowView { cursor_state: !old(self)@.cursor_state, ..old(self)@ }),
    {
        self.cursor_state = !self.cursor_state;
    }

    /// The text of received bytes for the output: carriage returns dropped,
    /// then the bytes read in the output format (plain text bytes that are
    /// no valid UTF-8 give the error).
    pub fn output_text(&self, data: &[u8]) -> (res: Result<String>)
        ensures
            ({
                let bytes = without_carriage_returns(data@);
                if self@.text_storage.output_format == TextFormat::Text {
                    match res {
                        Ok(text) => vstd::utf8::valid_utf8(bytes) && text@ == vstd::utf8::decode_utf8(
                            bytes,
                        ),
                        Err(e) => !vstd::utf8::valid_utf8(bytes) && e is Utf8,
                    }
                } else {
                    res matches Ok(text) && text@ == crate::utils::bytes_text(
                        bytes,
                        self@.text_storage.output_format,
                    )
                }
            }),
    {
        let mut filtered: Vec<u8> = Vec::new();
        let mut i: usize = 0;
        while i < data.len()
            invariant
                i <= data.len(),
                filtered@ == without_carriage_returns(data@.take(i as int)),
            decreases data.len() - i,
        {
            assert(data@.take(i + 1).drop_last() =~= data@.take(i as int));
            if data[i] != 13 {
                filtered.push(data[i]);
            }
            i = i + 1;
        }
        assert(data@.take(i as int) =~= data@);
        radix_string(filtered.as_slice(), &self.text_storage.output_format())
    }

    /// Whether the window is to be closed.
    pub fn should_close(&self) -> (r: bool)
        ensures
            r == self@.should_close,
    {
        self.should_close
    }

    /// Whether the blinking cursor is drawn.
    pub fn cursor_state(&self) -> (r: bool)
        ensures
            r == self@.cursor_state,
    {
        self.cursor_state
    }
}

/// A key never breaks the texts of the main window: what every operation
/// keeps holds after any key.
pub proof fn lemma_main_key_keeps_wf(w: MainWindowView, event: KeyEvent)
    requires
        storage_wf(w.text_storage),
        w.text_storage.input_history.len() < i32::MAX,
    ensures
        storage_wf(main_key_step(w, event).0.text_storage),
{
    let s = w.text_storage;
    lemma_operations_keep_wf(s, ' ', true);
    if let KeyCode::Char(c) = event.code {
        lemma_operations_keep_wf(s, c, false);
    }
    if s.input.len() > 0 {
        lemma_operations_keep_wf(history_added(s), ' ', true);
    }
}

/// The function keys do what the hot keys at the bottom name, whatever
/// modifier keys are held: `F1` opens the help and changes nothing; `F4`
/// clears the output and puts it back on its first line, as `Ctrl + L`
/// does, and leaves everything else as it was; `F10` closes the window;
/// `F2`, `F3` and `F5` move the input format, the output format and the
/// newline format on to the next, and `F6` switches escaping of the input,
/// each changing nothing else.
pub proof fn lemma_function_keys(w: MainWindowView, m: crate::windows::KeyModifiers)
    ensures
        ({
            let (w2, a) = main_key_step(w, KeyEvent { code: KeyCode::F(1), modifiers: m });
            w2 == w && a == MainActionView::OpenHelp
        }),
        ({
            let (w2, a) = main_key_step(w, KeyEvent { code: KeyCode::F(4), modifiers: m });
            &&& w2.text_storage.output == Seq::<char>::empty()
            &&& w2.text_storage.output_line == 0
            &&& w2.text_storage.input == w.text_storage.input
            &&& w2.text_storage.input_format == w.text_storage.input_format
            &&& w2.text_storage.input_history == w.text_storage.input_history
            &&& w2.text_storage.input_history_index == w.text_storage.input_history_index
            &&& w2.text_storage.input_backup == w.text_storage.input_backup
            &&& w2.text_storage.cursor_position == w.text_storage.cursor_position
            &&& w2.text_storage.escape_input == w.text_storage.escape_input
            &&& w2.text_storage.newline_format == w.text_storage.newline_format
            &&& w2.text_storage.output_format == w.text_storage.output_format
            &&& w2.should_close == w.should_close
            &&& w2.title == w.title
            &&& w2.control_text == w.control_text
            &&& w2.error == w.error
            &&& w2.cursor_state == w.cursor_state
            &&& a == MainActionView::Nothing
        }),
        main_key_step(w, KeyEvent { code: KeyCode::F(4), modifiers: m }) == main_key_step(
            w,
            KeyEvent {
                code: KeyCode::Char('l'),
                modifiers: crate::windows::KeyModifiers { shift: false, control: true, alt: false },
            },
        ),
        ({
            let (w2, a) = main_key_step(w, KeyEvent { code: KeyCode::F(10), modifiers: m });
            w2 == MainWindowView { should_close: true, ..w } && a == MainActionView::Nothing
        }),
        ({
            let s = w.text_storage;
            let (w2, a) = main_key_step(w, KeyEvent { code: KeyCode::F(2), modifiers: m });
            w2 == MainWindowView {
                text_storage: TextStorageView { input_format: next_format(s.input_format), ..s },
                ..w
            } && a == MainActionView::Nothing
        }),
        ({
            let s = w.text_storage;
            let (w2, a) = main_key_step(w, KeyEvent { code: KeyCode::F(3), modifiers: m });
            w2 == MainWindowView {
                text_storage: TextStorageView { output_format: next_format(s.output_format), ..s },
                ..w
            } && a == MainActionView::Nothing
        }),
        ({
            let s = w.text_storage;
            let (w2, a) = main_key_step(w, KeyEvent { code: KeyCode::F(5), modifiers: m });
            w2 == MainWindowView {
                text_storage: TextStorageView {
                    newline_format: next_newline_format(s.newline_format),
                    ..s
                },
                ..w
            } && a == MainActionView::Nothing
        }),
        ({
            let s = w.text_storage;
            let (w2, a) = main_key_step(w, KeyEvent { code: KeyCode::F(6), modifiers: m });
            w2 == MainWindowView {
                text_storage: TextStorageView { escape_input: !s.escape_input, ..s },
                ..w
            } && a == MainActionView::Nothing
        }),
{
}

} // verus!
