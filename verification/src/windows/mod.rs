//! What the terminal windows share: errors shown in a window, the events a
//! window receives, and the keys pressed.

use vstd::prelude::*;

verus! {

/// An error shown in a window.
#[derive(Debug, Clone)]
pub struct WindowError {
    /// What went wrong.
    pub description: String,
    /// Whether the window can go on after the error.
    pub recoverable: bool,
}

impl WindowError {
    /// Create an error.
    pub fn new(description: String, recoverable: bool) -> (e: WindowError)
        ensures
            e.description@ == description@,
            e.recoverable == recoverable,
    {
        WindowError { description, recoverable }
    }
}

/// An event a window receives.
pub enum Event<I> {
    /// Input from the terminal.
    Input(I),
    /// A timer tick.
    Tick,
    /// Bytes received from the serial port.
    Output(Vec<u8>),
    /// An error of the serial port.
    Error(WindowError),
}

/// A key of the keyboard.
#[derive(Debug, Clone, Copy, PartialEq, Eq, Structural)]
pub enum KeyCode {
    Backspace,
    Enter,
    Left,
    Right,
    Up,
    Down,
    Home,
    End,
    PageUp,
    PageDown,
    Tab,
    BackTab,
    Delete,
    Insert,
    /// A function key by its number.
    F(u8),
    /// A character key.
    Char(char),
    Null,
    Esc,
}

/// The modifier keys held with a key.
#[derive(Debug, Clone, Copy, PartialEq, Eq, Structural)]
pub struct KeyModifiers {
    pub shift: bool,
    pub control: bool,
    pub alt: bool,
}

/// A key pressed, with the modifier keys held.
#[derive(Debug, Clone, Copy, PartialEq, Eq, Structural)]
pub struct KeyEvent {
    pub code: KeyCode,
    pub modifiers: KeyModifiers,
}

/// Whether exactly the control key is held.
pub open spec fn only_control(m: KeyModifiers) -> bool {
    m.control && !m.shift && !m.alt
}

/// Whether exactly the shift key is held.
pub open spec fn only_shift(m: KeyModifiers) -> bool {
    m.shift && !m.control && !m.alt
}

/// Whether a key closes the application from any window: `Ctrl + C`.
pub open spec fn quits(event: KeyEvent) -> bool {
    event.code == KeyCode::Char('c') && only_control(event.modifiers)
}

/// Whether a key closes the application from any window: `Ctrl + C`.
pub fn is_quit_key(event: &KeyEvent) -> (r: bool)
    ensures
        r == quits(*event),
{
    let m = event.modifiers;
    match event.code {
        KeyCode::Char(c) => c == 'c' && m.control && !m.shift && !m.alt,
        _ => false,
    }
}

/// How a piece of text in a window looks.
#[derive(Debug, Clone, Copy, PartialEq, Eq, Structural)]
pub enum TextStyle {
    /// Plain text.
    Plain,
    /// Bold text.
    Bold,
    /// Italic text.
    Italic,
    /// Text on a highlighted (cyan) background.
    Highlighted,
    /// Bold text on an alert (red) background.
    Alert,
}

/// A piece of text in a window with its style.
#[derive(Debug, Clone)]
pub struct StyledText {
    pub text: String,
    pub style: TextStyle,
}

/// A piece of text as a value.
pub open spec fn styled_view(t: StyledText) -> (Seq<char>, TextStyle) {
    (t.text@, t.style)
}

/// The windows shown, the one on top receiving the events.
pub struct WindowStack<W> {
    windows: Vec<W>,
}

impl<W> View for WindowStack<W> {
    type V = Seq<W>;

    closed spec fn view(&self) -> Seq<W> {
        self.windows@
    }
}

/// The windows after an event: the top one removed if asked (nothing is
/// removed from no windows), then a new window put on top if one is given.
pub open spec fn stacked<W>(windows: Seq<W>, remove: bool, child: Option<W>) -> Seq<W> {
    let kept = if remove && windows.len() > 0 {
        windows.drop_last()
    } else {
        windows
    };
    match child {
        Some(w) => kept.push(w),
        None => kept,
    }
}

impl<W> WindowStack<W> {
    /// No windows.
    pub fn new() -> (s: WindowStack<W>)
        ensures
            s@ == Seq::<W>::empty(),
    {
        WindowStack { windows: Vec::new() }
    }

    /// Put a window on top.
    pub fn push_window(&mut self, window: W)
        ensures
            final(self)@ == old(self)@.push(window),
    {
        self.windows.push(window);
    }

    /// Whether no window is left.
    pub fn is_empty(&self) -> (r: bool)
        ensures
            r == (self@.len() == 0),
    {
        self.windows.len() == 0
    }

    /// The window on top.
    pub fn top_mut(&mut self) -> (r: &mut W)
        requires
            old(self)@.len() > 0,
        ensures
            *r == old(self)@.last(),
            final(self)@ == old(self)@.update(old(self)@.len() - 1, *final(r)),
    {
        let last = self.windows.len() - 1;
        &mut self.windows[last]
    }

    /// Remove the window on top, as when it is closed.
    pub fn close_top(&mut self)
        ensures
            final(self)@ == (if old(self)@.len() > 0 {
                old(self)@.drop_last()
            } else {
                old(self)@
            }),
    {
        self.windows.pop();
    }

    /// What a window asks after an event: to be removed, and a new window
    /// to put on top.
    pub fn apply_event_result(&mut self, remove: bool, child: Option<W>)
        ensures
            final(self)@ == stacked(old(self)@, remove, child),
    {
        if remove {
            self.windows.pop();
        }
        if let Some(window) = child {
            self.windows.push(window);
        }
    }
}

/// A window opened on top is the one that receives the next events, and
/// closing it shows again the windows that were there before.
pub proof fn lemma_child_on_top<W>(windows: Seq<W>, child: W)
    ensures
        stacked(windows, false, Some(child)).last() == child,
        stacked(windows, false, Some(child)).drop_last() == windows,
        stacked(stacked(windows, false, Some(child)), true, None) == windows,
{
    assert(windows.push(child).drop_last() =~= windows);
}

} // verus!
