//! The texts of the interactive monitor: the input being edited, with its
//! cursor and history, and the output received.

use vstd::prelude::*;
use crate::chars::{chars_of, push_chars};
use crate::stdlib::string_push;
use crate::utils::{NewlineFormat, TextFormat, char_count, insert_char, remove_char};

verus! {

/// What the monitor's texts are.
pub struct TextStorageView {
    pub input: Seq<char>,
    pub input_format: TextFormat,
    pub input_history: Seq<Seq<char>>,
    pub input_history_index: int,
    pub input_backup: Seq<char>,
    pub cursor_position: nat,
    pub escape_input: bool,
    pub newline_format: NewlineFormat,
    pub output: Seq<char>,
    pub output_format: TextFormat,
    pub output_line: nat,
}

/// The input, its history and the output of the monitor.
#[derive(Debug, Clone)]
pub struct TextStorage {
    input: String,
    pub input_format: TextFormat,
    input_history: Vec<String>,
    input_history_index: i32,
    input_backup: String,
    cursor_position: usize,
    pub escape_input: bool,
    pub newline_format: NewlineFormat,
    output: String,
    pub output_format: TextFormat,
    output_line: usize,
}

impl View for TextStorage {
    type V = TextStorageView;

    closed spec fn view(&self) -> TextStorageView {
        TextStorageView {
            input: self.input@,
            input_format: self.input_format,
            input_history: self.input_history@.map_values(|s: String| s@),
            input_history_index: self.input_history_index as int,
            input_backup: self.input_backup@,
            cursor_position: self.cursor_position as nat,
            escape_input: self.escape_input,
            newline_format: self.newline_format,
            output: self.output@,
            output_format: self.output_format,
            output_line: self.output_line as nat,
        }
    }
}

/// The larger of two numbers.
pub open spec fn max_nat(a: nat, b: nat) -> nat {
    if a >= b {
        a
    } else {
        b
    }
}

/// What every operation keeps: the history position is `-1` (the typed
/// input) or an entry of the history, the history fits its `i32` position,
/// the cursor stays within the input (or at 1 on an empty input), and the
/// output line does not pass the length of the output.
pub open spec fn storage_wf(v: TextStorageView) -> bool {
    &&& -1 <= v.input_history_index < v.input_history.len()
    &&& v.input_history.len() <= i32::MAX
    &&& v.cursor_position <= max_nat(v.input.len(), 1)
    &&& v.output_line <= v.output.len()
}

/// The texts at the start: nothing typed or received, the cursor at 1, no
/// history, plain text in and out, and a line feed appended to sent input.
pub open spec fn initial_storage() -> TextStorageView {
    TextStorageView {
        input: Seq::empty(),
        input_format: TextFormat::Text,
        input_history: Seq::empty(),
        input_history_index: -1,
        input_backup: Seq::empty(),
        cursor_position: 1,
        escape_input: false,
        newline_format: NewlineFormat::LineFeed,
        output: Seq::empty(),
        output_format: TextFormat::Text,
        output_line: 0,
    }
}

/// The cursor moved one character right, unless it is at the end.
pub open spec fn cursor_advanced(v: TextStorageView) -> TextStorageView {
    if v.cursor_position < v.input.len() {
        TextStorageView { cursor_position: v.cursor_position + 1, ..v }
    } else {
        v
    }
}

/// The cursor moved one character left, but not before position 1.
pub open spec fn cursor_retreated(v: TextStorageView) -> TextStorageView {
    if v.cursor_position > 1 {
        TextStorageView { cursor_position: (v.cursor_position - 1) as nat, ..v }
    } else {
        v
    }
}

/// A character typed: inserted at the cursor, or appended when the cursor is
/// at the end; then the cursor advances.
pub open spec fn char_added(v: TextStorageView, c: char) -> TextStorageView {
    let input = if v.cursor_position < v.input.len() {
        v.input.insert(v.cursor_position as int, c)
    } else {
        v.input.push(c)
    };
    cursor_advanced(TextStorageView { input, ..v })
}

/// A character removed: before the cursor (`backwards`, as backspace) or
/// under it (as delete); nothing happens on an empty input, at the start
/// going backwards, or at the end going forwards. Going backwards the cursor
/// then retreats.
pub open spec fn char_removed(v: TextStorageView, backwards: bool) -> TextStorageView {
    let n = v.input.len();
    if n == 0 || (backwards && v.cursor_position == 0) || (!backwards && v.cursor_position >= n) {
        v
    } else {
        let input = if v.cursor_position < n {
            v.input.remove(
                if backwards {
                    v.cursor_position - 1
                } else {
                    v.cursor_position as int
                },
            )
        } else {
            v.input.drop_last()
        };
        let removed = TextStorageView { input, ..v };
        if backwards {
            cursor_retreated(removed)
        } else {
            removed
        }
    }
}

/// The input entered: kept as the newest history entry unless it repeats
/// the newest one.
pub open spec fn history_added(v: TextStorageView) -> TextStorageView {
    if v.input_history.len() > 0 && v.input_history[0] == v.input {
        v
    } else {
        TextStorageView { input_history: seq![v.input] + v.input_history, ..v }
    }
}

/// One step back in the history (to an older entry): the typed input is kept
/// aside when leaving it, the position stops at the oldest entry, and the
/// cursor goes to the end of the entry shown.
pub open spec fn history_advanced(v: TextStorageView) -> TextStorageView {
    if v.input_history.len() == 0 {
        v
    } else {
        let backup = if v.input_history_index == -1 {
            v.input
        } else {
            v.input_backup
        };
        let index = if v.input_history_index + 1 >= v.input_history.len() {
            v.input_history.len() - 1
        } else {
            v.input_history_index + 1
        };
        let input = v.input_history[index];
        TextStorageView {
            input,
            input_backup: backup,
            input_history_index: index,
            cursor_position: input.len(),
            ..v
        }
    }
}

/// One step forward in the history (to a newer entry), back to the typed
/// input after the newest entry; the cursor goes to the end.
pub open spec fn history_retreated(v: TextStorageView) -> TextStorageView {
    if v.input_history_index == -1 {
        v
    } else {
        let index = v.input_history_index - 1;
        let input = if index >= 0 {
            v.input_history[index]
        } else {
            v.input_backup
        };
        TextStorageView {
            input,
            input_history_index: index,
            cursor_position: input.len(),
            ..v
        }
    }
}

/// The input cleared, the history position back at the typed input and the
/// cursor at 1.
pub open spec fn input_reset(v: TextStorageView) -> TextStorageView {
    TextStorageView {
        input: Seq::empty(),
        cursor_position: 1,
        input_history_index: -1,
        input_backup: Seq::empty(),
        ..v
    }
}

/// The output cleared.
pub open spec fn output_reset(v: TextStorageView) -> TextStorageView {
    TextStorageView { output: Seq::empty(), output_line: 0, ..v }
}

/// The output moved one line down, up to its number of lines.
pub open spec fn output_advanced(v: TextStorageView) -> TextStorageView {
    if v.output_line < text_lines(v.output).len() {
        TextStorageView { output_line: v.output_line + 1, ..v }
    } else {
        v
    }
}

/// The output moved one line up, down to the first line.
pub open spec fn output_retreated(v: TextStorageView) -> TextStorageView {
    if v.output_line > 0 {
        TextStorageView { output_line: (v.output_line - 1) as nat, ..v }
    } else {
        v
    }
}

/// The cursor before the first character.
pub open spec fn cursor_at_start(v: TextStorageView) -> TextStorageView {
    TextStorageView { cursor_position: 0, ..v }
}

/// The cursor after the last character.
pub open spec fn cursor_at_last(v: TextStorageView) -> TextStorageView {
    TextStorageView { cursor_position: v.input.len(), ..v }
}

/// Number of line feeds in a text.
pub open spec fn newline_count(s: Seq<char>) -> nat
    decreases s.len(),
{
    if s.len() == 0 {
        0
    } else {
        newline_count(s.drop_last()) + if s.last() == '\n' {
            1nat
        } else {
            0nat
        }
    }
}

/// A line without the carriage return that ends it before a line feed.
pub open spec fn without_cr(line: Seq<char>) -> Seq<char> {
    if line.len() > 0 && line.last() == '\r' {
        line.drop_last()
    } else {
        line
    }
}

/// The lines of a text that are ended by a line feed, and the text after
/// the last line feed.
pub open spec fn split_lines(s: Seq<char>) -> (Seq<Seq<char>>, Seq<char>)
    decreases s.len(),
{
    if s.len() == 0 {
        (Seq::empty(), Seq::empty())
    } else {
        let (done, current) = split_lines(s.drop_last());
        if s.last() == '\n' {
            (done.push(without_cr(current)), Seq::empty())
        } else {
            (done, current.push(s.last()))
        }
    }
}

/// The lines of a text as `str::lines` gives them: split at line feeds, a
/// carriage return before a line feed dropped, and a last line only when
/// text follows the last line feed.
pub open spec fn text_lines(s: Seq<char>) -> Seq<Seq<char>> {
    let (done, current) = split_lines(s);
    if current.len() > 0 {
        done.push(current)
    } else {
        done
    }
}

/// Lines joined, each followed by a line feed.
pub open spec fn joined_lines(lines: Seq<Seq<char>>) -> Seq<char>
    decreases lines.len(),
{
    if lines.len() == 0 {
        Seq::empty()
    } else {
        joined_lines(lines.drop_last()) + lines.last() + seq!['\n']
    }
}

/// The last `take` lines of a text (all of them when it has fewer), each
/// followed by a line feed.
pub open spec fn last_lines(s: Seq<char>, take: nat) -> Seq<char> {
    let lines = text_lines(s);
    let k = if take < lines.len() {
        take
    } else {
        lines.len()
    };
    joined_lines(lines.skip(lines.len() - k))
}

impl Default for TextStorage {
    fn default() -> (s: TextStorage)
        ensures
            s@ == initial_storage(),
            storage_wf(s@),
    {
        let s = TextStorage {
            input: String::new(),
            input_format: TextFormat::Text,
            input_history: Vec::new(),
            input_history_index: -1,
            input_backup: String::new(),
            cursor_position: 1,
            escape_input: false,
            newline_format: NewlineFormat::LineFeed,
            output: String::new(),
            output_format: TextFormat::Text,
            output_line: 0,
        };
        assert(s@.input_history =~= Seq::<Seq<char>>::empty());
        s
    }
}

fn count_lines(s: &str) -> (n: usize)
    ensures
        n == text_lines(s@).len(),
{
    let v = chars_of(s);
    let mut done: usize = 0;
    let mut current_empty = true;
    let mut i: usize = 0;
    while i < v.len()
        invariant
            v@ == s@,
            i <= v.len(),
            done == split_lines(s@.take(i as int)).0.len(),
            current_empty == (split_lines(s@.take(i as int)).1.len() == 0),
            done <= i,
            current_empty || done < i,
        decreases v.len() - i,
    {
        assert(s@.take(i + 1).drop_last() =~= s@.take(i as int));
        if v[i] == '\n' {
            done = done + 1;
            current_empty = true;
        } else {
            current_empty = false;
        }
        i = i + 1;
    }
    assert(s@.take(i as int) =~= s@);
    if current_empty {
        done
    } else {
        done + 1
    }
}

proof fn lemma_lines_bound(s: Seq<char>)
    ensures
        split_lines(s).0.len() + split_lines(s).1.len() <= s.len(),
        text_lines(s).len() <= s.len(),
    decreases s.len(),
{
    if s.len() > 0 {
        lemma_lines_bound(s.drop_last());
    }
}

impl TextStorage {
    /// The format of the input.
    pub fn input_format(&self) -> (r: TextFormat)
        ensures
            r == self@.input_format,
    {
        self.input_format
    }

    /// Set the format of the input.
    pub fn set_input_format(&mut self, format: TextFormat)
        ensures
            final(self)@ == (TextStorageView { input_format: format, ..old(self)@ }),
    {
        self.input_format = format;
    }

    /// The format of the output.
    pub fn output_format(&self) -> (r: TextFormat)
        ensures
            r == self@.output_format,
    {
        self.output_format
    }

    /// Set the format of the output.
    pub fn set_output_format(&mut self, format: TextFormat)
        ensures
            final(self)@ == (TextStorageView { output_format: format, ..old(self)@ }),
    {
        self.output_format = format;
    }

    /// The newline appended to sent input.
    pub fn newline_format(&self) -> (r: NewlineFormat)
        ensures
            r == self@.newline_format,
    {
        self.newline_format
    }

    /// Set the newline appended to sent input.
    pub fn set_newline_format(&mut self, format: NewlineFormat)
        ensures
            final(self)@ == (TextStorageView { newline_format: format, ..old(self)@ }),
    {
        self.newline_format = format;
    }

    /// Whether escapes in sent input are resolved.
    pub fn escape_input(&self) -> (r: bool)
        ensures
            r == self@.escape_input,
    {
        self.escape_input
    }

    /// Set whether escapes in sent input are resolved.
    pub fn set_escape_input(&mut self, escape: bool)
        ensures
            final(self)@ == (TextStorageView { escape_input: escape, ..old(self)@ }),
    {
        self.escape_input = escape;
    }

    /// The number of history entries.
    pub fn history_len(&self) -> (r: usize)
        ensures
            r == self@.input_history.len(),
    {
        self.input_history.len()
    }

    /// The input being edited.
    pub fn get_input(&self) -> (r: String)
        ensures
            r@ == self@.input,
    {
        self.input.clone()
    }

    /// Whether nothing is typed.
    pub fn is_input_empty(&self) -> (r: bool)
        ensures
            r == (self@.input.len() == 0),
    {
        self.input.as_str().unicode_len() == 0
    }

    /// Type a character at the cursor.
    pub fn input_add(&mut self, c: char)
        requires
            storage_wf(old(self)@),
        ensures
            final(self)@ == char_added(old(self)@, c),
            storage_wf(final(self)@),
    {
        if self.cursor_position < char_count(&self.input) {
            insert_char(&mut self.input, self.cursor_position, c);
        } else {
            string_push(&mut self.input, c);
        }
        self.advance_cursor();
    }

    /// The output received.
    pub fn get_output(&self) -> (r: String)
        ensures
            r@ == self@.output,
    {
        self.output.clone()
    }

    /// Append received text to the output; the output line moves down by
    /// the number of line feeds in it.
    pub fn output_add_str(&mut self, str: &str)
        requires
            storage_wf(old(self)@),
            old(self)@.output.len() + str@.len() <= usize::MAX,
        ensures
            final(self)@ == (TextStorageView {
                output: old(self)@.output + str@,
                output_line: old(self)@.output_line + newline_count(str@),
                ..old(self)@
            }),
            storage_wf(final(self)@),
    {
        let v = chars_of(str);
        let mut newlines: usize = 0;
        let mut i: usize = 0;
        while i < v.len()
            invariant
                v@ == str@,
                i <= v.len(),
                newlines == newline_count(str@.take(i as int)),
                newlines <= i,
            decreases v.len() - i,
        {
            assert(str@.take(i + 1).drop_last() =~= str@.take(i as int));
            if v[i] == '\n' {
                newlines = newlines + 1;
            }
            i = i + 1;
        }
        assert(str@.take(i as int) =~= str@);
        push_chars(&mut self.output, str);
        self.output_line = self.output_line + newlines;
    }

    /// The position of the cursor in the input, in characters.
    pub fn get_cursor_position(&self) -> (r: usize)
        ensures
            r == self@.cursor_position,
    {
        self.cursor_position
    }

    /// Clear the input, leave the history and put the cursor at 1.
    pub fn reset_input(&mut self)
        requires
            storage_wf(old(self)@),
        ensures
            final(self)@ == input_reset(old(self)@),
            storage_wf(final(self)@),
    {
        self.input = String::new();
        self.cursor_position = 1;
        self.input_history_index = -1;
        self.input_backup = String::new();
    }

    /// Clear the output.
    pub fn reset_output(&mut self)
        requires
            storage_wf(old(self)@),
        ensures
            final(self)@ == output_reset(old(self)@),
            storage_wf(final(self)@),
    {
        self.output = String::new();
        self.output_line = 0;
    }

    /// Move the cursor one character right.
    pub fn advance_cursor(&mut self)
        ensures
            final(self)@ == cursor_advanced(old(self)@),
            storage_wf(old(self)@) ==> storage_wf(final(self)@),
    {
        if self.cursor_position < char_count(&self.input) {
            self.cursor_position = self.cursor_position + 1;
        }
    }

    /// Move the cursor one character left.
    pub fn retreat_cursor(&mut self)
        ensures
            final(self)@ == cursor_retreated(old(self)@),
            storage_wf(old(self)@) ==> storage_wf(final(self)@),
    {
        if self.cursor_position > 1 {
            self.cursor_position = self.cursor_position - 1;
        }
    }

    /// Put the cursor before the first character.
    pub fn cursor_at_beginning(&mut self)
        ensures
            final(self)@ == cursor_at_start(old(self)@),
            storage_wf(old(self)@) ==> storage_wf(final(self)@),
    {
        self.cursor_position = 0;
    }

    /// Put the cursor after the last character.
    pub fn cursor_at_end(&mut self)
        ensures
            final(self)@ == cursor_at_last(old(self)@),
            storage_wf(old(self)@) ==> storage_wf(final(self)@),
    {
        self.cursor_position = char_count(&self.input);
    }

    /// The line of the output shown.
    pub fn get_output_line(&self) -> (r: usize)
        ensures
            r == self@.output_line,
    {
        self.output_line
    }

    /// Move the output one line down, up to its number of lines.
    pub fn advance_output(&mut self)
        requires
            storage_wf(old(self)@),
        ensures
            final(self)@ == output_advanced(old(self)@),
            storage_wf(final(self)@),
    {
        proof {
            lemma_lines_bound(self.output@);
        }
        if self.output_line < count_lines(self.output.as_str()) {
            self.output_line = self.output_line + 1;
        }
    }

    /// Move the output one line up, down to the first line.
    pub fn retreat_output(&mut self)
        requires
            storage_wf(old(self)@),
        ensures
            final(self)@ == output_retreated(old(self)@),
            storage_wf(final(self)@),
    {
        if self.output_line > 0 {
            self.output_line = self.output_line - 1;
        }
    }

    /// Remove the character before the cursor (`advance_cursor`, as
    /// backspace) or under it (as delete).
    pub fn remove_character(&mut self, advance_cursor: bool)
        requires
            storage_wf(old(self)@),
        ensures
            final(self)@ == char_removed(old(self)@, advance_cursor),
            storage_wf(final(self)@),
    {
        let char_count = char_count(&self.input);
        if char_count == 0 || (advance_cursor && self.cursor_position == 0) || (!advance_cursor
            && self.cursor_position >= char_count) {
            return;
        }
        let offset: usize = if advance_cursor {
            1
        } else {
            0
        };
        if self.cursor_position < char_count {
            remove_char(&mut self.input, self.cursor_position - offset);
        } else {
            remove_char(&mut self.input, char_count - 1);
            assert(old(self)@.input.remove(char_count - 1) =~= old(self)@.input.drop_last());
        }
        if advance_cursor {
            self.retreat_cursor();
        }
    }

    /// Keep the input as the newest history entry, unless it repeats it.
    pub fn add_history_entry(&mut self)
        requires
            storage_wf(old(self)@),
            old(self)@.input_history.len() < i32::MAX,
        ensures
            final(self)@ == history_added(old(self)@),
            storage_wf(final(self)@),
    {
        let repeated = self.input_history.len() > 0 && self.input_history[0] == self.input;
        if !repeated {
            let entry = self.input.clone();
            self.input_history.insert(0, entry);
            assert(self@.input_history =~= seq![old(self)@.input] + old(self)@.input_history);
        }
    }

    /// Show the next older history entry.
    pub fn advance_history(&mut self)
        requires
            storage_wf(old(self)@),
        ensures
            final(self)@ == history_advanced(old(self)@),
            storage_wf(final(self)@),
    {
        if self.input_history.len() == 0 {
            return;
        }
        if self.input_history_index == -1 {
            self.input_backup = self.input.clone();
        }
        let max_index = self.input_history.len() as i32;
        if self.input_history_index + 1 >= max_index {
            self.input_history_index = max_index - 1;
        } else {
            self.input_history_index = self.input_history_index + 1;
        }
        self.input = self.input_history[self.input_history_index as usize].clone();
        self.cursor_at_end();
    }

    /// Show the next newer history entry, or the typed input after the
    /// newest.
    pub fn retreat_history(&mut self)
        requires
            storage_wf(old(self)@),
        ensures
            final(self)@ == history_retreated(old(self)@),
            storage_wf(final(self)@),
    {
        if self.input_history_index == -1 {
            return;
        }
        self.input_history_index = self.input_history_index - 1;
        if self.input_history_index >= 0 {
            self.input = self.input_history[self.input_history_index as usize].clone();
        } else {
            self.input = self.input_backup.clone();
        }
        self.cursor_at_end();
    }

    /// The last `take` lines of a text, each followed by a line feed.
    /// `skip` is not used.
    pub fn get_last_lines(text: &str, skip: usize, take: usize) -> (r: String)
        ensures
            r@ == last_lines(text@, take as nat),
    {
        let v = chars_of(text);
        let mut done: Vec<Vec<char>> = Vec::new();
        let mut current: Vec<char> = Vec::new();
        let mut i: usize = 0;
        while i < v.len()
            invariant
                v@ == text@,
                i <= v.len(),
                done.len() == split_lines(text@.take(i as int)).0.len(),
                forall|k: int|
                    0 <= k < done.len() ==> #[trigger] done@[k]@ == split_lines(
                        text@.take(i as int),
                    ).0[k],
                current@ == split_lines(text@.take(i as int)).1,
            decreases v.len() - i,
        {
            assert(text@.take(i + 1).drop_last() =~= text@.take(i as int));
            let c = v[i];
            if c == '\n' {
                let mut line = current;
                if line.len() > 0 && line[line.len() - 1] == '\r' {
                    line.pop();
                    assert(line@ =~= without_cr(split_lines(text@.take(i as int)).1));
                }
                done.push(line);
                current = Vec::new();
            } else {
                current.push(c);
            }
            i = i + 1;
        }
        assert(text@.take(i as int) =~= text@);
        if current.len() > 0 {
            done.push(current);
        }
        let ghost lines = text_lines(text@);
        assert(done.len() == lines.len());
        assert(forall|k: int| 0 <= k < done.len() ==> #[trigger] done@[k]@ == lines[k]);
        let n = done.len();
        let k = if take < n {
            take
        } else {
            n
        };
        let start = n - k;
        let mut result = String::new();
        let mut j: usize = start;
        assert(lines.skip(start as int).take(0) =~= Seq::<Seq<char>>::empty());
        while j < n
            invariant
                n == done.len(),
                n == lines.len(),
                start <= j <= n,
                forall|k: int| 0 <= k < done.len() ==> #[trigger] done@[k]@ == lines[k],
                result@ == joined_lines(lines.skip(start as int).take(j - start)),
            decreases n - j,
        {
            let ghost before = lines.skip(start as int).take(j - start);
            assert(lines.skip(start as int).take(j + 1 - start).drop_last() =~= before);
            assert(lines.skip(start as int).take(j + 1 - start).last() == lines[j as int]);
            let line = crate::chars::string_from_chars(done[j].as_slice());
            push_chars(&mut result, line.as_str());
            string_push(&mut result, '\n');
            assert(result@ =~= joined_lines(lines.skip(start as int).take(j + 1 - start)));
            j = j + 1;
        }
        assert(lines.skip(start as int).take(n - start) =~= lines.skip(lines.len() - k));
        result
    }
}

/// Every operation on the monitor's texts keeps them well formed: the
/// cursor within the input, the history position within the history.
pub proof fn lemma_operations_keep_wf(v: TextStorageView, c: char, backwards: bool)
    requires
        storage_wf(v),
    ensures
        storage_wf(char_added(v, c)),
        storage_wf(char_removed(v, backwards)),
        storage_wf(cursor_advanced(v)),
        storage_wf(cursor_retreated(v)),
        storage_wf(history_advanced(v)),
        storage_wf(history_retreated(v)),
        storage_wf(input_reset(v)),
        storage_wf(output_reset(v)),
        storage_wf(output_advanced(v)),
        storage_wf(output_retreated(v)),
        storage_wf(cursor_at_start(v)),
        storage_wf(cursor_at_last(v)),
        v.input_history.len() < i32::MAX ==> storage_wf(history_added(v)),
{
    lemma_lines_bound(v.output);
}

/// Going back in the history from the typed input and forward again gives
/// the typed input back, with the cursor at its end when there was history.
pub proof fn lemma_history_round_trip(v: TextStorageView)
    requires
        storage_wf(v),
        v.input_history_index == -1,
    ensures
        history_retreated(history_advanced(v)).input == v.input,
        history_retreated(history_advanced(v)).input_history_index == -1,
        v.input_history.len() > 0 ==> history_retreated(history_advanced(v)).cursor_position
            == v.input.len(),
{
}

/// After an entry is added, going back in the history shows the input that
/// was entered.
pub proof fn lemma_history_recalls_entry(v: TextStorageView)
    requires
        storage_wf(v),
        v.input_history_index == -1,
        v.input_history.len() < i32::MAX,
    ensures
        history_advanced(history_added(v)).input == v.input,
{
}

/// Typing a character and removing it with backspace gives the input back;
/// the cursor comes back too unless it stood before the first character.
pub proof fn lemma_type_then_backspace(v: TextStorageView, c: char)
    requires
        storage_wf(v),
    ensures
        char_removed(char_added(v, c), true).input == v.input,
        v.cursor_position >= 1 ==> char_removed(char_added(v, c), true).cursor_position
            == v.cursor_position,
{
    let added = char_added(v, c);
    if v.cursor_position < v.input.len() {
        assert(added.input.remove(v.cursor_position as int) =~= v.input);
    } else {
        assert(added.input.drop_last() =~= v.input);
    }
}

} // verus!
