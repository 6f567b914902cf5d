//! The help window of the monitor: its list of hot keys, split in pages.

use vstd::prelude::*;
use crate::chars::push_chars;
use crate::serial::byte_len;
use crate::stdlib::string_push;
use crate::utils::{min_digits, push_decimal};
use crate::windows::{KeyCode, KeyEvent, StyledText, TextStyle, styled_view};

verus! {

/// A hot key and what it does.
#[derive(Debug, Clone)]
pub struct HelpEntry {
    pub key: String,
    pub text: String,
}

/// A help entry as a value: the key and its description.
pub open spec fn entry_view(e: HelpEntry) -> (Seq<char>, Seq<char>) {
    (e.key@, e.text@)
}

/// A run of spaces.
pub open spec fn spaces(n: nat) -> Seq<char> {
    Seq::new(n, |i: int| ' ')
}

/// The pieces of text of an entry, right-aligning the key to `length`
/// bytes: the padding, the highlighted key, and the description with a
/// blank line after it.
pub open spec fn entry_pieces(key: Seq<char>, text: Seq<char>, length: nat) -> Seq<
    (Seq<char>, TextStyle),
> {
    seq![
        (spaces((length - byte_len(key)) as nat), TextStyle::Plain),
        (key, TextStyle::Highlighted),
        (" - "@ + text + "\n\n"@, TextStyle::Plain),
    ]
}

fn push_spaces(s: &mut String, n: usize)
    ensures
        final(s)@ == old(s)@ + spaces(n as nat),
{
    let mut i: usize = 0;
    while i < n
        invariant
            i <= n,
            s@ == old(s)@ + spaces(i as nat),
        decreases n - i,
    {
        string_push(s, ' ');
        i = i + 1;
        assert(s@ =~= old(s)@ + spaces(i as nat));
    }
}

impl HelpEntry {
    /// Create an entry.
    pub fn new(key: String, text: String) -> (e: HelpEntry)
        ensures
            e.key@ == key@,
            e.text@ == text@,
    {
        HelpEntry { key, text }
    }

    /// The pieces of text of the entry, with the key right-aligned to
    /// `length` bytes.
    pub fn get_entry(&self, length: usize) -> (r: (StyledText, StyledText, StyledText))
        requires
            byte_len(self.key@) <= length,
        ensures
            seq![styled_view(r.0), styled_view(r.1), styled_view(r.2)] == entry_pieces(
                self.key@,
                self.text@,
                length as nat,
            ),
    {
        let mut padding = String::new();
        push_spaces(&mut padding, length - self.key.as_str().len());
        let mut action = String::new();
        push_chars(&mut action, " - ");
        push_chars(&mut action, self.text.as_str());
        push_chars(&mut action, "\n\n");
        proof {
            reveal_strlit(" - ");
            reveal_strlit("\n\n");
        }
        (
            StyledText { text: padding, style: TextStyle::Plain },
            StyledText { text: self.key.clone(), style: TextStyle::Highlighted },
            StyledText { text: action, style: TextStyle::Plain },
        )
    }
}

/// The hot keys that the help window lists, in order.
pub open spec fn help_entries() -> Seq<(Seq<char>, Seq<char>)> {
    seq![
        ("F1"@, "Show help window"@),
        ("F2"@, "Change the input format"@),
        ("F3"@, "Change the output format"@),
        ("F4"@, "Clear the output text"@),
        ("F5"@, "Change appended newline on send"@),
        ("F10"@, "Close the application"@),
        ("Enter"@, "Send the input to serial"@),
        ("Up"@, "Go up in input history entries"@),
        ("Down"@, "Go down in input history entries"@),
        ("Ctrl + C"@, "Close application"@),
        ("Ctrl + A"@, "Goto the beginning of the input (same as home)"@),
        ("Ctrl + E"@, "Goto the end of the input (same as end)"@),
        ("Ctrl + D"@, "Delete the character under the cursor (same as delete)"@),
        ("Ctrl + H"@, "Delete the character in front of the cursor (same as backspace)"@),
        ("Ctrl + L"@, "Clear the output text"@),
    ]
}

/// The entries shown from position `skip` on, at most `count` of them.
pub open spec fn shown_entries<T>(s: Seq<T>, skip: nat, count: nat) -> Seq<T> {
    let start = if skip < s.len() {
        skip
    } else {
        s.len()
    };
    let end: int = if count < s.len() - start {
        (start + count) as int
    } else {
        s.len() as int
    };
    s.subrange(start as int, end)
}

/// The length in bytes of the longest key, and at least 3 (the width of the
/// title `Key`).
pub open spec fn key_width(entries: Seq<(Seq<char>, Seq<char>)>) -> nat
    decreases entries.len(),
{
    if entries.len() == 0 {
        3
    } else {
        let rest = key_width(entries.drop_last());
        let own = byte_len(entries.last().0);
        if own > rest {
            own
        } else {
            rest
        }
    }
}

/// The pieces of text of entries, each key right-aligned to `length` bytes.
pub open spec fn entries_pieces(entries: Seq<(Seq<char>, Seq<char>)>, length: nat) -> Seq<
    (Seq<char>, TextStyle),
>
    decreases entries.len(),
{
    if entries.len() == 0 {
        Seq::empty()
    } else {
        entries_pieces(entries.drop_last(), length) + entry_pieces(
            entries.last().0,
            entries.last().1,
            length,
        )
    }
}

/// The text of a help page: the bold title line, its `Key` right-aligned
/// like the keys, then the pieces of each entry shown.
pub open spec fn help_page(entries: Seq<(Seq<char>, Seq<char>)>, skip: nat, count: nat) -> Seq<
    (Seq<char>, TextStyle),
> {
    let shown = shown_entries(entries, skip, count);
    let length = key_width(shown);
    seq![(spaces((length - 3) as nat) + "Key   Action\n\n"@, TextStyle::Bold)] + entries_pieces(
        shown,
        length,
    )
}

/// What the help window is: its entries, whether it is to be closed, the
/// page shown and the number of pages.
pub struct HelpWindowView {
    pub entries: Seq<(Seq<char>, Seq<char>)>,
    pub should_close: bool,
    pub page: nat,
    pub page_count: nat,
}

/// The window that lists the hot keys.
pub struct HelpWindow {
    help_entries: Vec<HelpEntry>,
    should_close: bool,
    page: u32,
    page_count: u32,
}

impl View for HelpWindow {
    type V = HelpWindowView;

    closed spec fn view(&self) -> HelpWindowView {
        HelpWindowView {
            entries: self.help_entries@.map_values(|e: HelpEntry| entry_view(e)),
            should_close: self.should_close,
            page: self.page as nat,
            page_count: self.page_count as nat,
        }
    }
}

/// The page numbers the help window keeps: at least one page, the page
/// shown not past the number of pages, and no more pages than entries and
/// one.
pub open spec fn help_wf(v: HelpWindowView) -> bool {
    &&& 1 <= v.page_count <= v.entries.len() + 1
    &&& v.page <= v.page_count
    &&& v.entries.len() <= 100
}

/// The help window after the area for its entries got `height` rows: two
/// rows per entry after three for border and title, the page count that
/// fits, and the page moved back when it lies past the last page.
pub open spec fn paged(v: HelpWindowView, height: nat) -> HelpWindowView {
    let per_page = ((height - 3) / 2) as nat;
    let page_count = v.entries.len() / per_page + 1;
    HelpWindowView {
        page_count,
        page: if v.page > page_count {
            (page_count - 1) as nat
        } else {
            v.page
        },
        ..v
    }
}

/// The help window after a key: `Esc` closes it, left and right change the
/// page within the pages there are.
pub open spec fn help_key_step(v: HelpWindowView, event: KeyEvent) -> HelpWindowView {
    match event.code {
        KeyCode::Esc => HelpWindowView { should_close: true, ..v },
        KeyCode::Left => if v.page > 0 {
            HelpWindowView { page: (v.page - 1) as nat, ..v }
        } else {
            v
        },
        KeyCode::Right => if v.page + 1 < v.page_count {
            HelpWindowView { page: v.page + 1, ..v }
        } else {
            v
        },
        _ => v,
    }
}

impl HelpWindow {
    #[verifier::type_invariant]
    spec fn inv(self) -> bool {
        help_wf(self@)
    }

    fn add_hot_key(entries: &mut Vec<HelpEntry>, hot_key: &str, description: &str)
        ensures
            final(entries)@.map_values(|e: HelpEntry| entry_view(e)) == old(entries)@.map_values(
                |e: HelpEntry| entry_view(e),
            ).push((hot_key@, description@)),
    {
        entries.push(HelpEntry::new(hot_key.to_owned(), description.to_owned()));
        assert(entries@.map_values(|e: HelpEntry| entry_view(e)) =~= old(entries)@.map_values(
            |e: HelpEntry| entry_view(e),
        ).push((hot_key@, description@)));
    }

    /// Create the help window, on its first page.
    pub fn new() -> (w: Box<HelpWindow>)
        ensures
            w@ == (HelpWindowView {
                entries: help_entries(),
                should_close: false,
                page: 0,
                page_count: 1,
            }),
    {
        let mut help_entries: Vec<HelpEntry> = Vec::new();
        assert(help_entries@.map_values(|e: HelpEntry| entry_view(e)) =~= Seq::empty());
        HelpWindow::add_hot_key(&mut help_entries, "F1", "Show help window");
        HelpWindow::add_hot_key(&mut help_entries, "F2", "Change the input format");
        HelpWindow::add_hot_key(&mut help_entries, "F3", "Change the output format");
        HelpWindow::add_hot_key(&mut help_entries, "F4", "Clear the output text");
        HelpWindow::add_hot_key(&mut help_entries, "F5", "Change appended newline on send");
        HelpWindow::add_hot_key(&mut help_entries, "F10", "Close the application");
        HelpWindow::add_hot_key(&mut help_entries, "Enter", "Send the input to serial");
        HelpWindow::add_hot_key(&mut help_entries, "Up", "Go up in input history entries");
        HelpWindow::add_hot_key(&mut help_entries, "Down", "Go down in input history entries");
        HelpWindow::add_hot_key(&mut help_entries, "Ctrl + C", "Close application");
        HelpWindow::add_hot_key(
            &mut help_entries,
            "Ctrl + A",
            "Goto the beginning of the input (same as home)",
        );
        HelpWindow::add_hot_key(
            &mut help_entries,
            "Ctrl + E",
            "Goto the end of the input (same as end)",
        );
        HelpWindow::add_hot_key(
            &mut help_entries,
            "Ctrl + D",
            "Delete the character under the cursor (same as delete)",
        );
        HelpWindow::add_hot_key(
            &mut help_entries,
            "Ctrl + H",
            "Delete the character in front of the cursor (same as backspace)",
        );
        HelpWindow::add_hot_key(&mut help_entries, "Ctrl + L", "Clear the output text");
        assert(help_entries@.map_values(|e: HelpEntry| entry_view(e)) =~= self::help_entries());
        Box::new(HelpWindow { help_entries, should_close: false, page: 0, page_count: 1 })
    }

    /// The text of the entries shown from position `skip` on, at most
    /// `count` of them, under a title line.
    pub fn get_help_text_entries(help_entries: &Vec<HelpEntry>, skip: usize, count: usize) -> (r:
        Vec<StyledText>)
        ensures
            r@.map_values(|t: StyledText| styled_view(t)) == help_page(
                help_entries@.map_values(|e: HelpEntry| entry_view(e)),
                skip as nat,
                count as nat,
            ),
    {
        let ghost all = help_entries@.map_values(|e: HelpEntry| entry_view(e));
        let n = help_entries.len();
        let start = if skip < n {
            skip
        } else {
            n
        };
        let end = if count < n - start {
            start + count
        } else {
            n
        };
        let ghost shown = shown_entries(all, skip as nat, count as nat);
        assert(shown =~= all.subrange(start as int, end as int));
        let mut length: usize = 3;
        let mut i: usize = start;
        assert(all.subrange(start as int, i as int) =~= Seq::<(Seq<char>, Seq<char>)>::empty());
        while i < end
            invariant
                start <= i <= end <= n,
                n == help_entries.len(),
                all == help_entries@.map_values(|e: HelpEntry| entry_view(e)),
                length == key_width(all.subrange(start as int, i as int)),
            decreases end - i,
        {
            assert(all.subrange(start as int, i + 1).drop_last() =~= all.subrange(
                start as int,
                i as int,
            ));
            let key_length = help_entries[i].key.as_str().len();
            if key_length > length {
                length = key_length;
            }
            i = i + 1;
        }
        let mut title = String::new();
        proof {
            lemma_key_width_at_least(shown);
        }
        push_spaces(&mut title, length - 3);
        push_chars(&mut title, "Key   Action\n\n");
        let mut help_text: Vec<StyledText> = Vec::new();
        help_text.push(StyledText { text: title, style: TextStyle::Bold });
        let mut j: usize = start;
        assert(help_text@.map_values(|t: StyledText| styled_view(t)) =~= help_page(
            all,
            skip as nat,
            count as nat,
        ).take(1));
        while j < end
            invariant
                start <= j <= end <= n,
                n == help_entries.len(),
                all == help_entries@.map_values(|e: HelpEntry| entry_view(e)),
                shown == all.subrange(start as int, end as int),
                length == key_width(shown),
                help_text@.map_values(|t: StyledText| styled_view(t)) == seq![
                    (spaces((length - 3) as nat) + "Key   Action\n\n"@, TextStyle::Bold),
                ] + entries_pieces(all.subrange(start as int, j as int), length as nat),
            decreases end - j,
        {
            proof {
                lemma_key_width_bounds(shown, j - start);
                assert(shown[j - start] == all[j as int]);
            }
            assert(all.subrange(start as int, j + 1).drop_last() =~= all.subrange(
                start as int,
                j as int,
            ));
            let pieces = help_entries[j].get_entry(length);
            let ghost before = help_text@.map_values(|t: StyledText| styled_view(t));
            let (a, b, c) = pieces;
            help_text.push(a);
            help_text.push(b);
            help_text.push(c);
            assert(help_text@.map_values(|t: StyledText| styled_view(t)) =~= before
                + entry_pieces(all[j as int].0, all[j as int].1, length as nat));
            j = j + 1;
        }
        assert(all.subrange(start as int, end as int) =~= shown);
        help_text
    }

    /// Fit the pages to an area of `height` rows for the entries; gives the
    /// number of entries per page. Areas under five rows hold no entry, which
    /// `requires` leaves out.
    pub fn update_pages(&mut self, height: u16) -> (per_page: u16)
        requires
            height >= 5,
        ensures
            final(self)@ == paged(old(self)@, height as nat),
            per_page == (height - 3) / 2,
    {
        proof {
            use_type_invariant(&*self);
        }
        let entries_per_page = (height - 3) / 2;
        let page_count = self.help_entries.len() as u32 / entries_per_page as u32 + 1;
        assert(page_count <= self.help_entries.len() + 1) by (nonlinear_arith)
            requires
                entries_per_page >= 1,
                page_count == self.help_entries.len() as u32 / entries_per_page as u32 + 1,
                self.help_entries.len() <= 100,
        ;
        if self.page > page_count {
            self.page = page_count - 1;
        }
        self.page_count = page_count;
        entries_per_page
    }

    /// The text of the page shown, for `per_page` entries a page.
    pub fn page_text(&self, per_page: u16) -> (r: Vec<StyledText>)
        ensures
            r@.map_values(|t: StyledText| styled_view(t)) == help_page(
                self@.entries,
                per_page as nat * self@.page,
                per_page as nat,
            ),
    {
        proof {
            use_type_invariant(self);
        }
        assert(per_page as nat * self.page as nat <= 65535 * 101) by (nonlinear_arith)
            requires
                per_page <= 65535,
                self.page <= 101,
        ;
        HelpWindow::get_help_text_entries(
            &self.help_entries,
            per_page as usize * self.page as usize,
            per_page as usize,
        )
    }

    /// The title of the window: the page shown and the number of pages.
    pub fn title(&self) -> (r: String)
        ensures
            r@ == "Help: "@ + min_digits(self@.page + 1, 10) + "/"@ + min_digits(
                self@.page_count,
                10,
            ),
    {
        proof {
            use_type_invariant(self);
        }
        let mut r = String::new();
        push_chars(&mut r, "Help: ");
        push_decimal(&mut r, self.page + 1);
        push_chars(&mut r, "/");
        push_decimal(&mut r, self.page_count);
        r
    }

    /// The hint shown under the entries.
    pub fn exit_text(&self) -> (r: &'static str)
        ensures
            r@ == (if self@.page_count > 1 {
                "Press left or right to change pages, ESC to exit help"@
            } else {
                "Press ESC to exit help"@
            }),
    {
        if self.page_count > 1 {
            "Press left or right to change pages, ESC to exit help"
        } else {
            "Press ESC to exit help"
        }
    }

    /// React to a key.
    pub fn handle_key_event(&mut self, event: KeyEvent)
        ensures
            final(self)@ == help_key_step(old(self)@, event),
    {
        proof {
            use_type_invariant(&*self);
        }
        match event.code {
            KeyCode::Esc => {
                self.should_close = true;
            },
            KeyCode::Left => {
                if self.page > 0 {
                    self.page = self.page - 1;
                }
            },
            KeyCode::Right => {
                if self.page < self.page_count - 1 {
                    self.page = self.page + 1;
                }
            },
            _ => {},
        }
    }

    /// Whether the window is to be closed.
    pub fn should_close(&self) -> (r: bool)
        ensures
            r == self@.should_close,
    {
        self.should_close
    }
}

proof fn lemma_key_width_at_least(entries: Seq<(Seq<char>, Seq<char>)>)
    ensures
        key_width(entries) >= 3,
    decreases entries.len(),
{
    if entries.len() > 0 {
        lemma_key_width_at_least(entries.drop_last());
    }
}

proof fn lemma_key_width_bounds(entries: Seq<(Seq<char>, Seq<char>)>, k: int)
    requires
        0 <= k < entries.len(),
    ensures
        byte_len(entries[k].0) <= key_width(entries),
    decreases entries.len(),
{
    if k < entries.len() - 1 {
        lemma_key_width_bounds(entries.drop_last(), k);
    }
}

/// Every page change keeps the page numbers of the help window in range.
pub proof fn lemma_help_pages_wf(v: HelpWindowView, event: KeyEvent, height: nat)
    requires
        help_wf(v),
        height >= 5,
    ensures
        help_wf(help_key_step(v, event)),
        help_wf(paged(v, height)),
{
    let per_page = ((height - 3) / 2) as nat;
    assert(v.entries.len() / per_page <= v.entries.len()) by (nonlinear_arith)
        requires
            per_page >= 1,
    ;
}

} // verus!
