//! Lexer of the script language.

use vstd::prelude::*;
use vstd::utf8::{encode_scalar, encode_utf8};
use super::char_util::{
    is_comment_start, is_content_start, is_identifier, is_identifier_start, is_modifier,
    is_newline, is_parenthesis, is_separator, is_whitespace, spec_is_identifier, spec_is_modifier,
    spec_is_newline, spec_is_parenthesis, spec_is_separator, spec_is_whitespace,
};
use super::token::{Token, TokenType, TokenView, token_views};
use crate::chars::chars_of;
use crate::stdlib::{char_is_alphanumeric, string_push};

verus! {

/// Position of the lexer in its input: character index, line and column.
pub struct LexState {
    pub pos: nat,
    pub line: nat,
    pub col: nat,
}

pub open spec fn token_view(token_type: TokenType, value: Seq<char>, line: nat, col: nat) -> TokenView {
    TokenView { token_type, value, line, column: col }
}

pub open spec fn lex_state(pos: nat, line: nat, col: nat) -> LexState {
    LexState { pos, line, col }
}

/// Number of bytes of the UTF-8 encoding of the input.
pub open spec fn byte_len(s: Seq<char>) -> nat {
    encode_utf8(s).len()
}

// In the functions below `s` is the input and `blen` its length in bytes.
// The lexer steps through characters but compares its character position
// with the byte length; reading a character at a position past the last
// character fails, and these functions answer `None` there.

/// Skipping spaces and tabs: the position and column of the next other character.
pub open spec fn skip_whitespace(s: Seq<char>, blen: nat, pos: nat, col: nat) -> Option<(nat, nat)>
    decreases s.len() - pos,
{
    if pos < blen {
        if pos >= s.len() {
            None
        } else if !spec_is_whitespace(s[pos as int]) {
            Some((pos, col))
        } else {
            skip_whitespace(s, blen, pos + 1, col + 1)
        }
    } else {
        Some((pos, col))
    }
}

/// A newline token read at `pos`; a `\r` right after it is taken along.
pub open spec fn newline_token(s: Seq<char>, blen: nat, pos: nat, line: nat, col: nat) -> Option<
    (TokenView, LexState),
> {
    let next = pos + 1;
    if next < blen {
        if next >= s.len() {
            None
        } else if s[next as int] == '\r' {
            Some(
                (
                    token_view(TokenType::Newline, seq!['\n', '\r'], line, col),
                    lex_state(next + 1, line + 1, 1),
                ),
            )
        } else {
            Some((token_view(TokenType::Newline, seq!['\n'], line, col), lex_state(next, line + 1, 1)))
        }
    } else {
        Some((token_view(TokenType::Newline, seq!['\n'], line, col), lex_state(next, line + 1, 1)))
    }
}

/// The rest of a comment from `pos` on: it ends with a newline token, or,
/// at the end of the input, with an illegal token.
pub open spec fn comment_token(s: Seq<char>, blen: nat, pos: nat, line: nat, col: nat) -> Option<
    (TokenView, LexState),
>
    decreases s.len() - pos,
{
    if pos < blen {
        if pos >= s.len() {
            None
        } else if spec_is_newline(s[pos as int]) {
            newline_token(s, blen, pos, line, col)
        } else {
            comment_token(s, blen, pos + 1, line, col + 1)
        }
    } else {
        Some((token_view(TokenType::Illegal, Seq::empty(), 0, 0), lex_state(pos, line, col)))
    }
}

/// The identifier characters from `pos` on, appended to `acc`, with the
/// position and column after them.
pub open spec fn identifier_text(s: Seq<char>, blen: nat, pos: nat, col: nat, acc: Seq<char>) -> Option<
    (Seq<char>, nat, nat),
>
    decreases s.len() - pos,
{
    if pos <= blen {
        if pos >= s.len() {
            None
        } else if !spec_is_identifier(s[pos as int]) {
            Some((acc, pos, col))
        } else {
            identifier_text(s, blen, pos + 1, col + 1, acc.push(s[pos as int]))
        }
    } else {
        Some((acc, pos, col))
    }
}

/// The content from `pos` on (after the opening quotation mark), appended to
/// `acc`: whether a line break made it illegal, its characters, and the
/// position and column after it. A backslash is kept and makes the next
/// character plain; an unescaped quotation mark ends the content.
pub open spec fn content_text(
    s: Seq<char>,
    blen: nat,
    pos: nat,
    col: nat,
    acc: Seq<char>,
    escape: bool,
) -> Option<(bool, Seq<char>, nat, nat)>
    decreases s.len() - pos,
{
    if pos <= blen {
        if pos >= s.len() {
            None
        } else {
            let ch = s[pos as int];
            if ch == '\\' && !escape {
                content_text(s, blen, pos + 1, col + 1, acc.push(ch), true)
            } else if ch == '\n' || ch == '\r' {
                Some((true, acc, pos, col))
            } else if ch == '"' && !escape {
                Some((false, acc, pos + 1, col + 1))
            } else {
                content_text(s, blen, pos + 1, col + 1, acc.push(ch), false)
            }
        }
    } else {
        Some((false, acc, pos, col))
    }
}

pub open spec fn parenthesis_type(ch: char) -> TokenType {
    if ch == '[' {
        TokenType::LeftGroupParenthesis
    } else if ch == ']' {
        TokenType::RightGroupParenthesis
    } else if ch == '(' {
        TokenType::LeftTestParenthesis
    } else if ch == ')' {
        TokenType::RightTestParenthesis
    } else {
        TokenType::Illegal
    }
}

pub open spec fn separator_type(ch: char) -> TokenType {
    if ch == ':' {
        TokenType::DirectionSeparator
    } else if ch == ',' {
        TokenType::ContentSeparator
    } else if ch == '=' {
        TokenType::OptionSeparator
    } else {
        TokenType::Illegal
    }
}

/// The token that starts with character `ch` at `pos` when it is no comment
/// and no format specifier.
pub open spec fn plain_token(s: Seq<char>, blen: nat, pos: nat, line: nat, col: nat, ch: char) -> Option<
    (TokenView, LexState),
> {
    if char_is_alphanumeric(ch) {
        match identifier_text(s, blen, pos, col, Seq::empty()) {
            Some((v, p, c)) => Some(
                (token_view(TokenType::Identifier, v, line, col), lex_state(p, line, c)),
            ),
            None => None,
        }
    } else if ch == '"' {
        match content_text(s, blen, pos + 1, col + 1, Seq::empty(), false) {
            Some((illegal, v, p, c)) => Some(
                (
                    token_view(
                        if illegal {
                            TokenType::Illegal
                        } else {
                            TokenType::Content
                        },
                        v,
                        line,
                        col,
                    ),
                    lex_state(p, line, c),
                ),
            ),
            None => None,
        }
    } else if spec_is_parenthesis(ch) {
        Some(
            (
                token_view(parenthesis_type(ch), seq![ch], line, col + 1),
                lex_state(pos + 1, line, col + 1),
            ),
        )
    } else if spec_is_separator(ch) {
        Some(
            (
                token_view(separator_type(ch), seq![ch], line, col + 1),
                lex_state(pos + 1, line, col + 1),
            ),
        )
    } else if spec_is_newline(ch) {
        newline_token(s, blen, pos, line, col)
    } else {
        Some((token_view(TokenType::Illegal, seq![ch], line, col), lex_state(pos, line, col)))
    }
}

/// The next token and the lexer position after it; `None` where reading
/// runs past the last character.
pub open spec fn next_token(s: Seq<char>, blen: nat, st: LexState) -> Option<(TokenView, LexState)> {
    if st.pos >= blen {
        Some((token_view(TokenType::EndOfFile, Seq::empty(), 0, 0), st))
    } else {
        match skip_whitespace(s, blen, st.pos, st.col) {
            None => None,
            Some((p, c)) => if p >= s.len() {
                None
            } else {
                let ch = s[p as int];
                if ch == '#' {
                    comment_token(s, blen, p + 1, st.line, c + 1)
                } else if spec_is_modifier(ch) && p + 1 < blen {
                    if p + 1 >= s.len() {
                        None
                    } else if s[(p + 1) as int] == '"' {
                        Some(
                            (
                                token_view(TokenType::FormatSpecifier, seq![ch], st.line, c + 1),
                                lex_state(p + 1, st.line, c + 1),
                            ),
                        )
                    } else {
                        plain_token(s, blen, p, st.line, c, ch)
                    }
                } else {
                    plain_token(s, blen, p, st.line, c, ch)
                }
            },
        }
    }
}

/// Tokens that end the token stream.
pub open spec fn is_final_token(t: TokenView) -> bool {
    t.token_type == TokenType::EndOfFile || t.token_type == TokenType::Illegal
}

/// A short UTF-8 encoding has at least one byte per character.
pub proof fn lemma_byte_len_bound(s: Seq<char>)
    ensures
        s.len() <= byte_len(s),
    decreases s.len(),
{
    if s.len() > 0 {
        lemma_byte_len_bound(s.drop_first());
    }
}

proof fn lemma_skip_whitespace(s: Seq<char>, blen: nat, pos: nat, col: nat)
    ensures
        skip_whitespace(s, blen, pos, col) matches Some((p, c)) ==> p >= pos && c == col + (p
            - pos),
    decreases s.len() - pos,
{
    if pos < blen && pos < s.len() && spec_is_whitespace(s[pos as int]) {
        lemma_skip_whitespace(s, blen, pos + 1, col + 1);
    }
}

proof fn lemma_comment_token(s: Seq<char>, blen: nat, pos: nat, line: nat, col: nat)
    ensures
        comment_token(s, blen, pos, line, col) matches Some((t, st)) ==> (is_final_token(t) || (
        st.pos > pos && st.pos <= s.len())),
    decreases s.len() - pos,
{
    if pos < blen && pos < s.len() && !spec_is_newline(s[pos as int]) {
        lemma_comment_token(s, blen, pos + 1, line, col + 1);
    }
}

proof fn lemma_identifier_text(s: Seq<char>, blen: nat, pos: nat, col: nat, acc: Seq<char>)
    requires
        pos <= s.len(),
    ensures
        identifier_text(s, blen, pos, col, acc) matches Some((v, p, c)) ==> pos <= p <= s.len()
            && c == col + (p - pos),
    decreases s.len() - pos,
{
    if pos <= blen && pos < s.len() && spec_is_identifier(s[pos as int]) {
        lemma_identifier_text(s, blen, pos + 1, col + 1, acc.push(s[pos as int]));
    }
}

proof fn lemma_content_text(
    s: Seq<char>,
    blen: nat,
    pos: nat,
    col: nat,
    acc: Seq<char>,
    escape: bool,
)
    requires
        pos <= s.len(),
    ensures
        content_text(s, blen, pos, col, acc, escape) matches Some((illegal, v, p, c)) ==> pos
            <= p <= s.len() && c == col + (p - pos),
    decreases s.len() - pos,
{
    if pos <= blen && pos < s.len() {
        let ch = s[pos as int];
        if ch == '\\' && !escape {
            lemma_content_text(s, blen, pos + 1, col + 1, acc.push(ch), true);
        } else if ch == '\n' || ch == '\r' {
        } else if ch == '"' && !escape {
        } else {
            lemma_content_text(s, blen, pos + 1, col + 1, acc.push(ch), false);
        }
    }
}

/// A token that does not end the stream moves the lexer forward, and never
/// past the last character.
pub proof fn lemma_next_token_progress(s: Seq<char>, st: LexState)
    ensures
        next_token(s, byte_len(s), st) matches Some((t, st2)) ==> (is_final_token(t) || (st2.pos
            > st.pos && st2.pos <= s.len())),
{
    let blen = byte_len(s);
    lemma_byte_len_bound(s);
    if st.pos < blen {
        lemma_skip_whitespace(s, blen, st.pos, st.col);
        if let Some((p, c)) = skip_whitespace(s, blen, st.pos, st.col) {
            if p < s.len() {
                let ch = s[p as int];
                lemma_comment_token(s, blen, p + 1, st.line, c + 1);
                lemma_identifier_text(s, blen, p, c, Seq::empty());
                lemma_identifier_text(s, blen, p + 1, c + 1, seq![ch]);
                lemma_content_text(s, blen, p + 1, c + 1, Seq::empty(), false);
            }
        }
    }
}

/// The tokens read from state `st` on, up to and including the first end of
/// file or illegal token; `None` where reading runs past the last character.
pub open spec fn lex_tokens(s: Seq<char>, st: LexState) -> Option<Seq<TokenView>>
    decreases s.len() + 1 - st.pos,
{
    match next_token(s, byte_len(s), st) {
        None => None,
        Some((t, st2)) => if is_final_token(t) {
            Some(seq![t])
        } else {
            proof {
                lemma_next_token_progress(s, st);
            }
            match lex_tokens(s, st2) {
                Some(rest) => Some(seq![t] + rest),
                None => None,
            }
        },
    }
}

/// The tokens of an input, read from its start at line 1, column 1.
pub open spec fn lex(s: Seq<char>) -> Option<Seq<TokenView>> {
    lex_tokens(s, lex_state(0, 1, 1))
}


/// `prefix` put in front of a token stream that may be missing.
pub open spec fn prepend_tokens(prefix: Seq<TokenView>, rest: Option<Seq<TokenView>>) -> Option<
    Seq<TokenView>,
> {
    match rest {
        Some(r) => Some(prefix + r),
        None => None,
    }
}

fn char_string(ch: char) -> (s: String)
    ensures
        s@ == seq![ch],
{
    let mut s = String::new();
    string_push(&mut s, ch);
    s
}

/// Lexer turning a script into tokens.
pub struct Lexer {
    input: String,
    position: usize,
    line: u32,
    column: u32,
    chars: Vec<char>,
    byte_len: usize,
}

impl Lexer {
    /// The input of the lexer.
    pub closed spec fn text(&self) -> Seq<char> {
        self.input@
    }

    /// Where the lexer stands in its input.
    pub closed spec fn state(&self) -> LexState {
        lex_state(self.position as nat, self.line as nat, self.column as nat)
    }

    /// The lexer's internal data agree with its input, and its line and
    /// column are within what its position allows.
    pub closed spec fn wf(&self) -> bool {
        &&& self.chars@ == self.input@
        &&& self.byte_len == byte_len(self.input@)
        &&& self.position <= self.chars.len()
        &&& 1 <= self.column <= self.position + 1
        &&& 1 <= self.line <= self.position + 1
    }

    /// The lexer keeps its input.
    closed spec fn same_input(&self, other: &Lexer) -> bool {
        &&& self.input@ == other.input@
        &&& self.chars@ == other.chars@
        &&& self.byte_len == other.byte_len
    }

    /// A lexer at the start of its input.
    pub fn new(input: String) -> (l: Lexer)
        ensures
            l.wf(),
            l.text() == input@,
            l.state() == lex_state(0, 1, 1),
    {
        let chars = chars_of(input.as_str());
        let byte_len = input.as_str().as_bytes().len();
        Lexer { input, position: 0, line: 1, column: 1, chars, byte_len }
    }

    fn skip_whitespaces(&mut self) -> (ok: bool)
        requires
            old(self).wf(),
            old(self).chars.len() < u32::MAX,
        ensures
            final(self).wf(),
            final(self).same_input(old(self)),
            final(self).line == old(self).line,
            match skip_whitespace(
                old(self).chars@,
                old(self).byte_len as nat,
                old(self).position as nat,
                old(self).column as nat,
            ) {
                Some((p, c)) => ok && final(self).position == p && final(self).column == c,
                None => !ok,
            },
    {
        let ghost p0 = self.position as nat;
        let ghost c0 = self.column as nat;
        let ghost start = *self;
        loop
            invariant
                self.wf(),
                self.same_input(old(self)),
                self.line == old(self).line,
                start.same_input(old(self)),
                p0 == old(self).position,
                c0 == old(self).column,
                self.chars.len() < u32::MAX,
                skip_whitespace(self.chars@, self.byte_len as nat, p0, c0) == skip_whitespace(
                    self.chars@,
                    self.byte_len as nat,
                    self.position as nat,
                    self.column as nat,
                ),
            decreases self.chars.len() - self.position,
        {
            if self.position >= self.byte_len {
                return true;
            }
            if self.position >= self.chars.len() {
                return false;
            }
            let ch = self.chars[self.position];
            if !is_whitespace(ch) {
                return true;
            }
            self.position = self.position + 1;
            self.column = self.column + 1;
        }
    }

    fn recognize_newline(&mut self) -> (t: Option<Token>)
        requires
            old(self).wf(),
            old(self).chars.len() < u32::MAX,
            old(self).position < old(self).chars.len(),
        ensures
            final(self).wf(),
            final(self).same_input(old(self)),
            match newline_token(
                old(self).chars@,
                old(self).byte_len as nat,
                old(self).position as nat,
                old(self).line as nat,
                old(self).column as nat,
            ) {
                Some((tv, st)) => t matches Some(tok) && tok@ == tv && final(self).state() == st,
                None => t is None,
            },
    {
        let mut value = String::new();
        string_push(&mut value, '\n');
        let line = self.line;
        let column = self.column;
        self.position = self.position + 1;
        self.column = 1;
        self.line = self.line + 1;
        if self.position < self.byte_len {
            if self.position >= self.chars.len() {
                return None;
            }
            let next_char = self.chars[self.position];
            if next_char == '\r' {
                string_push(&mut value, '\r');
                self.position = self.position + 1;
            }
        }
        assert(value@ =~= seq!['\n'] || value@ =~= seq!['\n', '\r']);
        Some(Token::new_with_value(TokenType::Newline, value, line, column))
    }

    fn skip_comment(&mut self) -> (t: Option<Token>)
        requires
            old(self).wf(),
            old(self).chars.len() < u32::MAX,
            old(self).position < old(self).chars.len(),
        ensures
            final(self).wf(),
            final(self).same_input(old(self)),
            match comment_token(
                old(self).chars@,
                old(self).byte_len as nat,
                (old(self).position + 1) as nat,
                old(self).line as nat,
                (old(self).column + 1) as nat,
            ) {
                Some((tv, st)) => t matches Some(tok) && tok@ == tv && final(self).state() == st,
                None => t is None,
            },
    {
        self.position = self.position + 1;
        self.column = self.column + 1;
        let ghost start = *self;
        loop
            invariant
                self.wf(),
                self.same_input(old(self)),
                self.line == old(self).line,
                start.same_input(old(self)),
                start.position == old(self).position + 1,
                start.column == old(self).column + 1,
                start.line == old(self).line,
                self.chars.len() < u32::MAX,
                comment_token(
                    self.chars@,
                    self.byte_len as nat,
                    start.position as nat,
                    start.line as nat,
                    start.column as nat,
                ) == comment_token(
                    self.chars@,
                    self.byte_len as nat,
                    self.position as nat,
                    self.line as nat,
                    self.column as nat,
                ),
            decreases self.chars.len() - self.position,
        {
            if self.position >= self.byte_len {
                return Some(Token::new(TokenType::Illegal));
            }
            if self.position >= self.chars.len() {
                return None;
            }
            let ch = self.chars[self.position];
            if is_newline(ch) {
                return self.recognize_newline();
            }
            self.position = self.position + 1;
            self.column = self.column + 1;
        }
    }

    fn recognize_identifier(&mut self) -> (t: Option<Token>)
        requires
            old(self).wf(),
            old(self).chars.len() < u32::MAX,
        ensures
            final(self).wf(),
            final(self).same_input(old(self)),
            match identifier_text(
                old(self).chars@,
                old(self).byte_len as nat,
                old(self).position as nat,
                old(self).column as nat,
                Seq::empty(),
            ) {
                Some((v, p, c)) => t matches Some(tok) && tok@ == token_view(
                    TokenType::Identifier,
                    v,
                    old(self).line as nat,
                    old(self).column as nat,
                ) && final(self).state() == lex_state(p, old(self).line as nat, c),
                None => t is None,
            },
    {
        let mut identifier = String::new();
        let column = self.column;
        let ghost start = *self;
        loop
            invariant
                self.wf(),
                self.same_input(old(self)),
                self.line == old(self).line,
                start.same_input(old(self)),
                start.position == old(self).position,
                start.column == old(self).column,
                start.line == old(self).line,
                column == old(self).column,
                self.chars.len() < u32::MAX,
                identifier_text(
                    self.chars@,
                    self.byte_len as nat,
                    start.position as nat,
                    start.column as nat,
                    Seq::empty(),
                ) == identifier_text(
                    self.chars@,
                    self.byte_len as nat,
                    self.position as nat,
                    self.column as nat,
                    identifier@,
                ),
            decreases self.chars.len() - self.position,
        {
            if self.position > self.byte_len {
                return Some(
                    Token::new_with_value(TokenType::Identifier, identifier, self.line, column),
                );
            }
            if self.position >= self.chars.len() {
                return None;
            }
            let ch = self.chars[self.position];
            if !is_identifier(ch) {
                return Some(
                    Token::new_with_value(TokenType::Identifier, identifier, self.line, column),
                );
            }
            string_push(&mut identifier, ch);
            self.position = self.position + 1;
            self.column = self.column + 1;
        }
    }

    fn recognize_content(&mut self) -> (t: Option<Token>)
        requires
            old(self).wf(),
            old(self).chars.len() < u32::MAX,
            old(self).position < old(self).chars.len(),
        ensures
            final(self).wf(),
            final(self).same_input(old(self)),
            match content_text(
                old(self).chars@,
                old(self).byte_len as nat,
                (old(self).position + 1) as nat,
                (old(self).column + 1) as nat,
                Seq::empty(),
                false,
            ) {
                Some((illegal, v, p, c)) => t matches Some(tok) && tok@ == token_view(
                    if illegal {
                        TokenType::Illegal
                    } else {
                        TokenType::Content
                    },
                    v,
                    old(self).line as nat,
                    old(self).column as nat,
                ) && final(self).state() == lex_state(p, old(self).line as nat, c),
                None => t is None,
            },
    {
        let mut content = String::new();
        let mut escape_next_char = false;
        let column = self.column;
        self.position = self.position + 1;
        self.column = self.column + 1;
        let ghost start = *self;
        loop
            invariant
                self.wf(),
                self.same_input(old(self)),
                self.line == old(self).line,
                start.same_input(old(self)),
                start.position == old(self).position + 1,
                start.column == old(self).column + 1,
                start.line == old(self).line,
                column == old(self).column,
                self.chars.len() < u32::MAX,
                content_text(
                    self.chars@,
                    self.byte_len as nat,
                    start.position as nat,
                    start.column as nat,
                    Seq::empty(),
                    false,
                ) == content_text(
                    self.chars@,
                    self.byte_len as nat,
                    self.position as nat,
                    self.column as nat,
                    content@,
                    escape_next_char,
                ),
            decreases self.chars.len() - self.position,
        {
            if self.position > self.byte_len {
                return Some(Token::new_with_value(TokenType::Content, content, self.line, column));
            }
            if self.position >= self.chars.len() {
                return None;
            }
            let ch = self.chars[self.position];
            if ch == '\\' && !escape_next_char {
                escape_next_char = true;
                string_push(&mut content, ch);
                self.position = self.position + 1;
                self.column = self.column + 1;
            } else {
                if ch == '\n' || ch == '\r' {
                    return Some(
                        Token::new_with_value(TokenType::Illegal, content, self.line, column),
                    );
                }
                if ch == '"' && !escape_next_char {
                    self.position = self.position + 1;
                    self.column = self.column + 1;
                    return Some(
                        Token::new_with_value(TokenType::Content, content, self.line, column),
                    );
                }
                string_push(&mut content, ch);
                self.position = self.position + 1;
                self.column = self.column + 1;
                escape_next_char = false;
            }
        }
    }

    fn recognize_separator(&mut self, ch: char) -> (t: Token)
        requires
            old(self).wf(),
            old(self).chars.len() < u32::MAX,
            old(self).position < old(self).chars.len(),
        ensures
            final(self).wf(),
            final(self).same_input(old(self)),
            t@ == token_view(
                separator_type(ch),
                seq![ch],
                old(self).line as nat,
                (old(self).column + 1) as nat,
            ),
            final(self).state() == lex_state(
                (old(self).position + 1) as nat,
                old(self).line as nat,
                (old(self).column + 1) as nat,
            ),
    {
        self.column = self.column + 1;
        self.position = self.position + 1;
        let token_type = match ch {
            ':' => TokenType::DirectionSeparator,
            ',' => TokenType::ContentSeparator,
            '=' => TokenType::OptionSeparator,
            _ => TokenType::Illegal,
        };
        Token::new_with_value(token_type, char_string(ch), self.line, self.column)
    }

    fn recognize_modifier(&mut self, ch: char) -> (t: Token)
        requires
            old(self).wf(),
            old(self).chars.len() < u32::MAX,
            old(self).position < old(self).chars.len(),
        ensures
            final(self).wf(),
            final(self).same_input(old(self)),
            t@ == token_view(
                TokenType::FormatSpecifier,
                seq![ch],
                old(self).line as nat,
                (old(self).column + 1) as nat,
            ),
            final(self).state() == lex_state(
                (old(self).position + 1) as nat,
                old(self).line as nat,
                (old(self).column + 1) as nat,
            ),
    {
        self.column = self.column + 1;
        self.position = self.position + 1;
        Token::new_with_value(TokenType::FormatSpecifier, char_string(ch), self.line, self.column)
    }

    fn recognize_parenthesis(&mut self, ch: char) -> (t: Token)
        requires
            old(self).wf(),
            old(self).chars.len() < u32::MAX,
            old(self).position < old(self).chars.len(),
        ensures
            final(self).wf(),
            final(self).same_input(old(self)),
            t@ == token_view(
                parenthesis_type(ch),
                seq![ch],
                old(self).line as nat,
                (old(self).column + 1) as nat,
            ),
            final(self).state() == lex_state(
                (old(self).position + 1) as nat,
                old(self).line as nat,
                (old(self).column + 1) as nat,
            ),
    {
        self.column = self.column + 1;
        self.position = self.position + 1;
        let token_type = match ch {
            '[' => TokenType::LeftGroupParenthesis,
            ']' => TokenType::RightGroupParenthesis,
            '(' => TokenType::LeftTestParenthesis,
            ')' => TokenType::RightTestParenthesis,
            _ => TokenType::Illegal,
        };
        Token::new_with_value(token_type, char_string(ch), self.line, self.column)
    }

    fn next_token(&mut self) -> (t: Option<Token>)
        requires
            old(self).wf(),
            old(self).chars.len() < u32::MAX,
        ensures
            final(self).wf(),
            final(self).same_input(old(self)),
            match next_token(old(self).chars@, old(self).byte_len as nat, old(self).state()) {
                Some((tv, st)) => t matches Some(tok) && tok@ == tv && final(self).state() == st,
                None => t is None,
            },
    {
        if self.position >= self.byte_len {
            return Some(Token::new(TokenType::EndOfFile));
        }
        if !self.skip_whitespaces() {
            return None;
        }
        if self.position >= self.chars.len() {
            return None;
        }
        let ch = self.chars[self.position];
        if is_comment_start(ch) {
            return self.skip_comment();
        }
        if is_modifier(ch) {
            if self.position + 1 < self.byte_len {
                if self.position + 1 >= self.chars.len() {
                    return None;
                }
                if self.chars[self.position + 1] == '"' {
                    return Some(self.recognize_modifier(ch));
                }
            }
        }
        if is_identifier_start(ch) {
            return self.recognize_identifier();
        }
        if is_content_start(ch) {
            return self.recognize_content();
        }
        if is_parenthesis(ch) {
            return Some(self.recognize_parenthesis(ch));
        }
        if is_separator(ch) {
            return Some(self.recognize_separator(ch));
        }
        if is_newline(ch) {
            return self.recognize_newline();
        }
        Some(Token::new_with_value(TokenType::Illegal, char_string(ch), self.line, self.column))
    }

    /// The tokens from the current position on, or `None` where reading
    /// would run past the last character.
    fn collect_tokens(&mut self) -> (r: Option<Vec<Token>>)
        requires
            old(self).wf(),
            old(self).chars.len() < u32::MAX,
        ensures
            match lex_tokens(old(self).text(), old(self).state()) {
                Some(ts) => r matches Some(v) && token_views(v@) == ts,
                None => r is None,
            },
    {
        let mut tokens: Vec<Token> = Vec::new();
        assert(token_views(tokens@) + lex_tokens(self.text(), self.state())->0 =~= lex_tokens(
            self.text(),
            self.state(),
        )->0);
        loop
            invariant
                self.wf(),
                self.same_input(old(self)),
                self.chars.len() < u32::MAX,
                lex_tokens(old(self).text(), old(self).state()) == prepend_tokens(
                    token_views(tokens@),
                    lex_tokens(self.text(), self.state()),
                ),
            decreases self.chars.len() + 1 - self.position,
        {
            let ghost before = *self;
            proof {
                lemma_next_token_progress(self.text(), self.state());
            }
            match self.next_token() {
                None => {
                    return None;
                },
                Some(token) => {
                    let ghost prev = token_views(tokens@);
                    let is_final = token.token_type == TokenType::EndOfFile || token.token_type
                        == TokenType::Illegal;
                    tokens.push(token);
                    assert(token_views(tokens@) =~= prev.push(token@));
                    if is_final {
                        assert(prev + seq![token@] =~= prev.push(token@));
                        return Some(tokens);
                    }
                    assert(prev + (seq![token@] + lex_tokens(self.text(), self.state())->0)
                        =~= prev.push(token@) + lex_tokens(self.text(), self.state())->0);
                },
            }
        }
    }

    /// Read all tokens up to and including the end of file or the first
    /// illegal token.
    pub fn get_tokens(&mut self) -> (tokens: Vec<Token>)
        requires
            old(self).wf(),
            old(self).text().len() < u32::MAX,
            lex_tokens(old(self).text(), old(self).state()) is Some,
        ensures
            token_views(tokens@) == lex_tokens(old(self).text(), old(self).state())->0,
    {
        match self.collect_tokens() {
            Some(tokens) => tokens,
            None => Vec::new(),
        }
    }
}

/// The tokens of an input, or `None` where lexing it fails: where the
/// lexer would read past the last character (it compares character
/// positions with the byte length), or where the input has `u32::MAX`
/// characters or more and its line and column counters could overflow.
pub fn tokenize(input: String) -> (r: Option<Vec<Token>>)
    ensures
        input@.len() < u32::MAX ==> match lex(input@) {
            Some(ts) => r matches Some(v) && token_views(v@) == ts,
            None => r is None,
        },
        input@.len() >= u32::MAX ==> r is None,
{
    let mut lexer = Lexer::new(input);
    if lexer.chars.len() >= 4294967295 {
        return None;
    }
    lexer.collect_tokens()
}

} // verus!
