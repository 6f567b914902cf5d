//! Tokens of the script language.

use vstd::prelude::*;

verus! {

/// Kind of a token.
#[derive(Debug, PartialEq, Eq, Structural, Clone, Copy)]
pub enum TokenType {
    Illegal,
    EndOfFile,
    Newline,
    FormatSpecifier,
    ContentSeparator,
    DirectionSeparator,
    OptionSeparator,
    Identifier,
    Content,
    LeftGroupParenthesis,
    RightGroupParenthesis,
    LeftTestParenthesis,
    RightTestParenthesis,
}

/// A token with its text and the line and column where it was read.
#[derive(Debug, Clone)]
pub struct Token {
    pub token_type: TokenType,
    pub value: String,
    pub line: u32,
    pub column: u32,
}

/// What a token is, as a mathematical value.
pub struct TokenView {
    pub token_type: TokenType,
    pub value: Seq<char>,
    pub line: nat,
    pub column: nat,
}

impl View for Token {
    type V = TokenView;

    open spec fn view(&self) -> TokenView {
        TokenView {
            token_type: self.token_type,
            value: self.value@,
            line: self.line as nat,
            column: self.column as nat,
        }
    }
}

/// The views of a sequence of tokens.
pub open spec fn token_views(tokens: Seq<Token>) -> Seq<TokenView> {
    tokens.map_values(|t: Token| t@)
}

impl Token {
    /// A token without text, at line 0 and column 0.
    pub fn new(token_type: TokenType) -> (t: Token)
        ensures
            t@ == (TokenView { token_type, value: Seq::empty(), line: 0, column: 0 }),
    {
        Token { token_type, value: String::new(), line: 0, column: 0 }
    }

    /// A token with its text and position.
    pub fn new_with_value(token_type: TokenType, value: String, line: u32, column: u32) -> (t:
        Token)
        ensures
            t@ == (TokenView { token_type, value: value@, line: line as nat, column: column as nat }),
    {
        Token { token_type, value, line, column }
    }
}

} // verus!
