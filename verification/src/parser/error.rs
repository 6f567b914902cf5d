//! Errors of the script parser.

use vstd::prelude::*;
use crate::chars::push_chars;
use crate::utils::{min_digits, push_decimal};

verus! {

/// Parse error, most with the line and column where it was found.
#[derive(Debug, PartialEq)]
pub enum Error {
    Unknown(u32, u32),
    ReadFile,
    IllegalToken(String, u32, u32),
    MissingClosingParenthesis(String, u32, u32),
    MissingDirectionSeparator(u32, u32),
    MissingGroupIdentifier(u32, u32),
    MissingTestIdentifier(u32, u32),
    MissingContent(String, u32, u32),
    MissingOptionIdentifier(u32, u32),
    MissingOptionSeparator(u32, u32),
    MissingOptionValue(u32, u32),
    InvalidLineStart(u32, u32),
    InvalidOptionValue(String, u32, u32),
    InvalidOutputContent(String, u32, u32),
    UnknownTestOption(String, u32, u32),
    UnknownGroupOption(String, u32, u32),
}


/// A parse error as a mathematical value.
pub enum ErrorView {
    Unknown(nat, nat),
    ReadFile,
    IllegalToken(Seq<char>, nat, nat),
    MissingClosingParenthesis(Seq<char>, nat, nat),
    MissingDirectionSeparator(nat, nat),
    MissingGroupIdentifier(nat, nat),
    MissingTestIdentifier(nat, nat),
    MissingContent(Seq<char>, nat, nat),
    MissingOptionIdentifier(nat, nat),
    MissingOptionSeparator(nat, nat),
    MissingOptionValue(nat, nat),
    InvalidLineStart(nat, nat),
    InvalidOptionValue(Seq<char>, nat, nat),
    InvalidOutputContent(Seq<char>, nat, nat),
    UnknownTestOption(Seq<char>, nat, nat),
    UnknownGroupOption(Seq<char>, nat, nat),
}

impl View for Error {
    type V = ErrorView;

    open spec fn view(&self) -> ErrorView {
        match self {
            Error::Unknown(l, c) => ErrorView::Unknown(l as nat, c as nat),
            Error::ReadFile => ErrorView::ReadFile,
            Error::IllegalToken(t, l, c) => ErrorView::IllegalToken(t@, l as nat, c as nat),
            Error::MissingClosingParenthesis(t, l, c) => ErrorView::MissingClosingParenthesis(t@, l as nat, c as nat),
            Error::MissingDirectionSeparator(l, c) => ErrorView::MissingDirectionSeparator(l as nat, c as nat),
            Error::MissingGroupIdentifier(l, c) => ErrorView::MissingGroupIdentifier(l as nat, c as nat),
            Error::MissingTestIdentifier(l, c) => ErrorView::MissingTestIdentifier(l as nat, c as nat),
            Error::MissingContent(t, l, c) => ErrorView::MissingContent(t@, l as nat, c as nat),
            Error::MissingOptionIdentifier(l, c) => ErrorView::MissingOptionIdentifier(l as nat, c as nat),
            Error::MissingOptionSeparator(l, c) => ErrorView::MissingOptionSeparator(l as nat, c as nat),
            Error::MissingOptionValue(l, c) => ErrorView::MissingOptionValue(l as nat, c as nat),
            Error::InvalidLineStart(l, c) => ErrorView::InvalidLineStart(l as nat, c as nat),
            Error::InvalidOptionValue(t, l, c) => ErrorView::InvalidOptionValue(t@, l as nat, c as nat),
            Error::InvalidOutputContent(t, l, c) => ErrorView::InvalidOutputContent(t@, l as nat, c as nat),
            Error::UnknownTestOption(t, l, c) => ErrorView::UnknownTestOption(t@, l as nat, c as nat),
            Error::UnknownGroupOption(t, l, c) => ErrorView::UnknownGroupOption(t@, l as nat, c as nat),
        }
    }
}

/// A parse result with its error taken by its view.
pub open spec fn result_view<T>(r: Result<T, Error>) -> Result<T, ErrorView> {
    match r {
        Ok(v) => Ok(v),
        Err(e) => Err(e@),
    }
}

/// The position `line:column` of an error.
pub open spec fn position(line: nat, column: nat) -> Seq<char> {
    min_digits(line, 10) + ":"@ + min_digits(column, 10)
}

/// The message that describes a parse error.
pub open spec fn error_message(e: ErrorView) -> Seq<char> {
    match e {
        ErrorView::Unknown(l, c) => "Unknown error at "@ + position(l, c),
        ErrorView::ReadFile => "Unable to read file"@,
        ErrorView::IllegalToken(v, l, c) => "Illegal token '"@ + v + "' at "@ + position(l, c),
        ErrorView::MissingClosingParenthesis(v, l, c) => "Missing closing parenthesis '"@ + v
            + "' at "@ + position(l, c),
        ErrorView::MissingDirectionSeparator(l, c) => "Missing direction separator at "@ + position(
            l,
            c,
        ),
        ErrorView::MissingGroupIdentifier(l, c) => "Missing group identifier at "@ + position(l, c),
        ErrorView::MissingTestIdentifier(l, c) => "Missing test identifier at "@ + position(l, c),
        ErrorView::MissingContent(v, l, c) => "Missing test "@ + v + " at "@ + position(l, c),
        ErrorView::MissingOptionIdentifier(l, c) => "Missing option identifier at "@ + position(
            l,
            c,
        ),
        ErrorView::MissingOptionSeparator(l, c) => "Missing option separator at "@ + position(l, c),
        ErrorView::MissingOptionValue(l, c) => "Missing option value at "@ + position(l, c),
        ErrorView::InvalidLineStart(l, c) => "Invalid line start at "@ + position(l, c),
        ErrorView::InvalidOptionValue(v, l, c) => "Invalid option type at "@ + position(l, c)
            + ". "@ + v + " type expected"@,
        ErrorView::InvalidOutputContent(v, l, c) => "Invalid output content '"@ + v + "' at "@
            + position(l, c),
        ErrorView::UnknownTestOption(v, l, c) => "Unknown test option '"@ + v + "' at "@ + position(
            l,
            c,
        ),
        ErrorView::UnknownGroupOption(v, l, c) => "Unknown group option '"@ + v + "' at "@
            + position(l, c),
    }
}

fn push_position(s: &mut String, line: u32, column: u32)
    ensures
        final(s)@ == old(s)@ + position(line as nat, column as nat),
{
    push_decimal(s, line);
    push_chars(s, ":");
    push_decimal(s, column);
    assert(s@ =~= old(s)@ + position(line as nat, column as nat));
}

fn text_at(prefix: &str, value: &str, middle: &str, line: u32, column: u32) -> (r: String)
    ensures
        r@ == prefix@ + value@ + middle@ + position(line as nat, column as nat),
{
    let mut r = String::new();
    push_chars(&mut r, prefix);
    push_chars(&mut r, value);
    push_chars(&mut r, middle);
    push_position(&mut r, line, column);
    assert(r@ =~= prefix@ + value@ + middle@ + position(line as nat, column as nat));
    r
}

impl Error {
    /// The message that describes the error.
    pub fn message(&self) -> (r: String)
        ensures
            r@ == error_message(self@),
    {
        proof {
            reveal_strlit("");
        }
        match self {
            Error::Unknown(l, c) => text_at("Unknown error at ", "", "", *l, *c),
            Error::ReadFile => "Unable to read file".to_owned(),
            Error::IllegalToken(v, l, c) => text_at("Illegal token '", v.as_str(), "' at ", *l, *c),
            Error::MissingClosingParenthesis(v, l, c) => text_at(
                "Missing closing parenthesis '",
                v.as_str(),
                "' at ",
                *l,
                *c,
            ),
            Error::MissingDirectionSeparator(l, c) => text_at(
                "Missing direction separator at ",
                "",
                "",
                *l,
                *c,
            ),
            Error::MissingGroupIdentifier(l, c) => text_at(
                "Missing group identifier at ",
                "",
                "",
                *l,
                *c,
            ),
            Error::MissingTestIdentifier(l, c) => text_at(
                "Missing test identifier at ",
                "",
                "",
                *l,
                *c,
            ),
            Error::MissingContent(v, l, c) => text_at("Missing test ", v.as_str(), " at ", *l, *c),
            Error::MissingOptionIdentifier(l, c) => text_at(
                "Missing option identifier at ",
                "",
                "",
                *l,
                *c,
            ),
            Error::MissingOptionSeparator(l, c) => text_at(
                "Missing option separator at ",
                "",
                "",
                *l,
                *c,
            ),
            Error::MissingOptionValue(l, c) => text_at("Missing option value at ", "", "", *l, *c),
            Error::InvalidLineStart(l, c) => text_at("Invalid line start at ", "", "", *l, *c),
            Error::InvalidOptionValue(v, l, c) => {
                let mut r = text_at("Invalid option type at ", "", "", *l, *c);
                push_chars(&mut r, ". ");
                push_chars(&mut r, v.as_str());
                push_chars(&mut r, " type expected");
                r
            },
            Error::InvalidOutputContent(v, l, c) => text_at(
                "Invalid output content '",
                v.as_str(),
                "' at ",
                *l,
                *c,
            ),
            Error::UnknownTestOption(v, l, c) => text_at(
                "Unknown test option '",
                v.as_str(),
                "' at ",
                *l,
                *c,
            ),
            Error::UnknownGroupOption(v, l, c) => text_at(
                "Unknown group option '",
                v.as_str(),
                "' at ",
                *l,
                *c,
            ),
        }
    }
}

} // verus!
