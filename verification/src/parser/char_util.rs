//! Character classes of the script language.

use vstd::prelude::*;
use crate::stdlib::{char_is_alphanumeric, is_alphanumeric};

verus! {

/// `[`, `]`, `(` or `)`.
pub open spec fn spec_is_parenthesis(ch: char) -> bool {
    ch == '[' || ch == ']' || ch == '(' || ch == ')'
}

/// One of the format specifiers `b`, `o`, `d`, `h`.
pub open spec fn spec_is_modifier(ch: char) -> bool {
    ch == 'b' || ch == 'o' || ch == 'd' || ch == 'h'
}

pub open spec fn spec_is_separator(ch: char) -> bool {
    ch == ':' || ch == ',' || ch == '='
}

pub open spec fn spec_is_newline(ch: char) -> bool {
    ch == '\n' || ch == '\r'
}

pub open spec fn spec_is_whitespace(ch: char) -> bool {
    ch == ' ' || ch == '\t'
}

/// Whether a character opens or closes a group or a test name.
pub fn is_parenthesis(ch: char) -> (r: bool)
    ensures
        r == spec_is_parenthesis(ch),
{
    ch == '[' || ch == ']' || ch == '(' || ch == ')'
}

/// Whether a character is a format specifier.
pub fn is_modifier(ch: char) -> (r: bool)
    ensures
        r == spec_is_modifier(ch),
{
    ch == 'b' || ch == 'o' || ch == 'd' || ch == 'h'
}

/// Whether a character separates input and output (`:`), options (`,`) or an option and its value (`=`).
pub fn is_separator(ch: char) -> (r: bool)
    ensures
        r == spec_is_separator(ch),
{
    ch == ':' || ch == ',' || ch == '='
}

/// Whether a character starts a content in quotation marks.
pub fn is_content_start(ch: char) -> (r: bool)
    ensures
        r == (ch == '"'),
{
    ch == '"'
}

/// Whether a character ends a line.
pub fn is_newline(ch: char) -> (r: bool)
    ensures
        r == spec_is_newline(ch),
{
    ch == '\n' || ch == '\r'
}

/// Whether a character is white space between tokens.
pub fn is_whitespace(ch: char) -> (r: bool)
    ensures
        r == spec_is_whitespace(ch),
{
    ch == ' ' || ch == '\t'
}

/// Whether a character starts a comment.
pub fn is_comment_start(ch: char) -> (r: bool)
    ensures
        r == (ch == '#'),
{
    ch == '#'
}

/// Characters that may stand in an identifier: alphanumerics, `-`, `_`,
/// space and tab.
pub open spec fn spec_is_identifier(ch: char) -> bool {
    char_is_alphanumeric(ch) || ch == '-' || ch == '_' || ch == ' ' || ch == '\t'
}

/// Whether a character may stand in an identifier.
pub fn is_identifier(ch: char) -> (r: bool)
    ensures
        r == spec_is_identifier(ch),
{
    is_alphanumeric(ch) || ch == '-' || ch == '_' || ch == ' ' || ch == '\t'
}

/// Identifiers start with an alphanumeric character.
pub fn is_identifier_start(ch: char) -> (r: bool)
    ensures
        r == char_is_alphanumeric(ch),
{
    is_alphanumeric(ch)
}

} // verus!
