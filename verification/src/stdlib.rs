//! Contracts for the few standard-library and regex operations that the
//! library calls and that vstd does not specify.

use std::num::ParseIntError;
use std::str::Utf8Error;
use std::time::Duration;
use vstd::prelude::*;
use vstd::utf8::{decode_utf8, encode_utf8, is_ascii_chars, valid_utf8};

verus! {

#[verifier::external_type_specification]
#[verifier::external_body]
pub struct ExParseIntError(std::num::ParseIntError);

#[verifier::external_type_specification]
#[verifier::external_body]
pub struct ExUtf8Error(std::str::Utf8Error);

#[verifier::external_type_specification]
#[verifier::external_body]
pub struct ExIoError(std::io::Error);

/// Value of a digit character in radices up to 36 (`0-9`, `a-z`, `A-Z`),
/// or 36 for a character that is no digit in any radix.
pub open spec fn digit_value(c: char) -> nat {
    if '0' <= c && c <= '9' {
        (c as nat - '0' as nat) as nat
    } else if 'a' <= c && c <= 'z' {
        (c as nat - 'a' as nat + 10) as nat
    } else if 'A' <= c && c <= 'Z' {
        (c as nat - 'A' as nat + 10) as nat
    } else {
        36
    }
}

/// Value of a non-empty run of digits in the given radix.
pub open spec fn digits_value(s: Seq<char>, radix: nat) -> Option<nat>
    decreases s.len(),
{
    if s.len() == 0 {
        None
    } else if digit_value(s.last()) >= radix {
        None
    } else if s.len() == 1 {
        Some(digit_value(s.last()))
    } else {
        match digits_value(s.drop_last(), radix) {
            Some(v) => Some(v * radix + digit_value(s.last())),
            None => None,
        }
    }
}

/// What an unsigned integer parse in the given radix reads from `s`: an
/// optional `+` followed by one or more digits of the radix, and nothing else.
pub open spec fn radix_parse(s: Seq<char>, radix: nat) -> Option<nat> {
    if s.len() > 0 && s[0] == '+' {
        digits_value(s.drop_first(), radix)
    } else {
        digits_value(s, radix)
    }
}

/// `String::push`: appends one character.
#[verifier::external_body]
pub(crate) fn string_push(s: &mut String, c: char)
    ensures
        final(s)@ == old(s)@.push(c),
{
    s.push(c)
}

/// What `char::is_alphanumeric` answers for a character (the Unicode
/// `Alphabetic` or `Numeric` property).
pub uninterp spec fn char_is_alphanumeric(c: char) -> bool;

/// `char::is_alphanumeric`; the Unicode tables behind it are not restated,
/// but on ASCII it answers for letters and digits only.
#[verifier::external_body]
pub(crate) fn is_alphanumeric(c: char) -> (r: bool)
    ensures
        r == char_is_alphanumeric(c),
        (c as u32) < 128 ==> (r <==> (('a' <= c && c <= 'z') || ('A' <= c && c <= 'Z') || ('0'
            <= c && c <= '9'))),
{
    c.is_alphanumeric()
}

/// `u8::from_str_radix`: accepts an optional `+` and digits of the radix,
/// and fails on anything else or on a value above 255. It panics on a radix
/// outside 2..=36, which `requires` leaves out.
#[verifier::external_body]
pub(crate) fn u8_from_str_radix(s: &str, radix: u32) -> (res: Result<u8, ParseIntError>)
    requires
        2 <= radix <= 36,
    ensures
        res is Ok <==> (radix_parse(s@, radix as nat) matches Some(v) && v <= u8::MAX),
        res matches Ok(b) ==> radix_parse(s@, radix as nat) == Some(b as nat),
{
    u8::from_str_radix(s, radix)
}

/// `str::parse::<u32>`: the decimal form of `u8::from_str_radix` for `u32`.
#[verifier::external_body]
pub(crate) fn parse_u32(s: &str) -> (res: Option<u32>)
    ensures
        res is Some <==> (radix_parse(s@, 10) matches Some(v) && v <= u32::MAX),
        res matches Some(n) ==> radix_parse(s@, 10) == Some(n as nat),
{
    s.parse::<u32>().ok()
}

/// `str::parse::<u64>`: the decimal form of `u8::from_str_radix` for `u64`.
#[verifier::external_body]
pub(crate) fn parse_u64(s: &str) -> (res: Option<u64>)
    ensures
        res is Some <==> (radix_parse(s@, 10) matches Some(v) && v <= u64::MAX),
        res matches Some(n) ==> radix_parse(s@, 10) == Some(n as nat),
{
    s.parse::<u64>().ok()
}

/// `std::str::from_utf8`: succeeds exactly on valid UTF-8 and then holds the
/// decoded characters.
#[verifier::external_body]
pub(crate) fn str_from_utf8(bytes: &[u8]) -> (res: Result<&str, Utf8Error>)
    ensures
        res is Ok <==> valid_utf8(bytes@),
        res matches Ok(s) ==> s@ == decode_utf8(bytes@),
{
    std::str::from_utf8(bytes)
}

/// The duration that `Duration::from_secs` makes of a number of seconds.
pub uninterp spec fn duration_from_secs(secs: u64) -> Duration;

/// The duration that `Duration::from_millis` makes of a number of milliseconds.
pub uninterp spec fn duration_from_millis(millis: u64) -> Duration;

/// The duration that `Duration::from_micros` makes of a number of microseconds.
pub uninterp spec fn duration_from_micros(micros: u64) -> Duration;

/// `Duration::from_secs`; a number of seconds is the same duration as a
/// million times as many microseconds.
#[verifier::external_body]
pub(crate) fn secs_duration(secs: u64) -> (d: Duration)
    ensures
        d == duration_from_secs(secs),
        secs <= u64::MAX / 1_000_000 ==> d == duration_from_micros((secs * 1_000_000) as u64),
{
    Duration::from_secs(secs)
}

/// `Duration::from_millis`; a number of milliseconds is the same duration
/// as a thousand times as many microseconds.
#[verifier::external_body]
pub(crate) fn millis_duration(millis: u64) -> (d: Duration)
    ensures
        d == duration_from_millis(millis),
        millis <= u64::MAX / 1000 ==> d == duration_from_micros((millis * 1000) as u64),
{
    Duration::from_millis(millis)
}

/// `Duration::from_micros`.
#[verifier::external_body]
pub(crate) fn micros_duration(micros: u64) -> (d: Duration)
    ensures
        d == duration_from_micros(micros),
{
    Duration::from_micros(micros)
}

/// Whether `regex::Regex::new` accepts a pattern.
pub uninterp spec fn regex_compiles(pattern: Seq<char>) -> bool;

/// `regex::Regex::new(pattern).is_ok()`; the regex grammar is not restated.
#[verifier::external_body]
pub(crate) fn regex_is_valid(pattern: &str) -> (r: bool)
    ensures
        r == regex_compiles(pattern@),
{
    regex::Regex::new(pattern).is_ok()
}


/// An ASCII letter in lower case; any other character unchanged.
pub open spec fn ascii_lower_char(c: char) -> char {
    if 'A' <= c && c <= 'Z' {
        ((c as u32) + 32) as char
    } else {
        c
    }
}

/// An ASCII letter in upper case; any other character unchanged.
pub open spec fn ascii_upper_char(c: char) -> char {
    if 'a' <= c && c <= 'z' {
        ((c as u32) - 32) as char
    } else {
        c
    }
}

/// A text with its ASCII letters in lower case.
pub open spec fn ascii_lower(s: Seq<char>) -> Seq<char> {
    s.map_values(|c: char| ascii_lower_char(c))
}

/// A text with its ASCII letters in upper case.
pub open spec fn ascii_upper(s: Seq<char>) -> Seq<char> {
    s.map_values(|c: char| ascii_upper_char(c))
}

/// What `str::to_lowercase` makes of a text (Unicode lower case mapping).
pub uninterp spec fn lowercase(s: Seq<char>) -> Seq<char>;

/// `str::to_lowercase`; the Unicode case tables are not restated, but on
/// ASCII text it lowers the letters `A`-`Z` and keeps every other character.
#[verifier::external_body]
pub(crate) fn to_lowercase(s: &str) -> (r: String)
    ensures
        r@ == lowercase(s@),
        is_ascii_chars(s@) ==> r@ == ascii_lower(s@),
{
    s.to_lowercase()
}

/// What `str::to_uppercase` makes of a text (Unicode upper case mapping).
pub uninterp spec fn uppercase(s: Seq<char>) -> Seq<char>;

/// `str::to_uppercase`; the Unicode case tables are not restated, but on
/// ASCII text it raises the letters `a`-`z` and keeps every other character.
#[verifier::external_body]
pub(crate) fn to_uppercase(s: &str) -> (r: String)
    ensures
        r@ == uppercase(s@),
        is_ascii_chars(s@) ==> r@ == ascii_upper(s@),
{
    s.to_uppercase()
}

/// The byte range of the first (leftmost) match of a regular expression in a
/// text, as `regex::Regex::find` reports it.
pub uninterp spec fn regex_first_match(pattern: Seq<char>, text: Seq<char>) -> Option<(usize, usize)>;

/// `regex::Regex::new(pattern).unwrap().find(text)`, as a start and end byte
/// offset within the text; the regex semantics are not restated. Building the regex panics
/// on an invalid pattern, which `requires` leaves out.
#[verifier::external_body]
pub(crate) fn regex_find(pattern: &str, text: &str) -> (r: Option<(usize, usize)>)
    requires
        regex_compiles(pattern@),
    ensures
        r == regex_first_match(pattern@, text@),
        r matches Some(m) ==> m.0 <= m.1 && m.1 <= encode_utf8(text@).len(),
{
    regex::Regex::new(pattern).unwrap().find(text).map(|m| (m.start(), m.end()))
}

} // verus!
