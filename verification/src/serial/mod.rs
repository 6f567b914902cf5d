//! What the serial port connection decides: the bytes written for a text in
//! a format, and when a response read in chunks is complete and whether it
//! matches the one expected.

pub mod settings;

use vstd::prelude::*;
use vstd::utf8::{decode_utf8, encode_utf8, is_ascii_chars, valid_utf8};
use crate::chars::{chars_of, push_chars};
use crate::error::Result;
use crate::stdlib::{
    ascii_lower, ascii_upper, lowercase, to_lowercase, to_uppercase, uppercase,
};
use crate::utils::{
    TextFormat, bytes_from_binary_string, bytes_from_decimal_string, bytes_from_hex_string,
    bytes_from_octal_string, bytes_text, decimal_digits_text, hex_digits_text, octal_digits_text,
    binary_digits_text, radix_bytes, radix_string,
};

verus! {

/// Settings for running tests on a serial port.
#[derive(Debug, Clone, Copy)]
pub struct CheckSettings {
    /// Ignore response case mode.
    pub ignore_case: bool,
    /// Format of the data written to the serial port.
    pub input_format: TextFormat,
    /// Format of the data received by the serial port.
    pub output_format: TextFormat,
}

impl Default for CheckSettings {
    fn default() -> (s: CheckSettings)
        ensures
            !s.ignore_case,
            s.input_format == TextFormat::Text,
            s.output_format == TextFormat::Text,
    {
        CheckSettings {
            ignore_case: false,
            input_format: TextFormat::Text,
            output_format: TextFormat::Text,
        }
    }
}

/// The bytes written for a text in a format, or `None` where the text is no
/// valid number text of the format: the UTF-8 bytes of a plain text, else
/// the bytes that the digits of the format spell.
pub open spec fn write_bytes(text: Seq<char>, format: TextFormat) -> Option<Seq<u8>> {
    match format {
        TextFormat::Text => Some(encode_utf8(text)),
        TextFormat::Binary => radix_bytes(binary_digits_text(text), 2),
        TextFormat::Octal => radix_bytes(octal_digits_text(text), 8),
        TextFormat::Decimal => radix_bytes(decimal_digits_text(text), 10),
        TextFormat::Hex => radix_bytes(hex_digits_text(text), 16),
    }
}

/// The number a digit character stands for: `0`-`9`, then the letters from
/// ten on, in either case.
pub open spec fn digit_number(c: char) -> nat {
    if '0' <= c && c <= '9' {
        (c as nat - 48) as nat
    } else if 'a' <= c && c <= 'z' {
        (c as nat - 87) as nat
    } else {
        (c as nat - 55) as nat
    }
}

/// Whether a character is a digit of the radix (up to 16).
pub open spec fn radix_digit(c: char, radix: nat) -> bool {
    ('0' <= c && c <= '9' && (c as nat - 48) < radix) || (radix == 16 && (('a' <= c && c
        <= 'f') || ('A' <= c && c <= 'F')))
}

proof fn lemma_two_digit_bytes(c1: char, c2: char, radix: nat)
    requires
        2 <= radix <= 16,
        radix_digit(c1, radix),
        radix_digit(c2, radix),
    ensures
        radix_bytes(seq![c1, c2], radix) == Some(
            seq![(digit_number(c1) * radix + digit_number(c2)) as u8],
        ),
        radix_bytes(seq![c2], radix) == Some(seq![digit_number(c2) as u8]),
{
    let s = seq![c1, c2];
    let a = digit_number(c1);
    let b = digit_number(c2);
    assert(crate::stdlib::digit_value(c1) == a);
    assert(crate::stdlib::digit_value(c2) == b);
    assert(a < radix && b < radix);
    assert(a * radix + b <= 255) by (nonlinear_arith)
        requires
            a < radix,
            b < radix,
            radix <= 16,
    ;
    assert(s.len() == 2 && s[0] == c1 && s.last() == c2 && c1 != '+');
    assert(crate::utils::chunk_len(s) == 2);
    assert(s.take(2) =~= s);
    assert(s.skip(2) =~= Seq::<char>::empty());
    assert(s.drop_last() =~= seq![c1]);
    assert(seq![c1].last() == c1);
    assert(crate::stdlib::digits_value(seq![c1], radix) == Some(a));
    assert(crate::stdlib::digits_value(s, radix) == Some(a * radix + b));
    assert(crate::stdlib::radix_parse(s, radix) == Some(a * radix + b));
    assert(radix_bytes(Seq::<char>::empty(), radix) == Some(Seq::<u8>::empty()));
    assert(seq![(a * radix + b) as u8] + Seq::<u8>::empty() =~= seq![(a * radix + b) as u8]);
    assert(radix_bytes(s, radix) == Some(seq![(a * radix + b) as u8]));
    let t = seq![c2];
    assert(t.len() == 1 && t[0] == c2 && t.last() == c2 && c2 != '+');
    assert(crate::utils::chunk_len(t) == 1);
    assert(t.take(1) =~= t);
    assert(t.skip(1) =~= Seq::<char>::empty());
    assert(crate::stdlib::digits_value(t, radix) == Some(b));
    assert(crate::stdlib::radix_parse(t, radix) == Some(b));
    assert(seq![b as u8] + Seq::<u8>::empty() =~= seq![b as u8]);
    assert(radix_bytes(t, radix) == Some(seq![b as u8]));
}

/// Two digits of a number format make one byte to write, whose value is the
/// two digits read in the format's radix: 2 for binary, 8 for octal (a
/// leading `0` standing for nothing), 10 for decimal, 16 for hexadecimal.
pub proof fn lemma_two_digits_make_a_byte(c1: char, c2: char)
    ensures
        radix_digit(c1, 2) && radix_digit(c2, 2) ==> write_bytes(seq![c1, c2], TextFormat::Binary)
            == Some(seq![(digit_number(c1) * 2 + digit_number(c2)) as u8]),
        radix_digit(c1, 8) && radix_digit(c2, 8) ==> write_bytes(seq![c1, c2], TextFormat::Octal)
            == Some(seq![(digit_number(c1) * 8 + digit_number(c2)) as u8]),
        radix_digit(c1, 10) && radix_digit(c2, 10) ==> write_bytes(
            seq![c1, c2],
            TextFormat::Decimal,
        ) == Some(seq![(digit_number(c1) * 10 + digit_number(c2)) as u8]),
        radix_digit(c1, 16) && radix_digit(c2, 16) ==> write_bytes(seq![c1, c2], TextFormat::Hex)
            == Some(seq![(digit_number(c1) * 16 + digit_number(c2)) as u8]),
{
    let s = seq![c1, c2];
    reveal_strlit("0x");
    reveal_strlit("0b");
    reveal_strlit(" ");
    assert("0x"@.last() == 'x');
    assert("0b"@.last() == 'b');
    assert(" "@.last() == ' ');
    if radix_digit(c1, 16) && radix_digit(c2, 16) {
        crate::utils::lemma_replace_absent(s, "0x"@, Seq::empty());
        crate::utils::lemma_replace_absent(s, " "@, Seq::empty());
        if radix_digit(c1, 10) && radix_digit(c2, 10) {
            lemma_two_digit_bytes(c1, c2, 10);
        }
        if radix_digit(c1, 8) && radix_digit(c2, 8) {
            lemma_two_digit_bytes(c1, c2, 8);
            if c1 == '0' {
                assert(s.drop_first() =~= seq![c2]);
                assert(digit_number(c1) == 0);
            }
        }
        if radix_digit(c1, 2) && radix_digit(c2, 2) {
            crate::utils::lemma_replace_absent(s, "0b"@, Seq::empty());
            lemma_two_digit_bytes(c1, c2, 2);
        }
        lemma_two_digit_bytes(c1, c2, 16);
    }
}

/// The bytes to write to the serial port for a text in the given format.
pub fn bytes_for_write(text: &str, text_format: TextFormat) -> (res: Result<Vec<u8>>)
    ensures
        match write_bytes(text@, text_format) {
            Some(b) => res matches Ok(v) && v@ == b,
            None => res matches Err(e) && e is Num,
        },
{
    match text_format {
        TextFormat::Binary => bytes_from_binary_string(text),
        TextFormat::Octal => bytes_from_octal_string(text),
        TextFormat::Decimal => bytes_from_decimal_string(text),
        TextFormat::Hex => bytes_from_hex_string(text),
        TextFormat::Text => Ok(text.as_bytes_vec()),
    }
}

/// Plain text written to a port that answers with what it receives (the
/// `loopback` port) is read back as the same text.
pub proof fn lemma_text_loopback(text: Seq<char>)
    ensures
        write_bytes(text, TextFormat::Text) matches Some(b) && received_text(b, TextFormat::Text)
            == Some(text),
{
    vstd::utf8::encode_utf8_valid_utf8(text);
    vstd::utf8::encode_utf8_decode_utf8(text);
}

/// The text of received bytes in a format, or `None` where plain text bytes
/// are no valid UTF-8.
pub open spec fn received_text(bytes: Seq<u8>, format: TextFormat) -> Option<Seq<char>> {
    if format == TextFormat::Text {
        if valid_utf8(bytes) {
            Some(decode_utf8(bytes))
        } else {
            None
        }
    } else {
        Some(bytes_text(bytes, format))
    }
}

/// The text that a response is compared with: the expected response, in
/// lower case when case is ignored (the response is lowered too), else in
/// upper case for hexadecimal output, which is received in upper case.
pub open spec fn compare_text(desired: Seq<char>, settings: CheckSettings) -> Seq<char> {
    if settings.ignore_case {
        lowercase(desired)
    } else if settings.output_format == TextFormat::Hex {
        uppercase(desired)
    } else {
        desired
    }
}

/// A chunk of received text as it is added to the response: in lower case
/// when case is ignored.
pub open spec fn response_chunk(text: Seq<char>, ignore_case: bool) -> Seq<char> {
    if ignore_case {
        lowercase(text)
    } else {
        text
    }
}

/// With case ignored: received ASCII text is added to the response with its
/// letters in lower case.
pub open spec fn ascii_text_lowered(
    received: Option<Seq<char>>,
    before: Seq<char>,
    after: Seq<char>,
) -> bool {
    match received {
        Some(text) => is_ascii_chars(text) ==> after == before + ascii_lower(text),
        None => true,
    }
}

/// Case is ignored in the comparison: two ASCII texts that differ only in
/// the case of their letters are the same once lowered, as the expected text
/// and the response are when case is ignored.
pub proof fn lemma_case_ignored(expected: Seq<char>, received: Seq<char>)
    requires
        expected.len() == received.len(),
        forall|i: int|
            0 <= i < expected.len() ==> crate::stdlib::ascii_lower_char(#[trigger] expected[i])
                == crate::stdlib::ascii_lower_char(received[i]),
    ensures
        ascii_lower(expected) == ascii_lower(received),
{
    assert(ascii_lower(expected) =~= ascii_lower(received));
}

/// Whether reading goes on after a chunk: only while the response is a proper
/// beginning of the text it is compared with.
pub open spec fn keeps_reading(compare: Seq<char>, response: Seq<char>) -> bool {
    response != compare && response.is_prefix_of(compare)
}

/// What a check has: the text compared with, the response read so far and
/// its settings.
pub struct ResponseCheckView {
    pub compare: Seq<char>,
    pub response: Seq<char>,
    pub settings: CheckSettings,
}

/// A response read in chunks and compared with the response expected.
///
/// Reading stops early as soon as the beginning of the response does not
/// match.
pub struct ResponseCheck {
    compare: String,
    response: String,
    settings: CheckSettings,
}

impl View for ResponseCheck {
    type V = ResponseCheckView;

    closed spec fn view(&self) -> ResponseCheckView {
        ResponseCheckView {
            compare: self.compare@,
            response: self.response@,
            settings: self.settings,
        }
    }
}

/// Whether `a` begins with `b`.
pub fn starts_with(a: &str, b: &str) -> (r: bool)
    ensures
        r == b@.is_prefix_of(a@),
{
    let x = chars_of(a);
    let y = chars_of(b);
    if y.len() > x.len() {
        return false;
    }
    let mut i: usize = 0;
    while i < y.len()
        invariant
            x@ == a@,
            y@ == b@,
            y.len() <= x.len(),
            i <= y.len(),
            forall|k: int| 0 <= k < i ==> x@[k] == y@[k],
        decreases y.len() - i,
    {
        if x[i] != y[i] {
            return false;
        }
        i = i + 1;
    }
    true
}

impl ResponseCheck {
    /// Start checking for the desired response with the given settings.
    pub fn new(desired_response: &str, settings: &CheckSettings) -> (c: ResponseCheck)
        ensures
            c@.compare == compare_text(desired_response@, *settings),
            settings.ignore_case && is_ascii_chars(desired_response@) ==> c@.compare == ascii_lower(
                desired_response@,
            ),
            !settings.ignore_case && settings.output_format == TextFormat::Hex && is_ascii_chars(
                desired_response@,
            ) ==> c@.compare == ascii_upper(desired_response@),
            c@.response == Seq::<char>::empty(),
            c@.settings == *settings,
    {
        let compare = if settings.ignore_case {
            to_lowercase(desired_response)
        } else if settings.output_format == TextFormat::Hex {
            to_uppercase(desired_response)
        } else {
            desired_response.to_owned()
        };
        ResponseCheck { compare, response: String::new(), settings: *settings }
    }

    /// Add a chunk of received bytes to the response; `Ok(true)` when reading
    /// is complete, `Ok(false)` when more is to be read. Bytes of a plain text
    /// response that are no valid UTF-8 fail the check.
    pub fn add_bytes(&mut self, bytes: &[u8]) -> (res: Result<bool>)
        ensures
            final(self)@.compare == old(self)@.compare,
            final(self)@.settings == old(self)@.settings,
            match received_text(bytes@, old(self)@.settings.output_format) {
                Some(text) => res matches Ok(done) && final(self)@.response == old(self)@.response
                    + response_chunk(text, old(self)@.settings.ignore_case) && done == !keeps_reading(
                    final(self)@.compare,
                    final(self)@.response,
                ),
                None => res matches Err(e) && e is Utf8 && final(self)@ == old(self)@,
            },
            old(self)@.settings.ignore_case ==> ascii_text_lowered(
                received_text(bytes@, old(self)@.settings.output_format),
                old(self)@.response,
                final(self)@.response,
            ),
    {
        let new_text = match radix_string(bytes, &self.settings.output_format) {
            Ok(t) => t,
            Err(e) => return Err(e),
        };
        let new_text = if self.settings.ignore_case {
            to_lowercase(new_text.as_str())
        } else {
            new_text
        };
        push_chars(&mut self.response, new_text.as_str());
        if self.compare == self.response {
            return Ok(true);
        }
        if !starts_with(self.compare.as_str(), self.response.as_str()) {
            return Ok(true);
        }
        Ok(false)
    }

    /// Whether a timeout fails the check: only when nothing was received.
    /// Otherwise it ends reading.
    pub fn timeout_fails(&self) -> (r: bool)
        ensures
            r == (self@.response.len() == 0),
    {
        self.response.as_str().unicode_len() == 0
    }

    /// The response read so far.
    pub fn response(&self) -> (r: &String)
        ensures
            r@ == self@.response,
    {
        &self.response
    }

    /// Whether the response matches, and the response.
    pub fn result(self) -> (r: (bool, String))
        ensures
            r.0 == (self@.compare == self@.response),
            r.1@ == self@.response,
    {
        let matched = self.compare == self.response;
        (matched, self.response)
    }
}

/// The length in bytes that `str::len` reports for a text.
pub open spec fn byte_len(s: Seq<char>) -> nat {
    (encode_utf8(s).len() as usize) as nat
}

/// What reading a text of a minimum length has: the text read so far, the
/// minimum length in characters, and the format of the text.
pub struct MinLengthReadView {
    pub response: Seq<char>,
    pub min_length: nat,
    pub format: TextFormat,
}

/// A text read in chunks until it holds at least a minimum number of
/// characters (not bytes).
pub struct MinLengthRead {
    response: String,
    min_length: usize,
    format: TextFormat,
}

impl View for MinLengthRead {
    type V = MinLengthReadView;

    closed spec fn view(&self) -> MinLengthReadView {
        MinLengthReadView {
            response: self.response@,
            min_length: self.min_length as nat,
            format: self.format,
        }
    }
}

impl MinLengthRead {
    /// Start reading at least `min_length` characters of text in a format.
    pub fn new(min_length: usize, format: TextFormat) -> (r: MinLengthRead)
        ensures
            r@ == (MinLengthReadView {
                response: Seq::empty(),
                min_length: min_length as nat,
                format,
            }),
    {
        MinLengthRead { response: String::new(), min_length, format }
    }

    /// Add a chunk of received bytes; `Ok(true)` once the text is long
    /// enough. Plain text bytes that are no valid UTF-8 fail the read.
    pub fn add_bytes(&mut self, bytes: &[u8]) -> (res: Result<bool>)
        ensures
            final(self)@.min_length == old(self)@.min_length,
            final(self)@.format == old(self)@.format,
            match received_text(bytes@, old(self)@.format) {
                Some(text) => res matches Ok(done) && final(self)@.response == old(self)@.response
                    + text && done == (final(self)@.response.len() >= old(self)@.min_length),
                None => res matches Err(e) && e is Utf8 && final(self)@ == old(self)@,
            },
    {
        let new_text = match radix_string(bytes, &self.format) {
            Ok(t) => t,
            Err(e) => return Err(e),
        };
        push_chars(&mut self.response, new_text.as_str());
        Ok(self.response.as_str().unicode_len() >= self.min_length)
    }

    /// Whether a timeout fails the read: only when nothing was received.
    pub fn timeout_fails(&self) -> (r: bool)
        ensures
            r == (self@.response.len() == 0),
    {
        self.response.as_str().unicode_len() == 0
    }

    /// The text read.
    pub fn into_response(self) -> (r: String)
        ensures
            r@ == self@.response,
    {
        self.response
    }
}

} // verus!
