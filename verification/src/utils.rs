//! Text formats and conversions between bytes and their text forms.

use vstd::prelude::*;
use crate::chars::{chars_of, push_chars, string_from_chars};
use crate::error::{Error, Result};
use crate::stdlib::{digits_value, radix_parse, str_from_utf8, string_push, u8_from_str_radix};
use vstd::utf8::{decode_utf8, encode_scalar, encode_utf8, valid_utf8};

verus! {

/// Text format type for radix string conversion.
#[derive(PartialEq, Eq, Structural, Debug, Copy, Clone)]
pub enum TextFormat {
    /// Text format
    Text,
    /// Binary format
    Binary,
    /// Octal format
    Octal,
    /// Decimal format
    Decimal,
    /// Hexadecimal format
    Hex,
}

/// Newline format type
#[derive(PartialEq, Eq, Structural, Debug, Copy, Clone)]
pub enum NewlineFormat {
    NoNewline,
    CarriageReturn,
    LineFeed,
    Both,
}

/// The radix of a number format (text has none).
pub open spec fn format_radix(format: TextFormat) -> nat {
    match format {
        TextFormat::Text => 0,
        TextFormat::Binary => 2,
        TextFormat::Octal => 8,
        TextFormat::Decimal => 10,
        TextFormat::Hex => 16,
    }
}

pub open spec fn format_name(format: TextFormat) -> Seq<char> {
    match format {
        TextFormat::Text => "Text"@,
        TextFormat::Binary => "Binary"@,
        TextFormat::Octal => "Octal"@,
        TextFormat::Decimal => "Decimal"@,
        TextFormat::Hex => "Hexadecimal"@,
    }
}

/// Get a text representation of the text format.
pub fn get_format_name(format: &TextFormat) -> (r: &'static str)
    ensures
        r@ == format_name(*format),
{
    match format {
        TextFormat::Text => "Text",
        TextFormat::Binary => "Binary",
        TextFormat::Octal => "Octal",
        TextFormat::Decimal => "Decimal",
        TextFormat::Hex => "Hexadecimal",
    }
}

pub open spec fn next_format(format: TextFormat) -> TextFormat {
    match format {
        TextFormat::Text => TextFormat::Binary,
        TextFormat::Binary => TextFormat::Octal,
        TextFormat::Octal => TextFormat::Decimal,
        TextFormat::Decimal => TextFormat::Hex,
        TextFormat::Hex => TextFormat::Text,
    }
}

/// Get the next cyclic text format.
///
/// If the last value is passed into this, the first value will be returned.
pub fn get_next_format(format: &TextFormat) -> (r: TextFormat)
    ensures
        r == next_format(*format),
{
    match format {
        TextFormat::Text => TextFormat::Binary,
        TextFormat::Binary => TextFormat::Octal,
        TextFormat::Octal => TextFormat::Decimal,
        TextFormat::Decimal => TextFormat::Hex,
        TextFormat::Hex => TextFormat::Text,
    }
}

pub open spec fn newline_format_name(format: NewlineFormat) -> Seq<char> {
    match format {
        NewlineFormat::NoNewline => "None"@,
        NewlineFormat::CarriageReturn => "Carriage return"@,
        NewlineFormat::LineFeed => "Line feed"@,
        NewlineFormat::Both => "Both"@,
    }
}

/// Get a text representation of the newline format.
pub fn get_newline_format_name(format: &NewlineFormat) -> (r: &'static str)
    ensures
        r@ == newline_format_name(*format),
{
    match format {
        NewlineFormat::NoNewline => "None",
        NewlineFormat::CarriageReturn => "Carriage return",
        NewlineFormat::LineFeed => "Line feed",
        NewlineFormat::Both => "Both",
    }
}

pub open spec fn next_newline_format(format: NewlineFormat) -> NewlineFormat {
    match format {
        NewlineFormat::NoNewline => NewlineFormat::CarriageReturn,
        NewlineFormat::CarriageReturn => NewlineFormat::LineFeed,
        NewlineFormat::LineFeed => NewlineFormat::Both,
        NewlineFormat::Both => NewlineFormat::NoNewline,
    }
}

/// Get the next cyclic newline format.
///
/// If the last value is passed into this, the first value will be returned.
pub fn get_next_newline_format(format: &NewlineFormat) -> (r: NewlineFormat)
    ensures
        r == next_newline_format(*format),
{
    match format {
        NewlineFormat::NoNewline => NewlineFormat::CarriageReturn,
        NewlineFormat::CarriageReturn => NewlineFormat::LineFeed,
        NewlineFormat::LineFeed => NewlineFormat::Both,
        NewlineFormat::Both => NewlineFormat::NoNewline,
    }
}

/// Stepping through the text formats returns to the start after five steps,
/// and the five formats met on the way are all different: every format is
/// reached from every other.
pub proof fn lemma_next_format_cycle(format: TextFormat)
    ensures
        next_format(next_format(next_format(next_format(next_format(format))))) == format,
        next_format(format) != format,
        next_format(next_format(format)) != format,
        next_format(next_format(next_format(format))) != format,
        next_format(next_format(next_format(next_format(format)))) != format,
{
}

/// Stepping through the newline formats returns to the start after four
/// steps and meets four different formats on the way.
pub proof fn lemma_next_newline_format_cycle(format: NewlineFormat)
    ensures
        next_newline_format(next_newline_format(next_newline_format(next_newline_format(format))))
            == format,
        next_newline_format(format) != format,
        next_newline_format(next_newline_format(format)) != format,
        next_newline_format(next_newline_format(next_newline_format(format))) != format,
{
}

/// "Yes" for true and "No" for false.
pub fn get_bool(value: bool) -> (r: &'static str)
    ensures
        r@ == (if value { "Yes"@ } else { "No"@ }),
{
    match value {
        true => "Yes",
        false => "No",
    }
}


/// `s` with every occurrence of `pat` replaced by `rep`, matching from left
/// to right without overlap (as `str::replace` does for a non-empty pattern).
pub open spec fn replace_all(s: Seq<char>, pat: Seq<char>, rep: Seq<char>) -> Seq<char>
    decreases s.len(),
{
    if s.len() == 0 || pat.len() == 0 {
        s
    } else if pat.len() <= s.len() && s.take(pat.len() as int) == pat {
        rep + replace_all(s.skip(pat.len() as int), pat, rep)
    } else {
        seq![s[0]] + replace_all(s.drop_first(), pat, rep)
    }
}

fn matches_at(v: &Vec<char>, i: usize, pat: &Vec<char>) -> (r: bool)
    requires
        i <= v.len(),
    ensures
        r == (pat.len() <= v.len() - i && v@.subrange(i as int, i + pat.len()) == pat@),
{
    if pat.len() > v.len() - i {
        return false;
    }
    let mut j: usize = 0;
    while j < pat.len()
        invariant
            i + pat.len() <= v.len(),
            j <= pat.len(),
            forall|k: int| 0 <= k < j ==> v@[i + k] == pat@[k],
        decreases pat.len() - j,
    {
        if v[i + j] != pat[j] {
            assert(v@.subrange(i as int, i + pat.len())[j as int] != pat@[j as int]);
            return false;
        }
        j = j + 1;
    }
    assert(v@.subrange(i as int, i + pat.len()) =~= pat@);
    true
}

/// The characters of `s` with every occurrence of `pat` replaced by `rep`.
fn replace_chars(s: &Vec<char>, pat: &str, rep: &str) -> (r: Vec<char>)
    ensures
        r@ == replace_all(s@, pat@, rep@),
{
    let p = chars_of(pat);
    let q = chars_of(rep);
    let mut out: Vec<char> = Vec::new();
    let mut i: usize = 0;
    if p.len() == 0 {
        return s.clone();
    }
    assert(s@.skip(0) =~= s@);
    assert(out@ + replace_all(s@, pat@, rep@) =~= replace_all(s@, pat@, rep@));
    while i < s.len()
        invariant
            p@ == pat@,
            q@ == rep@,
            p@.len() > 0,
            i <= s.len(),
            out@ + replace_all(s@.skip(i as int), pat@, rep@) == replace_all(s@, pat@, rep@),
        decreases s.len() - i,
    {
        let ghost rest = s@.skip(i as int);
        if matches_at(s, i, &p) {
            assert(rest.take(p@.len() as int) =~= s@.subrange(i as int, i + p@.len()));
            assert(rest.skip(p@.len() as int) =~= s@.skip(i + p@.len()));
            let mut j: usize = 0;
            let ghost before = out@;
            while j < q.len()
                invariant
                    j <= q.len(),
                    out@ == before + q@.take(j as int),
                decreases q.len() - j,
            {
                out.push(q[j]);
                j = j + 1;
                assert(out@ =~= before + q@.take(j as int));
            }
            assert(q@.take(q.len() as int) =~= q@);
            assert(out@ =~= before + rep@);
            i = i + p.len();
        } else {
            assert(p@.len() <= rest.len() ==> rest.take(p@.len() as int) =~= s@.subrange(
                i as int,
                i + p@.len(),
            ));
            assert(rest.drop_first() =~= s@.skip(i + 1));
            let ghost before = out@;
            out.push(s[i]);
            assert(out@ =~= before + seq![rest[0]]);
            i = i + 1;
        }
    }
    assert(s@.skip(i as int).len() == 0);
    assert(out@ + s@.skip(i as int) =~= out@);
    out
}

/// Result of a conversion that may fail, with `prefix` put in front of its value.
pub open spec fn prepend_bytes(prefix: Seq<u8>, rest: Option<Seq<u8>>) -> Option<Seq<u8>> {
    match rest {
        Some(r) => Some(prefix + r),
        None => None,
    }
}

/// Length of the chunk that a radix string is read in next: two characters,
/// or the one character left at the end.
pub open spec fn chunk_len(s: Seq<char>) -> int {
    if s.len() >= 2 { 2 } else { s.len() as int }
}

/// The bytes read from a radix string two characters at a time, each chunk
/// read as an unsigned number in the radix; `None` where a chunk is no
/// number of the radix or is above 255.
pub open spec fn radix_bytes(s: Seq<char>, radix: nat) -> Option<Seq<u8>>
    decreases s.len(),
{
    if s.len() == 0 {
        Some(Seq::empty())
    } else {
        match radix_parse(s.take(chunk_len(s)), radix) {
            Some(v) => if v <= 255 {
                prepend_bytes(seq![v as u8], radix_bytes(s.skip(chunk_len(s)), radix))
            } else {
                None
            },
            None => None,
        }
    }
}

/// Convert a radix string into a vector of bytes.
///
/// Leading and trailing whitespaces will result in an error. Conversion happens by 2 characters per byte.
pub fn bytes_from_radix_string(text: &str, radix: u32) -> (res: Result<Vec<u8>>)
    requires
        2 <= radix <= 36,
    ensures
        match res {
            Ok(bytes) => radix_bytes(text@, radix as nat) == Some(bytes@),
            Err(e) => radix_bytes(text@, radix as nat) is None && e is Num,
        },
{
    let v = chars_of(text);
    let mut bytes: Vec<u8> = Vec::new();
    let mut i: usize = 0;
    assert(text@.skip(0) =~= text@);
    assert(bytes@ + radix_bytes(text@, radix as nat)->0 =~= radix_bytes(text@, radix as nat)->0);
    while i < v.len()
        invariant
            2 <= radix <= 36,
            v@ == text@,
            i <= v.len(),
            radix_bytes(text@, radix as nat) == prepend_bytes(
                bytes@,
                radix_bytes(text@.skip(i as int), radix as nat),
            ),
        decreases v.len() - i,
    {
        let ghost rest = text@.skip(i as int);
        let mut chunk = String::new();
        string_push(&mut chunk, v[i]);
        let step: usize = if i + 1 < v.len() {
            string_push(&mut chunk, v[i + 1]);
            2
        } else {
            1
        };
        assert(chunk@ =~= rest.take(chunk_len(rest)));
        match u8_from_str_radix(chunk.as_str(), radix) {
            Ok(value) => {
                assert(rest.skip(chunk_len(rest)) =~= text@.skip(i + step));
                let ghost before = bytes@;
                bytes.push(value);
                assert(before + (seq![value] + radix_bytes(text@.skip(i + step), radix as nat)->0)
                    =~= bytes@ + radix_bytes(text@.skip(i + step), radix as nat)->0);
                i = i + step;
            },
            Err(e) => {
                return Err(Error::Num(e));
            },
        }
    }
    assert(text@.skip(i as int) =~= Seq::<char>::empty());
    assert(bytes@ + Seq::<u8>::empty() =~= bytes@);
    Ok(bytes)
}

/// The text of a hexadecimal string that is read as bytes: without `0x` and spaces.
pub open spec fn hex_digits_text(s: Seq<char>) -> Seq<char> {
    replace_all(replace_all(s, "0x"@, Seq::empty()), " "@, Seq::empty())
}

/// The text of a binary string that is read as bytes: without `0b` and spaces.
pub open spec fn binary_digits_text(s: Seq<char>) -> Seq<char> {
    replace_all(replace_all(s, "0b"@, Seq::empty()), " "@, Seq::empty())
}

/// The text of an octal string that is read as bytes: without spaces and
/// without one leading `0`.
pub open spec fn octal_digits_text(s: Seq<char>) -> Seq<char> {
    let t = replace_all(s, " "@, Seq::empty());
    if t.len() > 0 && t[0] == '0' {
        t.drop_first()
    } else {
        t
    }
}

/// The text of a decimal string that is read as bytes: without spaces.
pub open spec fn decimal_digits_text(s: Seq<char>) -> Seq<char> {
    replace_all(s, " "@, Seq::empty())
}

/// Convert a hexadecimal string into a vector of bytes.
///
/// Leading 0x and whitespaces will be ignored.
pub fn bytes_from_hex_string(original_text: &str) -> (res: Result<Vec<u8>>)
    ensures
        match res {
            Ok(bytes) => radix_bytes(hex_digits_text(original_text@), 16) == Some(bytes@),
            Err(e) => radix_bytes(hex_digits_text(original_text@), 16) is None && e is Num,
        },
{
    proof {
        reveal_strlit("");
        reveal_strlit(" ");
        reveal_strlit("0x");
        reveal_strlit("0b");
        assert(""@ =~= Seq::<char>::empty());
    }
    let v = chars_of(original_text);
    let a = replace_chars(&v, "0x", "");
    let b = replace_chars(&a, " ", "");
    let text = string_from_chars(b.as_slice());
    bytes_from_radix_string(text.as_str(), 16)
}

/// Convert a binary string into a vector of bytes.
///
/// Leading 0b and whitespaces will be ignored.
pub fn bytes_from_binary_string(original_text: &str) -> (res: Result<Vec<u8>>)
    ensures
        match res {
            Ok(bytes) => radix_bytes(binary_digits_text(original_text@), 2) == Some(bytes@),
            Err(e) => radix_bytes(binary_digits_text(original_text@), 2) is None && e is Num,
        },
{
    proof {
        reveal_strlit("");
        reveal_strlit(" ");
        reveal_strlit("0x");
        reveal_strlit("0b");
        assert(""@ =~= Seq::<char>::empty());
    }
    let v = chars_of(original_text);
    let a = replace_chars(&v, "0b", "");
    let b = replace_chars(&a, " ", "");
    let text = string_from_chars(b.as_slice());
    bytes_from_radix_string(text.as_str(), 2)
}

/// Convert a octal string into a vector of bytes
///
/// Leading 0 and whitespaces will be ignored.
pub fn bytes_from_octal_string(original_text: &str) -> (res: Result<Vec<u8>>)
    ensures
        match res {
            Ok(bytes) => radix_bytes(octal_digits_text(original_text@), 8) == Some(bytes@),
            Err(e) => radix_bytes(octal_digits_text(original_text@), 8) is None && e is Num,
        },
{
    proof {
        reveal_strlit("");
        reveal_strlit(" ");
        reveal_strlit("0x");
        reveal_strlit("0b");
        assert(""@ =~= Seq::<char>::empty());
    }
    let v = chars_of(original_text);
    let mut a = replace_chars(&v, " ", "");
    if a.len() > 0 && a[0] == '0' {
        let ghost before = a@;
        a.remove(0);
        assert(a@ =~= before.drop_first());
    }
    let text = string_from_chars(a.as_slice());
    bytes_from_radix_string(text.as_str(), 8)
}

/// Convert a decimal string into a vector of bytes
///
/// Whitespaces will be ignored
pub fn bytes_from_decimal_string(original_text: &str) -> (res: Result<Vec<u8>>)
    ensures
        match res {
            Ok(bytes) => radix_bytes(decimal_digits_text(original_text@), 10) == Some(bytes@),
            Err(e) => radix_bytes(decimal_digits_text(original_text@), 10) is None && e is Num,
        },
{
    proof {
        reveal_strlit("");
        reveal_strlit(" ");
        reveal_strlit("0x");
        reveal_strlit("0b");
        assert(""@ =~= Seq::<char>::empty());
    }
    let v = chars_of(original_text);
    let a = replace_chars(&v, " ", "");
    let text = string_from_chars(a.as_slice());
    bytes_from_radix_string(text.as_str(), 10)
}


/// Digit character of a value below 16 (upper-case letters above 9).
pub open spec fn digit_char(d: nat) -> char {
    if d < 10 {
        (d + 48) as char
    } else {
        (d + 55) as char
    }
}

/// The last `width` digits of `v` in the radix, zero-padded.
pub open spec fn fixed_digits(v: nat, radix: nat, width: nat) -> Seq<char>
    decreases width,
{
    if width == 0 || radix == 0 {
        Seq::empty()
    } else {
        fixed_digits(v / radix, radix, (width - 1) as nat).push(digit_char(v % radix))
    }
}

/// The digits of `v` in the radix, without leading zeros (`0` for zero).
pub open spec fn min_digits(v: nat, radix: nat) -> Seq<char>
    decreases v,
{
    if radix < 2 || v < radix {
        seq![digit_char(v)]
    } else {
        proof {
            vstd::arithmetic::div_mod::lemma_div_decreases(v as int, radix as int);
        }
        min_digits(v / radix, radix).push(digit_char(v % radix))
    }
}

fn digit_char_of(d: u8) -> (c: char)
    requires
        d < 16,
    ensures
        c == digit_char(d as nat),
{
    if d < 10 {
        (d + 48) as char
    } else {
        (d + 55) as char
    }
}

fn push_fixed_digits(s: &mut String, v: u8, radix: u8, width: u8)
    requires
        2 <= radix <= 16,
    ensures
        final(s)@ == old(s)@ + fixed_digits(v as nat, radix as nat, width as nat),
    decreases width,
{
    if width == 0 {
        assert(old(s)@ + Seq::<char>::empty() =~= old(s)@);
    } else {
        push_fixed_digits(s, v / radix, radix, width - 1);
        let ghost mid = s@;
        string_push(s, digit_char_of(v % radix));
        assert(s@ =~= old(s)@ + fixed_digits(v as nat, radix as nat, width as nat));
    }
}

fn push_min_digits(s: &mut String, v: u8, radix: u8)
    requires
        2 <= radix <= 16,
    ensures
        final(s)@ == old(s)@ + min_digits(v as nat, radix as nat),
    decreases v,
{
    if v < radix {
        string_push(s, digit_char_of(v));
        assert(s@ =~= old(s)@ + min_digits(v as nat, radix as nat));
    } else {
        assert(v / radix < v) by {
            vstd::arithmetic::div_mod::lemma_div_decreases(v as int, radix as int);
        }
        push_min_digits(s, v / radix, radix);
        string_push(s, digit_char_of(v % radix));
        assert(s@ =~= old(s)@ + min_digits(v as nat, radix as nat));
    }
}

/// Text of one byte in a number format: eight binary digits, four octal
/// digits, the decimal number, or two upper-case hexadecimal digits.
pub open spec fn byte_text(b: u8, format: TextFormat) -> Seq<char> {
    match format {
        TextFormat::Binary => fixed_digits(b as nat, 2, 8),
        TextFormat::Octal => fixed_digits(b as nat, 8, 4),
        TextFormat::Decimal => min_digits(b as nat, 10),
        TextFormat::Hex => fixed_digits(b as nat, 16, 2),
        TextFormat::Text => Seq::empty(),
    }
}

/// Text of a byte sequence in a number format: the texts of its bytes in order.
pub open spec fn bytes_text(bytes: Seq<u8>, format: TextFormat) -> Seq<char>
    decreases bytes.len(),
{
    if bytes.len() == 0 {
        Seq::empty()
    } else {
        bytes_text(bytes.drop_last(), format) + byte_text(bytes.last(), format)
    }
}

fn push_byte_text(s: &mut String, b: u8, format: TextFormat)
    requires
        format != TextFormat::Text,
    ensures
        final(s)@ == old(s)@ + byte_text(b, format),
{
    match format {
        TextFormat::Binary => push_fixed_digits(s, b, 2, 8),
        TextFormat::Octal => push_fixed_digits(s, b, 8, 4),
        TextFormat::Decimal => push_min_digits(s, b, 10),
        _ => push_fixed_digits(s, b, 16, 2),
    }
}

/// Convert a vector of bytes into a radix string with given text format.
pub fn radix_string(buffer: &[u8], text_format: &TextFormat) -> (res: Result<String>)
    ensures
        *text_format == TextFormat::Text ==> match res {
            Ok(text) => valid_utf8(buffer@) && text@ == decode_utf8(buffer@),
            Err(e) => !valid_utf8(buffer@) && e is Utf8,
        },
        *text_format != TextFormat::Text ==> (res matches Ok(text) && text@ == bytes_text(
            buffer@,
            *text_format,
        )),
{
    if *text_format == TextFormat::Text {
        return match str_from_utf8(buffer) {
            Ok(text) => Ok(text.to_owned()),
            Err(e) => Err(Error::Utf8(e)),
        };
    }
    let mut text = String::new();
    let mut i: usize = 0;
    while i < buffer.len()
        invariant
            *text_format != TextFormat::Text,
            i <= buffer.len(),
            text@ == bytes_text(buffer@.take(i as int), *text_format),
        decreases buffer.len() - i,
    {
        push_byte_text(&mut text, buffer[i], *text_format);
        assert(buffer@.take(i + 1).drop_last() =~= buffer@.take(i as int));
        i = i + 1;
    }
    assert(buffer@.take(i as int) =~= buffer@);
    Ok(text)
}

/// Whether a character is an upper-case hexadecimal digit.
pub open spec fn is_hex_digit(c: char) -> bool {
    ('0' <= c && c <= '9') || ('A' <= c && c <= 'F')
}

proof fn lemma_hex_text_digits(bytes: Seq<u8>)
    ensures
        forall|i: int|
            0 <= i < bytes_text(bytes, TextFormat::Hex).len() ==> is_hex_digit(
                #[trigger] bytes_text(bytes, TextFormat::Hex)[i],
            ),
    decreases bytes.len(),
{
    if bytes.len() > 0 {
        lemma_hex_text_digits(bytes.drop_last());
        let x = bytes.last() as nat;
        assert(x / 16 < 16 && x % 16 < 16) by (nonlinear_arith)
            requires
                x < 256,
        ;
        assert((x / 16) % 16 == x / 16);
        let t = byte_text(bytes.last(), TextFormat::Hex);
        lemma_two_hex_digits(x);
        assert(t =~= seq![digit_char(x / 16), digit_char(x % 16)]);
        let all = bytes_text(bytes, TextFormat::Hex);
        let before = bytes_text(bytes.drop_last(), TextFormat::Hex);
        assert(all =~= before + t);
        assert forall|i: int| 0 <= i < all.len() implies is_hex_digit(#[trigger] all[i]) by {
            if i < before.len() {
                assert(all[i] == before[i]);
            } else {
                assert(all[i] == t[i - before.len()]);
            }
        }
    }
}

proof fn lemma_two_hex_digits(x: nat)
    requires
        x < 256,
    ensures
        fixed_digits(x, 16, 2) == seq![digit_char(x / 16), digit_char(x % 16)],
{
    assert(x / 16 < 16) by (nonlinear_arith)
        requires
            x < 256,
    ;
    assert((x / 16) % 16 == x / 16);
    assert(fixed_digits((x / 16) / 16, 16, 0) == Seq::<char>::empty());
    assert(fixed_digits(x / 16, 16, 1) =~= seq![digit_char(x / 16)]);
    assert(fixed_digits(x, 16, 2) =~= seq![digit_char(x / 16), digit_char(x % 16)]);
}

proof fn lemma_bytes_text_front(bytes: Seq<u8>, format: TextFormat)
    requires
        bytes.len() > 0,
    ensures
        bytes_text(bytes, format) == byte_text(bytes[0], format) + bytes_text(
            bytes.drop_first(),
            format,
        ),
    decreases bytes.len(),
{
    if bytes.len() == 1 {
        assert(bytes.drop_last() =~= Seq::<u8>::empty());
        assert(bytes.drop_first() =~= Seq::<u8>::empty());
        assert(Seq::<char>::empty() + byte_text(bytes[0], format) =~= byte_text(bytes[0], format)
            + Seq::<char>::empty());
    } else {
        lemma_bytes_text_front(bytes.drop_last(), format);
        assert(bytes.drop_last().drop_first() =~= bytes.drop_first().drop_last());
        assert(bytes.drop_first().last() == bytes.last());
        assert(bytes_text(bytes, format) =~= byte_text(bytes[0], format) + bytes_text(
            bytes.drop_first(),
            format,
        ));
    }
}

pub(crate) proof fn lemma_replace_absent(s: Seq<char>, pat: Seq<char>, rep: Seq<char>)
    requires
        pat.len() > 0,
        forall|i: int| 0 <= i < s.len() ==> s[i] != pat.last(),
    ensures
        replace_all(s, pat, rep) == s,
    decreases s.len(),
{
    if s.len() > 0 {
        if pat.len() <= s.len() && s.take(pat.len() as int) == pat {
            assert(s.take(pat.len() as int)[pat.len() - 1] == s[pat.len() - 1]);
        }
        lemma_replace_absent(s.drop_first(), pat, rep);
        assert(seq![s[0]] + s.drop_first() =~= s);
    }
}

proof fn lemma_hex_bytes(bytes: Seq<u8>)
    ensures
        radix_bytes(bytes_text(bytes, TextFormat::Hex), 16) == Some(bytes),
    decreases bytes.len(),
{
    if bytes.len() == 0 {
    } else {
        lemma_bytes_text_front(bytes, TextFormat::Hex);
        lemma_hex_bytes(bytes.drop_first());
        let x = bytes[0] as nat;
        assert(x / 16 < 16 && x % 16 < 16 && x == (x / 16) * 16 + x % 16) by (nonlinear_arith)
            requires
                x < 256,
        ;
        assert((x / 16) % 16 == x / 16);
        let t = byte_text(bytes[0], TextFormat::Hex);
        let hi = digit_char(x / 16);
        let lo = digit_char(x % 16);
        lemma_two_hex_digits(x);
        assert(t =~= seq![hi, lo]);
        let all = bytes_text(bytes, TextFormat::Hex);
        let rest = bytes_text(bytes.drop_first(), TextFormat::Hex);
        assert(all =~= seq![hi, lo] + rest);
        assert(chunk_len(all) == 2);
        assert(all.take(2) =~= seq![hi, lo]);
        assert(all.skip(2) =~= rest);
        assert(seq![hi, lo].drop_last() =~= seq![hi]);
        assert(digits_value(seq![hi], 16) == Some(x / 16));
        assert(digits_value(seq![hi, lo], 16) == Some(x));
        assert(radix_parse(seq![hi, lo], 16) == Some(x));
        assert(seq![bytes[0]] + bytes.drop_first() =~= bytes);
    }
}

/// The `0b` prefix and spaces do not change the bytes that a binary string
/// gives: `0b` followed by binary digits with spaces anywhere among them
/// reads as the digits alone.
pub proof fn lemma_binary_prefix_and_spaces(digits: Seq<char>, spaced: Seq<char>)
    requires
        forall|i: int| 0 <= i < digits.len() ==> digits[i] == '0' || digits[i] == '1',
        forall|i: int|
            0 <= i < spaced.len() ==> spaced[i] == '0' || spaced[i] == '1' || spaced[i] == ' ',
        replace_all(spaced, " "@, Seq::empty()) == digits,
    ensures
        binary_digits_text("0b"@ + spaced) == digits,
        binary_digits_text(digits) == digits,
        radix_bytes(binary_digits_text("0b"@ + spaced), 2) == radix_bytes(
            binary_digits_text(digits),
            2,
        ),
{
    reveal_strlit("0b");
    reveal_strlit(" ");
    let pat = "0b"@;
    assert(pat.last() == 'b');
    assert(" "@.last() == ' ');
    let all = pat + spaced;
    assert(all.take(2) =~= pat);
    assert(all.skip(2) =~= spaced);
    lemma_replace_absent(spaced, pat, Seq::empty());
    assert(replace_all(all, pat, Seq::empty()) =~= spaced);
    lemma_replace_absent(digits, pat, Seq::empty());
    lemma_replace_absent(digits, " "@, Seq::empty());
}

/// Bytes shown as hexadecimal text and read back as a hexadecimal string
/// give the same bytes: what `radix_string` makes in hexadecimal,
/// `bytes_from_hex_string` reads back.
pub proof fn lemma_hex_round_trip(bytes: Seq<u8>)
    ensures
        radix_bytes(hex_digits_text(bytes_text(bytes, TextFormat::Hex)), 16) == Some(bytes),
{
    let t = bytes_text(bytes, TextFormat::Hex);
    lemma_hex_text_digits(bytes);
    reveal_strlit("0x");
    reveal_strlit(" ");
    assert("0x"@.last() == 'x');
    assert(" "@.last() == ' ');
    lemma_replace_absent(t, "0x"@, Seq::empty());
    lemma_replace_absent(t, " "@, Seq::empty());
    lemma_hex_bytes(bytes);
}

/// Number of entries printed in one row before a line break (0: no breaks).
pub open spec fn max_row_entries(format: TextFormat) -> nat {
    match format {
        TextFormat::Binary => 10,
        TextFormat::Octal => 16,
        TextFormat::Decimal => 18,
        TextFormat::Hex => 20,
        TextFormat::Text => 0,
    }
}

/// How one byte is printed: `0b`/`0o` and the digits for binary and octal,
/// `0x` and two digits for hexadecimal, each followed by a space; the bare
/// decimal number otherwise.
pub open spec fn printed_byte(b: u8, format: TextFormat) -> Seq<char> {
    match format {
        TextFormat::Binary => seq!['0', 'b'] + min_digits(b as nat, 2) + seq![' '],
        TextFormat::Octal => seq!['0', 'o'] + min_digits(b as nat, 8) + seq![' '],
        TextFormat::Hex => seq!['0', 'x'] + fixed_digits(b as nat, 16, 2) + seq![' '],
        _ => min_digits(b as nat, 10),
    }
}

/// The text printed for a byte sequence, starting with `row` entries in the
/// current row, and the number of entries in the last row afterwards: after
/// each entry the count goes up, and when it passes the row limit a line
/// break follows and the count starts again at 0.
pub open spec fn printed_bytes(bytes: Seq<u8>, format: TextFormat, row: nat) -> (Seq<char>, nat)
    decreases bytes.len(),
{
    if bytes.len() == 0 {
        (Seq::empty(), row)
    } else {
        let entry = printed_byte(bytes[0], format);
        let (first, next_row) = if max_row_entries(format) > 0 && row + 1 > max_row_entries(
            format,
        ) {
            (entry.push('\n'), 0nat)
        } else {
            (entry, (row + 1) as nat)
        };
        let rest = printed_bytes(bytes.drop_first(), format, next_row);
        (first + rest.0, rest.1)
    }
}

fn max_row_entries_of(format: TextFormat) -> (n: u32)
    ensures
        n == max_row_entries(format),
{
    match format {
        TextFormat::Binary => 10,
        TextFormat::Octal => 16,
        TextFormat::Decimal => 18,
        TextFormat::Hex => 20,
        TextFormat::Text => 0,
    }
}

fn push_printed_byte(text: &mut String, b: u8, format: TextFormat)
    ensures
        final(text)@ == old(text)@ + printed_byte(b, format),
{
    proof {
        reveal_strlit("0b");
        reveal_strlit("0o");
        reveal_strlit("0x");
    }
    match format {
        TextFormat::Binary => {
            push_chars(text, "0b");
            push_min_digits(text, b, 2);
            string_push(text, ' ');
        },
        TextFormat::Octal => {
            push_chars(text, "0o");
            push_min_digits(text, b, 8);
            string_push(text, ' ');
        },
        TextFormat::Hex => {
            push_chars(text, "0x");
            push_fixed_digits(text, b, 16, 2);
            string_push(text, ' ');
        },
        _ => {
            push_min_digits(text, b, 10);
        },
    }
    assert(text@ =~= old(text)@ + printed_byte(b, format));
}

/// The text that printing a vector of bytes in the given format shows.
///
/// Depending on the format newlines will be inserted after some entries as followed:
/// - Binary: 10
/// - Octal: 16
/// - Decimal: 18
/// - Hexadecimal: 20
///
/// Row entries will contain the number of entries in the last row after execution.
pub fn radix_print_text(buffer: &[u8], text_format: &TextFormat, row_entries: &mut u32) -> (text:
    String)
    requires
        buffer.len() == 0 || (if max_row_entries(*text_format) == 0 {
            *old(row_entries) + buffer.len() <= u32::MAX
        } else {
            *old(row_entries) < u32::MAX
        }),
    ensures
        text@ == printed_bytes(buffer@, *text_format, *old(row_entries) as nat).0,
        *final(row_entries) == printed_bytes(buffer@, *text_format, *old(row_entries) as nat).1,
{
    let max = max_row_entries_of(*text_format);
    let ghost r0 = *row_entries as nat;
    let mut text = String::new();
    let mut i: usize = 0;
    assert(buffer@.skip(0) =~= buffer@);
    assert(text@ + printed_bytes(buffer@, *text_format, r0).0 =~= printed_bytes(
        buffer@,
        *text_format,
        r0,
    ).0);
    while i < buffer.len()
        invariant
            max == max_row_entries(*text_format),
            i <= buffer.len(),
            buffer.len() == 0 || (if max == 0 {
                r0 + buffer.len() <= u32::MAX
            } else {
                r0 < u32::MAX
            }),
            max == 0 ==> *row_entries == r0 + i,
            max > 0 && i > 0 ==> *row_entries <= max,
            i == 0 ==> *row_entries == r0,
            text@ + printed_bytes(buffer@.skip(i as int), *text_format, *row_entries as nat).0
                == printed_bytes(buffer@, *text_format, r0).0,
            printed_bytes(buffer@.skip(i as int), *text_format, *row_entries as nat).1
                == printed_bytes(buffer@, *text_format, r0).1,
        decreases buffer.len() - i,
    {
        let ghost rest = buffer@.skip(i as int);
        let ghost before = text@;
        let b = buffer[i];
        push_printed_byte(&mut text, b, *text_format);
        proof {
            assert(rest.drop_first() =~= buffer@.skip(i + 1));
        }
        *row_entries = *row_entries + 1;
        if max > 0 && *row_entries > max {
            *row_entries = 0;
            string_push(&mut text, '\n');
        }
        i = i + 1;
    }
    assert(buffer@.skip(i as int) =~= Seq::<u8>::empty());
    assert(text@ + Seq::<char>::empty() =~= text@);
    text
}


/// What `escape_text` makes of a text: the two-character sequences `\r`,
/// `\n`, `\t` and `\"` replaced by the characters they stand for, one
/// sequence after the other.
pub open spec fn escaped_text(s: Seq<char>) -> Seq<char> {
    replace_all(
        replace_all(
            replace_all(replace_all(s, seq!['\\', 'r'], seq!['\r']), seq!['\\', 'n'], seq!['\n']),
            seq!['\\', 't'],
            seq!['\t'],
        ),
        seq!['\\', '"'],
        seq!['"'],
    )
}

/// Escape given string.
///
/// Characters escaped are: \r, \n, \t
pub fn escape_text(text: String) -> (r: String)
    ensures
        r@ == escaped_text(text@),
{
    proof {
        reveal_strlit("\\r");
        reveal_strlit("\r");
        reveal_strlit("\\n");
        reveal_strlit("\n");
        reveal_strlit("\\t");
        reveal_strlit("\t");
        reveal_strlit("\\\"");
        reveal_strlit("\"");
        assert("\\r"@ =~= seq!['\\', 'r']);
        assert("\r"@ =~= seq!['\r']);
        assert("\\n"@ =~= seq!['\\', 'n']);
        assert("\n"@ =~= seq!['\n']);
        assert("\\t"@ =~= seq!['\\', 't']);
        assert("\t"@ =~= seq!['\t']);
        assert("\\\""@ =~= seq!['\\', '"']);
        assert("\""@ =~= seq!['"']);
    }
    let v = chars_of(text.as_str());
    let a = replace_chars(&v, "\\r", "\r");
    let b = replace_chars(&a, "\\n", "\n");
    let c = replace_chars(&b, "\\t", "\t");
    let d = replace_chars(&c, "\\\"", "\"");
    string_from_chars(d.as_slice())
}

/// Get actual character count (instead of byte count).
pub fn char_count(str: &String) -> (n: usize)
    ensures
        n == str@.len(),
{
    str.as_str().unicode_len()
}

/// Number of bytes of the UTF-8 encoding of a character.
fn utf8_width(c: char) -> (n: usize)
    ensures
        n == encode_scalar(c as u32).len(),
{
    proof {
        vstd::utf8::char_is_scalar(c);
    }
    let u = c as u32;
    if u <= 0x7F {
        1
    } else if u <= 0x7FF {
        2
    } else if u <= 0xFFFF {
        3
    } else {
        4
    }
}

/// The UTF-8 encoding of a concatenation is the concatenation of the encodings.
proof fn lemma_encode_utf8_append(a: Seq<char>, b: Seq<char>)
    ensures
        encode_utf8(a + b) == encode_utf8(a) + encode_utf8(b),
    decreases a.len(),
{
    if a.len() == 0 {
        assert(a + b =~= b);
        assert(encode_utf8(a) + encode_utf8(b) =~= encode_utf8(b));
    } else {
        assert((a + b).drop_first() =~= a.drop_first() + b);
        lemma_encode_utf8_append(a.drop_first(), b);
        assert(encode_utf8(a + b) =~= encode_utf8(a) + encode_utf8(b));
    }
}

/// Get the starting position of a character in a string.
///
/// When working with unicode characters a character can span multiple bytes and thus
/// the offset of characters is not the same as the number of bytes.
pub fn byte_position_of_char(str: &String, index: usize) -> (r: Option<usize>)
    ensures
        r == (if index < str@.len() {
            Some(encode_utf8(str@.take(index as int)).len() as usize)
        } else {
            None::<usize>
        }),
{
    let v = chars_of(str.as_str());
    if index >= v.len() {
        return None;
    }
    let total = str.as_str().as_bytes().len();
    let mut pos: usize = 0;
    let mut i: usize = 0;
    while i < index
        invariant
            v@ == str@,
            index < v.len(),
            total == encode_utf8(str@).len(),
            i <= index,
            pos == encode_utf8(str@.take(i as int)).len(),
        decreases index - i,
    {
        proof {
            lemma_encode_utf8_append(str@.take(i as int), seq![str@[i as int]]);
            assert(str@.take(i + 1) =~= str@.take(i as int) + seq![str@[i as int]]);
            let c = str@[i as int];
            assert(seq![c].drop_first() =~= Seq::<char>::empty());
            assert(encode_utf8(seq![c]) =~= encode_scalar(c as u32) + encode_utf8(
                Seq::<char>::empty(),
            ));
            assert(encode_utf8(seq![c]) =~= encode_scalar(c as u32));
            lemma_encode_utf8_append(str@.take(i + 1), str@.skip(i + 1));
            assert(str@.take(i + 1) + str@.skip(i + 1) =~= str@);
        }
        pos = pos + utf8_width(v[i]);
        i = i + 1;
    }
    Some(pos)
}

/// Remove a character by given character index (instead of byte position).
pub fn remove_char(str: &mut String, index: usize)
    ensures
        final(str)@ == (if index < old(str)@.len() {
            old(str)@.remove(index as int)
        } else {
            old(str)@
        }),
{
    let mut v = chars_of(str.as_str());
    if index < v.len() {
        v.remove(index);
        *str = string_from_chars(v.as_slice());
    }
}

/// Insert a character by given character index (instead of byte position).
pub fn insert_char(str: &mut String, index: usize, c: char)
    ensures
        final(str)@ == (if index < old(str)@.len() {
            old(str)@.insert(index as int, c)
        } else {
            old(str)@
        }),
{
    let mut v = chars_of(str.as_str());
    if index < v.len() {
        v.insert(index, c);
        *str = string_from_chars(v.as_slice());
    }
}

/// The text of a carriage return in a format.
pub open spec fn carriage_return_text(format: TextFormat) -> Seq<char> {
    match format {
        TextFormat::Text => "\r"@,
        TextFormat::Binary => "00001101"@,
        TextFormat::Octal => "015"@,
        TextFormat::Decimal => "13"@,
        TextFormat::Hex => "0D"@,
    }
}

/// The text of a line feed in a format.
pub open spec fn line_feed_text(format: TextFormat) -> Seq<char> {
    match format {
        TextFormat::Text => "\n"@,
        TextFormat::Binary => "00001010"@,
        TextFormat::Octal => "012"@,
        TextFormat::Decimal => "10"@,
        TextFormat::Hex => "0A"@,
    }
}

/// What a newline format appends in a text format: a carriage return, a
/// line feed, both in that order, or nothing.
pub open spec fn newline_text(text_format: TextFormat, newline_format: NewlineFormat) -> Seq<
    char,
> {
    match newline_format {
        NewlineFormat::NoNewline => Seq::empty(),
        NewlineFormat::CarriageReturn => carriage_return_text(text_format),
        NewlineFormat::LineFeed => line_feed_text(text_format),
        NewlineFormat::Both => carriage_return_text(text_format) + line_feed_text(text_format),
    }
}

/// Add newline characters to the end of the string.
///
/// The newline characters will be added in the given text format.
pub fn add_newline(text: &mut String, text_format: TextFormat, newline_format: NewlineFormat)
    ensures
        final(text)@ == old(text)@ + newline_text(text_format, newline_format),
{
    if newline_format == NewlineFormat::NoNewline {
        assert(old(text)@ + Seq::<char>::empty() =~= old(text)@);
        return;
    }
    let cr = match text_format {
        TextFormat::Text => "\r",
        TextFormat::Binary => "00001101",
        TextFormat::Octal => "015",
        TextFormat::Decimal => "13",
        TextFormat::Hex => "0D",
    };
    let lf = match text_format {
        TextFormat::Text => "\n",
        TextFormat::Binary => "00001010",
        TextFormat::Octal => "012",
        TextFormat::Decimal => "10",
        TextFormat::Hex => "0A",
    };
    if newline_format == NewlineFormat::CarriageReturn || newline_format == NewlineFormat::Both {
        push_chars(text, cr);
    }
    if newline_format == NewlineFormat::LineFeed || newline_format == NewlineFormat::Both {
        push_chars(text, lf);
    }
    assert(text@ =~= old(text)@ + newline_text(text_format, newline_format));
}


/// Appends the decimal digits of a number, without leading zeros.
pub fn push_decimal(s: &mut String, v: u32)
    ensures
        final(s)@ == old(s)@ + min_digits(v as nat, 10),
    decreases v,
{
    if v < 10 {
        string_push(s, digit_char_of(v as u8));
        assert(s@ =~= old(s)@ + min_digits(v as nat, 10));
    } else {
        assert(v / 10 < v);
        push_decimal(s, v / 10);
        string_push(s, digit_char_of((v % 10) as u8));
        assert(s@ =~= old(s)@ + min_digits(v as nat, 10));
    }
}

} // verus!
