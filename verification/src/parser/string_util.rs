//! Reading option values: booleans, times, and trimmed names.

use std::time::Duration;
use vstd::prelude::*;
use crate::chars::{chars_of, string_from_chars};
use crate::stdlib::{
    duration_from_micros, duration_from_millis, duration_from_secs, micros_duration,
    millis_duration, parse_u64, radix_parse, secs_duration, string_push,
};

verus! {

/// Characters with the Unicode `White_Space` property, which `char::is_whitespace`
/// and `str::trim` go by.
pub open spec fn is_unicode_whitespace(c: char) -> bool {
    ('\u{9}' <= c && c <= '\u{D}') || c == ' ' || c == '\u{85}' || c == '\u{A0}' || c
        == '\u{1680}' || ('\u{2000}' <= c && c <= '\u{200A}') || c == '\u{2028}' || c
        == '\u{2029}' || c == '\u{202F}' || c == '\u{205F}' || c == '\u{3000}'
}

fn unicode_whitespace(c: char) -> (r: bool)
    ensures
        r == is_unicode_whitespace(c),
{
    ('\u{9}' <= c && c <= '\u{D}') || c == ' ' || c == '\u{85}' || c == '\u{A0}' || c
        == '\u{1680}' || ('\u{2000}' <= c && c <= '\u{200A}') || c == '\u{2028}' || c
        == '\u{2029}' || c == '\u{202F}' || c == '\u{205F}' || c == '\u{3000}'
}

/// `s` without leading and trailing white space.
pub open spec fn trimmed(s: Seq<char>) -> Seq<char>
    decreases s.len(),
{
    if s.len() == 0 {
        s
    } else if is_unicode_whitespace(s[0]) {
        trimmed(s.drop_first())
    } else if is_unicode_whitespace(s.last()) {
        trimmed(s.drop_last())
    } else {
        s
    }
}

/// `str::trim` over the characters of a string: leading and trailing white
/// space removed.
pub fn trim(s: &str) -> (r: String)
    ensures
        r@ == trimmed(s@),
{
    let v = chars_of(s);
    let mut start: usize = 0;
    assert(s@.subrange(0, s@.len() as int) =~= s@);
    while start < v.len() && unicode_whitespace(v[start])
        invariant
            v@ == s@,
            start <= v.len(),
            trimmed(s@) == trimmed(s@.subrange(start as int, s@.len() as int)),
        decreases v.len() - start,
    {
        assert(s@.subrange(start as int, s@.len() as int).drop_first() =~= s@.subrange(
            start + 1,
            s@.len() as int,
        ));
        start = start + 1;
    }
    let mut end: usize = v.len();
    while end > start && unicode_whitespace(v[end - 1])
        invariant
            v@ == s@,
            start <= end <= v.len(),
            start < end ==> !is_unicode_whitespace(s@[start as int]),
            trimmed(s@) == trimmed(s@.subrange(start as int, end as int)),
        decreases end,
    {
        let ghost sub = s@.subrange(start as int, end as int);
        assert(sub[0] == s@[start as int]);
        assert(sub.last() == s@[end - 1]);
        assert(sub.drop_last() =~= s@.subrange(start as int, end - 1));
        end = end - 1;
    }
    proof {
        let sub = s@.subrange(start as int, end as int);
        if start < end {
            assert(sub[0] == s@[start as int]);
            assert(sub.last() == s@[end - 1]);
        }
    }
    let mut r = String::new();
    let mut i: usize = start;
    while i < end
        invariant
            v@ == s@,
            start <= i <= end <= v.len(),
            r@ == s@.subrange(start as int, i as int),
        decreases end - i,
    {
        string_push(&mut r, v[i]);
        i = i + 1;
        assert(r@ =~= s@.subrange(start as int, i as int));
    }
    r
}

/// Whether two strings hold the same characters.
pub fn str_eq(a: &str, b: &str) -> (r: bool)
    ensures
        r == (a@ == b@),
{
    let x = chars_of(a);
    let y = chars_of(b);
    if x.len() != y.len() {
        return false;
    }
    let mut i: usize = 0;
    while i < x.len()
        invariant
            x@ == a@,
            y@ == b@,
            x.len() == y.len(),
            i <= x.len(),
            forall|k: int| 0 <= k < i ==> x@[k] == y@[k],
        decreases x.len() - i,
    {
        if x[i] != y[i] {
            return false;
        }
        i = i + 1;
    }
    assert(x@ =~= y@);
    true
}

/// The boolean an option value names: `true`/`TRUE` or `false`/`FALSE`.
pub open spec fn boolean_value(value: Seq<char>) -> Option<bool> {
    if value == "false"@ || value == "FALSE"@ {
        Some(false)
    } else if value == "true"@ || value == "TRUE"@ {
        Some(true)
    } else {
        None
    }
}

/// The boolean that an option value names: `true`/`TRUE` or `false`/`FALSE`.
pub fn get_boolean_value(value: &str) -> (r: Option<bool>)
    ensures
        r == boolean_value(value@),
{
    if str_eq(value, "false") || str_eq(value, "FALSE") {
        Some(false)
    } else if str_eq(value, "true") || str_eq(value, "TRUE") {
        Some(true)
    } else {
        None
    }
}

pub open spec fn is_decimal_digit(c: char) -> bool {
    '0' <= c && c <= '9'
}

/// Number of decimal digits at the start of `s`.
pub open spec fn leading_digits(s: Seq<char>) -> nat
    decreases s.len(),
{
    if s.len() == 0 || !is_decimal_digit(s[0]) {
        0
    } else {
        1 + leading_digits(s.drop_first())
    }
}

/// A time value split into its number and its unit: one or more digits
/// followed by characters none of which is a digit.
pub open spec fn time_parts(s: Seq<char>) -> Option<(Seq<char>, Seq<char>)> {
    let k = leading_digits(s) as int;
    if k == 0 {
        None
    } else if exists|i: int| k <= i < s.len() && is_decimal_digit(#[trigger] s[i]) {
        None
    } else {
        Some((s.take(k), s.skip(k)))
    }
}

/// The duration of `amount` in a unit: `us` or `µs`, `ms` or no unit (a
/// bare number is a number of milliseconds), and `s`.
pub open spec fn unit_duration(unit: Seq<char>, amount: u64) -> Option<Duration> {
    if unit == "us"@ || unit == "µs"@ {
        Some(duration_from_micros(amount))
    } else if unit == "ms"@ || unit == ""@ {
        Some(duration_from_millis(amount))
    } else if unit == "s"@ {
        Some(duration_from_secs(amount))
    } else {
        None
    }
}

/// The duration a time option value names: a number of at most `u64::MAX`,
/// then a unit, white space around the unit ignored.
pub open spec fn time_value(s: Seq<char>) -> Option<Duration> {
    match time_parts(s) {
        Some((number, unit)) => match radix_parse(number, 10) {
            Some(v) => if v <= u64::MAX {
                unit_duration(trimmed(unit), v as u64)
            } else {
                None
            },
            None => None,
        },
        None => None,
    }
}

/// The number of microseconds a time option value names, where it names
/// a time and that number fits in a `u64`.
pub open spec fn time_micros(s: Seq<char>) -> Option<u64> {
    match time_parts(s) {
        Some((number, unit)) => match radix_parse(number, 10) {
            Some(v) => {
                let u = trimmed(unit);
                let factor: nat = if u == "us"@ || u == "µs"@ {
                    1
                } else if u == "ms"@ || u == ""@ {
                    1000
                } else if u == "s"@ {
                    1_000_000
                } else {
                    0
                };
                if factor > 0 && v * factor <= u64::MAX {
                    Some((v * factor) as u64)
                } else {
                    None
                }
            },
            None => None,
        },
        None => None,
    }
}

proof fn lemma_scaled_fits(v: nat, factor: nat)
    requires
        factor > 0,
    ensures
        (v * factor <= u64::MAX) == (v <= u64::MAX as nat / factor),
{
    let m = u64::MAX as nat;
    assert((v * factor <= m) == (v <= m / factor)) by (nonlinear_arith)
        requires
            factor > 0,
    {
        vstd::arithmetic::div_mod::lemma_fundamental_div_mod(m as int, factor as int);
        if v <= m / factor {
            vstd::arithmetic::mul::lemma_mul_inequality(v as int, (m / factor) as int, factor as int);
        } else {
            vstd::arithmetic::mul::lemma_mul_inequality((m / factor + 1) as int, v as int, factor as int);
        }
    }
}

proof fn lemma_leading_digits(s: Seq<char>)
    ensures
        leading_digits(s) <= s.len(),
        forall|k: int| 0 <= k < leading_digits(s) ==> is_decimal_digit(#[trigger] s[k]),
        leading_digits(s) < s.len() ==> !is_decimal_digit(s[leading_digits(s) as int]),
    decreases s.len(),
{
    if s.len() > 0 && is_decimal_digit(s[0]) {
        lemma_leading_digits(s.drop_first());
        assert forall|k: int| 0 <= k < leading_digits(s) implies is_decimal_digit(#[trigger] s[k]) by {
            if k > 0 {
                assert(s[k] == s.drop_first()[k - 1]);
            }
        }
    }
}

/// The duration that a time option value names: a number and a unit,
/// `us`/`µs`, `ms` or `s`, milliseconds without a unit.
pub fn get_time_value(value: &str) -> (r: Option<Duration>)
    ensures
        r == time_value(value@),
        time_micros(value@) matches Some(us) ==> r == Some(duration_from_micros(us)),
{
    let v = chars_of(value);
    let mut time_string = String::new();
    let mut unit_string = String::new();
    let mut i: usize = 0;
    let ghost l = leading_digits(value@) as int;
    proof {
        lemma_leading_digits(value@);
    }
    while i < v.len()
        invariant
            v@ == value@,
            i <= v.len(),
            l == leading_digits(value@),
            l <= value@.len(),
            forall|k: int| 0 <= k < l ==> is_decimal_digit(#[trigger] value@[k]),
            l < value@.len() ==> !is_decimal_digit(value@[l]),
            unit_string@.len() == 0 ==> i <= l && time_string@ == value@.take(i as int),
            unit_string@.len() > 0 ==> l > 0 && l < i && time_string@ == value@.take(l)
                && unit_string@ == value@.subrange(l, i as int) && forall|k: int|
                l <= k < i ==> !is_decimal_digit(#[trigger] value@[k]),
        decreases v.len() - i,
    {
        let ch = v[i];
        let digit = '0' <= ch && ch <= '9';
        if digit && unit_string.as_str().unicode_len() == 0 {
            string_push(&mut time_string, ch);
            assert(time_string@ =~= value@.take(i + 1));
        } else if !digit && time_string.as_str().unicode_len() > 0 {
            let ghost first = unit_string@.len() == 0;
            string_push(&mut unit_string, ch);
            proof {
                if first {
                    assert(i as int == l);
                }
                assert(unit_string@ =~= value@.subrange(l, i + 1));
            }
        } else {
            proof {
                if digit {
                    assert(l <= i && is_decimal_digit(value@[i as int]));
                } else {
                    assert(l == 0);
                }
            }
            return None;
        }
        i = i + 1;
    }
    if time_string.as_str().unicode_len() == 0 {
        return None;
    }
    proof {
        if unit_string@.len() == 0 {
            assert(i as int == l);
        }
        assert(time_string@ =~= value@.take(l));
        assert(unit_string@ =~= value@.skip(l));
        assert(time_parts(value@) == Some((time_string@, unit_string@)));
        reveal_strlit("us");
        reveal_strlit("µs");
        reveal_strlit("ms");
        reveal_strlit("s");
        reveal_strlit("");
    }
    match parse_u64(time_string.as_str()) {
        Some(time) => {
            let unit = trim(unit_string.as_str());
            if str_eq(unit.as_str(), "us") || str_eq(unit.as_str(), "µs") {
                Some(micros_duration(time))
            } else if str_eq(unit.as_str(), "ms") || str_eq(unit.as_str(), "") {
                proof {
                    lemma_scaled_fits(time as nat, 1000);
                }
                Some(millis_duration(time))
            } else if str_eq(unit.as_str(), "s") {
                proof {
                    lemma_scaled_fits(time as nat, 1_000_000);
                }
                Some(secs_duration(time))
            } else {
                None
            }
        },
        None => None,
    }
}

} // verus!
