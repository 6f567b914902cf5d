//! Options of tests and groups in scripts: `name` or `name = value`.

use vstd::prelude::*;
use super::error::{Error, ErrorView, result_view};
use super::string_util::{boolean_value, get_boolean_value, get_time_value, str_eq, time_value, trim, trimmed};
use super::token::{Token, TokenView, token_views};
use crate::stdlib::{parse_u32, radix_parse};
use crate::tests::{TestCaseSettings, TestSuiteSettings};

verus! {

/// Value of a boolean option: the third token names it, and without a third
/// token the option is set; with the offset of the tokens after the name.
pub open spec fn boolean_option(tokens: Seq<TokenView>) -> Result<(bool, usize), ErrorView> {
    if tokens.len() >= 3 {
        match boolean_value(tokens[2].value) {
            Some(b) => Ok((b, 2usize)),
            None => Err(ErrorView::InvalidOptionValue("boolean"@, tokens[2].line, tokens[2].column)),
        }
    } else {
        Ok((true, 0usize))
    }
}

/// Reading a test option from its tokens (name, `=`, value): the result and
/// the settings afterwards. Options `ignore-case`, `allow-failure` and
/// `verbose` may stand without a value; `delay`, `timeout` (times) and `repeat` (a count)
/// need one.
pub open spec fn test_option(tokens: Seq<TokenView>, settings: TestCaseSettings) -> (
    Result<usize, ErrorView>,
    TestCaseSettings,
) {
    let name = trimmed(tokens[0].value);
    if name == "ignore-case"@ {
        match boolean_option(tokens) {
            Ok((b, offset)) => (Ok(offset), TestCaseSettings { ignore_case: Some(b), ..settings }),
            Err(e) => (Err(e), settings),
        }
    } else if name == "allow-failure"@ {
        match boolean_option(tokens) {
            Ok((b, offset)) => (Ok(offset), TestCaseSettings { allow_failure: Some(b), ..settings }),
            Err(e) => (Err(e), settings),
        }
    } else if name == "verbose"@ {
        match boolean_option(tokens) {
            Ok((b, offset)) => (Ok(offset), TestCaseSettings { verbose: Some(b), ..settings }),
            Err(e) => (Err(e), settings),
        }
    } else if tokens.len() < 3 {
        (Err(ErrorView::MissingOptionValue(tokens[0].line, tokens[0].column)), settings)
    } else {
        let value = tokens[2].value;
        let bad_time = ErrorView::InvalidOptionValue("time"@, tokens[2].line, tokens[2].column);
        if name == "delay"@ {
            match time_value(value) {
                Some(t) => (Ok(2usize), TestCaseSettings { delay: Some(t), ..settings }),
                None => (Err(bad_time), settings),
            }
        } else if name == "timeout"@ {
            match time_value(value) {
                Some(t) => (Ok(2usize), TestCaseSettings { timeout: Some(t), ..settings }),
                None => (Err(bad_time), settings),
            }
        } else if name == "repeat"@ {
            match radix_parse(value, 10) {
                Some(n) => if n <= u32::MAX {
                    (Ok(2usize), TestCaseSettings { repeat: Some(n as u32), ..settings })
                } else {
                    (
                        Err(
                            ErrorView::InvalidOptionValue(
                                "number"@,
                                tokens[2].line,
                                tokens[2].column,
                            ),
                        ),
                        settings,
                    )
                },
                None => (
                    Err(ErrorView::InvalidOptionValue("number"@, tokens[2].line, tokens[2].column)),
                    settings,
                ),
            }
        } else {
            (Err(ErrorView::UnknownTestOption(name, tokens[0].line, tokens[0].column)), settings)
        }
    }
}

/// Reading a group option from its tokens: `stop-on-failure` and `disabled`,
/// both booleans.
pub open spec fn group_option(tokens: Seq<TokenView>, settings: TestSuiteSettings) -> (
    Result<usize, ErrorView>,
    TestSuiteSettings,
) {
    let name = trimmed(tokens[0].value);
    if name == "stop-on-failure"@ {
        match boolean_option(tokens) {
            Ok((b, offset)) => (Ok(offset), TestSuiteSettings { stop_on_failure: b, ..settings }),
            Err(e) => (Err(e), settings),
        }
    } else if name == "disabled"@ {
        match boolean_option(tokens) {
            Ok((b, offset)) => (Ok(offset), TestSuiteSettings { disabled: b, ..settings }),
            Err(e) => (Err(e), settings),
        }
    } else if tokens.len() < 3 {
        (Err(ErrorView::MissingOptionValue(tokens[0].line, tokens[0].column)), settings)
    } else {
        (Err(ErrorView::UnknownGroupOption(name, tokens[0].line, tokens[0].column)), settings)
    }
}

fn text(s: &str) -> (r: String)
    ensures
        r@ == s@,
{
    s.to_owned()
}

fn parse_boolean_option(tokens: &[Token], option: &mut bool) -> (res: Result<usize, Error>)
    requires
        tokens.len() >= 1,
    ensures
        match boolean_option(token_views(tokens@)) {
            Ok((b, offset)) => res matches Ok(o) && o == offset && *final(option) == b,
            Err(e) => res matches Err(err) && err@ == e && *final(option) == *old(option),
        },
{
    proof {
        reveal_strlit("boolean");
    }
    let (value, offset) = if tokens.len() >= 3 {
        (get_boolean_value(tokens[2].value.as_str()), 2)
    } else {
        (Some(true), 0)
    };
    if let Some(bool_val) = value {
        *option = bool_val;
        Ok(offset)
    } else {
        Err(Error::InvalidOptionValue(text("boolean"), tokens[2].line, tokens[2].column))
    }
}

fn parse_optional_boolean_option(tokens: &[Token], option: &mut Option<bool>) -> (res: Result<
    usize,
    Error,
>)
    requires
        tokens.len() >= 1,
    ensures
        match boolean_option(token_views(tokens@)) {
            Ok((b, offset)) => res matches Ok(o) && o == offset && *final(option) == Some(b),
            Err(e) => res matches Err(err) && err@ == e && *final(option) == *old(option),
        },
{
    let mut val = false;
    let offset = parse_boolean_option(tokens, &mut val)?;
    *option = Some(val);
    Ok(offset)
}

/// Read a test option from its tokens into the settings; gives the number
/// of tokens after the option name that it took.
pub fn set_test_option(tokens: &[Token], settings: &mut TestCaseSettings) -> (res: Result<
    usize,
    Error,
>)
    requires
        tokens.len() >= 1,
    ensures
        (result_view(res), *final(settings)) == test_option(token_views(tokens@), *old(settings)),
{
    let name = trim(tokens[0].value.as_str());
    proof {
        reveal_strlit("time");
        reveal_strlit("number");
    }
    if str_eq(name.as_str(), "ignore-case") {
        let mut option = settings.ignore_case;
        let res = parse_optional_boolean_option(tokens, &mut option);
        settings.ignore_case = option;
        return res;
    }
    if str_eq(name.as_str(), "allow-failure") {
        let mut option = settings.allow_failure;
        let res = parse_optional_boolean_option(tokens, &mut option);
        settings.allow_failure = option;
        return res;
    }
    if str_eq(name.as_str(), "verbose") {
        let mut option = settings.verbose;
        let res = parse_optional_boolean_option(tokens, &mut option);
        settings.verbose = option;
        return res;
    }
    if tokens.len() < 3 {
        return Err(Error::MissingOptionValue(tokens[0].line, tokens[0].column));
    }
    let value = tokens[2].value.clone();
    if str_eq(name.as_str(), "delay") {
        if let Some(time) = get_time_value(value.as_str()) {
            settings.delay = Some(time);
            Ok(2)
        } else {
            Err(Error::InvalidOptionValue(text("time"), tokens[2].line, tokens[2].column))
        }
    } else if str_eq(name.as_str(), "timeout") {
        if let Some(time) = get_time_value(value.as_str()) {
            settings.timeout = Some(time);
            Ok(2)
        } else {
            Err(Error::InvalidOptionValue(text("time"), tokens[2].line, tokens[2].column))
        }
    } else if str_eq(name.as_str(), "repeat") {
        if let Some(count) = parse_u32(value.as_str()) {
            settings.repeat = Some(count);
            Ok(2)
        } else {
            Err(Error::InvalidOptionValue(text("number"), tokens[2].line, tokens[2].column))
        }
    } else {
        Err(Error::UnknownTestOption(name, tokens[0].line, tokens[0].column))
    }
}

/// Read a group option from its tokens into the suite settings; gives the
/// number of tokens after the option name that it took.
pub fn set_group_option(tokens: &[Token], settings: &mut TestSuiteSettings) -> (res: Result<
    usize,
    Error,
>)
    requires
        tokens.len() >= 1,
    ensures
        (result_view(res), *final(settings)) == group_option(token_views(tokens@), *old(settings)),
{
    let name = trim(tokens[0].value.as_str());
    if str_eq(name.as_str(), "stop-on-failure") {
        let mut option = settings.stop_on_failure;
        let res = parse_boolean_option(tokens, &mut option);
        settings.stop_on_failure = option;
        return res;
    }
    if str_eq(name.as_str(), "disabled") {
        let mut option = settings.disabled;
        let res = parse_boolean_option(tokens, &mut option);
        settings.disabled = option;
        return res;
    }
    if tokens.len() < 3 {
        return Err(Error::MissingOptionValue(tokens[0].line, tokens[0].column));
    }
    Err(Error::UnknownGroupOption(name, tokens[0].line, tokens[0].column))
}

/// A test option read from one token (no value) or from three (name, `=`,
/// value) is followed by as many tokens as its offset says.
pub proof fn lemma_test_option_offset(tokens: Seq<TokenView>, settings: TestCaseSettings)
    ensures
        test_option(tokens, settings).0 matches Ok(offset) ==> (if tokens.len() >= 3 {
            offset == 2
        } else {
            offset == 0
        }),
{
}

/// A group option read from its tokens is followed by as many tokens as its
/// offset says.
pub proof fn lemma_group_option_offset(tokens: Seq<TokenView>, settings: TestSuiteSettings)
    ensures
        group_option(tokens, settings).0 matches Ok(offset) ==> (if tokens.len() >= 3 {
            offset == 2
        } else {
            offset == 0
        }),
{
}

/// Each test option sets its own setting and no other: `delay` the delay,
/// `timeout` the timeout (each to the time its value names), `repeat` the
/// number of repetitions, and `ignore-case`, `allow-failure`, `verbose` their
/// flag (`true`/`TRUE` or no value sets it, `false`/`FALSE` clears it).
pub proof fn lemma_test_option_sets_its_setting(tokens: Seq<TokenView>, s: TestCaseSettings)
    requires
        tokens.len() >= 1,
    ensures
        ({
            let name = trimmed(tokens[0].value);
            let r = test_option(tokens, s);
            let has_value = tokens.len() >= 3;
            let v = tokens[2].value;
            &&& name == "delay"@ && has_value && time_value(v) is Some ==> r == (
                Ok::<usize, ErrorView>(2),
                TestCaseSettings { delay: time_value(v), ..s },
            )
            &&& name == "timeout"@ && has_value && time_value(v) is Some ==> r == (
                Ok::<usize, ErrorView>(2),
                TestCaseSettings { timeout: time_value(v), ..s },
            )
            &&& name == "repeat"@ && has_value && radix_parse(v, 10) is Some && radix_parse(
                v,
                10,
            )->0 <= u32::MAX ==> r == (
                Ok::<usize, ErrorView>(2),
                TestCaseSettings { repeat: Some(radix_parse(v, 10)->0 as u32), ..s },
            )
            &&& name == "ignore-case"@ && !has_value ==> r == (
                Ok::<usize, ErrorView>(0),
                TestCaseSettings { ignore_case: Some(true), ..s },
            )
            &&& name == "ignore-case"@ && has_value && (v == "true"@ || v == "TRUE"@) ==> r == (
                Ok::<usize, ErrorView>(2),
                TestCaseSettings { ignore_case: Some(true), ..s },
            )
            &&& name == "ignore-case"@ && has_value && (v == "false"@ || v == "FALSE"@) ==> r == (
                Ok::<usize, ErrorView>(2),
                TestCaseSettings { ignore_case: Some(false), ..s },
            )
            &&& name == "allow-failure"@ && !has_value ==> r == (
                Ok::<usize, ErrorView>(0),
                TestCaseSettings { allow_failure: Some(true), ..s },
            )
            &&& name == "allow-failure"@ && has_value && (v == "true"@ || v == "TRUE"@) ==> r == (
                Ok::<usize, ErrorView>(2),
                TestCaseSettings { allow_failure: Some(true), ..s },
            )
            &&& name == "allow-failure"@ && has_value && (v == "false"@ || v == "FALSE"@) ==> r
                == (Ok::<usize, ErrorView>(2), TestCaseSettings { allow_failure: Some(false), ..s })
            &&& name == "verbose"@ && !has_value ==> r == (
                Ok::<usize, ErrorView>(0),
                TestCaseSettings { verbose: Some(true), ..s },
            )
            &&& name == "verbose"@ && has_value && (v == "true"@ || v == "TRUE"@) ==> r == (
                Ok::<usize, ErrorView>(2),
                TestCaseSettings { verbose: Some(true), ..s },
            )
            &&& name == "verbose"@ && has_value && (v == "false"@ || v == "FALSE"@) ==> r == (
                Ok::<usize, ErrorView>(2),
                TestCaseSettings { verbose: Some(false), ..s },
            )
            &&& r.0 is Err ==> r.1 == s
        }),
{
    reveal_strlit("delay");
    reveal_strlit("timeout");
    reveal_strlit("repeat");
    reveal_strlit("ignore-case");
    reveal_strlit("allow-failure");
    reveal_strlit("verbose");
    reveal_strlit("true");
    reveal_strlit("TRUE");
    reveal_strlit("false");
    reveal_strlit("FALSE");
    assert("delay"@.len() == 5);
    assert("timeout"@.len() == 7);
    assert("repeat"@.len() == 6);
    assert("ignore-case"@.len() == 11);
    assert("allow-failure"@.len() == 13);
    assert("verbose"@.len() == 7);
    assert("timeout"@[0] != "verbose"@[0]);
    assert("true"@.len() == 4 && "TRUE"@.len() == 4);
    assert("false"@.len() == 5 && "FALSE"@.len() == 5);
    assert("true"@[0] != "TRUE"@[0] && "false"@[0] != "FALSE"@[0]);
}

/// Each group option sets its own flag and no other: `stop-on-failure` and
/// `disabled` (`true`/`TRUE` or no value sets it, `false`/`FALSE` clears it).
pub proof fn lemma_group_option_sets_its_setting(tokens: Seq<TokenView>, s: TestSuiteSettings)
    requires
        tokens.len() >= 1,
    ensures
        ({
            let name = trimmed(tokens[0].value);
            let r = group_option(tokens, s);
            let has_value = tokens.len() >= 3;
            let v = tokens[2].value;
            &&& name == "stop-on-failure"@ && !has_value ==> r == (
                Ok::<usize, ErrorView>(0),
                TestSuiteSettings { stop_on_failure: true, ..s },
            )
            &&& name == "stop-on-failure"@ && has_value && (v == "true"@ || v == "TRUE"@) ==> r
                == (Ok::<usize, ErrorView>(2), TestSuiteSettings { stop_on_failure: true, ..s })
            &&& name == "stop-on-failure"@ && has_value && (v == "false"@ || v == "FALSE"@) ==> r
                == (Ok::<usize, ErrorView>(2), TestSuiteSettings { stop_on_failure: false, ..s })
            &&& name == "disabled"@ && !has_value ==> r == (
                Ok::<usize, ErrorView>(0),
                TestSuiteSettings { disabled: true, ..s },
            )
            &&& name == "disabled"@ && has_value && (v == "true"@ || v == "TRUE"@) ==> r == (
                Ok::<usize, ErrorView>(2),
                TestSuiteSettings { disabled: true, ..s },
            )
            &&& name == "disabled"@ && has_value && (v == "false"@ || v == "FALSE"@) ==> r == (
                Ok::<usize, ErrorView>(2),
                TestSuiteSettings { disabled: false, ..s },
            )
            &&& r.0 is Err ==> r.1 == s
        }),
{
    reveal_strlit("stop-on-failure");
    reveal_strlit("disabled");
    reveal_strlit("true");
    reveal_strlit("TRUE");
    reveal_strlit("false");
    reveal_strlit("FALSE");
    assert("stop-on-failure"@.len() == 15);
    assert("disabled"@.len() == 8);
    assert("true"@.len() == 4 && "TRUE"@.len() == 4);
    assert("false"@.len() == 5 && "FALSE"@.len() == 5);
    assert("true"@[0] != "TRUE"@[0] && "false"@[0] != "FALSE"@[0]);
}

} // verus!
