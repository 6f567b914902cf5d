//! Parser for the test script language.

use vstd::prelude::*;

pub mod char_util;
pub mod token;
pub mod error;
pub mod string_util;
pub mod options;
pub mod finite_state_machine;
pub mod lexer;

use self::error::{Error, ErrorView, result_view};
use self::finite_state_machine::{FiniteStateMachine, Transition, machine_result, table_next, token_types, walk};
use self::options::{group_option, lemma_group_option_offset, lemma_test_option_offset, set_group_option, set_test_option, test_option};
use self::lexer::{Lexer, lex, lex_state, tokenize};
use self::token::{Token, TokenType, TokenView, token_views};
use crate::chars::push_chars;
use crate::stdlib::{regex_compiles, regex_is_valid};
use crate::tests::test_case::{TestCase, TestCaseSettings, TestCaseView, merged_weak, no_test_settings, with_settings};
use crate::tests::test_suite::{SuiteView, TestSuite, TestSuiteSettings};
use crate::utils::TextFormat;

verus! {

/// Transitions of a group line: `[` `<Identifier>` `<, Identifier = Identifier>*` `]`.
pub open spec fn group_transition(state: u32, t: TokenType) -> u32 {
    if state == 1 && t == TokenType::LeftGroupParenthesis {
        2
    } else if state == 2 && t == TokenType::Identifier {
        3
    } else if state == 2 && t == TokenType::ContentSeparator {
        5
    } else if state == 3 && t == TokenType::RightGroupParenthesis {
        4
    } else if state == 3 && t == TokenType::ContentSeparator {
        5
    } else if state == 5 && t == TokenType::Identifier {
        6
    } else if state == 6 && t == TokenType::OptionSeparator {
        7
    } else if state == 7 && t == TokenType::Identifier {
        3
    } else {
        0
    }
}

/// Transitions of a test line: `<( <Identifier> <, Identifier <= Identifier>>* )>`
/// `<b/o/d/h>"Content"` `:` `<b/o/d/h>"Content"`.
pub open spec fn test_transition(state: u32, t: TokenType) -> u32 {
    if state == 1 && t == TokenType::LeftTestParenthesis {
        2
    } else if state == 1 && t == TokenType::FormatSpecifier {
        5
    } else if state == 1 && t == TokenType::Content {
        6
    } else if state == 2 && t == TokenType::Identifier {
        3
    } else if state == 2 && t == TokenType::ContentSeparator {
        10
    } else if state == 3 && t == TokenType::RightTestParenthesis {
        4
    } else if state == 3 && t == TokenType::ContentSeparator {
        10
    } else if state == 4 && t == TokenType::FormatSpecifier {
        5
    } else if state == 4 && t == TokenType::Content {
        6
    } else if state == 5 && t == TokenType::Content {
        6
    } else if state == 6 && t == TokenType::DirectionSeparator {
        7
    } else if state == 7 && t == TokenType::FormatSpecifier {
        8
    } else if state == 7 && t == TokenType::Content {
        9
    } else if state == 8 && t == TokenType::Content {
        9
    } else if state == 10 && t == TokenType::Identifier {
        11
    } else if state == 11 && t == TokenType::OptionSeparator {
        12
    } else if state == 11 && t == TokenType::ContentSeparator {
        10
    } else if state == 11 && t == TokenType::RightTestParenthesis {
        4
    } else if state == 12 && t == TokenType::Identifier {
        3
    } else {
        0
    }
}

/// The machine that recognises group lines; it accepts in state 4.
fn group_state_machine() -> (m: FiniteStateMachine)
    ensures
        m.initial() == 1,
        m.accepting() == seq![4u32],
        m.next_fn() == |s: u32, t: TokenType| group_transition(s, t),
{
    let mut transitions: Vec<Transition> = Vec::new();
    transitions.push(Transition { from: 1, token_type: TokenType::LeftGroupParenthesis, to: 2 });
    transitions.push(Transition { from: 2, token_type: TokenType::Identifier, to: 3 });
    transitions.push(Transition { from: 2, token_type: TokenType::ContentSeparator, to: 5 });
    transitions.push(Transition { from: 3, token_type: TokenType::RightGroupParenthesis, to: 4 });
    transitions.push(Transition { from: 3, token_type: TokenType::ContentSeparator, to: 5 });
    transitions.push(Transition { from: 5, token_type: TokenType::Identifier, to: 6 });
    transitions.push(Transition { from: 6, token_type: TokenType::OptionSeparator, to: 7 });
    transitions.push(Transition { from: 7, token_type: TokenType::Identifier, to: 3 });
    let mut accepting: Vec<u32> = Vec::new();
    accepting.push(4);
    let m = FiniteStateMachine::new(1, accepting, transitions);
    proof {
        reveal_with_fuel(table_next, 9);
        assert(m.accepting() =~= seq![4u32]);
        assert(m.next_fn() =~= |s: u32, t: TokenType| group_transition(s, t));
    }
    m
}

/// The machine that recognises test lines; it accepts in state 9.
fn test_state_machine() -> (m: FiniteStateMachine)
    ensures
        m.initial() == 1,
        m.accepting() == seq![9u32],
        m.next_fn() == |s: u32, t: TokenType| test_transition(s, t),
{
    let mut transitions: Vec<Transition> = Vec::new();
    transitions.push(Transition { from: 1, token_type: TokenType::LeftTestParenthesis, to: 2 });
    transitions.push(Transition { from: 1, token_type: TokenType::FormatSpecifier, to: 5 });
    transitions.push(Transition { from: 1, token_type: TokenType::Content, to: 6 });
    transitions.push(Transition { from: 2, token_type: TokenType::Identifier, to: 3 });
    transitions.push(Transition { from: 2, token_type: TokenType::ContentSeparator, to: 10 });
    transitions.push(Transition { from: 3, token_type: TokenType::RightTestParenthesis, to: 4 });
    transitions.push(Transition { from: 3, token_type: TokenType::ContentSeparator, to: 10 });
    transitions.push(Transition { from: 4, token_type: TokenType::FormatSpecifier, to: 5 });
    transitions.push(Transition { from: 4, token_type: TokenType::Content, to: 6 });
    transitions.push(Transition { from: 5, token_type: TokenType::Content, to: 6 });
    transitions.push(Transition { from: 6, token_type: TokenType::DirectionSeparator, to: 7 });
    transitions.push(Transition { from: 7, token_type: TokenType::FormatSpecifier, to: 8 });
    transitions.push(Transition { from: 7, token_type: TokenType::Content, to: 9 });
    transitions.push(Transition { from: 8, token_type: TokenType::Content, to: 9 });
    transitions.push(Transition { from: 10, token_type: TokenType::Identifier, to: 11 });
    transitions.push(Transition { from: 11, token_type: TokenType::OptionSeparator, to: 12 });
    transitions.push(Transition { from: 11, token_type: TokenType::ContentSeparator, to: 10 });
    transitions.push(Transition { from: 11, token_type: TokenType::RightTestParenthesis, to: 4 });
    transitions.push(Transition { from: 12, token_type: TokenType::Identifier, to: 3 });
    let mut accepting: Vec<u32> = Vec::new();
    accepting.push(9);
    let m = FiniteStateMachine::new(1, accepting, transitions);
    proof {
        reveal_with_fuel(table_next, 20);
        assert(m.accepting() =~= seq![9u32]);
        assert(m.next_fn() =~= |s: u32, t: TokenType| test_transition(s, t));
    }
    m
}


/// The types of a sequence of token views.
pub open spec fn view_types(line: Seq<TokenView>) -> Seq<TokenType> {
    line.map_values(|t: TokenView| t.token_type)
}

proof fn lemma_view_types(tokens: Seq<Token>)
    ensures
        view_types(token_views(tokens)) == token_types(tokens),
        token_views(tokens).len() == tokens.len(),
{
    assert(view_types(token_views(tokens)) =~= token_types(tokens));
}

/// From `state`, the machine walks through `types` and ends in `goal`.
pub open spec fn accepts_from(
    next: spec_fn(u32, TokenType) -> u32,
    state: u32,
    types: Seq<TokenType>,
    goal: u32,
) -> bool {
    walk(next, state, types) == Ok::<u32, (u32, nat)>(goal)
}

proof fn lemma_accept_step(
    next: spec_fn(u32, TokenType) -> u32,
    types: Seq<TokenType>,
    i: int,
    state: u32,
    goal: u32,
)
    requires
        0 <= i <= types.len(),
        accepts_from(next, state, types.skip(i), goal),
    ensures
        i < types.len() ==> next(state, types[i]) != 0 && accepts_from(
            next,
            next(state, types[i]),
            types.skip(i + 1),
            goal,
        ),
        i == types.len() ==> state == goal,
{
    if i < types.len() {
        assert(types.skip(i)[0] == types[i]);
        assert(types.skip(i).drop_first() =~= types.skip(i + 1));
    }
}

pub open spec fn group_next() -> spec_fn(u32, TokenType) -> u32 {
    |s: u32, t: TokenType| group_transition(s, t)
}

pub open spec fn test_next() -> spec_fn(u32, TokenType) -> u32 {
    |s: u32, t: TokenType| test_transition(s, t)
}

/// The error reported when a group line stops in a state.
pub open spec fn group_state_error(state: u32, t: TokenView) -> ErrorView {
    if state == 2 {
        ErrorView::MissingGroupIdentifier(t.line, t.column)
    } else if state == 3 {
        ErrorView::MissingClosingParenthesis("]"@, t.line, t.column)
    } else if state == 5 {
        ErrorView::MissingOptionIdentifier(t.line, t.column)
    } else if state == 6 {
        ErrorView::MissingOptionSeparator(t.line, t.column)
    } else if state == 7 {
        ErrorView::MissingOptionValue(t.line, t.column)
    } else {
        ErrorView::Unknown(t.line, t.column)
    }
}

/// The error reported when a test line stops in a state.
pub open spec fn test_state_error(state: u32, t: TokenView) -> ErrorView {
    if state == 2 {
        ErrorView::MissingTestIdentifier(t.line, t.column)
    } else if state == 3 {
        ErrorView::MissingClosingParenthesis(")"@, t.line, t.column)
    } else if state == 4 || state == 5 {
        ErrorView::MissingContent("input"@, t.line, t.column)
    } else if state == 6 {
        ErrorView::MissingDirectionSeparator(t.line, t.column)
    } else if state == 7 || state == 8 {
        ErrorView::MissingContent("output"@, t.line, t.column)
    } else if state == 10 {
        ErrorView::MissingOptionIdentifier(t.line, t.column)
    } else if state == 11 {
        ErrorView::MissingOptionSeparator(t.line, t.column)
    } else if state == 12 {
        ErrorView::MissingOptionValue(t.line, t.column)
    } else {
        ErrorView::Unknown(t.line, t.column)
    }
}

/// The first position from `j` on of a content separator or of the closing
/// parenthesis (the end of the line if there is none).
pub open spec fn option_end(line: Seq<TokenView>, j: int, closing: TokenType) -> int
    decreases line.len() - j,
{
    if j >= line.len() {
        j
    } else if line[j].token_type == TokenType::ContentSeparator || line[j].token_type == closing {
        j
    } else {
        option_end(line, j + 1, closing)
    }
}

pub open spec fn remaining(line: Seq<TokenView>, index: int) -> int {
    if index <= line.len() {
        line.len() - index
    } else {
        0
    }
}

/// Reading the options of a group line from `index` on: each starts with a
/// content separator and is tried as a test option first, then as a group
/// option. The result is the position after the closing parenthesis, with
/// the group and test settings read.
pub open spec fn group_options(
    line: Seq<TokenView>,
    index: int,
    settings: TestSuiteSettings,
    test_settings: TestCaseSettings,
) -> (Result<int, ErrorView>, TestSuiteSettings, TestCaseSettings)
    decreases remaining(line, index),
{
    if 0 <= index < line.len() && line[index].token_type == TokenType::ContentSeparator {
        let end = option_end(line, index + 1, TokenType::RightGroupParenthesis);
        let opt = line.subrange(index + 1, end);
        let (tr, ts2) = test_option(opt, test_settings);
        match tr {
            Ok(off) => group_options(line, index + 2 + off, settings, ts2),
            Err(e) => if e is UnknownTestOption {
                let (gr, s2) = group_option(opt, settings);
                match gr {
                    Ok(off) => group_options(line, index + 2 + off, s2, ts2),
                    Err(e2) => (Err(e2), s2, ts2),
                }
            } else {
                (Err(e), settings, ts2)
            },
        }
    } else {
        (Ok(index + 1), settings, test_settings)
    }
}

/// The suite a group line makes: its name, and its options applied to
/// default suite settings and to the default test settings.
pub open spec fn group_line(line: Seq<TokenView>, defaults: TestCaseSettings) -> Result<
    SuiteView,
    ErrorView,
> {
    match machine_result(group_next(), 1, seq![4u32], view_types(line)) {
        Err((s, i)) => Err(group_state_error(s, line[i as int])),
        Ok(()) => {
            let has_name = line[1].token_type == TokenType::Identifier;
            let name = if has_name {
                line[1].value
            } else {
                Seq::empty()
            };
            let start = if has_name {
                2int
            } else {
                1int
            };
            match group_options(
                line,
                start,
                TestSuiteSettings { stop_on_failure: false, disabled: false },
                defaults,
            ) {
                (Ok(_), s, ts) => Ok(
                    SuiteView { name, settings: s, test_settings: ts, tests: Seq::empty() },
                ),
                (Err(e), _, _) => Err(e),
            }
        },
    }
}

fn text(s: &str) -> (r: String)
    ensures
        r@ == s@,
{
    s.to_owned()
}

fn analyse_group_options(
    tokens: &[Token],
    start: usize,
    settings: &mut TestSuiteSettings,
    test_settings: &mut TestCaseSettings,
) -> (res: Result<usize, Error>)
    requires
        start <= tokens.len(),
        exists|q: u32|
            (q == 2 || q == 3) && accepts_from(
                group_next(),
                q,
                token_types(tokens@).skip(start as int),
                4,
            ) && (q == 2 ==> start < tokens.len() && tokens@[start as int].token_type
                == TokenType::ContentSeparator),
    ensures
        ({
            let (r, s, ts) = group_options(
                token_views(tokens@),
                start as int,
                *old(settings),
                *old(test_settings),
            );
            &&& s == *final(settings)
            &&& ts == *final(test_settings)
            &&& match res {
                Ok(n) => r == Ok::<int, ErrorView>(n as int) && n == tokens.len(),
                Err(e) => r == Err::<int, ErrorView>(e@),
            }
        }),
{
    let ghost line = token_views(tokens@);
    let ghost types = token_types(tokens@);
    proof {
        lemma_view_types(tokens@);
    }
    let mut index = start;
    let ghost mut q: u32 = choose|q: u32|
        (q == 2 || q == 3) && accepts_from(group_next(), q, types.skip(start as int), 4) && (q
            == 2 ==> start < tokens.len() && tokens@[start as int].token_type
            == TokenType::ContentSeparator);
    loop
        invariant
            line == token_views(tokens@),
            types == token_types(tokens@),
            view_types(line) == types,
            line.len() == tokens.len(),
            index <= tokens.len(),
            q == 2 || q == 3,
            accepts_from(group_next(), q, types.skip(index as int), 4),
            q == 2 ==> index < tokens.len() && tokens@[index as int].token_type
                == TokenType::ContentSeparator,
            group_options(line, start as int, *old(settings), *old(test_settings))
                == group_options(line, index as int, *settings, *test_settings),
        decreases tokens.len() - index,
    {
        proof {
            lemma_accept_step(group_next(), types, index as int, q, 4);
        }
        if index >= tokens.len() || tokens[index].token_type != TokenType::ContentSeparator {
            proof {
                assert(types[index as int] == TokenType::RightGroupParenthesis);
                lemma_accept_step(group_next(), types, index + 1, 4, 4);
            }
            return Ok(index + 1);
        }
        proof {
            lemma_accept_step(group_next(), types, index + 1, 5, 4);
            lemma_accept_step(group_next(), types, index + 2, 6, 4);
            lemma_accept_step(group_next(), types, index + 3, 7, 4);
            lemma_accept_step(group_next(), types, index + 4, 3, 4);
            assert(option_end(line, index + 4, TokenType::RightGroupParenthesis) == index + 4);
        }
        let mut option_length: usize = 1;
        while tokens[index + option_length].token_type != TokenType::ContentSeparator
            && tokens[index + option_length].token_type != TokenType::RightGroupParenthesis
            invariant
                line == token_views(tokens@),
                types == token_types(tokens@),
                index + 4 < tokens.len(),
                1 <= option_length <= 4,
                types[index + 1] == TokenType::Identifier,
                types[index + 2] == TokenType::OptionSeparator,
                types[index + 3] == TokenType::Identifier,
                types[index + 4] == TokenType::ContentSeparator || types[index + 4]
                    == TokenType::RightGroupParenthesis,
                forall|k: int| 0 <= k < tokens.len() ==> #[trigger] types[k] == tokens@[k].token_type,
                option_end(line, index + 4, TokenType::RightGroupParenthesis) == index + 4,
                option_end(line, index + 1, TokenType::RightGroupParenthesis) == option_end(
                    line,
                    index + option_length,
                    TokenType::RightGroupParenthesis,
                ),
            decreases 4 - option_length,
        {
            option_length = option_length + 1;
        }
        let ghost opt = line.subrange(index + 1, index + option_length);
        assert(option_length == 4);
        assert(token_views(tokens@.subrange(index + 1, index + 4)) =~= opt);
        let option_tokens = &tokens[index + 1..index + option_length];
        proof {
            lemma_test_option_offset(opt, *test_settings);
            lemma_group_option_offset(opt, *settings);
        }
        let offset = match set_test_option(option_tokens, test_settings) {
            Ok(offset) => offset,
            Err(err) => {
                match err {
                    Error::UnknownTestOption(_, _, _) => set_group_option(option_tokens, settings)?,
                    _ => {
                        return Err(err);
                    },
                }
            },
        };
        index = index + 2 + offset;
        proof {
            q = 3;
        }
    }
}


fn analyse_test_group(
    tokens: &[Token],
    state_machine: &FiniteStateMachine,
    default_test_settings: TestCaseSettings,
) -> (res: Result<TestSuite, Error>)
    requires
        tokens.len() > 0,
        state_machine.initial() == 1,
        state_machine.accepting() == seq![4u32],
        state_machine.next_fn() == group_next(),
    ensures
        match res {
            Ok(suite) => group_line(token_views(tokens@), default_test_settings) == Ok::<
                SuiteView,
                ErrorView,
            >(suite@),
            Err(e) => group_line(token_views(tokens@), default_test_settings) == Err::<
                SuiteView,
                ErrorView,
            >(e@),
        },
{
    let ghost line = token_views(tokens@);
    let ghost types = token_types(tokens@);
    proof {
        lemma_view_types(tokens@);
        reveal_strlit("]");
    }
    let result = state_machine.run(tokens);
    if let Err((state, token)) = result {
        return match state {
            2 => Err(Error::MissingGroupIdentifier(token.line, token.column)),
            3 => Err(Error::MissingClosingParenthesis(text("]"), token.line, token.column)),
            5 => Err(Error::MissingOptionIdentifier(token.line, token.column)),
            6 => Err(Error::MissingOptionSeparator(token.line, token.column)),
            7 => Err(Error::MissingOptionValue(token.line, token.column)),
            _ => Err(Error::Unknown(token.line, token.column)),
        };
    }
    proof {
        assert(types.skip(0) =~= types);
        assert(seq![4u32].contains(4u32));
        lemma_accept_step(group_next(), types, 0, 1, 4);
        lemma_accept_step(group_next(), types, 1, 2, 4);
    }
    let mut index: usize = 1;
    let name = if tokens[1].token_type == TokenType::Identifier {
        index = index + 1;
        tokens[1].value.clone()
    } else {
        String::new()
    };
    let mut settings = TestSuiteSettings::default();
    let mut test_settings = default_test_settings;
    proof {
        if index == 2 {
            assert(accepts_from(group_next(), 3, types.skip(2), 4));
        } else {
            assert(accepts_from(group_next(), 2, types.skip(1), 4));
        }
    }
    analyse_group_options(tokens, index, &mut settings, &mut test_settings)?;
    Ok(TestSuite::new_with_settings(name, settings, test_settings))
}


/// Reading the options of a test line from `index` on: each starts with a
/// content separator. The result is the position after the closing
/// parenthesis, with the settings read.
pub open spec fn test_options(line: Seq<TokenView>, index: int, settings: TestCaseSettings) -> (
    Result<int, ErrorView>,
    TestCaseSettings,
)
    decreases remaining(line, index),
{
    if 0 <= index < line.len() && line[index].token_type == TokenType::ContentSeparator {
        let end = option_end(line, index + 1, TokenType::RightTestParenthesis);
        match test_option(line.subrange(index + 1, end), settings) {
            (Ok(off), s2) => test_options(line, index + 2 + off, s2),
            (Err(e), s2) => (Err(e), s2),
        }
    } else {
        (Ok(index + 1), settings)
    }
}

/// The text format a format specifier names.
pub open spec fn text_format(t: TokenView) -> Result<TextFormat, ErrorView> {
    if t.value == "b"@ {
        Ok(TextFormat::Binary)
    } else if t.value == "o"@ {
        Ok(TextFormat::Octal)
    } else if t.value == "d"@ {
        Ok(TextFormat::Decimal)
    } else if t.value == "h"@ {
        Ok(TextFormat::Hex)
    } else {
        Err(ErrorView::Unknown(t.line, t.column))
    }
}

/// The test that an accepted test line describes: the name and options in
/// parentheses, the input with its format, and the expected output with its
/// format, which must be a valid regular expression.
pub open spec fn test_fields(line: Seq<TokenView>) -> Result<TestCaseView, ErrorView> {
    let parens = line[0].token_type == TokenType::LeftTestParenthesis;
    let has_name = parens && line[1].token_type == TokenType::Identifier;
    let name = if has_name {
        line[1].value
    } else {
        Seq::empty()
    };
    let (opts, settings) = if parens {
        test_options(
            line,
            if has_name {
                2int
            } else {
                1int
            },
            no_test_settings(),
        )
    } else {
        (Ok(0int), no_test_settings())
    };
    match opts {
        Err(e) => Err(e),
        Ok(i0) => {
            let in_fs = line[i0].token_type == TokenType::FormatSpecifier;
            let in_fmt = if in_fs {
                text_format(line[i0])
            } else {
                Ok(TextFormat::Text)
            };
            match in_fmt {
                Err(e) => Err(e),
                Ok(input_format) => {
                    let i1 = if in_fs {
                        i0 + 1
                    } else {
                        i0
                    };
                    let input = line[i1].value;
                    let i2 = i1 + 2;
                    let out_fs = line[i2].token_type == TokenType::FormatSpecifier;
                    let out_fmt = if out_fs {
                        text_format(line[i2])
                    } else {
                        Ok(TextFormat::Text)
                    };
                    match out_fmt {
                        Err(e) => Err(e),
                        Ok(output_format) => {
                            let i3 = if out_fs {
                                i2 + 1
                            } else {
                                i2
                            };
                            let output = line[i3].value;
                            if !regex_compiles(output) {
                                Err(
                                    ErrorView::InvalidOutputContent(
                                        output,
                                        line[i3].line,
                                        line[i3].column,
                                    ),
                                )
                            } else {
                                Ok(
                                    TestCaseView {
                                        settings,
                                        input_format,
                                        output_format,
                                        name,
                                        input,
                                        output,
                                        response: None,
                                        successful: None,
                                        error: None,
                                    },
                                )
                            }
                        },
                    }
                },
            }
        },
    }
}

/// The test a test line makes, or the error of the first token that does
/// not fit the test grammar.
pub open spec fn test_line(line: Seq<TokenView>) -> Result<TestCaseView, ErrorView> {
    match machine_result(test_next(), 1, seq![9u32], view_types(line)) {
        Err((s, i)) => Err(test_state_error(s, line[i as int])),
        Ok(()) => test_fields(line),
    }
}

fn analyse_test_options(tokens: &[Token], start: usize, settings: &mut TestCaseSettings) -> (res:
    Result<usize, Error>)
    requires
        start <= tokens.len(),
        exists|q: u32|
            (q == 2 || q == 3 || q == 11) && accepts_from(
                test_next(),
                q,
                token_types(tokens@).skip(start as int),
                9,
            ) && (q == 2 ==> start < tokens.len() && tokens@[start as int].token_type
                == TokenType::ContentSeparator) && (q == 11 ==> start < tokens.len() && (
            tokens@[start as int].token_type == TokenType::ContentSeparator
                || tokens@[start as int].token_type == TokenType::RightTestParenthesis)),
    ensures
        ({
            let (r, s) = test_options(token_views(tokens@), start as int, *old(settings));
            &&& s == *final(settings)
            &&& match res {
                Ok(n) => r == Ok::<int, ErrorView>(n as int) && n <= tokens.len() && accepts_from(
                    test_next(),
                    4,
                    token_types(tokens@).skip(n as int),
                    9,
                ),
                Err(e) => r == Err::<int, ErrorView>(e@),
            }
        }),
{
    let ghost line = token_views(tokens@);
    let ghost types = token_types(tokens@);
    proof {
        lemma_view_types(tokens@);
    }
    let mut index = start;
    let ghost mut q: u32 = choose|q: u32|
        (q == 2 || q == 3 || q == 11) && accepts_from(
            test_next(),
            q,
            types.skip(start as int),
            9,
        ) && (q == 2 ==> start < tokens.len() && tokens@[start as int].token_type
            == TokenType::ContentSeparator) && (q == 11 ==> start < tokens.len() && (
        tokens@[start as int].token_type == TokenType::ContentSeparator
            || tokens@[start as int].token_type == TokenType::RightTestParenthesis));
    loop
        invariant
            line == token_views(tokens@),
            types == token_types(tokens@),
            view_types(line) == types,
            line.len() == tokens.len(),
            index <= tokens.len(),
            q == 2 || q == 3 || q == 11,
            accepts_from(test_next(), q, types.skip(index as int), 9),
            q == 2 ==> index < tokens.len() && tokens@[index as int].token_type
                == TokenType::ContentSeparator,
            q == 11 ==> index < tokens.len() && (tokens@[index as int].token_type
                == TokenType::ContentSeparator || tokens@[index as int].token_type
                == TokenType::RightTestParenthesis),
            test_options(line, start as int, *old(settings)) == test_options(
                line,
                index as int,
                *settings,
            ),
        decreases tokens.len() - index,
    {
        proof {
            lemma_accept_step(test_next(), types, index as int, q, 9);
        }
        if index >= tokens.len() || tokens[index].token_type != TokenType::ContentSeparator {
            proof {
                assert(types[index as int] == TokenType::RightTestParenthesis);
            }
            return Ok(index + 1);
        }
        proof {
            lemma_accept_step(test_next(), types, index + 1, 10, 9);
            lemma_accept_step(test_next(), types, index + 2, 11, 9);
        }
        let ghost short = types[index + 2] == TokenType::ContentSeparator || types[index + 2]
            == TokenType::RightTestParenthesis;
        let ghost expected: int = if short {
            2
        } else {
            4
        };
        proof {
            if !short {
                lemma_accept_step(test_next(), types, index + 3, 12, 9);
                lemma_accept_step(test_next(), types, index + 4, 3, 9);
            }
        }
        let mut option_length: usize = 1;
        while tokens[index + option_length].token_type != TokenType::ContentSeparator
            && tokens[index + option_length].token_type != TokenType::RightTestParenthesis
            invariant
                line == token_views(tokens@),
                types == token_types(tokens@),
                index + expected < tokens.len(),
                expected == 2 || expected == 4,
                1 <= option_length <= expected,
                types[index + 1] == TokenType::Identifier,
                expected == 4 ==> types[index + 2] == TokenType::OptionSeparator && types[index
                    + 3] == TokenType::Identifier,
                types[index + expected] == TokenType::ContentSeparator || types[index + expected]
                    == TokenType::RightTestParenthesis,
                forall|k: int| 0 <= k < tokens.len() ==> #[trigger] types[k] == tokens@[k].token_type,
                option_end(line, index + 1, TokenType::RightTestParenthesis) == option_end(
                    line,
                    index + option_length,
                    TokenType::RightTestParenthesis,
                ),
            decreases expected - option_length,
        {
            option_length = option_length + 1;
        }
        proof {
            assert(option_length == expected);
            assert(option_end(line, index + expected, TokenType::RightTestParenthesis) == index
                + expected);
        }
        let ghost opt = line.subrange(index + 1, index + option_length);
        assert(token_views(tokens@.subrange(index + 1, index + option_length as int)) =~= opt);
        let option_tokens = &tokens[index + 1..index + option_length];
        proof {
            lemma_test_option_offset(opt, *settings);
        }
        let offset = set_test_option(option_tokens, settings)?;
        index = index + 2 + offset;
        proof {
            q = if short {
                11
            } else {
                3
            };
        }
    }
}

fn get_text_format(token: &Token) -> (res: Result<TextFormat, Error>)
    ensures
        result_view(res) == text_format(token@),
{
    if string_util::str_eq(token.value.as_str(), "b") {
        Ok(TextFormat::Binary)
    } else if string_util::str_eq(token.value.as_str(), "o") {
        Ok(TextFormat::Octal)
    } else if string_util::str_eq(token.value.as_str(), "d") {
        Ok(TextFormat::Decimal)
    } else if string_util::str_eq(token.value.as_str(), "h") {
        Ok(TextFormat::Hex)
    } else {
        Err(Error::Unknown(token.line, token.column))
    }
}

fn analyse_test(tokens: &[Token], state_machine: &FiniteStateMachine) -> (res: Result<
    TestCase,
    Error,
>)
    requires
        tokens.len() > 0,
        state_machine.initial() == 1,
        state_machine.accepting() == seq![9u32],
        state_machine.next_fn() == test_next(),
    ensures
        match res {
            Ok(t) => test_line(token_views(tokens@)) == Ok::<TestCaseView, ErrorView>(t@),
            Err(e) => test_line(token_views(tokens@)) == Err::<TestCaseView, ErrorView>(e@),
        },
{
    let ghost line = token_views(tokens@);
    let ghost types = token_types(tokens@);
    proof {
        lemma_view_types(tokens@);
        reveal_strlit(")");
        reveal_strlit("input");
        reveal_strlit("output");
    }
    let result = state_machine.run(tokens);
    if let Err((state, token)) = result {
        return match state {
            2 => Err(Error::MissingTestIdentifier(token.line, token.column)),
            3 => Err(Error::MissingClosingParenthesis(text(")"), token.line, token.column)),
            4 | 5 => Err(Error::MissingContent(text("input"), token.line, token.column)),
            6 => Err(Error::MissingDirectionSeparator(token.line, token.column)),
            7 | 8 => Err(Error::MissingContent(text("output"), token.line, token.column)),
            10 => Err(Error::MissingOptionIdentifier(token.line, token.column)),
            11 => Err(Error::MissingOptionSeparator(token.line, token.column)),
            12 => Err(Error::MissingOptionValue(token.line, token.column)),
            _ => Err(Error::Unknown(token.line, token.column)),
        };
    }
    proof {
        assert(types.skip(0) =~= types);
        assert(seq![9u32].contains(9u32));
        lemma_accept_step(test_next(), types, 0, 1, 9);
    }
    let mut name = String::new();
    let mut settings = TestCaseSettings::default();
    let mut input_format = TextFormat::Text;
    let mut output_format = TextFormat::Text;
    let mut index: usize = 0;
    let ghost mut q: u32 = 1;
    if tokens[index].token_type == TokenType::LeftTestParenthesis {
        proof {
            lemma_accept_step(test_next(), types, 1, 2, 9);
        }
        if tokens[index + 1].token_type == TokenType::Identifier {
            name = tokens[1].value.clone();
            index = index + 1;
        }
        index = index + 1;
        index = analyse_test_options(tokens, index, &mut settings)?;
        proof {
            q = 4;
        }
    }
    proof {
        lemma_accept_step(test_next(), types, index as int, q, 9);
    }
    if tokens[index].token_type == TokenType::FormatSpecifier {
        input_format = get_text_format(&tokens[index])?;
        index = index + 1;
        proof {
            lemma_accept_step(test_next(), types, index as int, 5, 9);
        }
    }
    let input = tokens[index].value.clone();
    proof {
        lemma_accept_step(test_next(), types, index + 1, 6, 9);
        lemma_accept_step(test_next(), types, index + 2, 7, 9);
    }
    index = index + 2;
    if tokens[index].token_type == TokenType::FormatSpecifier {
        output_format = get_text_format(&tokens[index])?;
        index = index + 1;
        proof {
            lemma_accept_step(test_next(), types, index as int, 8, 9);
        }
    }
    let output = tokens[index].value.clone();
    if !regex_is_valid(output.as_str()) {
        return Err(Error::InvalidOutputContent(output, tokens[index].line, tokens[index].column));
    }
    let mut test = TestCase::new(name, input, output);
    test.set_settings(settings);
    test.set_formats(input_format, output_format);
    Ok(test)
}


/// Splitting a token stream into lines at newline tokens, from the current
/// lines and the line being read: empty lines are dropped, the tokens after
/// the last newline (the end of file among them) form no line, and an
/// illegal token is an error.
pub open spec fn split_lines(
    tokens: Seq<TokenView>,
    lines: Seq<Seq<TokenView>>,
    line: Seq<TokenView>,
) -> Result<Seq<Seq<TokenView>>, ErrorView>
    decreases tokens.len(),
{
    if tokens.len() == 0 {
        Ok(lines)
    } else {
        let t = tokens[0];
        let rest = tokens.drop_first();
        if t.token_type == TokenType::Illegal {
            Err(ErrorView::IllegalToken(t.value, t.line, t.column))
        } else if t.token_type == TokenType::Newline {
            if line.len() > 0 {
                split_lines(rest, lines.push(line), Seq::empty())
            } else {
                split_lines(rest, lines, Seq::empty())
            }
        } else {
            split_lines(rest, lines, line.push(t))
        }
    }
}

/// A suite without name or tests for the tests before the first group; its
/// tests get the default (execution) settings.
pub open spec fn unnamed_suite(defaults: TestCaseSettings) -> SuiteView {
    SuiteView {
        name: Seq::empty(),
        settings: TestSuiteSettings { stop_on_failure: false, disabled: false },
        test_settings: defaults,
        tests: Seq::empty(),
    }
}

/// Adding a test to the last suite (to a new unnamed one when there is
/// none); the suite's test settings fill the settings the test leaves open.
pub open spec fn add_test(suites: Seq<SuiteView>, t: TestCaseView, defaults: TestCaseSettings) -> Seq<
    SuiteView,
> {
    let s = if suites.len() == 0 {
        seq![unnamed_suite(defaults)]
    } else {
        suites
    };
    let last = s.last();
    s.update(
        s.len() - 1,
        SuiteView {
            tests: last.tests.push(with_settings(t, merged_weak(t.settings, last.test_settings))),
            ..last
        },
    )
}

/// Reading lines into suites: a line starting with `[` opens a new suite; a
/// line starting with `(`, a format specifier or content is a test of the
/// current suite; any other line start is an error.
pub open spec fn parse_lines(
    lines: Seq<Seq<TokenView>>,
    defaults: TestCaseSettings,
    suites: Seq<SuiteView>,
) -> Result<Seq<SuiteView>, ErrorView>
    decreases lines.len(),
{
    if lines.len() == 0 {
        Ok(suites)
    } else {
        let line = lines[0];
        let first = line[0];
        if first.token_type == TokenType::LeftGroupParenthesis {
            match group_line(line, defaults) {
                Ok(suite) => parse_lines(lines.drop_first(), defaults, suites.push(suite)),
                Err(e) => Err(e),
            }
        } else if first.token_type == TokenType::LeftTestParenthesis || first.token_type
            == TokenType::FormatSpecifier || first.token_type == TokenType::Content {
            match test_line(line) {
                Ok(t) => parse_lines(lines.drop_first(), defaults, add_test(suites, t, defaults)),
                Err(e) => Err(e),
            }
        } else {
            Err(ErrorView::InvalidLineStart(first.line, first.column))
        }
    }
}

/// The suites a token stream describes.
pub open spec fn parse_tokens(tokens: Seq<TokenView>, defaults: TestCaseSettings) -> Result<
    Seq<SuiteView>,
    ErrorView,
> {
    match split_lines(tokens, Seq::empty(), Seq::empty()) {
        Err(e) => Err(e),
        Ok(lines) => parse_lines(lines, defaults, Seq::empty()),
    }
}

/// The views of a sequence of suites.
pub open spec fn suite_views(suites: Seq<TestSuite>) -> Seq<SuiteView> {
    suites.map_values(|s: TestSuite| s@)
}

pub open spec fn line_views(lines: Seq<Vec<Token>>) -> Seq<Seq<TokenView>> {
    lines.map_values(|l: Vec<Token>| token_views(l@))
}

fn copy_token(t: &Token) -> (r: Token)
    ensures
        r@ == t@,
{
    Token::new_with_value(t.token_type, t.value.clone(), t.line, t.column)
}

/// Analyse a token stream (as the lexer makes it) into test suites.
///
/// A vector of test suites is returned on successful parsing, otherwise a parsing error is returned.
pub fn analyse_tokens(tokens: Vec<Token>, default_test_settings: TestCaseSettings) -> (res: Result<
    Vec<TestSuite>,
    Error,
>)
    ensures
        match res {
            Ok(suites) => parse_tokens(token_views(tokens@), default_test_settings) == Ok::<
                Seq<SuiteView>,
                ErrorView,
            >(suite_views(suites@)),
            Err(e) => parse_tokens(token_views(tokens@), default_test_settings) == Err::<
                Seq<SuiteView>,
                ErrorView,
            >(e@),
        },
{
    let ghost all = token_views(tokens@);
    let mut lines: Vec<Vec<Token>> = Vec::new();
    let mut line: Vec<Token> = Vec::new();
    let mut i: usize = 0;
    assert(all.skip(0) =~= all);
    assert(line_views(lines@) =~= Seq::<Seq<TokenView>>::empty());
    assert(token_views(line@) =~= Seq::<TokenView>::empty());
    while i < tokens.len()
        invariant
            all == token_views(tokens@),
            all.len() == tokens.len(),
            i <= tokens.len(),
            split_lines(all, Seq::empty(), Seq::empty()) == split_lines(
                all.skip(i as int),
                line_views(lines@),
                token_views(line@),
            ),
            forall|k: int| 0 <= k < lines@.len() ==> #[trigger] lines@[k]@.len() > 0,
        decreases tokens.len() - i,
    {
        let token = &tokens[i];
        assert(all.skip(i as int)[0] == token@);
        assert(all.skip(i as int).drop_first() =~= all.skip(i + 1));
        if token.token_type == TokenType::Illegal {
            return Err(Error::IllegalToken(token.value.clone(), token.line, token.column));
        }
        if token.token_type == TokenType::Newline {
            if line.len() > 0 {
                let ghost before = line_views(lines@);
                let ghost current = token_views(line@);
                lines.push(line);
                line = Vec::new();
                assert(line_views(lines@) =~= before.push(current));
                assert(token_views(line@) =~= Seq::<TokenView>::empty());
            } else {
                assert(token_views(line@) =~= Seq::<TokenView>::empty());
            }
        } else {
            let ghost current = token_views(line@);
            line.push(copy_token(token));
            assert(token_views(line@) =~= current.push(token@));
        }
        i = i + 1;
    }
    assert(all.skip(i as int) =~= Seq::<TokenView>::empty());
    let ghost all_lines = line_views(lines@);
    assert(split_lines(all, Seq::empty(), Seq::empty()) == Ok::<
        Seq<Seq<TokenView>>,
        ErrorView,
    >(all_lines));
    let group_state_machine = group_state_machine();
    let test_state_machine = test_state_machine();
    proof {
        assert(group_state_machine.next_fn() =~= group_next());
        assert(test_state_machine.next_fn() =~= test_next());
    }
    let mut test_suites: Vec<TestSuite> = Vec::new();
    let mut j: usize = 0;
    assert(all_lines.skip(0) =~= all_lines);
    assert(suite_views(test_suites@) =~= Seq::<SuiteView>::empty());
    while j < lines.len()
        invariant
            all == token_views(tokens@),
            split_lines(all, Seq::empty(), Seq::empty()) == Ok::<
                Seq<Seq<TokenView>>,
                ErrorView,
            >(all_lines),
            all_lines == line_views(lines@),
            all_lines.len() == lines.len(),
            j <= lines.len(),
            forall|k: int| 0 <= k < lines@.len() ==> #[trigger] lines@[k]@.len() > 0,
            group_state_machine.initial() == 1,
            group_state_machine.accepting() == seq![4u32],
            group_state_machine.next_fn() == group_next(),
            test_state_machine.initial() == 1,
            test_state_machine.accepting() == seq![9u32],
            test_state_machine.next_fn() == test_next(),
            parse_lines(all_lines, default_test_settings, Seq::empty()) == parse_lines(
                all_lines.skip(j as int),
                default_test_settings,
                suite_views(test_suites@),
            ),
        decreases lines.len() - j,
    {
        let line = &lines[j];
        let ghost lv = token_views(line@);
        assert(all_lines.skip(j as int)[0] == lv);
        assert(all_lines.skip(j as int).drop_first() =~= all_lines.skip(j + 1));
        assert(line@.len() > 0);
        let first_type = line[0].token_type;
        if first_type == TokenType::LeftGroupParenthesis {
            let suite = analyse_test_group(line.as_slice(), &group_state_machine, default_test_settings)?;
            let ghost before = suite_views(test_suites@);
            test_suites.push(suite);
            assert(suite_views(test_suites@) =~= before.push(suite@));
        } else if first_type == TokenType::LeftTestParenthesis || first_type
            == TokenType::FormatSpecifier || first_type == TokenType::Content {
            let test = analyse_test(line.as_slice(), &test_state_machine)?;
            let ghost before = suite_views(test_suites@);
            if test_suites.len() == 0 {
                test_suites.push(
                    TestSuite::new_with_settings(
                        String::new(),
                        TestSuiteSettings::default(),
                        default_test_settings,
                    ),
                );
                assert(suite_views(test_suites@) =~= seq![unnamed_suite(default_test_settings)]);
            }
            let ghost with_suite = suite_views(test_suites@);
            let ghost tv = test@;
            let mut last = test_suites.pop().unwrap();
            last.push(test);
            test_suites.push(last);
            assert(suite_views(test_suites@) =~= add_test(before, tv, default_test_settings));
        } else {
            return Err(Error::InvalidLineStart(line[0].line, line[0].column));
        }
        j = j + 1;
    }
    assert(all_lines.skip(j as int) =~= Seq::<Seq<TokenView>>::empty());
    Ok(test_suites)
}


/// Parse the text of a script into test suites, with given default test
/// settings.
///
/// A vector of test suites is returned on successful parsing, otherwise a parsing error is returned.
pub fn parse_text(content: String, default_test_settings: TestCaseSettings) -> (res: Result<
    Vec<TestSuite>,
    Error,
>)
    requires
        content@.len() < u32::MAX,
        lex(content@) is Some,
    ensures
        match res {
            Ok(suites) => parse_tokens(lex(content@)->0, default_test_settings) == Ok::<
                Seq<SuiteView>,
                ErrorView,
            >(suite_views(suites@)),
            Err(e) => parse_tokens(lex(content@)->0, default_test_settings) == Err::<
                Seq<SuiteView>,
                ErrorView,
            >(e@),
        },
{
    let mut lexer = Lexer::new(content);
    let tokens = lexer.get_tokens();
    analyse_tokens(tokens, default_test_settings)
}

/// Parse the text of a script, or `None` where the lexer cannot read it
/// (see `lexer::tokenize`).
pub fn try_parse_text(content: String, default_test_settings: TestCaseSettings) -> (res: Option<
    Result<Vec<TestSuite>, Error>,
>)
    ensures
        content@.len() < u32::MAX && lex(content@) is Some ==> match res {
            Some(Ok(suites)) => parse_tokens(lex(content@)->0, default_test_settings) == Ok::<
                Seq<SuiteView>,
                ErrorView,
            >(suite_views(suites@)),
            Some(Err(e)) => parse_tokens(lex(content@)->0, default_test_settings) == Err::<
                Seq<SuiteView>,
                ErrorView,
            >(e@),
            None => false,
        },
        !(content@.len() < u32::MAX && lex(content@) is Some) ==> res is None,
{
    match tokenize(content) {
        Some(tokens) => Some(analyse_tokens(tokens, default_test_settings)),
        None => None,
    }
}

/// Tests belong to the suite opened last (an unnamed suite with the default
/// settings when no group came before them): adding a test changes only that
/// suite, appends the test to it, and the suite's test settings fill exactly
/// the settings the test leaves open.
pub proof fn lemma_add_test(suites: Seq<SuiteView>, t: TestCaseView, defaults: TestCaseSettings)
    ensures
        ({
            let r = add_test(suites, t, defaults);
            let target = if suites.len() == 0 {
                unnamed_suite(defaults)
            } else {
                suites.last()
            };
            &&& r.len() == if suites.len() == 0 {
                1
            } else {
                suites.len()
            }
            &&& forall|k: int| 0 <= k < r.len() - 1 ==> r[k] == suites[k]
            &&& r.last().name == target.name
            &&& r.last().settings == target.settings
            &&& r.last().test_settings == target.test_settings
            &&& r.last().tests.len() == target.tests.len() + 1
            &&& forall|k: int| 0 <= k < target.tests.len() ==> r.last().tests[k] == target.tests[k]
            &&& r.last().tests.last().name == t.name
            &&& r.last().tests.last().input == t.input
            &&& r.last().tests.last().output == t.output
            &&& r.last().tests.last().settings == merged_weak(t.settings, target.test_settings)
        }),
{
}

} // verus!
