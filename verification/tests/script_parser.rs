use serial_unit_testing::parser::error::Error;
use serial_unit_testing::parser::lexer::tokenize;
use serial_unit_testing::parser::string_util::{get_boolean_value, get_time_value};
use serial_unit_testing::parser::token::TokenType;
use serial_unit_testing::parser::{parse_text, try_parse_text};
use serial_unit_testing::tests::test_case::TestCaseSettings;
use serial_unit_testing::utils::TextFormat;
use std::time::Duration;

const EXAMPLE: &str = "# Example script\n\n(Test One)              \"h\\n\"  :  \"Help\"\n(Test Two, repeat = 2) h\"00FF\" : h\"00\"\n                       h\"00af\" : h\"03\"\n\n[Group One]\n(Group Test One) \"gp\\n\" : \"yes\"\n(Group Test Two) \"gq\\n\" : \"no\"\n";

#[test]
fn example_script_is_parsed_into_suites() {
    let suites = parse_text(EXAMPLE.to_string(), TestCaseSettings::default()).unwrap();
    assert_eq!(suites.len(), 2);

    let first = &suites[0];
    assert_eq!(first.name, "");
    assert_eq!(first.len(), 3);
    assert_eq!(first.test(0).name(), "Test One");
    assert_eq!(first.test(0).input(), "h\\n");
    assert_eq!(first.test(0).output(), "Help");
    assert_eq!(first.test(0).input_format, TextFormat::Text);
    assert_eq!(first.test(1).name(), "Test Two");
    assert_eq!(first.test(1).settings().repeat, Some(2));
    assert_eq!(first.test(1).input(), "00FF");
    assert_eq!(first.test(1).input_format, TextFormat::Hex);
    assert_eq!(first.test(1).output_format, TextFormat::Hex);
    assert_eq!(first.test(2).name(), "");
    assert_eq!(first.test(2).input(), "00af");
    assert_eq!(first.test(2).output(), "03");

    let group = &suites[1];
    assert_eq!(group.name, "Group One");
    assert_eq!(group.len(), 2);
    assert_eq!(group.test(1).input(), "gq\\n");
    assert_eq!(group.test(1).output(), "no");
}

#[test]
fn example_script_text_lists_every_test() {
    let suites = parse_text(EXAMPLE.to_string(), TestCaseSettings::default()).unwrap();
    assert_eq!(suites[0].to_string(), "Test One \"h\\n\"\nTest Two \"00FF\"\n00af\n");
    assert_eq!(
        suites[1].to_string(),
        "Group One:\n\tGroup Test One \"gp\\n\"\n\tGroup Test Two \"gq\\n\"\n"
    );
}

#[test]
fn group_settings_fill_test_settings() {
    let text = "[Slow, delay = 100ms, ignore-case = true, stop-on-failure = true]\n(A, repeat = 3) \"a\" : \"b\"\n(B, ignore-case = false) \"c\" : \"d\"\n";
    let suites = parse_text(text.to_string(), TestCaseSettings::default()).unwrap();
    assert_eq!(suites.len(), 1);
    let suite = &suites[0];
    assert_eq!(suite.name, "Slow");
    assert!(suite.settings.stop_on_failure);
    let a = suite.test(0).settings();
    assert_eq!(a.repeat, Some(3));
    assert_eq!(a.delay, Some(Duration::from_millis(100)));
    assert_eq!(a.ignore_case, Some(true));
    let b = suite.test(1).settings();
    assert_eq!(b.ignore_case, Some(false));
    assert_eq!(b.delay, Some(Duration::from_millis(100)));
}

#[test]
fn default_settings_reach_every_test() {
    let mut defaults = TestCaseSettings::default();
    defaults.timeout = Some(Duration::from_secs(2));
    defaults.repeat = Some(5);
    let suites = parse_text("\"a\" : \"b\"\n(B, repeat = 1) \"c\" : \"d\"\n".to_string(), defaults).unwrap();
    assert_eq!(suites.len(), 1);
    assert_eq!(suites[0].test(0).settings().timeout, Some(Duration::from_secs(2)));
    assert_eq!(suites[0].test(0).settings().repeat, Some(5));
    // a test's own setting wins over the default
    assert_eq!(suites[0].test(1).settings().repeat, Some(1));

    let suites = parse_text("[G]\n\"a\" : \"b\"\n".to_string(), defaults).unwrap();
    assert_eq!(suites[0].test(0).settings().timeout, Some(Duration::from_secs(2)));

    let suites = parse_text("(A) \"a\" : \"b\"\n".to_string(), defaults).unwrap();
    assert_eq!(suites.len(), 1);
    assert_eq!(suites[0].len(), 1);
    assert_eq!(suites[0].test(0).settings().repeat, Some(5));
}

#[test]
fn group_options_need_values() {
    let e = parse_text("[G, ignore-case]\n".to_string(), TestCaseSettings::default()).unwrap_err();
    assert!(matches!(e, Error::MissingOptionSeparator(1, _)));
}

#[test]
fn script_errors() {
    let e = parse_text("[]\n".to_string(), TestCaseSettings::default()).unwrap_err();
    assert!(matches!(e, Error::MissingGroupIdentifier(1, _)));

    let e = parse_text("\"a\" \"b\"\n".to_string(), TestCaseSettings::default()).unwrap_err();
    assert!(matches!(e, Error::MissingDirectionSeparator(1, _)));

    let e = parse_text("\"a\" :\n".to_string(), TestCaseSettings::default()).unwrap_err();
    assert!(matches!(e, Error::MissingContent(ref s, 1, _) if s == "output"));

    let e = parse_text(": \"a\"\n".to_string(), TestCaseSettings::default()).unwrap_err();
    assert!(matches!(e, Error::InvalidLineStart(1, _)));

    let e = parse_text("(A, colour = red) \"a\" : \"b\"\n".to_string(), TestCaseSettings::default())
        .unwrap_err();
    assert!(matches!(e, Error::UnknownTestOption(ref s, 1, _) if s == "colour"));

    let e = parse_text("(A, repeat = x) \"a\" : \"b\"\n".to_string(), TestCaseSettings::default())
        .unwrap_err();
    assert!(matches!(e, Error::InvalidOptionValue(ref s, 1, _) if s == "number"));

    let e = parse_text("\"a\" : \"(\"\n".to_string(), TestCaseSettings::default()).unwrap_err();
    assert!(matches!(e, Error::InvalidOutputContent(ref s, 1, _) if s == "("));

    let e = parse_text("\"a\" ; \"b\"\n".to_string(), TestCaseSettings::default()).unwrap_err();
    assert!(matches!(e, Error::IllegalToken(ref s, 1, _) if s == ";"));
}

#[test]
fn error_messages() {
    assert_eq!(Error::MissingDirectionSeparator(2, 7).message(), "Missing direction separator at 2:7");
    assert_eq!(
        Error::IllegalToken(";".to_string(), 1, 5).message(),
        "Illegal token ';' at 1:5"
    );
    assert_eq!(
        Error::InvalidOptionValue("number".to_string(), 3, 14).message(),
        "Invalid option type at 3:14. number type expected"
    );
    assert_eq!(Error::ReadFile.message(), "Unable to read file");
    assert_eq!(
        Error::MissingContent("input".to_string(), 4, 1).message(),
        "Missing test input at 4:1"
    );
}

#[test]
fn lexer_tokens() {
    let tokens = tokenize("(A) h\"0a\" : \"b\"\n".to_string()).unwrap();
    let types: Vec<TokenType> = tokens.iter().map(|t| t.token_type).collect();
    assert_eq!(
        types,
        vec![
            TokenType::LeftTestParenthesis,
            TokenType::Identifier,
            TokenType::RightTestParenthesis,
            TokenType::FormatSpecifier,
            TokenType::Content,
            TokenType::DirectionSeparator,
            TokenType::Content,
            TokenType::Newline,
            TokenType::EndOfFile,
        ]
    );
    assert_eq!(tokens[1].value, "A");
    assert_eq!(tokens[4].value, "0a");
    assert_eq!(tokens[6].value, "b");
}

#[test]
fn lexer_keeps_escapes_in_content() {
    let tokens = tokenize("\"a\\\"b\"\n".to_string()).unwrap();
    assert_eq!(tokens[0].token_type, TokenType::Content);
    assert_eq!(tokens[0].value, "a\\\"b");
}

#[test]
fn input_ending_in_an_identifier_cannot_be_read() {
    assert!(tokenize("abc".to_string()).is_none());
    assert!(try_parse_text("[G".to_string(), TestCaseSettings::default()).is_none());
    assert!(try_parse_text("[G]\n".to_string(), TestCaseSettings::default()).is_some());
}

#[test]
fn time_and_boolean_values() {
    assert_eq!(get_time_value("2s"), Some(Duration::from_secs(2)));
    // a bare number is a number of milliseconds
    assert_eq!(get_time_value("7"), Some(Duration::from_millis(7)));
    assert_eq!(get_time_value("250ms"), Some(Duration::from_millis(250)));
    assert_eq!(get_time_value("5us"), Some(Duration::from_micros(5)));
    assert_eq!(get_time_value("5µs"), Some(Duration::from_micros(5)));
    assert_eq!(get_time_value("1x"), None);
    assert_eq!(get_time_value("ms"), None);
    assert_eq!(get_time_value("1s2"), None);
    assert_eq!(get_time_value(""), None);
    assert_eq!(get_boolean_value("TRUE"), Some(true));
    assert_eq!(get_boolean_value("false"), Some(false));
    assert_eq!(get_boolean_value("yes"), None);
}

#[test]
fn equal_times_in_different_units() {
    assert_eq!(get_time_value("1s"), get_time_value("1000ms"));
    assert_eq!(get_time_value("2ms"), get_time_value("2000us"));
    assert_eq!(get_time_value("3"), get_time_value("3000µs"));
}
