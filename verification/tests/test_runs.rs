use serial_unit_testing::tests::test_case::{
    TestAction, TestCase, TestCaseSettings, TestEvent, TestRun,
};
use serial_unit_testing::tests::test_suite::{TestSuite, TestSuiteSettings};
use serial_unit_testing::utils::TextFormat;
use std::time::Duration;

fn start(test: &mut TestCase) -> TestRun {
    match test.start_run() {
        Ok((run, action)) => {
            assert!(matches!(action, TestAction::Write { delay: None, .. }));
            run
        }
        Err(e) => panic!("run did not start: {}", e),
    }
}

fn received(text: &str) -> TestEvent {
    TestEvent::Received(text.as_bytes().to_vec())
}

#[test]
fn response_matching_in_full_passes() {
    let mut test = TestCase::new("A".to_string(), "h\\n".to_string(), "Help".to_string());
    let mut run = start(&mut test);
    assert_eq!(run.input(), "h\n");
    assert!(matches!(test.advance(&mut run, TestEvent::Written), TestAction::Read { timeout: None }));
    assert!(matches!(test.advance(&mut run, received("Help")), TestAction::Done(Ok(true))));
    assert_eq!(test.is_successful(), Some(true));
    assert_eq!(test.response(), Some("Help".to_string()));
    assert_eq!(test.error(), None);
    assert_eq!(test.to_string(), "A \"h\\n\"...OK");
}

#[test]
fn response_read_in_chunks() {
    let mut test = TestCase::new(String::new(), "x".to_string(), "Help".to_string());
    let mut run = start(&mut test);
    test.advance(&mut run, TestEvent::Written);
    assert!(matches!(test.advance(&mut run, received("He")), TestAction::Read { .. }));
    assert!(matches!(test.advance(&mut run, received("lp")), TestAction::Done(Ok(true))));
    assert_eq!(test.to_string(), "x...OK");
}

#[test]
fn response_with_extra_text_fails() {
    let mut test = TestCase::new("A".to_string(), "x".to_string(), "OK".to_string());
    let mut run = start(&mut test);
    test.advance(&mut run, TestEvent::Written);
    assert!(matches!(test.advance(&mut run, received("NOK")), TestAction::Done(Ok(false))));
    assert_eq!(test.is_successful(), Some(false));
    assert_eq!(
        test.to_string(),
        "A \"x\"...Failed, expected 'OK' but received 'NOK'"
    );
}

#[test]
fn regular_expression_output() {
    let mut test = TestCase::new("A".to_string(), "x".to_string(), "v[0-9]+".to_string());
    let mut run = start(&mut test);
    test.advance(&mut run, TestEvent::Written);
    assert!(matches!(test.advance(&mut run, received("v12")), TestAction::Done(Ok(true))));
}

#[test]
fn timeout_without_response_is_an_error() {
    let mut test = TestCase::new("A".to_string(), "x".to_string(), "OK".to_string());
    let mut run = start(&mut test);
    test.advance(&mut run, TestEvent::Written);
    match test.advance(&mut run, TestEvent::TimedOut) {
        TestAction::Done(Err(e)) => assert_eq!(e, "Connection timed out"),
        _ => panic!("timeout must end the run with an error"),
    }
    assert_eq!(test.error(), Some("Connection timed out".to_string()));
    assert_eq!(test.is_successful(), None);
    assert_eq!(test.to_string(), "A \"x\"...Error: Connection timed out");
}

#[test]
fn timeout_after_partial_response_ends_reading() {
    let mut test = TestCase::new("A".to_string(), "x".to_string(), "Help".to_string());
    let mut run = start(&mut test);
    test.advance(&mut run, TestEvent::Written);
    test.advance(&mut run, received("He"));
    assert!(matches!(test.advance(&mut run, TestEvent::TimedOut), TestAction::Done(Ok(false))));
    assert_eq!(test.response(), Some("He".to_string()));
}

#[test]
fn write_and_read_failures() {
    let mut test = TestCase::new("A".to_string(), "x".to_string(), "OK".to_string());
    let mut run = start(&mut test);
    match test.advance(&mut run, TestEvent::WriteFailed("broken pipe".to_string())) {
        TestAction::Done(Err(e)) => assert_eq!(e, "Unable to write to serial port: broken pipe"),
        _ => panic!("a failed write must end the run"),
    }

    let mut test = TestCase::new("A".to_string(), "x".to_string(), "OK".to_string());
    let mut run = start(&mut test);
    test.advance(&mut run, TestEvent::Written);
    match test.advance(&mut run, TestEvent::ReadFailed("no device".to_string())) {
        TestAction::Done(Err(e)) => assert_eq!(e, "Error while running test no device"),
        _ => panic!("a failed read must end the run"),
    }
}

#[test]
fn repeated_test_writes_again_after_each_match() {
    let mut test = TestCase::new("R".to_string(), "x".to_string(), "OK".to_string());
    let mut settings = TestCaseSettings::default();
    settings.repeat = Some(1);
    settings.delay = Some(Duration::from_millis(5));
    test.set_settings(settings);
    let mut run = match test.start_run() {
        Ok((run, TestAction::Write { delay, .. })) => {
            assert_eq!(delay, Some(Duration::from_millis(5)));
            run
        }
        _ => panic!("run did not start"),
    };
    test.advance(&mut run, TestEvent::Written);
    assert!(matches!(test.advance(&mut run, received("OK")), TestAction::Write { .. }));
    test.advance(&mut run, TestEvent::Written);
    assert!(matches!(test.advance(&mut run, received("OK")), TestAction::Done(Ok(true))));
    assert_eq!(test.to_string(), "R \"x\"...OK (1x)");
}

#[test]
fn repeated_test_stops_at_first_mismatch() {
    let mut test = TestCase::new("R".to_string(), "x".to_string(), "OK".to_string());
    let mut settings = TestCaseSettings::default();
    settings.repeat = Some(5);
    test.set_settings(settings);
    let mut run = start(&mut test);
    test.advance(&mut run, TestEvent::Written);
    // a response that never matches is read until the timeout
    assert!(matches!(test.advance(&mut run, received("NO")), TestAction::Read { .. }));
    assert!(matches!(test.advance(&mut run, TestEvent::TimedOut), TestAction::Done(Ok(false))));
}

#[test]
fn invalid_regular_expression_fails_the_run() {
    let mut test = TestCase::new("A".to_string(), "x".to_string(), "(".to_string());
    match test.start_run() {
        Err(e) => assert_eq!(e, "Error in regex"),
        Ok(_) => panic!("an invalid pattern must not start"),
    }
    assert_eq!(test.error(), Some("Error in regex".to_string()));
}

#[test]
fn hex_output_is_compared_in_upper_case() {
    let mut test = TestCase::new("H".to_string(), "0a".to_string(), "0a".to_string());
    test.set_formats(TextFormat::Hex, TextFormat::Hex);
    let mut run = start(&mut test);
    assert_eq!(run.input(), "0a");
    test.advance(&mut run, TestEvent::Written);
    assert!(matches!(
        test.advance(&mut run, TestEvent::Received(vec![0x0a])),
        TestAction::Done(Ok(true))
    ));
    assert_eq!(test.response(), Some("0A".to_string()));
}

#[test]
fn ignore_case_compares_in_lower_case() {
    let mut test = TestCase::new("C".to_string(), "x".to_string(), "OK".to_string());
    let mut settings = TestCaseSettings::default();
    settings.ignore_case = Some(true);
    test.set_settings(settings);
    let mut run = start(&mut test);
    test.advance(&mut run, TestEvent::Written);
    assert!(matches!(test.advance(&mut run, received("Ok")), TestAction::Done(Ok(true))));
    assert_eq!(test.response(), Some("ok".to_string()));
}

#[test]
fn verbose_and_allowed_failure_reports() {
    let mut test = TestCase::new("V".to_string(), "x".to_string(), "OK".to_string());
    let mut settings = TestCaseSettings::default();
    settings.verbose = Some(true);
    settings.allow_failure = Some(true);
    test.set_settings(settings);
    let mut run = start(&mut test);
    test.advance(&mut run, TestEvent::Written);
    test.advance(&mut run, received("NO"));
    test.advance(&mut run, TestEvent::TimedOut);
    assert_eq!(test.to_string(), "V \"x\"...OK (failed), response: 'NO'");
}

#[test]
fn descaping_input() {
    let test = TestCase::new(String::new(), String::new(), String::new());
    assert_eq!(test.descape_string("a\\tb\\r\\n"), "a\tb\r\n");
    assert_eq!(test.descape_string("\\\\x\\q"), "\\xq");
    assert_eq!(test.descape_string("end\\"), "end");
}

#[test]
fn weak_merge_keeps_own_settings() {
    let mut own = TestCaseSettings::default();
    own.repeat = Some(2);
    let mut other = TestCaseSettings::default();
    other.repeat = Some(9);
    other.timeout = Some(Duration::from_secs(1));
    own.merge_weak(&other);
    assert_eq!(own.repeat, Some(2));
    assert_eq!(own.timeout, Some(Duration::from_secs(1)));
    let before = own;
    own.merge_weak(&other);
    assert_eq!(own.repeat, before.repeat);
    assert_eq!(own.timeout, before.timeout);
    own.merge_weak(&TestCaseSettings::default());
    assert_eq!(own.repeat, Some(2));
}

fn run_to_end(suite: &mut TestSuite, index: usize, response: &str) -> bool {
    let (mut run, _) = suite.start_test(index).unwrap();
    suite.advance_test(index, &mut run, TestEvent::Written);
    let action = match suite.advance_test(index, &mut run, received(response)) {
        TestAction::Read { .. } => suite.advance_test(index, &mut run, TestEvent::TimedOut),
        other => other,
    };
    match action {
        TestAction::Done(Ok(b)) => b,
        _ => panic!("a response and a timeout end the run"),
    }
}

#[test]
fn suite_counts_results() {
    let mut test_settings = TestCaseSettings::default();
    test_settings.timeout = Some(Duration::from_millis(50));
    let mut suite = TestSuite::new_with_settings(
        "G".to_string(),
        TestSuiteSettings { stop_on_failure: true, disabled: false },
        test_settings,
    );
    suite.push(TestCase::new("a".to_string(), "1".to_string(), "one".to_string()));
    suite.push(TestCase::new("b".to_string(), "2".to_string(), "two".to_string()));
    let mut allowed = TestCase::new("c".to_string(), "3".to_string(), "three".to_string());
    let mut settings = TestCaseSettings::default();
    settings.allow_failure = Some(true);
    allowed.set_settings(settings);
    suite.push(allowed);
    suite.push(TestCase::new("d".to_string(), "4".to_string(), "four".to_string()));

    assert_eq!(suite.len(), 4);
    assert_eq!(suite.test(0).settings().timeout, Some(Duration::from_millis(50)));
    assert_eq!(suite.successful(), 0);
    assert_eq!(suite.failed(), 0);

    assert!(run_to_end(&mut suite, 0, "one"));
    assert!(!suite.stops_after(true));
    assert!(!run_to_end(&mut suite, 1, "zwei"));
    assert!(suite.stops_after(false));
    assert!(!run_to_end(&mut suite, 2, "drei"));

    // the allowed failure counts as successful, the test not run counts not at all
    assert_eq!(suite.successful(), 2);
    assert_eq!(suite.failed(), 1);
    assert_eq!(suite.successful() + suite.failed(), 3);
    assert_eq!(
        suite.to_string(),
        "G:\n\ta \"1\"...OK\n\tb \"2\"...Failed, expected 'two' but received 'zwei'\n\tc \"3\"...OK (failed)\n\td \"4\"\n"
    );
}

#[test]
fn suite_title_and_output_rules() {
    let mut suite = TestSuite::new("Named".to_string());
    assert_eq!(suite.title(), "Named:");
    assert!(suite.shows_title(false));
    assert!(!suite.shows_title(true));
    suite.settings.disabled = true;
    assert_eq!(suite.title(), "Named: Disabled");
    assert!(!TestSuite::new(String::new()).shows_title(false));
    assert!(TestSuite::reports_test(false, true));
    assert!(TestSuite::reports_test(true, false));
    assert!(!TestSuite::reports_test(true, true));
    assert!(suite.is_empty());
}
