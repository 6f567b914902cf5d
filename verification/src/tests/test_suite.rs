//! A group of tests with common settings.

use vstd::prelude::*;
use crate::chars::push_chars;
use crate::stdlib::string_push;
use crate::tests::test_case::{
    TestAction, TestCase, TestCaseSettings, TestCaseView, TestEvent, TestRun, answers,
    merged_weak, no_test_settings, received_text_valid, run_started, start_view, test_report,
    test_step, with_settings,
};
use crate::utils::TextFormat;

verus! {

/// Settings for running a test suite.
#[derive(Debug, Clone, Copy)]
pub struct TestSuiteSettings {
    /// If set the test suite will stop on first test failing.
    pub stop_on_failure: bool,
    /// If set the test suites will not be run.
    pub disabled: bool,
}

impl Default for TestSuiteSettings {
    fn default() -> (s: TestSuiteSettings)
        ensures
            !s.stop_on_failure,
            !s.disabled,
    {
        TestSuiteSettings { stop_on_failure: false, disabled: false }
    }
}

/// Test suite representing a group of tests.
#[derive(Debug)]
pub struct TestSuite {
    /// Name of the test group.
    pub name: String,
    /// Settings to use for the test suite.
    pub settings: TestSuiteSettings,
    /// Test settings to use for all tests.
    pub test_settings: TestCaseSettings,
    tests: Vec<TestCase>,
}

/// Whether a test counts among the successful (`success`) or the failed
/// tests: it has run (it has a result or an error), and it succeeded or was
/// allowed to fail exactly when `success` holds.
pub open spec fn counted_as(t: TestCaseView, success: bool) -> bool {
    (t.successful is Some || t.error is Some) && ((t.successful == Some(true)
        || t.settings.allow_failure == Some(true)) == success)
}

pub open spec fn count_tests(tests: Seq<TestCaseView>, success: bool) -> nat
    decreases tests.len(),
{
    if tests.len() == 0 {
        0
    } else {
        count_tests(tests.drop_last(), success) + if counted_as(tests.last(), success) {
            1nat
        } else {
            0nat
        }
    }
}

/// Number of tests that have run.
pub open spec fn count_run(tests: Seq<TestCaseView>) -> nat
    decreases tests.len(),
{
    if tests.len() == 0 {
        0
    } else {
        count_run(tests.drop_last()) + if tests.last().successful is Some
            || tests.last().error is Some {
            1nat
        } else {
            0nat
        }
    }
}

/// Every test that has run counts either as successful or as failed, and
/// no other test counts.
pub proof fn lemma_failed_plus_successful(tests: Seq<TestCaseView>)
    ensures
        count_tests(tests, true) + count_tests(tests, false) == count_run(tests),
        count_run(tests) <= tests.len(),
    decreases tests.len(),
{
    if tests.len() > 0 {
        lemma_failed_plus_successful(tests.drop_last());
    }
}

/// Title line of a suite.
pub open spec fn suite_title(name: Seq<char>, disabled: bool) -> Seq<char> {
    if disabled {
        name + ": Disabled"@
    } else {
        name + ":"@
    }
}

/// Report lines of tests, each ended by a line feed and, under a named
/// suite, started with a tab.
pub open spec fn tests_text(tests: Seq<TestCaseView>, indent: bool) -> Seq<char>
    decreases tests.len(),
{
    if tests.len() == 0 {
        Seq::empty()
    } else {
        tests_text(tests.drop_last(), indent) + (if indent {
            seq!['\t']
        } else {
            Seq::empty()
        }) + test_report(tests.last()) + seq!['\n']
    }
}

/// Text of a suite: the title line when it has a name, then its tests.
pub open spec fn suite_text(name: Seq<char>, disabled: bool, tests: Seq<TestCaseView>) -> Seq<
    char,
> {
    if name.len() > 0 {
        suite_title(name, disabled) + seq!['\n'] + tests_text(tests, true)
    } else {
        tests_text(tests, false)
    }
}

/// What a suite is: its name, settings, the settings its tests default to,
/// and its tests in order.
pub struct SuiteView {
    pub name: Seq<char>,
    pub settings: TestSuiteSettings,
    pub test_settings: TestCaseSettings,
    pub tests: Seq<TestCaseView>,
}

impl View for TestSuite {
    type V = SuiteView;

    closed spec fn view(&self) -> SuiteView {
        SuiteView {
            name: self.name@,
            settings: self.settings,
            test_settings: self.test_settings,
            tests: self.tests@.map_values(|t: TestCase| t@),
        }
    }
}

impl TestSuite {
    /// The name of the suite.
    pub open spec fn name_view(&self) -> Seq<char> {
        self@.name
    }

    /// The settings of the suite.
    pub open spec fn settings_view(&self) -> TestSuiteSettings {
        self@.settings
    }

    /// The test settings of the suite.
    pub open spec fn test_settings_view(&self) -> TestCaseSettings {
        self@.test_settings
    }

    /// The tests of the suite, in the order they were added.
    pub open spec fn test_list(&self) -> Seq<TestCaseView> {
        self@.tests
    }

    /// Create a new test suite.
    pub fn new(name: String) -> (s: TestSuite)
        ensures
            s.name_view() == name@,
            !s.settings_view().stop_on_failure,
            !s.settings_view().disabled,
            s.test_settings_view() == no_test_settings(),
            s.test_list() == Seq::<TestCaseView>::empty(),
    {
        let s = TestSuite {
            name,
            settings: TestSuiteSettings::default(),
            test_settings: TestCaseSettings::default(),
            tests: Vec::new(),
        };
        assert(s.test_list() =~= Seq::<TestCaseView>::empty());
        s
    }

    /// Create a new test suite with given suite and test settings.
    pub fn new_with_settings(
        name: String,
        settings: TestSuiteSettings,
        test_settings: TestCaseSettings,
    ) -> (s: TestSuite)
        ensures
            s.name_view() == name@,
            s.settings_view() == settings,
            s.test_settings_view() == test_settings,
            s.test_list() == Seq::<TestCaseView>::empty(),
    {
        let s = TestSuite { name, settings, test_settings, tests: Vec::new() };
        assert(s.test_list() =~= Seq::<TestCaseView>::empty());
        s
    }

    /// Add a test to the suite.
    ///
    /// Tests added to the suite will be run when the suite is executed. The
    /// suite's test settings fill the settings the test does not set.
    pub fn push(&mut self, test: TestCase)
        ensures
            final(self).name_view() == old(self).name_view(),
            final(self).settings_view() == old(self).settings_view(),
            final(self).test_settings_view() == old(self).test_settings_view(),
            final(self).test_list() == old(self).test_list().push(
                with_settings(test@, merged_weak(test@.settings, old(self).test_settings_view())),
            ),
    {
        let mut test = test;
        test.merge_settings_weak(&self.test_settings);
        self.tests.push(test);
        assert(self.test_list() =~= old(self).test_list().push(test@));
    }

    /// Get the number of tests belonging to the test suite.
    pub fn len(&self) -> (n: usize)
        ensures
            n == self.test_list().len(),
    {
        self.tests.len()
    }

    /// Check if any test belongs to the test suite.
    pub fn is_empty(&self) -> (r: bool)
        ensures
            r == (self.test_list().len() == 0),
    {
        self.tests.len() == 0
    }

    /// The test at a position.
    pub fn test(&self, index: usize) -> (t: &TestCase)
        requires
            index < self.test_list().len(),
        ensures
            t@ == self.test_list()[index as int],
    {
        &self.tests[index]
    }

    /// Get the number of failed tests.
    ///
    /// Will return 0 if not run before.
    pub fn failed(&self) -> (n: usize)
        ensures
            n == count_tests(self.test_list(), false),
    {
        self.count(false)
    }

    /// Get the number of successful tests.
    ///
    /// Will return 0 if not run before.
    pub fn successful(&self) -> (n: usize)
        ensures
            n == count_tests(self.test_list(), true),
    {
        self.count(true)
    }

    fn count(&self, success: bool) -> (n: usize)
        ensures
            n == count_tests(self.test_list(), success),
    {
        let mut count: usize = 0;
        let mut i: usize = 0;
        while i < self.tests.len()
            invariant
                i <= self.tests.len(),
                count == count_tests(self.test_list().take(i as int), success),
                count <= i,
            decreases self.tests.len() - i,
        {
            let test = &self.tests[i];
            assert(self.test_list().take(i + 1).drop_last() =~= self.test_list().take(i as int));
            assert(self.test_list()[i as int] == test@);
            let has_run = test.is_successful().is_some() || test.error().is_some();
            if has_run {
                let succeeded = match test.is_successful() {
                    Some(b) => b,
                    None => false,
                };
                let allowed = match test.settings().allow_failure {
                    Some(b) => b,
                    None => false,
                };
                if (succeeded || allowed) == success {
                    count = count + 1;
                }
            }
            i = i + 1;
        }
        assert(self.test_list().take(i as int) =~= self.test_list());
        count
    }

    /// The title line of the suite.
    pub fn title(&self) -> (r: String)
        ensures
            r@ == suite_title(self.name_view(), self.settings_view().disabled),
    {
        let mut r = self.name.clone();
        if self.settings.disabled {
            push_chars(&mut r, ": Disabled");
        } else {
            push_chars(&mut r, ":");
        }
        r
    }

    /// The text of the suite: its title and one line per test.
    pub fn to_string(&self) -> (r: String)
        ensures
            r@ == suite_text(self.name_view(), self.settings_view().disabled, self.test_list()),
    {
        let mut result = String::new();
        let show_group = self.name.as_str().unicode_len() > 0;
        if show_group {
            result = self.title();
            string_push(&mut result, '\n');
        }
        let ghost head = result@;
        let mut i: usize = 0;
        while i < self.tests.len()
            invariant
                i <= self.tests.len(),
                show_group == (self.name@.len() > 0),
                head == (if show_group {
                    suite_title(self.name@, self.settings.disabled) + seq!['\n']
                } else {
                    Seq::<char>::empty()
                }),
                result@ == head + tests_text(self.test_list().take(i as int), show_group),
            decreases self.tests.len() - i,
        {
            assert(self.test_list().take(i + 1).drop_last() =~= self.test_list().take(i as int));
            assert(self.test_list()[i as int] == self.tests[i as int]@);
            let ghost before = result@;
            if show_group {
                string_push(&mut result, '\t');
            }
            let line = self.tests[i].to_string();
            push_chars(&mut result, line.as_str());
            string_push(&mut result, '\n');
            assert(result@ =~= head + tests_text(self.test_list().take(i + 1), show_group));
            i = i + 1;
        }
        assert(self.test_list().take(i as int) =~= self.test_list());
        assert(Seq::<char>::empty() + tests_text(self.test_list(), false) =~= tests_text(
            self.test_list(),
            false,
        ));
        result
    }
}

impl TestSuite {
    /// Start a run of the test at a position (see `TestCase::start_run`).
    pub fn start_test(&mut self, index: usize) -> (res: std::result::Result<
        (TestRun, TestAction),
        String,
    >)
        requires
            index < old(self).test_list().len(),
            old(self).test_list()[index as int].settings.repeat != Some(u32::MAX),
        ensures
            final(self).name_view() == old(self).name_view(),
            final(self).settings_view() == old(self).settings_view(),
            final(self).test_settings_view() == old(self).test_settings_view(),
            final(self).test_list().len() == old(self).test_list().len(),
            forall|j: int|
                0 <= j < old(self).test_list().len() && j != index ==> final(self).test_list()[j]
                    == old(self).test_list()[j],
            run_started(
                old(self).test_list()[index as int],
                final(self).test_list()[index as int],
                start_view(res),
            ),
    {
        let res = self.tests[index].start_run();
        assert(self.test_list() =~= old(self).test_list().update(
            index as int,
            self.tests@[index as int]@,
        ));
        res
    }

    /// Take the result of the last action of a run of the test at a
    /// position and decide the next one (see `TestCase::advance`).
    pub fn advance_test(&mut self, index: usize, run: &mut TestRun, event: TestEvent) -> (action:
        TestAction)
        requires
            index < old(self).test_list().len(),
            answers(old(run)@, event),
            old(self).test_list()[index as int].output_format == TextFormat::Text
                ==> received_text_valid(event),
        ensures
            final(self).name_view() == old(self).name_view(),
            final(self).settings_view() == old(self).settings_view(),
            final(self).test_settings_view() == old(self).test_settings_view(),
            final(self).test_list() == old(self).test_list().update(
                index as int,
                test_step(old(self).test_list()[index as int], old(run)@, event).0,
            ),
            final(run)@ == test_step(old(self).test_list()[index as int], old(run)@, event).1,
            action@ == test_step(old(self).test_list()[index as int], old(run)@, event).2,
    {
        let action = self.tests[index].advance(run, event);
        assert(self.test_list() =~= old(self).test_list().update(
            index as int,
            self.tests@[index as int]@,
        ));
        action
    }

    /// Whether the suite stops after a test with the given result: only a
    /// failed test stops it, and only when it stops on failure.
    pub fn stops_after(&self, passed: bool) -> (r: bool)
        ensures
            r == (self.settings_view().stop_on_failure && !passed),
    {
        self.settings.stop_on_failure && !passed
    }

    /// Whether the suite shows its title (and indents its tests) when run:
    /// when it has a name and the output is not quiet.
    pub fn shows_title(&self, quiet: bool) -> (r: bool)
        ensures
            r == (self.name_view().len() > 0 && !quiet),
    {
        self.name.as_str().unicode_len() > 0 && !quiet
    }

    /// Whether the line of a test is printed when the suite runs: always
    /// unless quiet, and for a test that did not pass even then.
    pub fn reports_test(quiet: bool, passed: bool) -> (r: bool)
        ensures
            r == (!quiet || !passed),
    {
        !quiet || !passed
    }
}

} // verus!
