//! Tests and test suites read from scripts.

pub mod test_suite;

pub use test_case::{TestCase, TestCaseSettings};
pub use test_suite::{TestSuite, TestSuiteSettings};
