//! Failure-related data models (`/api/builds/{id}/gradle-failures`).
use crate::text::{concat3, copy};
use vstd::prelude::*;

verus! {

/// Build and test failures from `/api/builds/{id}/gradle-failures`.
#[derive(Debug)]
pub struct GradleFailures {
    /// List of build failures.
    pub build_failures: Vec<GradleBuildFailure>,
    /// List of test failures. Absent if tests are not captured.
    pub test_failures: Option<Vec<TestFailure>>,
}

/// A build failure.
#[derive(Debug)]
pub struct GradleBuildFailure {
    /// Failure header (e.g., "Task :compileJava FAILED").
    pub header: String,
    /// Failure message.
    pub message: String,
    /// Relevant console log output.
    pub relevant_log: Option<String>,
    /// Failure location (build script or source file).
    pub location: Option<String>,
    /// The task path associated with this failure.
    pub task_path: Option<String>,
    /// The stacktrace of this failure.
    pub stacktrace: Option<String>,
}

/// A test failure.
#[derive(Debug)]
pub struct TestFailure {
    /// Information to uniquely identify the test.
    pub id: TestId,
    /// Failure message.
    pub message: String,
    /// The failure stacktrace.
    pub stacktrace: Option<String>,
}

/// Information to uniquely identify a test.
#[derive(Debug)]
pub struct TestId {
    /// Work unit name that executed the test.
    pub work_unit_name: String,
    /// Suite name of the test (usually the class name).
    pub suite_name: String,
    /// Name of the test method. Absent when the test is a suite.
    pub test_name: Option<String>,
}

/// `suite > test`, or the suite alone when there is no test name.
pub open spec fn qualified_test_name(suite: Seq<char>, test: Option<String>) -> Seq<char> {
    match test {
        Some(name) => suite + " > "@ + name@,
        None => suite,
    }
}

impl TestId {
    /// Returns a display name for the test.
    pub fn display_name(&self) -> (r: String)
        ensures
            r@ == qualified_test_name(self.suite_name@, self.test_name),
    {
        match &self.test_name {
            Some(name) => concat3(self.suite_name.as_str(), " > ", name.as_str()),
            None => copy(&self.suite_name),
        }
    }
}

} // verus!
