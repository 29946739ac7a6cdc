//! Output records for the CLI: what the JSON and human formatters print.
use crate::client::GradleBuildDetails;
use crate::models::deprecations::{GradleDeprecationEntry, GradleDeprecations};
use crate::models::failures::GradleFailures;
use crate::models::build_info::GradleAttributes;
use crate::models::task_execution::{
    lemma_outcome_kind_by_text, no_work_text, Float64, GradleBuildCachePerformance,
    TaskExecutionEntry,
};
use crate::models::tests::{flat_views, flatten_units, FlatCase, GradleTests};
use crate::text::{concat3, copy, i64_text, int_text, text};
use chrono::TimeZone;
use vstd::prelude::*;

pub mod dependencies;
pub mod format;
pub mod human;
pub mod network;

pub use dependencies::{dependencies_match, DependenciesOutput, DependencyGroupOutput, DependencyOutput};
pub use format::{format_bytes, format_duration, format_timestamp};
pub use network::{network_matches, NetworkActivityEntryOutput, NetworkActivityOutput};

verus! {

/// Combined output model for all build information.
#[derive(Debug)]
pub struct BuildOutput {
    /// The Build Scan ID.
    pub build_id: String,
    /// URL to view the build scan in the web UI.
    pub build_scan_url: String,
    /// Build result information (if requested).
    pub result: Option<ResultOutput>,
    /// Deprecation information (if requested and captured).
    pub deprecations: Option<Vec<DeprecationOutput>>,
    /// Failure information (if requested).
    pub failures: Option<FailuresOutput>,
    /// Test execution results (if requested and available).
    pub tests: Option<TestsOutput>,
    /// Task execution / build cache performance data (if requested).
    pub task_execution: Option<TaskExecutionOutput>,
    /// Network activity (if requested and available).
    pub network_activity: Option<NetworkActivityOutput>,
    /// Resolved dependencies (if requested and available).
    pub dependencies: Option<DependenciesOutput>,
}

/// Build result output.
#[derive(Debug)]
pub struct ResultOutput {
    /// Build outcome: "success" or "failed".
    pub outcome: String,
    /// Whether the build failed.
    pub has_failed: bool,
    /// Whether there were verification failures.
    pub has_verification_failure: Option<bool>,
    /// Whether there were non-verification failures.
    pub has_non_verification_failure: Option<bool>,
    /// Root project name.
    pub project_name: Option<String>,
    /// Gradle version.
    pub gradle_version: String,
    /// Build duration in milliseconds.
    pub build_duration_ms: i64,
    /// Build start time in RFC 3339 format (the raw milliseconds when out of range).
    pub build_start_time: String,
    /// Requested tasks.
    pub requested_tasks: Vec<String>,
    /// Build tags.
    pub tags: Vec<String>,
    /// Username that ran the build.
    pub username: Option<String>,
    /// Hostname where the build ran.
    pub hostname: Option<String>,
}

/// Deprecation output.
#[derive(Debug)]
pub struct DeprecationOutput {
    /// Description of the deprecation.
    pub summary: String,
    /// When the feature will be removed.
    pub removal_details: String,
    /// Advice on how to fix.
    pub advice: Option<String>,
    /// Documentation URL.
    pub documentation_url: Option<String>,
    /// Number of usages.
    pub usage_count: usize,
    /// Usage details.
    pub usages: Vec<DeprecationUsageOutput>,
}

/// Deprecation usage output.
#[derive(Debug)]
pub struct DeprecationUsageOutput {
    /// Owner type (plugin, script, task, unknown).
    pub owner_type: String,
    /// Location of the usage.
    pub location: Option<String>,
    /// Contextual advice.
    pub contextual_advice: Option<String>,
}

/// Failures output.
#[derive(Debug)]
pub struct FailuresOutput {
    /// Build failures.
    pub build_failures: Vec<BuildFailureOutput>,
    /// Test failures.
    pub test_failures: Option<Vec<TestFailureOutput>>,
}

/// Build failure output.
#[derive(Debug)]
pub struct BuildFailureOutput {
    /// Failure header.
    pub header: String,
    /// Failure message.
    pub message: String,
    /// Task path.
    pub task_path: Option<String>,
    /// Location in code.
    pub location: Option<String>,
    /// Stacktrace (only included with verbose).
    pub stacktrace: Option<String>,
}

/// Test failure output.
#[derive(Debug)]
pub struct TestFailureOutput {
    /// Test class name.
    pub class_name: String,
    /// Test method name.
    pub test_name: Option<String>,
    /// Failure message.
    pub message: String,
    /// Stacktrace (only included with verbose).
    pub stacktrace: Option<String>,
}

/// Tests output.
#[derive(Debug)]
pub struct TestsOutput {
    /// Summary statistics.
    pub summary: TestSummaryOutput,
    /// Individual test results.
    pub tests: Vec<TestExecutionOutput>,
}

/// Summary statistics for test execution.
///
/// The pass rate (`passed / total` as a percentage) is a floating-point value
/// and is computed where it is printed.
#[derive(Debug, Clone, Copy, PartialEq, Eq, Structural)]
pub struct TestSummaryOutput {
    /// Total number of tests.
    pub total: i32,
    /// Number of passed tests.
    pub passed: i32,
    /// Number of failed tests.
    pub failed: i32,
    /// Number of skipped tests.
    pub skipped: i32,
    /// Number of flaky tests.
    pub flaky: i32,
    /// Number of not-selected tests.
    pub not_selected: i32,
    /// Total duration in milliseconds.
    pub duration_ms: i64,
}

/// Individual test execution output.
#[derive(Debug)]
pub struct TestExecutionOutput {
    /// The work unit that executed the test (e.g., ":test", ":app:test").
    pub work_unit: String,
    /// The fully qualified test container name (e.g., "org.example.MyTest").
    pub class_name: String,
    /// The test method name.
    pub test_name: Option<String>,
    /// Test outcome: passed, failed, skipped, flaky, notSelected.
    pub outcome: String,
    /// Test duration in milliseconds.
    pub duration_ms: i64,
    /// Number of executions (>1 indicates retries).
    pub execution_count: usize,
}

/// Task execution / build cache performance output.
#[derive(Debug)]
pub struct TaskExecutionOutput {
    /// Summary of build timing.
    pub summary: TaskExecutionSummaryOutput,
    /// Avoidance savings summary.
    pub avoidance_savings: AvoidanceSavingsOutput,
    /// Per-task execution entries.
    pub tasks: Vec<TaskEntryOutput>,
}

/// Summary of build cache performance timing.
#[derive(Debug, Clone, Copy, PartialEq, Eq, Structural)]
pub struct TaskExecutionSummaryOutput {
    /// Total build time in milliseconds.
    pub build_time_ms: i64,
    /// Effective task execution time in milliseconds.
    pub effective_task_execution_time_ms: i64,
    /// Serial task execution time in milliseconds.
    pub serial_task_execution_time_ms: i64,
    /// Serialization factor.
    pub serialization_factor: Float64,
    /// Total number of tasks.
    pub total_tasks: usize,
    /// Number of avoided tasks (up-to-date + cached).
    pub avoided_tasks: usize,
    /// Number of executed tasks.
    pub executed_tasks: usize,
}

/// Avoidance savings output.
#[derive(Debug, Clone, Copy, PartialEq, Eq, Structural)]
pub struct AvoidanceSavingsOutput {
    /// Total avoidance savings in milliseconds.
    pub total_ms: i64,
    /// Avoidance savings ratio (0.0 to 1.0).
    pub ratio: Float64,
    /// Savings from up-to-date avoidance in milliseconds.
    pub up_to_date_ms: i64,
    /// Savings from local build cache in milliseconds.
    pub local_build_cache_ms: i64,
    /// Savings from remote build cache in milliseconds.
    pub remote_build_cache_ms: i64,
}

/// Per-task execution entry output.
#[derive(Debug)]
pub struct TaskEntryOutput {
    /// Gradle task path.
    pub task_path: String,
    /// Avoidance outcome.
    pub outcome: String,
    /// Task duration in milliseconds.
    pub duration_ms: i64,
    /// Whether the task failed.
    pub has_failed: bool,
    /// Fully qualified task type.
    pub task_type: Option<String>,
    /// Cache key hash.
    pub cache_key: Option<String>,
    /// Cache artifact size in bytes.
    pub cache_artifact_size: Option<i64>,
    /// Non-cacheability reason.
    pub non_cacheability_reason: Option<String>,
}

// ---------------------------------------------------------------------------
// Trusted: chrono.
// ---------------------------------------------------------------------------

/// What chrono's RFC 3339 rendering of a UTC timestamp (in milliseconds) is,
/// or `None` when the timestamp is out of chrono's range.
pub uninterp spec fn rfc3339_of_millis(millis: int) -> Option<Seq<char>>;

/// Renders a Unix timestamp in milliseconds as an RFC 3339 UTC date-time.
///
/// Trusted: calls `chrono::Utc.timestamp_millis_opt(millis)`, keeps the
/// single result (`None` when the timestamp is out of range) and renders it
/// with `DateTime::to_rfc3339`. The result is named `rfc3339_of_millis`;
/// nothing more is stated of it.
#[verifier::external_body]
fn utc_rfc3339_from_millis(millis: i64) -> (r: Option<String>)
    ensures
        match r {
            Some(s) => rfc3339_of_millis(millis as int) == Some(s@),
            None => rfc3339_of_millis(millis as int) is None,
        },
{
    match chrono::Utc.timestamp_millis_opt(millis) {
        chrono::LocalResult::Single(dt) => Some(dt.to_rfc3339()),
        chrono::LocalResult::Ambiguous(_, _) => None,
        chrono::LocalResult::None => None,
    }
}

/// The start time text of a build: its RFC 3339 rendering, or the decimal
/// milliseconds when chrono cannot represent the timestamp.
pub open spec fn start_time_text(millis: i64) -> Seq<char> {
    match rfc3339_of_millis(millis as int) {
        Some(t) => t,
        None => int_text(millis as int),
    }
}

/// The text of a boolean outcome: "failed" or "success".
pub open spec fn outcome_text(has_failed: bool) -> Seq<char> {
    if has_failed {
        "failed"@
    } else {
        "success"@
    }
}

/// The first present of two options.
pub open spec fn or_else<T>(a: Option<T>, b: Option<T>) -> Option<T> {
    if a is Some {
        a
    } else {
        b
    }
}

/// The result record of a build's attributes.
pub open spec fn result_matches(r: ResultOutput, attrs: GradleAttributes) -> bool {
    &&& r.outcome@ == outcome_text(attrs.has_failed)
    &&& r.has_failed == attrs.has_failed
    &&& r.has_verification_failure == attrs.has_verification_failure
    &&& r.has_non_verification_failure == attrs.has_non_verification_failure
    &&& r.project_name == attrs.root_project_name
    &&& r.gradle_version == attrs.gradle_version
    &&& r.build_duration_ms == attrs.build_duration
    &&& r.build_start_time@ == start_time_text(attrs.build_start_time)
    &&& r.requested_tasks == attrs.requested_tasks
    &&& r.tags == attrs.tags
    &&& r.username == attrs.environment.username
    &&& r.hostname == or_else(attrs.environment.public_hostname, attrs.environment.local_hostname)
}

impl ResultOutput {
    /// Build result output from Gradle build attributes.
    pub fn from(attrs: GradleAttributes) -> (r: ResultOutput)
        ensures
            result_matches(r, attrs),
    {
        let build_start_time = match utc_rfc3339_from_millis(attrs.build_start_time) {
            Some(t) => t,
            None => i64_text(attrs.build_start_time),
        };
        let hostname = match attrs.environment.public_hostname {
            Some(h) => Some(h),
            None => attrs.environment.local_hostname,
        };
        ResultOutput {
            outcome: if attrs.has_failed {
                text("failed")
            } else {
                text("success")
            },
            has_failed: attrs.has_failed,
            has_verification_failure: attrs.has_verification_failure,
            has_non_verification_failure: attrs.has_non_verification_failure,
            project_name: attrs.root_project_name,
            gradle_version: attrs.gradle_version,
            build_duration_ms: attrs.build_duration,
            build_start_time,
            requested_tasks: attrs.requested_tasks,
            tags: attrs.tags,
            username: attrs.environment.username,
            hostname,
        }
    }
}

/// A copy of an optional string.
pub fn copy_opt(o: &Option<String>) -> (r: Option<String>)
    ensures
        r == *o,
{
    match o {
        Some(s) => Some(s.clone()),
        None => None,
    }
}

/// The deprecation record of a deprecation entry.
pub open spec fn deprecation_matches(r: DeprecationOutput, entry: GradleDeprecationEntry) -> bool {
    &&& r.summary == entry.summary
    &&& r.removal_details == entry.removal_details
    &&& r.advice == entry.advice
    &&& r.documentation_url == entry.documentation_url
    &&& r.usage_count == entry.usages@.len()
    &&& r.usages@.len() == entry.usages@.len()
    &&& forall|i: int|
        0 <= i < entry.usages@.len() ==> {
            &&& (#[trigger] r.usages@[i]).owner_type@ == entry.usages@[i].owner.owner_type.text_of()
            &&& r.usages@[i].location == entry.usages@[i].owner.location
            &&& r.usages@[i].contextual_advice == entry.usages@[i].contextual_advice
        }
}

impl DeprecationOutput {
    /// Deprecation output from a deprecation entry.
    pub fn from(entry: GradleDeprecationEntry) -> (r: DeprecationOutput)
        ensures
            deprecation_matches(r, entry),
    {
        let usage_count = entry.usages.len();
        let mut usages: Vec<DeprecationUsageOutput> = Vec::new();
        let mut i: usize = 0;
        while i < entry.usages.len()
            invariant
                i <= entry.usages@.len(),
                usages@.len() == i,
                forall|k: int|
                    0 <= k < i ==> {
                        &&& (#[trigger] usages@[k]).owner_type@ == entry.usages@[k].owner.owner_type.text_of()
                        &&& usages@[k].location == entry.usages@[k].owner.location
                        &&& usages@[k].contextual_advice == entry.usages@[k].contextual_advice
                    },
            decreases entry.usages.len() - i,
        {
            let u = &entry.usages[i];
            usages.push(DeprecationUsageOutput {
                owner_type: u.owner.owner_type.to_string(),
                location: copy_opt(&u.owner.location),
                contextual_advice: copy_opt(&u.contextual_advice),
            });
            i = i + 1;
        }
        DeprecationOutput {
            summary: entry.summary,
            removal_details: entry.removal_details,
            advice: entry.advice,
            documentation_url: entry.documentation_url,
            usage_count,
            usages,
        }
    }
}

/// A value kept only in verbose mode.
pub open spec fn if_verbose<T>(verbose: bool, v: Option<T>) -> Option<T> {
    if verbose {
        v
    } else {
        None
    }
}

/// The failures record of the API's failures; stacktraces are kept only in
/// verbose mode.
pub open spec fn failures_match(r: FailuresOutput, failures: GradleFailures, verbose: bool) -> bool {
    &&& r.build_failures@.len() == failures.build_failures@.len()
    &&& forall|i: int|
        0 <= i < failures.build_failures@.len() ==> {
            let f = failures.build_failures@[i];
            &&& (#[trigger] r.build_failures@[i]).header == f.header
            &&& r.build_failures@[i].message == f.message
            &&& r.build_failures@[i].task_path == f.task_path
            &&& r.build_failures@[i].location == f.location
            &&& r.build_failures@[i].stacktrace == if_verbose(verbose, f.stacktrace)
        }
    &&& match failures.test_failures {
        None => r.test_failures is None,
        Some(tf) => r.test_failures matches Some(out) && out@.len() == tf@.len() && forall|i: int|
            0 <= i < tf@.len() ==> {
                &&& (#[trigger] out@[i]).class_name == tf@[i].id.suite_name
                &&& out@[i].test_name == tf@[i].id.test_name
                &&& out@[i].message == tf@[i].message
                &&& out@[i].stacktrace == if_verbose(verbose, tf@[i].stacktrace)
            },
    }
}

impl FailuresOutput {
    /// Failures output from the API's failures; stacktraces are kept only in
    /// verbose mode.
    pub fn from_failures(failures: GradleFailures, verbose: bool) -> (r: FailuresOutput)
        ensures
            failures_match(r, failures, verbose),
    {
        let mut build_failures: Vec<BuildFailureOutput> = Vec::new();
        let mut i: usize = 0;
        while i < failures.build_failures.len()
            invariant
                i <= failures.build_failures@.len(),
                build_failures@.len() == i,
                forall|k: int|
                    0 <= k < i ==> {
                        let f = failures.build_failures@[k];
                        &&& (#[trigger] build_failures@[k]).header == f.header
                        &&& build_failures@[k].message == f.message
                        &&& build_failures@[k].task_path == f.task_path
                        &&& build_failures@[k].location == f.location
                        &&& build_failures@[k].stacktrace == if_verbose(verbose, f.stacktrace)
                    },
            decreases failures.build_failures.len() - i,
        {
            let f = &failures.build_failures[i];
            build_failures.push(BuildFailureOutput {
                header: f.header.clone(),
                message: f.message.clone(),
                task_path: copy_opt(&f.task_path),
                location: copy_opt(&f.location),
                stacktrace: if verbose {
                    copy_opt(&f.stacktrace)
                } else {
                    None
                },
            });
            i = i + 1;
        }
        let test_failures = match &failures.test_failures {
            None => None,
            Some(tf) => {
                let mut out: Vec<TestFailureOutput> = Vec::new();
                let mut j: usize = 0;
                while j < tf.len()
                    invariant
                        j <= tf@.len(),
                        out@.len() == j,
                        forall|k: int|
                            0 <= k < j ==> {
                                &&& (#[trigger] out@[k]).class_name == tf@[k].id.suite_name
                                &&& out@[k].test_name == tf@[k].id.test_name
                                &&& out@[k].message == tf@[k].message
                                &&& out@[k].stacktrace == if_verbose(verbose, tf@[k].stacktrace)
                            },
                    decreases tf.len() - j,
                {
                    let t = &tf[j];
                    out.push(TestFailureOutput {
                        class_name: t.id.suite_name.clone(),
                        test_name: copy_opt(&t.id.test_name),
                        message: t.message.clone(),
                        stacktrace: if verbose {
                            copy_opt(&t.stacktrace)
                        } else {
                            None
                        },
                    });
                    j = j + 1;
                }
                Some(out)
            },
        };
        FailuresOutput { build_failures, test_failures }
    }
}

/// The test execution record of a flattened test case.
pub open spec fn execution_matches(out: TestExecutionOutput, c: FlatCase) -> bool {
    &&& out.work_unit@ == c.work_unit
    &&& out.class_name@ == c.container_name
    &&& out.test_name matches Some(n) && n@ == c.test_name
    &&& out.outcome@ == c.outcome.text_of()
    &&& out.duration_ms == c.duration_ms
    &&& out.execution_count == c.execution_count
}

/// The tests record of the API's test results: the test-case summary and one
/// record per leaf test case, in tree order.
pub open spec fn tests_match(r: TestsOutput, tests: GradleTests) -> bool {
    &&& r.summary.total == tests.summary.test_cases_outcome_distribution.total
    &&& r.summary.passed == tests.summary.test_cases_outcome_distribution.passed
    &&& r.summary.failed == tests.summary.test_cases_outcome_distribution.failed
    &&& r.summary.skipped == tests.summary.test_cases_outcome_distribution.skipped
    &&& r.summary.flaky == tests.summary.test_cases_outcome_distribution.flaky
    &&& r.summary.not_selected == tests.summary.test_cases_outcome_distribution.not_selected
    &&& r.summary.duration_ms == tests.summary.duration.total
    &&& r.tests@.len() == flatten_units(tests.work_units@).len()
    &&& forall|i: int|
        0 <= i < r.tests@.len() ==> execution_matches(
            #[trigger] r.tests@[i],
            flatten_units(tests.work_units@)[i],
        )
}

impl TestsOutput {
    /// Tests output: the API's test-case summary and one record per leaf test
    /// case, in tree order.
    pub fn from_tests(tests: GradleTests, verbose: bool) -> (r: TestsOutput)
        ensures
            tests_match(r, tests),
    {
        let dist = tests.summary.test_cases_outcome_distribution;
        let summary = TestSummaryOutput {
            total: dist.total,
            passed: dist.passed,
            failed: dist.failed,
            skipped: dist.skipped,
            flaky: dist.flaky,
            not_selected: dist.not_selected,
            duration_ms: tests.summary.duration.total,
        };
        let cases = tests.flatten_test_cases();
        let ghost flat = flatten_units(tests.work_units@);
        let mut out: Vec<TestExecutionOutput> = Vec::new();
        let mut i: usize = 0;
        while i < cases.len()
            invariant
                i <= cases@.len(),
                flat_views(cases@) == flat,
                out@.len() == i,
                forall|k: int| 0 <= k < i ==> execution_matches(#[trigger] out@[k], flat[k]),
            decreases cases.len() - i,
        {
            let c = &cases[i];
            proof {
                assert(flat[i as int] == cases@[i as int]@);
            }
            out.push(TestExecutionOutput {
                work_unit: copy(&c.work_unit),
                class_name: copy(&c.container_name),
                test_name: Some(copy(&c.test_name)),
                outcome: c.outcome.to_string(),
                duration_ms: c.duration_ms,
                execution_count: c.execution_count,
            });
            i = i + 1;
        }
        TestsOutput { summary, tests: out }
    }
}

/// Number of entries whose outcome is an avoided one.
pub open spec fn count_avoided(s: Seq<TaskExecutionEntry>) -> nat
    decreases s.len(),
{
    if s.len() == 0 {
        0
    } else {
        count_avoided(s.drop_last()) + if s.last().avoidance_outcome.is_avoided() {
            1nat
        } else {
            0nat
        }
    }
}

/// Number of entries whose outcome is an executed one.
pub open spec fn count_executed(s: Seq<TaskExecutionEntry>) -> nat
    decreases s.len(),
{
    if s.len() == 0 {
        0
    } else {
        count_executed(s.drop_last()) + if s.last().avoidance_outcome.is_executed() {
            1nat
        } else {
            0nat
        }
    }
}

/// The non-cacheability reason text of a task: the category, followed by the
/// reason when there is one.
pub open spec fn non_cacheability_text(e: TaskExecutionEntry) -> Option<Seq<char>> {
    match e.non_cacheability_category {
        None => None,
        Some(cat) => match e.non_cacheability_reason {
            Some(reason) => Some(cat.text_of() + ": "@ + reason@),
            None => Some(cat.text_of()),
        },
    }
}

/// The output record of a task execution entry.
pub open spec fn task_entry_matches(out: TaskEntryOutput, e: TaskExecutionEntry) -> bool {
    &&& out.task_path == e.task_path
    &&& out.outcome@ == e.avoidance_outcome.text_of()
    &&& out.duration_ms == e.duration
    &&& out.has_failed == e.has_failed
    &&& out.task_type == Some(e.task_type)
    &&& out.cache_key == e.cache_key
    &&& out.cache_artifact_size == e.cache_artifact_size
    &&& match out.non_cacheability_reason {
        Some(t) => non_cacheability_text(e) == Some(t@),
        None => non_cacheability_text(e) is None,
    }
}

/// Number of entries whose outcome is that of a task without work
/// (lifecycle, no source, skipped).
pub open spec fn count_without_work(s: Seq<TaskExecutionEntry>) -> nat
    decreases s.len(),
{
    if s.len() == 0 {
        0
    } else {
        count_without_work(s.drop_last()) + if no_work_text(s.last().avoidance_outcome.text_of()) {
            1nat
        } else {
            0nat
        }
    }
}

/// Every task is counted once: as avoided, as executed, or as a task
/// without work.
pub proof fn lemma_task_counts_partition(s: Seq<TaskExecutionEntry>)
    ensures
        count_avoided(s) + count_executed(s) + count_without_work(s) == s.len(),
    decreases s.len(),
{
    if s.len() > 0 {
        lemma_task_counts_partition(s.drop_last());
        lemma_outcome_kind_by_text(s.last().avoidance_outcome);
    }
}

proof fn lemma_counts_bounded(s: Seq<TaskExecutionEntry>)
    ensures
        count_avoided(s) + count_executed(s) <= s.len(),
    decreases s.len(),
{
    if s.len() > 0 {
        lemma_counts_bounded(s.drop_last());
    }
}

/// The task execution record of the build cache performance data.
pub open spec fn task_execution_matches(r: TaskExecutionOutput, perf: GradleBuildCachePerformance) -> bool {
    &&& r.summary.build_time_ms == perf.build_time
    &&& r.summary.effective_task_execution_time_ms == perf.effective_task_execution_time
    &&& r.summary.serial_task_execution_time_ms == perf.serial_task_execution_time
    &&& r.summary.serialization_factor == perf.serialization_factor
    &&& r.summary.total_tasks == perf.task_execution@.len()
    &&& r.summary.avoided_tasks == count_avoided(perf.task_execution@)
    &&& r.summary.executed_tasks == count_executed(perf.task_execution@)
    &&& r.avoidance_savings.total_ms == perf.task_avoidance_savings_summary.total
    &&& r.avoidance_savings.ratio == perf.task_avoidance_savings_summary.ratio
    &&& r.avoidance_savings.up_to_date_ms == perf.task_avoidance_savings_summary.up_to_date
    &&& r.avoidance_savings.local_build_cache_ms == perf.task_avoidance_savings_summary.local_build_cache
    &&& r.avoidance_savings.remote_build_cache_ms == perf.task_avoidance_savings_summary.remote_build_cache
    &&& r.tasks@.len() == perf.task_execution@.len()
    &&& forall|i: int|
        0 <= i < r.tasks@.len() ==> task_entry_matches(#[trigger] r.tasks@[i], perf.task_execution@[i])
}

impl TaskExecutionOutput {
    /// Task execution output from the build cache performance data.
    pub fn from_performance(perf: GradleBuildCachePerformance) -> (r: TaskExecutionOutput)
        ensures
            task_execution_matches(r, perf),
            r.summary.avoided_tasks + r.summary.executed_tasks <= r.summary.total_tasks,
            r.summary.avoided_tasks + r.summary.executed_tasks + count_without_work(perf.task_execution@)
                == r.summary.total_tasks,
    {
        let n = perf.task_execution.len();
        let mut avoided: usize = 0;
        let mut executed: usize = 0;
        let mut tasks: Vec<TaskEntryOutput> = Vec::new();
        let mut i: usize = 0;
        while i < n
            invariant
                n == perf.task_execution@.len(),
                i <= n,
                avoided == count_avoided(perf.task_execution@.take(i as int)),
                executed == count_executed(perf.task_execution@.take(i as int)),
                tasks@.len() == i,
                forall|k: int|
                    0 <= k < i ==> task_entry_matches(#[trigger] tasks@[k], perf.task_execution@[k]),
            decreases n - i,
        {
            let entry = &perf.task_execution[i];
            proof {
                assert(perf.task_execution@.take(i + 1).drop_last() == perf.task_execution@.take(i as int));
                lemma_counts_bounded(perf.task_execution@.take(i + 1));
            }
            if entry.avoidance_outcome.avoided() {
                avoided = avoided + 1;
            }
            if entry.avoidance_outcome.executed() {
                executed = executed + 1;
            }
            let non_cacheability_reason = match entry.non_cacheability_category {
                None => None,
                Some(cat) => {
                    let cat_text = cat.to_string();
                    match &entry.non_cacheability_reason {
                        Some(reason) => Some(concat3(cat_text.as_str(), ": ", reason.as_str())),
                        None => Some(cat_text),
                    }
                },
            };
            tasks.push(TaskEntryOutput {
                task_path: entry.task_path.clone(),
                outcome: entry.avoidance_outcome.to_string(),
                duration_ms: entry.duration,
                has_failed: entry.has_failed,
                task_type: Some(entry.task_type.clone()),
                cache_key: copy_opt(&entry.cache_key),
                cache_artifact_size: entry.cache_artifact_size,
                non_cacheability_reason,
            });
            i = i + 1;
        }
        proof {
            assert(perf.task_execution@.take(n as int) == perf.task_execution@);
            lemma_counts_bounded(perf.task_execution@);
            lemma_task_counts_partition(perf.task_execution@);
        }
        let savings = perf.task_avoidance_savings_summary;
        TaskExecutionOutput {
            summary: TaskExecutionSummaryOutput {
                build_time_ms: perf.build_time,
                effective_task_execution_time_ms: perf.effective_task_execution_time,
                serial_task_execution_time_ms: perf.serial_task_execution_time,
                serialization_factor: perf.serialization_factor,
                total_tasks: n,
                avoided_tasks: avoided,
                executed_tasks: executed,
            },
            avoidance_savings: AvoidanceSavingsOutput {
                total_ms: savings.total,
                ratio: savings.ratio,
                up_to_date_ms: savings.up_to_date,
                local_build_cache_ms: savings.local_build_cache,
                remote_build_cache_ms: savings.remote_build_cache,
            },
            tasks,
        }
    }
}

/// The deprecation records of a deprecations response: one per entry, or
/// none when the response lists no deprecations.
pub open spec fn deprecations_match(r: Option<Vec<DeprecationOutput>>, d: GradleDeprecations) -> bool {
    match d.deprecations {
        None => r is None,
        Some(entries) => r matches Some(out) && out@.len() == entries@.len() && forall|i: int|
            0 <= i < entries@.len() ==> deprecation_matches(#[trigger] out@[i], entries@[i]),
    }
}

/// Converts each deprecation entry, in order.
fn deprecation_outputs(entries: Vec<GradleDeprecationEntry>) -> (r: Vec<DeprecationOutput>)
    ensures
        r@.len() == entries@.len(),
        forall|i: int| 0 <= i < entries@.len() ==> deprecation_matches(#[trigger] r@[i], entries@[i]),
{
    let mut out: Vec<DeprecationOutput> = Vec::new();
    let mut rest = entries;
    let ghost all = rest@;
    let n = rest.len();
    let mut i: usize = 0;
    while rest.len() > 0
        invariant
            i + rest@.len() == all.len(),
            all.len() == n,
            out@.len() == i,
            rest@ == all.skip(i as int),
            forall|k: int| 0 <= k < i ==> deprecation_matches(#[trigger] out@[k], all[k]),
        decreases rest.len(),
    {
        let e = rest.remove(0);
        proof {
            assert(e == all[i as int]);
            assert(rest@ == all.skip(i + 1));
        }
        out.push(DeprecationOutput::from(e));
        i = i + 1;
    }
    out
}

impl BuildOutput {
    /// Create a BuildOutput from the fetched build details: each section
    /// converted from its data when it was fetched.
    pub fn from_details(details: GradleBuildDetails, build_scan_url: String, verbose: bool) -> (r: BuildOutput)
        ensures
            r.build_id == details.build.id,
            r.build_scan_url == build_scan_url,
            match details.attributes {
                None => r.result is None,
                Some(a) => r.result matches Some(o) && result_matches(o, a),
            },
            match details.deprecations {
                None => r.deprecations is None,
                Some(d) => deprecations_match(r.deprecations, d),
            },
            match details.failures {
                None => r.failures is None,
                Some(f) => r.failures matches Some(o) && failures_match(o, f, verbose),
            },
            match details.tests {
                None => r.tests is None,
                Some(t) => r.tests matches Some(o) && tests_match(o, t),
            },
            match details.build_cache_performance {
                None => r.task_execution is None,
                Some(p) => r.task_execution matches Some(o) && task_execution_matches(o, p),
            },
            match details.network_activity {
                None => r.network_activity is None,
                Some(a) => r.network_activity matches Some(o) && network_matches(o, a),
            },
            match details.dependencies {
                None => r.dependencies is None,
                Some(d) => r.dependencies matches Some(o) && dependencies_match(o, d),
            },
    {
        let result = match details.attributes {
            Some(a) => Some(ResultOutput::from(a)),
            None => None,
        };
        let deprecations = match details.deprecations {
            Some(d) => match d.deprecations {
                Some(entries) => Some(deprecation_outputs(entries)),
                None => None,
            },
            None => None,
        };
        let failures = match details.failures {
            Some(f) => Some(FailuresOutput::from_failures(f, verbose)),
            None => None,
        };
        let tests = match details.tests {
            Some(t) => Some(TestsOutput::from_tests(t, verbose)),
            None => None,
        };
        let task_execution = match details.build_cache_performance {
            Some(p) => Some(TaskExecutionOutput::from_performance(p)),
            None => None,
        };
        let network_activity = match &details.network_activity {
            Some(a) => Some(NetworkActivityOutput::from_activity(a)),
            None => None,
        };
        let dependencies = match &details.dependencies {
            Some(d) => Some(DependenciesOutput::from_dependencies(d)),
            None => None,
        };
        BuildOutput {
            build_id: details.build.id,
            build_scan_url,
            result,
            deprecations,
            failures,
            tests,
            task_execution,
            network_activity,
            dependencies,
        }
    }
}

} // verus!
