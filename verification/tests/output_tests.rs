use dvcli::client::GradleBuildDetails;
use dvcli::models::{
    AvoidanceOutcome, AvoidanceSavingsSummary, Build, BuildTestOrContainer,
    BuildTestOrContainerDuration, BuildTestOrContainerExecution, BuildTestOrContainerOutcome,
    BuildTestWorkUnit, BuildTestsDuration, BuildTestsResponse, BuildTestsSummary, Float64,
    GradleAttributes, GradleBuildCachePerformance, GradleBuildFailure, GradleDeprecationEntry,
    GradleDeprecationOwner, GradleDeprecationUsage, GradleDeprecations, GradleEnvironment,
    GradleFailures, GradleNetworkActivity, GradleTests, NamedNetworkMetrics, NetworkActivityMetrics,
    NonCacheabilityCategory, TaskExecutionEntry, TestFailure, TestId, TestOutcome,
    TestOutcomeDistribution, TestWorkUnitOutcome, DeprecationOwnerType,
};
use dvcli::output::{
    format_bytes, format_duration, format_timestamp, BuildOutput, DeprecationOutput,
    FailuresOutput, NetworkActivityOutput, ResultOutput, TaskExecutionOutput, TestsOutput,
    DependenciesOutput,
};
use dvcli::models::{DependencyRepository, GradleDependencies, GradleDependency};

// ==================== Helper Functions ====================

fn make_summary(
    total: i32,
    passed: i32,
    failed: i32,
    skipped: i32,
    flaky: i32,
    not_selected: i32,
    duration_ms: i64,
) -> BuildTestsSummary {
    BuildTestsSummary {
        duration: BuildTestsDuration {
            total: duration_ms,
            serial: Some(duration_ms),
        },
        test_cases_outcome_distribution: TestOutcomeDistribution {
            total,
            passed,
            failed,
            skipped,
            flaky,
            not_selected,
        },
        test_containers_outcome_distribution: TestOutcomeDistribution {
            total: 1,
            passed: 1,
            failed: 0,
            skipped: 0,
            flaky: 0,
            not_selected: 0,
        },
    }
}

fn make_leaf_test(name: &str, outcome: TestOutcome, duration_ms: i64) -> BuildTestOrContainer {
    BuildTestOrContainer {
        name: name.to_string(),
        duration: BuildTestOrContainerDuration {
            total: Some(duration_ms),
            own: None,
            serial: None,
        },
        outcome: BuildTestOrContainerOutcome {
            overall: outcome.clone(),
            own: None,
            children: None,
        },
        executions: vec![BuildTestOrContainerExecution {
            duration: BuildTestOrContainerDuration {
                total: Some(duration_ms),
                own: None,
                serial: None,
            },
            outcome: BuildTestOrContainerOutcome {
                overall: outcome,
                own: None,
                children: None,
            },
        }],
        children: vec![],
    }
}

fn make_container(name: &str, children: Vec<BuildTestOrContainer>) -> BuildTestOrContainer {
    BuildTestOrContainer {
        name: name.to_string(),
        duration: BuildTestOrContainerDuration {
            total: Some(100),
            own: Some(5),
            serial: Some(100),
        },
        outcome: BuildTestOrContainerOutcome {
            overall: TestOutcome::Passed,
            own: Some(TestOutcome::Passed),
            children: Some(TestOutcome::Passed),
        },
        executions: vec![],
        children,
    }
}

fn make_work_unit(name: &str, tests: Vec<BuildTestOrContainer>) -> BuildTestWorkUnit {
    BuildTestWorkUnit {
        name: name.to_string(),
        duration: BuildTestOrContainerDuration {
            total: Some(200),
            own: Some(10),
            serial: Some(200),
        },
        outcome: TestWorkUnitOutcome::Passed,
        tests,
    }
}

fn make_gradle_tests(summary: BuildTestsSummary, work_units: Vec<BuildTestWorkUnit>) -> GradleTests {
    BuildTestsResponse { summary, work_units }
}

// ==================== TestsOutput::from_tests() Tests ====================

#[test]
fn test_tests_output_includes_flaky_and_not_selected() {
    let summary = make_summary(10, 5, 1, 1, 2, 1, 1000);
    let gradle_tests = make_gradle_tests(summary, vec![]);

    let output = TestsOutput::from_tests(gradle_tests, false);

    assert_eq!(output.summary.flaky, 2);
    assert_eq!(output.summary.not_selected, 1);
}

#[test]
fn test_execution_output_from_flattened_tests() {
    let container = make_container(
        "com.example.TestSuite",
        vec![
            make_leaf_test("testA", TestOutcome::Passed, 100),
            make_leaf_test("testB", TestOutcome::Failed, 200),
        ],
    );
    let wu = make_work_unit(":app:test", vec![container]);
    let summary = make_summary(2, 1, 1, 0, 0, 0, 300);
    let gradle_tests = make_gradle_tests(summary, vec![wu]);

    let output = TestsOutput::from_tests(gradle_tests, false);

    assert_eq!(output.tests.len(), 2);

    assert_eq!(output.tests[0].work_unit, ":app:test");
    assert_eq!(output.tests[0].class_name, "com.example.TestSuite");
    assert_eq!(output.tests[0].test_name, Some("testA".to_string()));
    assert_eq!(output.tests[0].outcome, "passed");
    assert_eq!(output.tests[0].duration_ms, 100);
    assert_eq!(output.tests[0].execution_count, 1);

    assert_eq!(output.tests[1].work_unit, ":app:test");
    assert_eq!(output.tests[1].test_name, Some("testB".to_string()));
    assert_eq!(output.tests[1].outcome, "failed");
    assert_eq!(output.tests[1].duration_ms, 200);
}

#[test]
fn test_execution_output_outcome_strings() {
    for (outcome, expected) in [
        (TestOutcome::Passed, "passed"),
        (TestOutcome::Failed, "failed"),
        (TestOutcome::Skipped, "skipped"),
        (TestOutcome::Flaky, "flaky"),
        (TestOutcome::NotSelected, "notSelected"),
    ] {
        let container = make_container("Suite", vec![make_leaf_test("test", outcome, 0)]);
        let wu = make_work_unit(":test", vec![container]);
        let summary = make_summary(1, 0, 0, 0, 0, 0, 0);
        let gradle_tests = make_gradle_tests(summary, vec![wu]);

        let output = TestsOutput::from_tests(gradle_tests, false);
        assert_eq!(output.tests[0].outcome, expected);
    }
}

#[test]
fn test_execution_output_multiple_work_units() {
    let container1 = make_container("AppTest", vec![make_leaf_test("test1", TestOutcome::Passed, 100)]);
    let container2 = make_container("LibTest", vec![make_leaf_test("test2", TestOutcome::Passed, 200)]);
    let wu1 = make_work_unit(":app:test", vec![container1]);
    let wu2 = make_work_unit(":lib:test", vec![container2]);
    let summary = make_summary(2, 2, 0, 0, 0, 0, 300);
    let gradle_tests = make_gradle_tests(summary, vec![wu1, wu2]);

    let output = TestsOutput::from_tests(gradle_tests, false);

    assert_eq!(output.tests.len(), 2);
    assert_eq!(output.tests[0].work_unit, ":app:test");
    assert_eq!(output.tests[1].work_unit, ":lib:test");
}

#[test]
fn test_execution_output_empty_work_units() {
    let summary = make_summary(0, 0, 0, 0, 0, 0, 0);
    let gradle_tests = make_gradle_tests(summary, vec![]);

    let output = TestsOutput::from_tests(gradle_tests, false);

    assert!(output.tests.is_empty());
    assert_eq!(output.summary.total, 0);
}

#[test]
fn test_execution_output_retries_counted() {
    // A test with 2 executions (retried once)
    let test = BuildTestOrContainer {
        name: "flakyTest".to_string(),
        duration: BuildTestOrContainerDuration {
            total: Some(40),
            own: None,
            serial: None,
        },
        outcome: BuildTestOrContainerOutcome {
            overall: TestOutcome::Flaky,
            own: None,
            children: None,
        },
        executions: vec![
            BuildTestOrContainerExecution {
                duration: BuildTestOrContainerDuration {
                    total: Some(20),
                    own: None,
                    serial: None,
                },
                outcome: BuildTestOrContainerOutcome {
                    overall: TestOutcome::Failed,
                    own: None,
                    children: None,
                },
            },
            BuildTestOrContainerExecution {
                duration: BuildTestOrContainerDuration {
                    total: Some(20),
                    own: None,
                    serial: None,
                },
                outcome: BuildTestOrContainerOutcome {
                    overall: TestOutcome::Passed,
                    own: None,
                    children: None,
                },
            },
        ],
        children: vec![],
    };

    let container = make_container("Suite", vec![test]);
    let wu = make_work_unit(":test", vec![container]);
    let summary = make_summary(1, 0, 0, 0, 1, 0, 40);
    let gradle_tests = make_gradle_tests(summary, vec![wu]);

    let output = TestsOutput::from_tests(gradle_tests, false);

    assert_eq!(output.tests.len(), 1);
    assert_eq!(output.tests[0].outcome, "flaky");
    assert_eq!(output.tests[0].execution_count, 2);
}

#[test]
fn test_tests_output_from_tests_uses_api_summary() {
    let summary = make_summary(10, 8, 1, 1, 0, 0, 5000);
    let gradle_tests = make_gradle_tests(summary, vec![]);

    let output = TestsOutput::from_tests(gradle_tests, false);

    assert_eq!(output.summary.total, 10);
    assert_eq!(output.summary.passed, 8);
    assert_eq!(output.summary.failed, 1);
    assert_eq!(output.summary.skipped, 1);
    assert_eq!(output.summary.flaky, 0);
    assert_eq!(output.summary.not_selected, 0);
    assert_eq!(output.summary.duration_ms, 5000);
}

// ==================== format_duration Tests ====================

#[test]
fn test_format_duration_milliseconds() {
    assert_eq!(format_duration(500), "500ms");
    assert_eq!(format_duration(0), "0ms");
    assert_eq!(format_duration(999), "999ms");
}

#[test]
fn test_format_duration_seconds() {
    assert_eq!(format_duration(1000), "1s");
    assert_eq!(format_duration(5000), "5s");
    assert_eq!(format_duration(59000), "59s");
}

#[test]
fn test_format_duration_minutes() {
    assert_eq!(format_duration(60000), "1m 0s");
    assert_eq!(format_duration(90000), "1m 30s");
    assert_eq!(format_duration(3599000), "59m 59s");
}

#[test]
fn test_format_duration_hours() {
    assert_eq!(format_duration(3600000), "1h 0m 0s");
    assert_eq!(format_duration(7200000), "2h 0m 0s");
    assert_eq!(format_duration(3661000), "1h 1m 1s");
}

#[test]
fn format_duration_negative_and_truncation() {
    assert_eq!(format_duration(-5000), "-5000ms");
    assert_eq!(format_duration(1999), "1s");
    assert_eq!(format_duration(i64::MAX), "2562047788015h 12m 55s");
}

// ==================== format_bytes ====================

fn float_bytes(bytes: i64) -> String {
    if bytes < 1024 {
        format!("{} B", bytes)
    } else if bytes < 1024 * 1024 {
        format!("{:.1} KB", bytes as f64 / 1024.0)
    } else {
        format!("{:.1} MB", bytes as f64 / (1024.0 * 1024.0))
    }
}

#[test]
fn format_bytes_exact_values() {
    assert_eq!(format_bytes(0), "0 B");
    assert_eq!(format_bytes(-3), "-3 B");
    assert_eq!(format_bytes(1023), "1023 B");
    assert_eq!(format_bytes(1024), "1.0 KB");
    assert_eq!(format_bytes(1536), "1.5 KB");
    assert_eq!(format_bytes(1048576), "1.0 MB");
    assert_eq!(format_bytes(204800), "200.0 KB");
}

#[test]
fn format_bytes_matches_float_formatting() {
    let mut samples: Vec<i64> = vec![
        1024, 1025, 1075, 1076, 1126, 1127, 1280, 1331, 1433, 2048 + 51, 2048 + 52, 10 * 1024 + 256,
        1048575, 1048576, 1048577, 1101004, 1101005, 1153434, 1310720, 1572864, 123456789,
        9007199254740991, 9007199254740992, 9007199254740993, 9007199254740995,
        18014398509481985, 18014398509481987, i64::MAX, i64::MAX - 1, 1 << 62, (1 << 62) + 1,
    ];
    let mut x: i64 = 1;
    for _ in 0..2000 {
        x = x.wrapping_mul(6364136223846793005).wrapping_add(1442695040888963407);
        samples.push((x >> 1) >> (x as u64 % 60));
        samples.push(1024 + ((x as u64) % (1 << 21)) as i64);
    }
    for b in samples {
        assert_eq!(format_bytes(b), float_bytes(b), "bytes = {}", b);
    }
}

// ==================== format_timestamp ====================

#[test]
fn format_timestamp_values() {
    assert_eq!(format_timestamp(0), "1970-01-01 00:00:00 UTC");
    assert_eq!(format_timestamp(1700000000123), "2023-11-14 22:13:20 UTC");
    assert_eq!(format_timestamp(i64::MAX), "9223372036854775807");
}

// ==================== Conversions ====================

fn environment(user: Option<&str>, public: Option<&str>, local: Option<&str>) -> GradleEnvironment {
    GradleEnvironment {
        username: user.map(|s| s.to_string()),
        operating_system: None,
        number_of_cpu_cores: None,
        jre_version: None,
        jvm_version: None,
        jvm_max_memory_heap_size: None,
        jvm_charset: None,
        jvm_locale: None,
        public_hostname: public.map(|s| s.to_string()),
        local_hostname: local.map(|s| s.to_string()),
        local_ip_addresses: vec![],
    }
}

fn attributes(start: i64, failed: bool) -> GradleAttributes {
    GradleAttributes {
        id: "abc".to_string(),
        build_start_time: start,
        build_duration: 45000,
        gradle_version: "8.5".to_string(),
        plugin_version: "3.16".to_string(),
        root_project_name: Some("my-project".to_string()),
        requested_tasks: vec!["build".to_string(), "test".to_string()],
        has_failed: failed,
        has_verification_failure: Some(true),
        has_non_verification_failure: Some(false),
        tags: vec!["CI".to_string()],
        values: vec![],
        links: vec![],
        environment: environment(Some("ci"), None, Some("agent-1")),
        develocity_settings: None,
        build_options: None,
    }
}

#[test]
fn result_output_from_attributes() {
    let r = ResultOutput::from(attributes(0, true));
    assert_eq!(r.outcome, "failed");
    assert!(r.has_failed);
    assert_eq!(r.build_start_time, "1970-01-01T00:00:00+00:00");
    assert_eq!(r.hostname.as_deref(), Some("agent-1"));
    assert_eq!(r.username.as_deref(), Some("ci"));
    assert_eq!(r.project_name.as_deref(), Some("my-project"));
    assert_eq!(r.build_duration_ms, 45000);

    let mut a = attributes(i64::MAX, false);
    a.environment = environment(None, Some("public"), Some("local"));
    let r = ResultOutput::from(a);
    assert_eq!(r.outcome, "success");
    assert_eq!(r.build_start_time, "9223372036854775807");
    assert_eq!(r.hostname.as_deref(), Some("public"));
}

fn deprecation(summary: &str, usages: Vec<GradleDeprecationUsage>) -> GradleDeprecationEntry {
    GradleDeprecationEntry {
        summary: summary.to_string(),
        removal_details: "Gradle 9.0".to_string(),
        advice: None,
        documentation_url: Some("https://docs".to_string()),
        usages,
    }
}

#[test]
fn deprecation_output_from_entry() {
    let d = DeprecationOutput::from(deprecation(
        "old API",
        vec![GradleDeprecationUsage {
            contextual_advice: Some("move on".to_string()),
            owner: GradleDeprecationOwner { location: None, owner_type: DeprecationOwnerType::Task },
        }],
    ));
    assert_eq!(d.usage_count, 1);
    assert_eq!(d.usages[0].owner_type, "task");
    assert_eq!(d.usages[0].location, None);
    assert_eq!(d.usages[0].contextual_advice.as_deref(), Some("move on"));
}

fn build_failure(stack: Option<&str>) -> GradleBuildFailure {
    GradleBuildFailure {
        header: "Task :compileJava FAILED".to_string(),
        message: "Compilation failed".to_string(),
        relevant_log: None,
        location: Some("Build.java:3".to_string()),
        task_path: Some(":compileJava".to_string()),
        stacktrace: stack.map(|s| s.to_string()),
    }
}

#[test]
fn failures_output_keeps_stacktraces_only_when_verbose() {
    let make = || GradleFailures {
        build_failures: vec![build_failure(Some("at x"))],
        test_failures: Some(vec![TestFailure {
            id: TestId { work_unit_name: ":test".to_string(), suite_name: "S".to_string(), test_name: Some("t".to_string()) },
            message: "boom".to_string(),
            stacktrace: Some("at y".to_string()),
        }]),
    };
    let quiet = FailuresOutput::from_failures(make(), false);
    assert_eq!(quiet.build_failures[0].stacktrace, None);
    assert_eq!(quiet.test_failures.as_ref().unwrap()[0].stacktrace, None);
    assert_eq!(quiet.test_failures.as_ref().unwrap()[0].class_name, "S");
    let loud = FailuresOutput::from_failures(make(), true);
    assert_eq!(loud.build_failures[0].stacktrace.as_deref(), Some("at x"));
    assert_eq!(loud.test_failures.as_ref().unwrap()[0].stacktrace.as_deref(), Some("at y"));
}

pub fn task(path: &str, outcome: AvoidanceOutcome, failed: bool) -> TaskExecutionEntry {
    TaskExecutionEntry {
        task_path: path.to_string(),
        task_type: "org.gradle.api.tasks.compile.JavaCompile".to_string(),
        avoidance_outcome: outcome,
        duration: 1234,
        fingerprinting_duration: None,
        avoidance_savings: None,
        non_cacheability_category: None,
        non_cacheability_reason: None,
        skip_reason_message: None,
        cache_artifact_size: None,
        cache_artifact_rejected_reason: None,
        cache_key: None,
        has_failed: failed,
    }
}

fn savings() -> AvoidanceSavingsSummary {
    AvoidanceSavingsSummary { total: 5000, ratio: Float64 { bits: 0.5f64.to_bits() }, up_to_date: 3000, local_build_cache: 1500, remote_build_cache: 500 }
}

fn performance(tasks: Vec<TaskExecutionEntry>) -> GradleBuildCachePerformance {
    GradleBuildCachePerformance {
        id: "abc".to_string(),
        build_time: 60000,
        effective_task_execution_time: 50000,
        effective_work_unit_execution_time: 50000,
        serial_task_execution_time: 120000,
        serial_work_unit_execution_time: 120000,
        serialization_factor: Float64 { bits: 2.4f64.to_bits() },
        task_execution: tasks,
        task_fingerprinting_summary: None,
        work_unit_fingerprinting_summary: None,
        avoidance_savings_summary: savings(),
        task_avoidance_savings_summary: savings(),
        work_unit_avoidance_savings_summary: savings(),
        build_caches: None,
    }
}

#[test]
fn task_execution_output_counts() {
    let mut t = task(":b", AvoidanceOutcome::ExecutedNotCacheable, false);
    t.non_cacheability_category = Some(NonCacheabilityCategory::BuildCacheNotEnabled);
    t.non_cacheability_reason = Some("cache off".to_string());
    let out = TaskExecutionOutput::from_performance(performance(vec![
        task(":a", AvoidanceOutcome::AvoidedUpToDate, false),
        t,
        task(":c", AvoidanceOutcome::AvoidedFromLocalCache, false),
        task(":d", AvoidanceOutcome::Lifecycle, false),
    ]));
    assert_eq!(out.summary.total_tasks, 4);
    assert_eq!(out.summary.avoided_tasks, 2);
    assert_eq!(out.summary.executed_tasks, 1);
    assert_eq!(out.tasks[1].outcome, "EXECUTED (not cacheable)");
    assert_eq!(out.tasks[1].non_cacheability_reason.as_deref(), Some("build cache not enabled: cache off"));
    assert_eq!(out.tasks[0].task_type.as_deref(), Some("org.gradle.api.tasks.compile.JavaCompile"));
    assert_eq!(out.avoidance_savings.up_to_date_ms, 3000);
}

fn metrics(requests: i64) -> NetworkActivityMetrics {
    NetworkActivityMetrics {
        network_request_count: requests,
        serial_network_request_time: 10,
        file_download_count: 1,
        file_download_size: 2048,
        wall_clock_network_request_time: 5,
    }
}

fn named(name: &str, requests: i64) -> NamedNetworkMetrics {
    NamedNetworkMetrics { name: name.to_string(), metrics: metrics(requests) }
}

pub fn activity() -> GradleNetworkActivity {
    GradleNetworkActivity {
        network_request_count: 42,
        serial_network_request_time: 5000,
        wall_clock_network_request_time: 3000,
        file_download_count: 10,
        file_download_size: 1048576,
        methods: vec![named("HEAD", 4), named("GET", 38)],
        repositories: vec![named("https://b", 7), named("https://a", 7), named("https://c", 9)],
        repository_methods: vec![],
    }
}

#[test]
fn network_activity_busiest_first() {
    let out = NetworkActivityOutput::from_activity(&activity());
    assert_eq!(out.network_request_count, 42);
    let methods: Vec<&str> = out.methods.iter().map(|e| e.name.as_str()).collect();
    assert_eq!(methods, vec!["GET", "HEAD"]);
    let repos: Vec<&str> = out.repositories.iter().map(|e| e.name.as_str()).collect();
    assert_eq!(repos, vec!["https://c", "https://a", "https://b"]);
    assert_eq!(out.repositories[0].network_request_count, 9);
}

pub fn details(build_tool: &str) -> GradleBuildDetails {
    GradleBuildDetails {
        build: Build {
            id: "abc".to_string(),
            available_at: 0,
            build_tool_type: build_tool.to_string(),
            build_tool_version: "8.5".to_string(),
            build_agent_version: "3.16".to_string(),
        },
        attributes: Some(attributes(0, false)),
        deprecations: Some(GradleDeprecations { deprecations: Some(vec![deprecation("x", vec![])]) }),
        failures: None,
        tests: None,
        build_cache_performance: Some(performance(vec![task(":a", AvoidanceOutcome::AvoidedUpToDate, false)])),
        network_activity: Some(activity()),
        dependencies: None,
    }
}

#[test]
fn build_output_from_details() {
    let out = BuildOutput::from_details(details("gradle"), "https://ge/s/abc".to_string(), false);
    assert_eq!(out.build_id, "abc");
    assert_eq!(out.build_scan_url, "https://ge/s/abc");
    assert!(out.result.is_some());
    assert_eq!(out.deprecations.as_ref().unwrap().len(), 1);
    assert!(out.failures.is_none());
    assert!(out.tests.is_none());
    assert_eq!(out.task_execution.as_ref().unwrap().summary.total_tasks, 1);
    assert_eq!(out.network_activity.as_ref().unwrap().methods[0].name, "GET");

    let mut d = details("gradle");
    d.deprecations = Some(GradleDeprecations { deprecations: None });
    let out = BuildOutput::from_details(d, String::new(), true);
    assert!(out.deprecations.is_none());
}

fn gradle_dep(t: Option<&str>, ns: Option<&str>, name: &str, url: Option<&str>) -> GradleDependency {
    GradleDependency {
        scheme: Some("pkg".to_string()),
        dependency_type: t.map(|x| x.to_string()),
        namespace: ns.map(|x| x.to_string()),
        name: Some(name.to_string()),
        version: Some("1.0".to_string()),
        qualifiers: vec![],
        purl: Some(format!("pkg:maven/{}", name)),
        repository: url.map(|u| DependencyRepository {
            url: Some(u.to_string()),
            repository_type: Some("maven".to_string()),
            resolution_source: Some("remote".to_string()),
        }),
    }
}

fn dependency_list() -> GradleDependencies {
    GradleDependencies {
        dependencies: vec![
            gradle_dep(Some("npm"), None, "left-pad", None),
            gradle_dep(Some("maven"), Some("org.b"), "zeta", Some("https://r")),
            gradle_dep(Some("maven"), Some("com.a"), "omega", Some("https://r")),
            gradle_dep(None, Some("x"), "mystery", None),
            gradle_dep(Some("maven"), Some("com.a"), "alpha", Some("https://r")),
            gradle_dep(Some("maven"), Some("com.a"), "alpha", None),
        ],
    }
}

fn names(out: &DependenciesOutput, group: usize) -> Vec<String> {
    out.groups[group]
        .dependencies
        .iter()
        .map(|d| format!("{}:{}", d.namespace.clone().unwrap_or_default(), d.name.clone().unwrap_or_default()))
        .collect()
}

#[test]
fn dependencies_grouped_by_type_and_sorted() {
    let out = DependenciesOutput::from_dependencies(&dependency_list());
    assert_eq!(out.total, 6);
    let types: Vec<&str> = out.groups.iter().map(|g| g.dependency_type.as_str()).collect();
    assert_eq!(types, vec!["maven", "npm", "unknown"]);
    assert_eq!(names(&out, 0), vec!["com.a:alpha", "com.a:alpha", "com.a:omega", "org.b:zeta"]);
    assert_eq!(names(&out, 1), vec![":left-pad"]);
    assert_eq!(names(&out, 2), vec!["x:mystery"]);
    // The same dependency resolved twice is kept twice: first the one without a repository.
    assert_eq!(out.groups[0].dependencies[0].repository_url, None);
    assert_eq!(out.groups[0].dependencies[1].repository_url.as_deref(), Some("https://r"));
    assert_eq!(out.groups[0].dependencies[1].resolution_source.as_deref(), Some("remote"));
    assert_eq!(out.groups[0].dependencies[1].purl.as_deref(), Some("pkg:maven/alpha"));
    assert_eq!(out.groups[0].dependencies[1].version.as_deref(), Some("1.0"));
}

#[test]
fn dependencies_empty() {
    let out = DependenciesOutput::from_dependencies(&GradleDependencies { dependencies: vec![] });
    assert_eq!(out.total, 0);
    assert!(out.groups.is_empty());
}

#[test]
fn dependencies_without_namespace_sort_first() {
    let deps = GradleDependencies {
        dependencies: vec![
            gradle_dep(Some("maven"), Some("a"), "b", None),
            gradle_dep(Some("maven"), None, "z", None),
        ],
    };
    let out = DependenciesOutput::from_dependencies(&deps);
    assert_eq!(names(&out, 0), vec![":z", "a:b"]);
}

#[test]
fn build_output_from_details_with_dependencies() {
    let mut d = details("gradle");
    d.dependencies = Some(dependency_list());
    let out = BuildOutput::from_details(d, String::new(), false);
    let deps = out.dependencies.as_ref().unwrap();
    assert_eq!(deps.total, 6);
    assert_eq!(deps.groups.len(), 3);
    let out = BuildOutput::from_details(details("gradle"), String::new(), false);
    assert!(out.dependencies.is_none());
}
