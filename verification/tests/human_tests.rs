use dvcli::output::human;
use dvcli::output::human::{AvoidanceRank, Figures};
use dvcli::output::{
    BuildFailureOutput, BuildOutput, DeprecationOutput, DeprecationUsageOutput, FailuresOutput,
    NetworkActivityEntryOutput, NetworkActivityOutput, ResultOutput, TaskEntryOutput,
    TaskExecutionOutput, TaskExecutionSummaryOutput, AvoidanceSavingsOutput, TestExecutionOutput,
    TestFailureOutput, TestSummaryOutput, TestsOutput,
};
use dvcli::models::Float64;
use dvcli::output::{DependenciesOutput, DependencyGroupOutput, DependencyOutput};

fn figures() -> Figures {
    Figures {
        pass_rate: "95.0".to_string(),
        avoidance_percent: "62".to_string(),
        avoidance_rank: AvoidanceRank::High,
        serialization_factor: "6.9".to_string(),
    }
}

fn empty_output() -> BuildOutput {
    BuildOutput {
        build_id: "abc123xyz".to_string(),
        build_scan_url: "https://ge.example.com/s/abc123xyz".to_string(),
        result: None,
        deprecations: None,
        failures: None,
        tests: None,
        task_execution: None,
        network_activity: None,
        dependencies: None,
    }
}

fn plain() {
    colored::control::set_override(false);
}

const HEAVY: &str = "════════════════════════════════════════════════════════════════";
const LIGHT: &str = "────────────────────────────────────────────────────────────────";

#[test]
fn header_only() {
    plain();
    let text = human::format(&empty_output(), false, &figures());
    let expected = format!("Build: abc123xyz\n🔗 https://ge.example.com/s/abc123xyz\n{}\n", HEAVY);
    assert_eq!(text, expected);
    assert_eq!(HEAVY.chars().count(), 64);
    assert_eq!(LIGHT.chars().count(), 64);
}

fn result(failed: bool) -> ResultOutput {
    ResultOutput {
        outcome: if failed { "failed" } else { "success" }.to_string(),
        has_failed: failed,
        has_verification_failure: Some(true),
        has_non_verification_failure: Some(true),
        project_name: Some("my-project".to_string()),
        gradle_version: "8.5".to_string(),
        build_duration_ms: 45000,
        build_start_time: "2024-01-02T03:04:05+00:00".to_string(),
        requested_tasks: vec!["build".to_string(), "test".to_string()],
        tags: vec![],
        username: Some("ci".to_string()),
        hostname: Some("agent".to_string()),
    }
}

#[test]
fn result_section() {
    plain();
    let mut out = empty_output();
    out.result = Some(result(true));
    let text = human::format(&out, false, &figures());
    let lines: Vec<&str> = text.lines().collect();
    assert_eq!(lines[4], "📊 Result");
    assert_eq!(lines[5], "   Status:      ✗ FAILED");
    assert_eq!(lines[6], "   Project:     my-project");
    assert_eq!(lines[7], "   Gradle:      8.5");
    assert_eq!(lines[8], "   Duration:    45s");
    assert_eq!(lines[9], "   Started:     2024-01-02 03:04:05 UTC");
    assert_eq!(lines[10], "   Tasks:       build, test");
    assert_eq!(lines[11], "   User:        ci @ agent");
    assert_eq!(lines[12], "   Failure:     verification, non-verification failures");
    assert_eq!(lines.len(), 13);

    let mut r = result(false);
    r.build_start_time = "not a time".to_string();
    out.result = Some(r);
    let text = human::format(&out, false, &figures());
    assert!(text.contains("   Status:      ✓ SUCCESS\n"));
    assert!(text.contains("   Started:     not a time\n"));
    assert!(!text.contains("Failure:"));
}

#[test]
fn deprecations_section() {
    plain();
    let mut out = empty_output();
    out.deprecations = Some(vec![]);
    let text = human::format(&out, false, &figures());
    assert!(text.contains("\u{26a0}\u{fe0f}  Deprecations (0)\n   No deprecations found\n"));

    out.deprecations = Some(vec![
        DeprecationOutput {
            summary: "Old API".to_string(),
            removal_details: "Gradle 9.0".to_string(),
            advice: Some("Use new API".to_string()),
            documentation_url: None,
            usage_count: 1,
            usages: vec![DeprecationUsageOutput {
                owner_type: "plugin".to_string(),
                location: None,
                contextual_advice: Some("ctx".to_string()),
            }],
        },
        DeprecationOutput {
            summary: "Other".to_string(),
            removal_details: "Gradle 10".to_string(),
            advice: None,
            documentation_url: Some("https://docs".to_string()),
            usage_count: 0,
            usages: vec![],
        },
    ]);
    let text = human::format(&out, false, &figures());
    let expected = format!(
        "\u{26a0}\u{fe0f}  Deprecations (2)\n{}\n   1. Old API\n      Removal:  Gradle 9.0\n      Advice:   Use new API\n      Used by:\n        • plugin: <unknown>\n          ctx\n\n   2. Other\n      Removal:  Gradle 10\n      Doc:      https://docs\n",
        LIGHT
    );
    assert!(text.contains(&expected), "{}", text);
}

#[test]
fn failures_section() {
    plain();
    let mut out = empty_output();
    let failures = |stack: Option<String>| FailuresOutput {
        build_failures: vec![BuildFailureOutput {
            header: "Task :compileJava FAILED".to_string(),
            message: "line one\r\nline two\n".to_string(),
            task_path: None,
            location: Some("Foo.java:3".to_string()),
            stacktrace: stack,
        }],
        test_failures: Some(vec![TestFailureOutput {
            class_name: "com.example.MyTest".to_string(),
            test_name: Some("testIt".to_string()),
            message: "expected true\nbut was false".to_string(),
            stacktrace: None,
        }]),
    };
    out.failures = Some(failures(None));
    let text = human::format(&out, false, &figures());
    let expected = format!(
        "❌ Build Failures (1)\n{l}\n   1. Task :compileJava FAILED\n      Location: Foo.java:3\n\n      line one\n      line two\n\n❌ Test Failures (1)\n{l}\n   1. com.example.MyTest > testIt\n      expected true\n",
        l = LIGHT
    );
    assert!(text.contains(&expected), "{}", text);

    let stack: String = (1..=25).map(|i| format!("at frame{}\n", i)).collect();
    out.failures = Some(failures(Some(stack)));
    let text = human::format(&out, true, &figures());
    assert!(text.contains("      Stacktrace:\n      at frame1\n"));
    assert!(text.contains("      at frame20\n      5 more lines...\n"));
    assert!(!text.contains("at frame21"));
    assert!(text.contains("      expected true\n      but was false\n"));

    let text = human::format(&out, false, &figures());
    assert!(text.contains("   [Use --verbose for stacktraces]\n"));
}

fn test_exec(name: &str, outcome: &str, count: usize) -> TestExecutionOutput {
    TestExecutionOutput {
        work_unit: ":test".to_string(),
        class_name: "Suite".to_string(),
        test_name: Some(name.to_string()),
        outcome: outcome.to_string(),
        duration_ms: 120,
        execution_count: count,
    }
}

#[test]
fn tests_section() {
    plain();
    let mut out = empty_output();
    let mut tests = vec![test_exec("bad", "failed", 1), test_exec("shaky", "flaky", 2), test_exec("skip", "skipped", 1)];
    for i in 0..22 {
        tests.push(test_exec(&format!("ok{}", i), "passed", 1));
    }
    out.tests = Some(TestsOutput {
        summary: TestSummaryOutput { total: 25, passed: 22, failed: 1, skipped: 1, flaky: 1, not_selected: 0, duration_ms: 45000 },
        tests,
    });
    let text = human::format(&out, false, &figures());
    let expected = format!(
        "❌ Tests (22 passed, 1 failed, 1 skipped, 1 flaky)\n   Total: 25 tests in 45s\n   Pass rate: 95.0%\n{}\n\n   ✗ Failed Tests:\n      1. Suite > bad (120ms)\n         Work unit: :test\n\n   ⚠ Flaky Tests:\n      1. Suite > shaky (120ms)\n         Work unit: :test\n         Executions: 2 (retried)\n",
        LIGHT
    );
    assert!(text.contains(&expected), "{}", text);
    assert!(!text.contains("Skipped Tests"));
    assert!(!text.contains("Passed Tests"));

    let text = human::format(&out, true, &figures());
    assert!(text.contains("\n   ⊘ Skipped Tests:\n      • Suite > skip\n"));
    assert!(text.contains("\n   ✓ Passed Tests (22):\n      ✓ Suite > ok0 (120ms)\n"));
    assert!(text.contains("      ✓ Suite > ok19 (120ms)\n      ... and 2 more\n"));
    assert!(!text.contains("ok20"));
}

fn entry(path: &str, outcome: &str, failed: bool) -> TaskEntryOutput {
    TaskEntryOutput {
        task_path: path.to_string(),
        outcome: outcome.to_string(),
        duration_ms: 1500,
        has_failed: failed,
        task_type: Some("org.gradle.api.tasks.compile.JavaCompile".to_string()),
        cache_key: None,
        cache_artifact_size: Some(2048),
        non_cacheability_reason: None,
    }
}

#[test]
fn task_execution_section() {
    plain();
    let mut out = empty_output();
    out.task_execution = Some(TaskExecutionOutput {
        summary: TaskExecutionSummaryOutput {
            build_time_ms: 135000,
            effective_task_execution_time_ms: 108000,
            serial_task_execution_time_ms: 750000,
            serialization_factor: Float64 { bits: 6.9f64.to_bits() },
            total_tasks: 4,
            avoided_tasks: 2,
            executed_tasks: 1,
        },
        avoidance_savings: AvoidanceSavingsOutput {
            total_ms: 525000,
            ratio: Float64 { bits: 0.62f64.to_bits() },
            up_to_date_ms: 372000,
            local_build_cache_ms: 0,
            remote_build_cache_ms: 63000,
        },
        tasks: vec![
            entry(":a", "UP-TO-DATE", false),
            entry(":b", "EXECUTED (cacheable)", true),
            entry(":c", "UP-TO-DATE", false),
            entry(":d", "FROM-CACHE (local)", false),
        ],
    });
    let text = human::format(&out, false, &figures());
    let expected = format!(
        "\u{2699}\u{fe0f}  Task Execution (4 tasks, 62% avoidance)\n{}\n   Build time:       2m 15s\n   Task execution:   1m 48s (effective), 12m 30s (serial)\n   Parallelism:      6.9x serialization factor\n\n   Avoided:    2 tasks  (saved 8m 45s)\n     • Up-to-date:   6m 12s\n     • Remote cache: 1m 3s\n   Executed:   1 tasks\n\n   ✗ Failed Tasks:\n      ✗ :b (1s)\n\n   ▸ Breakdown:\n         1  EXECUTED (cacheable)\n         1  FROM-CACHE (local)\n         2  UP-TO-DATE\n\n   [Use --verbose for per-task details]\n",
        LIGHT
    );
    assert!(text.contains(&expected), "{}", text);

    let text = human::format(&out, true, &figures());
    assert!(text.contains("   ▸ All Tasks:\n      UP-TO-DATE :a [1s]\n         Type: JavaCompile\n         Cache artifact: 2.0 KB\n"));
    assert!(text.contains("      EXECUTED (cacheable) :b [1s] FAILED\n"));
}

fn net_entry(name: &str, reqs: i64, files: i64) -> NetworkActivityEntryOutput {
    NetworkActivityEntryOutput {
        name: name.to_string(),
        network_request_count: reqs,
        serial_network_request_time_ms: 10,
        wall_clock_network_request_time_ms: 5,
        file_download_count: files,
        file_download_size_bytes: 1536,
    }
}

#[test]
fn network_section() {
    plain();
    let mut out = empty_output();
    out.network_activity = Some(NetworkActivityOutput {
        network_request_count: 42,
        serial_network_request_time_ms: 5000,
        wall_clock_network_request_time_ms: 3000,
        file_download_count: 10,
        file_download_size_bytes: 1048576,
        methods: vec![net_entry("GET", 38, 10), net_entry("HEAD", 4, 0)],
        repositories: (0..7).map(|i| net_entry(&format!("https://r{}", i), 7 - i, 0)).collect(),
    });
    let text = human::format(&out, false, &figures());
    let expected = format!(
        "🌐 Network Activity (42 requests, 1.0 MB)\n{}\n   Requests:     42\n   Downloads:    10 files, 1.0 MB\n   Time:         3s wall-clock, 5s serial\n\n   ▸ By method:\n      • GET: 38 reqs, 10 files (1.5 KB)\n      • HEAD: 4 reqs\n\n   ▸ By repository:\n      • https://r0: 7 reqs\n",
        LIGHT
    );
    assert!(text.contains(&expected), "{}", text);
    assert!(text.contains("      • https://r4: 3 reqs\n   [2 more repositories — use --verbose to see all]\n"));
    assert!(!text.contains("https://r5"));
    let text = human::format(&out, true, &figures());
    assert!(text.contains("https://r6: 1 reqs"));
    assert!(!text.contains("more repositories"));
}

fn dep(ns: Option<&str>, name: &str, version: Option<&str>) -> DependencyOutput {
    DependencyOutput {
        namespace: ns.map(|x| x.to_string()),
        name: Some(name.to_string()),
        version: version.map(|x| x.to_string()),
        repository_url: Some("https://repo.maven.apache.org/maven2/".to_string()),
        resolution_source: Some("remote".to_string()),
        purl: Some(format!("pkg:maven/{}", name)),
    }
}

#[test]
fn dependencies_section() {
    plain();
    let mut out = empty_output();
    out.dependencies = Some(DependenciesOutput {
        total: 24,
        groups: vec![
            DependencyGroupOutput {
                dependency_type: "maven".to_string(),
                dependencies: (0..23).map(|i| dep(Some("com.example"), &format!("lib{:02}", i), Some("1.0"))).collect(),
            },
            DependencyGroupOutput {
                dependency_type: "npm".to_string(),
                dependencies: vec![dep(None, "left-pad", None)],
            },
        ],
    });
    let text = human::format(&out, false, &figures());
    let expected = format!(
        "📦 Dependencies (24 resolved)\n{}\n\n   ▸ maven (23):\n      • com.example:lib00:1.0\n      • com.example:lib01:1.0\n",
        LIGHT
    );
    assert!(text.contains(&expected), "{}", text);
    assert!(text.contains("      • com.example:lib19:1.0\n   [3 more dependencies — use --verbose to see all]\n\n   ▸ npm (1):\n      • left-pad\n"), "{}", text);
    assert!(!text.contains("lib20"));
    assert!(!text.contains("purl"));
    let text = human::format(&out, true, &figures());
    assert!(text.contains("      • com.example:lib22:1.0\n        purl: pkg:maven/lib22\n        repository: https://repo.maven.apache.org/maven2/\n        source: remote\n"), "{}", text);
    assert!(!text.contains("more dependencies"));
}

#[test]
fn dependencies_section_empty() {
    plain();
    let mut out = empty_output();
    out.dependencies = Some(DependenciesOutput { total: 0, groups: vec![] });
    let text = human::format(&out, false, &figures());
    assert!(text.contains(&format!("📦 Dependencies (0 resolved)\n{}\n   No dependencies resolved\n", LIGHT)), "{}", text);
}

#[test]
fn dependency_without_name() {
    plain();
    let mut out = empty_output();
    let mut d = dep(Some("org.x"), "y", None);
    d.name = None;
    out.dependencies = Some(DependenciesOutput {
        total: 1,
        groups: vec![DependencyGroupOutput { dependency_type: "unknown".to_string(), dependencies: vec![d] }],
    });
    let text = human::format(&out, false, &figures());
    assert!(text.contains("   ▸ unknown (1):\n      • org.x:<unnamed>\n"), "{}", text);
}
