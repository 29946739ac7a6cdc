use dvcli::models::{
    parse_test_outcomes, AvoidanceOutcome, BuildTestOrContainer, BuildTestOrContainerDuration,
    BuildTestOrContainerExecution, BuildTestOrContainerOutcome, BuildTestWorkUnit, BuildTestsDuration,
    BuildTestsResponse, BuildTestsSummary, CacheArtifactRejectedReason, DeprecationOwnerType,
    NonCacheabilityCategory, TestId, TestOutcome, TestOutcomeDistribution, TestWorkUnitOutcome,
};

#[test]
fn test_avoidance_outcome_display() {
    assert_eq!(AvoidanceOutcome::AvoidedUpToDate.to_string(), "UP-TO-DATE");
    assert_eq!(
        AvoidanceOutcome::AvoidedFromLocalCache.to_string(),
        "FROM-CACHE (local)"
    );
    assert_eq!(
        AvoidanceOutcome::AvoidedFromRemoteCache.to_string(),
        "FROM-CACHE (remote)"
    );
    assert_eq!(
        AvoidanceOutcome::ExecutedCacheable.to_string(),
        "EXECUTED (cacheable)"
    );
    assert_eq!(
        AvoidanceOutcome::ExecutedNotCacheable.to_string(),
        "EXECUTED (not cacheable)"
    );
    assert_eq!(AvoidanceOutcome::Lifecycle.to_string(), "LIFECYCLE");
    assert_eq!(AvoidanceOutcome::NoSource.to_string(), "NO-SOURCE");
    assert_eq!(AvoidanceOutcome::Skipped.to_string(), "SKIPPED");
}

#[test]
fn test_non_cacheability_category_display() {
    assert_eq!(
        NonCacheabilityCategory::BuildCacheNotEnabled.to_string(),
        "build cache not enabled"
    );
    assert_eq!(
        NonCacheabilityCategory::TaskOutputCachingNotEnabled.to_string(),
        "task output caching not enabled"
    );
    assert_eq!(NonCacheabilityCategory::Unknown.to_string(), "unknown");
}

#[test]
fn test_outcome_display() {
    assert_eq!(TestOutcome::Passed.to_string(), "passed");
    assert_eq!(TestOutcome::Failed.to_string(), "failed");
    assert_eq!(TestOutcome::Skipped.to_string(), "skipped");
    assert_eq!(TestOutcome::Flaky.to_string(), "flaky");
    assert_eq!(TestOutcome::NotSelected.to_string(), "notSelected");
    assert_eq!(TestOutcome::Unknown.to_string(), "unknown");
}

#[test]
fn test_outcome_from_str() {
    assert_eq!(
        "passed".parse::<TestOutcome>().unwrap(),
        TestOutcome::Passed
    );
    assert_eq!(
        "FAILED".parse::<TestOutcome>().unwrap(),
        TestOutcome::Failed
    );
    assert_eq!(
        "Skipped".parse::<TestOutcome>().unwrap(),
        TestOutcome::Skipped
    );
    assert_eq!("flaky".parse::<TestOutcome>().unwrap(), TestOutcome::Flaky);
    assert_eq!(
        "notSelected".parse::<TestOutcome>().unwrap(),
        TestOutcome::NotSelected
    );
    assert_eq!(
        "not_selected".parse::<TestOutcome>().unwrap(),
        TestOutcome::NotSelected
    );
    assert_eq!(
        "not-selected".parse::<TestOutcome>().unwrap(),
        TestOutcome::NotSelected
    );
    assert!("invalid".parse::<TestOutcome>().is_err());
}

#[test]
fn test_parse_test_outcomes() {
    let outcomes = parse_test_outcomes("failed,flaky").unwrap();
    assert_eq!(outcomes.len(), 2);
    assert_eq!(outcomes[0], TestOutcome::Failed);
    assert_eq!(outcomes[1], TestOutcome::Flaky);

    let outcomes = parse_test_outcomes("passed").unwrap();
    assert_eq!(outcomes.len(), 1);
    assert_eq!(outcomes[0], TestOutcome::Passed);

    let outcomes = parse_test_outcomes("").unwrap();
    assert!(outcomes.is_empty());

    assert!(parse_test_outcomes("failed,invalid").is_err());
}

#[test]
fn test_work_unit_outcome_display() {
    assert_eq!(TestWorkUnitOutcome::Passed.to_string(), "passed");
    assert_eq!(TestWorkUnitOutcome::Failed.to_string(), "failed");
    assert_eq!(TestWorkUnitOutcome::Skipped.to_string(), "skipped");
    assert_eq!(TestWorkUnitOutcome::Flaky.to_string(), "flaky");
    assert_eq!(TestWorkUnitOutcome::TimedOut.to_string(), "timed out");
    assert_eq!(TestWorkUnitOutcome::Unknown.to_string(), "unknown");
}

fn dur(total: Option<i64>, own: Option<i64>, serial: Option<i64>) -> BuildTestOrContainerDuration {
    BuildTestOrContainerDuration { total, own, serial }
}

fn outcome(overall: TestOutcome) -> BuildTestOrContainerOutcome {
    BuildTestOrContainerOutcome { overall, own: None, children: None }
}

fn execution(total: i64, o: TestOutcome) -> BuildTestOrContainerExecution {
    BuildTestOrContainerExecution { duration: dur(Some(total), None, None), outcome: outcome(o) }
}

fn distribution(total: i32, passed: i32, failed: i32) -> TestOutcomeDistribution {
    TestOutcomeDistribution { total, passed, failed, skipped: 0, flaky: 0, not_selected: 0 }
}

#[test]
fn test_flatten_test_cases() {
    let response = BuildTestsResponse {
        summary: BuildTestsSummary {
            duration: BuildTestsDuration { total: 100, serial: Some(100) },
            test_cases_outcome_distribution: distribution(2, 1, 1),
            test_containers_outcome_distribution: distribution(1, 1, 0),
        },
        work_units: vec![BuildTestWorkUnit {
            name: ":test".to_string(),
            duration: dur(Some(100), Some(10), Some(100)),
            outcome: TestWorkUnitOutcome::Failed,
            tests: vec![BuildTestOrContainer {
                name: "org.example.MyTest".to_string(),
                duration: dur(Some(90), Some(5), Some(90)),
                outcome: BuildTestOrContainerOutcome {
                    overall: TestOutcome::Failed,
                    own: Some(TestOutcome::Passed),
                    children: Some(TestOutcome::Failed),
                },
                executions: vec![],
                children: vec![
                    BuildTestOrContainer {
                        name: "testPass".to_string(),
                        duration: dur(Some(40), None, None),
                        outcome: outcome(TestOutcome::Passed),
                        executions: vec![execution(40, TestOutcome::Passed)],
                        children: vec![],
                    },
                    BuildTestOrContainer {
                        name: "testFail".to_string(),
                        duration: dur(Some(45), None, None),
                        outcome: outcome(TestOutcome::Failed),
                        executions: vec![
                            execution(20, TestOutcome::Failed),
                            execution(25, TestOutcome::Failed),
                        ],
                        children: vec![],
                    },
                ],
            }],
        }],
    };

    let flattened = response.flatten_test_cases();
    assert_eq!(flattened.len(), 2);

    assert_eq!(flattened[0].work_unit, ":test");
    assert_eq!(flattened[0].container_name, "org.example.MyTest");
    assert_eq!(flattened[0].test_name, "testPass");
    assert_eq!(flattened[0].outcome, TestOutcome::Passed);
    assert_eq!(flattened[0].duration_ms, 40);
    assert_eq!(flattened[0].execution_count, 1);

    assert_eq!(flattened[1].test_name, "testFail");
    assert_eq!(flattened[1].outcome, TestOutcome::Failed);
    assert_eq!(flattened[1].duration_ms, 45);
    assert_eq!(flattened[1].execution_count, 2);
}

#[test]
fn test_flatten_empty_work_units() {
    let response = BuildTestsResponse {
        summary: BuildTestsSummary {
            duration: BuildTestsDuration { total: 0, serial: None },
            test_cases_outcome_distribution: distribution(0, 0, 0),
            test_containers_outcome_distribution: distribution(0, 0, 0),
        },
        work_units: vec![],
    };

    let flattened = response.flatten_test_cases();
    assert!(flattened.is_empty());
}

// ---------------------------------------------------------------------------
// Further cases.
// ---------------------------------------------------------------------------

#[test]
fn outcome_text_round_trip() {
    for o in [
        TestOutcome::Passed,
        TestOutcome::Failed,
        TestOutcome::Skipped,
        TestOutcome::Flaky,
        TestOutcome::NotSelected,
    ] {
        assert_eq!(o.to_string().parse::<TestOutcome>().unwrap(), o);
    }
    assert!("unknown".parse::<TestOutcome>().is_err());
}

#[test]
fn outcome_error_message_lower_cases() {
    assert_eq!(
        TestOutcome::parse_str("Bogus").unwrap_err(),
        "Invalid test outcome 'bogus'. Valid values: passed, failed, skipped, flaky, notSelected"
    );
}

#[test]
fn parse_test_outcomes_trims_pieces() {
    let outcomes = parse_test_outcomes("  failed , NOT_SELECTED ").unwrap();
    assert_eq!(outcomes, vec![TestOutcome::Failed, TestOutcome::NotSelected]);
    assert!(parse_test_outcomes("   ").unwrap().is_empty());
    assert!(parse_test_outcomes("failed,").is_err());
}

#[test]
fn flatten_skips_containers_and_keeps_tree_order() {
    let leaf = |name: &str, o: TestOutcome, d: i64| BuildTestOrContainer {
        name: name.to_string(),
        duration: dur(Some(d), None, None),
        outcome: outcome(o),
        executions: vec![execution(d, o)],
        children: vec![],
    };
    let nested = BuildTestOrContainer {
        name: "Inner".to_string(),
        duration: dur(None, None, None),
        outcome: outcome(TestOutcome::Passed),
        executions: vec![],
        children: vec![leaf("a", TestOutcome::Passed, 1)],
    };
    let outer = BuildTestOrContainer {
        name: "Outer".to_string(),
        duration: dur(None, None, None),
        outcome: outcome(TestOutcome::Passed),
        executions: vec![],
        children: vec![nested, leaf("b", TestOutcome::Skipped, 2)],
    };
    let response = BuildTestsResponse {
        summary: BuildTestsSummary {
            duration: BuildTestsDuration { total: 3, serial: None },
            test_cases_outcome_distribution: distribution(2, 1, 0),
            test_containers_outcome_distribution: distribution(2, 2, 0),
        },
        work_units: vec![BuildTestWorkUnit {
            name: ":t".to_string(),
            duration: dur(None, None, None),
            outcome: TestWorkUnitOutcome::Passed,
            tests: vec![outer],
        }],
    };
    let flat = response.flatten_test_cases();
    assert_eq!(flat.len(), 2);
    assert_eq!(flat[0].container_name, "Outer.Inner");
    assert_eq!(flat[0].test_name, "a");
    assert_eq!(flat[1].container_name, "Outer");
    assert_eq!(flat[1].test_name, "b");
    assert_eq!(flat[1].outcome, TestOutcome::Skipped);
}

#[test]
fn avoidance_outcome_classes() {
    assert!(AvoidanceOutcome::AvoidedUpToDate.avoided());
    assert!(AvoidanceOutcome::AvoidedFromRemoteCache.avoided());
    assert!(!AvoidanceOutcome::ExecutedCacheable.avoided());
    assert!(AvoidanceOutcome::ExecutedNotCacheable.executed());
    assert!(!AvoidanceOutcome::NoSource.executed());
    assert!(!AvoidanceOutcome::NoSource.avoided());
}

#[test]
fn other_display_texts() {
    assert_eq!(DeprecationOwnerType::Plugin.to_string(), "plugin");
    assert_eq!(CacheArtifactRejectedReason::Unknown.to_string(), "unknown");
    let id = TestId { work_unit_name: ":test".to_string(), suite_name: "S".to_string(), test_name: Some("t".to_string()) };
    assert_eq!(id.display_name(), "S > t");
    let id = TestId { work_unit_name: ":test".to_string(), suite_name: "S".to_string(), test_name: None };
    assert_eq!(id.display_name(), "S");
}

#[test]
fn test_outcome_text_round_trip() {
    for o in [
        TestOutcome::Passed,
        TestOutcome::Failed,
        TestOutcome::Skipped,
        TestOutcome::Flaky,
        TestOutcome::NotSelected,
    ] {
        assert_eq!(o.to_string().parse::<TestOutcome>(), Ok(o));
        assert_eq!(o.to_string().to_uppercase().parse::<TestOutcome>(), Ok(o));
    }
    assert_eq!(
        TestOutcome::Unknown.to_string().parse::<TestOutcome>(),
        Err("Invalid test outcome 'unknown'. Valid values: passed, failed, skipped, flaky, notSelected".to_string())
    );
    assert!("UNKNOWN".parse::<TestOutcome>().is_err());
    assert_eq!("NOTSELECTED".parse::<TestOutcome>(), Ok(TestOutcome::NotSelected));
}
