//! Data models for Develocity API responses.
pub mod build_info;
pub mod dependencies;
pub mod deprecations;
pub mod failures;
pub mod network_activity;
pub mod task_execution;
pub mod tests;

pub use build_info::{
    Build, BuildLink, BuildValue, DevelocitySettings, GradleAttributes, GradleBuildOptions,
    GradleEnvironment,
};
pub use dependencies::{DependencyQualifier, DependencyRepository, GradleDependencies, GradleDependency};
pub use deprecations::{
    DeprecationOwnerType, GradleDeprecationEntry, GradleDeprecationOwner, GradleDeprecationUsage,
    GradleDeprecations,
};
pub use failures::{GradleBuildFailure, GradleFailures, TestFailure, TestId};
pub use network_activity::{GradleNetworkActivity, NamedNetworkMetrics, NetworkActivityMetrics};
pub use task_execution::{
    AvoidanceOutcome, AvoidanceSavingsSummary, BuildCaches, CacheArtifactRejectedReason,
    CacheOverhead, Float64, FingerprintingSummary, GradleBuildCachePerformance, LocalBuildCache,
    NonCacheabilityCategory, RemoteBuildCache, TaskExecutionEntry,
};
pub use tests::{
    parse_test_outcomes, BuildTestOrContainer, BuildTestOrContainerDuration,
    BuildTestOrContainerExecution, BuildTestOrContainerOutcome, BuildTestWorkUnit,
    BuildTestsDuration, BuildTestsResponse, BuildTestsSummary, FlattenedTestCase, GradleTests,
    TestOutcome, TestOutcomeDistribution, TestWorkUnitOutcome,
};
