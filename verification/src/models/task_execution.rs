//! Data models for `GET /api/builds/{id}/gradle-build-cache-performance`:
//! per-task execution details, cache avoidance outcomes, durations and savings.
use crate::text::{starts_with_spec, text};
use vstd::prelude::*;

verus! {

/// An IEEE-754 binary64 value carried through the library by its bit pattern.
///
/// The library never computes with it; it is passed on unchanged to the places
/// that print it.
#[derive(Debug, Clone, Copy, PartialEq, Eq, Structural)]
pub struct Float64 {
    /// The bit pattern (`f64::to_bits`).
    pub bits: u64,
}

/// Top-level response from `/api/builds/{id}/gradle-build-cache-performance`.
#[derive(Debug)]
pub struct GradleBuildCachePerformance {
    /// Build scan ID.
    pub id: String,
    /// Total build time in milliseconds.
    pub build_time: i64,
    /// Effective task execution time in milliseconds (parallelism-adjusted).
    pub effective_task_execution_time: i64,
    /// Effective work unit execution time in milliseconds.
    pub effective_work_unit_execution_time: i64,
    /// Serial task execution time in milliseconds (sum of all task durations).
    pub serial_task_execution_time: i64,
    /// Serial work unit execution time in milliseconds.
    pub serial_work_unit_execution_time: i64,
    /// Serialization factor (serial / effective).
    pub serialization_factor: Float64,
    /// Per-task execution entries.
    pub task_execution: Vec<TaskExecutionEntry>,
    /// Task fingerprinting summary.
    pub task_fingerprinting_summary: Option<FingerprintingSummary>,
    /// Work unit fingerprinting summary.
    pub work_unit_fingerprinting_summary: Option<FingerprintingSummary>,
    /// Deprecated avoidance savings summary (required by the API).
    pub avoidance_savings_summary: AvoidanceSavingsSummary,
    /// Task avoidance savings summary.
    pub task_avoidance_savings_summary: AvoidanceSavingsSummary,
    /// Work unit avoidance savings summary.
    pub work_unit_avoidance_savings_summary: AvoidanceSavingsSummary,
    /// Build cache configuration.
    pub build_caches: Option<BuildCaches>,
}

/// Per-task execution entry with cache performance details.
#[derive(Debug)]
pub struct TaskExecutionEntry {
    /// Gradle task path (e.g., ":app:compileJava").
    pub task_path: String,
    /// Fully qualified task type.
    pub task_type: String,
    /// How the task was avoided or executed.
    pub avoidance_outcome: AvoidanceOutcome,
    /// Task duration in milliseconds.
    pub duration: i64,
    /// Fingerprinting duration in milliseconds.
    pub fingerprinting_duration: Option<i64>,
    /// Time saved by avoidance in milliseconds.
    pub avoidance_savings: Option<i64>,
    /// Why the task is not cacheable.
    pub non_cacheability_category: Option<NonCacheabilityCategory>,
    /// Human-readable reason for non-cacheability.
    pub non_cacheability_reason: Option<String>,
    /// Reason the task was skipped.
    pub skip_reason_message: Option<String>,
    /// Size of the cache artifact in bytes.
    pub cache_artifact_size: Option<i64>,
    /// Why the cache artifact was rejected.
    pub cache_artifact_rejected_reason: Option<CacheArtifactRejectedReason>,
    /// Cache key hash.
    pub cache_key: Option<String>,
    /// Whether the task failed.
    pub has_failed: bool,
}

/// How a task was avoided or executed.
#[derive(Debug, Clone, Copy, PartialEq, Eq, Structural)]
pub enum AvoidanceOutcome {
    /// Task was up-to-date.
    AvoidedUpToDate,
    /// Task output was found in the local cache.
    AvoidedFromLocalCache,
    /// Task output was found in the remote cache.
    AvoidedFromRemoteCache,
    /// Task was executed and is cacheable.
    ExecutedCacheable,
    /// Task was executed and is not cacheable.
    ExecutedNotCacheable,
    /// Task was executed with unknown cacheability.
    ExecutedUnknownCacheability,
    /// Task was avoided for an unknown reason.
    AvoidedUnknownReason,
    /// Lifecycle task (no actions).
    Lifecycle,
    /// Task had no source inputs.
    NoSource,
    /// Task was skipped.
    Skipped,
}

impl AvoidanceOutcome {
    /// The display text of an avoidance outcome.
    pub open spec fn text_of(self) -> Seq<char> {
        match self {
            AvoidanceOutcome::AvoidedUpToDate => "UP-TO-DATE"@,
            AvoidanceOutcome::AvoidedFromLocalCache => "FROM-CACHE (local)"@,
            AvoidanceOutcome::AvoidedFromRemoteCache => "FROM-CACHE (remote)"@,
            AvoidanceOutcome::ExecutedCacheable => "EXECUTED (cacheable)"@,
            AvoidanceOutcome::ExecutedNotCacheable => "EXECUTED (not cacheable)"@,
            AvoidanceOutcome::ExecutedUnknownCacheability => "EXECUTED (unknown cacheability)"@,
            AvoidanceOutcome::AvoidedUnknownReason => "AVOIDED (unknown)"@,
            AvoidanceOutcome::Lifecycle => "LIFECYCLE"@,
            AvoidanceOutcome::NoSource => "NO-SOURCE"@,
            AvoidanceOutcome::Skipped => "SKIPPED"@,
        }
    }

    /// Outcomes in which the task's work was avoided.
    pub open spec fn is_avoided(self) -> bool {
        ||| self == AvoidanceOutcome::AvoidedUpToDate
        ||| self == AvoidanceOutcome::AvoidedFromLocalCache
        ||| self == AvoidanceOutcome::AvoidedFromRemoteCache
        ||| self == AvoidanceOutcome::AvoidedUnknownReason
    }

    /// Outcomes in which the task was executed.
    pub open spec fn is_executed(self) -> bool {
        ||| self == AvoidanceOutcome::ExecutedCacheable
        ||| self == AvoidanceOutcome::ExecutedNotCacheable
        ||| self == AvoidanceOutcome::ExecutedUnknownCacheability
    }

    /// The display text of an avoidance outcome.
    pub fn to_string(&self) -> (r: String)
        ensures
            r@ == self.text_of(),
    {
        match self {
            AvoidanceOutcome::AvoidedUpToDate => text("UP-TO-DATE"),
            AvoidanceOutcome::AvoidedFromLocalCache => text("FROM-CACHE (local)"),
            AvoidanceOutcome::AvoidedFromRemoteCache => text("FROM-CACHE (remote)"),
            AvoidanceOutcome::ExecutedCacheable => text("EXECUTED (cacheable)"),
            AvoidanceOutcome::ExecutedNotCacheable => text("EXECUTED (not cacheable)"),
            AvoidanceOutcome::ExecutedUnknownCacheability => text("EXECUTED (unknown cacheability)"),
            AvoidanceOutcome::AvoidedUnknownReason => text("AVOIDED (unknown)"),
            AvoidanceOutcome::Lifecycle => text("LIFECYCLE"),
            AvoidanceOutcome::NoSource => text("NO-SOURCE"),
            AvoidanceOutcome::Skipped => text("SKIPPED"),
        }
    }

    /// Whether the outcome is an avoided one.
    pub fn avoided(&self) -> (r: bool)
        ensures
            r == self.is_avoided(),
    {
        match self {
            AvoidanceOutcome::AvoidedUpToDate
            | AvoidanceOutcome::AvoidedFromLocalCache
            | AvoidanceOutcome::AvoidedFromRemoteCache
            | AvoidanceOutcome::AvoidedUnknownReason => true,
            _ => false,
        }
    }

    /// Whether the outcome is an executed one.
    pub fn executed(&self) -> (r: bool)
        ensures
            r == self.is_executed(),
    {
        match self {
            AvoidanceOutcome::ExecutedCacheable
            | AvoidanceOutcome::ExecutedNotCacheable
            | AvoidanceOutcome::ExecutedUnknownCacheability => true,
            _ => false,
        }
    }
}

/// Whether an outcome text is that of a task that had no work to do.
pub open spec fn no_work_text(t: Seq<char>) -> bool {
    t == "LIFECYCLE"@ || t == "NO-SOURCE"@ || t == "SKIPPED"@
}

/// Every outcome is of exactly one kind, told by its text: executed when
/// its text starts with "EXECUTED", avoided when it is up-to-date, from a
/// cache or avoided for an unknown reason, and otherwise a task without work
/// (lifecycle, no source, skipped).
pub proof fn lemma_outcome_kind_by_text(o: AvoidanceOutcome)
    ensures
        o.is_executed() <==> starts_with_spec(o.text_of(), "EXECUTED"@),
        o.is_avoided() <==> (starts_with_spec(o.text_of(), "UP-TO-DATE"@) || starts_with_spec(
            o.text_of(),
            "FROM-CACHE"@,
        ) || starts_with_spec(o.text_of(), "AVOIDED"@)),
        !(o.is_executed() && o.is_avoided()),
        !o.is_executed() && !o.is_avoided() <==> no_work_text(o.text_of()),
{
    reveal_strlit("UP-TO-DATE");
    reveal_strlit("FROM-CACHE (local)");
    reveal_strlit("FROM-CACHE (remote)");
    reveal_strlit("EXECUTED (cacheable)");
    reveal_strlit("EXECUTED (not cacheable)");
    reveal_strlit("EXECUTED (unknown cacheability)");
    reveal_strlit("AVOIDED (unknown)");
    reveal_strlit("LIFECYCLE");
    reveal_strlit("NO-SOURCE");
    reveal_strlit("SKIPPED");
    reveal_strlit("EXECUTED");
    reveal_strlit("FROM-CACHE");
    reveal_strlit("AVOIDED");
    let t = o.text_of();
    match o {
        AvoidanceOutcome::AvoidedUpToDate => {
            assert(t.take(10) =~= "UP-TO-DATE"@);
            assert(t[0] != "EXECUTED"@[0]);
            assert(t.len() != "NO-SOURCE"@.len() && t.len() != "SKIPPED"@.len() && t[0] != "LIFECYCLE"@[0]);
        },
        AvoidanceOutcome::AvoidedFromLocalCache | AvoidanceOutcome::AvoidedFromRemoteCache => {
            assert(t.take(10) =~= "FROM-CACHE"@);
            assert(t[0] != "EXECUTED"@[0]);
            assert(t[0] != "LIFECYCLE"@[0] && t[0] != "NO-SOURCE"@[0] && t[0] != "SKIPPED"@[0]);
        },
        AvoidanceOutcome::AvoidedUnknownReason => {
            assert(t.take(7) =~= "AVOIDED"@);
            assert(t[0] != "EXECUTED"@[0]);
            assert(t[0] != "LIFECYCLE"@[0] && t[0] != "NO-SOURCE"@[0] && t[0] != "SKIPPED"@[0]);
        },
        AvoidanceOutcome::ExecutedCacheable | AvoidanceOutcome::ExecutedNotCacheable
        | AvoidanceOutcome::ExecutedUnknownCacheability => {
            assert(t.take(8) =~= "EXECUTED"@);
            assert(t[0] != "UP-TO-DATE"@[0] && t[0] != "FROM-CACHE"@[0] && t[0] != "AVOIDED"@[0]);
            assert(t[0] != "LIFECYCLE"@[0] && t[0] != "NO-SOURCE"@[0] && t[0] != "SKIPPED"@[0]);
        },
        AvoidanceOutcome::Lifecycle | AvoidanceOutcome::NoSource | AvoidanceOutcome::Skipped => {
            assert(t[0] != "UP-TO-DATE"@[0] && t[0] != "FROM-CACHE"@[0] && t[0] != "AVOIDED"@[0]);
            assert(t[0] != "EXECUTED"@[0]);
        },
    }
}

/// Why a task is not cacheable.
#[derive(Debug, Clone, Copy, PartialEq, Eq, Structural)]
pub enum NonCacheabilityCategory {
    BuildCacheNotEnabled,
    CacheIfConditionNotMatched,
    DisabledToEnsureCorrectness,
    DoNotCacheIfConditionMatched,
    MultipleOutputsDeclared,
    NoOutputsDeclared,
    NonCacheableInputs,
    NonCacheableTaskAction,
    NonCacheableTaskImplementation,
    NonCacheableTreeOutput,
    OverlappingOutputs,
    TaskHasNoActions,
    TaskOutputCachingNotEnabled,
    Unknown,
}

impl NonCacheabilityCategory {
    /// The display text of a non-cacheability category.
    pub open spec fn text_of(self) -> Seq<char> {
        match self {
            NonCacheabilityCategory::BuildCacheNotEnabled => "build cache not enabled"@,
            NonCacheabilityCategory::CacheIfConditionNotMatched => "cache-if condition not matched"@,
            NonCacheabilityCategory::DisabledToEnsureCorrectness => "disabled to ensure correctness"@,
            NonCacheabilityCategory::DoNotCacheIfConditionMatched => "do-not-cache-if condition matched"@,
            NonCacheabilityCategory::MultipleOutputsDeclared => "multiple outputs declared"@,
            NonCacheabilityCategory::NoOutputsDeclared => "no outputs declared"@,
            NonCacheabilityCategory::NonCacheableInputs => "non-cacheable inputs"@,
            NonCacheabilityCategory::NonCacheableTaskAction => "non-cacheable task action"@,
            NonCacheabilityCategory::NonCacheableTaskImplementation => "non-cacheable task implementation"@,
            NonCacheabilityCategory::NonCacheableTreeOutput => "non-cacheable tree output"@,
            NonCacheabilityCategory::OverlappingOutputs => "overlapping outputs"@,
            NonCacheabilityCategory::TaskHasNoActions => "task has no actions"@,
            NonCacheabilityCategory::TaskOutputCachingNotEnabled => "task output caching not enabled"@,
            NonCacheabilityCategory::Unknown => "unknown"@,
        }
    }

    /// The display text of a non-cacheability category.
    pub fn to_string(&self) -> (r: String)
        ensures
            r@ == self.text_of(),
    {
        match self {
            NonCacheabilityCategory::BuildCacheNotEnabled => text("build cache not enabled"),
            NonCacheabilityCategory::CacheIfConditionNotMatched => text("cache-if condition not matched"),
            NonCacheabilityCategory::DisabledToEnsureCorrectness => text("disabled to ensure correctness"),
            NonCacheabilityCategory::DoNotCacheIfConditionMatched => text("do-not-cache-if condition matched"),
            NonCacheabilityCategory::MultipleOutputsDeclared => text("multiple outputs declared"),
            NonCacheabilityCategory::NoOutputsDeclared => text("no outputs declared"),
            NonCacheabilityCategory::NonCacheableInputs => text("non-cacheable inputs"),
            NonCacheabilityCategory::NonCacheableTaskAction => text("non-cacheable task action"),
            NonCacheabilityCategory::NonCacheableTaskImplementation => text("non-cacheable task implementation"),
            NonCacheabilityCategory::NonCacheableTreeOutput => text("non-cacheable tree output"),
            NonCacheabilityCategory::OverlappingOutputs => text("overlapping outputs"),
            NonCacheabilityCategory::TaskHasNoActions => text("task has no actions"),
            NonCacheabilityCategory::TaskOutputCachingNotEnabled => text("task output caching not enabled"),
            NonCacheabilityCategory::Unknown => text("unknown"),
        }
    }
}

/// Why a cache artifact was rejected.
#[derive(Debug, Clone, Copy, PartialEq, Eq, Structural)]
pub enum CacheArtifactRejectedReason {
    /// Artifact exceeded the maximum allowed size.
    ArtifactExceedsMaximumSize,
    /// Artifact was rejected for an unknown reason.
    Unknown,
}

impl CacheArtifactRejectedReason {
    /// The display text of a rejection reason.
    pub open spec fn text_of(self) -> Seq<char> {
        match self {
            CacheArtifactRejectedReason::ArtifactExceedsMaximumSize => "artifact exceeds maximum size"@,
            CacheArtifactRejectedReason::Unknown => "unknown"@,
        }
    }

    /// The display text of a rejection reason.
    pub fn to_string(&self) -> (r: String)
        ensures
            r@ == self.text_of(),
    {
        match self {
            CacheArtifactRejectedReason::ArtifactExceedsMaximumSize => text("artifact exceeds maximum size"),
            CacheArtifactRejectedReason::Unknown => text("unknown"),
        }
    }
}

/// Avoidance savings summary (task or work unit level).
#[derive(Debug, Clone, Copy, PartialEq, Eq, Structural)]
pub struct AvoidanceSavingsSummary {
    /// Total avoidance savings in milliseconds.
    pub total: i64,
    /// Avoidance savings ratio (0.0 to 1.0).
    pub ratio: Float64,
    /// Savings from up-to-date avoidance in milliseconds.
    pub up_to_date: i64,
    /// Savings from local build cache in milliseconds.
    pub local_build_cache: i64,
    /// Savings from remote build cache in milliseconds.
    pub remote_build_cache: i64,
}

/// Fingerprinting summary (task or work unit level).
#[derive(Debug, Clone, Copy, PartialEq, Eq, Structural)]
pub struct FingerprintingSummary {
    /// Number of tasks fingerprinted.
    pub count: i32,
    /// Total serial fingerprinting duration in milliseconds.
    pub serial_duration: i64,
}

/// Build cache configuration.
#[derive(Debug)]
pub struct BuildCaches {
    /// Local build cache configuration.
    pub local: Option<LocalBuildCache>,
    /// Remote build cache configuration.
    pub remote: Option<RemoteBuildCache>,
    /// Cache overhead timings.
    pub overhead: Option<CacheOverhead>,
}

/// Local build cache configuration.
#[derive(Debug, Clone, Copy, PartialEq, Eq, Structural)]
pub struct LocalBuildCache {
    /// Whether the local cache is enabled.
    pub is_enabled: bool,
    /// Whether push to local cache is enabled (absent when disabled).
    pub is_push_enabled: Option<bool>,
    /// Whether the local cache can be used for remote storage.
    pub is_store_enabled_for_remote_build_cache: Option<bool>,
}

/// Remote build cache configuration.
#[derive(Debug)]
pub struct RemoteBuildCache {
    /// Whether the remote cache is enabled.
    pub is_enabled: bool,
    /// Whether push to remote cache is enabled (absent when disabled).
    pub is_push_enabled: Option<bool>,
    /// Remote cache URL.
    pub url: Option<String>,
}

/// Cache overhead timings.
#[derive(Debug, Clone, Copy, PartialEq, Eq, Structural)]
pub struct CacheOverhead {
    /// Upload overhead in milliseconds.
    pub uploading: i64,
    /// Download overhead in milliseconds.
    pub downloading: i64,
    /// Pack overhead in milliseconds.
    pub packing: i64,
    /// Unpack overhead in milliseconds.
    pub unpacking: i64,
}

} // verus!
