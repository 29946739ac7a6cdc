//! Data models for `GET /api/builds/{id}/gradle-network-activity`.
use vstd::prelude::*;

verus! {

/// Top-level response from `/api/builds/{id}/gradle-network-activity`.
#[derive(Debug)]
pub struct GradleNetworkActivity {
    /// Total number of network requests.
    pub network_request_count: i64,
    /// Total serial network request time in milliseconds.
    pub serial_network_request_time: i64,
    /// Total wall-clock network request time in milliseconds.
    pub wall_clock_network_request_time: i64,
    /// Total number of file downloads.
    pub file_download_count: i64,
    /// Total file download size in bytes.
    pub file_download_size: i64,
    /// Metrics broken down by HTTP method (e.g., "GET", "PUT"); names are distinct.
    pub methods: Vec<NamedNetworkMetrics>,
    /// Metrics broken down by repository URL; names are distinct.
    pub repositories: Vec<NamedNetworkMetrics>,
    /// Metrics broken down by HTTP method + repository URL; names are distinct.
    pub repository_methods: Vec<NamedNetworkMetrics>,
}

/// Network activity metrics for a subset of requests.
#[derive(Debug, Clone, Copy, PartialEq, Eq, Structural)]
pub struct NetworkActivityMetrics {
    /// Number of network requests.
    pub network_request_count: i64,
    /// Serial network request time in milliseconds.
    pub serial_network_request_time: i64,
    /// Number of file downloads.
    pub file_download_count: i64,
    /// File download size in bytes.
    pub file_download_size: i64,
    /// Wall-clock network request time in milliseconds.
    pub wall_clock_network_request_time: i64,
}

/// One entry of a metrics breakdown: the key (method or repository) and its metrics.
#[derive(Debug)]
pub struct NamedNetworkMetrics {
    /// The key of the breakdown entry.
    pub name: String,
    /// The metrics for that key.
    pub metrics: NetworkActivityMetrics,
}

/// No name occurs twice in a breakdown (it is a map from names to metrics).
pub open spec fn names_distinct(entries: Seq<NamedNetworkMetrics>) -> bool {
    forall|i: int, j: int|
        0 <= i < j < entries.len() ==> #[trigger] entries[i].name@ != #[trigger] entries[j].name@
}

impl GradleNetworkActivity {
    /// Every breakdown is a map: names are distinct within each.
    pub open spec fn wf(&self) -> bool {
        &&& names_distinct(self.methods@)
        &&& names_distinct(self.repositories@)
        &&& names_distinct(self.repository_methods@)
    }
}

} // verus!
