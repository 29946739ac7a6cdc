//! Data models for `GET /api/builds/{id}/gradle-dependencies`.
use vstd::prelude::*;

verus! {

/// Top-level response from `/api/builds/{id}/gradle-dependencies`.
#[derive(Debug)]
pub struct GradleDependencies {
    /// List of resolved dependencies.
    pub dependencies: Vec<GradleDependency>,
}

/// One key-value qualifier of a package URL.
#[derive(Debug)]
pub struct DependencyQualifier {
    /// Qualifier key.
    pub key: String,
    /// Qualifier value.
    pub value: String,
}

/// A single resolved dependency.
#[derive(Debug)]
pub struct GradleDependency {
    /// Package scheme (e.g., "pkg").
    pub scheme: Option<String>,
    /// Package type (e.g., "maven").
    pub dependency_type: Option<String>,
    /// Package namespace (e.g., Maven group ID).
    pub namespace: Option<String>,
    /// Package name (e.g., Maven artifact ID).
    pub name: Option<String>,
    /// Package version.
    pub version: Option<String>,
    /// Key-value qualifiers; no key occurs twice (see `qualifiers_distinct`).
    pub qualifiers: Vec<DependencyQualifier>,
    /// Package URL (purl).
    pub purl: Option<String>,
    /// Repository information.
    pub repository: Option<DependencyRepository>,
}

impl GradleDependency {
    /// The qualifiers form a map: no key occurs twice.
    pub open spec fn qualifiers_distinct(&self) -> bool {
        forall|i: int, j: int|
            0 <= i < j < self.qualifiers@.len() ==> #[trigger] self.qualifiers@[i].key@
                != #[trigger] self.qualifiers@[j].key@
    }
}

/// Repository from which a dependency was resolved.
#[derive(Debug)]
pub struct DependencyRepository {
    /// Repository URL.
    pub url: Option<String>,
    /// Repository type.
    pub repository_type: Option<String>,
    /// Resolution source (e.g., "localCache", "remote").
    pub resolution_source: Option<String>,
}

} // verus!
