//! Deprecation-related data models (`/api/builds/{id}/gradle-deprecations`).
use crate::text::text;
use vstd::prelude::*;

verus! {

/// Gradle deprecations from `/api/builds/{id}/gradle-deprecations`.
#[derive(Debug)]
pub struct GradleDeprecations {
    /// List of deprecation entries. Absent if deprecation capturing is not supported.
    pub deprecations: Option<Vec<GradleDeprecationEntry>>,
}

/// A single deprecation entry.
#[derive(Debug)]
pub struct GradleDeprecationEntry {
    /// Description of the deprecation.
    pub summary: String,
    /// Details about when the deprecated feature will be removed.
    pub removal_details: String,
    /// Advice on how to avoid using the deprecated feature.
    pub advice: Option<String>,
    /// URL to documentation about the deprecation.
    pub documentation_url: Option<String>,
    /// List of usages of this deprecation.
    pub usages: Vec<GradleDeprecationUsage>,
}

/// A single usage of a deprecation.
#[derive(Debug)]
pub struct GradleDeprecationUsage {
    /// Contextual advice specific to this usage.
    pub contextual_advice: Option<String>,
    /// The owner of this deprecation usage.
    pub owner: GradleDeprecationOwner,
}

/// The owner of a deprecation usage.
#[derive(Debug)]
pub struct GradleDeprecationOwner {
    /// The location of the deprecation usage (plugin id, task path, script path, etc.).
    pub location: Option<String>,
    /// The type of the owner.
    pub owner_type: DeprecationOwnerType,
}

/// The type of deprecation owner.
#[derive(Debug, Clone, Copy, PartialEq, Eq, Structural)]
pub enum DeprecationOwnerType {
    /// The owner is a plugin.
    Plugin,
    /// The owner is a script.
    Script,
    /// The owner is a task.
    Task,
    /// Unknown owner type.
    Unknown,
}

impl DeprecationOwnerType {
    /// The display text of an owner type.
    pub open spec fn text_of(self) -> Seq<char> {
        match self {
            DeprecationOwnerType::Plugin => "plugin"@,
            DeprecationOwnerType::Script => "script"@,
            DeprecationOwnerType::Task => "task"@,
            DeprecationOwnerType::Unknown => "unknown"@,
        }
    }

    /// The display text of an owner type (lowercase name).
    pub fn to_string(&self) -> (r: String)
        ensures
            r@ == self.text_of(),
    {
        match self {
            DeprecationOwnerType::Plugin => text("plugin"),
            DeprecationOwnerType::Script => text("script"),
            DeprecationOwnerType::Task => text("task"),
            DeprecationOwnerType::Unknown => text("unknown"),
        }
    }
}

} // verus!
