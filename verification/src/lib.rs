//! Develocity CLI client library.
//!
//! The verified core of a client that queries Gradle build information from a
//! Develocity server: the data model of the API responses, configuration
//! merging, request planning and response classification, and the rendering
//! of build information as JSON-ready records and human-readable text.
use vstd::prelude::*;

pub mod client;
pub mod config;
pub mod error;
pub mod models;
pub mod output;
pub mod text;

verus! {

} // verus!
