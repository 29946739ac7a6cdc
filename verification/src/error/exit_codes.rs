//! Exit code constants for documentation and testing.
use vstd::prelude::*;

verus! {

/// Success - build data retrieved successfully.
pub const SUCCESS: i32 = 0;
/// Configuration error - missing server/token, invalid URL, bad config file.
pub const CONFIG_ERROR: i32 = 1;
/// Network error - connection failed, timeout.
pub const NETWORK_ERROR: i32 = 2;
/// Authentication error - 401 Unauthorized, 403 Forbidden.
pub const AUTH_ERROR: i32 = 3;
/// Build not found - Build Scan ID doesn't exist.
pub const NOT_FOUND: i32 = 4;
/// Wrong build type - Build is not a Gradle build.
pub const WRONG_BUILD_TYPE: i32 = 5;
/// API/Parse error - Unexpected API response.
pub const API_ERROR: i32 = 6;

} // verus!
