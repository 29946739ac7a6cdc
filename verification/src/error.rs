//! Error types for the Develocity CLI client.
use crate::text::{concat2, concat3, decimal, push_decimal, text};
use vstd::prelude::*;

pub mod exit_codes;

verus! {

/// The error `url::Url::parse` and `url::Url::join` report.
#[verifier::external_type_specification]
#[verifier::external_body]
pub struct ExUrlParseError(url::ParseError);

/// All possible errors that can occur in the CLI.
///
/// Errors that arise outside the library (HTTP transport, reading and parsing
/// the config file) carry the message of the underlying error.
#[derive(Debug)]
pub enum Error {
    /// Server URL is not configured.
    MissingServer,
    /// Access token is not configured.
    MissingToken,
    /// Invalid server URL provided.
    InvalidUrl(url::ParseError),
    /// HTTP request failed (the transport error's message).
    Http(String),
    /// Request timed out after the given number of seconds.
    Timeout(u64),
    /// Authentication failed (401).
    Unauthorized,
    /// Access denied (403).
    Forbidden,
    /// Build not found (404).
    BuildNotFound(String),
    /// Build is not a Gradle build: the build ID and its build tool type.
    NotGradleBuild(String, String),
    /// Generic API error.
    ApiError { status: u16, message: String },
    /// Failed to parse API response or an option value.
    Parse(String),
    /// Failed to read the config file.
    ConfigRead { path: String, message: String },
    /// Failed to parse the config file.
    ConfigParse { path: String, message: String },
}

impl Error {
    /// The process exit code for each kind of error.
    pub open spec fn exit_code_of(&self) -> i32 {
        match self {
            Error::MissingServer | Error::MissingToken | Error::InvalidUrl(_)
            | Error::ConfigRead { .. } | Error::ConfigParse { .. } => 1,
            Error::Http(_) | Error::Timeout(_) => 2,
            Error::Unauthorized | Error::Forbidden => 3,
            Error::BuildNotFound(_) => 4,
            Error::NotGradleBuild(_, _) => 5,
            Error::ApiError { .. } | Error::Parse(_) => 6,
        }
    }

    /// Returns the appropriate exit code for this error.
    ///
    /// Exit codes:
    /// - 1: Configuration error
    /// - 2: Network error
    /// - 3: Authentication/authorization error
    /// - 4: Build not found
    /// - 5: Wrong build type (not Gradle)
    /// - 6: API/Parse error
    pub fn exit_code(&self) -> (r: i32)
        ensures
            r == self.exit_code_of(),
            1 <= r <= 6,
            exit_code_documented(*self, r),
    {
        proof {
            lemma_exit_code_documented(*self);
        }
        match self {
            Error::MissingServer | Error::MissingToken | Error::InvalidUrl(_)
            | Error::ConfigRead { .. } | Error::ConfigParse { .. } => 1,
            Error::Http(_) | Error::Timeout(_) => 2,
            Error::Unauthorized | Error::Forbidden => 3,
            Error::BuildNotFound(_) => 4,
            Error::NotGradleBuild(_, _) => 5,
            Error::ApiError { .. } | Error::Parse(_) => 6,
        }
    }
}

/// The exit code documented for each kind of error: configuration errors
/// `CONFIG_ERROR`, transport failures `NETWORK_ERROR`, a refused token
/// (401 or 403) `AUTH_ERROR`, an unknown build `NOT_FOUND`, a build of
/// another tool `WRONG_BUILD_TYPE`, and other API answers or unreadable
/// responses `API_ERROR`; never `SUCCESS`.
pub open spec fn exit_code_documented(e: Error, code: i32) -> bool {
    &&& (e is MissingServer || e is MissingToken || e is InvalidUrl || e is ConfigRead
        || e is ConfigParse) ==> code == exit_codes::CONFIG_ERROR
    &&& (e is Http || e is Timeout) ==> code == exit_codes::NETWORK_ERROR
    &&& (e is Unauthorized || e is Forbidden) ==> code == exit_codes::AUTH_ERROR
    &&& e is BuildNotFound ==> code == exit_codes::NOT_FOUND
    &&& e is NotGradleBuild ==> code == exit_codes::WRONG_BUILD_TYPE
    &&& (e is ApiError || e is Parse) ==> code == exit_codes::API_ERROR
    &&& code != exit_codes::SUCCESS
}

/// Every error exits with the code documented for its kind; in particular
/// authentication failures exit with `AUTH_ERROR`.
pub proof fn lemma_exit_code_documented(e: Error)
    ensures
        exit_code_documented(e, e.exit_code_of()),
        (e is Unauthorized || e is Forbidden) ==> e.exit_code_of() == exit_codes::AUTH_ERROR,
{
}

/// Whether `t` is one of the descriptions `url` gives its parse errors.
pub open spec fn url_error_description(t: Seq<char>) -> bool {
    ||| t == "empty host"@
    ||| t == "invalid international domain name"@
    ||| t == "invalid port number"@
    ||| t == "invalid IPv4 address"@
    ||| t == "invalid IPv6 address"@
    ||| t == "invalid domain character"@
    ||| t == "relative URL without a base"@
    ||| t == "relative URL with a cannot-be-a-base base"@
    ||| t == "a cannot-be-a-base URL doesn\u{2019}t have a host to set"@
    ||| t == "URLs more than 4 GB are not supported"@
}

/// The description of a URL parse error (`url::ParseError`'s `Display`).
///
/// Trusted: renders the error with `to_string`. `url` describes each kind of
/// parse error with one fixed text; which kind the error is cannot be seen
/// from here, so only that the result is one of those texts is stated.
#[verifier::external_body]
fn url_error_text(e: &url::ParseError) -> (r: String)
    ensures
        url_error_description(r@),
{
    e.to_string()
}

/// The message text of an error; for `InvalidUrl`, the text before `url`'s
/// description of the parse error.
pub open spec fn message_of(e: Error) -> Seq<char> {
    match e {
        Error::MissingServer => "Server URL is required.\n  Set via: --server, DEVELOCITY_SERVER env var, or server in ~/.develocity/config.toml"@,
        Error::MissingToken => "Access token is required.\n  Set via: --token, DEVELOCITY_API_KEY env var, or token in ~/.develocity/config.toml"@,
        Error::InvalidUrl(_) => "Invalid server URL: "@,
        Error::Http(m) => "HTTP request failed: "@ + m@,
        Error::Timeout(secs) => "Request timed out after "@ + decimal(secs as nat) + " seconds"@,
        Error::Unauthorized => "Authentication failed (401).\n  Check your access key or token is valid and not expired."@,
        Error::Forbidden => "Access denied (403).\n  Ensure you have the 'Access build data via the API' permission."@,
        Error::BuildNotFound(id) => "Build not found: "@ + id@ + "\n  Verify the Build Scan ID is correct."@,
        Error::NotGradleBuild(id, tool) => "Build '"@ + id@ + "' is not a Gradle build (type: "@ + tool@
            + ").\n  This CLI only supports Gradle builds."@,
        Error::ApiError { status, message } => "API error ("@ + decimal(status as nat) + "): "@ + message@,
        Error::Parse(m) => "Failed to parse API response: "@ + m@,
        Error::ConfigRead { path, message } => "Failed to read config file '"@ + path@ + "': "@ + message@,
        Error::ConfigParse { path, message } => "Failed to parse config file '"@ + path@ + "': "@ + message@,
    }
}

impl Error {
    /// The message shown for an error. For an invalid URL it is
    /// `Invalid server URL: ` followed by `url`'s description of the parse
    /// error.
    pub fn message(&self) -> (r: String)
        ensures
            !(self is InvalidUrl) ==> r@ == message_of(*self),
            self is InvalidUrl ==> exists|d: Seq<char>| url_error_description(d) && r@ == message_of(*self) + d,
    {
        match self {
            Error::MissingServer => text(
                "Server URL is required.\n  Set via: --server, DEVELOCITY_SERVER env var, or server in ~/.develocity/config.toml",
            ),
            Error::MissingToken => text(
                "Access token is required.\n  Set via: --token, DEVELOCITY_API_KEY env var, or token in ~/.develocity/config.toml",
            ),
            Error::InvalidUrl(e) => {
                let d = url_error_text(e);
                let r = concat2("Invalid server URL: ", d.as_str());
                assert(url_error_description(d@) && r@ == message_of(*self) + d@);
                r
            },
            Error::Http(m) => concat2("HTTP request failed: ", m.as_str()),
            Error::Timeout(secs) => {
                let mut r = text("Request timed out after ");
                push_decimal(&mut r, *secs);
                r.append(" seconds");
                r
            },
            Error::Unauthorized => text(
                "Authentication failed (401).\n  Check your access key or token is valid and not expired.",
            ),
            Error::Forbidden => text(
                "Access denied (403).\n  Ensure you have the 'Access build data via the API' permission.",
            ),
            Error::BuildNotFound(id) => concat3(
                "Build not found: ",
                id.as_str(),
                "\n  Verify the Build Scan ID is correct.",
            ),
            Error::NotGradleBuild(id, tool) => {
                let mut r = concat3("Build '", id.as_str(), "' is not a Gradle build (type: ");
                r.append(tool.as_str());
                r.append(").\n  This CLI only supports Gradle builds.");
                r
            },
            Error::ApiError { status, message } => {
                let mut r = text("API error (");
                push_decimal(&mut r, *status as u64);
                r.append("): ");
                r.append(message.as_str());
                r
            },
            Error::Parse(m) => concat2("Failed to parse API response: ", m.as_str()),
            Error::ConfigRead { path, message } => {
                let mut r = concat3("Failed to read config file '", path.as_str(), "': ");
                r.append(message.as_str());
                r
            },
            Error::ConfigParse { path, message } => {
                let mut r = concat3("Failed to parse config file '", path.as_str(), "': ");
                r.append(message.as_str());
                r
            },
        }
    }
}

/// A specialized Result type for CLI operations.
pub type Result<T> = std::result::Result<T, Error>;

} // verus!
