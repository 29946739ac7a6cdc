//! The Develocity API client's decisions: where each request goes, how a
//! response status is read, and how the fetched sections are combined.
//!
//! Sending the requests is left to the caller; this module says what to ask
//! for and what the answers mean.
use crate::config::IncludeOptions;
use crate::error::Error;
use crate::models::build_info::{Build, GradleAttributes};
use crate::models::dependencies::GradleDependencies;
use crate::models::deprecations::GradleDeprecations;
use crate::models::failures::GradleFailures;
use crate::models::network_activity::GradleNetworkActivity;
use crate::models::task_execution::GradleBuildCachePerformance;
use crate::models::tests::{GradleTests, TestOutcome};
use crate::text::{chars_of, concat2, concat3, copy, text};
use vstd::prelude::*;

verus! {

// ---------------------------------------------------------------------------
// Trusted: the `url` crate.
// ---------------------------------------------------------------------------

/// The serialization of the URL `url::Url::parse` makes of `input`, or `None`
/// when it rejects the input.
pub uninterp spec fn url_parsed(input: Seq<char>) -> Option<Seq<char>>;

/// Parses an absolute URL and returns its serialization.
///
/// Trusted: calls `url::Url::parse(input)` and converts the URL to its
/// serialization (`String::from`). The result is named `url_parsed`; the
/// error is the one `url` reports.
#[verifier::external_body]
fn parse_url(input: &str) -> (r: Result<String, url::ParseError>)
    ensures
        match r {
            Ok(s) => url_parsed(input@) == Some(s@),
            Err(_) => url_parsed(input@) is None,
        },
{
    match url::Url::parse(input) {
        Ok(u) => Ok(String::from(u)),
        Err(e) => Err(e),
    }
}

/// The serialization of the URL that `input` denotes relative to `base`
/// (`url::Url::join`), or `None` when it is rejected.
pub uninterp spec fn url_joined(base: Seq<char>, input: Seq<char>) -> Option<Seq<char>>;

/// Resolves a relative reference against a base URL.
///
/// Trusted: parses `base` with `url::Url::parse` and resolves `input`
/// against it with `url::Url::join`, returning the serialization of the
/// result. The result is named `url_joined`; the error is the one `url`
/// reports.
#[verifier::external_body]
fn join_url(base: &str, input: &str) -> (r: Result<String, url::ParseError>)
    ensures
        match r {
            Ok(s) => url_joined(base@, input@) == Some(s@),
            Err(_) => url_joined(base@, input@) is None,
        },
{
    match url::Url::parse(base) {
        Ok(b) => match b.join(input) {
            Ok(u) => Ok(String::from(u)),
            Err(e) => Err(e),
        },
        Err(e) => Err(e),
    }
}

/// The serialization of `url` with the query pair `name=value` appended
/// (`url::form_urlencoded` serialization), or `None` when `url` does not parse.
pub uninterp spec fn url_with_pair(url: Seq<char>, name: Seq<char>, value: Seq<char>) -> Option<Seq<char>>;

/// Appends one `name=value` pair to the query of a URL.
///
/// Trusted: parses `url` with `url::Url::parse` and appends the pair with
/// `query_pairs_mut().append_pair(name, value)`, returning the serialization.
/// The result is named `url_with_pair`; the error is the one `url` reports.
#[verifier::external_body]
fn append_query_pair(url: &str, name: &str, value: &str) -> (r: Result<String, url::ParseError>)
    ensures
        match r {
            Ok(s) => url_with_pair(url@, name@, value@) == Some(s@),
            Err(_) => url_with_pair(url@, name@, value@) is None,
        },
{
    match url::Url::parse(url) {
        Ok(mut u) => {
            u.query_pairs_mut().append_pair(name, value);
            Ok(String::from(u))
        },
        Err(e) => Err(e),
    }
}

// ---------------------------------------------------------------------------
// The client.
// ---------------------------------------------------------------------------

/// `s` with a `/` appended unless it already ends with one.
pub open spec fn with_trailing_slash(s: Seq<char>) -> Seq<char> {
    if s.len() > 0 && s.last() == '/' {
        s
    } else {
        s.push('/')
    }
}

/// What a client holds: the server's base URL (as `url` serializes the
/// server URL once a trailing `/` is added), the access token and the request
/// timeout.
pub struct DevelocityClientView {
    pub base_url: Seq<char>,
    pub token: Seq<char>,
    pub timeout_secs: u64,
}

/// Client for the Develocity API.
#[derive(Debug)]
pub struct DevelocityClient {
    base_url: String,
    token: String,
    timeout_secs: u64,
}

impl View for DevelocityClient {
    type V = DevelocityClientView;

    closed spec fn view(&self) -> DevelocityClientView {
        DevelocityClientView {
            base_url: self.base_url@,
            token: self.token@,
            timeout_secs: self.timeout_secs,
        }
    }
}

/// The API endpoints the client reads.
#[derive(Debug, Clone, Copy, PartialEq, Eq, Structural)]
pub enum ApiEndpoint {
    /// `GET /api/builds/{id}`: validate the build exists, check its type.
    Build,
    /// `GET /api/builds/{id}/gradle-attributes`.
    GradleAttributes,
    /// `GET /api/builds/{id}/gradle-deprecations`.
    GradleDeprecations,
    /// `GET /api/builds/{id}/gradle-failures`.
    GradleFailures,
    /// `GET /api/builds/{id}/gradle-network-activity`.
    GradleNetworkActivity,
    /// `GET /api/builds/{id}/gradle-dependencies`.
    GradleDependencies,
    /// `GET /api/builds/{id}/gradle-build-cache-performance`.
    GradleBuildCachePerformance,
    /// `GET /api/tests/build/{id}`.
    Tests,
}

impl ApiEndpoint {
    /// The path of an endpoint for a build, relative to the server's base URL.
    pub open spec fn path_of(self, build_id: Seq<char>) -> Seq<char> {
        match self {
            ApiEndpoint::Build => "api/builds/"@ + build_id,
            ApiEndpoint::GradleAttributes => "api/builds/"@ + build_id + "/gradle-attributes"@,
            ApiEndpoint::GradleDeprecations => "api/builds/"@ + build_id + "/gradle-deprecations"@,
            ApiEndpoint::GradleFailures => "api/builds/"@ + build_id + "/gradle-failures"@,
            ApiEndpoint::GradleNetworkActivity => "api/builds/"@ + build_id + "/gradle-network-activity"@,
            ApiEndpoint::GradleDependencies => "api/builds/"@ + build_id + "/gradle-dependencies"@,
            ApiEndpoint::GradleBuildCachePerformance => "api/builds/"@ + build_id
                + "/gradle-build-cache-performance"@,
            ApiEndpoint::Tests => "api/tests/build/"@ + build_id,
        }
    }

    /// The path of an endpoint for a build, relative to the server's base URL.
    pub fn path(&self, build_id: &str) -> (r: String)
        ensures
            r@ == self.path_of(build_id@),
    {
        match self {
            ApiEndpoint::Build => concat2("api/builds/", build_id),
            ApiEndpoint::GradleAttributes => concat3("api/builds/", build_id, "/gradle-attributes"),
            ApiEndpoint::GradleDeprecations => concat3("api/builds/", build_id, "/gradle-deprecations"),
            ApiEndpoint::GradleFailures => concat3("api/builds/", build_id, "/gradle-failures"),
            ApiEndpoint::GradleNetworkActivity => concat3("api/builds/", build_id, "/gradle-network-activity"),
            ApiEndpoint::GradleDependencies => concat3("api/builds/", build_id, "/gradle-dependencies"),
            ApiEndpoint::GradleBuildCachePerformance => concat3(
                "api/builds/",
                build_id,
                "/gradle-build-cache-performance",
            ),
            ApiEndpoint::Tests => concat2("api/tests/build/", build_id),
        }
    }
}

/// Each endpoint's path is the one the Develocity API documents for it.
pub proof fn lemma_documented_paths(id: Seq<char>)
    ensures
        ApiEndpoint::Build.path_of(id) == "api/builds/"@ + id,
        ApiEndpoint::GradleAttributes.path_of(id) == "api/builds/"@ + id + "/gradle-attributes"@,
        ApiEndpoint::GradleDeprecations.path_of(id) == "api/builds/"@ + id + "/gradle-deprecations"@,
        ApiEndpoint::GradleFailures.path_of(id) == "api/builds/"@ + id + "/gradle-failures"@,
        ApiEndpoint::GradleNetworkActivity.path_of(id) == "api/builds/"@ + id + "/gradle-network-activity"@,
        ApiEndpoint::GradleDependencies.path_of(id) == "api/builds/"@ + id + "/gradle-dependencies"@,
        ApiEndpoint::GradleBuildCachePerformance.path_of(id) == "api/builds/"@ + id
            + "/gradle-build-cache-performance"@,
        ApiEndpoint::Tests.path_of(id) == "api/tests/build/"@ + id,
{
}

/// Different endpoints of one build have different paths, and one endpoint
/// of different builds has different paths: no section is ever requested
/// from another section's endpoint or for another build.
pub proof fn lemma_paths_distinct(e1: ApiEndpoint, e2: ApiEndpoint, id1: Seq<char>, id2: Seq<char>)
    ensures
        e1 != e2 ==> e1.path_of(id1) != e2.path_of(id1),
        id1 != id2 ==> e1.path_of(id1) != e1.path_of(id2),
{
    reveal_strlit("api/builds/");
    reveal_strlit("api/tests/build/");
    reveal_strlit("/gradle-attributes");
    reveal_strlit("/gradle-deprecations");
    reveal_strlit("/gradle-failures");
    reveal_strlit("/gradle-network-activity");
    reveal_strlit("/gradle-dependencies");
    reveal_strlit("/gradle-build-cache-performance");
    let p1 = e1.path_of(id1);
    let p2 = e2.path_of(id1);
    if e1 != e2 && p1 == p2 {
        assert(p1.len() == p2.len());
        let k: int = 22 + id1.len() as int;
        if (e1 == ApiEndpoint::GradleDeprecations && e2 == ApiEndpoint::GradleDependencies) || (e1
            == ApiEndpoint::GradleDependencies && e2 == ApiEndpoint::GradleDeprecations) {
            assert(p1[k] == p2[k]);
            assert(false);
        }
    }
    let q1 = e1.path_of(id1);
    let q2 = e1.path_of(id2);
    if id1 != id2 && q1 == q2 {
        let start: int = if e1 == ApiEndpoint::Tests { 16 } else { 11 };
        assert(q1.len() == q2.len());
        assert(id1.len() == id2.len());
        assert(q1.subrange(start, start + id1.len()) =~= id1);
        assert(q2.subrange(start, start + id2.len()) =~= id2);
        assert(false);
    }
}

/// The URL with one `testOutcomes` query pair per outcome appended, in order.
pub open spec fn with_outcome_pairs(url: Seq<char>, outcomes: Seq<TestOutcome>) -> Option<Seq<char>>
    decreases outcomes.len(),
{
    if outcomes.len() == 0 {
        Some(url)
    } else {
        match with_outcome_pairs(url, outcomes.drop_last()) {
            Some(u) => url_with_pair(u, "testOutcomes"@, outcomes.last().text_of()),
            None => None,
        }
    }
}

/// The outcome filter asks for each outcome by its name as a `testOutcomes`
/// query pair, one after the other in the order given; no filter leaves the
/// URL as it is.
pub proof fn lemma_outcome_pairs(url: Seq<char>, a: TestOutcome, b: TestOutcome)
    ensures
        with_outcome_pairs(url, Seq::<TestOutcome>::empty()) == Some(url),
        with_outcome_pairs(url, seq![a]) == url_with_pair(url, "testOutcomes"@, a.text_of()),
        with_outcome_pairs(url, seq![a, b]) == match url_with_pair(url, "testOutcomes"@, a.text_of()) {
            Some(u) => url_with_pair(u, "testOutcomes"@, b.text_of()),
            None => None,
        },
{
    assert(seq![a].drop_last() =~= Seq::<TestOutcome>::empty());
    assert(seq![a, b].drop_last() =~= seq![a]);
    assert(with_outcome_pairs(url, seq![a].drop_last()) == Some(url));
    assert(with_outcome_pairs(url, seq![a, b].drop_last()) == with_outcome_pairs(url, seq![a]));
}

impl DevelocityClient {
    /// Create a new Develocity client.
    ///
    /// The server URL gets a trailing slash, so that API paths are resolved
    /// below it, and is then parsed; a URL that does not parse is an
    /// `InvalidUrl` error.
    pub fn new(server_url: &str, token: &str, timeout_secs: u64) -> (r: Result<Self, Error>)
        ensures
            match url_parsed(with_trailing_slash(server_url@)) {
                Some(base) => r matches Ok(c) && c@ == (DevelocityClientView {
                    base_url: base,
                    token: token@,
                    timeout_secs,
                }),
                None => r matches Err(Error::InvalidUrl(_)),
            },
    {
        let chars = chars_of(server_url);
        let url_str = if chars.len() > 0 && chars[chars.len() - 1] == '/' {
            text(server_url)
        } else {
            concat2(server_url, "/")
        };
        proof {
            if !(chars@.len() > 0 && chars@.last() == '/') {
                assert(server_url@ + "/"@ == server_url@.push('/')) by {
                    reveal_strlit("/");
                }
            }
        }
        match parse_url(url_str.as_str()) {
            Ok(base_url) => Ok(DevelocityClient { base_url, token: text(token), timeout_secs }),
            Err(e) => Err(Error::InvalidUrl(e)),
        }
    }

    /// The base URL the client resolves API paths against.
    pub fn base_url(&self) -> (r: &str)
        ensures
            r@ == self@.base_url,
    {
        self.base_url.as_str()
    }

    /// The access token sent with each request.
    pub fn token(&self) -> (r: &str)
        ensures
            r@ == self@.token,
    {
        self.token.as_str()
    }

    /// The request timeout in seconds.
    pub fn timeout_secs(&self) -> (r: u64)
        ensures
            r == self@.timeout_secs,
    {
        self.timeout_secs
    }

    /// Get the Build Scan URL for a given build ID.
    pub fn build_scan_url(&self, build_id: &str) -> (r: String)
        ensures
            r@ == self@.base_url + "s/"@ + build_id@,
    {
        concat3(self.base_url.as_str(), "s/", build_id)
    }

    /// The URL of an API endpoint for a build.
    pub fn endpoint_url(&self, endpoint: ApiEndpoint, build_id: &str) -> (r: Result<String, Error>)
        ensures
            match url_joined(self@.base_url, endpoint.path_of(build_id@)) {
                Some(u) => r matches Ok(s) && s@ == u,
                None => r matches Err(Error::InvalidUrl(_)),
            },
    {
        let path = endpoint.path(build_id);
        match join_url(self.base_url.as_str(), path.as_str()) {
            Ok(u) => Ok(u),
            Err(e) => Err(Error::InvalidUrl(e)),
        }
    }

    /// The URL of the test results of a build. When `test_outcomes` is
    /// non-empty, only tests with those outcomes are asked for (one
    /// `testOutcomes` query pair per outcome, in order).
    pub fn tests_url(&self, build_id: &str, test_outcomes: &[TestOutcome]) -> (r: Result<String, Error>)
        ensures
            match url_joined(self@.base_url, ApiEndpoint::Tests.path_of(build_id@)) {
                Some(u) => match with_outcome_pairs(u, test_outcomes@) {
                    Some(q) => r matches Ok(s) && s@ == q,
                    None => r matches Err(Error::InvalidUrl(_)),
                },
                None => r matches Err(Error::InvalidUrl(_)),
            },
    {
        let mut url = match self.endpoint_url(ApiEndpoint::Tests, build_id) {
            Ok(u) => u,
            Err(e) => {
                return Err(e);
            },
        };
        let ghost base = url@;
        let mut i: usize = 0;
        while i < test_outcomes.len()
            invariant
                i <= test_outcomes@.len(),
                url_joined(self@.base_url, ApiEndpoint::Tests.path_of(build_id@)) == Some(base),
                with_outcome_pairs(base, test_outcomes@.take(i as int)) == Some(url@),
            decreases test_outcomes.len() - i,
        {
            let value = test_outcomes[i].to_string();
            proof {
                let t = test_outcomes@.take(i + 1);
                assert(t.drop_last() == test_outcomes@.take(i as int));
                assert(t.last() == test_outcomes@[i as int]);
            }
            match append_query_pair(url.as_str(), "testOutcomes", value.as_str()) {
                Ok(u) => {
                    url = u;
                },
                Err(e) => {
                    proof {
                        lemma_pairs_fail_later(base, test_outcomes@, i as int + 1);
                    }
                    return Err(Error::InvalidUrl(e));
                },
            }
            i = i + 1;
        }
        proof {
            assert(test_outcomes@.take(test_outcomes@.len() as int) == test_outcomes@);
        }
        Ok(url)
    }
}

/// Once appending a pair fails, appending more pairs fails too.
proof fn lemma_pairs_fail_later(url: Seq<char>, outcomes: Seq<TestOutcome>, n: int)
    requires
        0 <= n <= outcomes.len(),
        with_outcome_pairs(url, outcomes.take(n)) is None,
    ensures
        with_outcome_pairs(url, outcomes) is None,
    decreases outcomes.len() - n,
{
    if n < outcomes.len() {
        let t = outcomes.take(n + 1);
        assert(t.drop_last() == outcomes.take(n));
        lemma_pairs_fail_later(url, outcomes, n + 1);
    } else {
        assert(outcomes.take(n) == outcomes);
    }
}

/// Classifies an HTTP response status.
///
/// `body` is the response text, when it could be read. Returns `None` for a
/// successful response (200), otherwise the error the status means.
pub fn status_error(status: u16, build_id: &str, body: Option<String>) -> (r: Option<Error>)
    ensures
        status == 200 ==> r is None,
        status == 401 ==> r matches Some(Error::Unauthorized),
        status == 403 ==> r matches Some(Error::Forbidden),
        status == 404 ==> (r matches Some(Error::BuildNotFound(id)) && id@ == build_id@),
        status != 200 && status != 401 && status != 403 && status != 404 ==> (r matches Some(
            Error::ApiError { status: s, message },
        ) && s == status && message@ == match body {
            Some(b) => b@,
            None => "Unknown error"@,
        }),
{
    if status == 200 {
        None
    } else if status == 401 {
        Some(Error::Unauthorized)
    } else if status == 403 {
        Some(Error::Forbidden)
    } else if status == 404 {
        Some(Error::BuildNotFound(text(build_id)))
    } else {
        let message = match body {
            Some(b) => b,
            None => text("Unknown error"),
        };
        Some(Error::ApiError { status, message })
    }
}

/// The error a request that got no response means: a timeout is reported as
/// a timeout after the client's timeout (`timeout_secs`), any other transport
/// failure as an HTTP error carrying the transport's message.
pub fn transport_error(timed_out: bool, timeout_secs: u64, message: String) -> (r: Error)
    ensures
        timed_out ==> r == Error::Timeout(timeout_secs),
        !timed_out ==> r == Error::Http(message),
{
    if timed_out {
        Error::Timeout(timeout_secs)
    } else {
        Error::Http(message)
    }
}

/// The section endpoints a set of section options asks for, in the order
/// attributes, deprecations, failures, tests, build cache performance,
/// network activity, dependencies.
pub open spec fn requested_endpoints_spec(sections: IncludeOptions) -> Seq<ApiEndpoint> {
    (if sections.result { seq![ApiEndpoint::GradleAttributes] } else { seq![] })
        + (if sections.deprecations { seq![ApiEndpoint::GradleDeprecations] } else { seq![] })
        + (if sections.failures { seq![ApiEndpoint::GradleFailures] } else { seq![] })
        + (if sections.tests { seq![ApiEndpoint::Tests] } else { seq![] })
        + (if sections.task_execution { seq![ApiEndpoint::GradleBuildCachePerformance] } else { seq![] })
        + (if sections.network_activity { seq![ApiEndpoint::GradleNetworkActivity] } else { seq![] })
        + (if sections.dependencies { seq![ApiEndpoint::GradleDependencies] } else { seq![] })
}

/// The section endpoints to fetch, once the build is known to be a Gradle
/// build, for a set of sections options.
pub fn requested_endpoints(sections: &IncludeOptions) -> (r: Vec<ApiEndpoint>)
    ensures
        r@ == requested_endpoints_spec(*sections),
{
    let mut r: Vec<ApiEndpoint> = Vec::new();
    if sections.result {
        r.push(ApiEndpoint::GradleAttributes);
    }
    assert(r@ == (if sections.result { seq![ApiEndpoint::GradleAttributes] } else { Seq::<ApiEndpoint>::empty() }));
    let ghost r1 = r@;
    if sections.deprecations {
        r.push(ApiEndpoint::GradleDeprecations);
    }
    assert(r@ == r1 + (if sections.deprecations { seq![ApiEndpoint::GradleDeprecations] } else { Seq::<ApiEndpoint>::empty() }));
    let ghost r2 = r@;
    if sections.failures {
        r.push(ApiEndpoint::GradleFailures);
    }
    assert(r@ == r2 + (if sections.failures { seq![ApiEndpoint::GradleFailures] } else { Seq::<ApiEndpoint>::empty() }));
    let ghost r3 = r@;
    if sections.tests {
        r.push(ApiEndpoint::Tests);
    }
    assert(r@ == r3 + (if sections.tests { seq![ApiEndpoint::Tests] } else { Seq::<ApiEndpoint>::empty() }));
    let ghost r4 = r@;
    if sections.task_execution {
        r.push(ApiEndpoint::GradleBuildCachePerformance);
    }
    assert(r@ == r4 + (if sections.task_execution { seq![ApiEndpoint::GradleBuildCachePerformance] } else { Seq::<ApiEndpoint>::empty() }));
    let ghost r5 = r@;
    if sections.network_activity {
        r.push(ApiEndpoint::GradleNetworkActivity);
    }
    assert(r@ == r5 + (if sections.network_activity { seq![ApiEndpoint::GradleNetworkActivity] } else { Seq::<ApiEndpoint>::empty() }));
    let ghost r6 = r@;
    if sections.dependencies {
        r.push(ApiEndpoint::GradleDependencies);
    }
    assert(r@ == r6 + (if sections.dependencies { seq![ApiEndpoint::GradleDependencies] } else { Seq::<ApiEndpoint>::empty() }));
    r
}

/// What an optional section's request gives: the data; nothing when the
/// server reports it missing (404) or not enabled (403); any other error as it is.
pub fn optional_on_missing<T>(r: Result<T, Error>) -> (o: Result<Option<T>, Error>)
    ensures
        match r {
            Ok(v) => o == Ok::<Option<T>, Error>(Some(v)),
            Err(Error::BuildNotFound(_)) | Err(Error::Forbidden) => o == Ok::<Option<T>, Error>(None),
            Err(e) => o == Err::<Option<T>, Error>(e),
        },
{
    match r {
        Ok(v) => Ok(Some(v)),
        Err(Error::BuildNotFound(_)) => Ok(None),
        Err(Error::Forbidden) => Ok(None),
        Err(e) => Err(e),
    }
}

/// Checks that a build is a Gradle build; any other build tool is a
/// `NotGradleBuild` error naming the build and its tool type.
pub fn check_gradle_build(build: &Build, build_id: &str) -> (r: Result<(), Error>)
    ensures
        Build::names_gradle(build.build_tool_type@) ==> r is Ok,
        !Build::names_gradle(build.build_tool_type@) ==> (r matches Err(Error::NotGradleBuild(id, tool))
            && id@ == build_id@ && tool@ == build.build_tool_type@),
{
    if build.is_gradle() {
        Ok(())
    } else {
        Err(Error::NotGradleBuild(text(build_id), copy(&build.build_tool_type)))
    }
}

/// All requested details for a Gradle build.
#[derive(Debug)]
pub struct GradleBuildDetails {
    /// Common build information.
    pub build: Build,
    /// Gradle-specific attributes (if requested).
    pub attributes: Option<GradleAttributes>,
    /// Deprecations (if requested).
    pub deprecations: Option<GradleDeprecations>,
    /// Failures (if requested).
    pub failures: Option<GradleFailures>,
    /// Test execution results (if requested and available).
    pub tests: Option<GradleTests>,
    /// Build cache performance / task execution data (if requested).
    pub build_cache_performance: Option<GradleBuildCachePerformance>,
    /// Network activity data (if requested and available).
    pub network_activity: Option<GradleNetworkActivity>,
    /// Resolved dependencies (if requested and available).
    pub dependencies: Option<GradleDependencies>,
}

/// The error of a requested section, if its request failed.
pub open spec fn failed<T>(section: Option<Result<T, Error>>) -> Option<Error> {
    match section {
        Some(Err(e)) => Some(e),
        _ => None,
    }
}

/// The data of a requested section whose request succeeded.
pub open spec fn fetched<T>(section: Option<Result<T, Error>>) -> Option<T> {
    match section {
        Some(Ok(v)) => Some(v),
        _ => None,
    }
}

/// The data of an optional section: present only when requested, fetched and
/// available.
pub open spec fn fetched_optional<T>(section: Option<Result<Option<T>, Error>>) -> Option<T> {
    match section {
        Some(Ok(Some(v))) => Some(v),
        _ => None,
    }
}

/// Takes the data out of a requested section, or its error.
fn take_section<T>(section: Option<Result<T, Error>>) -> (r: Result<Option<T>, Error>)
    ensures
        match failed(section) {
            Some(e) => r == Err::<Option<T>, Error>(e),
            None => r == Ok::<Option<T>, Error>(fetched(section)),
        },
{
    match section {
        Some(Ok(v)) => Ok(Some(v)),
        Some(Err(e)) => Err(e),
        None => Ok(None),
    }
}

/// Takes the data out of an optional section, or its error.
fn take_optional_section<T>(section: Option<Result<Option<T>, Error>>) -> (r: Result<Option<T>, Error>)
    ensures
        match failed(section) {
            Some(e) => r == Err::<Option<T>, Error>(e),
            None => r == Ok::<Option<T>, Error>(fetched_optional(section)),
        },
{
    match section {
        Some(Ok(v)) => Ok(v),
        Some(Err(e)) => Err(e),
        None => Ok(None),
    }
}

impl GradleBuildDetails {
    /// Combines the results of the section requests into the build details.
    ///
    /// Each section is `None` when it was not requested, and otherwise the
    /// outcome of its request. When requests failed, the error reported is
    /// that of the first failed section in this order: tests, network
    /// activity, dependencies, attributes, deprecations, failures, build
    /// cache performance.
    pub fn assemble(
        build: Build,
        attributes: Option<Result<GradleAttributes, Error>>,
        deprecations: Option<Result<GradleDeprecations, Error>>,
        failures: Option<Result<GradleFailures, Error>>,
        tests: Option<Result<Option<GradleTests>, Error>>,
        build_cache_performance: Option<Result<GradleBuildCachePerformance, Error>>,
        network_activity: Option<Result<Option<GradleNetworkActivity>, Error>>,
        dependencies: Option<Result<Option<GradleDependencies>, Error>>,
    ) -> (r: Result<GradleBuildDetails, Error>)
        ensures
            failed(tests) is Some ==> r == Err::<GradleBuildDetails, Error>(failed(tests).unwrap()),
            failed(tests) is None && failed(network_activity) is Some ==> r == Err::<
                GradleBuildDetails,
                Error,
            >(failed(network_activity).unwrap()),
            failed(tests) is None && failed(network_activity) is None && failed(dependencies) is Some
                ==> r == Err::<GradleBuildDetails, Error>(failed(dependencies).unwrap()),
            failed(tests) is None && failed(network_activity) is None && failed(dependencies) is None
                && failed(attributes) is Some ==> r == Err::<GradleBuildDetails, Error>(
                failed(attributes).unwrap(),
            ),
            failed(tests) is None && failed(network_activity) is None && failed(dependencies) is None
                && failed(attributes) is None && failed(deprecations) is Some ==> r == Err::<
                GradleBuildDetails,
                Error,
            >(failed(deprecations).unwrap()),
            failed(tests) is None && failed(network_activity) is None && failed(dependencies) is None
                && failed(attributes) is None && failed(deprecations) is None && failed(failures) is Some
                ==> r == Err::<GradleBuildDetails, Error>(failed(failures).unwrap()),
            failed(tests) is None && failed(network_activity) is None && failed(dependencies) is None
                && failed(attributes) is None && failed(deprecations) is None && failed(failures) is None
                && failed(build_cache_performance) is Some ==> r == Err::<GradleBuildDetails, Error>(
                failed(build_cache_performance).unwrap(),
            ),
            failed(tests) is None && failed(network_activity) is None && failed(dependencies) is None
                && failed(attributes) is None && failed(deprecations) is None && failed(failures) is None
                && failed(build_cache_performance) is None ==> r == Ok::<GradleBuildDetails, Error>(
                GradleBuildDetails {
                    build,
                    attributes: fetched(attributes),
                    deprecations: fetched(deprecations),
                    failures: fetched(failures),
                    tests: fetched_optional(tests),
                    build_cache_performance: fetched(build_cache_performance),
                    network_activity: fetched_optional(network_activity),
                    dependencies: fetched_optional(dependencies),
                },
            ),
    {
        let tests = match take_optional_section(tests) {
            Ok(v) => v,
            Err(e) => {
                return Err(e);
            },
        };
        let network_activity = match take_optional_section(network_activity) {
            Ok(v) => v,
            Err(e) => {
                return Err(e);
            },
        };
        let dependencies = match take_optional_section(dependencies) {
            Ok(v) => v,
            Err(e) => {
                return Err(e);
            },
        };
        let attributes = match take_section(attributes) {
            Ok(v) => v,
            Err(e) => {
                return Err(e);
            },
        };
        let deprecations = match take_section(deprecations) {
            Ok(v) => v,
            Err(e) => {
                return Err(e);
            },
        };
        let failures = match take_section(failures) {
            Ok(v) => v,
            Err(e) => {
                return Err(e);
            },
        };
        let build_cache_performance = match take_section(build_cache_performance) {
            Ok(v) => v,
            Err(e) => {
                return Err(e);
            },
        };
        Ok(GradleBuildDetails {
            build,
            attributes,
            deprecations,
            failures,
            tests,
            build_cache_performance,
            network_activity,
            dependencies,
        })
    }
}

} // verus!
