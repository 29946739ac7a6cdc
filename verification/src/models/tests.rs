//! Test-related data models (`/api/tests/build/{id}`, the BuildTestsResponse schema).
use crate::text::{
    all_ascii, ascii_case_insensitive_eq, ascii_lower, ascii_upper, concat3, copy, lowercase_text,
    same_text, split_on, split_spec, text, to_lowercase, trim, trim_spec,
};
use vstd::prelude::*;

verus! {

/// Test outcome enumeration matching the Develocity API TestOutcome.
#[derive(Debug, Clone, Copy, PartialEq, Eq, Structural)]
pub enum TestOutcome {
    Passed,
    Failed,
    Skipped,
    Flaky,
    NotSelected,
    Unknown,
}

/// The error text for an unrecognised test outcome (already lower-cased).
pub open spec fn invalid_outcome_message(lower: Seq<char>) -> Seq<char> {
    "Invalid test outcome '"@ + lower
        + "'. Valid values: passed, failed, skipped, flaky, notSelected"@
}

/// The outcome named by a lower-cased word, if any.
pub open spec fn outcome_from_lower(l: Seq<char>) -> Option<TestOutcome> {
    if l == "passed"@ {
        Some(TestOutcome::Passed)
    } else if l == "failed"@ {
        Some(TestOutcome::Failed)
    } else if l == "skipped"@ {
        Some(TestOutcome::Skipped)
    } else if l == "flaky"@ {
        Some(TestOutcome::Flaky)
    } else if l == "notselected"@ || l == "not_selected"@ || l == "not-selected"@ {
        Some(TestOutcome::NotSelected)
    } else {
        None
    }
}

/// What parsing a test outcome name gives: the outcome named by the
/// lower-cased text, or an error message naming the lower-cased text.
pub open spec fn parse_outcome_spec(s: Seq<char>) -> Result<TestOutcome, Seq<char>> {
    let l = lowercase_text(s);
    match outcome_from_lower(l) {
        Some(o) => Ok(o),
        None => Err(invalid_outcome_message(l)),
    }
}

proof fn lemma_outcome_text_ascii(o: TestOutcome)
    ensures
        all_ascii(o.text_of()),
{
    reveal_strlit("passed");
    reveal_strlit("failed");
    reveal_strlit("skipped");
    reveal_strlit("flaky");
    reveal_strlit("notSelected");
    reveal_strlit("unknown");
}

/// A text equal to an outcome's text up to ASCII case names that outcome,
/// except that the text of `Unknown` names none: every outcome's text parses
/// back to it, in whatever case its letters are written, and the text of
/// `Unknown` is refused.
pub proof fn lemma_outcome_text_parses_back(o: TestOutcome, s: Seq<char>)
    requires
        all_ascii(s),
        ascii_case_insensitive_eq(s, o.text_of()),
    ensures
        o != TestOutcome::Unknown ==> parse_outcome_spec(s) == Ok::<TestOutcome, Seq<char>>(o),
        o == TestOutcome::Unknown ==> parse_outcome_spec(s) is Err,
{
    reveal_strlit("passed");
    reveal_strlit("failed");
    reveal_strlit("skipped");
    reveal_strlit("flaky");
    reveal_strlit("notSelected");
    reveal_strlit("notselected");
    reveal_strlit("not_selected");
    reveal_strlit("not-selected");
    reveal_strlit("unknown");
    let l = lowercase_text(s);
    let t = o.text_of();
    assert(l =~= t.map_values(|c: char| ascii_lower(c)));
    match o {
        TestOutcome::Passed => assert(l =~= "passed"@),
        TestOutcome::Failed => {
            assert(l =~= "failed"@);
            assert(l[0] != "passed"@[0]);
        },
        TestOutcome::Skipped => {
            assert(l =~= "skipped"@);
            assert(l.len() != "passed"@.len());
        },
        TestOutcome::Flaky => {
            assert(l =~= "flaky"@);
            assert(l.len() != "passed"@.len());
        },
        TestOutcome::NotSelected => {
            assert(l =~= "notselected"@);
            assert(l.len() != "passed"@.len());
            assert(l.len() != "skipped"@.len());
            assert(l.len() != "flaky"@.len());
            assert(l.len() != "not_selected"@.len());
        },
        TestOutcome::Unknown => {
            assert(l =~= "unknown"@);
            assert(l.len() != "passed"@.len());
            assert(l[0] != "skipped"@[0]);
            assert(l.len() != "flaky"@.len());
            assert(l.len() != "notselected"@.len());
            assert(l.len() != "not_selected"@.len());
        },
    }
}

/// Every outcome's text parses back to it, also written in upper case; the
/// text of `Unknown` does not parse.
pub proof fn lemma_outcome_upper_text_parses_back(o: TestOutcome)
    ensures
        o != TestOutcome::Unknown ==> parse_outcome_spec(o.text_of()) == Ok::<TestOutcome, Seq<char>>(o),
        o != TestOutcome::Unknown ==> parse_outcome_spec(o.text_of().map_values(|c: char| ascii_upper(c)))
            == Ok::<TestOutcome, Seq<char>>(o),
        o == TestOutcome::Unknown ==> parse_outcome_spec(o.text_of()) is Err,
{
    let t = o.text_of();
    let u = t.map_values(|c: char| ascii_upper(c));
    lemma_outcome_text_ascii(o);
    assert forall|i: int| 0 <= i < u.len() implies (#[trigger] u[i] as int) < 128 && ascii_lower(u[i]) == ascii_lower(t[i]) by {
        assert(u[i] == ascii_upper(t[i]));
        assert((t[i] as int) < 128);
    }
    lemma_outcome_text_parses_back(o, t);
    lemma_outcome_text_parses_back(o, u);
}

impl TestOutcome {
    /// The display text of an outcome (the API's camelCase name).
    pub open spec fn text_of(self) -> Seq<char> {
        match self {
            TestOutcome::Passed => "passed"@,
            TestOutcome::Failed => "failed"@,
            TestOutcome::Skipped => "skipped"@,
            TestOutcome::Flaky => "flaky"@,
            TestOutcome::NotSelected => "notSelected"@,
            TestOutcome::Unknown => "unknown"@,
        }
    }

    /// The display text of an outcome (the API's camelCase name).
    pub fn to_string(&self) -> (r: String)
        ensures
            r@ == self.text_of(),
    {
        match self {
            TestOutcome::Passed => text("passed"),
            TestOutcome::Failed => text("failed"),
            TestOutcome::Skipped => text("skipped"),
            TestOutcome::Flaky => text("flaky"),
            TestOutcome::NotSelected => text("notSelected"),
            TestOutcome::Unknown => text("unknown"),
        }
    }

    /// Parses an outcome name, case-insensitively.
    pub fn parse_str(s: &str) -> (r: Result<TestOutcome, String>)
        ensures
            match (r, parse_outcome_spec(s@)) {
                (Ok(o), Ok(so)) => o == so,
                (Err(e), Err(se)) => e@ == se,
                _ => false,
            },
            forall|o: TestOutcome|
                o != TestOutcome::Unknown && s@ == #[trigger] o.text_of() ==> r == Ok::<TestOutcome, String>(o),
    {
        let l = to_lowercase(s);
        proof {
            assert(l@ == lowercase_text(s@));
            assert forall|o: TestOutcome| o != TestOutcome::Unknown && s@ == #[trigger] o.text_of() implies parse_outcome_spec(
                s@,
            ) == Ok::<TestOutcome, Seq<char>>(o) by {
                lemma_outcome_text_ascii(o);
                lemma_outcome_text_parses_back(o, s@);
            }
        }
        if same_text(&l, "passed") {
            Ok(TestOutcome::Passed)
        } else if same_text(&l, "failed") {
            Ok(TestOutcome::Failed)
        } else if same_text(&l, "skipped") {
            Ok(TestOutcome::Skipped)
        } else if same_text(&l, "flaky") {
            Ok(TestOutcome::Flaky)
        } else if same_text(&l, "notselected") || same_text(&l, "not_selected") || same_text(
            &l,
            "not-selected",
        ) {
            Ok(TestOutcome::NotSelected)
        } else {
            Err(concat3(
                "Invalid test outcome '",
                l.as_str(),
                "'. Valid values: passed, failed, skipped, flaky, notSelected",
            ))
        }
    }
}

impl std::str::FromStr for TestOutcome {
    type Err = String;

    fn from_str(s: &str) -> (r: Result<Self, Self::Err>)
        ensures
            match (r, parse_outcome_spec(s@)) {
                (Ok(o), Ok(so)) => o == so,
                (Err(e), Err(se)) => e@ == se,
                _ => false,
            },
            forall|o: TestOutcome|
                o != TestOutcome::Unknown && s@ == #[trigger] o.text_of() ==> r == Ok::<TestOutcome, String>(o),
    {
        TestOutcome::parse_str(s)
    }
}

/// Parsing of comma-separated pieces: the first error, or every outcome in order.
pub open spec fn parse_pieces_spec(pieces: Seq<Seq<char>>) -> Result<Seq<TestOutcome>, Seq<char>>
    decreases pieces.len(),
{
    if pieces.len() == 0 {
        Ok(seq![])
    } else {
        match parse_outcome_spec(trim_spec(pieces[0])) {
            Err(e) => Err(e),
            Ok(o) => match parse_pieces_spec(pieces.drop_first()) {
                Ok(rest) => Ok(seq![o] + rest),
                Err(e) => Err(e),
            },
        }
    }
}

/// What `parse_test_outcomes` gives: nothing for blank text, otherwise the
/// outcomes of the comma-separated pieces (each trimmed), or the first error.
pub open spec fn parse_test_outcomes_spec(s: Seq<char>) -> Result<Seq<TestOutcome>, Seq<char>> {
    let t = trim_spec(s);
    if t.len() == 0 {
        Ok(seq![])
    } else {
        parse_pieces_spec(split_spec(t, ','))
    }
}

/// A comma-separated list of outcomes is parsed piece by piece, in order:
/// when every piece names an outcome the result is those outcomes in the
/// order of the pieces; otherwise it is the error of the first piece that
/// names none.
pub proof fn lemma_pieces_parse_in_order(pieces: Seq<Seq<char>>, outcomes: Seq<TestOutcome>)
    ensures
        (pieces.len() == outcomes.len() && forall|i: int|
            0 <= i < pieces.len() ==> parse_outcome_spec(trim_spec(#[trigger] pieces[i]))
                == Ok::<TestOutcome, Seq<char>>(outcomes[i])) ==> parse_pieces_spec(pieces) == Ok::<
            Seq<TestOutcome>,
            Seq<char>,
        >(outcomes),
        forall|k: int|
            0 <= k < pieces.len() && parse_outcome_spec(trim_spec(#[trigger] pieces[k])) is Err && (forall|
                i: int,
            | 0 <= i < k ==> parse_outcome_spec(trim_spec(#[trigger] pieces[i])) is Ok) ==> parse_pieces_spec(
                pieces,
            ) == Err::<Seq<TestOutcome>, Seq<char>>(parse_outcome_spec(trim_spec(pieces[k]))->Err_0),
    decreases pieces.len(),
{
    if pieces.len() == 0 {
        if outcomes.len() == 0 {
            assert(outcomes =~= Seq::<TestOutcome>::empty());
        }
    } else {
        let rest = pieces.drop_first();
        lemma_pieces_parse_in_order(rest, outcomes.drop_first());
        if pieces.len() == outcomes.len() && forall|i: int|
            0 <= i < pieces.len() ==> parse_outcome_spec(trim_spec(#[trigger] pieces[i]))
                == Ok::<TestOutcome, Seq<char>>(outcomes[i]) {
            assert(parse_outcome_spec(trim_spec(pieces[0])) == Ok::<TestOutcome, Seq<char>>(outcomes[0]));
            assert forall|i: int| 0 <= i < rest.len() implies parse_outcome_spec(trim_spec(#[trigger] rest[i]))
                == Ok::<TestOutcome, Seq<char>>(outcomes.drop_first()[i]) by {
                assert(rest[i] == pieces[i + 1]);
            }
            assert(seq![outcomes[0]] + outcomes.drop_first() =~= outcomes);
        }
        assert forall|k: int|
            0 <= k < pieces.len() && parse_outcome_spec(trim_spec(#[trigger] pieces[k])) is Err && (forall|
                i: int,
            | 0 <= i < k ==> parse_outcome_spec(trim_spec(#[trigger] pieces[i])) is Ok) implies parse_pieces_spec(
                pieces,
            ) == Err::<Seq<TestOutcome>, Seq<char>>(parse_outcome_spec(trim_spec(pieces[k]))->Err_0) by {
            if k > 0 {
                assert(parse_outcome_spec(trim_spec(pieces[0])) is Ok);
                assert(rest[k - 1] == pieces[k]);
                assert forall|i: int| 0 <= i < k - 1 implies parse_outcome_spec(trim_spec(#[trigger] rest[i])) is Ok by {
                    assert(rest[i] == pieces[i + 1]);
                }
            }
        }
    }
}

/// `acc` followed by the outcomes of `r`, or the error of `r`.
pub open spec fn after_prefix(acc: Seq<TestOutcome>, r: Result<Seq<TestOutcome>, Seq<char>>) -> Result<Seq<TestOutcome>, Seq<char>> {
    match r {
        Ok(rest) => Ok(acc + rest),
        Err(e) => Err(e),
    }
}

/// Parse a comma-separated string of test outcomes.
pub fn parse_test_outcomes(s: &str) -> (r: Result<Vec<TestOutcome>, String>)
    ensures
        match (r, parse_test_outcomes_spec(s@)) {
            (Ok(v), Ok(sv)) => v@ == sv,
            (Err(e), Err(se)) => e@ == se,
            _ => false,
        },
{
    let t = trim(s);
    if t.as_str().is_empty() {
        return Ok(Vec::new());
    }
    let parts = split_on(t.as_str(), ',');
    let ghost pieces = split_spec(t@, ',');
    let mut acc: Vec<TestOutcome> = Vec::new();
    let mut i: usize = 0;
    proof {
        assert(pieces.skip(0) == pieces);
        match parse_pieces_spec(pieces) {
            Ok(rest) => {
                assert(acc@ + rest == rest);
            },
            Err(e) => {},
        }
    }
    while i < parts.len()
        invariant
            i <= parts@.len() == pieces.len(),
            forall|k: int| 0 <= k < parts@.len() ==> #[trigger] parts@[k]@ == pieces[k],
            t@ == trim_spec(s@),
            t@.len() > 0,
            parse_test_outcomes_spec(s@) == after_prefix(acc@, parse_pieces_spec(pieces.skip(i as int))),
        decreases parts.len() - i,
    {
        let piece = trim(parts[i].as_str());
        let parsed = TestOutcome::parse_str(piece.as_str());
        proof {
            assert(pieces.skip(i as int)[0] == pieces[i as int]);
            assert(pieces.skip(i as int).drop_first() == pieces.skip(i + 1));
        }
        match parsed {
            Ok(o) => {
                proof {
                    assert(acc@.push(o) == acc@ + seq![o]);
                    match parse_pieces_spec(pieces.skip(i + 1)) {
                        Ok(rest) => {
                            assert(acc@ + (seq![o] + rest) == acc@.push(o) + rest);
                        },
                        Err(e) => {},
                    }
                }
                acc.push(o);
            },
            Err(e) => {
                return Err(e);
            },
        }
        i = i + 1;
    }
    proof {
        assert(pieces.skip(i as int).len() == 0);
        assert(acc@ + Seq::<TestOutcome>::empty() == acc@);
    }
    Ok(acc)
}

/// Work unit outcome enumeration (TestWorkUnitOutcome).
#[derive(Debug, Clone, Copy, PartialEq, Eq, Structural)]
pub enum TestWorkUnitOutcome {
    Passed,
    Failed,
    Skipped,
    Flaky,
    TimedOut,
    Unknown,
}

impl TestWorkUnitOutcome {
    /// The display text of a work unit outcome.
    pub open spec fn text_of(self) -> Seq<char> {
        match self {
            TestWorkUnitOutcome::Passed => "passed"@,
            TestWorkUnitOutcome::Failed => "failed"@,
            TestWorkUnitOutcome::Skipped => "skipped"@,
            TestWorkUnitOutcome::Flaky => "flaky"@,
            TestWorkUnitOutcome::TimedOut => "timed out"@,
            TestWorkUnitOutcome::Unknown => "unknown"@,
        }
    }

    /// The display text of a work unit outcome.
    pub fn to_string(&self) -> (r: String)
        ensures
            r@ == self.text_of(),
    {
        match self {
            TestWorkUnitOutcome::Passed => text("passed"),
            TestWorkUnitOutcome::Failed => text("failed"),
            TestWorkUnitOutcome::Skipped => text("skipped"),
            TestWorkUnitOutcome::Flaky => text("flaky"),
            TestWorkUnitOutcome::TimedOut => text("timed out"),
            TestWorkUnitOutcome::Unknown => text("unknown"),
        }
    }
}

/// Response from `GET /api/tests/build/{id}` (BuildTestsResponse).
#[derive(Debug)]
pub struct BuildTestsResponse {
    /// Summary of test execution data for the build.
    pub summary: BuildTestsSummary,
    /// List of test work units executed in the build.
    pub work_units: Vec<BuildTestWorkUnit>,
}

/// The test results of a build (the name the client uses).
pub type GradleTests = BuildTestsResponse;

/// Summary of test execution data for a build (BuildTestsSummary).
#[derive(Debug, Clone, Copy, PartialEq, Eq, Structural)]
pub struct BuildTestsSummary {
    /// Duration information.
    pub duration: BuildTestsDuration,
    /// Outcome distribution for test cases.
    pub test_cases_outcome_distribution: TestOutcomeDistribution,
    /// Outcome distribution for test containers.
    pub test_containers_outcome_distribution: TestOutcomeDistribution,
}

/// Duration information at the build summary level.
#[derive(Debug, Clone, Copy, PartialEq, Eq, Structural)]
pub struct BuildTestsDuration {
    /// Sum of elapsed wall-clock time in milliseconds of work units with tests.
    pub total: i64,
    /// Sum of time in milliseconds if tests ran sequentially. May be absent.
    pub serial: Option<i64>,
}

/// Distribution of test outcomes (TestOutcomeDistribution).
#[derive(Debug, Clone, Copy, PartialEq, Eq, Structural)]
pub struct TestOutcomeDistribution {
    /// Total number of outcomes.
    pub total: i32,
    /// Number of passed outcomes.
    pub passed: i32,
    /// Number of failed outcomes.
    pub failed: i32,
    /// Number of skipped outcomes.
    pub skipped: i32,
    /// Number of flaky outcomes.
    pub flaky: i32,
    /// Number of "not selected" outcomes.
    pub not_selected: i32,
}

/// A work unit that ran tests in a build (BuildTestWorkUnit).
#[derive(Debug)]
pub struct BuildTestWorkUnit {
    /// Name of the work unit (e.g., ":test", ":app:test").
    pub name: String,
    /// Duration information for this work unit.
    pub duration: BuildTestOrContainerDuration,
    /// Outcome of this work unit.
    pub outcome: TestWorkUnitOutcome,
    /// List of test containers or test cases executed in this work unit.
    pub tests: Vec<BuildTestOrContainer>,
}

/// Various types of test durations (BuildTestOrContainerDuration).
#[derive(Debug, Clone, Copy, PartialEq, Eq, Structural)]
pub struct BuildTestOrContainerDuration {
    /// Elapsed wall-clock time in milliseconds. May be absent.
    pub total: Option<i64>,
    /// Time spent in setup/cleanup (containers only).
    pub own: Option<i64>,
    /// Sum of time if tests ran sequentially (containers only).
    pub serial: Option<i64>,
}

/// A test or test container in the hierarchy (BuildTestOrContainer).
#[derive(Debug)]
pub struct BuildTestOrContainer {
    /// Name of the test or test container.
    pub name: String,
    /// Duration information.
    pub duration: BuildTestOrContainerDuration,
    /// Outcome information.
    pub outcome: BuildTestOrContainerOutcome,
    /// Individual test executions (a test can run multiple times with retries).
    pub executions: Vec<BuildTestOrContainerExecution>,
    /// Child test containers or test cases.
    pub children: Vec<BuildTestOrContainer>,
}

/// Outcome information for a test or container (BuildTestOrContainerOutcome).
#[derive(Debug, Clone, Copy, PartialEq, Eq, Structural)]
pub struct BuildTestOrContainerOutcome {
    /// Overall outcome of the test or container.
    pub overall: TestOutcome,
    /// Own outcome (for containers: setup/cleanup outcome).
    pub own: Option<TestOutcome>,
    /// Children outcome (for containers: aggregate of children).
    pub children: Option<TestOutcome>,
}

/// A single execution of a test or container (BuildTestOrContainerExecution).
#[derive(Debug, Clone, Copy, PartialEq, Eq, Structural)]
pub struct BuildTestOrContainerExecution {
    /// Duration of this execution.
    pub duration: BuildTestOrContainerDuration,
    /// Outcome of this execution.
    pub outcome: BuildTestOrContainerOutcome,
}

impl BuildTestOrContainer {
    /// Returns true if this is a leaf test case (no children).
    pub fn is_test_case(&self) -> (r: bool)
        ensures
            r == (self.children@.len() == 0),
    {
        self.children.len() == 0
    }

    /// Returns true if this is a container (has children).
    pub fn is_container(&self) -> (r: bool)
        ensures
            r == (self.children@.len() != 0),
    {
        self.children.len() != 0
    }
}

/// A flattened test case for output purposes.
/// Created by walking the hierarchical tree and extracting leaf test cases.
#[derive(Debug)]
pub struct FlattenedTestCase {
    /// Work unit name (e.g., ":test").
    pub work_unit: String,
    /// Fully qualified container name (e.g., "org.example.TestClass").
    pub container_name: String,
    /// Test method name (leaf name).
    pub test_name: String,
    /// Overall outcome.
    pub outcome: TestOutcome,
    /// Duration in milliseconds.
    pub duration_ms: i64,
    /// Number of executions (retries).
    pub execution_count: usize,
}

/// The mathematical content of a flattened test case.
pub struct FlatCase {
    pub work_unit: Seq<char>,
    pub container_name: Seq<char>,
    pub test_name: Seq<char>,
    pub outcome: TestOutcome,
    pub duration_ms: i64,
    pub execution_count: nat,
}

impl View for FlattenedTestCase {
    type V = FlatCase;

    open spec fn view(&self) -> FlatCase {
        FlatCase {
            work_unit: self.work_unit@,
            container_name: self.container_name@,
            test_name: self.test_name@,
            outcome: self.outcome,
            duration_ms: self.duration_ms,
            execution_count: self.execution_count as nat,
        }
    }
}

/// The views of a sequence of flattened test cases.
pub open spec fn flat_views(v: Seq<FlattenedTestCase>) -> Seq<FlatCase> {
    v.map_values(|c: FlattenedTestCase| c@)
}

/// The path of a container below `parent`: its own name at the top level,
/// otherwise `parent.name`.
pub open spec fn child_path(parent: Seq<char>, name: Seq<char>) -> Seq<char> {
    if parent.len() == 0 {
        name
    } else {
        parent + "."@ + name
    }
}

/// The leaf test cases below `node`, in tree order. A leaf reached at the top
/// level is its own container.
pub open spec fn flatten_node(work_unit: Seq<char>, parent: Seq<char>, node: BuildTestOrContainer) -> Seq<FlatCase>
    decreases node,
{
    if node.children@.len() == 0 {
        seq![
            FlatCase {
                work_unit: work_unit,
                container_name: if parent.len() == 0 {
                    node.name@
                } else {
                    parent
                },
                test_name: node.name@,
                outcome: node.outcome.overall,
                duration_ms: match node.duration.total {
                    Some(t) => t,
                    None => 0,
                },
                execution_count: node.executions@.len(),
            },
        ]
    } else {
        flatten_nodes(work_unit, child_path(parent, node.name@), node.children@, node.children@.len() as int)
    }
}

/// The leaf test cases below the first `n` of `nodes`, in order.
pub open spec fn flatten_nodes(work_unit: Seq<char>, path: Seq<char>, nodes: Seq<BuildTestOrContainer>, n: int) -> Seq<FlatCase>
    decreases nodes, n,
{
    if n <= 0 || n > nodes.len() {
        seq![]
    } else {
        flatten_nodes(work_unit, path, nodes, n - 1) + flatten_node(work_unit, path, nodes[n - 1])
    }
}

/// The leaf test cases of all work units, in order.
pub open spec fn flatten_units(units: Seq<BuildTestWorkUnit>) -> Seq<FlatCase>
    decreases units.len(),
{
    if units.len() == 0 {
        seq![]
    } else {
        flatten_units(units.drop_last()) + flatten_nodes(units.last().name@, seq![], units.last().tests@, units.last().tests@.len() as int)
    }
}

impl BuildTestsResponse {
    /// Flatten the hierarchical test tree into a list of leaf test cases.
    ///
    /// This walks the tree and extracts all leaf nodes (test cases with no children),
    /// building up the fully qualified container name from the path.
    pub fn flatten_test_cases(&self) -> (r: Vec<FlattenedTestCase>)
        ensures
            flat_views(r@) == flatten_units(self.work_units@),
    {
        let mut result: Vec<FlattenedTestCase> = Vec::new();
        let mut u: usize = 0;
        let empty = String::new();
        while u < self.work_units.len()
            invariant
                u <= self.work_units@.len(),
                empty@ == Seq::<char>::empty(),
                flat_views(result@) == flatten_units(self.work_units@.take(u as int)),
            decreases self.work_units.len() - u,
        {
            let wu = &self.work_units[u];
            let mut t: usize = 0;
            let ghost before = flat_views(result@);
            while t < wu.tests.len()
                invariant
                    t <= wu.tests@.len(),
                    empty@ == Seq::<char>::empty(),
                    flat_views(result@) == before + flatten_nodes(wu.name@, seq![], wu.tests@, t as int),
                decreases wu.tests.len() - t,
            {
                Self::flatten_recursive(&wu.name, &empty, &wu.tests[t], &mut result);
                t = t + 1;
            }
            proof {
                let units = self.work_units@.take(u + 1);
                assert(units.drop_last() == self.work_units@.take(u as int));
                assert(units.last() == *wu);
            }
            u = u + 1;
        }
        proof {
            assert(self.work_units@.take(self.work_units@.len() as int) == self.work_units@);
        }
        result
    }

    fn flatten_recursive(
        work_unit: &String,
        parent_path: &String,
        node: &BuildTestOrContainer,
        result: &mut Vec<FlattenedTestCase>,
    )
        ensures
            flat_views(final(result)@) == flat_views(old(result)@) + flatten_node(work_unit@, parent_path@, *node),
        decreases node,
    {
        let ghost start = flat_views(result@);
        if node.is_test_case() {
            let container_name = if parent_path.as_str().is_empty() {
                copy(&node.name)
            } else {
                copy(parent_path)
            };
            let case = FlattenedTestCase {
                work_unit: copy(work_unit),
                container_name,
                test_name: copy(&node.name),
                outcome: node.outcome.overall,
                duration_ms: match node.duration.total {
                    Some(t) => t,
                    None => 0,
                },
                execution_count: node.executions.len(),
            };
            result.push(case);
            proof {
                assert(flat_views(result@) == start.push(case@));
            }
        } else {
            let current_path = if parent_path.as_str().is_empty() {
                copy(&node.name)
            } else {
                concat3(parent_path.as_str(), ".", node.name.as_str())
            };
            let mut c: usize = 0;
            while c < node.children.len()
                invariant
                    c <= node.children@.len(),
                    node.children@.len() > 0,
                    current_path@ == child_path(parent_path@, node.name@),
                    flat_views(result@) == start + flatten_nodes(work_unit@, current_path@, node.children@, c as int),
                decreases node.children.len() - c,
            {
                Self::flatten_recursive(work_unit, &current_path, &node.children[c], result);
                c = c + 1;
            }
        }
    }
}

} // verus!
