//! Configuration merging for the CLI.
//!
//! Configuration comes from several sources with the following priority:
//! 1. CLI arguments (highest)
//! 2. Environment variables
//! 3. Config file (~/.develocity/config.toml)
//! 4. Built-in defaults (lowest)
//!
//! Reading the environment and the config file is left to the caller; this
//! module decides what the merged configuration is.
use crate::error::Error;
use crate::models::tests::TestOutcome;
use crate::text::{
    all_ascii, concat3, lemma_plain_word, lowercase_text, plain_word, same_text, split_on,
    split_spec, to_lowercase, trim, trim_spec, unicode_lowercase,
};
use vstd::prelude::*;

verus! {

/// The default config file location, relative to the user's home directory.
pub const DEFAULT_CONFIG_DIR: &'static str = ".develocity";
/// The default config file name.
pub const DEFAULT_CONFIG_FILE: &'static str = "config.toml";
/// The request timeout, in seconds, when none is configured.
pub const DEFAULT_TIMEOUT_SECS: u64 = 30;

/// Configuration loaded from the TOML config file.
#[derive(Debug)]
pub struct ConfigFile {
    /// Develocity server URL.
    pub server: Option<String>,
    /// Access token for authentication.
    pub token: Option<String>,
    /// Default output format.
    pub output_format: Option<String>,
    /// Default verbose setting.
    pub verbose: Option<bool>,
    /// Default timeout in seconds.
    pub timeout: Option<u64>,
}

impl Default for ConfigFile {
    fn default() -> (r: ConfigFile)
        ensures
            r.server is None && r.token is None && r.output_format is None && r.verbose is None
                && r.timeout is None,
    {
        ConfigFile { server: None, token: None, output_format: None, verbose: None, timeout: None }
    }
}

impl ConfigFile {
    /// The configuration of the default config file location: the loaded file
    /// when one exists there (or the error from loading it), an empty
    /// configuration when there is none.
    pub fn load_default(existing: Option<Result<ConfigFile, Error>>) -> (r: Result<ConfigFile, Error>)
        ensures
            match existing {
                Some(loaded) => r == loaded,
                None => r matches Ok(c) && c.server is None && c.token is None
                    && c.output_format is None && c.verbose is None && c.timeout is None,
            },
    {
        match existing {
            Some(loaded) => loaded,
            None => Ok(ConfigFile::default()),
        }
    }
}

/// Output format for the CLI.
#[derive(Debug, Clone, Copy, PartialEq, Eq, Structural)]
pub enum OutputFormat {
    /// JSON output for machine consumption.
    Json,
    /// Human-readable colored terminal output.
    Human,
}

impl Default for OutputFormat {
    fn default() -> (r: OutputFormat)
        ensures
            r == OutputFormat::Human,
    {
        OutputFormat::Human
    }
}

/// The error text for an unrecognised output format (already lower-cased).
pub open spec fn invalid_format_message(lower: Seq<char>) -> Seq<char> {
    "Invalid output format '"@ + lower + "'. Valid options: json, human"@
}

/// What parsing an output format name gives (case-insensitive).
pub open spec fn parse_format_spec(s: Seq<char>) -> Result<OutputFormat, Seq<char>> {
    let l = lowercase_text(s);
    if l == "json"@ {
        Ok(OutputFormat::Json)
    } else if l == "human"@ {
        Ok(OutputFormat::Human)
    } else {
        Err(invalid_format_message(l))
    }
}

/// `json` names the JSON format and `human` the human-readable one, in
/// lower or upper case.
pub proof fn lemma_format_names()
    ensures
        parse_format_spec("json"@) == Ok::<OutputFormat, Seq<char>>(OutputFormat::Json),
        parse_format_spec("JSON"@) == Ok::<OutputFormat, Seq<char>>(OutputFormat::Json),
        parse_format_spec("human"@) == Ok::<OutputFormat, Seq<char>>(OutputFormat::Human),
        parse_format_spec("HUMAN"@) == Ok::<OutputFormat, Seq<char>>(OutputFormat::Human),
        OutputFormat::Json.text_of() == "json"@,
        OutputFormat::Human.text_of() == "human"@,
{
    reveal_strlit("json");
    reveal_strlit("JSON");
    reveal_strlit("human");
    reveal_strlit("HUMAN");
    assert(all_ascii("json"@));
    assert(all_ascii("JSON"@));
    assert(all_ascii("human"@));
    assert(all_ascii("HUMAN"@));
    assert(lowercase_text("json"@) =~= "json"@);
    assert(lowercase_text("JSON"@) =~= "json"@);
    assert(lowercase_text("human"@) =~= "human"@);
    assert(lowercase_text("HUMAN"@) =~= "human"@);
}

impl OutputFormat {
    /// The name of a format.
    pub open spec fn text_of(self) -> Seq<char> {
        match self {
            OutputFormat::Json => "json"@,
            OutputFormat::Human => "human"@,
        }
    }

    /// The name of a format (`json` or `human`).
    pub fn to_string(&self) -> (r: String)
        ensures
            r@ == self.text_of(),
    {
        match self {
            OutputFormat::Json => String::from_str("json"),
            OutputFormat::Human => String::from_str("human"),
        }
    }

    /// Parses a format name, case-insensitively.
    pub fn parse_str(s: &str) -> (r: Result<OutputFormat, String>)
        ensures
            match (r, parse_format_spec(s@)) {
                (Ok(f), Ok(sf)) => f == sf,
                (Err(e), Err(se)) => e@ == se,
                _ => false,
            },
            forall|f: OutputFormat| s@ == #[trigger] f.text_of() ==> r == Ok::<OutputFormat, String>(f),
    {
        let l = to_lowercase(s);
        proof {
            assert(l@ == lowercase_text(s@));
            lemma_format_names();
        }
        if same_text(&l, "json") {
            Ok(OutputFormat::Json)
        } else if same_text(&l, "human") {
            Ok(OutputFormat::Human)
        } else {
            Err(concat3("Invalid output format '", l.as_str(), "'. Valid options: json, human"))
        }
    }
}

impl std::str::FromStr for OutputFormat {
    type Err = String;

    fn from_str(s: &str) -> (r: Result<Self, Self::Err>)
        ensures
            match (r, parse_format_spec(s@)) {
                (Ok(f), Ok(sf)) => f == sf,
                (Err(e), Err(se)) => e@ == se,
                _ => false,
            },
            forall|f: OutputFormat| s@ == #[trigger] f.text_of() ==> r == Ok::<OutputFormat, String>(f),
    {
        OutputFormat::parse_str(s)
    }
}

/// Options for what data to include in the output.
#[derive(Debug, Clone, Copy, PartialEq, Eq, Structural)]
pub struct IncludeOptions {
    /// Include build result information.
    pub result: bool,
    /// Include deprecation information.
    pub deprecations: bool,
    /// Include failure information.
    pub failures: bool,
    /// Include test execution results.
    pub tests: bool,
    /// Include task execution / build cache performance data.
    pub task_execution: bool,
    /// Include network activity data.
    pub network_activity: bool,
    /// Include resolved dependencies.
    pub dependencies: bool,
}

impl Default for IncludeOptions {
    fn default() -> (r: IncludeOptions)
        ensures
            r == IncludeOptions::none_spec(),
    {
        IncludeOptions {
            result: false,
            deprecations: false,
            failures: false,
            tests: false,
            task_execution: false,
            network_activity: false,
            dependencies: false,
        }
    }
}

/// The error text for an unrecognised include option.
pub open spec fn invalid_include_message(word: Seq<char>) -> Seq<char> {
    "Invalid include option '"@ + word
        + "'. Valid options: result, deprecations, failures, tests, task-execution, network-activity, dependencies, all"@
}

/// The options after adding the section named by `word`, if `word` names one.
pub open spec fn with_section(acc: IncludeOptions, word: Seq<char>) -> Option<IncludeOptions> {
    if word == "result"@ {
        Some(IncludeOptions { result: true, ..acc })
    } else if word == "deprecations"@ {
        Some(IncludeOptions { deprecations: true, ..acc })
    } else if word == "failures"@ {
        Some(IncludeOptions { failures: true, ..acc })
    } else if word == "tests"@ {
        Some(IncludeOptions { tests: true, ..acc })
    } else if word == "task-execution"@ {
        Some(IncludeOptions { task_execution: true, ..acc })
    } else if word == "network-activity"@ {
        Some(IncludeOptions { network_activity: true, ..acc })
    } else if word == "dependencies"@ {
        Some(IncludeOptions { dependencies: true, ..acc })
    } else {
        None
    }
}

/// The options selected by comma-separated pieces, starting from `acc`:
/// each piece is trimmed; blank pieces are ignored; `all` selects everything;
/// an unknown word is an error naming it.
pub open spec fn include_pieces(pieces: Seq<Seq<char>>, acc: IncludeOptions) -> Result<IncludeOptions, Seq<char>>
    decreases pieces.len(),
{
    if pieces.len() == 0 {
        Ok(acc)
    } else {
        let word = trim_spec(pieces[0]);
        if word == "all"@ {
            Ok(IncludeOptions::all_spec())
        } else if word.len() == 0 {
            include_pieces(pieces.drop_first(), acc)
        } else {
            match with_section(acc, word) {
                Some(next) => include_pieces(pieces.drop_first(), next),
                None => Err(invalid_include_message(word)),
            }
        }
    }
}

/// What `IncludeOptions::parse` gives: the text is trimmed and lower-cased;
/// `all` selects everything; otherwise the comma-separated words select
/// sections, and a selection of nothing means everything.
pub open spec fn parse_include_spec(s: Seq<char>) -> Result<IncludeOptions, Seq<char>> {
    let t = lowercase_text(trim_spec(s));
    if t == "all"@ {
        Ok(IncludeOptions::all_spec())
    } else {
        match include_pieces(split_spec(t, ','), IncludeOptions::none_spec()) {
            Ok(o) => if o.any_spec() {
                Ok(o)
            } else {
                Ok(IncludeOptions::all_spec())
            },
            Err(e) => Err(e),
        }
    }
}

impl IncludeOptions {
    /// Every section selected.
    pub open spec fn all_spec() -> IncludeOptions {
        IncludeOptions {
            result: true,
            deprecations: true,
            failures: true,
            tests: true,
            task_execution: true,
            network_activity: true,
            dependencies: true,
        }
    }

    /// No section selected.
    pub open spec fn none_spec() -> IncludeOptions {
        IncludeOptions {
            result: false,
            deprecations: false,
            failures: false,
            tests: false,
            task_execution: false,
            network_activity: false,
            dependencies: false,
        }
    }

    /// Whether any section is selected.
    pub open spec fn any_spec(self) -> bool {
        self.result || self.deprecations || self.failures || self.tests || self.task_execution
            || self.network_activity || self.dependencies
    }

    /// Create options that include everything.
    pub fn all() -> (r: Self)
        ensures
            r == Self::all_spec(),
    {
        IncludeOptions {
            result: true,
            deprecations: true,
            failures: true,
            tests: true,
            task_execution: true,
            network_activity: true,
            dependencies: true,
        }
    }

    /// Parse include options from a comma-separated string.
    pub fn parse(s: &str) -> (r: Result<Self, String>)
        ensures
            match (r, parse_include_spec(s@)) {
                (Ok(o), Ok(so)) => o == so,
                (Err(e), Err(se)) => e@ == se,
                _ => false,
            },
            r matches Ok(o) ==> o.any_spec(),
    {
        let trimmed = trim(s);
        let t = to_lowercase(trimmed.as_str());
        proof {
            assert(t@ == lowercase_text(trim_spec(s@)));
        }
        if same_text(&t, "all") {
            return Ok(Self::all());
        }
        let parts = split_on(t.as_str(), ',');
        let ghost pieces = split_spec(t@, ',');
        let mut opts = IncludeOptions::default();
        let mut i: usize = 0;
        proof {
            assert(pieces.skip(0) == pieces);
        }
        while i < parts.len()
            invariant
                i <= parts@.len() == pieces.len(),
                forall|k: int| 0 <= k < parts@.len() ==> #[trigger] parts@[k]@ == pieces[k],
                t@ == lowercase_text(trim_spec(s@)),
                t@ != "all"@,
                pieces == split_spec(t@, ','),
                include_pieces(pieces, IncludeOptions::none_spec()) == include_pieces(pieces.skip(i as int), opts),
            decreases parts.len() - i,
        {
            let word = trim(parts[i].as_str());
            proof {
                assert(pieces.skip(i as int)[0] == pieces[i as int]);
                assert(pieces.skip(i as int).drop_first() == pieces.skip(i + 1));
            }
            if same_text(&word, "all") {
                proof {
                    assert(word@ == trim_spec(pieces.skip(i as int)[0]));
                }
                return Ok(Self::all());
            } else if word.as_str().is_empty() {
            } else if same_text(&word, "result") {
                opts.result = true;
            } else if same_text(&word, "deprecations") {
                opts.deprecations = true;
            } else if same_text(&word, "failures") {
                opts.failures = true;
            } else if same_text(&word, "tests") {
                opts.tests = true;
            } else if same_text(&word, "task-execution") {
                opts.task_execution = true;
            } else if same_text(&word, "network-activity") {
                opts.network_activity = true;
            } else if same_text(&word, "dependencies") {
                opts.dependencies = true;
            } else {
                return Err(concat3(
                    "Invalid include option '",
                    word.as_str(),
                    "'. Valid options: result, deprecations, failures, tests, task-execution, network-activity, dependencies, all",
                ));
            }
            i = i + 1;
        }
        proof {
            assert(pieces.skip(i as int).len() == 0);
        }
        if !opts.any() {
            return Ok(Self::all());
        }
        Ok(opts)
    }

    /// Returns true if any option is enabled.
    pub fn any(&self) -> (r: bool)
        ensures
            r == self.any_spec(),
    {
        self.result || self.deprecations || self.failures || self.tests || self.task_execution
            || self.network_activity || self.dependencies
    }
}

/// What one section word selects, starting from nothing selected.
proof fn lemma_single_section(w: Seq<char>)
    requires
        plain_word(w, ','),
        w.len() > 0,
        w != "all"@,
        with_section(IncludeOptions::none_spec(), w) is Some,
    ensures
        parse_include_spec(w) == Ok::<IncludeOptions, Seq<char>>(
            with_section(IncludeOptions::none_spec(), w)->0,
        ),
{
    lemma_plain_word(w, ',');
    let next = with_section(IncludeOptions::none_spec(), w)->0;
    let pieces = split_spec(w, ',');
    assert(pieces =~= seq![w]);
    assert(pieces[0] == w);
    assert(trim_spec(pieces[0]) == w);
    assert(pieces.drop_first() =~= Seq::<Seq<char>>::empty());
    assert(include_pieces(pieces.drop_first(), next) == Ok::<IncludeOptions, Seq<char>>(next));
    assert(include_pieces(pieces, IncludeOptions::none_spec()) == Ok::<IncludeOptions, Seq<char>>(next));
}

/// Each section word selects its own section and no other, and `all`
/// selects every section.
pub proof fn lemma_each_word_selects_its_section()
    ensures
        parse_include_spec("result"@) == Ok::<IncludeOptions, Seq<char>>(
            IncludeOptions {
                result: true,
                deprecations: false,
                failures: false,
                tests: false,
                task_execution: false,
                network_activity: false,
                dependencies: false,
            },
        ),
        parse_include_spec("deprecations"@) == Ok::<IncludeOptions, Seq<char>>(
            IncludeOptions {
                result: false,
                deprecations: true,
                failures: false,
                tests: false,
                task_execution: false,
                network_activity: false,
                dependencies: false,
            },
        ),
        parse_include_spec("failures"@) == Ok::<IncludeOptions, Seq<char>>(
            IncludeOptions {
                result: false,
                deprecations: false,
                failures: true,
                tests: false,
                task_execution: false,
                network_activity: false,
                dependencies: false,
            },
        ),
        parse_include_spec("tests"@) == Ok::<IncludeOptions, Seq<char>>(
            IncludeOptions {
                result: false,
                deprecations: false,
                failures: false,
                tests: true,
                task_execution: false,
                network_activity: false,
                dependencies: false,
            },
        ),
        parse_include_spec("task-execution"@) == Ok::<IncludeOptions, Seq<char>>(
            IncludeOptions {
                result: false,
                deprecations: false,
                failures: false,
                tests: false,
                task_execution: true,
                network_activity: false,
                dependencies: false,
            },
        ),
        parse_include_spec("network-activity"@) == Ok::<IncludeOptions, Seq<char>>(
            IncludeOptions {
                result: false,
                deprecations: false,
                failures: false,
                tests: false,
                task_execution: false,
                network_activity: true,
                dependencies: false,
            },
        ),
        parse_include_spec("dependencies"@) == Ok::<IncludeOptions, Seq<char>>(
            IncludeOptions {
                result: false,
                deprecations: false,
                failures: false,
                tests: false,
                task_execution: false,
                network_activity: false,
                dependencies: true,
            },
        ),
        parse_include_spec("all"@) == Ok::<IncludeOptions, Seq<char>>(
            IncludeOptions {
                result: true,
                deprecations: true,
                failures: true,
                tests: true,
                task_execution: true,
                network_activity: true,
                dependencies: true,
            },
        ),
{
    reveal_strlit("result");
    reveal_strlit("deprecations");
    reveal_strlit("failures");
    reveal_strlit("tests");
    reveal_strlit("task-execution");
    reveal_strlit("network-activity");
    reveal_strlit("dependencies");
    reveal_strlit("all");
    let words = seq![
        "result"@,
        "deprecations"@,
        "failures"@,
        "tests"@,
        "task-execution"@,
        "network-activity"@,
        "dependencies"@,
        "all"@,
    ];
    assert forall|k: int| 0 <= k < words.len() implies plain_word(#[trigger] words[k], ',') by {
        let w = words[k];
        assert forall|i: int| 0 <= i < w.len() implies {
            &&& (#[trigger] w[i] as int) < 128
            &&& !crate::text::is_white_space(w[i])
            &&& !('A' <= w[i] && w[i] <= 'Z')
            &&& w[i] != ','
        } by {}
    }
    assert("deprecations"@[3] != "dependencies"@[3]);
    lemma_single_section("result"@);
    lemma_single_section("deprecations"@);
    lemma_single_section("failures"@);
    lemma_single_section("tests"@);
    lemma_single_section("task-execution"@);
    lemma_single_section("network-activity"@);
    lemma_single_section("dependencies"@);
    assert(plain_word(words[7], ','));
    lemma_plain_word("all"@, ',');
}

/// Resolved configuration after merging all sources.
#[derive(Debug)]
pub struct Config {
    /// Develocity server URL.
    pub server: String,
    /// Access token for authentication.
    pub token: String,
    /// Output format.
    pub output_format: OutputFormat,
    /// What data to include in the output.
    pub included: IncludeOptions,
    /// Whether to show verbose output (stacktraces, etc.).
    pub verbose: bool,
    /// Request timeout in seconds.
    pub timeout: u64,
    /// Filter test results by these outcomes (server-side). Empty means all.
    pub test_outcomes: Vec<TestOutcome>,
}

/// The text of an optional string.
pub open spec fn opt_text(o: Option<String>) -> Option<Seq<char>> {
    match o {
        Some(s) => Some(s@),
        None => None,
    }
}

/// The first present value, by priority.
pub open spec fn first_present<T>(a: Option<T>, b: Option<T>, c: Option<T>) -> Option<T> {
    if a is Some {
        a
    } else if b is Some {
        b
    } else {
        c
    }
}

/// The settings a builder has collected from the command line.
pub struct ConfigBuilderView {
    pub server: Option<Seq<char>>,
    pub token: Option<Seq<char>>,
    pub output_format: Option<OutputFormat>,
    pub included: Option<IncludeOptions>,
    pub verbose: Option<bool>,
    pub timeout: Option<u64>,
    pub config_file_path: Option<Seq<char>>,
    pub test_outcomes: Seq<TestOutcome>,
}

/// Builder for creating a resolved Config from multiple sources.
#[derive(Debug)]
pub struct ConfigBuilder {
    server: Option<String>,
    token: Option<String>,
    output_format: Option<OutputFormat>,
    included: Option<IncludeOptions>,
    verbose: Option<bool>,
    timeout: Option<u64>,
    config_file_path: Option<String>,
    test_outcomes: Vec<TestOutcome>,
}

impl View for ConfigBuilder {
    type V = ConfigBuilderView;

    closed spec fn view(&self) -> ConfigBuilderView {
        ConfigBuilderView {
            server: opt_text(self.server),
            token: opt_text(self.token),
            output_format: self.output_format,
            included: self.included,
            verbose: self.verbose,
            timeout: self.timeout,
            config_file_path: opt_text(self.config_file_path),
            test_outcomes: self.test_outcomes@,
        }
    }
}

/// The output format a config file asks for: its value when it names a
/// format, otherwise the default (human).
pub open spec fn file_format(value: Option<String>) -> OutputFormat {
    match value {
        Some(s) => match parse_format_spec(s@) {
            Ok(f) => f,
            Err(_) => OutputFormat::Human,
        },
        None => OutputFormat::Human,
    }
}

impl ConfigBuilder {
    /// A builder with nothing set from the command line.
    pub open spec fn empty_view() -> ConfigBuilderView {
        ConfigBuilderView {
            server: None,
            token: None,
            output_format: None,
            included: None,
            verbose: None,
            timeout: None,
            config_file_path: None,
            test_outcomes: seq![],
        }
    }

    /// Create a new config builder.
    pub fn new() -> (r: Self)
        ensures
            r@ == Self::empty_view(),
    {
        ConfigBuilder {
            server: None,
            token: None,
            output_format: None,
            included: None,
            verbose: None,
            timeout: None,
            config_file_path: None,
            test_outcomes: Vec::new(),
        }
    }

    /// Set the server URL (from CLI arg); an absent value keeps the current one.
    pub fn server(self, server: Option<String>) -> (r: Self)
        ensures
            r@ == (ConfigBuilderView {
                server: if server is Some {
                    opt_text(server)
                } else {
                    self@.server
                },
                ..self@
            }),
    {
        let mut b = self;
        if server.is_some() {
            b.server = server;
        }
        b
    }

    /// Set the access token (from CLI arg); an absent value keeps the current one.
    pub fn token(self, token: Option<String>) -> (r: Self)
        ensures
            r@ == (ConfigBuilderView {
                token: if token is Some {
                    opt_text(token)
                } else {
                    self@.token
                },
                ..self@
            }),
    {
        let mut b = self;
        if token.is_some() {
            b.token = token;
        }
        b
    }

    /// Set the output format (from CLI arg); an absent value keeps the current one.
    pub fn output_format(self, format: Option<OutputFormat>) -> (r: Self)
        ensures
            r@ == (ConfigBuilderView {
                output_format: if format is Some {
                    format
                } else {
                    self@.output_format
                },
                ..self@
            }),
    {
        let mut b = self;
        if format.is_some() {
            b.output_format = format;
        }
        b
    }

    /// Set the include options (from CLI arg); an absent value keeps the current one.
    pub fn included(self, included: Option<IncludeOptions>) -> (r: Self)
        ensures
            r@ == (ConfigBuilderView {
                included: if included is Some {
                    included
                } else {
                    self@.included
                },
                ..self@
            }),
    {
        let mut b = self;
        if included.is_some() {
            b.included = included;
        }
        b
    }

    /// Set verbose mode (from CLI arg); `false` keeps the current setting.
    pub fn verbose(self, verbose: bool) -> (r: Self)
        ensures
            r@ == (ConfigBuilderView {
                verbose: if verbose {
                    Some(true)
                } else {
                    self@.verbose
                },
                ..self@
            }),
    {
        let mut b = self;
        if verbose {
            b.verbose = Some(true);
        }
        b
    }

    /// Set timeout (from CLI arg); an absent value keeps the current one.
    pub fn timeout(self, timeout: Option<u64>) -> (r: Self)
        ensures
            r@ == (ConfigBuilderView {
                timeout: if timeout is Some {
                    timeout
                } else {
                    self@.timeout
                },
                ..self@
            }),
    {
        let mut b = self;
        if timeout.is_some() {
            b.timeout = timeout;
        }
        b
    }

    /// Set the config file path.
    pub fn config_file(self, path: Option<String>) -> (r: Self)
        ensures
            r@ == (ConfigBuilderView { config_file_path: opt_text(path), ..self@ }),
    {
        let mut b = self;
        b.config_file_path = path;
        b
    }

    /// Set the test outcome filters.
    pub fn test_outcomes(self, outcomes: Vec<TestOutcome>) -> (r: Self)
        ensures
            r@ == (ConfigBuilderView { test_outcomes: outcomes@, ..self@ }),
    {
        let mut b = self;
        b.test_outcomes = outcomes;
        b
    }

    /// The config file path set on the builder, if any (the file to load
    /// instead of the default one).
    pub fn config_file_path(&self) -> (r: Option<&str>)
        ensures
            match r {
                Some(p) => self@.config_file_path == Some(p@),
                None => self@.config_file_path is None,
            },
    {
        match &self.config_file_path {
            Some(p) => Some(p.as_str()),
            None => None,
        }
    }

    /// Build the resolved configuration by merging all sources.
    ///
    /// `loaded` is the config file (the one set with `config_file`, or the
    /// default one); `env_server` and `env_token` are the values of the
    /// `DEVELOCITY_SERVER` and `DEVELOCITY_API_KEY` environment variables.
    pub fn build(
        self,
        loaded: Result<ConfigFile, Error>,
        env_server: Option<String>,
        env_token: Option<String>,
    ) -> (r: Result<Config, Error>)
        ensures
            match loaded {
                Err(e) => r == Err::<Config, Error>(e),
                Ok(file) => {
                    let server = first_present(self@.server, opt_text(env_server), opt_text(file.server));
                    let token = first_present(self@.token, opt_text(env_token), opt_text(file.token));
                    if server is None {
                        r matches Err(Error::MissingServer)
                    } else if token is None {
                        r matches Err(Error::MissingToken)
                    } else {
                        r matches Ok(c) && {
                            &&& Some(c.server@) == server
                            &&& Some(c.token@) == token
                            &&& c.output_format == match self@.output_format {
                                Some(f) => f,
                                None => file_format(file.output_format),
                            }
                            &&& c.included == match self@.included {
                                Some(i) => i,
                                None => IncludeOptions::all_spec(),
                            }
                            &&& c.verbose == match self@.verbose {
                                Some(v) => v,
                                None => match file.verbose {
                                    Some(v) => v,
                                    None => false,
                                },
                            }
                            &&& c.timeout == match self@.timeout {
                                Some(t) => t,
                                None => match file.timeout {
                                    Some(t) => t,
                                    None => DEFAULT_TIMEOUT_SECS,
                                },
                            }
                            &&& c.test_outcomes@ == self@.test_outcomes
                        }
                    }
                },
            },
    {
        let config_file = match loaded {
            Ok(file) => file,
            Err(e) => {
                return Err(e);
            },
        };
        let server = match self.server {
            Some(s) => s,
            None => match env_server {
                Some(s) => s,
                None => match config_file.server {
                    Some(s) => s,
                    None => {
                        return Err(Error::MissingServer);
                    },
                },
            },
        };
        let token = match self.token {
            Some(t) => t,
            None => match env_token {
                Some(t) => t,
                None => match config_file.token {
                    Some(t) => t,
                    None => {
                        return Err(Error::MissingToken);
                    },
                },
            },
        };
        let output_format = match self.output_format {
            Some(f) => f,
            None => match &config_file.output_format {
                Some(s) => match OutputFormat::parse_str(s.as_str()) {
                    Ok(f) => f,
                    Err(_) => OutputFormat::default(),
                },
                None => OutputFormat::default(),
            },
        };
        let included = match self.included {
            Some(i) => i,
            None => IncludeOptions::all(),
        };
        let verbose = match self.verbose {
            Some(v) => v,
            None => match config_file.verbose {
                Some(v) => v,
                None => false,
            },
        };
        let timeout = match self.timeout {
            Some(t) => t,
            None => match config_file.timeout {
                Some(t) => t,
                None => DEFAULT_TIMEOUT_SECS,
            },
        };
        Ok(Config {
            server,
            token,
            output_format,
            included,
            verbose,
            timeout,
            test_outcomes: self.test_outcomes,
        })
    }
}

} // verus!
