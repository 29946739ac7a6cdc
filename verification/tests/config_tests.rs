use dvcli::config::{Config, ConfigBuilder, ConfigFile, IncludeOptions, OutputFormat};
use dvcli::error::Error;
use dvcli::models::TestOutcome;

#[test]
fn test_include_options_parse_all() {
    let opts = IncludeOptions::parse("all").unwrap();
    assert!(opts.result);
    assert!(opts.deprecations);
    assert!(opts.failures);
    assert!(opts.tests);
    assert!(opts.task_execution);
    assert!(opts.network_activity);
}

#[test]
fn test_include_options_parse_single() {
    let opts = IncludeOptions::parse("result").unwrap();
    assert!(opts.result);
    assert!(!opts.deprecations);
    assert!(!opts.failures);
    assert!(!opts.tests);
    assert!(!opts.task_execution);
}

#[test]
fn test_include_options_parse_multiple() {
    let opts = IncludeOptions::parse("result,failures").unwrap();
    assert!(opts.result);
    assert!(!opts.deprecations);
    assert!(opts.failures);
    assert!(!opts.tests);
    assert!(!opts.task_execution);
}

#[test]
fn test_include_options_parse_tests() {
    let opts = IncludeOptions::parse("tests").unwrap();
    assert!(!opts.result);
    assert!(!opts.deprecations);
    assert!(!opts.failures);
    assert!(opts.tests);
    assert!(!opts.task_execution);
}

#[test]
fn test_include_options_parse_multiple_with_tests() {
    let opts = IncludeOptions::parse("result,tests").unwrap();
    assert!(opts.result);
    assert!(!opts.deprecations);
    assert!(!opts.failures);
    assert!(opts.tests);
    assert!(!opts.task_execution);
}

#[test]
fn test_include_options_parse_task_execution() {
    let opts = IncludeOptions::parse("task-execution").unwrap();
    assert!(!opts.result);
    assert!(!opts.deprecations);
    assert!(!opts.failures);
    assert!(!opts.tests);
    assert!(opts.task_execution);
}

#[test]
fn test_include_options_parse_network_activity() {
    let opts = IncludeOptions::parse("network-activity").unwrap();
    assert!(!opts.result);
    assert!(!opts.deprecations);
    assert!(!opts.failures);
    assert!(!opts.tests);
    assert!(!opts.task_execution);
    assert!(opts.network_activity);
}

#[test]
fn test_include_options_parse_empty() {
    let opts = IncludeOptions::parse("").unwrap();
    // Empty means all
    assert!(opts.result);
    assert!(opts.deprecations);
    assert!(opts.failures);
    assert!(opts.tests);
    assert!(opts.task_execution);
    assert!(opts.network_activity);
}

#[test]
fn test_include_options_parse_invalid() {
    let result = IncludeOptions::parse("invalid");
    assert!(result.is_err());
}

#[test]
fn test_output_format_parse() {
    assert_eq!("json".parse::<OutputFormat>().unwrap(), OutputFormat::Json);
    assert_eq!("JSON".parse::<OutputFormat>().unwrap(), OutputFormat::Json);
    assert_eq!(
        "human".parse::<OutputFormat>().unwrap(),
        OutputFormat::Human
    );
    assert!("invalid".parse::<OutputFormat>().is_err());
}

// ---------------------------------------------------------------------------
// Further cases.
// ---------------------------------------------------------------------------

#[test]
fn include_options_trimmed_and_case_insensitive() {
    let opts = IncludeOptions::parse("  Result , TESTS ,, ").unwrap();
    assert!(opts.result);
    assert!(opts.tests);
    assert!(!opts.failures);
    assert!(!opts.dependencies);
    let all = IncludeOptions::parse(" ALL ").unwrap();
    assert!(all.result && all.dependencies && all.network_activity);
}

#[test]
fn include_options_all_word_among_others() {
    let opts = IncludeOptions::parse("result,all").unwrap();
    assert!(opts.failures && opts.deprecations && opts.dependencies);
}

#[test]
fn include_options_dependencies() {
    let opts = IncludeOptions::parse("dependencies").unwrap();
    assert!(opts.dependencies);
    assert!(!opts.result);
    assert!(opts.any());
}

#[test]
fn include_options_only_commas_means_all() {
    let opts = IncludeOptions::parse(" , ,").unwrap();
    assert!(opts.result && opts.tests && opts.dependencies);
}

#[test]
fn include_options_invalid_message_names_word() {
    let err = IncludeOptions::parse("result,bogus").unwrap_err();
    assert_eq!(
        err,
        "Invalid include option 'bogus'. Valid options: result, deprecations, failures, tests, task-execution, network-activity, dependencies, all"
    );
}

#[test]
fn include_options_any_and_all() {
    assert!(IncludeOptions::all().any());
    assert!(!IncludeOptions::default().any());
}

#[test]
fn output_format_round_trip_and_message() {
    assert_eq!(OutputFormat::Json.to_string(), "json");
    assert_eq!(OutputFormat::Human.to_string(), "human");
    assert_eq!(OutputFormat::parse_str(&OutputFormat::Json.to_string()), Ok(OutputFormat::Json));
    assert_eq!(OutputFormat::default(), OutputFormat::Human);
    assert_eq!(
        OutputFormat::parse_str("Yaml").unwrap_err(),
        "Invalid output format 'yaml'. Valid options: json, human"
    );
}

fn file(server: Option<&str>, token: Option<&str>, format: Option<&str>, verbose: Option<bool>, timeout: Option<u64>) -> ConfigFile {
    ConfigFile {
        server: server.map(|s| s.to_string()),
        token: token.map(|s| s.to_string()),
        output_format: format.map(|s| s.to_string()),
        verbose,
        timeout,
    }
}

#[test]
fn config_priority_cli_over_env_over_file() {
    let cfg: Config = ConfigBuilder::new()
        .server(Some("https://cli".to_string()))
        .build(
            Ok(file(Some("https://file"), Some("file-token"), None, None, None)),
            Some("https://env".to_string()),
            Some("env-token".to_string()),
        )
        .unwrap();
    assert_eq!(cfg.server, "https://cli");
    assert_eq!(cfg.token, "env-token");

    let cfg = ConfigBuilder::new()
        .build(Ok(file(Some("https://file"), Some("file-token"), None, None, None)), None, None)
        .unwrap();
    assert_eq!(cfg.server, "https://file");
    assert_eq!(cfg.token, "file-token");
}

#[test]
fn config_defaults_and_file_settings() {
    let cfg = ConfigBuilder::new()
        .build(Ok(file(Some("s"), Some("t"), None, None, None)), None, None)
        .unwrap();
    assert_eq!(cfg.output_format, OutputFormat::Human);
    assert_eq!(cfg.timeout, 30);
    assert!(!cfg.verbose);
    assert!(cfg.included.result && cfg.included.dependencies);
    assert!(cfg.test_outcomes.is_empty());

    let cfg = ConfigBuilder::new()
        .build(Ok(file(Some("s"), Some("t"), Some("JSON"), Some(true), Some(60))), None, None)
        .unwrap();
    assert_eq!(cfg.output_format, OutputFormat::Json);
    assert_eq!(cfg.timeout, 60);
    assert!(cfg.verbose);

    let cfg = ConfigBuilder::new()
        .build(Ok(file(Some("s"), Some("t"), Some("xml"), None, None)), None, None)
        .unwrap();
    assert_eq!(cfg.output_format, OutputFormat::Human);
}

#[test]
fn config_cli_settings_override_file() {
    let cfg = ConfigBuilder::new()
        .output_format(Some(OutputFormat::Human))
        .timeout(Some(5))
        .verbose(true)
        .included(Some(IncludeOptions::parse("tests").unwrap()))
        .test_outcomes(vec![TestOutcome::Failed])
        .build(Ok(file(Some("s"), Some("t"), Some("json"), Some(false), Some(60))), None, None)
        .unwrap();
    assert_eq!(cfg.output_format, OutputFormat::Human);
    assert_eq!(cfg.timeout, 5);
    assert!(cfg.verbose);
    assert!(cfg.included.tests && !cfg.included.result);
    assert_eq!(cfg.test_outcomes, vec![TestOutcome::Failed]);
}

#[test]
fn config_none_arguments_keep_earlier_settings() {
    let cfg = ConfigBuilder::new()
        .server(Some("https://a".to_string()))
        .server(None)
        .timeout(Some(7))
        .timeout(None)
        .verbose(false)
        .build(Ok(file(None, Some("t"), None, Some(true), None)), None, None)
        .unwrap();
    assert_eq!(cfg.server, "https://a");
    assert_eq!(cfg.timeout, 7);
    assert!(cfg.verbose);
}

#[test]
fn config_missing_server_and_token() {
    let err = ConfigBuilder::new().build(Ok(file(None, Some("t"), None, None, None)), None, None).unwrap_err();
    assert!(matches!(err, Error::MissingServer));
    let err = ConfigBuilder::new().build(Ok(file(Some("s"), None, None, None, None)), None, None).unwrap_err();
    assert!(matches!(err, Error::MissingToken));
}

#[test]
fn config_file_error_is_reported() {
    let err = ConfigBuilder::new()
        .server(Some("s".to_string()))
        .token(Some("t".to_string()))
        .build(
            Err(Error::ConfigParse { path: "/x/config.toml".to_string(), message: "bad".to_string() }),
            None,
            None,
        )
        .unwrap_err();
    assert!(matches!(err, Error::ConfigParse { .. }));
    assert_eq!(err.exit_code(), 1);
}

#[test]
fn config_file_path_kept() {
    let b = ConfigBuilder::new().config_file(Some("/tmp/c.toml".to_string()));
    assert_eq!(b.config_file_path(), Some("/tmp/c.toml"));
    assert_eq!(ConfigBuilder::new().config_file_path(), None);
}

#[test]
fn load_default_without_file_is_empty() {
    let c = ConfigFile::load_default(None).unwrap();
    assert!(c.server.is_none() && c.token.is_none() && c.timeout.is_none());
    let c = ConfigFile::load_default(Some(Ok(file(Some("s"), None, None, None, None)))).unwrap();
    assert_eq!(c.server.as_deref(), Some("s"));
}
