use dvcli::output::human;
use dvcli::output::human::{paint, AvoidanceRank, Figures, Style};
use dvcli::output::BuildOutput;

#[test]
fn styles_emit_escape_sequences_when_forced() {
    colored::control::set_override(true);
    assert_eq!(paint("x", Style::Bold), "\u{1b}[1mx\u{1b}[0m");
    assert_eq!(paint("x", Style::Dimmed), "\u{1b}[2mx\u{1b}[0m");
    assert_eq!(paint("x", Style::Red), "\u{1b}[31mx\u{1b}[0m");
    assert_eq!(paint("x", Style::Green), "\u{1b}[32mx\u{1b}[0m");
    assert_eq!(paint("x", Style::Yellow), "\u{1b}[33mx\u{1b}[0m");
    assert_eq!(paint("x", Style::Cyan), "\u{1b}[36mx\u{1b}[0m");
    assert_eq!(paint("x", Style::RedBold), "\u{1b}[1;31mx\u{1b}[0m");
    assert_eq!(paint("x", Style::GreenBold), "\u{1b}[1;32mx\u{1b}[0m");
    // A nested reset keeps the outer style for the text after it.
    assert_eq!(
        paint("\u{1b}[31m\u{2717}\u{1b}[0m FAILED", Style::RedBold),
        "\u{1b}[1;31m\u{1b}[31m\u{2717}\u{1b}[0m\u{1b}[1;31m FAILED\u{1b}[0m"
    );

    let out = BuildOutput {
        build_id: "abc".to_string(),
        build_scan_url: "https://ge/s/abc".to_string(),
        result: None,
        deprecations: None,
        failures: None,
        tests: None,
        task_execution: None,
        network_activity: None,
        dependencies: None,
    };
    let figures = Figures {
        pass_rate: String::new(),
        avoidance_percent: String::new(),
        avoidance_rank: AvoidanceRank::Low,
        serialization_factor: String::new(),
    };
    let text = human::format(&out, false, &figures);
    assert!(text.starts_with("Build: \u{1b}[1mabc\u{1b}[0m\n"));
    colored::control::set_override(false);
    assert_eq!(paint("x", Style::Red), "x");
}
