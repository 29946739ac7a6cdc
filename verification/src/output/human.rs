//! Human-readable, colored terminal output.
//!
//! A report is a sequence of lines; each line is a sequence of pieces of
//! text, some of them printed in a color or style. Whether `colored` actually
//! emits the escape sequences depends on the environment and the terminal,
//! so the contracts say of each styled piece that it is printed either as it
//! is or painted in its style.
use crate::output::format::{bytes_text, duration_text, format_bytes, format_duration};
use crate::output::dependencies::{DependenciesOutput, DependencyGroupOutput, DependencyOutput};
use crate::output::network::{NetworkActivityEntryOutput, NetworkActivityOutput};
use crate::output::format::{reformat_rfc3339, rfc3339_reformatted, TIMESTAMP_PATTERN};
use crate::output::{
    BuildFailureOutput, BuildOutput, DeprecationOutput, DeprecationUsageOutput, FailuresOutput, ResultOutput, TaskEntryOutput, TaskExecutionOutput, TestExecutionOutput,
    TestFailureOutput, TestSummaryOutput, TestsOutput,
};
use crate::text::{
    after_last, after_last_char, concat2, concat3, copy, decimal, i64_text, int_text, join, join_spec, lines,
    lines_spec,
    lemma_lex_antisym, lemma_lex_lt_trans, lemma_lex_total, lex_lt, lex_lt_exec,
    pad_left,
    padded_left, same_text, starts_with, starts_with_spec, texts, u64_text,
};
use colored::Colorize;
use vstd::prelude::*;

verus! {

/// The styles the report uses.
#[derive(Debug, Clone, Copy, PartialEq, Eq, Structural)]
pub enum Style {
    /// Bold text.
    Bold,
    /// Dimmed text.
    Dimmed,
    /// Red text.
    Red,
    /// Green text.
    Green,
    /// Yellow text.
    Yellow,
    /// Cyan text.
    Cyan,
    /// Bold red text.
    RedBold,
    /// Bold green text.
    GreenBold,
}

/// The SGR escape sequence that switches a style on.
pub open spec fn sgr(style: Style) -> Seq<char> {
    match style {
        Style::Bold => seq!['\x1b', '[', '1', 'm'],
        Style::Dimmed => seq!['\x1b', '[', '2', 'm'],
        Style::Red => seq!['\x1b', '[', '3', '1', 'm'],
        Style::Green => seq!['\x1b', '[', '3', '2', 'm'],
        Style::Yellow => seq!['\x1b', '[', '3', '3', 'm'],
        Style::Cyan => seq!['\x1b', '[', '3', '6', 'm'],
        Style::RedBold => seq!['\x1b', '[', '1', ';', '3', '1', 'm'],
        Style::GreenBold => seq!['\x1b', '[', '1', ';', '3', '2', 'm'],
    }
}

/// The escape sequence that switches all styles off.
pub open spec fn reset_code() -> Seq<char> {
    seq!['\x1b', '[', '0', 'm']
}

/// `s` with `code` inserted after every reset sequence in it, so that text
/// after a nested reset keeps the outer style.
pub open spec fn escape_resets(s: Seq<char>, code: Seq<char>) -> Seq<char>
    decreases s.len(),
{
    if s.len() < 4 {
        s
    } else if s.take(4) == reset_code() {
        reset_code() + code + escape_resets(s.skip(4), code)
    } else {
        seq![s[0]] + escape_resets(s.drop_first(), code)
    }
}

/// `s` painted in a style, as `colored` prints it when it colors.
pub open spec fn painted(s: Seq<char>, style: Style) -> Seq<char> {
    sgr(style) + escape_resets(s, sgr(style)) + reset_code()
}

// ---------------------------------------------------------------------------
// Trusted: colored.
// ---------------------------------------------------------------------------

/// `colored`'s `Colorize::bold`, printed with `Display`.
///
/// Trusted: the text is printed as it is when `colored` does not color
/// (which it decides from the environment and the terminal), otherwise
/// painted bold.
#[verifier::external_body]
fn bold(s: &str) -> (r: String)
    ensures
        r@ == s@ || r@ == painted(s@, Style::Bold),
{
    s.bold().to_string()
}

/// `colored`'s `Colorize::dimmed`, printed with `Display`.
///
/// Trusted: the text as it is, or painted dimmed when `colored` colors.
#[verifier::external_body]
fn dimmed(s: &str) -> (r: String)
    ensures
        r@ == s@ || r@ == painted(s@, Style::Dimmed),
{
    s.dimmed().to_string()
}

/// `colored`'s `Colorize::red`, printed with `Display`.
///
/// Trusted: the text as it is, or painted red when `colored` colors.
#[verifier::external_body]
fn red(s: &str) -> (r: String)
    ensures
        r@ == s@ || r@ == painted(s@, Style::Red),
{
    s.red().to_string()
}

/// `colored`'s `Colorize::green`, printed with `Display`.
///
/// Trusted: the text as it is, or painted green when `colored` colors.
#[verifier::external_body]
fn green(s: &str) -> (r: String)
    ensures
        r@ == s@ || r@ == painted(s@, Style::Green),
{
    s.green().to_string()
}

/// `colored`'s `Colorize::yellow`, printed with `Display`.
///
/// Trusted: the text as it is, or painted yellow when `colored` colors.
#[verifier::external_body]
fn yellow(s: &str) -> (r: String)
    ensures
        r@ == s@ || r@ == painted(s@, Style::Yellow),
{
    s.yellow().to_string()
}

/// `colored`'s `Colorize::cyan`, printed with `Display`.
///
/// Trusted: the text as it is, or painted cyan when `colored` colors.
#[verifier::external_body]
fn cyan(s: &str) -> (r: String)
    ensures
        r@ == s@ || r@ == painted(s@, Style::Cyan),
{
    s.cyan().to_string()
}

/// `colored`'s `Colorize::red` followed by `Colorize::bold`, printed with
/// `Display`.
///
/// Trusted: the text as it is, or painted bold red (one escape sequence for
/// both) when `colored` colors.
#[verifier::external_body]
fn red_bold(s: &str) -> (r: String)
    ensures
        r@ == s@ || r@ == painted(s@, Style::RedBold),
{
    s.red().bold().to_string()
}

/// `colored`'s `Colorize::green` followed by `Colorize::bold`, printed with
/// `Display`.
///
/// Trusted: the text as it is, or painted bold green (one escape sequence
/// for both) when `colored` colors.
#[verifier::external_body]
fn green_bold(s: &str) -> (r: String)
    ensures
        r@ == s@ || r@ == painted(s@, Style::GreenBold),
{
    s.green().bold().to_string()
}

/// Paints a text in a style (or leaves it as it is, when `colored` does not
/// color).
pub fn paint(s: &str, style: Style) -> (r: String)
    ensures
        r@ == s@ || r@ == painted(s@, style),
{
    match style {
        Style::Bold => bold(s),
        Style::Dimmed => dimmed(s),
        Style::Red => red(s),
        Style::Green => green(s),
        Style::Yellow => yellow(s),
        Style::Cyan => cyan(s),
        Style::RedBold => red_bold(s),
        Style::GreenBold => green_bold(s),
    }
}

// ---------------------------------------------------------------------------
// Lines and pieces.
// ---------------------------------------------------------------------------

/// A piece of a line.
pub enum Piece {
    /// Text printed as it is, or in a style when one is given.
    Text(Seq<char>, Option<Style>),
    /// A mark in a style of its own followed by more text, the whole in a
    /// second style.
    Marked(Seq<char>, Style, Seq<char>, Style),
}

/// Text printed as it is.
pub open spec fn plain(t: Seq<char>) -> Piece {
    Piece::Text(t, None)
}

/// Text printed in a style.
pub open spec fn styled(t: Seq<char>, style: Style) -> Piece {
    Piece::Text(t, Some(style))
}

/// How a piece is printed, for one of the ways it may be printed: a styled
/// text as it is (0) or painted (1); a marked text with its mark as it is or
/// painted (even or odd), and the whole as it is or painted (below 2 or not).
pub open spec fn render_piece(p: Piece, way: int) -> Seq<char> {
    match p {
        Piece::Text(t, None) => t,
        Piece::Text(t, Some(style)) => if way == 0 {
            t
        } else {
            painted(t, style)
        },
        Piece::Marked(mark, mark_style, rest, style) => {
            let whole = (if way % 2 == 0 {
                mark
            } else {
                painted(mark, mark_style)
            }) + rest;
            if way < 2 {
                whole
            } else {
                painted(whole, style)
            }
        },
    }
}

/// How a line is printed, for one way of printing each of its pieces.
pub open spec fn render_line(pieces: Seq<Piece>, ways: Seq<int>) -> Seq<char>
    decreases pieces.len(),
{
    if pieces.len() == 0 {
        Seq::empty()
    } else {
        render_line(pieces.drop_last(), ways.drop_last()) + render_piece(pieces.last(), ways.last())
    }
}

/// `out` is how a line made of `pieces` may be printed: each piece printed
/// in turn, as it is or in its style.
pub open spec fn line_of(out: Seq<char>, pieces: Seq<Piece>) -> bool {
    exists|ways: Seq<int>| ways.len() == pieces.len() && out == #[trigger] render_line(pieces, ways)
}

/// Each printed line is how the corresponding line of `doc` may be printed.
pub open spec fn lines_match(lines: Seq<String>, doc: Seq<Seq<Piece>>) -> bool {
    &&& lines.len() == doc.len()
    &&& forall|i: int| 0 <= i < lines.len() ==> line_of(#[trigger] lines[i]@, doc[i])
}

/// `out` is how the document may be printed: its lines, each printed as
/// `line_of` says, joined with newlines.
pub open spec fn prints(out: Seq<char>, doc: Seq<Seq<Piece>>) -> bool {
    exists|ls: Seq<Seq<char>>|
        ls.len() == doc.len() && (forall|i: int| 0 <= i < ls.len() ==> line_of(#[trigger] ls[i], doc[i]))
            && out == join_spec(ls, "\n"@)
}

proof fn lemma_line_push(a: Seq<char>, pieces: Seq<Piece>, p: Seq<char>, x: Piece, way: int)
    requires
        line_of(a, pieces),
        p == render_piece(x, way),
    ensures
        line_of(a + p, pieces.push(x)),
{
    let ways = choose|ways: Seq<int>| ways.len() == pieces.len() && a == #[trigger] render_line(pieces, ways);
    let ps = pieces.push(x);
    let ws = ways.push(way);
    assert(ps.drop_last() =~= pieces);
    assert(ws.drop_last() =~= ways);
    assert(render_line(ps, ws) == a + p);
}

/// A line under construction, with the pieces it is made of.
struct Line {
    text: String,
    pieces: Ghost<Seq<Piece>>,
}

impl Line {
    spec fn wf(&self) -> bool {
        line_of(self.text@, self.pieces@)
    }

    fn new() -> (l: Line)
        ensures
            l.wf(),
            l.pieces@ == Seq::<Piece>::empty(),
    {
        let l = Line { text: String::new(), pieces: Ghost(Seq::empty()) };
        assert(l.text@ == render_line(l.pieces@, Seq::<int>::empty()));
        l
    }

    fn plain(&mut self, s: &str)
        requires
            old(self).wf(),
        ensures
            final(self).wf(),
            final(self).pieces@ == old(self).pieces@.push(plain(s@)),
    {
        proof {
            lemma_line_push(self.text@, self.pieces@, s@, plain(s@), 0);
        }
        self.text.append(s);
        self.pieces = Ghost(self.pieces@.push(plain(s@)));
    }

    fn styled(&mut self, s: &str, style: Style)
        requires
            old(self).wf(),
        ensures
            final(self).wf(),
            final(self).pieces@ == old(self).pieces@.push(styled(s@, style)),
    {
        let p = paint(s, style);
        proof {
            let way: int = if p@ == s@ { 0 } else { 1 };
            lemma_line_push(self.text@, self.pieces@, p@, styled(s@, style), way);
        }
        self.text.append(p.as_str());
        self.pieces = Ghost(self.pieces@.push(styled(s@, style)));
    }

    fn marked(&mut self, mark: &str, mark_style: Style, rest: &str, style: Style)
        requires
            old(self).wf(),
        ensures
            final(self).wf(),
            final(self).pieces@ == old(self).pieces@.push(Piece::Marked(mark@, mark_style, rest@, style)),
    {
        let m = paint(mark, mark_style);
        let whole = concat2(m.as_str(), rest);
        let p = paint(whole.as_str(), style);
        proof {
            let inner: int = if m@ == mark@ { 0 } else { 1 };
            let outer: int = if p@ == whole@ { 0 } else { 2 };
            lemma_line_push(
                self.text@,
                self.pieces@,
                p@,
                Piece::Marked(mark@, mark_style, rest@, style),
                inner + outer,
            );
        }
        self.text.append(p.as_str());
        self.pieces = Ghost(self.pieces@.push(Piece::Marked(mark@, mark_style, rest@, style)));
    }
}

/// A document under construction: its printed lines and the lines they are
/// printed from.
struct Doc {
    lines: Vec<String>,
    spec: Ghost<Seq<Seq<Piece>>>,
}

impl Doc {
    spec fn wf(&self) -> bool {
        lines_match(self.lines@, self.spec@)
    }

    fn new() -> (d: Doc)
        ensures
            d.wf(),
            d.spec@ == Seq::<Seq<Piece>>::empty(),
    {
        Doc { lines: Vec::new(), spec: Ghost(Seq::empty()) }
    }

    fn push(&mut self, line: Line)
        requires
            old(self).wf(),
            line.wf(),
        ensures
            final(self).wf(),
            final(self).spec@ == old(self).spec@.push(line.pieces@),
    {
        let ghost old_lines = self.lines@;
        self.lines.push(line.text);
        self.spec = Ghost(self.spec@.push(line.pieces@));
        assert forall|i: int| 0 <= i < self.lines@.len() implies line_of(
            #[trigger] self.lines@[i]@,
            self.spec@[i],
        ) by {
            if i < old_lines.len() {
                assert(self.lines@[i] == old_lines[i]);
            }
        }
    }

    fn blank(&mut self)
        requires
            old(self).wf(),
        ensures
            final(self).wf(),
            final(self).spec@ == old(self).spec@.push(Seq::<Piece>::empty()),
    {
        self.push(Line::new());
    }

    fn append(&mut self, other: Doc)
        requires
            old(self).wf(),
            other.wf(),
        ensures
            final(self).wf(),
            final(self).spec@ == old(self).spec@ + other.spec@,
    {
        let ghost old_lines = self.lines@;
        let ghost old_spec = self.spec@;
        let mut o = other;
        let ghost other_lines = o.lines@;
        self.lines.append(&mut o.lines);
        self.spec = Ghost(self.spec@ + o.spec@);
        assert forall|i: int| 0 <= i < self.lines@.len() implies line_of(
            #[trigger] self.lines@[i]@,
            self.spec@[i],
        ) by {
            if i < old_lines.len() {
                assert(self.lines@[i] == old_lines[i]);
            } else {
                assert(self.lines@[i] == other_lines[i - old_lines.len()]);
            }
        }
    }
}

// ---------------------------------------------------------------------------
// Shared lines.
// ---------------------------------------------------------------------------

/// The light rule under section headers: 64 box-drawing characters.
pub const LIGHT_RULE: &'static str = "────────────────────────────────────────────────────────────────";

/// The heavy rule under the report header: 64 box-drawing characters.
pub const HEAVY_RULE: &'static str = "════════════════════════════════════════════════════════════════";

/// A sub-heading inside a section: an indented dimmed arrow and a title.
pub open spec fn sub_heading(title: Seq<char>) -> Seq<Piece> {
    seq![plain("   "@), styled("▸"@, Style::Dimmed), plain(title)]
}

fn sub_heading_line(title: &str) -> (l: Line)
    ensures
        l.wf(),
        l.pieces@ == sub_heading(title@),
{
    let mut l = Line::new();
    l.plain("   ");
    l.styled("▸", Style::Dimmed);
    l.plain(title);
    assert(l.pieces@ =~= sub_heading(title@));
    l
}

fn rule_line(rule: &str) -> (l: Line)
    ensures
        l.wf(),
        l.pieces@ == seq![plain(rule@)],
{
    let mut l = Line::new();
    l.plain(rule);
    l
}

// ---------------------------------------------------------------------------
// Network activity.
// ---------------------------------------------------------------------------

/// The line of a network breakdown entry: its name, its requests and, when
/// it downloaded files, their number and size.
pub open spec fn network_entry_line(e: NetworkActivityEntryOutput) -> Seq<Piece> {
    let base = seq![
        plain("      "@),
        styled("•"@, Style::Dimmed),
        plain(" "@),
        plain(e.name@),
        plain(": "@),
        styled(int_text(e.network_request_count as int), Style::Cyan),
        plain(" reqs"@),
    ];
    if e.file_download_count > 0 {
        base.push(plain(", "@)).push(plain(int_text(e.file_download_count as int))).push(
            plain(" files ("@),
        ).push(plain(bytes_text(e.file_download_size_bytes))).push(plain(")"@))
    } else {
        base
    }
}

/// The lines of network breakdown entries, one per entry.
pub open spec fn network_entries_doc(entries: Seq<NetworkActivityEntryOutput>) -> Seq<Seq<Piece>>
    decreases entries.len(),
{
    if entries.len() == 0 {
        Seq::empty()
    } else {
        network_entries_doc(entries.drop_last()).push(network_entry_line(entries.last()))
    }
}

/// The repositories shown: all of them in verbose mode, else the five busiest.
pub open spec fn shown_repositories(repos: Seq<NetworkActivityEntryOutput>, verbose: bool) -> Seq<
    NetworkActivityEntryOutput,
> {
    if verbose || repos.len() <= 5 {
        repos
    } else {
        repos.take(5)
    }
}

/// The network activity section.
pub open spec fn network_activity_doc(a: NetworkActivityOutput, verbose: bool) -> Seq<Seq<Piece>> {
    let head = seq![
        seq![
            styled("🌐"@, Style::Dimmed),
            plain(" Network Activity ("@),
            plain(int_text(a.network_request_count as int)),
            plain(" requests, "@),
            plain(bytes_text(a.file_download_size_bytes)),
            plain(")"@),
        ],
        seq![plain(LIGHT_RULE@)],
        seq![plain("   Requests:     "@), plain(int_text(a.network_request_count as int))],
        seq![
            plain("   Downloads:    "@),
            plain(int_text(a.file_download_count as int)),
            plain(" files, "@),
            plain(bytes_text(a.file_download_size_bytes)),
        ],
        seq![
            plain("   Time:         "@),
            plain(duration_text(a.wall_clock_network_request_time_ms)),
            plain(" wall-clock, "@),
            plain(duration_text(a.serial_network_request_time_ms)),
            plain(" serial"@),
        ],
    ];
    let with_methods = if a.methods@.len() > 0 {
        head.push(Seq::empty()).push(sub_heading(" By method:"@)) + network_entries_doc(a.methods@)
    } else {
        head
    };
    let repos = a.repositories@;
    if repos.len() > 0 {
        let listed = with_methods.push(Seq::empty()).push(sub_heading(" By repository:"@))
            + network_entries_doc(shown_repositories(repos, verbose));
        if !verbose && repos.len() > 5 {
            listed.push(
                seq![
                    plain("   "@),
                    styled(
                        "["@ + int_text(repos.len() - 5) + " more repositories — use --verbose to see all]"@,
                        Style::Dimmed,
                    ),
                ],
            )
        } else {
            listed
        }
    } else {
        with_methods
    }
}

fn format_network_entry(entry: &NetworkActivityEntryOutput) -> (l: Line)
    ensures
        l.wf(),
        l.pieces@ == network_entry_line(*entry),
{
    let mut l = Line::new();
    l.plain("      ");
    l.styled("•", Style::Dimmed);
    l.plain(" ");
    l.plain(entry.name.as_str());
    l.plain(": ");
    let requests = i64_text(entry.network_request_count);
    l.styled(requests.as_str(), Style::Cyan);
    l.plain(" reqs");
    if entry.file_download_count > 0 {
        l.plain(", ");
        let files = i64_text(entry.file_download_count);
        l.plain(files.as_str());
        l.plain(" files (");
        let size = format_bytes(entry.file_download_size_bytes);
        l.plain(size.as_str());
        l.plain(")");
    }
    assert(l.pieces@ =~= network_entry_line(*entry));
    l
}

fn format_network_entries(entries: &Vec<NetworkActivityEntryOutput>, count: usize) -> (d: Doc)
    requires
        count <= entries@.len(),
    ensures
        d.wf(),
        d.spec@ == network_entries_doc(entries@.take(count as int)),
{
    let mut d = Doc::new();
    let mut i: usize = 0;
    proof {
        assert(entries@.take(0) =~= Seq::<NetworkActivityEntryOutput>::empty());
    }
    while i < count
        invariant
            count <= entries@.len(),
            i <= count,
            d.wf(),
            d.spec@ == network_entries_doc(entries@.take(i as int)),
        decreases count - i,
    {
        proof {
            assert(entries@.take(i + 1).drop_last() =~= entries@.take(i as int));
        }
        d.push(format_network_entry(&entries[i]));
        i = i + 1;
    }
    d
}

fn format_network_activity(activity: &NetworkActivityOutput, verbose: bool) -> (d: Doc)
    ensures
        d.wf(),
        d.spec@ == network_activity_doc(*activity, verbose),
{
    let mut d = Doc::new();
    let ghost a = *activity;
    let requests = i64_text(activity.network_request_count);
    let size = format_bytes(activity.file_download_size_bytes);
    let mut l = Line::new();
    l.styled("🌐", Style::Dimmed);
    l.plain(" Network Activity (");
    l.plain(requests.as_str());
    l.plain(" requests, ");
    l.plain(size.as_str());
    l.plain(")");
    d.push(l);
    d.push(rule_line(LIGHT_RULE));
    let mut l = Line::new();
    l.plain("   Requests:     ");
    l.plain(requests.as_str());
    d.push(l);
    let files = i64_text(activity.file_download_count);
    let mut l = Line::new();
    l.plain("   Downloads:    ");
    l.plain(files.as_str());
    l.plain(" files, ");
    l.plain(size.as_str());
    d.push(l);
    let wall = format_duration(activity.wall_clock_network_request_time_ms);
    let serial = format_duration(activity.serial_network_request_time_ms);
    let mut l = Line::new();
    l.plain("   Time:         ");
    l.plain(wall.as_str());
    l.plain(" wall-clock, ");
    l.plain(serial.as_str());
    l.plain(" serial");
    d.push(l);
    let ghost head = d.spec@;
    assert(head =~~= seq![
        seq![
            styled("🌐"@, Style::Dimmed),
            plain(" Network Activity ("@),
            plain(int_text(a.network_request_count as int)),
            plain(" requests, "@),
            plain(bytes_text(a.file_download_size_bytes)),
            plain(")"@),
        ],
        seq![plain(LIGHT_RULE@)],
        seq![plain("   Requests:     "@), plain(int_text(a.network_request_count as int))],
        seq![
            plain("   Downloads:    "@),
            plain(int_text(a.file_download_count as int)),
            plain(" files, "@),
            plain(bytes_text(a.file_download_size_bytes)),
        ],
        seq![
            plain("   Time:         "@),
            plain(duration_text(a.wall_clock_network_request_time_ms)),
            plain(" wall-clock, "@),
            plain(duration_text(a.serial_network_request_time_ms)),
            plain(" serial"@),
        ],
    ]);
    if activity.methods.len() > 0 {
        d.blank();
        d.push(sub_heading_line(" By method:"));
        proof {
            assert(activity.methods@.take(activity.methods@.len() as int) =~= activity.methods@);
        }
        d.append(format_network_entries(&activity.methods, activity.methods.len()));
    }
    let n = activity.repositories.len();
    if n > 0 {
        d.blank();
        d.push(sub_heading_line(" By repository:"));
        let shown = if verbose || n <= 5 {
            n
        } else {
            5
        };
        proof {
            assert(activity.repositories@.take(shown as int) =~= shown_repositories(activity.repositories@, verbose));
        }
        d.append(format_network_entries(&activity.repositories, shown));
        if !verbose && n > 5 {
            let more = u64_text((n - 5) as u64);
            let note = concat3("[", more.as_str(), " more repositories — use --verbose to see all]");
            let mut l = Line::new();
            l.plain("   ");
            l.styled(note.as_str(), Style::Dimmed);
            assert(l.pieces@ =~= seq![
                plain("   "@),
                styled(
                    "["@ + int_text(a.repositories@.len() - 5) + " more repositories — use --verbose to see all]"@,
                    Style::Dimmed,
                ),
            ]);
            d.push(l);
        }
    }
    d
}

// ---------------------------------------------------------------------------
// Tasks.
// ---------------------------------------------------------------------------

/// How a task's avoidance outcome is shown: up-to-date and cached outcomes
/// green, executed ones yellow, outcomes without work dimmed, others plain.
pub open spec fn task_outcome_piece(outcome: Seq<char>) -> Piece {
    if outcome == "UP-TO-DATE"@ || starts_with_spec(outcome, "FROM-CACHE"@) {
        styled(outcome, Style::Green)
    } else if starts_with_spec(outcome, "EXECUTED"@) {
        styled(outcome, Style::Yellow)
    } else if outcome == "NO-SOURCE"@ || outcome == "LIFECYCLE"@ || outcome == "SKIPPED"@ {
        styled(outcome, Style::Dimmed)
    } else {
        plain(outcome)
    }
}

/// The first line of a task entry: outcome, path, duration and, for a
/// failed task, a failure mark.
pub open spec fn task_entry_line(t: TaskEntryOutput) -> Seq<Piece> {
    let line = seq![
        plain("      "@),
        task_outcome_piece(t.outcome@),
        plain(" "@),
        plain(t.task_path@),
        plain(" ["@),
        styled(duration_text(t.duration_ms), Style::Dimmed),
        plain("]"@),
    ];
    if t.has_failed {
        line.push(plain(" "@)).push(styled("FAILED"@, Style::RedBold))
    } else {
        line
    }
}

/// The lines of a task entry: its first line, then its type (the last
/// segment of the class name), why it is not cacheable, and the size of its
/// cache artifact, each when known.
pub open spec fn task_entry_doc(t: TaskEntryOutput) -> Seq<Seq<Piece>> {
    let d1 = seq![task_entry_line(t)];
    let d2 = match t.task_type {
        Some(tt) => d1.push(seq![plain("         Type: "@), styled(after_last(tt@, '.'), Style::Dimmed)]),
        None => d1,
    };
    let d3 = match t.non_cacheability_reason {
        Some(reason) => d2.push(seq![plain("         Not cacheable: "@), styled(reason@, Style::Dimmed)]),
        None => d2,
    };
    match t.cache_artifact_size {
        Some(size) => d3.push(seq![plain("         Cache artifact: "@), styled(bytes_text(size), Style::Dimmed)]),
        None => d3,
    }
}

fn push_task_outcome(l: &mut Line, outcome: &String)
    requires
        old(l).wf(),
    ensures
        final(l).wf(),
        final(l).pieces@ == old(l).pieces@.push(task_outcome_piece(outcome@)),
{
    let o = outcome.as_str();
    if same_text(outcome, "UP-TO-DATE") || starts_with(o, "FROM-CACHE") {
        l.styled(o, Style::Green);
    } else if starts_with(o, "EXECUTED") {
        l.styled(o, Style::Yellow);
    } else if same_text(outcome, "NO-SOURCE") || same_text(outcome, "LIFECYCLE") || same_text(
        outcome,
        "SKIPPED",
    ) {
        l.styled(o, Style::Dimmed);
    } else {
        l.plain(o);
    }
}

fn format_task_entry(task: &TaskEntryOutput) -> (d: Doc)
    ensures
        d.wf(),
        d.spec@ == task_entry_doc(*task),
{
    let ghost t = *task;
    let mut l = Line::new();
    l.plain("      ");
    push_task_outcome(&mut l, &task.outcome);
    l.plain(" ");
    l.plain(task.task_path.as_str());
    l.plain(" [");
    let duration = format_duration(task.duration_ms);
    l.styled(duration.as_str(), Style::Dimmed);
    l.plain("]");
    if task.has_failed {
        l.plain(" ");
        l.styled("FAILED", Style::RedBold);
    }
    assert(l.pieces@ =~= task_entry_line(t));
    let mut d = Doc::new();
    d.push(l);
    assert(d.spec@ =~= seq![task_entry_line(t)]);
    if let Some(task_type) = &task.task_type {
        let short_type = after_last_char(task_type.as_str(), '.');
        let mut l = Line::new();
        l.plain("         Type: ");
        l.styled(short_type.as_str(), Style::Dimmed);
        assert(l.pieces@ =~= seq![plain("         Type: "@), styled(after_last(task_type@, '.'), Style::Dimmed)]);
        d.push(l);
    }
    if let Some(reason) = &task.non_cacheability_reason {
        let mut l = Line::new();
        l.plain("         Not cacheable: ");
        l.styled(reason.as_str(), Style::Dimmed);
        assert(l.pieces@ =~= seq![plain("         Not cacheable: "@), styled(reason@, Style::Dimmed)]);
        d.push(l);
    }
    if let Some(size) = task.cache_artifact_size {
        let bytes = format_bytes(size);
        let mut l = Line::new();
        l.plain("         Cache artifact: ");
        l.styled(bytes.as_str(), Style::Dimmed);
        assert(l.pieces@ =~= seq![plain("         Cache artifact: "@), styled(bytes_text(size), Style::Dimmed)]);
        d.push(l);
    }
    d
}

// ---------------------------------------------------------------------------
// Test executions.
// ---------------------------------------------------------------------------

/// The name of a test: its class, and its method after ` > ` when known.
pub open spec fn test_name_text(class_name: Seq<char>, test_name: Option<String>) -> Seq<char> {
    match test_name {
        Some(n) => class_name + " > "@ + n@,
        None => class_name,
    }
}

fn test_name_string(class_name: &String, test_name: &Option<String>) -> (r: String)
    ensures
        r@ == test_name_text(class_name@, *test_name),
{
    match test_name {
        Some(n) => concat3(class_name.as_str(), " > ", n.as_str()),
        None => copy(class_name),
    }
}

/// How a test's name is shown: red when it failed, yellow when it was
/// flaky, plain otherwise.
pub open spec fn test_name_piece(t: TestExecutionOutput) -> Piece {
    let name = test_name_text(t.class_name@, t.test_name);
    if t.outcome@ == "failed"@ {
        styled(name, Style::Red)
    } else if t.outcome@ == "flaky"@ {
        styled(name, Style::Yellow)
    } else {
        plain(name)
    }
}

/// The lines of a listed test: its number, name and duration; the work unit
/// that ran it; and, when it ran more than once, how often.
pub open spec fn test_execution_doc(t: TestExecutionOutput, index: int) -> Seq<Seq<Piece>> {
    let d = seq![
        seq![
            plain("      "@),
            plain(int_text(index)),
            plain(". "@),
            test_name_piece(t),
            plain(" ("@),
            plain(duration_text(t.duration_ms)),
            plain(")"@),
        ],
        seq![plain("         "@), styled("Work unit: "@ + t.work_unit@, Style::Dimmed)],
    ];
    if t.execution_count > 1 {
        d.push(
            seq![
                plain("         "@),
                styled("Executions: "@ + decimal(t.execution_count as nat) + " (retried)"@, Style::Yellow),
            ],
        )
    } else {
        d
    }
}

fn format_test_execution(test: &TestExecutionOutput, index: usize) -> (d: Doc)
    ensures
        d.wf(),
        d.spec@ == test_execution_doc(*test, index as int),
{
    let ghost t = *test;
    let name = test_name_string(&test.class_name, &test.test_name);
    let number = u64_text(index as u64);
    let duration = format_duration(test.duration_ms);
    let mut l = Line::new();
    l.plain("      ");
    l.plain(number.as_str());
    l.plain(". ");
    if same_text(&test.outcome, "failed") {
        l.styled(name.as_str(), Style::Red);
    } else if same_text(&test.outcome, "flaky") {
        l.styled(name.as_str(), Style::Yellow);
    } else {
        l.plain(name.as_str());
    }
    l.plain(" (");
    l.plain(duration.as_str());
    l.plain(")");
    let mut d = Doc::new();
    d.push(l);
    let unit = concat2("Work unit: ", test.work_unit.as_str());
    let mut l = Line::new();
    l.plain("         ");
    l.styled(unit.as_str(), Style::Dimmed);
    d.push(l);
    if test.execution_count > 1 {
        let count = u64_text(test.execution_count as u64);
        let note = concat3("Executions: ", count.as_str(), " (retried)");
        let mut l = Line::new();
        l.plain("         ");
        l.styled(note.as_str(), Style::Yellow);
        d.push(l);
    }
    assert(d.spec@ =~~= test_execution_doc(t, index as int));
    d
}

// ---------------------------------------------------------------------------
// Task outcome breakdown.
// ---------------------------------------------------------------------------

/// Number of tasks with the given outcome.
pub open spec fn outcome_count(tasks: Seq<TaskEntryOutput>, outcome: Seq<char>) -> nat
    decreases tasks.len(),
{
    if tasks.len() == 0 {
        0
    } else {
        outcome_count(tasks.drop_last(), outcome) + if tasks.last().outcome@ == outcome {
            1nat
        } else {
            0nat
        }
    }
}

/// Whether the texts are in strictly ascending order.
pub open spec fn ascending(keys: Seq<Seq<char>>) -> bool {
    forall|i: int, j: int| 0 <= i < j < keys.len() ==> lex_lt(#[trigger] keys[i], #[trigger] keys[j])
}

/// Whether some task has the outcome.
pub open spec fn has_outcome(tasks: Seq<TaskEntryOutput>, outcome: Seq<char>) -> bool {
    exists|i: int| 0 <= i < tasks.len() && (#[trigger] tasks[i]).outcome@ == outcome
}

/// `keys` are the distinct outcomes of the tasks, in ascending order.
pub open spec fn is_outcome_keys(keys: Seq<Seq<char>>, tasks: Seq<TaskEntryOutput>) -> bool {
    &&& ascending(keys)
    &&& forall|x: Seq<char>| keys.contains(x) <==> has_outcome(tasks, x)
}

/// The distinct outcomes of the tasks, in ascending order.
pub open spec fn outcome_keys(tasks: Seq<TaskEntryOutput>) -> Seq<Seq<char>> {
    choose|keys: Seq<Seq<char>>| is_outcome_keys(keys, tasks)
}

proof fn lemma_count_push(s: Seq<TaskEntryOutput>, t: TaskEntryOutput, x: Seq<char>)
    ensures
        outcome_count(s.push(t), x) == outcome_count(s, x) + if t.outcome@ == x {
            1nat
        } else {
            0nat
        },
{
    assert(s.push(t).drop_last() =~= s);
}

proof fn lemma_count_bound(s: Seq<TaskEntryOutput>, x: Seq<char>)
    ensures
        outcome_count(s, x) <= s.len(),
    decreases s.len(),
{
    if s.len() > 0 {
        lemma_count_bound(s.drop_last(), x);
    }
}

proof fn lemma_count_absent(s: Seq<TaskEntryOutput>, x: Seq<char>)
    requires
        !has_outcome(s, x),
    ensures
        outcome_count(s, x) == 0,
    decreases s.len(),
{
    if s.len() > 0 {
        let t = s.drop_last();
        assert(!has_outcome(t, x)) by {
            if has_outcome(t, x) {
                let i = choose|i: int| 0 <= i < t.len() && (#[trigger] t[i]).outcome@ == x;
                assert(s[i] == t[i]);
            }
        }
        assert(s[s.len() - 1] == s.last());
        lemma_count_absent(t, x);
    }
}

/// Two ascending sequences with the same members are equal.
proof fn lemma_ascending_unique(a: Seq<Seq<char>>, b: Seq<Seq<char>>)
    requires
        ascending(a),
        ascending(b),
        forall|x: Seq<char>| a.contains(x) <==> b.contains(x),
    ensures
        a == b,
    decreases a.len(),
{
    if a.len() == 0 {
        if b.len() > 0 {
            assert(b.contains(b[0]));
        }
        assert(a =~= b);
    } else {
        assert(a.contains(a[0]));
        assert(b.len() > 0);
        assert(b.contains(b[0]));
        let j = choose|j: int| 0 <= j < b.len() && b[j] == a[0];
        let k = choose|k: int| 0 <= k < a.len() && a[k] == b[0];
        if j > 0 && k > 0 {
            assert(lex_lt(b[0], b[j]));
            assert(lex_lt(a[0], a[k]));
            lemma_lex_antisym(a[0], b[0]);
        } else if j > 0 {
            assert(lex_lt(b[0], b[j]));
        } else if k > 0 {
            assert(lex_lt(a[0], a[k]));
        }
        assert(a[0] == b[0]);
        let a1 = a.drop_first();
        let b1 = b.drop_first();
        assert forall|x: Seq<char>| a1.contains(x) <==> b1.contains(x) by {
            if a1.contains(x) {
                let i = choose|i: int| 0 <= i < a1.len() && a1[i] == x;
                assert(a[i + 1] == x);
                assert(lex_lt(a[0], a[i + 1]));
                assert(a.contains(x));
                let m = choose|m: int| 0 <= m < b.len() && b[m] == x;
                assert(m != 0);
                assert(b1[m - 1] == x);
            }
            if b1.contains(x) {
                let i = choose|i: int| 0 <= i < b1.len() && b1[i] == x;
                assert(b[i + 1] == x);
                assert(lex_lt(b[0], b[i + 1]));
                assert(b.contains(x));
                let m = choose|m: int| 0 <= m < a.len() && a[m] == x;
                assert(m != 0);
                assert(a1[m - 1] == x);
            }
        }
        assert forall|i: int, j: int| 0 <= i < j < a1.len() implies lex_lt(#[trigger] a1[i], #[trigger] a1[j]) by {
            assert(lex_lt(a[i + 1], a[j + 1]));
        }
        assert forall|i: int, j: int| 0 <= i < j < b1.len() implies lex_lt(#[trigger] b1[i], #[trigger] b1[j]) by {
            assert(lex_lt(b[i + 1], b[j + 1]));
        }
        lemma_ascending_unique(a1, b1);
        assert(a =~= seq![a[0]] + a1);
        assert(b =~= seq![b[0]] + b1);
    }
}

/// The counts of the given outcomes, added up.
pub open spec fn counts_total(keys: Seq<Seq<char>>, tasks: Seq<TaskEntryOutput>) -> nat
    decreases keys.len(),
{
    if keys.len() == 0 {
        0
    } else {
        counts_total(keys.drop_last(), tasks) + outcome_count(tasks, keys.last())
    }
}

/// How often `x` occurs in `keys`.
pub open spec fn occurrences(keys: Seq<Seq<char>>, x: Seq<char>) -> nat
    decreases keys.len(),
{
    if keys.len() == 0 {
        0
    } else {
        occurrences(keys.drop_last(), x) + if keys.last() == x {
            1nat
        } else {
            0nat
        }
    }
}

proof fn lemma_counts_total_push(keys: Seq<Seq<char>>, tasks: Seq<TaskEntryOutput>, t: TaskEntryOutput)
    ensures
        counts_total(keys, tasks.push(t)) == counts_total(keys, tasks) + occurrences(keys, t.outcome@),
    decreases keys.len(),
{
    if keys.len() > 0 {
        lemma_counts_total_push(keys.drop_last(), tasks, t);
        lemma_count_push(tasks, t, keys.last());
    }
}

proof fn lemma_counts_total_empty(keys: Seq<Seq<char>>, tasks: Seq<TaskEntryOutput>)
    requires
        tasks.len() == 0,
    ensures
        counts_total(keys, tasks) == 0,
    decreases keys.len(),
{
    if keys.len() > 0 {
        lemma_counts_total_empty(keys.drop_last(), tasks);
    }
}

proof fn lemma_occurs_once(keys: Seq<Seq<char>>, x: Seq<char>)
    requires
        keys.no_duplicates(),
        keys.contains(x),
    ensures
        occurrences(keys, x) == 1,
    decreases keys.len(),
{
    let init = keys.drop_last();
    assert(init.no_duplicates()) by {
        assert forall|i: int, j: int| 0 <= i < init.len() && 0 <= j < init.len() && i != j implies init[i]
            != init[j] by {
            assert(init[i] == keys[i] && init[j] == keys[j]);
        }
    }
    if keys.last() == x {
        assert(!init.contains(x)) by {
            if init.contains(x) {
                let i = choose|i: int| 0 <= i < init.len() && init[i] == x;
                assert(keys[i] == x && keys[keys.len() - 1] == x);
            }
        }
        lemma_occurs_never(init, x);
    } else {
        let i = choose|i: int| 0 <= i < keys.len() && keys[i] == x;
        assert(i < keys.len() - 1);
        assert(init[i] == x);
        lemma_occurs_once(init, x);
    }
}

proof fn lemma_occurs_never(keys: Seq<Seq<char>>, x: Seq<char>)
    requires
        !keys.contains(x),
    ensures
        occurrences(keys, x) == 0,
    decreases keys.len(),
{
    if keys.len() > 0 {
        let init = keys.drop_last();
        assert(!init.contains(x)) by {
            if init.contains(x) {
                let i = choose|i: int| 0 <= i < init.len() && init[i] == x;
                assert(keys[i] == x);
            }
        }
        assert(keys[keys.len() - 1] == keys.last());
        lemma_occurs_never(init, x);
    }
}

proof fn lemma_counts_total_all(keys: Seq<Seq<char>>, tasks: Seq<TaskEntryOutput>)
    requires
        keys.no_duplicates(),
        forall|i: int| 0 <= i < tasks.len() ==> keys.contains(#[trigger] tasks[i].outcome@),
    ensures
        counts_total(keys, tasks) == tasks.len(),
    decreases tasks.len(),
{
    if tasks.len() == 0 {
        lemma_counts_total_empty(keys, tasks);
    } else {
        let init = tasks.drop_last();
        let t = tasks.last();
        assert(tasks =~= init.push(t));
        assert forall|i: int| 0 <= i < init.len() implies keys.contains(#[trigger] init[i].outcome@) by {
            assert(init[i] == tasks[i]);
        }
        lemma_counts_total_all(keys, init);
        lemma_counts_total_push(keys, init, t);
        assert(keys.contains(tasks[tasks.len() - 1].outcome@));
        lemma_occurs_once(keys, t.outcome@);
    }
}

/// `keys` with `x` inserted in order.
spec fn insert_sorted(keys: Seq<Seq<char>>, x: Seq<char>) -> Seq<Seq<char>>
    decreases keys.len(),
{
    if keys.len() == 0 {
        seq![x]
    } else if lex_lt(keys.last(), x) {
        keys.push(x)
    } else {
        insert_sorted(keys.drop_last(), x).push(keys.last())
    }
}

proof fn lemma_insert_sorted(keys: Seq<Seq<char>>, x: Seq<char>)
    requires
        ascending(keys),
        !keys.contains(x),
    ensures
        ascending(insert_sorted(keys, x)),
        forall|y: Seq<char>| insert_sorted(keys, x).contains(y) <==> (keys.contains(y) || y == x),
    decreases keys.len(),
{
    let r = insert_sorted(keys, x);
    if keys.len() == 0 {
        assert(r =~= seq![x]);
        assert forall|y: Seq<char>| r.contains(y) <==> (keys.contains(y) || y == x) by {
            if r.contains(y) {
                assert(r[0] == y);
            }
            if y == x {
                assert(r[0] == x);
            }
        }
    } else {
        let init = keys.drop_last();
        let last = keys.last();
        assert(keys[keys.len() - 1] == last);
        assert(forall|j: int| 0 <= j < init.len() ==> init[j] == keys[j]);
        if lex_lt(last, x) {
            assert forall|i: int, j: int| 0 <= i < j < r.len() implies lex_lt(#[trigger] r[i], #[trigger] r[j]) by {
                if j == r.len() - 1 {
                    if i < keys.len() - 1 {
                        assert(lex_lt(keys[i], keys[keys.len() - 1]));
                        lemma_lex_lt_trans(keys[i], last, x);
                    }
                } else {
                    assert(r[i] == keys[i] && r[j] == keys[j]);
                }
            }
            assert forall|y: Seq<char>| r.contains(y) <==> (keys.contains(y) || y == x) by {
                if r.contains(y) {
                    let i = choose|i: int| 0 <= i < r.len() && r[i] == y;
                    if i < keys.len() {
                        assert(keys[i] == y);
                    }
                }
                if keys.contains(y) {
                    let i = choose|i: int| 0 <= i < keys.len() && keys[i] == y;
                    assert(r[i] == y);
                }
                if y == x {
                    assert(r[r.len() - 1] == x);
                }
            }
        } else {
            lemma_lex_total(last, x);
            assert(last != x);
            assert(lex_lt(x, last));
            assert(ascending(init)) by {
                assert forall|i: int, j: int| 0 <= i < j < init.len() implies lex_lt(
                    #[trigger] init[i],
                    #[trigger] init[j],
                ) by {
                    assert(lex_lt(keys[i], keys[j]));
                }
            }
            assert(!init.contains(x)) by {
                if init.contains(x) {
                    let i = choose|i: int| 0 <= i < init.len() && init[i] == x;
                    assert(keys[i] == x);
                }
            }
            lemma_insert_sorted(init, x);
            let q = insert_sorted(init, x);
            assert(r == q.push(last));
            assert forall|i: int| 0 <= i < q.len() implies lex_lt(#[trigger] q[i], last) by {
                assert(q.contains(q[i]));
                if q[i] != x {
                    assert(init.contains(q[i]));
                    let k = choose|k: int| 0 <= k < init.len() && init[k] == q[i];
                    assert(lex_lt(keys[k], keys[keys.len() - 1]));
                }
            }
            assert forall|i: int, j: int| 0 <= i < j < r.len() implies lex_lt(#[trigger] r[i], #[trigger] r[j]) by {
                if j == r.len() - 1 {
                    assert(r[i] == q[i]);
                } else {
                    assert(r[i] == q[i] && r[j] == q[j]);
                }
            }
            assert forall|y: Seq<char>| r.contains(y) <==> (keys.contains(y) || y == x) by {
                if r.contains(y) {
                    let i = choose|i: int| 0 <= i < r.len() && r[i] == y;
                    if i < q.len() {
                        assert(q[i] == y);
                        assert(q.contains(y));
                        assert(insert_sorted(init, x).contains(y));
                        if y != x {
                            assert(init.contains(y));
                            let k = choose|k: int| 0 <= k < init.len() && init[k] == y;
                            assert(keys[k] == y);
                        }
                    }
                }
                if keys.contains(y) {
                    let i = choose|i: int| 0 <= i < keys.len() && keys[i] == y;
                    if i == keys.len() - 1 {
                        assert(r[r.len() - 1] == y);
                    } else {
                        assert(init[i] == y);
                        assert(init.contains(y));
                        assert(insert_sorted(init, x).contains(y));
                        let k = choose|k: int| 0 <= k < q.len() && q[k] == y;
                        assert(r[k] == y);
                    }
                }
                if y == x {
                    assert(q.contains(x));
                    let k = choose|k: int| 0 <= k < q.len() && q[k] == x;
                    assert(r[k] == x);
                }
            }
        }
    }
}

/// Every list of tasks has its distinct outcomes in ascending order.
proof fn lemma_outcome_keys_exist(tasks: Seq<TaskEntryOutput>)
    ensures
        is_outcome_keys(outcome_keys(tasks), tasks),
    decreases tasks.len(),
{
    if tasks.len() == 0 {
        let keys = Seq::<Seq<char>>::empty();
        assert(is_outcome_keys(keys, tasks));
    } else {
        let init = tasks.drop_last();
        let o = tasks.last().outcome@;
        lemma_outcome_keys_exist(init);
        let ks = outcome_keys(init);
        assert forall|x: Seq<char>| has_outcome(tasks, x) <==> (has_outcome(init, x) || x == o) by {
            if has_outcome(tasks, x) {
                let j = choose|j: int| 0 <= j < tasks.len() && (#[trigger] tasks[j]).outcome@ == x;
                if j < init.len() {
                    assert(init[j] == tasks[j]);
                }
            }
            if has_outcome(init, x) {
                let j = choose|j: int| 0 <= j < init.len() && (#[trigger] init[j]).outcome@ == x;
                assert(tasks[j] == init[j]);
            }
            if x == o {
                assert(tasks[tasks.len() - 1] == tasks.last());
            }
        }
        if ks.contains(o) {
            assert(is_outcome_keys(ks, tasks));
        } else {
            lemma_insert_sorted(ks, o);
            assert(is_outcome_keys(insert_sorted(ks, o), tasks));
        }
    }
}

/// Every task is counted once in the breakdown: the counts of the distinct
/// outcomes, listed in ascending order, add up to the number of tasks.
pub proof fn lemma_breakdown_counts_every_task(tasks: Seq<TaskEntryOutput>)
    ensures
        counts_total(outcome_keys(tasks), tasks) == tasks.len(),
{
    lemma_outcome_keys_exist(tasks);
    let keys = outcome_keys(tasks);
    assert(keys.no_duplicates()) by {
        assert forall|i: int, j: int| 0 <= i < keys.len() && 0 <= j < keys.len() && i != j implies keys[i]
            != keys[j] by {
            if i < j {
                assert(lex_lt(keys[i], keys[j]));
            } else {
                assert(lex_lt(keys[j], keys[i]));
            }
        }
    }
    assert forall|i: int| 0 <= i < tasks.len() implies keys.contains(#[trigger] tasks[i].outcome@) by {
        assert(has_outcome(tasks, tasks[i].outcome@));
    }
    lemma_counts_total_all(keys, tasks);
}

/// The distinct outcomes of the tasks in ascending order, each with the
/// number of tasks that have it.
fn count_outcomes(tasks: &Vec<TaskEntryOutput>) -> (r: (Vec<String>, Vec<usize>))
    ensures
        is_outcome_keys(texts(r.0@), tasks@),
        r.1@.len() == r.0@.len(),
        forall|k: int| 0 <= k < r.0@.len() ==> #[trigger] r.1@[k] == outcome_count(tasks@, r.0@[k]@),
{
    let mut keys: Vec<String> = Vec::new();
    let mut counts: Vec<usize> = Vec::new();
    let mut i: usize = 0;
    proof {
        assert(texts(keys@) =~= Seq::<Seq<char>>::empty());
        assert forall|x: Seq<char>| texts(keys@).contains(x) <==> has_outcome(tasks@.take(0), x) by {
        }
    }
    while i < tasks.len()
        invariant
            i <= tasks@.len(),
            counts@.len() == keys@.len(),
            is_outcome_keys(texts(keys@), tasks@.take(i as int)),
            forall|k: int|
                0 <= k < keys@.len() ==> #[trigger] counts@[k] == outcome_count(tasks@.take(i as int), keys@[k]@),
        decreases tasks.len() - i,
    {
        let o = &tasks[i].outcome;
        let ghost before = tasks@.take(i as int);
        let ghost after = tasks@.take(i + 1);
        let ghost ks = texts(keys@);
        proof {
            assert(after =~= before.push(tasks@[i as int]));
            assert forall|x: Seq<char>| has_outcome(after, x) <==> (has_outcome(before, x) || x == o@) by {
                if has_outcome(after, x) {
                    let j = choose|j: int| 0 <= j < after.len() && (#[trigger] after[j]).outcome@ == x;
                    if j < i {
                        assert(before[j] == after[j]);
                    }
                }
                if has_outcome(before, x) {
                    let j = choose|j: int| 0 <= j < before.len() && (#[trigger] before[j]).outcome@ == x;
                    assert(after[j] == before[j]);
                }
                if x == o@ {
                    assert(after[i as int] == tasks@[i as int]);
                }
            }
        }
        let mut p: usize = 0;
        while p < keys.len() && lex_lt_exec(&keys[p], o)
            invariant
                p <= keys@.len(),
                ks == texts(keys@),
                forall|j: int| 0 <= j < p ==> lex_lt(#[trigger] ks[j], o@),
            decreases keys.len() - p,
        {
            p = p + 1;
        }
        if p < keys.len() && same_text(&keys[p], o.as_str()) {
            proof {
                lemma_count_bound(before, ks[p as int]);
            }
            let c = counts[p];
            counts.set(p, c + 1);
            proof {
                assert forall|k: int| 0 <= k < keys@.len() implies #[trigger] counts@[k] == outcome_count(
                    after,
                    keys@[k]@,
                ) by {
                    lemma_count_push(before, tasks@[i as int], keys@[k]@);
                    if k != p {
                        assert(ks[k] == keys@[k]@);
                        if k < p {
                            assert(lex_lt(ks[k], ks[p as int]));
                        } else {
                            assert(lex_lt(ks[p as int], ks[k]));
                        }
                    }
                }
                assert forall|x: Seq<char>| ks.contains(x) <==> has_outcome(after, x) by {
                    assert(ks[p as int] == o@);
                }
            }
        } else {
            proof {
                if p < keys@.len() {
                    lemma_lex_total(ks[p as int], o@);
                    assert(lex_lt(o@, ks[p as int]));
                }
                assert(!ks.contains(o@)) by {
                    if ks.contains(o@) {
                        let j = choose|j: int| 0 <= j < ks.len() && ks[j] == o@;
                        if j >= p {
                            if j > p {
                                assert(lex_lt(ks[p as int], ks[j]));
                                lemma_lex_lt_trans(o@, ks[p as int], ks[j]);
                            }
                        }
                    }
                }
                lemma_count_absent(before, o@);
            }
            keys.insert(p, o.clone());
            counts.insert(p, 1);
            proof {
                let nks = texts(keys@);
                assert(nks =~= ks.insert(p as int, o@));
                assert forall|a: int, b: int| 0 <= a < b < nks.len() implies lex_lt(
                    #[trigger] nks[a],
                    #[trigger] nks[b],
                ) by {
                    if b < p {
                        assert(nks[a] == ks[a] && nks[b] == ks[b]);
                    } else if b == p {
                        assert(nks[a] == ks[a]);
                    } else if a < p {
                        assert(nks[a] == ks[a] && nks[b] == ks[b - 1]);
                        if b - 1 > p {
                            assert(lex_lt(ks[p as int], ks[b - 1]));
                            lemma_lex_lt_trans(o@, ks[p as int], ks[b - 1]);
                        }
                        lemma_lex_lt_trans(ks[a], o@, ks[b - 1]);
                    } else if a == p {
                        assert(nks[b] == ks[b - 1]);
                        if b - 1 > p {
                            assert(lex_lt(ks[p as int], ks[b - 1]));
                            lemma_lex_lt_trans(o@, ks[p as int], ks[b - 1]);
                        }
                    } else {
                        assert(nks[a] == ks[a - 1] && nks[b] == ks[b - 1]);
                    }
                }
                assert forall|x: Seq<char>| nks.contains(x) <==> has_outcome(after, x) by {
                    if nks.contains(x) {
                        let j = choose|j: int| 0 <= j < nks.len() && nks[j] == x;
                        if j < p {
                            assert(ks[j] == x);
                        } else if j > p {
                            assert(ks[j - 1] == x);
                        }
                    }
                    if ks.contains(x) {
                        let j = choose|j: int| 0 <= j < ks.len() && ks[j] == x;
                        if j < p {
                            assert(nks[j] == x);
                        } else {
                            assert(nks[j + 1] == x);
                        }
                    }
                    if x == o@ {
                        assert(nks[p as int] == x);
                    }
                }
                assert forall|k: int| 0 <= k < keys@.len() implies #[trigger] counts@[k] == outcome_count(
                    after,
                    keys@[k]@,
                ) by {
                    lemma_count_push(before, tasks@[i as int], keys@[k]@);
                    assert(nks[k] == keys@[k]@);
                    if k < p {
                        assert(nks[k] == ks[k]);
                        assert(ks[k] != o@);
                    } else if k > p {
                        assert(nks[k] == ks[k - 1]);
                        assert(ks[k - 1] != o@);
                    }
                }
            }
        }
        i = i + 1;
    }
    proof {
        assert(tasks@.take(tasks@.len() as int) =~= tasks@);
    }
    (keys, counts)
}

/// How a breakdown outcome is shown: up-to-date and cached outcomes green,
/// executed ones yellow, the others dimmed.
pub open spec fn breakdown_outcome_piece(outcome: Seq<char>) -> Piece {
    if outcome == "UP-TO-DATE"@ || outcome == "FROM-CACHE (local)"@ || outcome == "FROM-CACHE (remote)"@ {
        styled(outcome, Style::Green)
    } else if starts_with_spec(outcome, "EXECUTED"@) {
        styled(outcome, Style::Yellow)
    } else {
        styled(outcome, Style::Dimmed)
    }
}

/// A breakdown line: the count right-aligned in four columns, then the outcome.
pub open spec fn breakdown_line(outcome: Seq<char>, count: nat) -> Seq<Piece> {
    seq![plain("      "@), plain(pad_left(decimal(count), 4)), plain("  "@), breakdown_outcome_piece(outcome)]
}

/// The breakdown lines of the given outcomes.
pub open spec fn breakdown_lines(keys: Seq<Seq<char>>, tasks: Seq<TaskEntryOutput>) -> Seq<Seq<Piece>>
    decreases keys.len(),
{
    if keys.len() == 0 {
        Seq::empty()
    } else {
        breakdown_lines(keys.drop_last(), tasks).push(
            breakdown_line(keys.last(), outcome_count(tasks, keys.last())),
        )
    }
}

/// The breakdown of the tasks by outcome: one line per distinct outcome, in
/// ascending order of the outcome text.
pub open spec fn breakdown_doc(tasks: Seq<TaskEntryOutput>) -> Seq<Seq<Piece>> {
    breakdown_lines(outcome_keys(tasks), tasks)
}

fn format_breakdown(tasks: &Vec<TaskEntryOutput>) -> (d: Doc)
    ensures
        d.wf(),
        d.spec@ == breakdown_doc(tasks@),
{
    let (keys, counts) = count_outcomes(tasks);
    proof {
        let ks = outcome_keys(tasks@);
        assert(is_outcome_keys(ks, tasks@));
        lemma_ascending_unique(texts(keys@), ks);
    }
    let mut d = Doc::new();
    let mut k: usize = 0;
    while k < keys.len()
        invariant
            k <= keys@.len(),
            counts@.len() == keys@.len(),
            forall|j: int| 0 <= j < keys@.len() ==> #[trigger] counts@[j] == outcome_count(tasks@, keys@[j]@),
            d.wf(),
            d.spec@ == breakdown_lines(texts(keys@).take(k as int), tasks@),
        decreases keys.len() - k,
    {
        let count = u64_text(counts[k] as u64);
        let padded = padded_left(count.as_str(), 4);
        let key = keys[k].as_str();
        let mut l = Line::new();
        l.plain("      ");
        l.plain(padded.as_str());
        l.plain("  ");
        if same_text(&keys[k], "UP-TO-DATE") || same_text(&keys[k], "FROM-CACHE (local)") || same_text(
            &keys[k],
            "FROM-CACHE (remote)",
        ) {
            l.styled(key, Style::Green);
        } else if starts_with(key, "EXECUTED") {
            l.styled(key, Style::Yellow);
        } else {
            l.styled(key, Style::Dimmed);
        }
        proof {
            assert(l.pieces@ =~= breakdown_line(keys@[k as int]@, outcome_count(tasks@, keys@[k as int]@)));
            let t = texts(keys@).take(k + 1);
            assert(t.drop_last() =~= texts(keys@).take(k as int));
        }
        d.push(l);
        k = k + 1;
    }
    proof {
        assert(texts(keys@).take(keys@.len() as int) =~= texts(keys@));
    }
    d
}

// ---------------------------------------------------------------------------
// Task execution.
// ---------------------------------------------------------------------------

/// How the task avoidance ratio ranks: at least half the work avoided, at
/// least a fifth, or less.
#[derive(Debug, Clone, Copy, PartialEq, Eq, Structural)]
pub enum AvoidanceRank {
    /// At least half of the task time was avoided.
    High,
    /// At least a fifth, but less than half.
    Medium,
    /// Less than a fifth.
    Low,
}

/// The floating-point figures of a report, rendered as text by the caller:
/// the test pass rate (the percentage with one decimal), the task avoidance
/// percentage (no decimals) and how it ranks, and the serialization factor
/// (one decimal).
#[derive(Debug)]
pub struct Figures {
    /// The test pass rate as a percentage, with one decimal (no `%`).
    pub pass_rate: String,
    /// The share of task time avoided as a percentage, without decimals (no `%`).
    pub avoidance_percent: String,
    /// How the avoidance ratio ranks.
    pub avoidance_rank: AvoidanceRank,
    /// The serialization factor, with one decimal.
    pub serialization_factor: String,
}

/// How the avoidance percentage is shown: green when high, yellow when
/// medium, plain when low.
pub open spec fn avoidance_piece(f: Figures) -> Piece {
    let t = f.avoidance_percent@ + "%"@;
    match f.avoidance_rank {
        AvoidanceRank::High => styled(t, Style::Green),
        AvoidanceRank::Medium => styled(t, Style::Yellow),
        AvoidanceRank::Low => plain(t),
    }
}

/// A line of avoidance savings of one kind.
pub open spec fn saving_line(label: Seq<char>, ms: i64) -> Seq<Piece> {
    seq![plain("     "@), styled("•"@, Style::Dimmed), plain(label), plain(duration_text(ms))]
}

/// The line of a failed task.
pub open spec fn failed_task_line(t: TaskEntryOutput) -> Seq<Piece> {
    seq![
        plain("      "@),
        styled("✗"@, Style::Red),
        plain(" "@),
        styled(t.task_path@, Style::Red),
        plain(" ("@),
        plain(duration_text(t.duration_ms)),
        plain(")"@),
    ]
}

/// The lines of the failed tasks, in order.
pub open spec fn failed_task_lines(tasks: Seq<TaskEntryOutput>) -> Seq<Seq<Piece>>
    decreases tasks.len(),
{
    if tasks.len() == 0 {
        Seq::empty()
    } else {
        let d = failed_task_lines(tasks.drop_last());
        if tasks.last().has_failed {
            d.push(failed_task_line(tasks.last()))
        } else {
            d
        }
    }
}

/// The lines of all task entries, in order.
pub open spec fn task_entries_doc(tasks: Seq<TaskEntryOutput>) -> Seq<Seq<Piece>>
    decreases tasks.len(),
{
    if tasks.len() == 0 {
        Seq::empty()
    } else {
        task_entries_doc(tasks.drop_last()) + task_entry_doc(tasks.last())
    }
}

/// The head of the task execution section: task count and avoidance,
/// timings, and what was avoided.
pub open spec fn task_execution_head(te: TaskExecutionOutput, f: Figures) -> Seq<Seq<Piece>> {
    let s = te.summary;
    seq![
        seq![
            styled("⚙️ "@, Style::Dimmed),
            plain(" Task Execution ("@),
            plain(decimal(s.total_tasks as nat)),
            plain(" tasks, "@),
            avoidance_piece(f),
            plain(" avoidance)"@),
        ],
        seq![plain(LIGHT_RULE@)],
        seq![plain("   Build time:       "@), plain(duration_text(s.build_time_ms))],
        seq![
            plain("   Task execution:   "@),
            plain(duration_text(s.effective_task_execution_time_ms)),
            plain(" (effective), "@),
            plain(duration_text(s.serial_task_execution_time_ms)),
            plain(" (serial)"@),
        ],
        seq![plain("   Parallelism:      "@), plain(f.serialization_factor@), plain("x serialization factor"@)],
        Seq::empty(),
        seq![
            plain("   Avoided:    "@),
            styled(decimal(s.avoided_tasks as nat), Style::Green),
            plain(" tasks  (saved "@),
            styled(duration_text(te.avoidance_savings.total_ms), Style::Green),
            plain(")"@),
        ],
    ]
}

/// The task execution section.
pub open spec fn task_execution_doc(te: TaskExecutionOutput, verbose: bool, f: Figures) -> Seq<Seq<Piece>> {
    let v = te.avoidance_savings;
    let d1 = task_execution_head(te, f);
    let d2 = if v.up_to_date_ms > 0 {
        d1.push(saving_line(" Up-to-date:   "@, v.up_to_date_ms))
    } else {
        d1
    };
    let d3 = if v.local_build_cache_ms > 0 {
        d2.push(saving_line(" Local cache:  "@, v.local_build_cache_ms))
    } else {
        d2
    };
    let d4 = if v.remote_build_cache_ms > 0 {
        d3.push(saving_line(" Remote cache: "@, v.remote_build_cache_ms))
    } else {
        d3
    };
    let d5 = d4.push(
        seq![
            plain("   Executed:   "@),
            styled(decimal(te.summary.executed_tasks as nat), Style::Yellow),
            plain(" tasks"@),
        ],
    );
    let failed = failed_task_lines(te.tasks@);
    let d6 = if failed.len() > 0 {
        d5.push(Seq::empty()).push(seq![plain("   "@), styled("✗"@, Style::Red), plain(" Failed Tasks:"@)])
            + failed
    } else {
        d5
    };
    if verbose {
        d6.push(Seq::empty()).push(sub_heading(" All Tasks:"@)) + task_entries_doc(te.tasks@)
    } else if te.tasks@.len() > 0 {
        (d6.push(Seq::empty()).push(sub_heading(" Breakdown:"@)) + breakdown_doc(te.tasks@)).push(
            Seq::empty(),
        ).push(seq![plain("   "@), styled("[Use --verbose for per-task details]"@, Style::Dimmed)])
    } else {
        d6
    }
}

/// The task execution section shows the summary's counts: the total number
/// of tasks in its heading, and the avoided and the executed tasks each on
/// their own line.
pub proof fn lemma_task_execution_counts(te: TaskExecutionOutput, verbose: bool, f: Figures)
    ensures
        task_execution_doc(te, verbose, f)[0][2] == plain(decimal(te.summary.total_tasks as nat)),
        task_execution_doc(te, verbose, f)[6][0] == plain("   Avoided:    "@),
        piece_text(task_execution_doc(te, verbose, f)[6][1]) == decimal(te.summary.avoided_tasks as nat),
        exists|k: int|
            0 <= k < task_execution_doc(te, verbose, f).len() && #[trigger] task_execution_doc(
                te,
                verbose,
                f,
            )[k] == seq![
                plain("   Executed:   "@),
                styled(decimal(te.summary.executed_tasks as nat), Style::Yellow),
                plain(" tasks"@),
            ],
{
    let v = te.avoidance_savings;
    let doc = task_execution_doc(te, verbose, f);
    let d1 = task_execution_head(te, f);
    let k: int = 7 + (if v.up_to_date_ms > 0 { 1int } else { 0 }) + (if v.local_build_cache_ms > 0 {
        1int
    } else {
        0
    }) + (if v.remote_build_cache_ms > 0 { 1int } else { 0 });
    assert(doc[0] == d1[0] && doc[6] == d1[6]);
    assert(doc[k] == seq![
        plain("   Executed:   "@),
        styled(decimal(te.summary.executed_tasks as nat), Style::Yellow),
        plain(" tasks"@),
    ]);
}

fn saving(label: &str, ms: i64) -> (l: Line)
    ensures
        l.wf(),
        l.pieces@ == saving_line(label@, ms),
{
    let duration = format_duration(ms);
    let mut l = Line::new();
    l.plain("     ");
    l.styled("•", Style::Dimmed);
    l.plain(label);
    l.plain(duration.as_str());
    assert(l.pieces@ =~= saving_line(label@, ms));
    l
}

fn format_task_execution(task_exec: &TaskExecutionOutput, verbose: bool, figures: &Figures) -> (d: Doc)
    ensures
        d.wf(),
        d.spec@ == task_execution_doc(*task_exec, verbose, *figures),
{
    let ghost te = *task_exec;
    let ghost f = *figures;
    let summary = &task_exec.summary;
    let savings = &task_exec.avoidance_savings;
    let mut d = Doc::new();
    let total = u64_text(summary.total_tasks as u64);
    let mut l = Line::new();
    l.styled("⚙️ ", Style::Dimmed);
    l.plain(" Task Execution (");
    l.plain(total.as_str());
    l.plain(" tasks, ");
    let ratio = concat2(figures.avoidance_percent.as_str(), "%");
    match figures.avoidance_rank {
        AvoidanceRank::High => l.styled(ratio.as_str(), Style::Green),
        AvoidanceRank::Medium => l.styled(ratio.as_str(), Style::Yellow),
        AvoidanceRank::Low => l.plain(ratio.as_str()),
    }
    l.plain(" avoidance)");
    d.push(l);
    d.push(rule_line(LIGHT_RULE));
    let build_time = format_duration(summary.build_time_ms);
    let mut l = Line::new();
    l.plain("   Build time:       ");
    l.plain(build_time.as_str());
    d.push(l);
    let effective = format_duration(summary.effective_task_execution_time_ms);
    let serial = format_duration(summary.serial_task_execution_time_ms);
    let mut l = Line::new();
    l.plain("   Task execution:   ");
    l.plain(effective.as_str());
    l.plain(" (effective), ");
    l.plain(serial.as_str());
    l.plain(" (serial)");
    d.push(l);
    let mut l = Line::new();
    l.plain("   Parallelism:      ");
    l.plain(figures.serialization_factor.as_str());
    l.plain("x serialization factor");
    d.push(l);
    d.blank();
    let avoided = u64_text(summary.avoided_tasks as u64);
    let saved = format_duration(savings.total_ms);
    let mut l = Line::new();
    l.plain("   Avoided:    ");
    l.styled(avoided.as_str(), Style::Green);
    l.plain(" tasks  (saved ");
    l.styled(saved.as_str(), Style::Green);
    l.plain(")");
    d.push(l);
    assert(d.spec@ =~~= task_execution_head(te, f));
    if savings.up_to_date_ms > 0 {
        d.push(saving(" Up-to-date:   ", savings.up_to_date_ms));
    }
    if savings.local_build_cache_ms > 0 {
        d.push(saving(" Local cache:  ", savings.local_build_cache_ms));
    }
    if savings.remote_build_cache_ms > 0 {
        d.push(saving(" Remote cache: ", savings.remote_build_cache_ms));
    }
    let executed = u64_text(summary.executed_tasks as u64);
    let mut l = Line::new();
    l.plain("   Executed:   ");
    l.styled(executed.as_str(), Style::Yellow);
    l.plain(" tasks");
    assert(l.pieces@ =~= seq![
        plain("   Executed:   "@),
        styled(decimal(te.summary.executed_tasks as nat), Style::Yellow),
        plain(" tasks"@),
    ]);
    d.push(l);
    let tasks = &task_exec.tasks;
    let mut failed = Doc::new();
    let mut i: usize = 0;
    while i < tasks.len()
        invariant
            i <= tasks@.len(),
            failed.wf(),
            failed.spec@ == failed_task_lines(tasks@.take(i as int)),
        decreases tasks.len() - i,
    {
        proof {
            assert(tasks@.take(i + 1).drop_last() =~= tasks@.take(i as int));
        }
        let t = &tasks[i];
        if t.has_failed {
            let duration = format_duration(t.duration_ms);
            let mut l = Line::new();
            l.plain("      ");
            l.styled("✗", Style::Red);
            l.plain(" ");
            l.styled(t.task_path.as_str(), Style::Red);
            l.plain(" (");
            l.plain(duration.as_str());
            l.plain(")");
            assert(l.pieces@ =~= failed_task_line(*t));
            failed.push(l);
        }
        i = i + 1;
    }
    proof {
        assert(tasks@.take(tasks@.len() as int) =~= tasks@);
    }
    if failed.lines.len() > 0 {
        d.blank();
        let mut l = Line::new();
        l.plain("   ");
        l.styled("✗", Style::Red);
        l.plain(" Failed Tasks:");
        assert(l.pieces@ =~= seq![plain("   "@), styled("✗"@, Style::Red), plain(" Failed Tasks:"@)]);
        d.push(l);
        d.append(failed);
    }
    if verbose {
        d.blank();
        d.push(sub_heading_line(" All Tasks:"));
        let mut entries = Doc::new();
        let mut i: usize = 0;
        while i < tasks.len()
            invariant
                i <= tasks@.len(),
                entries.wf(),
                entries.spec@ == task_entries_doc(tasks@.take(i as int)),
            decreases tasks.len() - i,
        {
            proof {
                assert(tasks@.take(i + 1).drop_last() =~= tasks@.take(i as int));
            }
            entries.append(format_task_entry(&tasks[i]));
            i = i + 1;
        }
        proof {
            assert(tasks@.take(tasks@.len() as int) =~= tasks@);
        }
        d.append(entries);
    } else if tasks.len() > 0 {
        d.blank();
        d.push(sub_heading_line(" Breakdown:"));
        d.append(format_breakdown(tasks));
        d.blank();
        let mut l = Line::new();
        l.plain("   ");
        l.styled("[Use --verbose for per-task details]", Style::Dimmed);
        assert(l.pieces@ =~= seq![plain("   "@), styled("[Use --verbose for per-task details]"@, Style::Dimmed)]);
        d.push(l);
    }
    d
}

// ---------------------------------------------------------------------------
// Tests.
// ---------------------------------------------------------------------------

/// The tests with the given outcome, in order.
pub open spec fn with_outcome(tests: Seq<TestExecutionOutput>, outcome: Seq<char>) -> Seq<TestExecutionOutput>
    decreases tests.len(),
{
    if tests.len() == 0 {
        Seq::empty()
    } else {
        let r = with_outcome(tests.drop_last(), outcome);
        if tests.last().outcome@ == outcome {
            r.push(tests.last())
        } else {
            r
        }
    }
}

/// The lines of listed tests, numbered from 1.
pub open spec fn executions_doc(tests: Seq<TestExecutionOutput>) -> Seq<Seq<Piece>>
    decreases tests.len(),
{
    if tests.len() == 0 {
        Seq::empty()
    } else {
        executions_doc(tests.drop_last()) + test_execution_doc(tests.last(), tests.len() as int)
    }
}

/// The line of a skipped test.
pub open spec fn skipped_line(t: TestExecutionOutput) -> Seq<Piece> {
    seq![
        plain("      "@),
        styled("•"@, Style::Dimmed),
        plain(" "@),
        styled(test_name_text(t.class_name@, t.test_name), Style::Dimmed),
    ]
}

/// The line of a passed test.
pub open spec fn passed_line(t: TestExecutionOutput) -> Seq<Piece> {
    seq![
        plain("      "@),
        styled("✓"@, Style::Green),
        plain(" "@),
        plain(test_name_text(t.class_name@, t.test_name)),
        plain(" ("@),
        styled(duration_text(t.duration_ms), Style::Dimmed),
        plain(")"@),
    ]
}

/// One line per test, made by `line`.
pub open spec fn lines_for(tests: Seq<TestExecutionOutput>, passed: bool) -> Seq<Seq<Piece>>
    decreases tests.len(),
{
    if tests.len() == 0 {
        Seq::empty()
    } else {
        lines_for(tests.drop_last(), passed).push(
            if passed {
                passed_line(tests.last())
            } else {
                skipped_line(tests.last())
            },
        )
    }
}

/// At most the first twenty of a sequence.
pub open spec fn first_twenty<T>(s: Seq<T>) -> Seq<T> {
    if s.len() <= 20 {
        s
    } else {
        s.take(20)
    }
}

/// The heading of the tests section: a status mark, then the counts of
/// passed, failed and skipped tests, and of flaky and not-selected tests when
/// there are any.
pub open spec fn tests_heading(s: TestSummaryOutput) -> Seq<Piece> {
    let mark = if s.failed > 0 {
        plain("❌"@)
    } else {
        styled("✓"@, Style::Green)
    };
    let failed = if s.failed > 0 {
        styled(int_text(s.failed as int), Style::Red)
    } else {
        styled("0"@, Style::Dimmed)
    };
    let p1 = seq![
        mark,
        plain(" Tests ("@),
        styled(int_text(s.passed as int), Style::Green),
        plain(" passed"@),
        plain(", "@),
        failed,
        plain(" failed"@),
        plain(", "@),
        styled(int_text(s.skipped as int), Style::Yellow),
        plain(" skipped"@),
    ];
    let p2 = if s.flaky > 0 {
        p1.push(plain(", "@)).push(styled(int_text(s.flaky as int), Style::Yellow)).push(plain(" flaky"@))
    } else {
        p1
    };
    let p3 = if s.not_selected > 0 {
        p2.push(plain(", "@)).push(styled(int_text(s.not_selected as int), Style::Dimmed)).push(
            plain(" not selected"@),
        )
    } else {
        p2
    };
    p3.push(plain(")"@))
}

/// The text of a piece, whatever its style.
pub open spec fn piece_text(p: Piece) -> Seq<char> {
    match p {
        Piece::Text(t, _) => t,
        Piece::Marked(mark, _, rest, _) => mark + rest,
    }
}

/// `count` is shown just before the label `label` among the pieces.
pub open spec fn shows_count(pieces: Seq<Piece>, count: int, label: Seq<char>) -> bool {
    exists|k: int|
        0 <= k && k + 1 < pieces.len() && piece_text(#[trigger] pieces[k]) == int_text(count) && pieces[k
            + 1] == plain(label)
}

/// The tests heading shows each count of the summary before its own label:
/// passed, failed and skipped always (a negative failed count is shown as
/// 0), flaky and not selected when there are any.
pub proof fn lemma_tests_heading_counts(s: TestSummaryOutput)
    ensures
        shows_count(tests_heading(s), s.passed as int, " passed"@),
        s.failed >= 0 ==> shows_count(tests_heading(s), s.failed as int, " failed"@),
        shows_count(tests_heading(s), s.skipped as int, " skipped"@),
        s.flaky > 0 ==> shows_count(tests_heading(s), s.flaky as int, " flaky"@),
        s.not_selected > 0 ==> shows_count(tests_heading(s), s.not_selected as int, " not selected"@),
{
    reveal_strlit("0");
    let h = tests_heading(s);
    assert(int_text(0) =~= "0"@);
    assert(piece_text(h[2]) == int_text(s.passed as int) && h[3] == plain(" passed"@));
    if s.failed >= 0 {
        assert(piece_text(h[5]) == int_text(s.failed as int) && h[6] == plain(" failed"@));
    }
    assert(piece_text(h[8]) == int_text(s.skipped as int) && h[9] == plain(" skipped"@));
    if s.flaky > 0 {
        assert(piece_text(h[11]) == int_text(s.flaky as int) && h[12] == plain(" flaky"@));
    }
    if s.not_selected > 0 {
        let k: int = if s.flaky > 0 { 14 } else { 11 };
        assert(piece_text(h[k]) == int_text(s.not_selected as int) && h[k + 1] == plain(" not selected"@));
    }
}

/// A heading of a list of tests: an indented mark and a title.
pub open spec fn list_heading(mark: Seq<char>, style: Style, title: Seq<char>) -> Seq<Piece> {
    seq![plain("   "@), styled(mark, style), plain(title)]
}

/// The tests section: the summary, then the failed and flaky tests; in
/// verbose mode also the skipped tests and the first twenty passed tests.
pub open spec fn tests_doc(t: TestsOutput, verbose: bool, f: Figures) -> Seq<Seq<Piece>> {
    let s = t.summary;
    let d1 = seq![
        tests_heading(s),
        seq![
            plain("   Total: "@),
            plain(int_text(s.total as int)),
            plain(" tests in "@),
            plain(duration_text(s.duration_ms)),
        ],
        seq![plain("   Pass rate: "@), plain(f.pass_rate@), plain("%"@)],
        seq![plain(LIGHT_RULE@)],
    ];
    let failed = with_outcome(t.tests@, "failed"@);
    let d2 = if failed.len() > 0 {
        d1.push(Seq::empty()).push(list_heading("✗"@, Style::Red, " Failed Tests:"@)) + executions_doc(failed)
    } else {
        d1
    };
    let flaky = with_outcome(t.tests@, "flaky"@);
    let d3 = if flaky.len() > 0 {
        d2.push(Seq::empty()).push(list_heading("⚠"@, Style::Yellow, " Flaky Tests:"@)) + executions_doc(flaky)
    } else {
        d2
    };
    let skipped = with_outcome(t.tests@, "skipped"@);
    let d4 = if skipped.len() > 0 && verbose {
        d3.push(Seq::empty()).push(list_heading("⊘"@, Style::Yellow, " Skipped Tests:"@)) + lines_for(
            skipped,
            false,
        )
    } else {
        d3
    };
    let passed = with_outcome(t.tests@, "passed"@);
    if verbose && passed.len() > 0 {
        let d5 = d4.push(Seq::empty()).push(
            seq![
                plain("   "@),
                styled("✓"@, Style::Green),
                plain(" Passed Tests ("@),
                plain(decimal(passed.len())),
                plain("):"@),
            ],
        ) + lines_for(first_twenty(passed), true);
        if passed.len() > 20 {
            d5.push(seq![plain("      ... and "@), plain(decimal((passed.len() - 20) as nat)), plain(" more"@)])
        } else {
            d5
        }
    } else {
        d4
    }
}

proof fn lemma_with_outcome_step(tests: Seq<TestExecutionOutput>, i: int, outcome: Seq<char>)
    requires
        0 <= i < tests.len(),
    ensures
        with_outcome(tests.take(i + 1), outcome) == if tests[i].outcome@ == outcome {
            with_outcome(tests.take(i), outcome).push(tests[i])
        } else {
            with_outcome(tests.take(i), outcome)
        },
        with_outcome(tests.take(i), outcome).len() <= i,
    decreases i,
{
    assert(tests.take(i + 1).drop_last() =~= tests.take(i));
    if i > 0 {
        lemma_with_outcome_step(tests, i - 1, outcome);
    }
}

/// The numbered lines of the tests with the given outcome, and how many there are.
fn format_executions(tests: &Vec<TestExecutionOutput>, outcome: &str) -> (r: (Doc, usize))
    ensures
        r.0.wf(),
        r.0.spec@ == executions_doc(with_outcome(tests@, outcome@)),
        r.1 == with_outcome(tests@, outcome@).len(),
{
    let mut d = Doc::new();
    let mut count: usize = 0;
    let mut i: usize = 0;
    while i < tests.len()
        invariant
            i <= tests@.len(),
            d.wf(),
            d.spec@ == executions_doc(with_outcome(tests@.take(i as int), outcome@)),
            count == with_outcome(tests@.take(i as int), outcome@).len(),
        decreases tests.len() - i,
    {
        proof {
            lemma_with_outcome_step(tests@, i as int, outcome@);
        }
        let t = &tests[i];
        if same_text(&t.outcome, outcome) {
            proof {
                let w = with_outcome(tests@.take(i + 1), outcome@);
                assert(w.drop_last() =~= with_outcome(tests@.take(i as int), outcome@));
            }
            d.append(format_test_execution(t, count + 1));
            count = count + 1;
        }
        i = i + 1;
    }
    proof {
        assert(tests@.take(tests@.len() as int) =~= tests@);
    }
    (d, count)
}

/// One line per test with the given outcome (at most `limit` of them), and
/// how many tests have the outcome.
fn format_test_lines(tests: &Vec<TestExecutionOutput>, outcome: &str, passed: bool, limit: usize) -> (r: (
    Doc,
    usize,
))
    requires
        limit == 20 || limit == usize::MAX,
    ensures
        r.0.wf(),
        limit == 20 ==> r.0.spec@ == lines_for(first_twenty(with_outcome(tests@, outcome@)), passed),
        limit == usize::MAX ==> r.0.spec@ == lines_for(with_outcome(tests@, outcome@), passed),
        r.1 == with_outcome(tests@, outcome@).len(),
{
    let mut d = Doc::new();
    let mut count: usize = 0;
    let mut i: usize = 0;
    while i < tests.len()
        invariant
            i <= tests@.len(),
            limit == 20 || limit == usize::MAX,
            d.wf(),
            count == with_outcome(tests@.take(i as int), outcome@).len(),
            limit == 20 ==> d.spec@ == lines_for(first_twenty(with_outcome(tests@.take(i as int), outcome@)), passed),
            limit == usize::MAX ==> d.spec@ == lines_for(with_outcome(tests@.take(i as int), outcome@), passed),
        decreases tests.len() - i,
    {
        proof {
            lemma_with_outcome_step(tests@, i as int, outcome@);
        }
        let t = &tests[i];
        if same_text(&t.outcome, outcome) {
            let ghost w0 = with_outcome(tests@.take(i as int), outcome@);
            let ghost w1 = with_outcome(tests@.take(i + 1), outcome@);
            if count < limit {
                let name = test_name_string(&t.class_name, &t.test_name);
                let mut l = Line::new();
                if passed {
                    let duration = format_duration(t.duration_ms);
                    l.plain("      ");
                    l.styled("✓", Style::Green);
                    l.plain(" ");
                    l.plain(name.as_str());
                    l.plain(" (");
                    l.styled(duration.as_str(), Style::Dimmed);
                    l.plain(")");
                    assert(l.pieces@ =~= passed_line(*t));
                } else {
                    l.plain("      ");
                    l.styled("•", Style::Dimmed);
                    l.plain(" ");
                    l.styled(name.as_str(), Style::Dimmed);
                    assert(l.pieces@ =~= skipped_line(*t));
                }
                proof {
                    if limit == 20 {
                        assert(first_twenty(w1) =~= first_twenty(w0).push(*t));
                        assert(first_twenty(w1).drop_last() =~= first_twenty(w0));
                    } else {
                        assert(w1.drop_last() =~= w0);
                    }
                }
                d.push(l);
            } else {
                proof {
                    assert(first_twenty(w1) =~= first_twenty(w0));
                }
            }
            count = count + 1;
        }
        i = i + 1;
    }
    proof {
        assert(tests@.take(tests@.len() as int) =~= tests@);
    }
    (d, count)
}

fn list_heading_line(mark: &str, style: Style, title: &str) -> (l: Line)
    ensures
        l.wf(),
        l.pieces@ == list_heading(mark@, style, title@),
{
    let mut l = Line::new();
    l.plain("   ");
    l.styled(mark, style);
    l.plain(title);
    assert(l.pieces@ =~= list_heading(mark@, style, title@));
    l
}

fn format_tests(tests: &TestsOutput, verbose: bool, figures: &Figures) -> (d: Doc)
    ensures
        d.wf(),
        d.spec@ == tests_doc(*tests, verbose, *figures),
{
    let ghost t = *tests;
    let ghost f = *figures;
    let summary = &tests.summary;
    let mut l = Line::new();
    if summary.failed > 0 {
        l.plain("❌");
    } else {
        l.styled("✓", Style::Green);
    }
    l.plain(" Tests (");
    let passed_count = i64_text(summary.passed as i64);
    l.styled(passed_count.as_str(), Style::Green);
    l.plain(" passed");
    l.plain(", ");
    if summary.failed > 0 {
        let failed_count = i64_text(summary.failed as i64);
        l.styled(failed_count.as_str(), Style::Red);
    } else {
        l.styled("0", Style::Dimmed);
    }
    l.plain(" failed");
    l.plain(", ");
    let skipped_count = i64_text(summary.skipped as i64);
    l.styled(skipped_count.as_str(), Style::Yellow);
    l.plain(" skipped");
    if summary.flaky > 0 {
        l.plain(", ");
        let flaky_count = i64_text(summary.flaky as i64);
        l.styled(flaky_count.as_str(), Style::Yellow);
        l.plain(" flaky");
    }
    if summary.not_selected > 0 {
        l.plain(", ");
        let not_selected_count = i64_text(summary.not_selected as i64);
        l.styled(not_selected_count.as_str(), Style::Dimmed);
        l.plain(" not selected");
    }
    l.plain(")");
    assert(l.pieces@ =~= tests_heading(t.summary));
    let mut d = Doc::new();
    d.push(l);
    let total = i64_text(summary.total as i64);
    let duration = format_duration(summary.duration_ms);
    let mut l = Line::new();
    l.plain("   Total: ");
    l.plain(total.as_str());
    l.plain(" tests in ");
    l.plain(duration.as_str());
    d.push(l);
    let mut l = Line::new();
    l.plain("   Pass rate: ");
    l.plain(figures.pass_rate.as_str());
    l.plain("%");
    d.push(l);
    d.push(rule_line(LIGHT_RULE));
    assert(d.spec@ =~~= seq![
        tests_heading(t.summary),
        seq![
            plain("   Total: "@),
            plain(int_text(t.summary.total as int)),
            plain(" tests in "@),
            plain(duration_text(t.summary.duration_ms)),
        ],
        seq![plain("   Pass rate: "@), plain(f.pass_rate@), plain("%"@)],
        seq![plain(LIGHT_RULE@)],
    ]);
    let (failed, failed_count) = format_executions(&tests.tests, "failed");
    if failed_count > 0 {
        d.blank();
        d.push(list_heading_line("✗", Style::Red, " Failed Tests:"));
        d.append(failed);
    }
    let (flaky, flaky_count) = format_executions(&tests.tests, "flaky");
    if flaky_count > 0 {
        d.blank();
        d.push(list_heading_line("⚠", Style::Yellow, " Flaky Tests:"));
        d.append(flaky);
    }
    let (skipped, skipped_count) = format_test_lines(&tests.tests, "skipped", false, usize::MAX);
    if skipped_count > 0 && verbose {
        d.blank();
        d.push(list_heading_line("⊘", Style::Yellow, " Skipped Tests:"));
        d.append(skipped);
    }
    if verbose {
        let (passed, passed_total) = format_test_lines(&tests.tests, "passed", true, 20);
        if passed_total > 0 {
            d.blank();
            let count = u64_text(passed_total as u64);
            let mut l = Line::new();
            l.plain("   ");
            l.styled("✓", Style::Green);
            l.plain(" Passed Tests (");
            l.plain(count.as_str());
            l.plain("):");
            assert(l.pieces@ =~= seq![
                plain("   "@),
                styled("✓"@, Style::Green),
                plain(" Passed Tests ("@),
                plain(decimal(with_outcome(t.tests@, "passed"@).len())),
                plain("):"@),
            ]);
            d.push(l);
            d.append(passed);
            if passed_total > 20 {
                let more = u64_text((passed_total - 20) as u64);
                let mut l = Line::new();
                l.plain("      ... and ");
                l.plain(more.as_str());
                l.plain(" more");
                assert(l.pieces@ =~= seq![
                    plain("      ... and "@),
                    plain(decimal((with_outcome(t.tests@, "passed"@).len() - 20) as nat)),
                    plain(" more"@),
                ]);
                d.push(l);
            }
        }
    }
    d
}

// ---------------------------------------------------------------------------
// Failures.
// ---------------------------------------------------------------------------

/// Indented lines of text, dimmed or plain.
pub open spec fn indented_lines(ls: Seq<Seq<char>>, dim: bool) -> Seq<Seq<Piece>>
    decreases ls.len(),
{
    if ls.len() == 0 {
        Seq::empty()
    } else {
        indented_lines(ls.drop_last(), dim).push(
            if dim {
                seq![plain("      "@), styled(ls.last(), Style::Dimmed)]
            } else {
                seq![plain("      "@), plain(ls.last())]
            },
        )
    }
}

/// A stacktrace: a blank line, a title, the first `max` lines of the trace
/// dimmed, and how many lines were left out.
pub open spec fn stack_doc(stacktrace: Seq<char>, max: nat) -> Seq<Seq<Piece>> {
    let ls = lines_spec(stacktrace);
    let d = seq![Seq::empty(), seq![plain("      "@), styled("Stacktrace"@, Style::Dimmed), plain(":"@)]]
        + indented_lines(
        if ls.len() <= max {
            ls
        } else {
            ls.take(max as int)
        },
        true,
    );
    if ls.len() > max {
        d.push(
            seq![
                plain("      "@),
                styled(decimal((ls.len() - max) as nat), Style::Dimmed),
                plain(" more lines..."@),
            ],
        )
    } else {
        d
    }
}

/// A build failure: its number and header, its location, its message line
/// by line and, in verbose mode, its stacktrace (at most twenty lines).
pub open spec fn build_failure_doc(f: BuildFailureOutput, index: int, verbose: bool) -> Seq<Seq<Piece>> {
    let d1 = seq![seq![plain("   "@), plain(int_text(index)), plain(". "@), styled(f.header@, Style::RedBold)]];
    let d2 = match f.location {
        Some(loc) => d1.push(seq![plain("      Location: "@), styled(loc@, Style::Dimmed)]),
        None => d1,
    };
    let d3 = d2.push(Seq::empty()) + indented_lines(lines_spec(f.message@), false);
    if verbose && f.stacktrace is Some {
        d3 + stack_doc(f.stacktrace->0@, 20)
    } else {
        d3
    }
}

/// A test failure: its number and test name, the first line of its message
/// and, in verbose mode, the rest of the message and its stacktrace (at most
/// fifteen lines).
pub open spec fn test_failure_doc(f: TestFailureOutput, index: int, verbose: bool) -> Seq<Seq<Piece>> {
    let ls = lines_spec(f.message@);
    let first = if ls.len() > 0 {
        ls[0]
    } else {
        f.message@
    };
    let d1 = seq![
        seq![
            plain("   "@),
            plain(int_text(index)),
            plain(". "@),
            styled(test_name_text(f.class_name@, f.test_name), Style::Red),
        ],
        seq![plain("      "@), plain(first)],
    ];
    if verbose {
        let d2 = if ls.len() > 1 {
            d1 + indented_lines(ls.skip(1), false)
        } else {
            d1
        };
        match f.stacktrace {
            Some(st) => d2 + stack_doc(st@, 15),
            None => d2,
        }
    } else {
        d1
    }
}

/// The first `n` build failures, numbered, with a blank line between each two.
pub open spec fn build_failure_items(fs: Seq<BuildFailureOutput>, n: nat, verbose: bool) -> Seq<Seq<Piece>>
    decreases n,
{
    if n == 0 {
        Seq::empty()
    } else {
        let d = build_failure_items(fs, (n - 1) as nat, verbose) + build_failure_doc(fs[n - 1], n as int, verbose);
        if n < fs.len() {
            d.push(Seq::empty())
        } else {
            d
        }
    }
}

/// The first `n` test failures, numbered, with a blank line between each two.
pub open spec fn test_failure_items(fs: Seq<TestFailureOutput>, n: nat, verbose: bool) -> Seq<Seq<Piece>>
    decreases n,
{
    if n == 0 {
        Seq::empty()
    } else {
        let d = test_failure_items(fs, (n - 1) as nat, verbose) + test_failure_doc(fs[n - 1], n as int, verbose);
        if n < fs.len() {
            d.push(Seq::empty())
        } else {
            d
        }
    }
}

/// Whether some build failure has a stacktrace.
pub open spec fn any_build_stacktrace(fs: Seq<BuildFailureOutput>) -> bool {
    exists|i: int| 0 <= i < fs.len() && (#[trigger] fs[i]).stacktrace is Some
}

/// Whether some test failure has a stacktrace.
pub open spec fn any_test_stacktrace(fs: Seq<TestFailureOutput>) -> bool {
    exists|i: int| 0 <= i < fs.len() && (#[trigger] fs[i]).stacktrace is Some
}

/// The heading of a list of failures.
pub open spec fn failures_heading(title: Seq<char>, count: nat) -> Seq<Piece> {
    seq![styled("❌"@, Style::Red), plain(title), styled(decimal(count), Style::Red), plain(")"@)]
}

/// The hint that verbose mode shows stacktraces.
pub open spec fn stacktrace_hint() -> Seq<Piece> {
    seq![plain("   "@), styled("[Use --verbose for stacktraces]"@, Style::Dimmed)]
}

/// The failures section: the build failures, then the test failures, each
/// list with a hint about stacktraces when some were left out.
pub open spec fn failures_doc(f: FailuresOutput, verbose: bool) -> Seq<Seq<Piece>> {
    let bf = f.build_failures@;
    let d1 = if bf.len() > 0 {
        let h = seq![failures_heading(" Build Failures ("@, bf.len()), seq![plain(LIGHT_RULE@)]]
            + build_failure_items(bf, bf.len(), verbose);
        let h2 = if !verbose && any_build_stacktrace(bf) {
            h.push(Seq::empty()).push(stacktrace_hint())
        } else {
            h
        };
        h2.push(Seq::empty())
    } else {
        Seq::empty()
    };
    match f.test_failures {
        Some(tf) => if tf@.len() > 0 {
            let h = d1.push(failures_heading(" Test Failures ("@, tf@.len())).push(seq![plain(LIGHT_RULE@)])
                + test_failure_items(tf@, tf@.len(), verbose);
            if !verbose && any_test_stacktrace(tf@) {
                h.push(Seq::empty()).push(stacktrace_hint())
            } else {
                h
            }
        } else {
            d1
        },
        None => d1,
    }
}

/// Indented lines `ls[from..to]`, dimmed or plain.
fn format_indented(ls: &Vec<String>, from: usize, to: usize, dim: bool) -> (d: Doc)
    requires
        from <= to <= ls@.len(),
    ensures
        d.wf(),
        d.spec@ == indented_lines(texts(ls@).subrange(from as int, to as int), dim),
{
    let mut d = Doc::new();
    let mut i: usize = from;
    proof {
        assert(texts(ls@).subrange(from as int, from as int) =~= Seq::<Seq<char>>::empty());
    }
    while i < to
        invariant
            from <= i <= to,
            to <= ls@.len(),
            d.wf(),
            d.spec@ == indented_lines(texts(ls@).subrange(from as int, i as int), dim),
        decreases to - i,
    {
        proof {
            let t = texts(ls@).subrange(from as int, i + 1);
            assert(t.drop_last() =~= texts(ls@).subrange(from as int, i as int));
            assert(t.last() == ls@[i as int]@);
        }
        let mut l = Line::new();
        l.plain("      ");
        if dim {
            l.styled(ls[i].as_str(), Style::Dimmed);
        } else {
            l.plain(ls[i].as_str());
        }
        d.push(l);
        proof {
            let t = texts(ls@).subrange(from as int, i + 1);
            assert(d.spec@ =~~= indented_lines(t, dim));
        }
        i = i + 1;
    }
    d
}

fn format_stacktrace(stacktrace: &String, max: usize) -> (d: Doc)
    ensures
        d.wf(),
        d.spec@ == stack_doc(stacktrace@, max as nat),
{
    let ls = lines(stacktrace.as_str());
    let ghost all = lines_spec(stacktrace@);
    proof {
        assert(texts(ls@) =~= all);
    }
    let mut d = Doc::new();
    d.blank();
    let mut l = Line::new();
    l.plain("      ");
    l.styled("Stacktrace", Style::Dimmed);
    l.plain(":");
    d.push(l);
    let shown = if ls.len() <= max {
        ls.len()
    } else {
        max
    };
    proof {
        if all.len() <= max {
            assert(texts(ls@).subrange(0, shown as int) =~= all);
        } else {
            assert(texts(ls@).subrange(0, shown as int) =~= all.take(max as int));
        }
    }
    let body = format_indented(&ls, 0, shown, true);
    let ghost head = d.spec@;
    d.append(body);
    assert(head =~~= seq![Seq::empty(), seq![plain("      "@), styled("Stacktrace"@, Style::Dimmed), plain(":"@)]]);
    if ls.len() > max {
        let more = u64_text((ls.len() - max) as u64);
        let mut l = Line::new();
        l.plain("      ");
        l.styled(more.as_str(), Style::Dimmed);
        l.plain(" more lines...");
        assert(l.pieces@ =~= seq![
            plain("      "@),
            styled(decimal((all.len() - max) as nat), Style::Dimmed),
            plain(" more lines..."@),
        ]);
        d.push(l);
    }
    d
}

fn format_build_failure(failure: &BuildFailureOutput, index: usize, verbose: bool) -> (d: Doc)
    ensures
        d.wf(),
        d.spec@ == build_failure_doc(*failure, index as int, verbose),
{
    let ghost f = *failure;
    let number = u64_text(index as u64);
    let mut l = Line::new();
    l.plain("   ");
    l.plain(number.as_str());
    l.plain(". ");
    l.styled(failure.header.as_str(), Style::RedBold);
    let mut d = Doc::new();
    d.push(l);
    assert(d.spec@ =~~= seq![seq![plain("   "@), plain(int_text(index as int)), plain(". "@), styled(f.header@, Style::RedBold)]]);
    if let Some(location) = &failure.location {
        let mut l = Line::new();
        l.plain("      Location: ");
        l.styled(location.as_str(), Style::Dimmed);
        assert(l.pieces@ =~= seq![plain("      Location: "@), styled(location@, Style::Dimmed)]);
        d.push(l);
    }
    d.blank();
    let message = lines(failure.message.as_str());
    proof {
        assert(texts(message@).subrange(0, message@.len() as int) =~= lines_spec(f.message@));
    }
    d.append(format_indented(&message, 0, message.len(), false));
    if verbose {
        if let Some(stacktrace) = &failure.stacktrace {
            d.append(format_stacktrace(stacktrace, 20));
        }
    }
    d
}

fn format_test_failure(failure: &TestFailureOutput, index: usize, verbose: bool) -> (d: Doc)
    ensures
        d.wf(),
        d.spec@ == test_failure_doc(*failure, index as int, verbose),
{
    let ghost f = *failure;
    let name = test_name_string(&failure.class_name, &failure.test_name);
    let number = u64_text(index as u64);
    let mut l = Line::new();
    l.plain("   ");
    l.plain(number.as_str());
    l.plain(". ");
    l.styled(name.as_str(), Style::Red);
    let mut d = Doc::new();
    d.push(l);
    let message = lines(failure.message.as_str());
    let ghost ls = lines_spec(f.message@);
    proof {
        assert(texts(message@) =~= ls);
    }
    let mut l = Line::new();
    l.plain("      ");
    if message.len() > 0 {
        l.plain(message[0].as_str());
    } else {
        l.plain(failure.message.as_str());
    }
    d.push(l);
    let ghost first = if ls.len() > 0 {
        ls[0]
    } else {
        f.message@
    };
    assert(d.spec@ =~~= seq![
        seq![
            plain("   "@),
            plain(int_text(index as int)),
            plain(". "@),
            styled(test_name_text(f.class_name@, f.test_name), Style::Red),
        ],
        seq![plain("      "@), plain(first)],
    ]);
    if verbose {
        if message.len() > 1 {
            proof {
                assert(texts(message@).subrange(1, message@.len() as int) =~= ls.skip(1));
            }
            d.append(format_indented(&message, 1, message.len(), false));
        }
        if let Some(stacktrace) = &failure.stacktrace {
            d.append(format_stacktrace(stacktrace, 15));
        }
    }
    d
}

fn failures_heading_line(title: &str, count: usize) -> (l: Line)
    ensures
        l.wf(),
        l.pieces@ == failures_heading(title@, count as nat),
{
    let n = u64_text(count as u64);
    let mut l = Line::new();
    l.styled("❌", Style::Red);
    l.plain(title);
    l.styled(n.as_str(), Style::Red);
    l.plain(")");
    assert(l.pieces@ =~= failures_heading(title@, count as nat));
    l
}

fn stacktrace_hint_line() -> (l: Line)
    ensures
        l.wf(),
        l.pieces@ == stacktrace_hint(),
{
    let mut l = Line::new();
    l.plain("   ");
    l.styled("[Use --verbose for stacktraces]", Style::Dimmed);
    assert(l.pieces@ =~= stacktrace_hint());
    l
}

fn format_failures(failures: &FailuresOutput, verbose: bool) -> (d: Doc)
    ensures
        d.wf(),
        d.spec@ == failures_doc(*failures, verbose),
{
    let ghost f = *failures;
    let mut d = Doc::new();
    let bf = &failures.build_failures;
    let n = bf.len();
    if n > 0 {
        d.push(failures_heading_line(" Build Failures (", n));
        d.push(rule_line(LIGHT_RULE));
        assert(d.spec@ =~~= seq![failures_heading(" Build Failures ("@, bf@.len()), seq![plain(LIGHT_RULE@)]]);
        let mut items = Doc::new();
        let mut any_stacktrace = false;
        let mut i: usize = 0;
        while i < n
            invariant
                n == bf@.len(),
                i <= n,
                items.wf(),
                items.spec@ == build_failure_items(bf@, i as nat, verbose),
                any_stacktrace == exists|j: int| 0 <= j < i && (#[trigger] bf@[j]).stacktrace is Some,
            decreases n - i,
        {
            items.append(format_build_failure(&bf[i], i + 1, verbose));
            if i + 1 < n {
                items.blank();
            }
            if bf[i].stacktrace.is_some() {
                any_stacktrace = true;
            }
            i = i + 1;
        }
        d.append(items);
        if !verbose && any_stacktrace {
            d.blank();
            d.push(stacktrace_hint_line());
        }
        d.blank();
    }
    if let Some(tf) = &failures.test_failures {
        let m = tf.len();
        if m > 0 {
            let ghost before = d.spec@;
            d.push(failures_heading_line(" Test Failures (", m));
            d.push(rule_line(LIGHT_RULE));
            let mut items = Doc::new();
            let mut any_stacktrace = false;
            let mut i: usize = 0;
            while i < m
                invariant
                    m == tf@.len(),
                    i <= m,
                    items.wf(),
                    items.spec@ == test_failure_items(tf@, i as nat, verbose),
                    any_stacktrace == exists|j: int| 0 <= j < i && (#[trigger] tf@[j]).stacktrace is Some,
                decreases m - i,
            {
                items.append(format_test_failure(&tf[i], i + 1, verbose));
                if i + 1 < m {
                    items.blank();
                }
                if tf[i].stacktrace.is_some() {
                    any_stacktrace = true;
                }
                i = i + 1;
            }
            d.append(items);
            if !verbose && any_stacktrace {
                d.blank();
                d.push(stacktrace_hint_line());
            }
        }
    }
    d
}

// ---------------------------------------------------------------------------
// Deprecations.
// ---------------------------------------------------------------------------

/// The lines of a deprecation usage: its owner and location, and its
/// contextual advice when there is some.
pub open spec fn usage_doc(u: DeprecationUsageOutput) -> Seq<Seq<Piece>> {
    let location = match u.location {
        Some(l) => l@,
        None => "<unknown>"@,
    };
    let d = seq![
        seq![
            plain("        "@),
            styled("•"@, Style::Dimmed),
            plain(" "@),
            styled(u.owner_type@, Style::Dimmed),
            plain(": "@),
            plain(location),
        ],
    ];
    match u.contextual_advice {
        Some(a) => d.push(seq![plain("          "@), styled(a@, Style::Dimmed)]),
        None => d,
    }
}

/// The lines of the usages, in order.
pub open spec fn usages_doc(us: Seq<DeprecationUsageOutput>) -> Seq<Seq<Piece>>
    decreases us.len(),
{
    if us.len() == 0 {
        Seq::empty()
    } else {
        usages_doc(us.drop_last()) + usage_doc(us.last())
    }
}

/// A deprecation: its number and summary, when it is removed, the advice
/// and documentation when known, and its usages.
pub open spec fn deprecation_doc(dep: DeprecationOutput, index: int) -> Seq<Seq<Piece>> {
    let d1 = seq![
        seq![plain("   "@), plain(int_text(index)), plain(". "@), styled(dep.summary@, Style::Yellow)],
        seq![plain("      Removal:  "@), styled(dep.removal_details@, Style::Dimmed)],
    ];
    let d2 = match dep.advice {
        Some(a) => d1.push(seq![plain("      Advice:   "@), plain(a@)]),
        None => d1,
    };
    let d3 = match dep.documentation_url {
        Some(u) => d2.push(seq![plain("      Doc:      "@), styled(u@, Style::Cyan)]),
        None => d2,
    };
    if dep.usages@.len() > 0 {
        d3.push(seq![plain("      Used by:"@)]) + usages_doc(dep.usages@)
    } else {
        d3
    }
}

/// The first `n` deprecations, numbered, with a blank line between each two.
pub open spec fn deprecation_items(deps: Seq<DeprecationOutput>, n: nat) -> Seq<Seq<Piece>>
    decreases n,
{
    if n == 0 {
        Seq::empty()
    } else {
        let d = deprecation_items(deps, (n - 1) as nat) + deprecation_doc(deps[n - 1], n as int);
        if n < deps.len() {
            d.push(Seq::empty())
        } else {
            d
        }
    }
}

/// The deprecations section.
pub open spec fn deprecations_doc(deps: Seq<DeprecationOutput>) -> Seq<Seq<Piece>> {
    if deps.len() == 0 {
        seq![
            seq![styled("⚠️ "@, Style::Dimmed), plain(" Deprecations (0)"@)],
            seq![plain("   "@), styled("No deprecations found"@, Style::Dimmed)],
        ]
    } else {
        seq![
            seq![
                styled("⚠️ "@, Style::Yellow),
                plain(" Deprecations ("@),
                styled(decimal(deps.len()), Style::Yellow),
                plain(")"@),
            ],
            seq![plain(LIGHT_RULE@)],
        ] + deprecation_items(deps, deps.len())
    }
}

fn format_usage(u: &DeprecationUsageOutput) -> (d: Doc)
    ensures
        d.wf(),
        d.spec@ == usage_doc(*u),
{
    let mut l = Line::new();
    l.plain("        ");
    l.styled("•", Style::Dimmed);
    l.plain(" ");
    l.styled(u.owner_type.as_str(), Style::Dimmed);
    l.plain(": ");
    match &u.location {
        Some(location) => l.plain(location.as_str()),
        None => l.plain("<unknown>"),
    }
    let mut d = Doc::new();
    d.push(l);
    if let Some(advice) = &u.contextual_advice {
        let mut l = Line::new();
        l.plain("          ");
        l.styled(advice.as_str(), Style::Dimmed);
        d.push(l);
    }
    assert(d.spec@ =~~= usage_doc(*u));
    d
}

fn format_deprecation(dep: &DeprecationOutput, index: usize) -> (d: Doc)
    ensures
        d.wf(),
        d.spec@ == deprecation_doc(*dep, index as int),
{
    let ghost g = *dep;
    let number = u64_text(index as u64);
    let mut l = Line::new();
    l.plain("   ");
    l.plain(number.as_str());
    l.plain(". ");
    l.styled(dep.summary.as_str(), Style::Yellow);
    let mut d = Doc::new();
    d.push(l);
    let mut l = Line::new();
    l.plain("      Removal:  ");
    l.styled(dep.removal_details.as_str(), Style::Dimmed);
    d.push(l);
    if let Some(advice) = &dep.advice {
        let mut l = Line::new();
        l.plain("      Advice:   ");
        l.plain(advice.as_str());
        d.push(l);
    }
    if let Some(url) = &dep.documentation_url {
        let mut l = Line::new();
        l.plain("      Doc:      ");
        l.styled(url.as_str(), Style::Cyan);
        d.push(l);
    }
    let ghost head = d.spec@;
    assert(head =~~= {
        let d1 = seq![
            seq![plain("   "@), plain(int_text(index as int)), plain(". "@), styled(g.summary@, Style::Yellow)],
            seq![plain("      Removal:  "@), styled(g.removal_details@, Style::Dimmed)],
        ];
        let d2 = match g.advice {
            Some(a) => d1.push(seq![plain("      Advice:   "@), plain(a@)]),
            None => d1,
        };
        match g.documentation_url {
            Some(u) => d2.push(seq![plain("      Doc:      "@), styled(u@, Style::Cyan)]),
            None => d2,
        }
    });
    if dep.usages.len() > 0 {
        let mut l = Line::new();
        l.plain("      Used by:");
        d.push(l);
        let mut usages = Doc::new();
        let mut i: usize = 0;
        while i < dep.usages.len()
            invariant
                i <= dep.usages@.len(),
                usages.wf(),
                usages.spec@ == usages_doc(dep.usages@.take(i as int)),
            decreases dep.usages.len() - i,
        {
            proof {
                assert(dep.usages@.take(i + 1).drop_last() =~= dep.usages@.take(i as int));
            }
            usages.append(format_usage(&dep.usages[i]));
            i = i + 1;
        }
        proof {
            assert(dep.usages@.take(dep.usages@.len() as int) =~= dep.usages@);
        }
        d.append(usages);
    }
    d
}

fn format_deprecations(deprecations: &Vec<DeprecationOutput>) -> (d: Doc)
    ensures
        d.wf(),
        d.spec@ == deprecations_doc(deprecations@),
{
    let mut d = Doc::new();
    let n = deprecations.len();
    if n == 0 {
        let mut l = Line::new();
        l.styled("⚠️ ", Style::Dimmed);
        l.plain(" Deprecations (0)");
        d.push(l);
        let mut l = Line::new();
        l.plain("   ");
        l.styled("No deprecations found", Style::Dimmed);
        d.push(l);
        assert(d.spec@ =~~= deprecations_doc(deprecations@));
        return d;
    }
    let count = u64_text(n as u64);
    let mut l = Line::new();
    l.styled("⚠️ ", Style::Yellow);
    l.plain(" Deprecations (");
    l.styled(count.as_str(), Style::Yellow);
    l.plain(")");
    d.push(l);
    d.push(rule_line(LIGHT_RULE));
    assert(d.spec@ =~~= seq![
        seq![
            styled("⚠️ "@, Style::Yellow),
            plain(" Deprecations ("@),
            styled(decimal(deprecations@.len()), Style::Yellow),
            plain(")"@),
        ],
        seq![plain(LIGHT_RULE@)],
    ]);
    let mut items = Doc::new();
    let mut i: usize = 0;
    while i < n
        invariant
            n == deprecations@.len(),
            i <= n,
            items.wf(),
            items.spec@ == deprecation_items(deprecations@, i as nat),
        decreases n - i,
    {
        items.append(format_deprecation(&deprecations[i], i + 1));
        if i + 1 < n {
            items.blank();
        }
        i = i + 1;
    }
    d.append(items);
    d
}

// ---------------------------------------------------------------------------
// Result.
// ---------------------------------------------------------------------------

/// The user and host that ran a build: `user @ host`, or whichever is known.
pub open spec fn user_host(user: Option<String>, host: Option<String>) -> Option<Seq<char>> {
    match (user, host) {
        (Some(u), Some(h)) => Some(u@ + " @ "@ + h@),
        (Some(u), None) => Some(u@),
        (None, Some(h)) => Some(h@),
        (None, None) => None,
    }
}

/// The start time shown: the RFC 3339 time re-rendered as
/// `YYYY-MM-DD HH:MM:SS UTC`, or the text as it is when it does not parse.
pub open spec fn start_time_shown(t: Seq<char>) -> Seq<char> {
    match rfc3339_reformatted(t, TIMESTAMP_PATTERN@) {
        Some(r) => r,
        None => t,
    }
}

/// The status line of a build: a red mark and FAILED in bold red, or a
/// green mark and SUCCESS in bold green.
pub open spec fn status_line(has_failed: bool) -> Seq<Piece> {
    seq![
        plain("   Status:      "@),
        if has_failed {
            Piece::Marked("✗"@, Style::Red, " FAILED"@, Style::RedBold)
        } else {
            Piece::Marked("✓"@, Style::Green, " SUCCESS"@, Style::GreenBold)
        },
    ]
}

/// The failure classification of a failed build: verification failures in
/// yellow, other failures in red.
pub open spec fn failure_line(r: ResultOutput) -> Seq<Piece> {
    let v = r.has_verification_failure == Some(true);
    let nv = r.has_non_verification_failure == Some(true);
    let p1 = seq![plain("   Failure:     "@)];
    let p2 = if v {
        p1.push(styled("verification"@, Style::Yellow))
    } else {
        p1
    };
    let p3 = if v && nv {
        p2.push(plain(", "@))
    } else {
        p2
    };
    let p4 = if nv {
        p3.push(styled("non-verification"@, Style::Red))
    } else {
        p3
    };
    p4.push(plain(" failures"@))
}

/// The result section.
pub open spec fn result_doc(r: ResultOutput) -> Seq<Seq<Piece>> {
    let d1 = seq![seq![styled("📊"@, Style::Dimmed), plain(" Result"@)], status_line(r.has_failed)];
    let d2 = match r.project_name {
        Some(n) => d1.push(seq![plain("   Project:     "@), plain(n@)]),
        None => d1,
    };
    let d3 = d2.push(seq![plain("   Gradle:      "@), plain(r.gradle_version@)]).push(
        seq![plain("   Duration:    "@), plain(duration_text(r.build_duration_ms))],
    ).push(seq![plain("   Started:     "@), plain(start_time_shown(r.build_start_time@))]);
    let d4 = if r.requested_tasks@.len() > 0 {
        d3.push(seq![plain("   Tasks:       "@), plain(join_spec(texts(r.requested_tasks@), ", "@))])
    } else {
        d3
    };
    let d5 = if r.tags@.len() > 0 {
        d4.push(seq![plain("   Tags:        "@), plain(join_spec(texts(r.tags@), ", "@))])
    } else {
        d4
    };
    let d6 = match user_host(r.username, r.hostname) {
        Some(uh) => d5.push(seq![plain("   User:        "@), plain(uh)]),
        None => d5,
    };
    if r.has_failed && (r.has_verification_failure == Some(true) || r.has_non_verification_failure == Some(
        true,
    )) {
        d6.push(failure_line(r))
    } else {
        d6
    }
}

fn labeled(label: &str, value: &str) -> (l: Line)
    ensures
        l.wf(),
        l.pieces@ == seq![plain(label@), plain(value@)],
{
    let mut l = Line::new();
    l.plain(label);
    l.plain(value);
    assert(l.pieces@ =~= seq![plain(label@), plain(value@)]);
    l
}

fn format_result(result: &ResultOutput) -> (d: Doc)
    ensures
        d.wf(),
        d.spec@ == result_doc(*result),
{
    let ghost r = *result;
    let mut d = Doc::new();
    let mut l = Line::new();
    l.styled("📊", Style::Dimmed);
    l.plain(" Result");
    d.push(l);
    let mut l = Line::new();
    l.plain("   Status:      ");
    if result.has_failed {
        l.marked("✗", Style::Red, " FAILED", Style::RedBold);
    } else {
        l.marked("✓", Style::Green, " SUCCESS", Style::GreenBold);
    }
    assert(l.pieces@ =~= status_line(r.has_failed));
    d.push(l);
    assert(d.spec@ =~~= seq![seq![styled("📊"@, Style::Dimmed), plain(" Result"@)], status_line(r.has_failed)]);
    if let Some(name) = &result.project_name {
        d.push(labeled("   Project:     ", name.as_str()));
    }
    d.push(labeled("   Gradle:      ", result.gradle_version.as_str()));
    let duration = format_duration(result.build_duration_ms);
    d.push(labeled("   Duration:    ", duration.as_str()));
    let start_time = match reformat_rfc3339(result.build_start_time.as_str(), TIMESTAMP_PATTERN) {
        Some(t) => t,
        None => copy(&result.build_start_time),
    };
    d.push(labeled("   Started:     ", start_time.as_str()));
    if result.requested_tasks.len() > 0 {
        let tasks = join(&result.requested_tasks, ", ");
        d.push(labeled("   Tasks:       ", tasks.as_str()));
    }
    if result.tags.len() > 0 {
        let tags = join(&result.tags, ", ");
        d.push(labeled("   Tags:        ", tags.as_str()));
    }
    let user_host_text = match (&result.username, &result.hostname) {
        (Some(user), Some(host)) => Some(concat3(user.as_str(), " @ ", host.as_str())),
        (Some(user), None) => Some(copy(user)),
        (None, Some(host)) => Some(copy(host)),
        (None, None) => None,
    };
    if let Some(uh) = &user_host_text {
        d.push(labeled("   User:        ", uh.as_str()));
    }
    if result.has_failed {
        let v = match result.has_verification_failure {
            Some(b) => b,
            None => false,
        };
        let nv = match result.has_non_verification_failure {
            Some(b) => b,
            None => false,
        };
        if v || nv {
            let mut l = Line::new();
            l.plain("   Failure:     ");
            if v {
                l.styled("verification", Style::Yellow);
            }
            if v && nv {
                l.plain(", ");
            }
            if nv {
                l.styled("non-verification", Style::Red);
            }
            l.plain(" failures");
            assert(l.pieces@ =~= failure_line(r));
            d.push(l);
        }
    }
    d
}

// ---------------------------------------------------------------------------
// Dependencies.
// ---------------------------------------------------------------------------

/// The line of a dependency: its coordinates `namespace:name:version`, the
/// namespace and version where the API gives them, the name "<unnamed>"
/// where it gives none.
pub open spec fn dependency_line(d: DependencyOutput) -> Seq<Piece> {
    let head = seq![plain("      "@), styled("•"@, Style::Dimmed), plain(" "@)];
    let with_namespace = match d.namespace {
        Some(ns) => head.push(plain(ns@)).push(plain(":"@)),
        None => head,
    };
    let with_name = match d.name {
        Some(n) => with_namespace.push(plain(n@)),
        None => with_namespace.push(plain("<unnamed>"@)),
    };
    match d.version {
        Some(v) => with_name.push(plain(":"@)).push(styled(v@, Style::Dimmed)),
        None => with_name,
    }
}

/// An indented detail line of a dependency, when it has the detail.
pub open spec fn detail_doc(label: Seq<char>, value: Option<String>) -> Seq<Seq<Piece>> {
    match value {
        Some(v) => seq![seq![plain(label), styled(v@, Style::Dimmed)]],
        None => Seq::empty(),
    }
}

/// The lines of a dependency: its coordinates and, in verbose mode, its
/// purl, repository URL and resolution source where it has them.
pub open spec fn dependency_doc(d: DependencyOutput, verbose: bool) -> Seq<Seq<Piece>> {
    if verbose {
        seq![dependency_line(d)] + detail_doc("        purl: "@, d.purl) + detail_doc(
            "        repository: "@,
            d.repository_url,
        ) + detail_doc("        source: "@, d.resolution_source)
    } else {
        seq![dependency_line(d)]
    }
}

/// The lines of dependencies, one after the other.
pub open spec fn dependency_list_doc(ds: Seq<DependencyOutput>, verbose: bool) -> Seq<Seq<Piece>>
    decreases ds.len(),
{
    if ds.len() == 0 {
        Seq::empty()
    } else {
        dependency_list_doc(ds.drop_last(), verbose) + dependency_doc(ds.last(), verbose)
    }
}

/// The dependencies of a group that are shown: all of them in verbose mode,
/// else the first twenty.
pub open spec fn shown_dependencies(ds: Seq<DependencyOutput>, verbose: bool) -> Seq<DependencyOutput> {
    if verbose || ds.len() <= 20 {
        ds
    } else {
        ds.take(20)
    }
}

/// The lines of a group: a blank line, the type and its number of
/// dependencies, the dependencies shown, and a note on those not shown.
pub open spec fn dependency_group_doc(g: DependencyGroupOutput, verbose: bool) -> Seq<Seq<Piece>> {
    let n = g.dependencies@.len();
    let listed = seq![
        Seq::empty(),
        sub_heading(" "@ + g.dependency_type@ + " ("@ + int_text(n as int) + "):"@),
    ] + dependency_list_doc(shown_dependencies(g.dependencies@, verbose), verbose);
    if !verbose && n > 20 {
        listed.push(
            seq![
                plain("   "@),
                styled(
                    "["@ + int_text(n - 20) + " more dependencies — use --verbose to see all]"@,
                    Style::Dimmed,
                ),
            ],
        )
    } else {
        listed
    }
}

/// The lines of the groups, one after the other.
pub open spec fn dependency_groups_doc(gs: Seq<DependencyGroupOutput>, verbose: bool) -> Seq<Seq<Piece>>
    decreases gs.len(),
{
    if gs.len() == 0 {
        Seq::empty()
    } else {
        dependency_groups_doc(gs.drop_last(), verbose) + dependency_group_doc(gs.last(), verbose)
    }
}

/// The dependencies section.
pub open spec fn dependencies_doc(d: DependenciesOutput, verbose: bool) -> Seq<Seq<Piece>> {
    let head = seq![
        seq![
            styled("📦"@, Style::Dimmed),
            plain(" Dependencies ("@),
            plain(int_text(d.total as int)),
            plain(" resolved)"@),
        ],
        seq![plain(LIGHT_RULE@)],
    ];
    if d.groups@.len() == 0 {
        head.push(seq![plain("   No dependencies resolved"@)])
    } else {
        head + dependency_groups_doc(d.groups@, verbose)
    }
}

fn format_detail(label: &str, value: &Option<String>) -> (d: Doc)
    ensures
        d.wf(),
        d.spec@ == detail_doc(label@, *value),
{
    let mut d = Doc::new();
    if let Some(v) = value {
        let mut l = Line::new();
        l.plain(label);
        l.styled(v.as_str(), Style::Dimmed);
        assert(l.pieces@ =~= seq![plain(label@), styled(v@, Style::Dimmed)]);
        d.push(l);
        assert(d.spec@ =~~= detail_doc(label@, *value));
    }
    d
}

fn format_dependency(dep: &DependencyOutput, verbose: bool) -> (d: Doc)
    ensures
        d.wf(),
        d.spec@ == dependency_doc(*dep, verbose),
{
    let mut l = Line::new();
    l.plain("      ");
    l.styled("•", Style::Dimmed);
    l.plain(" ");
    if let Some(ns) = &dep.namespace {
        l.plain(ns.as_str());
        l.plain(":");
    }
    match &dep.name {
        Some(n) => l.plain(n.as_str()),
        None => l.plain("<unnamed>"),
    }
    if let Some(v) = &dep.version {
        l.plain(":");
        l.styled(v.as_str(), Style::Dimmed);
    }
    assert(l.pieces@ =~= dependency_line(*dep));
    let mut d = Doc::new();
    d.push(l);
    if verbose {
        d.append(format_detail("        purl: ", &dep.purl));
        d.append(format_detail("        repository: ", &dep.repository_url));
        d.append(format_detail("        source: ", &dep.resolution_source));
    }
    assert(d.spec@ =~= dependency_doc(*dep, verbose));
    d
}

fn format_dependency_list(deps: &Vec<DependencyOutput>, count: usize, verbose: bool) -> (d: Doc)
    requires
        count <= deps@.len(),
    ensures
        d.wf(),
        d.spec@ == dependency_list_doc(deps@.take(count as int), verbose),
{
    let mut d = Doc::new();
    let mut i: usize = 0;
    proof {
        assert(deps@.take(0) =~= Seq::<DependencyOutput>::empty());
    }
    while i < count
        invariant
            count <= deps@.len(),
            i <= count,
            d.wf(),
            d.spec@ == dependency_list_doc(deps@.take(i as int), verbose),
        decreases count - i,
    {
        proof {
            assert(deps@.take(i + 1).drop_last() =~= deps@.take(i as int));
        }
        d.append(format_dependency(&deps[i], verbose));
        i = i + 1;
    }
    d
}

fn format_dependency_group(group: &DependencyGroupOutput, verbose: bool) -> (d: Doc)
    ensures
        d.wf(),
        d.spec@ == dependency_group_doc(*group, verbose),
{
    let ghost g = *group;
    let n = group.dependencies.len();
    let mut d = Doc::new();
    d.blank();
    let count = u64_text(n as u64);
    let head = concat3(" ", group.dependency_type.as_str(), " (");
    let title = concat3(head.as_str(), count.as_str(), "):");
    d.push(sub_heading_line(title.as_str()));
    assert(title@ =~= " "@ + g.dependency_type@ + " ("@ + int_text(n as int) + "):"@);
    let shown = if verbose || n <= 20 {
        n
    } else {
        20
    };
    proof {
        assert(group.dependencies@.take(shown as int) =~= shown_dependencies(group.dependencies@, verbose));
    }
    d.append(format_dependency_list(&group.dependencies, shown, verbose));
    if !verbose && n > 20 {
        let more = u64_text((n - 20) as u64);
        let note = concat3("[", more.as_str(), " more dependencies — use --verbose to see all]");
        let mut l = Line::new();
        l.plain("   ");
        l.styled(note.as_str(), Style::Dimmed);
        assert(l.pieces@ =~= seq![
            plain("   "@),
            styled(
                "["@ + int_text(g.dependencies@.len() - 20) + " more dependencies — use --verbose to see all]"@,
                Style::Dimmed,
            ),
        ]);
        d.push(l);
    }
    assert(d.spec@ =~= dependency_group_doc(g, verbose));
    d
}

fn format_dependencies(deps: &DependenciesOutput, verbose: bool) -> (d: Doc)
    ensures
        d.wf(),
        d.spec@ == dependencies_doc(*deps, verbose),
{
    let ghost o = *deps;
    let mut d = Doc::new();
    let total = u64_text(deps.total as u64);
    let mut l = Line::new();
    l.styled("📦", Style::Dimmed);
    l.plain(" Dependencies (");
    l.plain(total.as_str());
    l.plain(" resolved)");
    d.push(l);
    d.push(rule_line(LIGHT_RULE));
    if deps.groups.len() == 0 {
        let mut l = Line::new();
        l.plain("   No dependencies resolved");
        d.push(l);
    } else {
        let mut i: usize = 0;
        let ghost head = d.spec@;
        proof {
            assert(deps.groups@.take(0) =~= Seq::<DependencyGroupOutput>::empty());
            assert(d.spec@ =~= head + dependency_groups_doc(deps.groups@.take(0), verbose));
        }
        while i < deps.groups.len()
            invariant
                i <= deps.groups@.len(),
                d.wf(),
                d.spec@ == head + dependency_groups_doc(deps.groups@.take(i as int), verbose),
            decreases deps.groups.len() - i,
        {
            proof {
                assert(deps.groups@.take(i + 1).drop_last() =~= deps.groups@.take(i as int));
            }
            d.append(format_dependency_group(&deps.groups[i], verbose));
            proof {
                assert(d.spec@ =~= head + dependency_groups_doc(deps.groups@.take(i + 1), verbose));
            }
            i = i + 1;
        }
        proof {
            assert(deps.groups@.take(deps.groups@.len() as int) =~= deps.groups@);
        }
    }
    assert(d.spec@ =~~= dependencies_doc(o, verbose));
    d
}

// ---------------------------------------------------------------------------
// The report.
// ---------------------------------------------------------------------------

/// A section followed by a blank line, when the section is present.
pub open spec fn with_section(d: Seq<Seq<Piece>>, section: Option<Seq<Seq<Piece>>>) -> Seq<Seq<Piece>> {
    match section {
        Some(s) => (d + s).push(Seq::empty()),
        None => d,
    }
}

/// The report: the build ID and its Build Scan URL under a heavy rule, then
/// each section present in the output, in the order result, deprecations,
/// failures, tests, task execution, network activity, dependencies, each
/// followed by a blank line.
pub open spec fn report_doc(o: BuildOutput, verbose: bool, f: Figures) -> Seq<Seq<Piece>> {
    let d0 = seq![
        seq![plain("Build: "@), styled(o.build_id@, Style::Bold)],
        seq![styled("🔗"@, Style::Dimmed), plain(" "@), styled(o.build_scan_url@, Style::Cyan)],
        seq![plain(HEAVY_RULE@)],
        Seq::empty(),
    ];
    let d1 = with_section(
        d0,
        match o.result {
            Some(r) => Some(result_doc(r)),
            None => None,
        },
    );
    let d2 = with_section(
        d1,
        match o.deprecations {
            Some(ds) => Some(deprecations_doc(ds@)),
            None => None,
        },
    );
    let d3 = with_section(
        d2,
        match o.failures {
            Some(fs) => Some(failures_doc(fs, verbose)),
            None => None,
        },
    );
    let d4 = with_section(
        d3,
        match o.tests {
            Some(t) => Some(tests_doc(t, verbose, f)),
            None => None,
        },
    );
    let d5 = with_section(
        d4,
        match o.task_execution {
            Some(te) => Some(task_execution_doc(te, verbose, f)),
            None => None,
        },
    );
    let d6 = with_section(
        d5,
        match o.network_activity {
            Some(a) => Some(network_activity_doc(a, verbose)),
            None => None,
        },
    );
    with_section(
        d6,
        match o.dependencies {
            Some(deps) => Some(dependencies_doc(deps, verbose)),
            None => None,
        },
    )
}

/// Format the build output for human reading in a terminal.
///
/// The floating-point figures (pass rate, avoidance, serialization factor)
/// come rendered in `figures`.
pub fn format(output: &BuildOutput, verbose: bool, figures: &Figures) -> (r: String)
    ensures
        prints(r@, report_doc(*output, verbose, *figures)),
{
    let ghost o = *output;
    let mut d = Doc::new();
    let mut l = Line::new();
    l.plain("Build: ");
    l.styled(output.build_id.as_str(), Style::Bold);
    d.push(l);
    let mut l = Line::new();
    l.styled("🔗", Style::Dimmed);
    l.plain(" ");
    l.styled(output.build_scan_url.as_str(), Style::Cyan);
    d.push(l);
    d.push(rule_line(HEAVY_RULE));
    d.blank();
    assert(d.spec@ =~~= seq![
        seq![plain("Build: "@), styled(o.build_id@, Style::Bold)],
        seq![styled("🔗"@, Style::Dimmed), plain(" "@), styled(o.build_scan_url@, Style::Cyan)],
        seq![plain(HEAVY_RULE@)],
        Seq::<Piece>::empty(),
    ]);
    if let Some(result) = &output.result {
        d.append(format_result(result));
        d.blank();
    }
    if let Some(deprecations) = &output.deprecations {
        d.append(format_deprecations(deprecations));
        d.blank();
    }
    if let Some(failures) = &output.failures {
        d.append(format_failures(failures, verbose));
        d.blank();
    }
    if let Some(tests) = &output.tests {
        d.append(format_tests(tests, verbose, figures));
        d.blank();
    }
    if let Some(task_execution) = &output.task_execution {
        d.append(format_task_execution(task_execution, verbose, figures));
        d.blank();
    }
    if let Some(network_activity) = &output.network_activity {
        d.append(format_network_activity(network_activity, verbose));
        d.blank();
    }
    if let Some(dependencies) = &output.dependencies {
        d.append(format_dependencies(dependencies, verbose));
        d.blank();
    }
    let r = join(&d.lines, "\n");
    proof {
        let ls = texts(d.lines@);
        assert forall|i: int| 0 <= i < ls.len() implies line_of(#[trigger] ls[i], d.spec@[i]) by {
            assert(ls[i] == d.lines@[i]@);
        }
        assert(ls.len() == d.spec@.len());
    }
    r
}

} // verus!
