use vstd::prelude::*;

use crate::config::{FlakeTarget, UiSettings};
use crate::impact::{opt_view, ActivationImpact, ActivationView, ClosureDiff, ClosureDiffView, GenerationInfo};
use crate::json::{entry_views, json_string, json_to_string, json_view, json_views, lemma_entry_views, lemma_json_views, JsonValue, JsonView};
pub use crate::edit::truncate_line;
use crate::edit::{
    replace_all, replace_all_exec, trim_char, trim_char_exec, trim_end_str, trim_end_str_exec,
    truncated,
};
use crate::events::{
    active_drvs, activity_views, count_views, counts_from, earliest_index, is_earliest,
    lemma_earliest_unique, BuildCategory, BuildState, BuildView, NixEvent,
};
use crate::process::{StreamLine, StreamSource};
use crate::graph::{store_key, DependencyGraph, GraphView};
use crate::git::GitSummary;
use crate::text::{
    occurs_at, chars_of, concat, concat3, contains, contains_str, decimal, ends_with, ends_with_str, eq_str,
    find, find_char_from, find_char_from_exec, find_from_exec, is_whitespace, is_ws, join,
    join_strings, lemma_strs_push, lowercase, push_char, starts_with, starts_with_str,
    string_of, string_of_range, strs, to_lowercase, trim, trim_start, trim_start_str, trim_str,
    u64_to_string,
};

verus! {

/// How command output is rendered.
#[derive(Clone, Copy, Debug, PartialEq, Eq, Structural)]
pub enum OutputMode {
    Auto,
    Rich,
    Nom,
    Plain,
    Raw,
    Json,
    Jsonl,
}

pub open spec fn output_mode_named(value: Seq<char>) -> Option<OutputMode> {
    if value == "auto"@ {
        Some(OutputMode::Auto)
    } else if value == "rich"@ {
        Some(OutputMode::Rich)
    } else if value == "nom"@ {
        Some(OutputMode::Nom)
    } else if value == "plain"@ {
        Some(OutputMode::Plain)
    } else if value == "raw"@ {
        Some(OutputMode::Raw)
    } else if value == "json"@ {
        Some(OutputMode::Json)
    } else if value == "jsonl"@ {
        Some(OutputMode::Jsonl)
    } else {
        None
    }
}

/// The lifecycle commands that show the build graph when the mode is `auto`.
pub open spec fn is_build_ui_action(action: Seq<char>) -> bool {
    action == "build"@ || action == "switch"@ || action == "test"@ || action == "boot"@ || action
        == "preview"@
}

/// `auto` becomes `rich` on a terminal and `plain` elsewhere.
pub open spec fn effective_with(mode: OutputMode, interactive: bool) -> OutputMode {
    if mode == OutputMode::Auto {
        if interactive {
            OutputMode::Rich
        } else {
            OutputMode::Plain
        }
    } else {
        mode
    }
}

/// Trusted: whether standard output is a terminal
/// (`std::io::IsTerminal::is_terminal`); that depends on how the process
/// was started, so nothing is promised of the result.
#[verifier::external_body]
fn stdout_is_terminal() -> (r: bool) {
    std::io::IsTerminal::is_terminal(&std::io::stdout())
}

/// Trusted: whether standard error is a terminal
/// (`std::io::IsTerminal::is_terminal`); nothing is promised of the result.
#[verifier::external_body]
fn stderr_is_terminal() -> (r: bool) {
    std::io::IsTerminal::is_terminal(&std::io::stderr())
}

/// Whether both standard output and standard error are terminals.
fn output_is_terminal() -> (r: bool) {
    stdout_is_terminal() && stderr_is_terminal()
}

pub fn uses_build_ui_by_default(action: &str) -> (r: bool)
    ensures
        r == is_build_ui_action(action@),
{
    eq_str(action, "build") || eq_str(action, "switch") || eq_str(action, "test") || eq_str(
        action,
        "boot",
    ) || eq_str(action, "preview")
}

impl OutputMode {
    /// The mode named by a `--ui` value.
    pub fn parse(value: &str) -> (r: Option<OutputMode>)
        ensures
            r == output_mode_named(value@),
    {
        if eq_str(value, "auto") {
            Some(OutputMode::Auto)
        } else if eq_str(value, "rich") {
            Some(OutputMode::Rich)
        } else if eq_str(value, "nom") {
            Some(OutputMode::Nom)
        } else if eq_str(value, "plain") {
            Some(OutputMode::Plain)
        } else if eq_str(value, "raw") {
            Some(OutputMode::Raw)
        } else if eq_str(value, "json") {
            Some(OutputMode::Json)
        } else if eq_str(value, "jsonl") {
            Some(OutputMode::Jsonl)
        } else {
            None
        }
    }

    /// The mode in effect for this process: `auto` is resolved by whether
    /// the output goes to a terminal.
    pub fn effective(self) -> (r: OutputMode)
        ensures
            exists|interactive: bool| r == effective_with(self, interactive),
    {
        let interactive = output_is_terminal();
        self.effective_with_terminal(interactive)
    }

    /// The mode in effect for a lifecycle command of this process.
    pub fn effective_for_lifecycle(self, action: &str) -> (r: OutputMode)
        ensures
            exists|interactive: bool|
                r == (if self == OutputMode::Auto && interactive && is_build_ui_action(action@) {
                    OutputMode::Rich
                } else {
                    effective_with(self, interactive)
                }),
    {
        let interactive = output_is_terminal();
        self.effective_for_lifecycle_with_terminal(action, interactive)
    }

    /// The mode for a lifecycle command: `auto` shows the build graph on an
    /// interactive terminal; an explicit mode always wins.
    pub fn effective_for_lifecycle_with_terminal(self, action: &str, interactive: bool) -> (r:
        OutputMode)
        ensures
            r == (if self == OutputMode::Auto && interactive && is_build_ui_action(action@) {
                OutputMode::Rich
            } else {
                effective_with(self, interactive)
            }),
    {
        match self {
            OutputMode::Auto => {
                if interactive && uses_build_ui_by_default(action) {
                    OutputMode::Rich
                } else {
                    self.effective_with_terminal(interactive)
                }
            },
            value => value,
        }
    }

    fn effective_with_terminal(self, interactive: bool) -> (r: OutputMode)
        ensures
            r == effective_with(self, interactive),
    {
        match self {
            OutputMode::Auto => if interactive {
                OutputMode::Rich
            } else {
                OutputMode::Plain
            },
            value => value,
        }
    }
}

pub open spec fn is_hex_char(c: char) -> bool {
    ('0' <= c && c <= '9') || ('a' <= c && c <= 'f') || ('A' <= c && c <= 'F')
}

pub open spec fn hex_char_value(c: char) -> nat {
    if '0' <= c && c <= '9' {
        (c as nat - '0' as nat) as nat
    } else if 'a' <= c && c <= 'f' {
        (c as nat - 'a' as nat + 10) as nat
    } else {
        (c as nat - 'A' as nat + 10) as nat
    }
}

/// `u8::from_str_radix(pair, 16)` on two ASCII characters: two hex digits,
/// or a plus sign and one.
pub open spec fn hex_pair(a: char, b: char) -> Option<u8> {
    if a == '+' && is_hex_char(b) {
        Some(hex_char_value(b) as u8)
    } else if is_hex_char(a) && is_hex_char(b) {
        Some((16 * hex_char_value(a) + hex_char_value(b)) as u8)
    } else {
        None
    }
}

fn hex_value(c: char) -> (r: u8)
    requires
        is_hex_char(c),
    ensures
        r == hex_char_value(c),
{
    if '0' <= c && c <= '9' {
        (c as u32 - '0' as u32) as u8
    } else if 'a' <= c && c <= 'f' {
        (c as u32 - 'a' as u32 + 10) as u8
    } else {
        (c as u32 - 'A' as u32 + 10) as u8
    }
}

fn is_hex(c: char) -> (r: bool)
    ensures
        r == is_hex_char(c),
{
    ('0' <= c && c <= '9') || ('a' <= c && c <= 'f') || ('A' <= c && c <= 'F')
}

fn parse_hex_pair(a: char, b: char) -> (r: Option<u8>)
    ensures
        r == hex_pair(a, b),
{
    if a == '+' && is_hex(b) {
        Some(hex_value(b))
    } else if is_hex(a) && is_hex(b) {
        let hi = hex_value(a);
        let lo = hex_value(b);
        assert(16 * hi + lo < 256) by (nonlinear_arith)
            requires
                hi < 16,
                lo < 16,
        ;
        Some(16 * hi + lo)
    } else {
        None
    }
}

pub open spec fn all_ascii(s: Seq<char>) -> bool {
    forall|i: int| 0 <= i < s.len() ==> s[i] < '\u{80}'
}

/// Whether byte offset `b` of `s` falls between two characters.
pub open spec fn char_boundary(s: Seq<char>, b: nat) -> bool {
    exists|j: int| 0 <= j <= s.len() && vstd::utf8::encode_utf8(s.take(j)).len() == b
}

/// The inputs on which `#RRGGBB` parsing slices a character apart and
/// panics are left out.
pub open spec fn accent_slicing_defined(value: Seq<char>) -> bool {
    let hex = value.drop_first();
    value.len() > 0 && value[0] == '#' && vstd::utf8::encode_utf8(hex).len() == 6 && !all_ascii(hex)
        ==> char_boundary(hex, 2) && char_boundary(hex, 4)
}

/// An RGB accent color for headings.
#[derive(Clone, Copy, Debug)]
pub struct AccentColor {
    pub red: u8,
    pub green: u8,
    pub blue: u8,
}

pub open spec fn accent_of(value: Seq<char>) -> Option<(u8, u8, u8)> {
    let hex = value.drop_first();
    if value.len() == 7 && value[0] == '#' && all_ascii(hex) {
        match (hex_pair(hex[0], hex[1]), hex_pair(hex[2], hex[3]), hex_pair(hex[4], hex[5])) {
            (Some(r), Some(g), Some(b)) => Some((r, g, b)),
            _ => None,
        }
    } else {
        None
    }
}

impl AccentColor {
    /// Parses `#RRGGBB`.
    pub fn parse(value: &str) -> (r: Option<AccentColor>)
        requires
            accent_slicing_defined(value@),
        ensures
            match accent_of(value@) {
                Some((red, green, blue)) => r matches Some(a) && a.red == red && a.green == green
                    && a.blue == blue,
                None => r is None,
            },
    {
        let v = chars_of(value);
        if v.len() != 7 || v[0] != '#' {
            return None;
        }
        let mut i: usize = 1;
        while i < 7
            invariant
                1 <= i <= 7,
                v.len() == 7,
                v@ == value@,
                v@[0] == '#',
                forall|k: int| 1 <= k < i ==> v@[k] < '\u{80}',
            decreases 7 - i,
        {
            if v[i] >= '\u{80}' {
                proof {
                    assert(!all_ascii(v@.drop_first())) by {
                        assert(v@.drop_first()[i - 1] == v@[i as int]);
                    }
                }
                return None;
            }
            i = i + 1;
        }
        assert(all_ascii(v@.drop_first()));
        let red = match parse_hex_pair(v[1], v[2]) {
            Some(x) => x,
            None => return None,
        };
        let green = match parse_hex_pair(v[3], v[4]) {
            Some(x) => x,
            None => return None,
        };
        let blue = match parse_hex_pair(v[5], v[6]) {
            Some(x) => x,
            None => return None,
        };
        Some(AccentColor { red, green, blue })
    }
}

/// The live build display: its output mode, accent color and what it last
/// drew.
pub struct Renderer {
    mode: OutputMode,
    accent: Option<AccentColor>,
    last_rich_lines: usize,
    last_rich_width: Option<usize>,
    graph_depth: usize,
    refresh_ms: u64,
    verbose_backend: bool,
}

pub open spec fn accent_text(a: AccentColor, text: Seq<char>) -> Seq<char> {
    "\x1b[1;38;2;"@ + decimal(a.red as nat) + ";"@ + decimal(a.green as nat) + ";"@ + decimal(
        a.blue as nat,
    ) + "m"@ + text + "\x1b[0m"@
}

impl Renderer {
    pub closed spec fn mode_spec(&self) -> OutputMode {
        self.mode
    }

    pub closed spec fn accent_spec(&self) -> Option<AccentColor> {
        self.accent
    }

    pub closed spec fn last_rich_lines_spec(&self) -> usize {
        self.last_rich_lines
    }

    pub closed spec fn last_rich_width_spec(&self) -> Option<usize> {
        self.last_rich_width
    }

    pub closed spec fn refresh_ms_spec(&self) -> u64 {
        self.refresh_ms
    }

    /// A renderer for a plain command, with no accent color.
    pub fn new(mode: OutputMode) -> (r: Renderer)
        ensures
            exists|interactive: bool| r.mode_spec() == effective_with(mode, interactive),
            r.accent_spec() is None,
            r.last_rich_lines_spec() == 0,
    {
        Renderer {
            mode: mode.effective(),
            accent: None,
            last_rich_lines: 0,
            last_rich_width: None,
            graph_depth: 12,
            refresh_ms: 500,
            verbose_backend: false,
        }
    }

    /// A renderer for a lifecycle command, with the configured accent.
    pub fn new_for_lifecycle(mode: OutputMode, action: &str, settings: UiSettings) -> (r: Renderer)
        requires
            settings.accent matches Some(a) ==> accent_slicing_defined(a@),
        ensures
            exists|interactive: bool|
                r.mode_spec() == (if mode == OutputMode::Auto && interactive && is_build_ui_action(
                    action@,
                ) {
                    OutputMode::Rich
                } else {
                    effective_with(mode, interactive)
                }),
            match settings.accent {
                Some(a) => match accent_of(a@) {
                    Some((red, green, blue)) => r.accent_spec() matches Some(c) && c.red == red
                        && c.green == green && c.blue == blue,
                    None => r.accent_spec() is None,
                },
                None => r.accent_spec() is None,
            },
            r.last_rich_lines_spec() == 0,
    {
        let accent = match &settings.accent {
            Some(value) => AccentColor::parse(value.as_str()),
            None => None,
        };
        Renderer {
            mode: mode.effective_for_lifecycle(action),
            accent,
            last_rich_lines: 0,
            last_rich_width: None,
            graph_depth: 12,
            refresh_ms: 500,
            verbose_backend: false,
        }
    }

    pub fn mode(&self) -> (r: OutputMode)
        ensures
            r == self.mode_spec(),
    {
        self.mode
    }

    /// Whether every backend line is shown, not only warnings and errors.
    pub fn verbose_backend(&self) -> (r: bool) {
        self.verbose_backend
    }

    /// A heading in the accent color, or as it is when none is set.
    pub fn accent_line(&self, text: &str) -> (r: String)
        ensures
            match self.accent_spec() {
                Some(a) => r@ == accent_text(a, text@),
                None => r@ == text@,
            },
    {
        match self.accent {
            Some(a) => {
                let mut r = "\x1b[1;38;2;".to_owned();
                r.append(u64_to_string(a.red as u64).as_str());
                r.append(";");
                r.append(u64_to_string(a.green as u64).as_str());
                r.append(";");
                r.append(u64_to_string(a.blue as u64).as_str());
                r.append("m");
                r.append(text);
                r.append("\x1b[0m");
                r
            },
            None => text.to_owned(),
        }
    }

    /// Whether the build graph should be redrawn: once the refresh interval
    /// has passed since the last drawing, or when the width changed.
    pub fn rich_render_due(&self, elapsed_ms: u64, width: usize) -> (r: bool)
        ensures
            r == !(elapsed_ms < self.refresh_ms_spec() && self.last_rich_width_spec() == Some(width)),
    {
        !(elapsed_ms < self.refresh_ms && self.last_rich_width == Some(width))
    }

    /// Records a drawing of `lines` lines at `width`.
    pub fn note_rich_render(&mut self, width: usize, lines: usize)
        ensures
            final(self).last_rich_lines_spec() == lines,
            final(self).last_rich_width_spec() == Some(width),
            final(self).refresh_ms_spec() == old(self).refresh_ms_spec(),
            final(self).mode_spec() == old(self).mode_spec(),
            final(self).accent_spec() == old(self).accent_spec(),
    {
        self.last_rich_width = Some(width);
        self.last_rich_lines = lines;
    }

    /// How many drawn lines are to be erased; none are left after.
    pub fn take_rich_lines(&mut self) -> (r: usize)
        ensures
            r == old(self).last_rich_lines_spec(),
            final(self).last_rich_lines_spec() == 0,
            final(self).last_rich_width_spec() == old(self).last_rich_width_spec(),
            final(self).refresh_ms_spec() == old(self).refresh_ms_spec(),
            final(self).mode_spec() == old(self).mode_spec(),
            final(self).accent_spec() == old(self).accent_spec(),
    {
        let n = self.last_rich_lines;
        self.last_rich_lines = 0;
        n
    }
}

/// `Duration` as the build graph shows it.
pub open spec fn duration_text(ms: nat) -> Seq<char> {
    if ms < 1000 {
        decimal(ms) + "ms"@
    } else {
        let seconds = ms / 1000;
        if seconds < 60 {
            decimal(seconds) + "s"@
        } else {
            let minutes = seconds / 60;
            let secs = seconds % 60;
            if minutes < 60 {
                decimal(minutes) + "m"@ + two_digits(secs) + "s"@
            } else {
                decimal(minutes / 60) + "h"@ + two_digits(minutes % 60) + "m"@
            }
        }
    }
}

/// `{:02}`.
pub open spec fn two_digits(n: nat) -> Seq<char> {
    if n < 10 {
        "0"@ + decimal(n)
    } else {
        decimal(n)
    }
}

fn push_two_digits(out: &mut String, n: u64)
    ensures
        final(out)@ == old(out)@ + two_digits(n as nat),
{
    proof {
        reveal_strlit("0");
    }
    if n < 10 {
        push_char(out, '0');
        crate::text::push_decimal(out, n);
        assert(final(out)@ =~= old(out)@ + two_digits(n as nat)) by {
            assert(two_digits(n as nat) =~= seq!['0'] + decimal(n as nat));
        }
    } else {
        crate::text::push_decimal(out, n);
    }
}

/// Formats an elapsed time given in milliseconds.
pub fn format_duration(ms: u64) -> (r: String)
    ensures
        r@ == duration_text(ms as nat),
{
    let mut out = String::new();
    if ms < 1000 {
        crate::text::push_decimal(&mut out, ms);
        out.append("ms");
        return out;
    }
    let seconds = ms / 1000;
    if seconds < 60 {
        crate::text::push_decimal(&mut out, seconds);
        out.append("s");
        return out;
    }
    let minutes = seconds / 60;
    let secs = seconds % 60;
    if minutes < 60 {
        crate::text::push_decimal(&mut out, minutes);
        out.append("m");
        push_two_digits(&mut out, secs);
        out.append("s");
        return out;
    }
    crate::text::push_decimal(&mut out, minutes / 60);
    out.append("h");
    push_two_digits(&mut out, minutes % 60);
    out.append("m");
    out
}

/// How the header shows the worktree state.
pub open spec fn git_status_text(summary: GitSummary) -> Seq<char> {
    if !summary.dirty {
        "clean"@
    } else if summary.untracked > 0 {
        "dirty, "@ + decimal(summary.untracked as nat) + " untracked"@
    } else {
        "dirty"@
    }
}

pub fn git_status_label(summary: &GitSummary) -> (r: String)
    ensures
        r@ == git_status_text(*summary),
{
    if !summary.dirty {
        return "clean".to_owned();
    }
    if summary.untracked > 0 {
        let n = u64_to_string(summary.untracked as u64);
        concat3("dirty, ", n.as_str(), " untracked")
    } else {
        "dirty".to_owned()
    }
}

/// Whether a backend line is worth showing outside raw mode: warnings,
/// errors and failures, but not debug noise that merely quotes them.
pub open spec fn backend_line_shown(line: Seq<char>) -> bool {
    let lower = lowercase(trim_start(line));
    if starts_with(lower, "debug:"@) || starts_with(lower, "trace:"@) || (starts_with(
        lower,
        "warning: git tree "@,
    ) && ends_with(lower, " is dirty"@)) || contains(lower, "nixos_rebuild.process: captured output"@)
        || contains(lower, "nixos-rebuild.process: captured output"@) || contains(
        lower,
        "captured output with stdout="@,
    ) {
        false
    } else {
        starts_with(lower, "warning:"@) || starts_with(lower, "error:"@) || starts_with(
            lower,
            "fatal:"@,
        ) || contains(lower, "error:"@) || contains(lower, "failed"@)
    }
}

pub fn should_print_backend_line(line: &str) -> (r: bool)
    ensures
        r == backend_line_shown(line@),
{
    let trimmed = trim_start_str(line);
    let lower_s = to_lowercase(trimmed.as_str());
    let lower = lower_s.as_str();
    if starts_with_str(lower, "debug:") || starts_with_str(lower, "trace:") || (starts_with_str(
        lower,
        "warning: git tree ",
    ) && ends_with_str(lower, " is dirty")) || contains_str(
        lower,
        "nixos_rebuild.process: captured output",
    ) || contains_str(lower, "nixos-rebuild.process: captured output") || contains_str(
        lower,
        "captured output with stdout=",
    ) {
        return false;
    }
    starts_with_str(lower, "warning:") || starts_with_str(lower, "error:") || starts_with_str(
        lower,
        "fatal:",
    ) || contains_str(lower, "error:") || contains_str(lower, "failed")
}

/// Where the first whitespace or quote stands at or after `i`, else the end.
pub open spec fn name_end(s: Seq<char>, i: int) -> int
    decreases s.len() - i,
{
    if i < 0 || i >= s.len() {
        s.len() as int
    } else if is_ws(s[i]) || s[i] == '\'' || s[i] == '"' {
        i
    } else {
        name_end(s, i + 1)
    }
}

/// The package name of the first store path in `text`: the path's last
/// part up to whitespace or a quote, without `.drv` and without its hash.
pub open spec fn store_name_of(text: Seq<char>) -> Option<Seq<char>> {
    match find(text, "/nix/store/"@) {
        None => None,
        Some(i) => {
            let rest = text.skip(i + 11);
            let name = trim_end_str(rest.take(name_end(rest, 0)), ".drv"@);
            match find_char_from(name, '-', 0) {
                Some(j) => Some(name.skip(j + 1)),
                None => Some(name),
            }
        },
    }
}

pub fn store_name(text: &str) -> (r: Option<String>)
    ensures
        match store_name_of(text@) {
            Some(n) => r matches Some(s) && s@ == n,
            None => r is None,
        },
{
    proof {
        reveal_strlit("/nix/store/");
        reveal_strlit(".drv");
    }
    let v = chars_of(text);
    let marker = chars_of("/nix/store/");
    let index = match find_from_exec(v.as_slice(), marker.as_slice(), 0) {
        Some(i) => i,
        None => return None,
    };
    proof {
        crate::text::lemma_find_from_some(v@, marker@, 0);
        assert(marker@.len() == 11);
        assert(occurs_at(v@, marker@, index as int));
    }
    let vl = v.len();
    assert(index + 11 <= vl);
    let start = index + 11;
    let rest_s = string_of_range(v.as_slice(), start, v.len());
    let rest = chars_of(rest_s.as_str());
    assert(rest@ =~= v@.skip(start as int));
    let mut end: usize = 0;
    while end < rest.len() && !(is_whitespace(rest[end]) || rest[end] == '\'' || rest[end] == '"')
        invariant
            end <= rest.len(),
            name_end(rest@, 0) == name_end(rest@, end as int),
        decreases rest.len() - end,
    {
        end = end + 1;
    }
    let head_s = string_of_range(rest.as_slice(), 0, end);
    let head = chars_of(head_s.as_str());
    assert(head@ =~= rest@.take(end as int));
    let drv = chars_of(".drv");
    let name = trim_end_str_exec(head.as_slice(), drv.as_slice());
    proof {
        crate::text::lemma_find_char_from(name@, '-', 0);
    }
    let nl = name.len();
    match find_char_from_exec(name.as_slice(), '-', 0) {
        Some(j) => Some(string_of_range(name.as_slice(), j + 1, nl)),
        None => Some(string_of(name.as_slice())),
    }
}

/// A build activity's text made short: the package of its store path, or
/// the configuration it evaluates, or the text without `git+file://`.
pub open spec fn compact_text(text: Seq<char>) -> Seq<char> {
    let trimmed = trim_char(trim_char(trim(text), '\''), '"');
    match store_name_of(trimmed) {
        Some(n) => n,
        None => match find(trimmed, "nixosConfigurations."@) {
            Some(i) => replace_all(
                replace_all(
                    replace_all(
                        replace_all(
                            trim_char(trim_char(trimmed.skip(i), '\''), '"'),
                            "nixosConfigurations."@,
                            ""@,
                        ),
                        ".config.system.build."@,
                        "."@,
                    ),
                    "\"."@,
                    "."@,
                ),
                ".\""@,
                "."@,
            ),
            None => replace_all(trimmed, "git+file://"@, ""@),
        },
    }
}

pub fn compact_activity_text(text: &str) -> (r: String)
    ensures
        r@ == compact_text(text@),
{
    proof {
        reveal_strlit("nixosConfigurations.");
        reveal_strlit(".config.system.build.");
        reveal_strlit("\".");
        reveal_strlit(".\"");
        reveal_strlit("git+file://");
    }
    let t0 = trim_str(text);
    let t1 = trim_char_exec(t0.as_str(), '\'');
    let trimmed = trim_char_exec(t1.as_str(), '"');
    if let Some(name) = store_name(trimmed.as_str()) {
        return name;
    }
    let v = chars_of(trimmed.as_str());
    let needle = chars_of("nixosConfigurations.");
    match find_from_exec(v.as_slice(), needle.as_slice(), 0) {
        Some(i) => {
            proof {
                crate::text::lemma_find_from_some(v@, needle@, 0);
            }
            let tail = string_of_range(v.as_slice(), i, v.len());
            assert(tail@ =~= trimmed@.skip(i as int));
            let a = trim_char_exec(tail.as_str(), '\'');
            let b = trim_char_exec(a.as_str(), '"');
            let c = replace_all_exec(b.as_str(), "nixosConfigurations.", "");
            let d = replace_all_exec(c.as_str(), ".config.system.build.", ".");
            let e = replace_all_exec(d.as_str(), "\".", ".");
            replace_all_exec(e.as_str(), ".\"", ".")
        },
        None => replace_all_exec(trimmed.as_str(), "git+file://", ""),
    }
}


pub open spec fn category_texts(counts: Seq<(BuildCategory, nat)>) -> Seq<Seq<char>> {
    counts.map_values(|c: (BuildCategory, nat)| c.0.label_spec() + ":"@ + decimal(c.1))
}

/// The first line of the build graph: phase and counters.
pub open spec fn graph_header(s: BuildView) -> Seq<char> {
    "build graph  phase:"@ + (if s.phase.len() == 0 {
        "building"@
    } else {
        s.phase
    }) + " active:"@ + decimal(s.running.len()) + " done:"@ + decimal(s.completed) + " failed:"@
        + decimal(s.failed) + " downloads:"@ + decimal(s.downloads) + " source:"@ + decimal(
        s.source_builds,
    ) + " cache:"@ + decimal(s.binary_substitutes)
}

/// `n` levels of indentation.
pub open spec fn indent(n: nat) -> Seq<char>
    decreases n,
{
    if n == 0 {
        Seq::empty()
    } else {
        indent((n - 1) as nat) + "    "@
    }
}

/// Line `i` of a route: indented by its depth, `` `-- `` on the last
/// derivation and `|--` before it.
pub open spec fn route_line(g: GraphView, p: Seq<Seq<char>>, i: int) -> Seq<char> {
    indent(i as nat) + (if i + 1 == p.len() {
        "`--"@
    } else {
        "|--"@
    }) + " "@ + g.display_label(store_key(p[i]))
}

/// At most `max` derivations of the route, then how many more there are.
pub open spec fn route_lines(g: GraphView, p: Seq<Seq<char>>, max: nat) -> Seq<Seq<char>> {
    let shown: nat = if p.len() < max {
        p.len()
    } else {
        max
    };
    Seq::new(shown, |i: int| route_line(g, p, i)) + (if p.len() > max {
        seq![indent(max) + " `-- ... "@ + decimal((p.len() - max) as nat) + " more dependencies"@]
    } else {
        Seq::empty()
    })
}

/// Up to four active derivations, shortened, under a heading.
pub open spec fn active_lines(active: Seq<Seq<char>>) -> Seq<Seq<char>> {
    if active.len() == 0 {
        Seq::empty()
    } else {
        seq!["active derivations:"@] + active.take(if active.len() < 4 {
            active.len() as int
        } else {
            4
        }).map_values(|p: Seq<char>| "  - "@ + compact_text(p))
    }
}

/// What stands under "Dependency Graph:": the route to an active
/// derivation, or what is being waited for and the active derivations.
pub open spec fn dependency_section(
    g: GraphView,
    active: Seq<Seq<char>>,
    route: Option<Seq<Seq<char>>>,
    depth: nat,
) -> Seq<Seq<char>> {
    match route {
        Some(p) => route_lines(g, p, if depth > 0 {
            depth
        } else {
            1
        }),
        None => seq![
            if g.roots.len() > 0 {
                "`-- waiting for an active derivation in the loaded graph"@
            } else {
                "`-- waiting for nix-store derivation graph"@
            },
        ] + active_lines(active),
    }
}

/// The build graph's lines before they are fitted to the width; the
/// slowest activity is shown with the time it has run, and `route` is the
/// route to an active derivation that the graph shows.
pub open spec fn graph_lines_raw(
    s: BuildView,
    slowest_ms: nat,
    depth: nat,
    route: Option<Seq<Seq<char>>>,
) -> Seq<Seq<char>> {
    let cats = category_texts(counts_from(s.running, 0));
    seq![
        graph_header(s),
        "categories: "@ + (if cats.len() == 0 {
            "none"@
        } else {
            join(cats, " "@)
        }),
        "Dependency Graph:"@,
    ] + dependency_section(s.graph, active_drvs(s.running), route, depth) + (if s.running.len() > 0 {
        seq![
            "slowest: "@ + duration_text(slowest_ms) + " "@ + compact_text(
                s.running[earliest_index(s.running)].text,
            ) + " ["@ + s.running[earliest_index(s.running)].category.label_spec() + "]"@,
        ]
    } else {
        Seq::empty()
    }) + (if s.errors.len() > 0 {
        seq!["errors: "@ + decimal(s.errors.len())]
    } else {
        Seq::empty()
    }) + (if s.warnings.len() > 0 {
        seq!["warnings: "@ + decimal(s.warnings.len())]
    } else {
        Seq::empty()
    })
}

pub open spec fn graph_lines(
    s: BuildView,
    width: nat,
    slowest_ms: nat,
    depth: nat,
    route: Option<Seq<Seq<char>>>,
) -> Seq<Seq<char>> {
    let w: nat = if width < 180 {
        width
    } else {
        180
    };
    graph_lines_raw(s, slowest_ms, depth, route).map_values(|l: Seq<char>| truncated(l, w))
}

fn indent_exec(n: usize) -> (r: String)
    ensures
        r@ == indent(n as nat),
{
    let mut out = String::new();
    let mut i: usize = 0;
    while i < n
        invariant
            i <= n,
            out@ == indent(i as nat),
        decreases n - i,
    {
        out.append("    ");
        i = i + 1;
    }
    out
}

fn route_section(g: &DependencyGraph, p: &Vec<String>, max: usize) -> (r: Vec<String>)
    requires
        g@.wf(),
    ensures
        strs(r@) == route_lines(g@, strs(p@), max as nat),
{
    let ghost ps = strs(p@);
    let shown: usize = if p.len() < max {
        p.len()
    } else {
        max
    };
    let mut out: Vec<String> = Vec::new();
    let mut i: usize = 0;
    assert(strs(out@) =~= Seq::new(0, |x: int| route_line(g@, ps, x)));
    while i < shown
        invariant
            ps == strs(p@),
            g@.wf(),
            shown <= p.len(),
            i <= shown,
            strs(out@) == Seq::new(i as nat, |x: int| route_line(g@, ps, x)),
        decreases shown - i,
    {
        let mut line = indent_exec(i);
        if i + 1 == p.len() {
            line.append("`--");
        } else {
            line.append("|--");
        }
        line.append(" ");
        line.append(g.label(p[i].as_str()).as_str());
        let ghost before = out@;
        proof {
            assert(ps[i as int] == p@[i as int]@);
        }
        out.push(line);
        proof {
            lemma_strs_push(before, line);
        }
        i = i + 1;
        assert(strs(out@) =~= Seq::new(i as nat, |x: int| route_line(g@, ps, x)));
    }
    if p.len() > max {
        let mut line = indent_exec(max);
        line.append(" `-- ... ");
        crate::text::push_decimal(&mut line, (p.len() - max) as u64);
        line.append(" more dependencies");
        let ghost before = out@;
        out.push(line);
        proof {
            lemma_strs_push(before, line);
        }
    }
    out
}

fn active_section(active: &Vec<String>) -> (r: Vec<String>)
    ensures
        strs(r@) == active_lines(strs(active@)),
{
    let ghost a = strs(active@);
    let mut out: Vec<String> = Vec::new();
    if active.len() == 0 {
        assert(strs(out@) =~= Seq::<Seq<char>>::empty());
        return out;
    }
    out.push("active derivations:".to_owned());
    let n: usize = if active.len() < 4 {
        active.len()
    } else {
        4
    };
    let mut i: usize = 0;
    assert(strs(out@) =~= seq!["active derivations:"@] + a.take(0).map_values(
        |p: Seq<char>| "  - "@ + compact_text(p),
    ));
    while i < n
        invariant
            a == strs(active@),
            n <= active.len(),
            i <= n,
            strs(out@) == seq!["active derivations:"@] + a.take(i as int).map_values(
                |p: Seq<char>| "  - "@ + compact_text(p),
            ),
        decreases n - i,
    {
        let line = concat("  - ", compact_activity_text(active[i].as_str()).as_str());
        let ghost before = out@;
        out.push(line);
        proof {
            lemma_strs_push(before, line);
            assert(a[i as int] == active@[i as int]@);
            assert(a.take(i + 1).map_values(|p: Seq<char>| "  - "@ + compact_text(p)) =~= a.take(
                i as int,
            ).map_values(|p: Seq<char>| "  - "@ + compact_text(p)).push("  - "@ + compact_text(a[i as int])));
        }
        i = i + 1;
        assert(strs(out@) =~= seq!["active derivations:"@] + a.take(i as int).map_values(
            |p: Seq<char>| "  - "@ + compact_text(p),
        ));
    }
    out
}

fn push_count(out: &mut String, label: &str, n: usize)
    ensures
        final(out)@ == old(out)@ + label@ + decimal(n as nat),
{
    out.append(label);
    crate::text::push_decimal(out, n as u64);
}

fn graph_header_line(state: &BuildState) -> (r: String)
    ensures
        r@ == graph_header(state@),
{
    let mut out = "build graph  phase:".to_owned();
    if chars_of(state.phase.as_str()).len() == 0 {
        out.append("building");
    } else {
        out.append(state.phase.as_str());
    }
    push_count(&mut out, " active:", state.running.len());
    push_count(&mut out, " done:", state.completed);
    push_count(&mut out, " failed:", state.failed);
    push_count(&mut out, " downloads:", state.downloads);
    push_count(&mut out, " source:", state.source_builds);
    push_count(&mut out, " cache:", state.binary_substitutes);
    out
}

/// The lines of the live build display, each at most `width` characters
/// (and never more than 180); `slowest_ms` is how long the slowest running
/// activity has run, and at most `depth` derivations of the route to an
/// active derivation are drawn.
#[verifier::rlimit(40)]
pub fn build_graph_lines_at(state: &BuildState, width: usize, slowest_ms: u64, depth: usize) -> (r: Vec<
    String,
>)
    requires
        state@.graph.wf(),
    ensures
        exists|route: Option<Seq<Seq<char>>>|
            state@.graph.is_active_route(active_drvs(state@.running), route) && strs(r@) == graph_lines(
                state@,
                width as nat,
                slowest_ms as nat,
                depth as nat,
                route,
            ),
        forall|i: int| 0 <= i < r@.len() ==> (#[trigger] r@[i])@.len() <= width,
{
    let w: usize = if width < 180 { width } else { 180 };
    let mut raw: Vec<String> = Vec::new();
    raw.push(graph_header_line(state));
    let counts = state.running_by_category();
    let mut texts: Vec<String> = Vec::new();
    let mut k: usize = 0;
    while k < counts.len()
        invariant
            k <= counts.len(),
            strs(texts@) == category_texts(count_views(counts@).take(k as int)),
        decreases counts.len() - k,
    {
        let (c, n) = counts[k];
        let mut t = c.label().to_owned();
        push_count(&mut t, ":", n);
        let ghost before = texts@;
        texts.push(t);
        proof {
            lemma_strs_push(before, t);
            assert(count_views(counts@).take(k + 1) =~= count_views(counts@).take(k as int).push(
                count_views(counts@)[k as int],
            ));
            assert(category_texts(count_views(counts@).take(k + 1)) =~= category_texts(
                count_views(counts@).take(k as int),
            ).push(category_texts(count_views(counts@))[k as int]));
        }
        k = k + 1;
    }
    assert(count_views(counts@).take(k as int) =~= count_views(counts@));
    let mut cat_line = "categories: ".to_owned();
    if texts.len() == 0 {
        cat_line.append("none");
    } else {
        cat_line.append(join_strings(texts.as_slice(), " ").as_str());
    }
    raw.push(cat_line);
    raw.push("Dependency Graph:".to_owned());
    let ghost cats = category_texts(counts_from(state@.running, 0));
    let ghost prefix3 = seq![
        graph_header(state@),
        "categories: "@ + (if cats.len() == 0 {
            "none"@
        } else {
            join(cats, " "@)
        }),
        "Dependency Graph:"@,
    ];
    assert(strs(raw@) =~= prefix3);
    let active = state.active_derivation_paths();
    let route = state.dependency_graph.active_path(active.as_slice());
    let ghost route_v: Option<Seq<Seq<char>>> = match &route {
        Some(p) => Some(strs(p@)),
        None => None,
    };
    let section: Vec<String> = match &route {
        Some(p) => route_section(&state.dependency_graph, p, if depth > 0 {
            depth
        } else {
            1
        }),
        None => {
            let mut s: Vec<String> = Vec::new();
            if state.dependency_graph.roots_loaded() {
                s.push("`-- waiting for an active derivation in the loaded graph".to_owned());
            } else {
                s.push("`-- waiting for nix-store derivation graph".to_owned());
            }
            let rest = active_section(&active);
            let ghost head = s@;
            crate::text::extend_strings(&mut s, rest.as_slice());
            s
        },
    };
    assert(strs(section@) == dependency_section(
        state@.graph,
        active_drvs(state@.running),
        route_v,
        depth as nat,
    ));
    crate::text::extend_strings(&mut raw, section.as_slice());
    let ghost base = strs(raw@);
    assert(base == prefix3 + dependency_section(
        state@.graph,
        active_drvs(state@.running),
        route_v,
        depth as nat,
    ));
    if let Some(a) = state.slowest_active() {
        proof {
            let k = choose|k: int|
                #![trigger activity_views(state.running@)[k]]
                is_earliest(activity_views(state.running@), k) && a@ == activity_views(
                    state.running@,
                )[k];
            lemma_earliest_unique(activity_views(state.running@), k);
        }
        let mut line = "slowest: ".to_owned();
        line.append(format_duration(slowest_ms).as_str());
        line.append(" ");
        line.append(compact_activity_text(a.text.as_str()).as_str());
        line.append(" [");
        line.append(a.category.label());
        line.append("]");
        raw.push(line);
    }
    let ghost with_slowest = strs(raw@);
    if state.errors.len() > 0 {
        let mut line = "errors: ".to_owned();
        crate::text::push_decimal(&mut line, state.errors.len() as u64);
        raw.push(line);
    }
    let ghost with_errors = strs(raw@);
    if state.warnings.len() > 0 {
        let mut line = "warnings: ".to_owned();
        crate::text::push_decimal(&mut line, state.warnings.len() as u64);
        raw.push(line);
    }
    assert(strs(raw@) =~= graph_lines_raw(state@, slowest_ms as nat, depth as nat, route_v));
    let mut out: Vec<String> = Vec::new();
    let mut i: usize = 0;
    while i < raw.len()
        invariant
            i <= raw.len(),
            w == (if width < 180 { width } else { 180usize }),
            strs(out@) == strs(raw@).take(i as int).map_values(|l: Seq<char>| truncated(l, w as nat)),
            forall|j: int| 0 <= j < out@.len() ==> (#[trigger] out@[j])@.len() <= width,
        decreases raw.len() - i,
    {
        let t = truncate_line(raw[i].as_str(), w);
        let ghost before = out@;
        out.push(t);
        proof {
            lemma_strs_push(before, t);
            assert(strs(raw@).take(i + 1) =~= strs(raw@).take(i as int).push(strs(raw@)[i as int]));
        }
        i = i + 1;
        assert(strs(out@) =~= strs(raw@).take(i as int).map_values(|l: Seq<char>| truncated(l, w as nat)));
    }
    assert(strs(raw@).take(i as int) =~= strs(raw@));
    assert(strs(out@) == graph_lines(state@, width as nat, slowest_ms as nat, depth as nat, route_v));
    out
}

/// The build display with the slowest activity shown as just started and
/// a route drawn at most twelve derivations deep.
pub fn build_graph_lines(state: &BuildState, width: usize) -> (r: Vec<String>)
    requires
        state@.graph.wf(),
    ensures
        exists|route: Option<Seq<Seq<char>>>|
            state@.graph.is_active_route(active_drvs(state@.running), route) && strs(r@) == graph_lines(
                state@,
                width as nat,
                0,
                12,
                route,
            ),
        forall|i: int| 0 <= i < r@.len() ==> (#[trigger] r@[i])@.len() <= width,
{
    build_graph_lines_at(state, width, 0, 12)
}


/// What a lifecycle command shows before it starts.
#[derive(Clone, Debug)]
pub struct RebuildHeader {
    pub command: String,
    pub target: FlakeTarget,
    pub git: GitSummary,
    pub current: GenerationInfo,
    pub log_path: String,
}

/// The outcome of a lifecycle command.
#[derive(Clone, Debug)]
pub struct RebuildReport {
    pub command: String,
    pub target: FlakeTarget,
    pub result: String,
    pub store_path: Option<String>,
    pub current: GenerationInfo,
    pub new_generation: Option<u64>,
    pub build: BuildState,
    pub diff: Option<ClosureDiff>,
    pub activation: Option<ActivationImpact>,
    pub reboot: String,
    pub rollback: String,
    pub log_path: String,
}

/// The closing lines of a report in the text modes.
pub open spec fn finish_text(r: RebuildReport) -> Seq<Seq<char>> {
    seq!["✓ result: "@ + r.result@] + (match r.store_path {
        Some(p) => seq!["▣ store path: "@ + p@],
        None => Seq::empty(),
    }) + (match r.new_generation {
        Some(g) => seq!["№ generation: "@ + decimal(g as nat)],
        None => Seq::empty(),
    }) + seq!["↻ reboot: "@ + r.reboot@, "↶ rollback: "@ + r.rollback@, "▣ log: "@ + r.log_path@]
}

pub fn finish_lines(report: &RebuildReport) -> (r: Vec<String>)
    ensures
        strs(r@) == finish_text(*report),
{
    let mut r: Vec<String> = Vec::new();
    r.push(concat("✓ result: ", report.result.as_str()));
    if let Some(p) = &report.store_path {
        r.push(concat("▣ store path: ", p.as_str()));
    }
    if let Some(g) = report.new_generation {
        r.push(concat("№ generation: ", u64_to_string(g).as_str()));
    }
    r.push(concat("↻ reboot: ", report.reboot.as_str()));
    r.push(concat("↶ rollback: ", report.rollback.as_str()));
    r.push(concat("▣ log: ", report.log_path.as_str()));
    assert(strs(r@) =~= finish_text(*report));
    r
}

/// The lines under the heading in the text modes: Git state, the current
/// generation as far as it is known, and the log path.
pub open spec fn header_text(h: RebuildHeader) -> Seq<Seq<char>> {
    (if h.git.repository {
        seq![
            "⎇ git: "@ + (match h.git.branch {
                Some(b) => b@,
                None => "detached"@,
            }) + " ("@ + git_status_text(h.git) + ")"@,
        ]
    } else {
        seq!["⎇ git: not a repository"@]
    }) + (match h.current.generation {
        Some(g) => seq!["№ current generation: "@ + decimal(g as nat)],
        None => Seq::empty(),
    }) + (match h.current.nixos_version {
        Some(v) => seq!["◇ current NixOS: "@ + v@],
        None => Seq::empty(),
    }) + (match h.current.kernel_version {
        Some(k) => seq!["● current kernel: "@ + k@],
        None => Seq::empty(),
    }) + seq!["▣ log: "@ + h.log_path@]
}

pub fn header_detail_lines(header: &RebuildHeader) -> (r: Vec<String>)
    ensures
        strs(r@) == header_text(*header),
{
    let mut r: Vec<String> = Vec::new();
    if header.git.repository {
        let mut line = "⎇ git: ".to_owned();
        match &header.git.branch {
            Some(b) => line.append(b.as_str()),
            None => line.append("detached"),
        }
        line.append(" (");
        line.append(git_status_label(&header.git).as_str());
        line.append(")");
        r.push(line);
    } else {
        r.push("⎇ git: not a repository".to_owned());
    }
    if let Some(g) = header.current.generation {
        r.push(concat("№ current generation: ", u64_to_string(g).as_str()));
    }
    if let Some(v) = &header.current.nixos_version {
        r.push(concat("◇ current NixOS: ", v.as_str()));
    }
    if let Some(k) = &header.current.kernel_version {
        r.push(concat("● current kernel: ", k.as_str()));
    }
    r.push(concat("▣ log: ", header.log_path.as_str()));
    assert(strs(r@) =~= header_text(*header));
    r
}

pub open spec fn count_line(label: Seq<char>, items: Seq<Seq<char>>) -> Seq<Seq<char>> {
    if items.len() == 0 {
        Seq::empty()
    } else {
        seq!["  "@ + label + ": "@ + decimal(items.len())]
    }
}

pub open spec fn indented_first(items: Seq<Seq<char>>, n: nat) -> Seq<Seq<char>> {
    (if items.len() <= n { items } else { items.take(n as int) }).map_values(|l: Seq<char>| "    "@ + l)
}

pub open spec fn diff_counts(d: crate::impact::ClosureDiffView) -> Seq<Seq<char>> {
    count_line("additions"@, d.additions) + count_line("removals"@, d.removals) + count_line(
        "upgrades"@,
        d.upgrades,
    ) + count_line("downgrades"@, d.downgrades) + count_line("other changes"@, d.changes)
}

pub open spec fn diff_important(d: crate::impact::ClosureDiffView) -> Seq<Seq<char>> {
    if d.important.len() == 0 {
        seq!["  important: none detected"@]
    } else {
        seq!["  important:"@] + indented_first(d.important, 12)
    }
}

pub open spec fn diff_tail(d: crate::impact::ClosureDiffView) -> Seq<Seq<char>> {
    let changed = !(d.additions.len() == 0 && d.removals.len() == 0 && d.upgrades.len() == 0
        && d.downgrades.len() == 0 && d.changes.len() == 0);
    (match d.size_delta {
        Some(s) => seq!["  "@ + s],
        None => Seq::empty(),
    }) + (if !changed && d.size_delta is None {
        seq!["  no package changes detected"@]
    } else {
        Seq::empty()
    })
}

/// What the text modes show of a closure diff.
pub open spec fn diff_summary(d: crate::impact::ClosureDiffView) -> Seq<Seq<char>> {
    match d.unavailable {
        Some(reason) => seq!["changes:"@, "  unavailable: "@ + reason],
        None => seq!["changes:"@] + diff_counts(d) + diff_important(d) + diff_tail(d),
    }
}

fn push_line(out: &mut Vec<String>, line: String)
    ensures
        strs(final(out)@) == strs(old(out)@).push(line@),
{
    let ghost prev = out@;
    out.push(line);
    proof {
        lemma_strs_push(prev, line);
    }
}

fn push_count_line(out: &mut Vec<String>, label: &str, items: &Vec<String>)
    ensures
        strs(final(out)@) == strs(old(out)@) + count_line(label@, strs(items@)),
{
    if items.len() > 0 {
        let mut l = concat3("  ", label, ": ");
        crate::text::push_decimal(&mut l, items.len() as u64);
        push_line(out, l);
    } else {
        assert(strs(out@) + count_line(label@, strs(items@)) =~= strs(out@));
    }
}

fn push_indented_first(out: &mut Vec<String>, items: &Vec<String>, n: usize)
    ensures
        strs(final(out)@) == strs(old(out)@) + indented_first(strs(items@), n as nat),
{
    let ghost start = strs(out@);
    let ghost want = indented_first(strs(items@), n as nat);
    let end: usize = if items.len() <= n { items.len() } else { n };
    let mut i: usize = 0;
    while i < end
        invariant
            i <= end <= items.len(),
            end == (if items.len() <= n { items.len() } else { n }),
            want == indented_first(strs(items@), n as nat),
            want.len() == end,
            strs(out@) == start + want.take(i as int),
        decreases end - i,
    {
        let l = concat("    ", items[i].as_str());
        push_line(out, l);
        assert(want.take(i + 1) =~= want.take(i as int).push(l@));
        i = i + 1;
    }
    assert(want.take(end as int) =~= want);
}

fn push_diff_counts(out: &mut Vec<String>, diff: &ClosureDiff)
    ensures
        strs(final(out)@) == strs(old(out)@) + diff_counts(diff@),
{
    let ghost s0 = strs(out@);
    push_count_line(out, "additions", &diff.additions);
    push_count_line(out, "removals", &diff.removals);
    push_count_line(out, "upgrades", &diff.upgrades);
    push_count_line(out, "downgrades", &diff.downgrades);
    push_count_line(out, "other changes", &diff.changes);
    assert(strs(out@) =~= s0 + diff_counts(diff@));
}

fn push_diff_important(out: &mut Vec<String>, diff: &ClosureDiff)
    ensures
        strs(final(out)@) == strs(old(out)@) + diff_important(diff@),
{
    let ghost s0 = strs(out@);
    if diff.important.len() == 0 {
        push_line(out, "  important: none detected".to_owned());
    } else {
        push_line(out, "  important:".to_owned());
        push_indented_first(out, &diff.important, 12);
    }
    assert(strs(out@) =~= s0 + diff_important(diff@));
}

fn push_diff_tail(out: &mut Vec<String>, diff: &ClosureDiff)
    ensures
        strs(final(out)@) == strs(old(out)@) + diff_tail(diff@),
{
    let ghost s0 = strs(out@);
    if let Some(size) = &diff.size_delta {
        push_line(out, concat("  ", size.as_str()));
    }
    if !diff.changed() && diff.size_delta.is_none() {
        push_line(out, "  no package changes detected".to_owned());
    }
    assert(strs(out@) =~= s0 + diff_tail(diff@));
}

/// The closure diff as the text modes print it.
pub fn diff_summary_lines(diff: &ClosureDiff) -> (r: Vec<String>)
    ensures
        strs(r@) == diff_summary(diff@),
{
    let mut out: Vec<String> = Vec::new();
    push_line(&mut out, "changes:".to_owned());
    if let Some(reason) = &diff.unavailable {
        push_line(&mut out, concat("  unavailable: ", reason.as_str()));
        assert(strs(out@) =~= diff_summary(diff@));
        return out;
    }
    push_diff_counts(&mut out, diff);
    push_diff_important(&mut out, diff);
    push_diff_tail(&mut out, diff);
    assert(strs(out@) =~= diff_summary(diff@));
    out
}

pub open spec fn units_line(label: Seq<char>, items: Seq<Seq<char>>) -> Seq<char> {
    if items.len() == 0 {
        "  "@ + label + ": none"@
    } else {
        "  "@ + label + ": "@ + join(items, ", "@)
    }
}

/// What the text modes show of an activation's impact.
pub open spec fn activation_summary(a: crate::impact::ActivationView) -> Seq<Seq<char>> {
    seq!["activation impact:"@] + (match a.unavailable {
        Some(reason) => seq!["  unavailable: "@ + reason],
        None => Seq::empty(),
    }) + seq![
        units_line("stopped"@, a.stopped),
        units_line("started"@, a.started),
        units_line("restarted"@, a.restarted),
        units_line("reloaded"@, a.reloaded),
        units_line("skipped"@, a.skipped),
        units_line("failed"@, a.failed),
    ] + (if a.caveats.len() == 0 {
        seq!["  caveats: none"@]
    } else {
        seq!["  caveats:"@] + indented_first(a.caveats, 8)
    })
}

fn units_text(label: &str, items: &Vec<String>) -> (r: String)
    ensures
        r@ == units_line(label@, strs(items@)),
{
    if items.len() == 0 {
        concat3("  ", label, ": none")
    } else {
        let mut l = concat3("  ", label, ": ");
        l.append(join_strings(items.as_slice(), ", ").as_str());
        l
    }
}

/// The activation impact as the text modes print it.
pub fn activation_summary_lines(impact: &ActivationImpact) -> (r: Vec<String>)
    ensures
        strs(r@) == activation_summary(impact@),
{
    let mut out: Vec<String> = Vec::new();
    push_line(&mut out, "activation impact:".to_owned());
    if let Some(reason) = &impact.unavailable {
        push_line(&mut out, concat("  unavailable: ", reason.as_str()));
    }
    push_line(&mut out, units_text("stopped", &impact.stopped));
    push_line(&mut out, units_text("started", &impact.started));
    push_line(&mut out, units_text("restarted", &impact.restarted));
    push_line(&mut out, units_text("reloaded", &impact.reloaded));
    push_line(&mut out, units_text("skipped", &impact.skipped));
    push_line(&mut out, units_text("failed", &impact.failed));
    if impact.caveats.len() == 0 {
        push_line(&mut out, "  caveats: none".to_owned());
    } else {
        push_line(&mut out, "  caveats:".to_owned());
        push_indented_first(&mut out, &impact.caveats, 8);
    }
    assert(strs(out@) =~= activation_summary(impact@));
    out
}


/// A count as a JSON number.
pub open spec fn jnum(n: nat) -> JsonView {
    JsonView::Number(decimal(n))
}

/// A string, or `null` when there is none.
pub open spec fn jstr_opt(o: Option<Seq<char>>) -> JsonView {
    match o {
        Some(s) => JsonView::Str(s),
        None => JsonView::Null,
    }
}

/// A list of strings.
pub open spec fn jstrs(v: Seq<Seq<char>>) -> JsonView {
    JsonView::Array(v.map_values(|s: Seq<char>| JsonView::Str(s)))
}

/// The `diff` member of the report: the counts of each kind of change,
/// the important changes, the size delta and why the diff is missing.
pub open spec fn diff_json(d: ClosureDiffView) -> JsonView {
    JsonView::Object(
        seq![
            ("additions"@, jnum(d.additions.len())),
            ("changes"@, jnum(d.changes.len())),
            ("downgrades"@, jnum(d.downgrades.len())),
            ("important"@, jstrs(d.important)),
            ("removals"@, jnum(d.removals.len())),
            ("size_delta"@, jstr_opt(d.size_delta)),
            ("unavailable"@, jstr_opt(d.unavailable)),
            ("upgrades"@, jnum(d.upgrades.len())),
        ],
    )
}

/// The `activation` member of the report: the units of each kind and
/// why dry activation is missing.
pub open spec fn activation_json(a: ActivationView) -> JsonView {
    JsonView::Object(
        seq![
            ("caveats"@, jstrs(a.caveats)),
            ("failed"@, jstrs(a.failed)),
            ("reloaded"@, jstrs(a.reloaded)),
            ("restarted"@, jstrs(a.restarted)),
            ("skipped"@, jstrs(a.skipped)),
            ("started"@, jstrs(a.started)),
            ("stopped"@, jstrs(a.stopped)),
            ("unavailable"@, jstr_opt(a.unavailable)),
        ],
    )
}

/// The `build` member of the report: the build's counters.
pub open spec fn build_json(s: BuildView) -> JsonView {
    JsonView::Object(
        seq![
            ("binary_substitutes"@, jnum(s.binary_substitutes)),
            ("completed"@, jnum(s.completed)),
            ("downloads"@, jnum(s.downloads)),
            ("failed"@, jnum(s.failed)),
            ("parser_fallback"@, JsonView::Bool(s.parser_fallback)),
            ("running"@, jnum(s.running.len())),
            ("source_builds"@, jnum(s.source_builds)),
        ],
    )
}

/// The report that `--ui json` prints, keys in the order `serde_json`'s map
/// keeps them.
pub open spec fn report_json_view(r: RebuildReport) -> JsonView {
    JsonView::Object(
        seq![
            (
                "activation"@,
                match r.activation {
                    Some(a) => activation_json(a@),
                    None => JsonView::Null,
                },
            ),
            ("build"@, build_json(r.build@)),
            ("command"@, JsonView::Str(r.command@)),
            (
                "current_generation"@,
                match r.current.generation {
                    Some(g) => jnum(g as nat),
                    None => JsonView::Null,
                },
            ),
            (
                "diff"@,
                match r.diff {
                    Some(d) => diff_json(d@),
                    None => JsonView::Null,
                },
            ),
            ("log_path"@, JsonView::Str(r.log_path@)),
            (
                "new_generation"@,
                match r.new_generation {
                    Some(g) => jnum(g as nat),
                    None => JsonView::Null,
                },
            ),
            ("reboot"@, JsonView::Str(r.reboot@)),
            ("result"@, JsonView::Str(r.result@)),
            ("rollback"@, JsonView::Str(r.rollback@)),
            ("store_path"@, jstr_opt(opt_view(r.store_path))),
            ("target"@, JsonView::Str(r.target.reference_spec())),
        ],
    )
}

fn jnum_exec(n: u64) -> (r: JsonValue)
    ensures
        json_view(r) == jnum(n as nat),
{
    JsonValue::Number(u64_to_string(n))
}

fn jstr_opt_exec(o: &Option<String>) -> (r: JsonValue)
    ensures
        json_view(r) == jstr_opt(opt_view(*o)),
{
    match o {
        Some(s) => JsonValue::Str(s.clone()),
        None => JsonValue::Null,
    }
}

fn jstrs_exec(v: &Vec<String>) -> (r: JsonValue)
    ensures
        json_view(r) == jstrs(strs(v@)),
{
    let mut items: Vec<JsonValue> = Vec::new();
    let mut i: usize = 0;
    while i < v.len()
        invariant
            i <= v.len(),
            items@.len() == i,
            forall|k: int| 0 <= k < i ==> json_view(#[trigger] items@[k]) == JsonView::Str(v@[k]@),
        decreases v.len() - i,
    {
        items.push(JsonValue::Str(v[i].clone()));
        i = i + 1;
    }
    proof {
        lemma_json_views(items@);
        assert(json_views(items@) =~= strs(v@).map_values(|s: Seq<char>| JsonView::Str(s)));
    }
    JsonValue::Array(items)
}

fn entry(key: &str, value: JsonValue) -> (r: (String, JsonValue))
    ensures
        r.0@ == key@,
        r.1 == value,
{
    (key.to_owned(), value)
}

fn diff_value(d: &ClosureDiff) -> (r: JsonValue)
    ensures
        json_view(r) == diff_json(d@),
{
    let mut e: Vec<(String, JsonValue)> = Vec::new();
    e.push(entry("additions", jnum_exec(d.additions.len() as u64)));
    e.push(entry("changes", jnum_exec(d.changes.len() as u64)));
    e.push(entry("downgrades", jnum_exec(d.downgrades.len() as u64)));
    e.push(entry("important", jstrs_exec(&d.important)));
    e.push(entry("removals", jnum_exec(d.removals.len() as u64)));
    e.push(entry("size_delta", jstr_opt_exec(&d.size_delta)));
    e.push(entry("unavailable", jstr_opt_exec(&d.unavailable)));
    e.push(entry("upgrades", jnum_exec(d.upgrades.len() as u64)));
    proof {
        lemma_entry_views(e@);
        assert(entry_views(e@) =~= match diff_json(d@) {
            JsonView::Object(es) => es,
            _ => Seq::empty(),
        });
    }
    JsonValue::Object(e)
}

fn activation_value(a: &ActivationImpact) -> (r: JsonValue)
    ensures
        json_view(r) == activation_json(a@),
{
    let mut e: Vec<(String, JsonValue)> = Vec::new();
    e.push(entry("caveats", jstrs_exec(&a.caveats)));
    e.push(entry("failed", jstrs_exec(&a.failed)));
    e.push(entry("reloaded", jstrs_exec(&a.reloaded)));
    e.push(entry("restarted", jstrs_exec(&a.restarted)));
    e.push(entry("skipped", jstrs_exec(&a.skipped)));
    e.push(entry("started", jstrs_exec(&a.started)));
    e.push(entry("stopped", jstrs_exec(&a.stopped)));
    e.push(entry("unavailable", jstr_opt_exec(&a.unavailable)));
    proof {
        lemma_entry_views(e@);
        assert(entry_views(e@) =~= match activation_json(a@) {
            JsonView::Object(es) => es,
            _ => Seq::empty(),
        });
    }
    JsonValue::Object(e)
}

fn build_value(s: &BuildState) -> (r: JsonValue)
    ensures
        json_view(r) == build_json(s@),
{
    let mut e: Vec<(String, JsonValue)> = Vec::new();
    e.push(entry("binary_substitutes", jnum_exec(s.binary_substitutes as u64)));
    e.push(entry("completed", jnum_exec(s.completed as u64)));
    e.push(entry("downloads", jnum_exec(s.downloads as u64)));
    e.push(entry("failed", jnum_exec(s.failed as u64)));
    e.push(entry("parser_fallback", JsonValue::Bool(s.parser_fallback)));
    e.push(entry("running", jnum_exec(s.running.len() as u64)));
    e.push(entry("source_builds", jnum_exec(s.source_builds as u64)));
    proof {
        lemma_entry_views(e@);
        assert(entry_views(e@) =~= match build_json(s@) {
            JsonView::Object(es) => es,
            _ => Seq::empty(),
        });
    }
    JsonValue::Object(e)
}

/// The report of a lifecycle command as a JSON value, with the keys that
/// `--ui json` prints.
pub fn report_value(report: &RebuildReport) -> (r: JsonValue)
    ensures
        json_view(r) == report_json_view(*report),
{
    let mut e: Vec<(String, JsonValue)> = Vec::new();
    e.push(entry("activation", match &report.activation {
        Some(a) => activation_value(a),
        None => JsonValue::Null,
    }));
    e.push(entry("build", build_value(&report.build)));
    e.push(entry("command", JsonValue::Str(report.command.clone())));
    e.push(entry("current_generation", match report.current.generation {
        Some(g) => jnum_exec(g),
        None => JsonValue::Null,
    }));
    e.push(entry("diff", match &report.diff {
        Some(d) => diff_value(d),
        None => JsonValue::Null,
    }));
    e.push(entry("log_path", JsonValue::Str(report.log_path.clone())));
    e.push(entry("new_generation", match report.new_generation {
        Some(g) => jnum_exec(g),
        None => JsonValue::Null,
    }));
    e.push(entry("reboot", JsonValue::Str(report.reboot.clone())));
    e.push(entry("result", JsonValue::Str(report.result.clone())));
    e.push(entry("rollback", JsonValue::Str(report.rollback.clone())));
    e.push(entry("store_path", jstr_opt_exec(&report.store_path)));
    e.push(entry("target", JsonValue::Str(report.target.reference())));
    proof {
        lemma_entry_views(e@);
        assert(entry_views(e@) =~= match report_json_view(*report) {
            JsonView::Object(es) => es,
            _ => Seq::empty(),
        });
    }
    JsonValue::Object(e)
}

/// The single-line report that `--ui json` prints at the end of a
/// lifecycle command.
pub fn report_json(report: &RebuildReport) -> (r: String)
    ensures
        r@ == json_string(report_json_view(*report)),
{
    json_to_string(&report_value(report))
}


pub open spec fn jstr(s: Seq<char>) -> JsonView {
    JsonView::Str(s)
}

pub open spec fn jnum_opt(o: Option<u64>) -> JsonView {
    match o {
        Some(n) => jnum(n as nat),
        None => JsonView::Null,
    }
}

/// The `start` line of `--ui jsonl`.
pub open spec fn start_event_view(h: RebuildHeader) -> JsonView {
    JsonView::Object(
        seq![
            ("command"@, jstr(h.command@)),
            ("event"@, jstr("start"@)),
            ("log_path"@, jstr(h.log_path@)),
            ("target"@, jstr(h.target.reference_spec())),
        ],
    )
}

/// The `phase` line of `--ui jsonl`.
pub open spec fn phase_event_view(phase: Seq<char>) -> JsonView {
    JsonView::Object(seq![("event"@, jstr("phase"@)), ("phase"@, jstr(phase))])
}

/// The `build` line of `--ui jsonl` for an internal-JSON event.
pub open spec fn build_event_view(action: Seq<char>, id: Option<u64>, s: BuildView) -> JsonView {
    JsonView::Object(
        seq![
            ("action"@, jstr(action)),
            ("completed"@, jnum(s.completed)),
            ("event"@, jstr("build"@)),
            ("failed"@, jnum(s.failed)),
            ("id"@, jnum_opt(id)),
            ("phase"@, jstr(s.phase)),
            ("running"@, jnum(s.running.len())),
        ],
    )
}

pub open spec fn source_name(s: StreamSource) -> Seq<char> {
    match s {
        StreamSource::Stdout => "stdout"@,
        StreamSource::Stderr => "stderr"@,
    }
}

/// The `backend` line of `--ui jsonl` for a line a child wrote.
pub open spec fn backend_event_view(source: StreamSource, line: Seq<char>) -> JsonView {
    JsonView::Object(
        seq![("event"@, jstr("backend"@)), ("line"@, jstr(line)), ("source"@, jstr(source_name(source)))],
    )
}

/// The `parser_fallback` line of `--ui jsonl`.
pub open spec fn parser_fallback_event_view() -> JsonView {
    JsonView::Object(seq![("event"@, jstr("parser_fallback"@))])
}

/// The `diff` line of `--ui jsonl`.
pub open spec fn diff_event_view(d: ClosureDiffView) -> JsonView {
    JsonView::Object(
        seq![
            ("additions"@, jnum(d.additions.len())),
            ("changes"@, jnum(d.changes.len())),
            ("downgrades"@, jnum(d.downgrades.len())),
            ("event"@, jstr("diff"@)),
            ("important"@, jstrs(d.important)),
            ("removals"@, jnum(d.removals.len())),
            ("size_delta"@, jstr_opt(d.size_delta)),
            ("unavailable"@, jstr_opt(d.unavailable)),
            ("upgrades"@, jnum(d.upgrades.len())),
        ],
    )
}

/// The `activation` line of `--ui jsonl`.
pub open spec fn activation_event_view(a: ActivationView) -> JsonView {
    JsonView::Object(
        seq![
            ("caveats"@, jstrs(a.caveats)),
            ("event"@, jstr("activation"@)),
            ("failed"@, jstrs(a.failed)),
            ("reloaded"@, jstrs(a.reloaded)),
            ("restarted"@, jstrs(a.restarted)),
            ("started"@, jstrs(a.started)),
            ("stopped"@, jstrs(a.stopped)),
            ("unavailable"@, jstr_opt(a.unavailable)),
        ],
    )
}

/// The `finish` line of `--ui jsonl`: the report under `report`.
pub open spec fn finish_event_view(r: RebuildReport) -> JsonView {
    JsonView::Object(seq![("event"@, jstr("finish"@)), ("report"@, report_json_view(r))])
}

fn object_text(e: Vec<(String, JsonValue)>, Ghost(j): Ghost<JsonView>) -> (r: String)
    requires
        j == JsonView::Object(entry_views(e@)),
    ensures
        r@ == json_string(j),
{
    json_to_string(&JsonValue::Object(e))
}

/// The `start` line of `--ui jsonl`.
pub fn start_event_json(header: &RebuildHeader) -> (r: String)
    ensures
        r@ == json_string(start_event_view(*header)),
{
    let mut e: Vec<(String, JsonValue)> = Vec::new();
    e.push(entry("command", JsonValue::Str(header.command.clone())));
    e.push(entry("event", JsonValue::Str("start".to_owned())));
    e.push(entry("log_path", JsonValue::Str(header.log_path.clone())));
    e.push(entry("target", JsonValue::Str(header.target.reference())));
    proof {
        lemma_entry_views(e@);
        assert(entry_views(e@) =~= match start_event_view(*header) {
            JsonView::Object(es) => es,
            _ => Seq::empty(),
        });
    }
    object_text(e, Ghost(start_event_view(*header)))
}

/// The `phase` line of `--ui jsonl`.
pub fn phase_event_json(phase: &str) -> (r: String)
    ensures
        r@ == json_string(phase_event_view(phase@)),
{
    let mut e: Vec<(String, JsonValue)> = Vec::new();
    e.push(entry("event", JsonValue::Str("phase".to_owned())));
    e.push(entry("phase", JsonValue::Str(phase.to_owned())));
    proof {
        lemma_entry_views(e@);
        assert(entry_views(e@) =~= match phase_event_view(phase@) {
            JsonView::Object(es) => es,
            _ => Seq::empty(),
        });
    }
    object_text(e, Ghost(phase_event_view(phase@)))
}

/// The `build` line of `--ui jsonl` for an internal-JSON event.
pub fn build_event_json(event: &NixEvent, state: &BuildState) -> (r: String)
    ensures
        r@ == json_string(build_event_view(event.action@, event.id, state@)),
{
    let mut e: Vec<(String, JsonValue)> = Vec::new();
    e.push(entry("action", JsonValue::Str(event.action.clone())));
    e.push(entry("completed", jnum_exec(state.completed as u64)));
    e.push(entry("event", JsonValue::Str("build".to_owned())));
    e.push(entry("failed", jnum_exec(state.failed as u64)));
    e.push(entry("id", match event.id {
        Some(i) => jnum_exec(i),
        None => JsonValue::Null,
    }));
    e.push(entry("phase", JsonValue::Str(state.phase.clone())));
    e.push(entry("running", jnum_exec(state.running.len() as u64)));
    proof {
        lemma_entry_views(e@);
        assert(entry_views(e@) =~= match build_event_view(event.action@, event.id, state@) {
            JsonView::Object(es) => es,
            _ => Seq::empty(),
        });
    }
    object_text(e, Ghost(build_event_view(event.action@, event.id, state@)))
}

/// The `backend` line of `--ui jsonl` for a line a child wrote.
pub fn backend_event_json(line: &StreamLine) -> (r: String)
    ensures
        r@ == json_string(backend_event_view(line.source, line.line@)),
{
    let source = match line.source {
        StreamSource::Stdout => "stdout",
        StreamSource::Stderr => "stderr",
    };
    let mut e: Vec<(String, JsonValue)> = Vec::new();
    e.push(entry("event", JsonValue::Str("backend".to_owned())));
    e.push(entry("line", JsonValue::Str(line.line.clone())));
    e.push(entry("source", JsonValue::Str(source.to_owned())));
    proof {
        lemma_entry_views(e@);
        assert(entry_views(e@) =~= match backend_event_view(line.source, line.line@) {
            JsonView::Object(es) => es,
            _ => Seq::empty(),
        });
    }
    object_text(e, Ghost(backend_event_view(line.source, line.line@)))
}

/// The `parser_fallback` line of `--ui jsonl`.
pub fn parser_fallback_event_json() -> (r: String)
    ensures
        r@ == json_string(parser_fallback_event_view()),
{
    let mut e: Vec<(String, JsonValue)> = Vec::new();
    e.push(entry("event", JsonValue::Str("parser_fallback".to_owned())));
    proof {
        lemma_entry_views(e@);
        assert(entry_views(e@) =~= match parser_fallback_event_view() {
            JsonView::Object(es) => es,
            _ => Seq::empty(),
        });
    }
    object_text(e, Ghost(parser_fallback_event_view()))
}

/// The `diff` line of `--ui jsonl`.
pub fn diff_event_json(d: &ClosureDiff) -> (r: String)
    ensures
        r@ == json_string(diff_event_view(d@)),
{
    let mut e: Vec<(String, JsonValue)> = Vec::new();
    e.push(entry("additions", jnum_exec(d.additions.len() as u64)));
    e.push(entry("changes", jnum_exec(d.changes.len() as u64)));
    e.push(entry("downgrades", jnum_exec(d.downgrades.len() as u64)));
    e.push(entry("event", JsonValue::Str("diff".to_owned())));
    e.push(entry("important", jstrs_exec(&d.important)));
    e.push(entry("removals", jnum_exec(d.removals.len() as u64)));
    e.push(entry("size_delta", jstr_opt_exec(&d.size_delta)));
    e.push(entry("unavailable", jstr_opt_exec(&d.unavailable)));
    e.push(entry("upgrades", jnum_exec(d.upgrades.len() as u64)));
    proof {
        lemma_entry_views(e@);
        assert(entry_views(e@) =~= match diff_event_view(d@) {
            JsonView::Object(es) => es,
            _ => Seq::empty(),
        });
    }
    object_text(e, Ghost(diff_event_view(d@)))
}

/// The `activation` line of `--ui jsonl`.
pub fn activation_event_json(a: &ActivationImpact) -> (r: String)
    ensures
        r@ == json_string(activation_event_view(a@)),
{
    let mut e: Vec<(String, JsonValue)> = Vec::new();
    e.push(entry("caveats", jstrs_exec(&a.caveats)));
    e.push(entry("event", JsonValue::Str("activation".to_owned())));
    e.push(entry("failed", jstrs_exec(&a.failed)));
    e.push(entry("reloaded", jstrs_exec(&a.reloaded)));
    e.push(entry("restarted", jstrs_exec(&a.restarted)));
    e.push(entry("started", jstrs_exec(&a.started)));
    e.push(entry("stopped", jstrs_exec(&a.stopped)));
    e.push(entry("unavailable", jstr_opt_exec(&a.unavailable)));
    proof {
        lemma_entry_views(e@);
        assert(entry_views(e@) =~= match activation_event_view(a@) {
            JsonView::Object(es) => es,
            _ => Seq::empty(),
        });
    }
    object_text(e, Ghost(activation_event_view(a@)))
}

/// The `finish` line of `--ui jsonl`.
pub fn finish_event_json(report: &RebuildReport) -> (r: String)
    ensures
        r@ == json_string(finish_event_view(*report)),
{
    let mut e: Vec<(String, JsonValue)> = Vec::new();
    e.push(entry("event", JsonValue::Str("finish".to_owned())));
    e.push(entry("report", report_value(report)));
    proof {
        lemma_entry_views(e@);
        assert(entry_views(e@) =~= match finish_event_view(*report) {
            JsonView::Object(es) => es,
            _ => Seq::empty(),
        });
    }
    object_text(e, Ghost(finish_event_view(*report)))
}

} // verus!
