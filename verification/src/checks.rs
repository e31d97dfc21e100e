use vstd::prelude::*;

use crate::backend::{common_args, nix_common_args, BackendOptions};
use crate::cli::CheckArgs;
use crate::errors::NrError;
use crate::config::{command_views, CheckSettings};
use crate::process::{render_command, rendered, CommandSpec};
use crate::text::{
    chars_of, concat, contains, contains_str, decimal, eq_str, lemma_strs_push, lines, lines_of,
    lowercase, push_str, strs, to_lowercase, trim, trim_str,
};

verus! {

/// The check switches after the command line's: `--all` turns every
/// built-in check on, `--no-flake` turns the flake check off, and each
/// named flag turns its check on.
pub fn apply_check_overrides(settings: CheckSettings, args: &CheckArgs) -> (r: CheckSettings)
    ensures
        r.flake == ((settings.flake || args.all) && !args.no_flake),
        r.nixfmt == (settings.nixfmt || args.all || args.nixfmt),
        r.statix == (settings.statix || args.all || args.statix),
        r.cargo_fmt == (settings.cargo_fmt || args.all || args.cargo_fmt),
        r.clippy == (settings.clippy || args.all || args.clippy),
        r.commands == settings.commands,
{
    let mut settings = settings;
    if args.all {
        settings.flake = true;
        settings.nixfmt = true;
        settings.statix = true;
        settings.cargo_fmt = true;
        settings.clippy = true;
    }
    if args.no_flake {
        settings.flake = false;
    }
    if args.nixfmt {
        settings.nixfmt = true;
    }
    if args.statix {
        settings.statix = true;
    }
    if args.cargo_fmt {
        settings.cargo_fmt = true;
    }
    if args.clippy {
        settings.clippy = true;
    }
    settings
}

/// A check as the contracts see it: name, command line, working directory.
pub type CheckView = (Seq<char>, Seq<Seq<char>>, Option<Seq<char>>);

pub open spec fn check_views(v: Seq<(String, CommandSpec)>) -> Seq<CheckView> {
    v.map_values(
        |c: (String, CommandSpec)|
            (
                c.0@,
                c.1.argv(),
                match c.1.cwd {
                    Some(d) => Some(d@),
                    None => None,
                },
            ),
    )
}

/// The custom checks from position `i` on: each non-empty command, named
/// by its position (counting from one) and its rendered command line.
pub open spec fn custom_checks(commands: Seq<Seq<Seq<char>>>, i: int, flake_path: Seq<char>) -> Seq<
    CheckView,
>
    decreases commands.len() - i,
{
    if i < 0 || i >= commands.len() {
        Seq::empty()
    } else if commands[i].len() == 0 {
        custom_checks(commands, i + 1, flake_path)
    } else {
        seq![
            (
                "Custom check "@ + decimal((i + 1) as nat) + ": "@ + rendered(commands[i]),
                commands[i],
                Some(flake_path),
            ),
        ] + custom_checks(commands, i + 1, flake_path)
    }
}

/// The built-in checks the settings select, in the order they run.
pub open spec fn checks_spec(
    flake_path: Seq<char>,
    s: CheckSettings,
    o: BackendOptions,
    nix_files: Seq<Seq<char>>,
) -> Seq<CheckView> {
    (if s.nixfmt && nix_files.len() > 0 {
        seq![("Nix formatting"@, seq!["nixfmt"@, "--check"@] + nix_files, None)]
    } else {
        Seq::empty()
    }) + (if s.statix {
        seq![("Nix static analysis"@, seq!["statix"@, "check"@, flake_path], None)]
    } else {
        Seq::empty()
    }) + (if s.cargo_fmt {
        seq![("Rust formatting"@, seq!["cargo"@, "fmt"@, "--"@, "--check"@], Some(flake_path))]
    } else {
        Seq::empty()
    }) + (if s.clippy {
        seq![
            (
                "Rust static analysis"@,
                seq!["cargo"@, "clippy"@, "--all-targets"@, "--"@, "-D"@, "warnings"@],
                Some(flake_path),
            ),
        ]
    } else {
        Seq::empty()
    }) + (if s.flake {
        seq![
            (
                "Flake checks"@,
                seq!["nix"@] + common_args(o) + seq!["flake"@, "check"@, "path:"@ + flake_path],
                None,
            ),
        ]
    } else {
        Seq::empty()
    })
}

/// The checks the settings select, in the order they run.
pub open spec fn all_checks_spec(
    flake_path: Seq<char>,
    s: CheckSettings,
    o: BackendOptions,
    nix_files: Seq<Seq<char>>,
) -> Seq<CheckView> {
    checks_spec(flake_path, s, o, nix_files) + custom_checks(command_views(s.commands@), 0, flake_path)
}

fn push_check(checks: &mut Vec<(String, CommandSpec)>, name: &str, command: CommandSpec)
    ensures
        check_views(final(checks)@) == check_views(old(checks)@).push(
            (
                name@,
                command.argv(),
                match command.cwd {
                    Some(d) => Some(d@),
                    None => None,
                },
            ),
        ),
{
    let ghost before = checks@;
    checks.push((name.to_owned(), command));
    proof {
        assert(checks@ =~= before.push(checks@[before.len() as int]));
        assert forall|i: int| 0 <= i < before.len() + 1 implies check_views(checks@)[i] == check_views(
            before,
        ).push(
            (
                name@,
                command.argv(),
                match command.cwd {
                    Some(d) => Some(d@),
                    None => None,
                },
            ),
        )[i] by {
            if i < before.len() {
                assert(checks@[i] == before[i]);
            }
        }
        assert(check_views(checks@) =~= check_views(before).push(
            (
                name@,
                command.argv(),
                match command.cwd {
                    Some(d) => Some(d@),
                    None => None,
                },
            ),
        ));
    }
}

fn nixfmt_command(nix_files: &[String]) -> (c: CommandSpec)
    ensures
        c.argv() == seq!["nixfmt"@, "--check"@] + strs(nix_files@),
        c.cwd is None,
{
    let c = CommandSpec::new("nixfmt").arg("--check").args(nix_files);
    assert(c.argv() =~= seq!["nixfmt"@, "--check"@] + strs(nix_files@));
    c
}

fn statix_command(flake_path: &str) -> (c: CommandSpec)
    ensures
        c.argv() == seq!["statix"@, "check"@, flake_path@],
        c.cwd is None,
{
    let c = CommandSpec::new("statix").arg("check").arg(flake_path);
    assert(c.argv() =~= seq!["statix"@, "check"@, flake_path@]);
    c
}

fn cargo_fmt_command(flake_path: &str) -> (c: CommandSpec)
    ensures
        c.argv() == seq!["cargo"@, "fmt"@, "--"@, "--check"@],
        c.cwd matches Some(d) && d@ == flake_path@,
{
    let c = CommandSpec::new("cargo").arg("fmt").arg("--").arg("--check").cwd(flake_path);
    assert(c.argv() =~= seq!["cargo"@, "fmt"@, "--"@, "--check"@]);
    c
}

fn clippy_command(flake_path: &str) -> (c: CommandSpec)
    ensures
        c.argv() == seq!["cargo"@, "clippy"@, "--all-targets"@, "--"@, "-D"@, "warnings"@],
        c.cwd matches Some(d) && d@ == flake_path@,
{
    let c = CommandSpec::new("cargo").arg("clippy").arg("--all-targets").arg("--").arg("-D").arg(
        "warnings",
    ).cwd(flake_path);
    assert(c.argv() =~= seq!["cargo"@, "clippy"@, "--all-targets"@, "--"@, "-D"@, "warnings"@]);
    c
}

fn flake_check_command(flake_path: &str, options: &BackendOptions) -> (c: CommandSpec)
    ensures
        c.argv() == seq!["nix"@] + common_args(*options) + seq!["flake"@, "check"@, "path:"@ + flake_path@],
        c.cwd is None,
{
    let common = nix_common_args(options);
    let target = concat("path:", flake_path);
    let c = CommandSpec::new("nix").args(common.as_slice()).arg("flake").arg("check").arg(
        target.as_str(),
    );
    assert(c.argv() =~= seq!["nix"@] + common_args(*options) + seq![
        "flake"@,
        "check"@,
        "path:"@ + flake_path@,
    ]);
    c
}

fn builtin_checks(
    flake_path: &str,
    settings: &CheckSettings,
    options: &BackendOptions,
    nix_files: &[String],
) -> (r: Vec<(String, CommandSpec)>)
    ensures
        check_views(r@) == checks_spec(flake_path@, *settings, *options, strs(nix_files@)),
{
    let mut checks: Vec<(String, CommandSpec)> = Vec::new();
    let ghost path = flake_path@;
    if settings.nixfmt && nix_files.len() > 0 {
        push_check(&mut checks, "Nix formatting", nixfmt_command(nix_files));
    }
    if settings.statix {
        push_check(&mut checks, "Nix static analysis", statix_command(flake_path));
    }
    if settings.cargo_fmt {
        push_check(&mut checks, "Rust formatting", cargo_fmt_command(flake_path));
    }
    if settings.clippy {
        push_check(&mut checks, "Rust static analysis", clippy_command(flake_path));
    }
    if settings.flake {
        push_check(&mut checks, "Flake checks", flake_check_command(flake_path, options));
    }
    assert(check_views(checks@) =~= checks_spec(flake_path@, *settings, *options, strs(nix_files@)));
    checks
}

proof fn lemma_custom_step(cmds: Seq<Seq<Seq<char>>>, i: int, path: Seq<char>)
    requires
        0 <= i < cmds.len(),
    ensures
        custom_checks(cmds, i, path) == (if cmds[i].len() == 0 {
            Seq::<CheckView>::empty()
        } else {
            seq![
                (
                    "Custom check "@ + decimal((i + 1) as nat) + ": "@ + rendered(cmds[i]),
                    cmds[i],
                    Some(path),
                ),
            ]
        }) + custom_checks(cmds, i + 1, path),
{
    if cmds[i].len() == 0 {
        assert(Seq::<CheckView>::empty() + custom_checks(cmds, i + 1, path) =~= custom_checks(cmds, i + 1, path));
    }
}

/// The checks that the settings select for the flake at `flake_path`;
/// `nix_files` are its `.nix` files, which `nixfmt` is given (it is left
/// out when there are none).
pub fn configured_checks(
    flake_path: &str,
    settings: &CheckSettings,
    options: &BackendOptions,
    nix_files: &[String],
) -> (r: Vec<(String, CommandSpec)>)
    ensures
        check_views(r@) == all_checks_spec(flake_path@, *settings, *options, strs(nix_files@)),
{
    let mut checks = builtin_checks(flake_path, settings, options, nix_files);
    let ghost fixed = check_views(checks@);
    let ghost path = flake_path@;
    let ghost cmds = command_views(settings.commands@);
    let mut i: usize = 0;
    while i < settings.commands.len()
        invariant
            i <= settings.commands.len(),
            cmds == command_views(settings.commands@),
            fixed + custom_checks(cmds, 0, path) == check_views(checks@) + custom_checks(
                cmds,
                i as int,
                path,
            ),
            path == flake_path@,
        decreases settings.commands.len() - i,
    {
        let command = &settings.commands[i];
        assert(cmds[i as int] == strs(command@));
        proof {
            lemma_custom_step(cmds, i as int, path);
        }
        let ghost before = check_views(checks@);
        if command.len() > 0 {
            let rest = slice_from(command.as_slice(), 1);
            let c = CommandSpec::new(command[0].as_str()).args(rest.as_slice()).cwd(flake_path);
            assert(c.argv() =~= strs(command@));
            let mut name = "Custom check ".to_owned();
            crate::text::push_decimal(&mut name, (i + 1) as u64);
            name.append(": ");
            name.append(render_command(command.as_slice()).as_str());
            push_check(&mut checks, name.as_str(), c);
            assert(before + custom_checks(cmds, i as int, path) =~= check_views(checks@)
                + custom_checks(cmds, i + 1, path));
        }
        i = i + 1;
    }
    assert(custom_checks(cmds, i as int, path) =~= Seq::<CheckView>::empty());
    assert(check_views(checks@) + Seq::<CheckView>::empty() =~= check_views(checks@));
    checks
}

/// The strings of `v` from position `start` on.
fn slice_from(v: &[String], start: usize) -> (r: Vec<String>)
    requires
        start <= v.len(),
    ensures
        strs(r@) == strs(v@).skip(start as int),
{
    let mut r: Vec<String> = Vec::new();
    let mut i: usize = start;
    while i < v.len()
        invariant
            start <= i <= v.len(),
            strs(r@) == strs(v@).subrange(start as int, i as int),
        decreases v.len() - i,
    {
        let ghost before = r@;
        r.push(v[i].clone());
        proof {
            lemma_strs_push(before, v@[i as int]);
        }
        i = i + 1;
        assert(strs(r@) =~= strs(v@).subrange(start as int, i as int));
    }
    assert(strs(v@).subrange(start as int, v.len() as int) =~= strs(v@).skip(start as int));
    r
}


/// Whether a check's name or command line holds one of the filters,
/// ignoring case.
pub open spec fn check_selected(name: Seq<char>, argv: Seq<Seq<char>>, only: Seq<Seq<char>>) -> bool {
    exists|i: int|
        0 <= i < only.len() && contains(
            lowercase(name) + " "@ + lowercase(rendered(argv)),
            lowercase(#[trigger] only[i]),
        )
}

pub open spec fn selected_checks(v: Seq<CheckView>, only: Seq<Seq<char>>) -> Seq<CheckView>
    decreases v.len(),
{
    if v.len() == 0 {
        Seq::empty()
    } else if check_selected(v.last().0, v.last().1, only) {
        selected_checks(v.drop_last(), only).push(v.last())
    } else {
        selected_checks(v.drop_last(), only)
    }
}

fn matches_any(haystack: &str, filters: &Vec<String>, only: &[String]) -> (r: bool)
    requires
        strs(filters@) == strs(only@).map_values(|f: Seq<char>| lowercase(f)),
    ensures
        r == exists|i: int| 0 <= i < only@.len() && contains(haystack@, lowercase(#[trigger] strs(only@)[i])),
{
    let mut i: usize = 0;
    assert(strs(filters@).len() == strs(only@).len());
    while i < filters.len()
        invariant
            i <= filters.len(),
            filters@.len() == only@.len(),
            strs(filters@) == strs(only@).map_values(|f: Seq<char>| lowercase(f)),
            forall|k: int| 0 <= k < i ==> !contains(haystack@, lowercase(#[trigger] strs(only@)[k])),
        decreases filters.len() - i,
    {
        assert(strs(filters@)[i as int] == lowercase(strs(only@)[i as int]));
        if contains_str(haystack, filters[i].as_str()) {
            return true;
        }
        i = i + 1;
    }
    false
}

/// The checks that `--only` selects; all of them when no filter is given.
pub fn filter_checks(checks: Vec<(String, CommandSpec)>, only: &[String]) -> (r: Vec<(String, CommandSpec)>)
    ensures
        only@.len() == 0 ==> check_views(r@) == check_views(checks@),
        only@.len() > 0 ==> check_views(r@) == selected_checks(check_views(checks@), strs(only@)),
{
    if only.len() == 0 {
        return checks;
    }
    let mut filters: Vec<String> = Vec::new();
    let mut k: usize = 0;
    while k < only.len()
        invariant
            k <= only.len(),
            strs(filters@) == strs(only@).take(k as int).map_values(|f: Seq<char>| lowercase(f)),
        decreases only.len() - k,
    {
        let ghost before = filters@;
        let l = to_lowercase(only[k].as_str());
        filters.push(l);
        proof {
            lemma_strs_push(before, l);
            assert(strs(only@).take(k + 1) =~= strs(only@).take(k as int).push(strs(only@)[k as int]));
        }
        k = k + 1;
        assert(strs(filters@) =~= strs(only@).take(k as int).map_values(|f: Seq<char>| lowercase(f)));
    }
    assert(strs(only@).take(k as int) =~= strs(only@));
    let mut kept: Vec<(String, CommandSpec)> = Vec::new();
    let mut i: usize = 0;
    while i < checks.len()
        invariant
            i <= checks.len(),
            strs(filters@) == strs(only@).map_values(|f: Seq<char>| lowercase(f)),
            check_views(kept@) == selected_checks(check_views(checks@).take(i as int), strs(only@)),
        decreases checks.len() - i,
    {
        let (name, command) = &checks[i];
        let mut haystack = to_lowercase(name.as_str());
        haystack.append(" ");
        haystack.append(to_lowercase(command.render().as_str()).as_str());
        let ghost t = check_views(checks@).take(i + 1);
        assert(t.drop_last() =~= check_views(checks@).take(i as int));
        assert(t.last() == check_views(checks@)[i as int]);
        assert(haystack@ == lowercase(name@) + " "@ + lowercase(rendered(command.argv())));
        if matches_any(haystack.as_str(), &filters, only) {
            push_check(&mut kept, name.as_str(), command.copy());
        }
        i = i + 1;
    }
    assert(check_views(checks@).take(i as int) =~= check_views(checks@));
    kept
}

/// A check's time limit: at least one second.
pub fn check_timeout(seconds: Option<u64>) -> (r: Option<u64>)
    ensures
        r == (match seconds {
            Some(s) => Some(if s < 1 { 1u64 } else { s }),
            None => None,
        }),
{
    match seconds {
        Some(s) => Some(if s < 1 { 1 } else { s }),
        None => None,
    }
}

/// One stream of a failed check: `<empty>` when it printed nothing but
/// whitespace, else its lines indented.
pub open spec fn stream_block(label: Seq<char>, text: Seq<char>) -> Seq<Seq<char>> {
    if trim(text).len() == 0 {
        seq![label + ": <empty>"@]
    } else {
        seq![label + ":"@] + lines_of(text).map_values(|l: Seq<char>| "  "@ + l)
    }
}

pub fn stream_block_lines(label: &str, text: &str) -> (r: Vec<String>)
    ensures
        strs(r@) == stream_block(label@, text@),
{
    let mut r: Vec<String> = Vec::new();
    if chars_of(trim_str(text).as_str()).len() == 0 {
        r.push(concat(label, ": <empty>"));
        assert(strs(r@) =~= stream_block(label@, text@));
        return r;
    }
    r.push(concat(label, ":"));
    let ls = lines(text);
    let mut i: usize = 0;
    while i < ls.len()
        invariant
            i <= ls.len(),
            strs(ls@) == lines_of(text@),
            strs(r@) == seq![label@ + ":"@] + strs(ls@).take(i as int).map_values(|l: Seq<char>| "  "@ + l),
        decreases ls.len() - i,
    {
        let ghost before = r@;
        let l = concat("  ", ls[i].as_str());
        r.push(l);
        proof {
            lemma_strs_push(before, l);
            assert(strs(ls@).take(i + 1) =~= strs(ls@).take(i as int).push(strs(ls@)[i as int]));
        }
        i = i + 1;
        assert(strs(r@) =~= seq![label@ + ":"@] + strs(ls@).take(i as int).map_values(|l: Seq<char>| "  "@ + l));
    }
    assert(strs(ls@).take(i as int) =~= strs(ls@));
    r
}

/// What is printed for a failed check: its name and code, its command
/// line, and both output streams.
pub open spec fn failure_block(name: Seq<char>, code: i32, command: Seq<char>, stdout: Seq<char>, stderr: Seq<char>) -> Seq<Seq<char>> {
    seq![""@, "["@ + name + "] exited with "@ + crate::text::signed_decimal(code as int), "command: "@ + command]
        + stream_block("stdout"@, stdout) + stream_block("stderr"@, stderr)
}

pub fn check_failure_lines(name: &str, code: i32, command: &str, stdout: &str, stderr: &str) -> (r: Vec<String>)
    ensures
        strs(r@) == failure_block(name@, code, command@, stdout@, stderr@),
{
    let mut r: Vec<String> = Vec::new();
    r.push("".to_owned());
    let mut head = "[".to_owned();
    head.append(name);
    head.append("] exited with ");
    head.append(crate::text::i32_to_string(code).as_str());
    r.push(head);
    r.push(concat("command: ", command));
    let out = stream_block_lines("stdout", stdout);
    let err = stream_block_lines("stderr", stderr);
    crate::text::extend_strings(&mut r, out.as_slice());
    crate::text::extend_strings(&mut r, err.as_slice());
    assert(strs(r@) =~= failure_block(name@, code, command@, stdout@, stderr@));
    r
}

/// The line announcing a check before it runs (after a blank line).
pub fn check_started_line(name: &str, rendered: &str) -> (r: String)
    ensures
        r@ == "["@ + name@ + "] "@ + rendered@,
{
    let mut r = "[".to_owned();
    r.append(name);
    r.append("] ");
    r.append(rendered);
    r
}

/// The line for a check that passed.
pub fn check_passed_line(name: &str) -> (r: String)
    ensures
        r@ == "["@ + name@ + "] passed"@,
{
    let mut r = "[".to_owned();
    r.append(name);
    r.append("] passed");
    r
}

pub open spec fn failures_upto(codes: Seq<i32>, n: int) -> nat
    decreases n,
{
    if n <= 0 {
        0
    } else {
        failures_upto(codes, n - 1) + if codes[n - 1] != 0 { 1nat } else { 0nat }
    }
}

/// How many checks exited with a failure code.
pub fn failed_count(codes: &[i32]) -> (r: usize)
    ensures
        r == failures_upto(codes@, codes@.len() as int),
{
    let mut n: usize = 0;
    let mut i: usize = 0;
    while i < codes.len()
        invariant
            i <= codes.len(),
            n == failures_upto(codes@, i as int),
            n <= i,
        decreases codes.len() - i,
    {
        if codes[i] != 0 {
            n = n + 1;
        }
        i = i + 1;
    }
    n
}

/// `nr check` succeeds when no check failed, and fails as one command
/// (`nr check`, code 1) otherwise.
pub fn check_outcome(failed: usize) -> (r: Result<i32, NrError>)
    ensures
        failed == 0 ==> r matches Ok(0i32),
        failed != 0 ==> (r matches Err(NrError::CommandFailed { command, code }) && command@ == "nr check"@
            && code == 1),
{
    if failed == 0 {
        Ok(0)
    } else {
        Err(NrError::CommandFailed { command: "nr check".to_owned(), code: 1 })
    }
}


/// The directory names that the source-file walk never enters.
pub open spec fn excluded_directory(name: Seq<char>) -> bool {
    name == ".cache"@ || name == ".direnv"@ || name == ".git"@ || name == ".venv"@ || name
        == "__pycache__"@ || name == "result"@ || name == "target"@
}

/// What the source-file walk does with a directory entry.
#[derive(Clone, Copy, Debug, PartialEq, Eq, Structural)]
pub enum SourceEntry {
    /// A directory to walk into.
    Descend,
    /// A file to list.
    Take,
    /// Anything else.
    Skip,
}

pub open spec fn source_entry_spec(name: Seq<char>, is_dir: bool, suffix: Seq<char>) -> SourceEntry {
    if is_dir {
        if excluded_directory(name) {
            SourceEntry::Skip
        } else {
            SourceEntry::Descend
        }
    } else if crate::text::ends_with(name, suffix) {
        SourceEntry::Take
    } else {
        SourceEntry::Skip
    }
}

/// A directory is walked unless its name is excluded; a file is listed
/// when its name ends in `suffix`.
pub fn source_entry(name: &str, is_dir: bool, suffix: &str) -> (r: SourceEntry)
    ensures
        r == source_entry_spec(name@, is_dir, suffix@),
{
    if is_dir {
        if eq_str(name, ".cache") || eq_str(name, ".direnv") || eq_str(name, ".git") || eq_str(
            name,
            ".venv",
        ) || eq_str(name, "__pycache__") || eq_str(name, "result") || eq_str(name, "target") {
            SourceEntry::Skip
        } else {
            SourceEntry::Descend
        }
    } else if crate::text::ends_with_str(name, suffix) {
        SourceEntry::Take
    } else {
        SourceEntry::Skip
    }
}

/// Component-wise order of split paths: the first differing piece decides,
/// a path that is a prefix of another comes first.
pub open spec fn pieces_less(a: Seq<Seq<char>>, b: Seq<Seq<char>>) -> bool
    decreases a.len(),
{
    if a.len() == 0 {
        b.len() > 0
    } else if b.len() == 0 {
        false
    } else if a[0] != b[0] {
        crate::text::chars_less(a[0], b[0])
    } else {
        pieces_less(a.drop_first(), b.drop_first())
    }
}

/// The order of `Path`: component by component.
pub open spec fn path_less(a: Seq<char>, b: Seq<char>) -> bool {
    pieces_less(
        crate::text::split_on(a, crate::text::sep3('/', '/', '/')),
        crate::text::split_on(b, crate::text::sep3('/', '/', '/')),
    )
}

fn pieces_less_exec(a: &Vec<String>, b: &Vec<String>) -> (r: bool)
    ensures
        r == pieces_less(strs(a@), strs(b@)),
{
    let mut i: usize = 0;
    assert(strs(a@).skip(0) =~= strs(a@));
    assert(strs(b@).skip(0) =~= strs(b@));
    while i < a.len() && i < b.len() && eq_str(a[i].as_str(), b[i].as_str())
        invariant
            i <= a.len(),
            i <= b.len(),
            pieces_less(strs(a@), strs(b@)) == pieces_less(strs(a@).skip(i as int), strs(b@).skip(i as int)),
        decreases a.len() - i,
    {
        proof {
            let x = strs(a@).skip(i as int);
            let y = strs(b@).skip(i as int);
            assert(x[0] == a@[i as int]@ && y[0] == b@[i as int]@);
            assert(x.drop_first() =~= strs(a@).skip(i + 1));
            assert(y.drop_first() =~= strs(b@).skip(i + 1));
        }
        i = i + 1;
    }
    let ghost x = strs(a@).skip(i as int);
    let ghost y = strs(b@).skip(i as int);
    if i == a.len() {
        assert(x.len() == 0);
        i < b.len()
    } else if i == b.len() {
        assert(y.len() == 0);
        false
    } else {
        assert(x[0] == a@[i as int]@ && y[0] == b@[i as int]@);
        crate::text::str_less(a[i].as_str(), b[i].as_str())
    }
}

/// Whether `a` comes before `b` in `Path` order.
pub fn path_less_exec(a: &str, b: &str) -> (r: bool)
    ensures
        r == path_less(a@, b@),
{
    let ac = chars_of(a);
    let bc = chars_of(b);
    let ap = crate::text::split3(ac.as_slice(), '/', '/', '/');
    let bp = crate::text::split3(bc.as_slice(), '/', '/', '/');
    pieces_less_exec(&ap, &bp)
}

/// Inserts after every path that does not come after it.
pub open spec fn insert_path(s: Seq<Seq<char>>, x: Seq<char>) -> Seq<Seq<char>>
    decreases s.len(),
{
    if s.len() == 0 {
        seq![x]
    } else if !path_less(x, s.last()) {
        s.push(x)
    } else {
        insert_path(s.drop_last(), x).push(s.last())
    }
}

/// The paths in `Path` order, equal ones in their first order.
pub open spec fn sorted_paths(s: Seq<Seq<char>>) -> Seq<Seq<char>>
    decreases s.len(),
{
    if s.len() == 0 {
        Seq::empty()
    } else {
        insert_path(sorted_paths(s.drop_last()), s.last())
    }
}

fn insert_path_exec(sorted: &mut Vec<String>, x: String)
    ensures
        strs(final(sorted)@) == insert_path(strs(old(sorted)@), x@),
{
    let ghost before = strs(sorted@);
    let ghost xv = x@;
    let mut pos: usize = sorted.len();
    assert(before.take(pos as int) =~= before);
    assert(before.skip(pos as int) =~= Seq::<Seq<char>>::empty());
    assert(insert_path(before, xv) + Seq::<Seq<char>>::empty() =~= insert_path(before, xv));
    while pos > 0 && path_less_exec(x.as_str(), sorted[pos - 1].as_str())
        invariant
            pos <= sorted.len(),
            before == strs(sorted@),
            xv == x@,
            insert_path(before, xv) == insert_path(before.take(pos as int), xv) + before.skip(pos as int),
        decreases pos,
    {
        proof {
            let t = before.take(pos as int);
            assert(t.drop_last() =~= before.take(pos - 1));
            assert(t.last() == before[pos - 1]);
            assert(insert_path(t, xv) == insert_path(before.take(pos - 1), xv).push(before[pos - 1]));
            assert(before.skip(pos - 1) =~= seq![before[pos - 1]] + before.skip(pos as int));
            assert(insert_path(before.take(pos - 1), xv).push(before[pos - 1]) + before.skip(pos as int)
                =~= insert_path(before.take(pos - 1), xv) + before.skip(pos - 1));
        }
        pos = pos - 1;
    }
    proof {
        let t = before.take(pos as int);
        if pos > 0 {
            assert(t.last() == before[pos - 1]);
            assert(insert_path(t, xv) == t.push(xv));
        } else {
            assert(insert_path(t, xv) == seq![xv]);
        }
    }
    sorted.insert(pos, x);
    assert(strs(sorted@) =~= before.take(pos as int).push(xv) + before.skip(pos as int));
}

/// The source files in `Path` order, as the file walk lists them.
pub fn sort_source_files(files: Vec<String>) -> (r: Vec<String>)
    ensures
        strs(r@) == sorted_paths(strs(files@)),
{
    let ghost fv = strs(files@);
    let mut out: Vec<String> = Vec::new();
    let mut i: usize = 0;
    assert(fv.take(0) =~= Seq::<Seq<char>>::empty());
    while i < files.len()
        invariant
            fv == strs(files@),
            i <= files.len(),
            strs(out@) == sorted_paths(fv.take(i as int)),
        decreases files.len() - i,
    {
        let x = files[i].clone();
        proof {
            assert(fv.take(i + 1).drop_last() =~= fv.take(i as int));
            assert(fv.take(i + 1).last() == fv[i as int]);
            assert(fv[i as int] == files@[i as int]@);
        }
        insert_path_exec(&mut out, x);
        i = i + 1;
    }
    assert(fv.take(i as int) =~= fv);
    out
}

} // verus!
