use vstd::prelude::*;

use crate::git::GitSummary;
use crate::text::{concat, contains, contains_str, lemma_strs_push, lines, lines_of, strs, trim, trim_str};

verus! {

/// The tools `nr` cannot work without.
pub fn required_tools() -> (r: Vec<&'static str>)
    ensures
        r@.map_values(|t: &str| t@) == seq!["nix"@, "nix-store"@, "nixos-rebuild"@, "git"@],
{
    let r = vec!["nix", "nix-store", "nixos-rebuild", "git"];
    assert(r@.map_values(|t: &str| t@) =~= seq!["nix"@, "nix-store"@, "nixos-rebuild"@, "git"@]);
    r
}

/// The tools some commands use when they are there.
pub fn optional_tools() -> (r: Vec<&'static str>)
    ensures
        r@.map_values(|t: &str| t@) == seq!["gh"@, "nom"@, "nixfmt"@, "statix"@, "cargo"@],
{
    let r = vec!["gh", "nom", "nixfmt", "statix", "cargo"];
    assert(r@.map_values(|t: &str| t@) =~= seq!["gh"@, "nom"@, "nixfmt"@, "statix"@, "cargo"@]);
    r
}

/// `nr doctor` fails when a required tool is missing.
pub fn doctor_exit_code(missing_required: usize) -> (r: i32)
    ensures
        r == (if missing_required == 0 { 0i32 } else { 1i32 }),
{
    if missing_required == 0 {
        0
    } else {
        1
    }
}

/// A config file line: its path, or `not found`.
pub fn config_path_line(label: &str, path: Option<&String>) -> (r: String)
    ensures
        r@ == label@ + ": "@ + (match path {
            Some(p) => p@,
            None => "not found"@,
        }),
{
    let mut r = label.to_owned();
    r.append(": ");
    match path {
        Some(p) => r.append(p.as_str()),
        None => r.append("not found"),
    }
    r
}

/// Whether `nix show-config experimental-features` lists flakes.
pub open spec fn flakes_enabled(text: Seq<char>) -> bool {
    contains(trim(text), "flakes"@) && contains(trim(text), "nix-command"@)
}

pub fn flakes_line(text: &str) -> (r: &'static str)
    ensures
        r@ == (if flakes_enabled(text@) {
            "  flakes: enabled"@
        } else {
            "  flakes: not detected in experimental-features"@
        }),
{
    let t = trim_str(text);
    if contains_str(t.as_str(), "flakes") && contains_str(t.as_str(), "nix-command") {
        "  flakes: enabled"
    } else {
        "  flakes: not detected in experimental-features"
    }
}

/// The line of one tool in the dependency list.
pub open spec fn tool_line_text(found: bool, required: bool, name: Seq<char>, version: Seq<char>) -> Seq<char> {
    if found {
        (if required { "  ok       "@ } else { "  optional "@ }) + version
    } else if required {
        "  missing  "@ + name
    } else {
        "  optional "@ + name + ": not installed"@
    }
}

pub fn tool_line(found: bool, required: bool, name: &str, version: &str) -> (r: String)
    ensures
        r@ == tool_line_text(found, required, name@, version@),
{
    if found {
        if required {
            concat("  ok       ", version)
        } else {
            concat("  optional ", version)
        }
    } else if required {
        concat("  missing  ", name)
    } else {
        let mut r = concat("  optional ", name);
        r.append(": not installed");
        r
    }
}

/// What `tool --version` says of a tool: the first line of its output
/// (standard output, or standard error when that is empty) when it
/// succeeded with some text, else `NAME installed`.
pub open spec fn version_text(name: Seq<char>, success: bool, stdout: Seq<char>, stderr: Seq<char>) -> Seq<char> {
    let text = if stdout.len() == 0 { stderr } else { stdout };
    if success && trim(text).len() > 0 && lines_of(text).len() > 0 {
        lines_of(text)[0]
    } else {
        name + " installed"@
    }
}

pub fn tool_version_text(name: &str, success: bool, stdout: &str, stderr: &str) -> (r: String)
    ensures
        r@ == version_text(name@, success, stdout@, stderr@),
{
    let text = if stdout.is_empty() { stderr } else { stdout };
    if success && !trim_str(text).as_str().is_empty() {
        let ls = lines(text);
        if ls.len() > 0 {
            return ls[0].clone();
        }
    }
    concat(name, " installed")
}

/// One tool as `nr doctor` found it.
#[derive(Clone, Debug)]
pub struct ToolFact {
    pub name: String,
    pub found: bool,
    pub version: String,
}

/// What `nr doctor` looked at.
#[derive(Clone, Debug)]
pub struct DoctorFacts {
    pub target: String,
    pub user_config: Option<String>,
    pub repo_config: Option<String>,
    pub required: Vec<ToolFact>,
    pub optional: Vec<ToolFact>,
    pub git: GitSummary,
    /// The output of `git status --short`, when it ran.
    pub git_status: Option<String>,
    pub state_dir: String,
    /// Why the state directory is not writable, when it is not.
    pub state_error: Option<String>,
    /// The output of `df -Pk` on the state directory, when it succeeded.
    pub disk: Option<String>,
    /// The output of `nix show-config experimental-features`, when it
    /// succeeded.
    pub nix_features: Option<String>,
}

pub open spec fn prefixed(prefix: Seq<char>, ls: Seq<Seq<char>>) -> Seq<Seq<char>> {
    ls.map_values(|l: Seq<char>| prefix + l)
}

pub open spec fn first_n(ls: Seq<Seq<char>>, n: nat) -> Seq<Seq<char>> {
    if ls.len() <= n { ls } else { ls.take(n as int) }
}

pub open spec fn tool_lines(tools: Seq<ToolFact>, required: bool) -> Seq<Seq<char>> {
    tools.map_values(|t: ToolFact| tool_line_text(t.found, required, t.name@, t.version@))
}

pub open spec fn git_lines(g: GitSummary, status: Option<String>) -> Seq<Seq<char>> {
    if g.repository {
        seq![
            "  repository: yes"@,
            "  branch: "@ + match g.branch {
                Some(b) => b@,
                None => "detached"@,
            },
            "  status: "@ + if g.dirty { "dirty"@ } else { "clean"@ },
        ] + match status {
            Some(s) => prefixed("    "@, first_n(lines_of(s@), 20)),
            None => Seq::empty(),
        }
    } else {
        seq!["  repository: no"@]
    }
}

pub open spec fn state_lines(dir: Seq<char>, error: Option<String>, disk: Option<String>) -> Seq<Seq<char>> {
    seq![
        match error {
            None => "  writable: "@ + dir,
            Some(e) => "  not writable: "@ + dir + " ("@ + e@ + ")"@,
        },
    ] + match disk {
        Some(d) => prefixed("  "@, first_n(lines_of(d@), 2)),
        None => Seq::empty(),
    }
}

pub open spec fn nix_lines(features: Option<String>) -> Seq<Seq<char>> {
    match features {
        Some(t) => seq![
            if flakes_enabled(t@) {
                "  flakes: enabled"@
            } else {
                "  flakes: not detected in experimental-features"@
            },
        ],
        None => Seq::empty(),
    }
}

pub open spec fn opt_path(p: Option<String>) -> Seq<char> {
    match p {
        Some(x) => x@,
        None => "not found"@,
    }
}

/// Everything `nr doctor` prints.
pub open spec fn doctor_report(f: DoctorFacts) -> Seq<Seq<char>> {
    seq![
        "nr doctor"@,
        "target: "@ + f.target@,
        "user config: "@ + opt_path(f.user_config),
        "repo config: "@ + opt_path(f.repo_config),
        ""@,
        "dependencies:"@,
    ] + tool_lines(f.required@, true) + tool_lines(f.optional@, false) + seq![""@, "git:"@] + git_lines(
        f.git,
        f.git_status,
    ) + seq![""@, "state:"@] + state_lines(f.state_dir@, f.state_error, f.disk) + seq![""@, "nix:"@]
        + nix_lines(f.nix_features)
}

/// `nr doctor` fails exactly when a required tool is missing.
pub open spec fn doctor_code(f: DoctorFacts) -> i32 {
    if exists|i: int| 0 <= i < f.required@.len() && !(#[trigger] f.required@[i]).found {
        1
    } else {
        0
    }
}

fn push_line(out: &mut Vec<String>, line: String)
    ensures
        strs(final(out)@) == strs(old(out)@).push(line@),
{
    let ghost prev = out@;
    out.push(line);
    proof {
        lemma_strs_push(prev, line);
    }
}

fn push_first_lines(out: &mut Vec<String>, prefix: &str, text: &str, n: usize)
    ensures
        strs(final(out)@) == strs(old(out)@) + prefixed(prefix@, first_n(lines_of(text@), n as nat)),
{
    let ls = lines(text);
    let ghost start = strs(out@);
    let ghost want = prefixed(prefix@, first_n(lines_of(text@), n as nat));
    let end: usize = if ls.len() <= n { ls.len() } else { n };
    assert(want.len() == end);
    let mut i: usize = 0;
    while i < end
        invariant
            i <= end <= ls.len(),
            strs(ls@) == lines_of(text@),
            end == want.len(),
            want == prefixed(prefix@, first_n(lines_of(text@), n as nat)),
            end == (if ls.len() <= n { ls.len() } else { n }),
            strs(out@) == start + want.take(i as int),
        decreases end - i,
    {
        let l = concat(prefix, ls[i].as_str());
        assert(want[i as int] == l@);
        push_line(out, l);
        assert(want.take(i + 1) =~= want.take(i as int).push(l@));
        i = i + 1;
    }
    assert(want.take(end as int) =~= want);
}

fn push_tool_lines(out: &mut Vec<String>, tools: &Vec<ToolFact>, required: bool) -> (missing: bool)
    ensures
        strs(final(out)@) == strs(old(out)@) + tool_lines(tools@, required),
        missing == exists|i: int| 0 <= i < tools@.len() && !(#[trigger] tools@[i]).found,
{
    let ghost start = strs(out@);
    let ghost want = tool_lines(tools@, required);
    let mut missing = false;
    let mut i: usize = 0;
    while i < tools.len()
        invariant
            i <= tools.len(),
            want == tool_lines(tools@, required),
            strs(out@) == start + want.take(i as int),
            missing == exists|j: int| 0 <= j < i && !(#[trigger] tools@[j]).found,
        decreases tools.len() - i,
    {
        let t = &tools[i];
        let l = tool_line(t.found, required, t.name.as_str(), t.version.as_str());
        push_line(out, l);
        assert(want.take(i + 1) =~= want.take(i as int).push(l@));
        if !t.found {
            missing = true;
        }
        i = i + 1;
    }
    assert(want.take(tools@.len() as int) =~= want);
    missing
}

fn push_git_lines(out: &mut Vec<String>, g: &GitSummary, status: &Option<String>)
    ensures
        strs(final(out)@) == strs(old(out)@) + git_lines(*g, *status),
{
    proof {
        reveal_strlit("  repository: yes");
        reveal_strlit("  branch: ");
        reveal_strlit("detached");
        reveal_strlit("  status: ");
        reveal_strlit("dirty");
        reveal_strlit("clean");
    }
    let ghost start = strs(out@);
    if !g.repository {
        push_line(out, "  repository: no".to_owned());
        assert(strs(out@) =~= start + git_lines(*g, *status));
        return;
    }
    push_line(out, "  repository: yes".to_owned());
    let b = match &g.branch {
        Some(b) => concat("  branch: ", b.as_str()),
        None => concat("  branch: ", "detached"),
    };
    push_line(out, b);
    let st = if g.dirty { concat("  status: ", "dirty") } else { concat("  status: ", "clean") };
    push_line(out, st);
    let ghost mid = strs(out@);
    match status {
        Some(s) => push_first_lines(out, "    ", s.as_str(), 20),
        None => {},
    }
    assert(strs(out@) =~= start + git_lines(*g, *status));
}

fn push_state_lines(out: &mut Vec<String>, dir: &str, error: &Option<String>, disk: &Option<String>)
    ensures
        strs(final(out)@) == strs(old(out)@) + state_lines(dir@, *error, *disk),
{
    let ghost start = strs(out@);
    let first = match error {
        None => concat("  writable: ", dir),
        Some(e) => {
            let mut l = concat("  not writable: ", dir);
            l.append(" (");
            l.append(e.as_str());
            l.append(")");
            l
        },
    };
    push_line(out, first);
    match disk {
        Some(d) => push_first_lines(out, "  ", d.as_str(), 2),
        None => {},
    }
    assert(strs(out@) =~= start + state_lines(dir@, *error, *disk));
}

/// The report of `nr doctor` and its exit code, from what it found.
pub fn doctor_lines(f: &DoctorFacts) -> (r: (Vec<String>, i32))
    ensures
        strs(r.0@) == doctor_report(*f),
        r.1 == doctor_code(*f),
{
    proof {
        reveal_strlit("nr doctor");
        reveal_strlit("target: ");
        reveal_strlit("");
        reveal_strlit("dependencies:");
        reveal_strlit("git:");
        reveal_strlit("state:");
        reveal_strlit("nix:");
        reveal_strlit("user config");
        reveal_strlit("repo config");
        reveal_strlit(": ");
        reveal_strlit("user config: ");
        reveal_strlit("repo config: ");
    }
    let mut out: Vec<String> = Vec::new();
    push_line(&mut out, "nr doctor".to_owned());
    push_line(&mut out, concat("target: ", f.target.as_str()));
    let user = match &f.user_config {
        Some(p) => config_path_line("user config", Some(p)),
        None => config_path_line("user config", None),
    };
    assert(user@ =~= "user config: "@ + opt_path(f.user_config));
    push_line(&mut out, user);
    let repo = match &f.repo_config {
        Some(p) => config_path_line("repo config", Some(p)),
        None => config_path_line("repo config", None),
    };
    assert(repo@ =~= "repo config: "@ + opt_path(f.repo_config));
    push_line(&mut out, repo);
    push_line(&mut out, "".to_owned());
    push_line(&mut out, "dependencies:".to_owned());
    assert(strs(out@) =~= seq![
        "nr doctor"@,
        "target: "@ + f.target@,
        "user config: "@ + opt_path(f.user_config),
        "repo config: "@ + opt_path(f.repo_config),
        ""@,
        "dependencies:"@,
    ]);
    let missing = push_tool_lines(&mut out, &f.required, true);
    push_tool_lines(&mut out, &f.optional, false);
    push_line(&mut out, "".to_owned());
    push_line(&mut out, "git:".to_owned());
    push_git_lines(&mut out, &f.git, &f.git_status);
    push_line(&mut out, "".to_owned());
    push_line(&mut out, "state:".to_owned());
    push_state_lines(&mut out, f.state_dir.as_str(), &f.state_error, &f.disk);
    push_line(&mut out, "".to_owned());
    push_line(&mut out, "nix:".to_owned());
    let ghost before_nix = strs(out@);
    match &f.nix_features {
        Some(t) => push_line(&mut out, flakes_line(t.as_str()).to_owned()),
        None => {},
    }
    assert(strs(out@) =~= before_nix + nix_lines(f.nix_features));
    assert(strs(out@) =~= doctor_report(*f));
    (out, if missing { 1 } else { 0 })
}

} // verus!
