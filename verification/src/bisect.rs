use vstd::prelude::*;

use crate::errors::NrError;
use crate::generations::{
    current_generation, current_index, latest_below_upto, resolve_generation_reference,
    PinsFile, SystemGeneration,
};
use crate::git::GitStatusEntry;
use crate::process::CommandSpec;
use crate::text::{
    chars_of, eq_str, parse_u64, parse_u64_spec, string_of_range, strs, trim, trim_str,
};

verus! {

/// The revision strings that say no commit was recorded.
pub open spec fn is_placeholder_revision(v: Seq<char>) -> bool {
    v == "unknown"@ || v == "dirty"@ || v == "null"@ || v == "none"@ || v == "N/A"@ || v == "-"@
}

/// A generation's recorded configuration revision, trimmed, unless it is
/// empty or a placeholder.
pub fn clean_generation_revision(value: &str) -> (r: Option<String>)
    ensures
        (trim(value@).len() == 0 || is_placeholder_revision(trim(value@))) ==> r is None,
        !(trim(value@).len() == 0 || is_placeholder_revision(trim(value@))) ==> (r matches Some(s)
            && s@ == trim(value@)),
{
    let value = trim_str(value);
    let v = value.as_str();
    if chars_of(v).len() == 0 || eq_str(v, "unknown") || eq_str(v, "dirty") || eq_str(v, "null")
        || eq_str(v, "none") || eq_str(v, "N/A") || eq_str(v, "-") {
        return None;
    }
    Some(value)
}

/// The number of the highest generation below `generation`.
pub fn previous_generation_before(generations: &[SystemGeneration], generation: u64) -> (r: Option<
    u64,
>)
    ensures
        match r {
            Some(n) => exists|j: int|
                latest_below_upto(generations@, generation, j, generations@.len() as int)
                    && generations@[j].generation == n,
            None => forall|k: int|
                0 <= k < generations@.len() ==> (#[trigger] generations@[k]).generation
                    >= generation,
        },
{
    let mut best: Option<usize> = None;
    let mut i: usize = 0;
    while i < generations.len()
        invariant
            i <= generations.len(),
            match best {
                None => forall|k: int|
                    0 <= k < i ==> (#[trigger] generations@[k]).generation >= generation,
                Some(b) => latest_below_upto(generations@, generation, b as int, i as int),
            },
        decreases generations.len() - i,
    {
        let g = generations[i].generation;
        if g < generation {
            match best {
                None => {
                    best = Some(i);
                },
                Some(b) => {
                    if g >= generations[b].generation {
                        best = Some(i);
                    }
                },
            }
        }
        i = i + 1;
    }
    match best {
        Some(b) => Some(generations[b].generation),
        None => None,
    }
}

/// What a bisect endpoint names: `current`, a generation number, a pin, or
/// (giving `None`) something else, taken as a Git revision.
pub fn generation_number_for_reference(value: &str, generations: &[SystemGeneration], pins: &PinsFile) -> (r:
    Result<Option<u64>, NrError>)
    requires
        pins.well_formed(),
    ensures
        value@ == "current"@ ==> r == Ok::<Option<u64>, NrError>(
            match current_index(generations@) {
                Some(i) => Some(generations@[i].generation),
                None => None,
            },
        ),
        value@ != "current"@ ==> (parse_u64_spec(value@) matches Some(n) ==> r == Ok::<
            Option<u64>,
            NrError,
        >(Some(n))),
        value@ != "current"@ && parse_u64_spec(value@) is None && pins.pin_map().contains_key(
            value@,
        ) ==> r == Ok::<Option<u64>, NrError>(Some(pins.pin_map()[value@])),
        value@ != "current"@ && parse_u64_spec(value@) is None && !pins.pin_map().contains_key(
            value@,
        ) ==> r == Ok::<Option<u64>, NrError>(None),
{
    if eq_str(value, "current") {
        return Ok(
            match current_generation(generations) {
                Some(g) => Some(g.generation),
                None => None,
            },
        );
    }
    let chars = chars_of(value);
    if parse_u64(chars.as_slice()).is_some() || pins.contains_key(value) {
        return match resolve_generation_reference(value, pins) {
            Ok(n) => Ok(Some(n)),
            Err(e) => Err(e),
        };
    }
    Ok(None)
}

/// The cleaned configuration revision of the first generation with the
/// given number, if it recorded one.
pub fn recorded_revision(generations: &[SystemGeneration], generation: u64) -> (r: Option<String>)
    ensures
        match r {
            Some(s) => exists|i: int|
                0 <= i < generations@.len() && generations@[i].generation == generation && (forall|
                    j: int,
                | 0 <= j < i ==> (#[trigger] generations@[j]).generation != generation)
                    && !(trim(generations@[i].configuration_revision@).len() == 0
                    || is_placeholder_revision(trim(generations@[i].configuration_revision@)))
                    && s@ == trim(generations@[i].configuration_revision@),
            None => forall|i: int|
                0 <= i < generations@.len() && generations@[i].generation == generation && (forall|
                    j: int,
                | 0 <= j < i ==> (#[trigger] generations@[j]).generation != generation) ==> (trim(
                    generations@[i].configuration_revision@,
                ).len() == 0 || is_placeholder_revision(
                    trim(generations@[i].configuration_revision@),
                )),
        },
{
    let mut i: usize = 0;
    while i < generations.len()
        invariant
            i <= generations.len(),
            forall|j: int| 0 <= j < i ==> (#[trigger] generations@[j]).generation != generation,
        decreases generations.len() - i,
    {
        if generations[i].generation == generation {
            return clean_generation_revision(generations[i].configuration_revision.as_str());
        }
        i = i + 1;
    }
    None
}

/// One record of the lifecycle history: the generation a run produced and
/// the commit it was built from.
#[derive(Clone, Debug)]
pub struct HistoryEntry {
    pub new_generation: Option<u64>,
    pub git_revision: Option<String>,
}

/// The last history record that produced `generation`, if any.
pub open spec fn last_entry_for(entries: Seq<HistoryEntry>, generation: u64) -> Option<int>
    decreases entries.len(),
{
    if entries.len() == 0 {
        None
    } else if entries.last().new_generation == Some(generation) {
        Some(entries.len() - 1)
    } else {
        last_entry_for(entries.drop_last(), generation)
    }
}

/// The commit recorded by the latest history record for `generation`.
pub fn history_revision_for_generation_in(entries: &[HistoryEntry], generation: u64) -> (r: Option<
    String,
>)
    ensures
        match last_entry_for(entries@, generation) {
            Some(i) => match entries@[i].git_revision {
                Some(g) => r matches Some(s) && s@ == g@,
                None => r is None,
            },
            None => r is None,
        },
{
    let mut i: usize = entries.len();
    assert(entries@.take(i as int) =~= entries@);
    while i > 0
        invariant
            i <= entries.len(),
            last_entry_for(entries@, generation) == last_entry_for(entries@.take(i as int), generation),
        decreases i,
    {
        let ghost t = entries@.take(i as int);
        assert(t.drop_last() =~= entries@.take(i - 1));
        if entries[i - 1].new_generation == Some(generation) {
            return match &entries[i - 1].git_revision {
                Some(g) => Some(g.clone()),
                None => None,
            };
        }
        i = i - 1;
    }
    None
}

/// At most the first twelve characters of a revision.
pub fn short_revision(value: &str) -> (r: String)
    ensures
        r@ == value@.take(if value@.len() < 12 { value@.len() as int } else { 12 }),
{
    let chars = chars_of(value);
    let end: usize = if chars.len() < 12 { chars.len() } else { 12 };
    string_of_range(chars.as_slice(), 0, end)
}

/// `git -C PATH bisect run PROBE...`.
pub fn git_bisect_run_command(flake_path: &str, probe: &CommandSpec) -> (r: CommandSpec)
    ensures
        r.program@ == "git"@,
        strs(r.args@) == seq!["-C"@, flake_path@, "bisect"@, "run"@] + probe.argv(),
        r.cwd is None,
{
    let mut first: Vec<String> = Vec::new();
    first.push("bisect".to_owned());
    first.push("run".to_owned());
    first.push(probe.program.clone());
    let r = CommandSpec::new("git").arg("-C").arg(flake_path).args(first.as_slice()).args(
        probe.args.as_slice(),
    );
    assert(strs(first@) =~= seq!["bisect"@, "run"@, probe.program@]);
    assert(strs(r.args@) =~= seq!["-C"@, flake_path@, "bisect"@, "run"@] + probe.argv());
    r
}

/// What `git bisect run` checks at each commit.
#[derive(Clone, Copy, Debug, PartialEq, Eq, Structural)]
pub enum BisectProbe {
    Build,
    Preview,
    Check,
}

/// The arguments of `nr bisect`.
#[derive(Clone, Debug)]
pub struct BisectArgs {
    pub broken: String,
    pub good: Option<String>,
    pub bad: Option<String>,
    pub probe: BisectProbe,
    pub allow_dirty: bool,
    pub no_reset: bool,
    pub command: Vec<String>,
}

pub open spec fn probe_word(probe: BisectProbe) -> Seq<char> {
    match probe {
        BisectProbe::Build => "build"@,
        BisectProbe::Preview => "preview"@,
        BisectProbe::Check => "check"@,
    }
}

/// The command `git bisect run` calls at each commit, as argv.
pub open spec fn probe_argv(
    command: Seq<Seq<char>>,
    probe: BisectProbe,
    executable: Seq<char>,
    flake_reference: Seq<char>,
    offline: bool,
    show_trace: bool,
) -> Seq<Seq<char>> {
    let given = crate::backend::passthrough(command);
    if given.len() > 0 {
        given
    } else {
        seq![executable, "--flake"@, flake_reference, "--ui"@, "plain"@]
            + (if offline { seq!["--offline"@] } else { Seq::empty() })
            + (if show_trace { seq!["--show-trace"@] } else { Seq::empty() })
            + seq![probe_word(probe)]
    }
}

/// The probe: the command given after `--`, or `nr` itself run on the
/// target with the plain UI and the chosen check.
pub fn bisect_probe_command(
    args: &BisectArgs,
    executable: &str,
    flake_reference: &str,
    offline: bool,
    show_trace: bool,
) -> (r: CommandSpec)
    ensures
        r.argv() == probe_argv(strs(args.command@), args.probe, executable@, flake_reference@, offline, show_trace),
        r.cwd is None,
{
    proof {
        reveal_strlit("build");
        reveal_strlit("preview");
        reveal_strlit("check");
    }
    let command = crate::backend::passthrough_args(args.command.as_slice());
    if command.len() > 0 {
        let mut rest: Vec<String> = Vec::new();
        let mut i: usize = 1;
        while i < command.len()
            invariant
                1 <= i <= command.len(),
                strs(rest@) == strs(command@).subrange(1, i as int),
            decreases command.len() - i,
        {
            let ghost prev = rest@;
            rest.push(command[i].clone());
            proof {
                crate::text::lemma_strs_push(prev, command@[i as int]);
                assert(strs(command@).subrange(1, i + 1) =~= strs(command@).subrange(1, i as int).push(
                    command@[i as int]@,
                ));
            }
            i = i + 1;
        }
        let r = CommandSpec::new(command[0].as_str()).args(rest.as_slice());
        assert(r.argv() =~= strs(command@));
        return r;
    }
    let mut r = CommandSpec::new(executable).arg("--flake").arg(flake_reference).arg("--ui").arg("plain");
    if offline {
        r = r.arg("--offline");
    }
    if show_trace {
        r = r.arg("--show-trace");
    }
    let word = match args.probe {
        BisectProbe::Build => "build",
        BisectProbe::Preview => "preview",
        BisectProbe::Check => "check",
    };
    let r = r.arg(word);
    assert(r.argv() =~= probe_argv(strs(args.command@), args.probe, executable@, flake_reference@, offline, show_trace));
    r
}

pub open spec fn dirty_lines(entries: Seq<GitStatusEntry>) -> Seq<Seq<char>> {
    entries.map_values(|e: GitStatusEntry| "  "@ + seq![e.index, e.worktree] + " "@ + e.label_spec())
}

pub open spec fn unclean_message(entries: Seq<GitStatusEntry>) -> Seq<char> {
    "Git worktree must be clean before bisecting.\n"@ + crate::text::join(dirty_lines(entries), "\n"@)
        + "\n\nCommit, stash, or rerun with --allow-dirty."@
}

/// Refuses to bisect a worktree with changes, unless allowed; the error
/// lists each change.
pub fn ensure_clean_for_bisect(entries: &[GitStatusEntry], allow_dirty: bool) -> (r: Result<(), NrError>)
    ensures
        (allow_dirty || entries@.len() == 0) ==> r is Ok,
        !(allow_dirty || entries@.len() == 0) ==> (r matches Err(NrError::Message(m)) && m@
            == unclean_message(entries@)),
{
    if allow_dirty || entries.len() == 0 {
        return Ok(());
    }
    proof {
        reveal_strlit("  ");
        reveal_strlit(" ");
    }
    let mut lines: Vec<String> = Vec::new();
    let mut i: usize = 0;
    while i < entries.len()
        invariant
            i <= entries.len(),
            strs(lines@) == dirty_lines(entries@).take(i as int),
        decreases entries.len() - i,
    {
        let mut l = "  ".to_owned();
        l.append(entries[i].status().as_str());
        l.append(" ");
        l.append(entries[i].label().as_str());
        let ghost prev = lines@;
        lines.push(l);
        proof {
            crate::text::lemma_strs_push(prev, l);
            assert(dirty_lines(entries@).take(i + 1) =~= dirty_lines(entries@).take(i as int).push(l@));
        }
        i = i + 1;
    }
    assert(dirty_lines(entries@).take(entries@.len() as int) =~= dirty_lines(entries@));
    let mut m = "Git worktree must be clean before bisecting.\n".to_owned();
    m.append(crate::text::join_strings(lines.as_slice(), "\n").as_str());
    m.append("\n\nCommit, stash, or rerun with --allow-dirty.");
    Err(NrError::Message(m))
}

/// The argument of `git rev-parse --verify` that names a commit.
pub fn rev_parse_spec(value: &str) -> (r: String)
    ensures
        r@ == value@ + "^{commit}"@,
{
    let mut r = value.to_owned();
    r.append("^{commit}");
    r
}

/// What `git rev-parse --verify` said: the commit, trimmed, or an error
/// when it failed.
pub fn rev_parse_result(code: i32, stdout: &str, value: &str) -> (r: Result<String, NrError>)
    ensures
        code != 0 ==> (r matches Err(NrError::Message(m)) && m@ == "Unknown Git revision: "@ + value@),
        code == 0 ==> (r matches Ok(s) && s@ == trim(stdout@)),
{
    if code != 0 {
        let mut m = "Unknown Git revision: ".to_owned();
        m.append(value);
        return Err(NrError::Message(m));
    }
    Ok(trim_str(stdout))
}

/// Bisecting needs two different commits.
pub fn check_distinct_revisions(good: &str, bad: &str) -> (r: Result<(), NrError>)
    ensures
        good@ != bad@ ==> r is Ok,
        good@ == bad@ ==> (r matches Err(NrError::Message(m)) && m@
            == "Good and bad revisions resolve to the same commit: "@ + good@),
{
    if !eq_str(good, bad) {
        return Ok(());
    }
    let mut m = "Good and bad revisions resolve to the same commit: ".to_owned();
    m.append(good);
    Err(NrError::Message(m))
}

/// The error when neither the generations nor the history record a
/// revision for a generation.
pub fn no_revision_error(generation: u64) -> (r: NrError)
    ensures
        r matches NrError::Message(m) && m@ == "No Git revision recorded for generation "@ + crate::text::decimal(
            generation as nat,
        ) + ". Pass a commit with --good or --bad."@,
{
    let mut m = "No Git revision recorded for generation ".to_owned();
    crate::text::push_decimal(&mut m, generation);
    m.append(". Pass a commit with --good or --bad.");
    NrError::Message(m)
}

/// The good revision when `--good` is not given: the generation before the
/// broken one, which must be a generation.
pub fn default_good_generation(broken: Option<u64>, generations: &[SystemGeneration]) -> (r: Result<u64, NrError>)
    ensures
        broken is None ==> (r matches Err(NrError::Message(m)) && m@
            == "Pass --good when BAD_GENERATION_OR_REV is not a generation."@),
        broken matches Some(g) ==> match r {
            Ok(p) => exists|j: int|
                latest_below_upto(generations@, g, j, generations@.len() as int)
                    && generations@[j].generation == p,
            Err(e) => {
                &&& forall|k: int|
                    0 <= k < generations@.len() ==> (#[trigger] generations@[k]).generation >= g
                &&& e matches NrError::Message(m) && m@ == "No previous generation found before "@
                    + crate::text::decimal(g as nat) + "; pass --good."@
            },
        },
{
    let g = match broken {
        Some(g) => g,
        None => return Err(NrError::Message("Pass --good when BAD_GENERATION_OR_REV is not a generation.".to_owned())),
    };
    match previous_generation_before(generations, g) {
        Some(p) => Ok(p),
        None => {
            let mut m = "No previous generation found before ".to_owned();
            crate::text::push_decimal(&mut m, g);
            m.append("; pass --good.");
            Err(NrError::Message(m))
        },
    }
}

} // verus!
