use vstd::prelude::*;
use vstd::string::*;
use vstd::utf8::encode_utf8;

use crate::errors::NrError;
use crate::process::{quoted, shell_quote, CommandSpec};
use crate::text::{
    chars_of, concat, eq_str, join, join_strings, lemma_strs_push, push_char, push_str, sep3, split3,
    split_on, string_of_range, strs, trim, trim_str,
};

verus! {

pub open spec fn str_views(v: Seq<&str>) -> Seq<Seq<char>> {
    v.map_values(|s: &str| s@)
}

/// `git -C FLAKE ARGS...`.
pub fn git_command(flake_path: &str, arguments: &[&str]) -> (r: CommandSpec)
    ensures
        r.program@ == "git"@,
        strs(r.args@) == seq!["-C"@, flake_path@] + str_views(arguments@),
        r.cwd is None,
{
    let mut args: Vec<String> = Vec::new();
    push_str(&mut args, "-C");
    push_str(&mut args, flake_path);
    let mut i: usize = 0;
    while i < arguments.len()
        invariant
            i <= arguments.len(),
            strs(args@) == seq!["-C"@, flake_path@] + str_views(arguments@).take(i as int),
        decreases arguments.len() - i,
    {
        push_str(&mut args, arguments[i]);
        i = i + 1;
        assert(strs(args@) =~= seq!["-C"@, flake_path@] + str_views(arguments@).take(i as int));
    }
    assert(str_views(arguments@).take(arguments.len() as int) =~= str_views(arguments@));
    CommandSpec::new("git").args(args.as_slice())
}

/// `git -C FLAKE ARGS...` with owned arguments.
pub fn git_command_owned(flake_path: &str, arguments: &[String]) -> (r: CommandSpec)
    ensures
        r.program@ == "git"@,
        strs(r.args@) == seq!["-C"@, flake_path@] + strs(arguments@),
        r.cwd is None,
{
    let mut args: Vec<String> = Vec::new();
    push_str(&mut args, "-C");
    push_str(&mut args, flake_path);
    crate::text::extend_strings(&mut args, arguments);
    CommandSpec::new("git").args(args.as_slice())
}

/// One entry of `git status --porcelain`: the index and worktree status
/// letters and the path (for a rename or copy, the new path then the old).
#[derive(Clone, Debug)]
pub struct GitStatusEntry {
    pub index: char,
    pub worktree: char,
    pub paths: Vec<String>,
}

impl GitStatusEntry {
    /// The two status letters.
    pub fn status(&self) -> (r: String)
        ensures
            r@ == seq![self.index, self.worktree],
    {
        let mut r = String::new();
        push_char(&mut r, self.index);
        push_char(&mut r, self.worktree);
        assert(r@ =~= seq![self.index, self.worktree]);
        r
    }

    pub open spec fn label_spec(&self) -> Seq<char> {
        if self.paths@.len() == 2 {
            self.paths@[1]@ + " -> "@ + self.paths@[0]@
        } else if self.paths@.len() > 0 {
            self.paths@[0]@
        } else {
            Seq::empty()
        }
    }

    /// The path, or `OLD -> NEW` for a rename.
    pub fn label(&self) -> (r: String)
        ensures
            r@ == self.label_spec(),
    {
        if self.paths.len() == 2 {
            let mut r = self.paths[1].clone();
            r.append(" -> ");
            r.append(self.paths[0].as_str());
            r
        } else if self.paths.len() > 0 {
            self.paths[0].clone()
        } else {
            String::new()
        }
    }

    pub open spec fn is_staged_only_spec(&self) -> bool {
        self.index != ' ' && self.index != '?' && self.worktree == ' '
    }

    pub open spec fn has_worktree_change_spec(&self) -> bool {
        (self.index == '?' && self.worktree == '?') || self.worktree != ' '
    }

    /// Staged, with nothing more in the worktree.
    pub fn is_staged_only(&self) -> (r: bool)
        ensures
            r == self.is_staged_only_spec(),
    {
        self.index != ' ' && self.index != '?' && self.worktree == ' '
    }

    /// Untracked, or changed in the worktree.
    pub fn has_worktree_change(&self) -> (r: bool)
        ensures
            r == self.has_worktree_change_spec(),
    {
        (self.index == '?' && self.worktree == '?') || self.worktree != ' '
    }
}

/// What `nr` shows about the flake's Git repository.
#[derive(Clone, Debug)]
pub struct GitSummary {
    pub repository: bool,
    pub branch: Option<String>,
    pub dirty: bool,
    pub untracked: usize,
}

/// The non-empty pieces of a list.
pub open spec fn non_empty_pieces(ps: Seq<Seq<char>>) -> Seq<Seq<char>>
    decreases ps.len(),
{
    if ps.len() == 0 {
        Seq::empty()
    } else if ps.last().len() == 0 {
        non_empty_pieces(ps.drop_last())
    } else {
        non_empty_pieces(ps.drop_last()).push(ps.last())
    }
}

/// The NUL-separated records of `-z` output, without empty ones.
pub open spec fn nul_records(text: Seq<char>) -> Seq<Seq<char>> {
    non_empty_pieces(split_on(text, sep3('\0', '\0', '\0')))
}

/// Splits `-z` output into its non-empty records.
pub fn nul_separated(text: &str) -> (r: Vec<String>)
    ensures
        strs(r@) == nul_records(text@),
{
    let v = chars_of(text);
    let pieces = split3(v.as_slice(), '\0', '\0', '\0');
    let mut out: Vec<String> = Vec::new();
    let mut i: usize = 0;
    assert(strs(out@) =~= non_empty_pieces(strs(pieces@).take(0)));
    while i < pieces.len()
        invariant
            i <= pieces.len(),
            strs(out@) == non_empty_pieces(strs(pieces@).take(i as int)),
        decreases pieces.len() - i,
    {
        assert(strs(pieces@).take(i + 1).drop_last() =~= strs(pieces@).take(i as int));
        assert(strs(pieces@).take(i + 1).last() == pieces@[i as int]@);
        if !pieces[i].as_str().is_empty() {
            let ghost before = out@;
            let p = pieces[i].clone();
            out.push(p);
            proof {
                lemma_strs_push(before, p);
            }
        }
        i = i + 1;
    }
    assert(strs(pieces@).take(pieces.len() as int) =~= strs(pieces@));
    out
}

/// How `{:?}` writes a string: quoted, with escapes.
pub uninterp spec fn debug_quoted(s: Seq<char>) -> Seq<char>;

/// Trusted: `format!("{:?}", s)` for a `str`, a function of `s` alone; the
/// escaping rules of `Debug` are left unsaid and named `debug_quoted`.
#[verifier::external_body]
fn debug_str(s: &str) -> (r: String)
    ensures
        r@ == debug_quoted(s@),
{
    format!("{:?}", s)
}

/// How many bytes UTF-8 takes for `c`.
pub open spec fn utf8_width(c: char) -> int {
    vstd::utf8::encode_scalar(c as u32).len() as int
}

/// How many leading characters of `r` make up exactly its first three
/// bytes; none when no character boundary falls after the third byte.
pub open spec fn three_byte_prefix(r: Seq<char>) -> Option<int> {
    if r.len() >= 1 && utf8_width(r[0]) == 3 {
        Some(1)
    } else if r.len() >= 2 && utf8_width(r[0]) + utf8_width(r[1]) == 3 {
        Some(2)
    } else if r.len() >= 3 && utf8_width(r[0]) + utf8_width(r[1]) + utf8_width(r[2]) == 3 {
        Some(3)
    } else {
        None
    }
}

/// A status record whose path can be cut off after its first three bytes:
/// one of fewer than four bytes (refused with an error), or one where a
/// character boundary falls after the third byte.
pub open spec fn record_well_formed(r: Seq<char>) -> bool {
    (encode_utf8(r).len() as usize) >= 4 ==> three_byte_prefix(r) is Some
}

/// The `i`th character of `r`, or a space when it has none.
pub open spec fn char_or_space(r: Seq<char>, i: int) -> char {
    if i < r.len() {
        r[i]
    } else {
        ' '
    }
}

fn width_of(c: char) -> (r: usize)
    ensures
        r == utf8_width(c),
{
    let v = c as u32;
    proof {
        vstd::utf8::char_is_scalar(c);
    }
    if v <= 0x7F {
        1
    } else if v <= 0x7FF {
        2
    } else if v <= 0xFFFF {
        3
    } else {
        4
    }
}

fn prefix_of_three_bytes(rc: &Vec<char>) -> (r: Option<usize>)
    ensures
        match three_byte_prefix(rc@) {
            Some(k) => r == Some(k as usize),
            None => r is None,
        },
{
    if rc.len() >= 1 && width_of(rc[0]) == 3 {
        return Some(1);
    }
    if rc.len() >= 2 && width_of(rc[0]) + width_of(rc[1]) == 3 {
        return Some(2);
    }
    if rc.len() >= 3 && width_of(rc[0]) + width_of(rc[1]) + width_of(rc[2]) == 3 {
        return Some(3);
    }
    None
}

pub open spec fn renames(c: char) -> bool {
    c == 'R' || c == 'C'
}

/// The entries that the records from position `i` on describe, or the
/// message of the first malformed record.
pub open spec fn status_from(recs: Seq<Seq<char>>, i: int, acc: Seq<(char, char, Seq<Seq<char>>)>) -> Result<
    Seq<(char, char, Seq<Seq<char>>)>,
    Seq<char>,
>
    decreases recs.len() - i,
{
    if i < 0 || i >= recs.len() {
        Ok(acc)
    } else {
        let r = recs[i];
        if (encode_utf8(r).len() as usize) < 4 {
            Err("Unexpected Git status record: "@ + debug_quoted(r))
        } else if renames(char_or_space(r, 0)) || renames(char_or_space(r, 1)) {
            if i + 1 >= recs.len() {
                Err("Unexpected Git rename/copy status record: "@ + debug_quoted(r))
            } else {
                status_from(
                    recs,
                    i + 2,
                    acc.push(
                        (
                            char_or_space(r, 0),
                            char_or_space(r, 1),
                            seq![r.skip(three_byte_prefix(r).unwrap()), recs[i + 1]],
                        ),
                    ),
                )
            }
        } else {
            status_from(
                recs,
                i + 1,
                acc.push(
                    (
                        char_or_space(r, 0),
                        char_or_space(r, 1),
                        seq![r.skip(three_byte_prefix(r).unwrap())],
                    ),
                ),
            )
        }
    }
}

pub open spec fn entry_views(v: Seq<GitStatusEntry>) -> Seq<(char, char, Seq<Seq<char>>)> {
    v.map_values(|e: GitStatusEntry| (e.index, e.worktree, strs(e.paths@)))
}

proof fn lemma_entry_views_push(s: Seq<GitStatusEntry>, e: GitStatusEntry)
    ensures
        entry_views(s.push(e)) =~= entry_views(s).push((e.index, e.worktree, strs(e.paths@))),
{
    let l = entry_views(s.push(e));
    let r = entry_views(s).push((e.index, e.worktree, strs(e.paths@)));
    assert(l.len() == r.len());
    assert forall|i: int| 0 <= i < l.len() implies l[i] == r[i] by {
        if i < s.len() {
            assert(s.push(e)[i] == s[i]);
        } else {
            assert(s.push(e)[i] == e);
        }
    }
}

/// Reads `git status --porcelain=v1 -z` output into entries.
pub fn parse_status_records(stdout: &str) -> (r: Result<Vec<GitStatusEntry>, NrError>)
    requires
        forall|k: int|
            0 <= k < nul_records(stdout@).len() ==> record_well_formed(
                #[trigger] nul_records(stdout@)[k],
            ),
    ensures
        match status_from(nul_records(stdout@), 0, Seq::empty()) {
            Ok(es) => r matches Ok(v) && entry_views(v@) == es,
            Err(m) => r matches Err(NrError::Message(x)) && x@ == m,
        },
{
    let records = nul_separated(stdout);
    let ghost recs = strs(records@);
    let mut entries: Vec<GitStatusEntry> = Vec::new();
    let mut index: usize = 0;
    assert(entry_views(entries@) =~= Seq::empty());
    while index < records.len()
        invariant
            recs == strs(records@),
            recs == nul_records(stdout@),
            forall|k: int| 0 <= k < recs.len() ==> record_well_formed(#[trigger] recs[k]),
            index <= records.len(),
            status_from(recs, 0, Seq::empty()) == status_from(recs, index as int, entry_views(entries@)),
        decreases records.len() - index,
    {
        let record = records[index].as_str();
        assert(record@ == recs[index as int]);
        let byte_len = record.len();
        if byte_len < 4 {
            let mut m = "Unexpected Git status record: ".to_owned();
            m.append(debug_str(record).as_str());
            return Err(NrError::Message(m));
        }
        let rc = chars_of(record);
        assert(record_well_formed(recs[index as int]));
        let index_status = if rc.len() > 0 {
            rc[0]
        } else {
            ' '
        };
        let worktree_status = if rc.len() > 1 {
            rc[1]
        } else {
            ' '
        };
        let cut = match prefix_of_three_bytes(&rc) {
            Some(k) => k,
            None => {
                proof {
                    assert(false);
                }
                0
            },
        };
        let path = string_of_range(rc.as_slice(), cut, rc.len());
        assert(path@ =~= record@.skip(cut as int));
        index = index + 1;
        if index_status == 'R' || index_status == 'C' || worktree_status == 'R' || worktree_status
            == 'C' {
            if index >= records.len() {
                let mut m = "Unexpected Git rename/copy status record: ".to_owned();
                m.append(debug_str(record).as_str());
                return Err(NrError::Message(m));
            }
            let old_path = records[index].clone();
            index = index + 1;
            let mut paths: Vec<String> = Vec::new();
            let ghost p0 = path@;
            let ghost p1 = old_path@;
            paths.push(path);
            paths.push(old_path);
            assert(strs(paths@) =~= seq![p0, p1]);
            let ghost before = entries@;
            let e = GitStatusEntry { index: index_status, worktree: worktree_status, paths };
            let ghost ev = e;
            assert(strs(ev.paths@) == seq![p0, p1]);
            entries.push(e);
            assert(entries@ =~= before.push(ev));
            proof { lemma_entry_views_push(before, ev); }
        } else {
            let mut paths: Vec<String> = Vec::new();
            let ghost p0 = path@;
            paths.push(path);
            assert(strs(paths@) =~= seq![p0]);
            let ghost before = entries@;
            let e = GitStatusEntry { index: index_status, worktree: worktree_status, paths };
            let ghost ev = e;
            assert(strs(ev.paths@) == seq![p0]);
            entries.push(e);
            assert(entries@ =~= before.push(ev));
            proof { lemma_entry_views_push(before, ev); }
        }
    }
    Ok(entries)
}

/// The branch that `git branch --show-current` printed; a detached HEAD
/// prints nothing, and cannot be pushed.
pub fn branch_from_output(stdout: &str) -> (r: Result<String, NrError>)
    ensures
        trim(stdout@).len() == 0 ==> (r matches Err(NrError::Message(m)) && m@
            == "Cannot push from a detached HEAD."@),
        trim(stdout@).len() > 0 ==> (r matches Ok(b) && b@ == trim(stdout@)),
{
    let branch = trim_str(stdout);
    if branch.as_str().is_empty() {
        return Err(NrError::message("Cannot push from a detached HEAD."));
    }
    Ok(branch)
}

/// Whether `git rev-parse --is-inside-work-tree` confirmed a work tree.
pub fn is_inside_work_tree(code: i32, stdout: &str) -> (r: bool)
    ensures
        r == (code == 0 && trim(stdout@) == "true"@),
{
    let t = trim_str(stdout);
    code == 0 && eq_str(t.as_str(), "true")
}

pub open spec fn untracked_message(flake_path: Seq<char>, untracked: Seq<Seq<char>>) -> Seq<char> {
    let formatted = join(untracked.map_values(|n: Seq<char>| "  "@ + n), "\n"@);
    let suggestion = join(
        (seq!["git"@, "-C"@, flake_path, "add"@, "--"@] + untracked).map_values(
            |p: Seq<char>| quoted(p),
        ),
        " "@,
    );
    "Untracked files are invisible to Git flakes.\n"@ + formatted
        + "\n\nStage or remove them intentionally, then retry. Suggested command:\n  "@ + suggestion
}

/// The refusal for untracked files, which a Git flake cannot see: `None`
/// when there are none.
pub fn untracked_files_error(flake_path: &str, untracked: &[String]) -> (r: Option<NrError>)
    ensures
        untracked@.len() == 0 ==> r is None,
        untracked@.len() > 0 ==> (r matches Some(NrError::Message(m)) && m@ == untracked_message(
            flake_path@,
            strs(untracked@),
        )),
{
    if untracked.len() == 0 {
        return None;
    }
    let mut lines: Vec<String> = Vec::new();
    let mut i: usize = 0;
    while i < untracked.len()
        invariant
            i <= untracked.len(),
            strs(lines@) == strs(untracked@).take(i as int).map_values(|n: Seq<char>| "  "@ + n),
        decreases untracked.len() - i,
    {
        let mut l = "  ".to_owned();
        l.append(untracked[i].as_str());
        let ghost before = lines@;
        lines.push(l);
        proof {
            lemma_strs_push(before, l);
        }
        i = i + 1;
        assert(strs(lines@) =~= strs(untracked@).take(i as int).map_values(
            |n: Seq<char>| "  "@ + n,
        ));
    }
    assert(strs(untracked@).take(untracked.len() as int) =~= strs(untracked@));
    let formatted = join_strings(lines.as_slice(), "\n");
    let mut parts: Vec<String> = Vec::new();
    push_str(&mut parts, "git");
    push_str(&mut parts, "-C");
    push_str(&mut parts, flake_path);
    push_str(&mut parts, "add");
    push_str(&mut parts, "--");
    crate::text::extend_strings(&mut parts, untracked);
    let ghost all = strs(parts@);
    assert(all =~= seq!["git"@, "-C"@, flake_path@, "add"@, "--"@] + strs(untracked@));
    let mut quoted_parts: Vec<String> = Vec::new();
    let mut k: usize = 0;
    while k < parts.len()
        invariant
            k <= parts.len(),
            all == strs(parts@),
            strs(quoted_parts@) == all.take(k as int).map_values(|p: Seq<char>| quoted(p)),
        decreases parts.len() - k,
    {
        let q = shell_quote(parts[k].as_str());
        let ghost before = quoted_parts@;
        quoted_parts.push(q);
        proof {
            lemma_strs_push(before, q);
        }
        k = k + 1;
        assert(strs(quoted_parts@) =~= all.take(k as int).map_values(|p: Seq<char>| quoted(p)));
    }
    assert(all.take(parts.len() as int) =~= all);
    let suggestion = join_strings(quoted_parts.as_slice(), " ");
    let mut m = "Untracked files are invisible to Git flakes.\n".to_owned();
    m.append(formatted.as_str());
    m.append("\n\nStage or remove them intentionally, then retry. Suggested command:\n  ");
    m.append(suggestion.as_str());
    Some(NrError::Message(m))
}

/// `git -C FLAKE add -A`.
pub fn add_all_command(flake_path: &str) -> (r: CommandSpec)
    ensures
        r.program@ == "git"@,
        strs(r.args@) == seq!["-C"@, flake_path@, "add"@, "-A"@],
{
    let r = git_command(flake_path, &["add", "-A"]);
    assert(str_views(seq!["add", "-A"]) =~= seq!["add"@, "-A"@]);
    r
}

/// `git -C FLAKE add -A -- PATHS...`.
pub fn add_paths_command(flake_path: &str, paths: &[String]) -> (r: CommandSpec)
    ensures
        r.program@ == "git"@,
        strs(r.args@) == seq!["-C"@, flake_path@, "add"@, "-A"@, "--"@] + strs(paths@),
{
    let mut args: Vec<String> = Vec::new();
    push_str(&mut args, "add");
    push_str(&mut args, "-A");
    push_str(&mut args, "--");
    crate::text::extend_strings(&mut args, paths);
    git_command_owned(flake_path, args.as_slice())
}

/// `git -C FLAKE commit -m MESSAGE`.
pub fn commit_command(flake_path: &str, message: &str) -> (r: CommandSpec)
    ensures
        r.program@ == "git"@,
        strs(r.args@) == seq!["-C"@, flake_path@, "commit"@, "-m"@, message@],
{
    let mut args: Vec<String> = Vec::new();
    push_str(&mut args, "commit");
    push_str(&mut args, "-m");
    push_str(&mut args, message);
    git_command_owned(flake_path, args.as_slice())
}

/// `git -C FLAKE push ARGS...`.
pub fn push_command(flake_path: &str, args: &[String]) -> (r: CommandSpec)
    ensures
        r.program@ == "git"@,
        strs(r.args@) == seq!["-C"@, flake_path@, "push"@] + strs(args@),
{
    let mut all: Vec<String> = Vec::new();
    push_str(&mut all, "push");
    crate::text::extend_strings(&mut all, args);
    git_command_owned(flake_path, all.as_slice())
}


/// The summary shown in headers: outside a repository nothing is known;
/// inside, the branch, whether `git status --short` printed anything, and
/// how many files are untracked.
pub fn git_summary_from(repository: bool, branch: Option<String>, status: &str, untracked: usize) -> (r:
    GitSummary)
    ensures
        r.repository == repository,
        !repository ==> r.branch is None && !r.dirty && r.untracked == 0,
        repository ==> r.branch == branch && r.dirty == (trim(status@).len() > 0) && r.untracked
            == untracked,
{
    if !repository {
        return GitSummary { repository: false, branch: None, dirty: false, untracked: 0 };
    }
    let t = trim_str(status);
    GitSummary { repository: true, branch, dirty: !t.as_str().is_empty(), untracked }
}

/// The error for a flake directory outside Git.
pub fn ensure_git_repository(flake_path: &str, is_repository: bool) -> (r: Result<(), NrError>)
    ensures
        is_repository ==> r is Ok,
        !is_repository ==> (r matches Err(NrError::Message(m)) && m@ == "Not a Git repository: "@
            + flake_path@),
{
    if !is_repository {
        return Err(NrError::Message(concat("Not a Git repository: ", flake_path)));
    }
    Ok(())
}

/// A path given as a string.
pub fn path_from_string(value: &str) -> (r: String)
    ensures
        r@ == value@,
{
    value.to_owned()
}

} // verus!
