use vstd::prelude::*;

use crate::cli::PublishMode;
use crate::errors::NrError;
use crate::git::{push_command, GitStatusEntry};
use crate::process::CommandSpec;
use crate::text::{
    chars_of, concat, eq_str, extend_strings, push_str, starts_with, starts_with_str, strs, trim,
    trim_str,
};

verus! {

/// The commit-mode keys offered when `--mode` is not given.
pub open spec fn mode_of_key(key: Seq<char>) -> Option<PublishMode> {
    if key == "commit"@ || key == "single"@ {
        Some(PublishMode::Commit)
    } else if key == "per-file"@ {
        Some(PublishMode::PerFile)
    } else {
        None
    }
}

pub fn publish_mode_for_choice(key: &str) -> (r: Option<PublishMode>)
    ensures
        r == mode_of_key(key@),
{
    if eq_str(key, "commit") || eq_str(key, "single") {
        Some(PublishMode::Commit)
    } else if eq_str(key, "per-file") {
        Some(PublishMode::PerFile)
    } else {
        None
    }
}

/// A commit message is only given for a single commit.
pub fn check_publish_mode(mode: PublishMode, message: Option<&str>) -> (r: Result<(), NrError>)
    ensures
        mode == PublishMode::PerFile && message is Some ==> (r matches Err(NrError::Message(m)) && m@
            == "--message can only be used with --mode single."@),
        !(mode == PublishMode::PerFile && message is Some) ==> r is Ok,
{
    if mode == PublishMode::PerFile && message.is_some() {
        return Err(NrError::message("--message can only be used with --mode single."));
    }
    Ok(())
}

/// The commit message: `--message` trimmed, else the answer to the prompt
/// (whose default is `commit`); an empty message is refused and a missing
/// answer is an error.
pub fn commit_message(message: Option<&str>, entered: Option<&str>) -> (r: Result<String, NrError>)
    ensures
        ({
            let chosen = match message {
                Some(m) => Some(m@),
                None => match entered {
                    Some(e) => Some(e@),
                    None => None,
                },
            };
            match chosen {
                None => r matches Err(NrError::Message(m)) && m@ == "Commit message is required."@,
                Some(v) => if trim(v).len() == 0 {
                    r matches Err(NrError::Message(m)) && m@ == "Commit message cannot be empty."@
                } else {
                    r matches Ok(s) && s@ == trim(v)
                },
            }
        }),
{
    let value = match message {
        Some(m) => m,
        None => match entered {
            Some(e) => e,
            None => return Err(NrError::message("Commit message is required.")),
        },
    };
    let t = trim_str(value);
    if chars_of(t.as_str()).len() == 0 {
        return Err(NrError::message("Commit message cannot be empty."));
    }
    Ok(t)
}

/// Per-file publishing refuses an index that already spans several files.
pub fn check_pre_staged(staged: &[String]) -> (r: Result<(), NrError>)
    ensures
        staged@.len() > 1 ==> (r matches Err(NrError::Message(m)) && m@
            == "Per-file publish refuses pre-staged changes spanning multiple files. Commit or unstage them first."@),
        staged@.len() <= 1 ==> r is Ok,
{
    if staged.len() > 1 {
        return Err(
            NrError::message(
                "Per-file publish refuses pre-staged changes spanning multiple files. Commit or unstage them first.",
            ),
        );
    }
    Ok(())
}

/// A change that per-file publishing offers: one with worktree changes
/// that is not only staged and was not skipped before.
pub open spec fn offerable(e: GitStatusEntry, skipped: Seq<Seq<Seq<char>>>) -> bool {
    !e.is_staged_only_spec() && e.has_worktree_change_spec() && !skipped.contains(strs(e.paths@))
}

fn same_paths(a: &Vec<String>, b: &Vec<String>) -> (r: bool)
    ensures
        r == (strs(a@) == strs(b@)),
{
    if a.len() != b.len() {
        assert(strs(a@).len() != strs(b@).len());
        return false;
    }
    let mut i: usize = 0;
    while i < a.len()
        invariant
            i <= a.len() == b.len(),
            forall|k: int| 0 <= k < i ==> a@[k]@ == b@[k]@,
        decreases a.len() - i,
    {
        if !eq_str(a[i].as_str(), b[i].as_str()) {
            assert(strs(a@)[i as int] != strs(b@)[i as int]);
            return false;
        }
        i = i + 1;
    }
    assert(strs(a@) =~= strs(b@));
    true
}

/// The next change to offer, the first offerable one in status order.
pub fn next_per_file_change(entries: &[GitStatusEntry], skipped: &Vec<Vec<String>>) -> (r: Option<usize>)
    ensures
        match r {
            Some(i) => i < entries@.len() && offerable(
                entries@[i as int],
                skipped@.map_values(|p: Vec<String>| strs(p@)),
            ) && forall|j: int|
                0 <= j < i ==> !offerable(
                    #[trigger] entries@[j],
                    skipped@.map_values(|p: Vec<String>| strs(p@)),
                ),
            None => forall|j: int|
                0 <= j < entries@.len() ==> !offerable(
                    #[trigger] entries@[j],
                    skipped@.map_values(|p: Vec<String>| strs(p@)),
                ),
        },
{
    let ghost sk = skipped@.map_values(|p: Vec<String>| strs(p@));
    let mut i: usize = 0;
    while i < entries.len()
        invariant
            i <= entries.len(),
            sk == skipped@.map_values(|p: Vec<String>| strs(p@)),
            forall|j: int| 0 <= j < i ==> !offerable(#[trigger] entries@[j], sk),
        decreases entries.len() - i,
    {
        let e = &entries[i];
        if !e.is_staged_only() && e.has_worktree_change() {
            let mut k: usize = 0;
            let mut found = false;
            while k < skipped.len()
                invariant
                    k <= skipped.len(),
                    sk == skipped@.map_values(|p: Vec<String>| strs(p@)),
                    !found ==> forall|m: int| 0 <= m < k ==> sk[m] != strs(e.paths@),
                    found ==> sk.contains(strs(e.paths@)),
                decreases skipped.len() - k,
            {
                if !found && same_paths(&skipped[k], &e.paths) {
                    assert(sk[k as int] == strs(e.paths@));
                    found = true;
                }
                k = k + 1;
            }
            if !found {
                assert(!sk.contains(strs(e.paths@))) by {
                    if sk.contains(strs(e.paths@)) {
                        let m = choose|m: int| 0 <= m < sk.len() && sk[m] == strs(e.paths@);
                        assert(sk[m] != strs(e.paths@));
                    }
                }
                return Some(i);
            }
        }
        i = i + 1;
    }
    None
}

/// `git -C PATH restore --staged -- PATHS...`, putting a declined change
/// back into the worktree.
pub fn restore_staged_command(flake_path: &str, paths: &[String]) -> (r: CommandSpec)
    ensures
        r.program@ == "git"@,
        strs(r.args@) == seq!["-C"@, flake_path@, "restore"@, "--staged"@, "--"@] + strs(paths@),
        r.cwd is None,
{
    let mut args: Vec<String> = Vec::new();
    push_str(&mut args, "restore");
    push_str(&mut args, "--staged");
    push_str(&mut args, "--");
    extend_strings(&mut args, paths);
    let r = CommandSpec::new("git").arg("-C").arg(flake_path).args(args.as_slice());
    assert(strs(r.args@) =~= seq!["-C"@, flake_path@, "restore"@, "--staged"@, "--"@] + strs(paths@));
    r
}

/// The push command: plain when the branch tracks an upstream, else
/// setting the remote branch as upstream.
pub fn publish_push_command(flake_path: &str, remote: &str, branch: &str, has_upstream: bool) -> (r:
    CommandSpec)
    ensures
        r.program@ == "git"@,
        has_upstream ==> strs(r.args@) == seq!["-C"@, flake_path@, "push"@],
        !has_upstream ==> strs(r.args@) == seq![
            "-C"@,
            flake_path@,
            "push"@,
            "--set-upstream"@,
            remote@,
            branch@,
        ],
{
    let mut args: Vec<String> = Vec::new();
    if !has_upstream {
        push_str(&mut args, "--set-upstream");
        push_str(&mut args, remote);
        push_str(&mut args, branch);
    }
    let r = push_command(flake_path, args.as_slice());
    assert(has_upstream ==> strs(args@) =~= Seq::<Seq<char>>::empty());
    r
}

/// Whether a repository is already given as a URL rather than `owner/name`.
pub open spec fn is_repo_url(value: Seq<char>) -> bool {
    starts_with(value, "https://"@) || starts_with(value, "ssh://"@) || starts_with(value, "git@"@)
}

pub fn repo_is_url(value: &str) -> (r: bool)
    ensures
        r == is_repo_url(value@),
{
    starts_with_str(value, "https://") || starts_with_str(value, "ssh://") || starts_with_str(
        value,
        "git@",
    )
}

/// How to add a remote by hand.
pub fn manual_remote_instructions(flake_path: &str, remote: &str) -> (r: Vec<String>)
    ensures
        strs(r@) == seq![
            "Add a remote manually, then run publish again or push directly:"@,
            "  git -C "@ + flake_path@ + " remote add "@ + remote@ + " https://github.com/OWNER/REPO.git"@,
            "  git -C "@ + flake_path@ + " push --set-upstream "@ + remote@ + " $(git -C "@ + flake_path@
                + " branch --show-current)"@,
        ],
{
    let mut r: Vec<String> = Vec::new();
    r.push("Add a remote manually, then run publish again or push directly:".to_owned());
    let mut a = "  git -C ".to_owned();
    a.append(flake_path);
    a.append(" remote add ");
    a.append(remote);
    a.append(" https://github.com/OWNER/REPO.git");
    r.push(a);
    let mut b = "  git -C ".to_owned();
    b.append(flake_path);
    b.append(" push --set-upstream ");
    b.append(remote);
    b.append(" $(git -C ");
    b.append(flake_path);
    b.append(" branch --show-current)");
    r.push(b);
    assert(strs(r@) =~= seq![
        "Add a remote manually, then run publish again or push directly:"@,
        "  git -C "@ + flake_path@ + " remote add "@ + remote@ + " https://github.com/OWNER/REPO.git"@,
        "  git -C "@ + flake_path@ + " push --set-upstream "@ + remote@ + " $(git -C "@ + flake_path@
            + " branch --show-current)"@,
    ]);
    r
}

/// What has happened so far while setting up a missing Git remote.
#[derive(Clone, Debug)]
pub struct RemoteSetupProgress {
    /// Whether `gh` is on the `PATH`.
    pub gh_available: Option<bool>,
    /// The answer to "Configure a GitHub remote with gh now?".
    pub configure: Option<bool>,
    /// The exit code of `gh auth status`.
    pub auth_code: Option<i32>,
    /// The answer to "Run 'gh auth login' now?".
    pub login: Option<bool>,
    /// Whether `gh auth login` ran.
    pub logged_in: bool,
    /// The setup action chosen (`existing` or `create`), `None` inside when
    /// the choice was abandoned.
    pub action: Option<Option<String>>,
    /// The repository entered, `None` inside when input ended.
    pub repository: Option<Option<String>>,
    /// The exit code and output of `gh repo view`.
    pub view: Option<(i32, String)>,
    /// The repository name entered for a new repository.
    pub name: Option<Option<String>>,
    /// The visibility chosen for a new repository.
    pub visibility: Option<Option<String>>,
    /// Whether the final `git remote add` or `gh repo create` ran.
    pub configured: bool,
}

impl RemoteSetupProgress {
    /// Nothing has happened yet.
    pub fn start() -> (r: RemoteSetupProgress)
        ensures
            r.gh_available is None && r.configure is None && r.auth_code is None && r.login is None
                && !r.logged_in && r.action is None && r.repository is None && r.view is None
                && r.name is None && r.visibility is None && !r.configured,
    {
        RemoteSetupProgress {
            gh_available: None,
            configure: None,
            auth_code: None,
            login: None,
            logged_in: false,
            action: None,
            repository: None,
            view: None,
            name: None,
            visibility: None,
            configured: false,
        }
    }
}

/// Why setting up a remote stopped with an error.
#[derive(Clone, Copy, Debug, PartialEq, Eq, Structural)]
pub enum RemoteSetupError {
    EmptyRepository,
    EmptyName,
    ViewFailed(i32),
}

/// The next thing to do while setting up a missing remote.
#[derive(Clone, Copy, Debug, PartialEq, Eq, Structural)]
pub enum RemoteSetupStep {
    CheckGh,
    AskConfigure,
    CheckAuth,
    AskLogin,
    Login,
    ChooseAction,
    AskRepository,
    ViewRepository,
    AddRemote,
    AskName,
    ChooseVisibility,
    CreateRepository,
    /// Print how to add the remote by hand; nothing was configured.
    Manual,
    Finish(bool),
    Fail(RemoteSetupError),
}

pub open spec fn opt_str_is(v: Option<String>, s: Seq<char>) -> bool {
    v matches Some(x) && x@ == s
}

/// The repository as entered, trimmed.
pub open spec fn entered_repository(p: RemoteSetupProgress) -> Seq<char> {
    match p.repository {
        Some(Some(r)) => trim(r@),
        _ => Seq::empty(),
    }
}

pub open spec fn remote_setup_next(p: RemoteSetupProgress) -> RemoteSetupStep {
    match p.gh_available {
        None => RemoteSetupStep::CheckGh,
        Some(false) => RemoteSetupStep::Manual,
        Some(true) => match p.configure {
            None => RemoteSetupStep::AskConfigure,
            Some(false) => RemoteSetupStep::Manual,
            Some(true) => match p.auth_code {
                None => RemoteSetupStep::CheckAuth,
                Some(code) => if code != 0 && p.login is None {
                    RemoteSetupStep::AskLogin
                } else if code != 0 && p.login == Some(false) {
                    RemoteSetupStep::Manual
                } else if code != 0 && !p.logged_in {
                    RemoteSetupStep::Login
                } else {
                    match p.action {
                        None => RemoteSetupStep::ChooseAction,
                        Some(a) => if opt_str_is(a, "existing"@) {
                            match p.repository {
                                None => RemoteSetupStep::AskRepository,
                                Some(None) => RemoteSetupStep::Fail(RemoteSetupError::EmptyRepository),
                                Some(Some(r)) => if trim(r@).len() == 0 {
                                    RemoteSetupStep::Fail(RemoteSetupError::EmptyRepository)
                                } else if !is_repo_url(trim(r@)) && p.view is None {
                                    RemoteSetupStep::ViewRepository
                                } else if !is_repo_url(trim(r@)) && p.view.unwrap().0 != 0 {
                                    RemoteSetupStep::Fail(RemoteSetupError::ViewFailed(p.view.unwrap().0))
                                } else if !p.configured {
                                    RemoteSetupStep::AddRemote
                                } else {
                                    RemoteSetupStep::Finish(true)
                                },
                            }
                        } else if opt_str_is(a, "create"@) {
                            match p.name {
                                None => RemoteSetupStep::AskName,
                                Some(None) => RemoteSetupStep::Fail(RemoteSetupError::EmptyName),
                                Some(Some(_)) => match p.visibility {
                                    None => RemoteSetupStep::ChooseVisibility,
                                    Some(None) => RemoteSetupStep::Finish(false),
                                    Some(Some(_)) => if !p.configured {
                                        RemoteSetupStep::CreateRepository
                                    } else {
                                        RemoteSetupStep::Finish(true)
                                    },
                                },
                            }
                        } else {
                            RemoteSetupStep::Finish(false)
                        },
                    }
                },
            },
        },
    }
}

/// Decides the next step of setting up a missing remote: without `gh`, or
/// when the user declines, show how to do it by hand; else make sure `gh`
/// is logged in, then connect an existing repository or create one.
pub fn next_remote_setup_step(p: &RemoteSetupProgress) -> (r: RemoteSetupStep)
    ensures
        r == remote_setup_next(*p),
{
    proof {
        reveal_strlit("existing");
        reveal_strlit("create");
    }
    match p.gh_available {
        None => return RemoteSetupStep::CheckGh,
        Some(false) => return RemoteSetupStep::Manual,
        Some(true) => {},
    }
    match p.configure {
        None => return RemoteSetupStep::AskConfigure,
        Some(false) => return RemoteSetupStep::Manual,
        Some(true) => {},
    }
    let code = match p.auth_code {
        None => return RemoteSetupStep::CheckAuth,
        Some(c) => c,
    };
    if code != 0 {
        match p.login {
            None => return RemoteSetupStep::AskLogin,
            Some(false) => return RemoteSetupStep::Manual,
            Some(true) => {},
        }
        if !p.logged_in {
            return RemoteSetupStep::Login;
        }
    }
    let a = match &p.action {
        None => return RemoteSetupStep::ChooseAction,
        Some(a) => a,
    };
    let existing = match a {
        Some(x) => eq_str(x.as_str(), "existing"),
        None => false,
    };
    let create = match a {
        Some(x) => eq_str(x.as_str(), "create"),
        None => false,
    };
    if existing {
        let r = match &p.repository {
            None => return RemoteSetupStep::AskRepository,
            Some(None) => return RemoteSetupStep::Fail(RemoteSetupError::EmptyRepository),
            Some(Some(r)) => trim_str(r.as_str()),
        };
        if r.as_str().is_empty() {
            return RemoteSetupStep::Fail(RemoteSetupError::EmptyRepository);
        }
        if !repo_is_url(r.as_str()) {
            match &p.view {
                None => return RemoteSetupStep::ViewRepository,
                Some((c, _)) => {
                    if *c != 0 {
                        return RemoteSetupStep::Fail(RemoteSetupError::ViewFailed(*c));
                    }
                },
            }
        }
        if !p.configured {
            RemoteSetupStep::AddRemote
        } else {
            RemoteSetupStep::Finish(true)
        }
    } else if create {
        match &p.name {
            None => return RemoteSetupStep::AskName,
            Some(None) => return RemoteSetupStep::Fail(RemoteSetupError::EmptyName),
            Some(Some(_)) => {},
        }
        match &p.visibility {
            None => RemoteSetupStep::ChooseVisibility,
            Some(None) => RemoteSetupStep::Finish(false),
            Some(Some(_)) => {
                if !p.configured {
                    RemoteSetupStep::CreateRepository
                } else {
                    RemoteSetupStep::Finish(true)
                }
            },
        }
    } else {
        RemoteSetupStep::Finish(false)
    }
}

/// Without `gh`, or when the user declines to configure it or to log in,
/// the only step is the manual instructions.
pub proof fn lemma_no_gh_means_manual(p: RemoteSetupProgress)
    requires
        p.gh_available == Some(false) || (p.gh_available == Some(true) && p.configure == Some(false)),
    ensures
        remote_setup_next(p) == RemoteSetupStep::Manual,
{
}

/// A remote is added only for the `existing` action, with a non-empty
/// repository that is a URL or that `gh repo view` resolved.
pub proof fn lemma_remote_added_only_for_known_repository(p: RemoteSetupProgress)
    requires
        remote_setup_next(p) == RemoteSetupStep::AddRemote,
    ensures
        p.gh_available == Some(true),
        p.configure == Some(true),
        p.action matches Some(a) && opt_str_is(a, "existing"@),
        entered_repository(p).len() > 0,
        is_repo_url(entered_repository(p)) || p.view matches Some((0i32, _)),
        !p.configured,
{
}

/// A repository is created only for the `create` action, after a name and a
/// visibility were given.
pub proof fn lemma_repository_created_only_when_named(p: RemoteSetupProgress)
    requires
        remote_setup_next(p) == RemoteSetupStep::CreateRepository,
    ensures
        p.action matches Some(a) && opt_str_is(a, "create"@),
        p.name matches Some(Some(_)),
        p.visibility matches Some(Some(_)),
{
}

/// The URL to add as the remote: the repository itself when it is a URL,
/// else what `gh repo view` printed, trimmed.
pub open spec fn remote_url(p: RemoteSetupProgress) -> Seq<char> {
    if is_repo_url(entered_repository(p)) {
        entered_repository(p)
    } else {
        match p.view {
            Some((_, out)) => trim(out@),
            None => Seq::empty(),
        }
    }
}

pub fn remote_setup_url(p: &RemoteSetupProgress) -> (r: String)
    ensures
        r@ == remote_url(*p),
{
    let entered = match &p.repository {
        Some(Some(r)) => trim_str(r.as_str()),
        _ => String::new(),
    };
    if repo_is_url(entered.as_str()) {
        entered
    } else {
        match &p.view {
            Some((_, out)) => trim_str(out.as_str()),
            None => String::new(),
        }
    }
}

/// `gh repo view REPO --json url --jq .url`.
pub fn gh_repo_view_command(repository: &str) -> (r: CommandSpec)
    ensures
        r.argv() == seq!["gh"@, "repo"@, "view"@, repository@, "--json"@, "url"@, "--jq"@, ".url"@],
        r.cwd is None,
{
    let r = CommandSpec::new("gh").arg("repo").arg("view").arg(repository).arg("--json").arg("url").arg(
        "--jq",
    ).arg(".url");
    assert(r.argv() =~= seq!["gh"@, "repo"@, "view"@, repository@, "--json"@, "url"@, "--jq"@, ".url"@]);
    r
}

/// `git -C PATH remote add REMOTE URL`.
pub fn remote_add_command(flake_path: &str, remote: &str, url: &str) -> (r: CommandSpec)
    ensures
        r.argv() == seq!["git"@, "-C"@, flake_path@, "remote"@, "add"@, remote@, url@],
        r.cwd is None,
{
    let r = CommandSpec::new("git").arg("-C").arg(flake_path).arg("remote").arg("add").arg(remote).arg(url);
    assert(r.argv() =~= seq!["git"@, "-C"@, flake_path@, "remote"@, "add"@, remote@, url@]);
    r
}

/// `gh repo create NAME --VISIBILITY --source PATH --remote REMOTE`.
pub fn gh_repo_create_command(name: &str, visibility: &str, flake_path: &str, remote: &str) -> (r:
    CommandSpec)
    ensures
        r.argv() == seq![
            "gh"@,
            "repo"@,
            "create"@,
            name@,
            "--"@ + visibility@,
            "--source"@,
            flake_path@,
            "--remote"@,
            remote@,
        ],
        r.cwd is None,
{
    let flag = concat("--", visibility);
    let r = CommandSpec::new("gh").arg("repo").arg("create").arg(name).arg(flag.as_str()).arg("--source").arg(
        flake_path,
    ).arg("--remote").arg(remote);
    assert(r.argv() =~= seq![
        "gh"@,
        "repo"@,
        "create"@,
        name@,
        "--"@ + visibility@,
        "--source"@,
        flake_path@,
        "--remote"@,
        remote@,
    ]);
    r
}

/// The error a failed setup ends with.
pub fn remote_setup_error(e: RemoteSetupError) -> (r: NrError)
    ensures
        e == RemoteSetupError::EmptyRepository ==> (r matches NrError::Message(m) && m@
            == "Repository cannot be empty."@),
        e == RemoteSetupError::EmptyName ==> (r matches NrError::Message(m) && m@
            == "Repository name cannot be empty."@),
        e matches RemoteSetupError::ViewFailed(c) ==> (r matches NrError::CommandFailed { command, code }
            && command@ == "gh repo view"@ && code == c),
{
    match e {
        RemoteSetupError::EmptyRepository => NrError::Message("Repository cannot be empty.".to_owned()),
        RemoteSetupError::EmptyName => NrError::Message("Repository name cannot be empty.".to_owned()),
        RemoteSetupError::ViewFailed(c) => NrError::CommandFailed { command: "gh repo view".to_owned(), code: c },
    }
}

} // verus!
