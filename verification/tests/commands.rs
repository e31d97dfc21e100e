use nr::bisect::{
    bisect_probe_command, check_distinct_revisions, default_good_generation,
    ensure_clean_for_bisect, no_revision_error, rev_parse_result, rev_parse_spec, BisectArgs,
    BisectProbe,
};
use nr::checks::{check_outcome, check_passed_line, check_started_line, failed_count};
use nr::errors::NrError;
use nr::generations::SystemGeneration;
use nr::git::GitStatusEntry;
use nr::hm::{default_hm_profile_candidates, resolve_hm_profile};
use nr::lifecycle::{
    diff_result_text, flake_target_from_reference, hook_command, reference_directory,
};
use nr::process::{run_checked, CommandSpec, RunOutput};
use nr::publish::{
    gh_repo_create_command, gh_repo_view_command, next_remote_setup_step, remote_add_command,
    remote_setup_error, remote_setup_url, RemoteSetupError, RemoteSetupProgress, RemoteSetupStep,
};

fn generation(number: u64) -> SystemGeneration {
    SystemGeneration {
        generation: number,
        date: "2024-01-01 10:00:00".to_string(),
        nixos_version: "24.05".to_string(),
        kernel_version: "6.6.1".to_string(),
        configuration_revision: String::new(),
        current: false,
    }
}

fn bisect_args(command: Vec<&str>, probe: BisectProbe) -> BisectArgs {
    BisectArgs {
        broken: "current".to_string(),
        good: None,
        bad: None,
        probe,
        allow_dirty: false,
        no_reset: false,
        command: command.into_iter().map(str::to_string).collect(),
    }
}

#[test]
fn bisect_probe_runs_given_command_after_separator() {
    let args = bisect_args(vec!["--", "make", "test"], BisectProbe::Build);
    let probe = bisect_probe_command(&args, "/bin/nr", "/etc/nixos#host", false, false);
    assert_eq!(probe.to_vec(), vec!["make", "test"]);
}

#[test]
fn bisect_probe_defaults_to_nr_itself() {
    let args = bisect_args(vec![], BisectProbe::Preview);
    let probe = bisect_probe_command(&args, "/bin/nr", "/etc/nixos#host", true, false);
    assert_eq!(
        probe.to_vec(),
        vec!["/bin/nr", "--flake", "/etc/nixos#host", "--ui", "plain", "--offline", "preview"]
    );
    let args = bisect_args(vec![], BisectProbe::Check);
    let probe = bisect_probe_command(&args, "nr", "x#h", false, true);
    assert_eq!(
        probe.to_vec(),
        vec!["nr", "--flake", "x#h", "--ui", "plain", "--show-trace", "check"]
    );
}

#[test]
fn bisect_refuses_dirty_worktree() {
    let entries = vec![GitStatusEntry {
        index: ' ',
        worktree: 'M',
        paths: vec!["a.nix".to_string()],
    }];
    let error = ensure_clean_for_bisect(&entries, false).unwrap_err();
    assert_eq!(
        error.describe(),
        "Git worktree must be clean before bisecting.\n   M a.nix\n\nCommit, stash, or rerun with --allow-dirty."
    );
    assert!(ensure_clean_for_bisect(&entries, true).is_ok());
    assert!(ensure_clean_for_bisect(&[], false).is_ok());
}

#[test]
fn bisect_revision_checks() {
    assert_eq!(rev_parse_spec("HEAD"), "HEAD^{commit}");
    assert_eq!(rev_parse_result(0, "abc123\n", "HEAD").unwrap(), "abc123");
    assert_eq!(
        rev_parse_result(128, "", "zzz").unwrap_err().describe(),
        "Unknown Git revision: zzz"
    );
    assert!(check_distinct_revisions("a", "b").is_ok());
    assert_eq!(
        check_distinct_revisions("a", "a").unwrap_err().describe(),
        "Good and bad revisions resolve to the same commit: a"
    );
    assert_eq!(
        no_revision_error(7).describe(),
        "No Git revision recorded for generation 7. Pass a commit with --good or --bad."
    );
}

#[test]
fn bisect_default_good_is_previous_generation() {
    let generations = vec![generation(3), generation(4), generation(6)];
    assert_eq!(default_good_generation(Some(5), &generations).unwrap(), 4);
    assert_eq!(
        default_good_generation(Some(3), &generations).unwrap_err().describe(),
        "No previous generation found before 3; pass --good."
    );
    assert_eq!(
        default_good_generation(None, &generations).unwrap_err().describe(),
        "Pass --good when BAD_GENERATION_OR_REV is not a generation."
    );
}

#[test]
fn diff_targets_from_references() {
    let local = flake_target_from_reference("./flake#web", "host", "/home/u", true)
        .unwrap()
        .unwrap();
    assert_eq!(local.path, "/home/u/./flake");
    assert_eq!(local.host, "web");
    let error = flake_target_from_reference("./missing#web", "host", "/c", false).unwrap_err();
    assert_eq!(
        error.describe(),
        "No flake.nix found for --to flake reference: ./missing#web"
    );
    let remote = flake_target_from_reference("github:o/r#web", "host", "/c", false)
        .unwrap()
        .unwrap();
    assert_eq!(remote.path, "github:o/r");
    assert_eq!(remote.host, "web");
    let uri = flake_target_from_reference("github:o/r", "host", "/c", false)
        .unwrap()
        .unwrap();
    assert_eq!(uri.host, "host");
    assert!(flake_target_from_reference("42", "host", "/c", false)
        .unwrap()
        .is_none());
    assert_eq!(
        flake_target_from_reference("#h", "host", "/c", false)
            .unwrap_err()
            .describe(),
        "Flake path cannot be empty."
    );
    assert_eq!(reference_directory("sub#h", "/c").unwrap(), "/c/sub");
    assert_eq!(reference_directory("/abs#h", "/c").unwrap(), "/abs");
    assert_eq!(diff_result_text("a", "b"), "diff complete: a -> b");
}

#[test]
fn hooks_become_commands_in_the_flake() {
    let hook = vec!["notify-send".to_string(), "done".to_string()];
    let command = hook_command(&hook, "post_switch", "/etc/nixos").unwrap();
    assert_eq!(command.to_vec(), vec!["notify-send", "done"]);
    assert_eq!(command.cwd.as_deref(), Some("/etc/nixos"));
    assert_eq!(
        hook_command(&vec![], "post_switch", "/etc/nixos")
            .unwrap_err()
            .describe(),
        "[hooks].post_switch entries cannot be empty."
    );
}

#[test]
fn remote_setup_connects_an_existing_repository() {
    let mut progress = RemoteSetupProgress::start();
    assert_eq!(next_remote_setup_step(&progress), RemoteSetupStep::CheckGh);
    progress.gh_available = Some(true);
    assert_eq!(next_remote_setup_step(&progress), RemoteSetupStep::AskConfigure);
    progress.configure = Some(true);
    assert_eq!(next_remote_setup_step(&progress), RemoteSetupStep::CheckAuth);
    progress.auth_code = Some(0);
    assert_eq!(next_remote_setup_step(&progress), RemoteSetupStep::ChooseAction);
    progress.action = Some(Some("existing".to_string()));
    assert_eq!(next_remote_setup_step(&progress), RemoteSetupStep::AskRepository);
    progress.repository = Some(Some("  owner/repo ".to_string()));
    assert_eq!(next_remote_setup_step(&progress), RemoteSetupStep::ViewRepository);
    progress.view = Some((0, "https://github.com/owner/repo\n".to_string()));
    assert_eq!(next_remote_setup_step(&progress), RemoteSetupStep::AddRemote);
    assert_eq!(remote_setup_url(&progress), "https://github.com/owner/repo");
    progress.configured = true;
    assert_eq!(next_remote_setup_step(&progress), RemoteSetupStep::Finish(true));
}

#[test]
fn remote_setup_stops_or_fails_where_it_should() {
    let mut progress = RemoteSetupProgress::start();
    progress.gh_available = Some(false);
    assert_eq!(next_remote_setup_step(&progress), RemoteSetupStep::Manual);
    progress.gh_available = Some(true);
    progress.configure = Some(true);
    progress.auth_code = Some(1);
    assert_eq!(next_remote_setup_step(&progress), RemoteSetupStep::AskLogin);
    progress.login = Some(false);
    assert_eq!(next_remote_setup_step(&progress), RemoteSetupStep::Manual);
    progress.login = Some(true);
    assert_eq!(next_remote_setup_step(&progress), RemoteSetupStep::Login);
    progress.logged_in = true;
    progress.action = Some(Some("existing".to_string()));
    progress.repository = Some(Some("   ".to_string()));
    assert_eq!(
        next_remote_setup_step(&progress),
        RemoteSetupStep::Fail(RemoteSetupError::EmptyRepository)
    );
    progress.repository = Some(Some("owner/repo".to_string()));
    progress.view = Some((1, String::new()));
    assert_eq!(
        next_remote_setup_step(&progress),
        RemoteSetupStep::Fail(RemoteSetupError::ViewFailed(1))
    );
    progress.repository = Some(Some("git@github.com:o/r.git".to_string()));
    assert_eq!(next_remote_setup_step(&progress), RemoteSetupStep::AddRemote);
    assert_eq!(remote_setup_url(&progress), "git@github.com:o/r.git");
    progress.action = Some(Some("create".to_string()));
    assert_eq!(next_remote_setup_step(&progress), RemoteSetupStep::AskName);
    progress.name = Some(Some("cfg".to_string()));
    assert_eq!(next_remote_setup_step(&progress), RemoteSetupStep::ChooseVisibility);
    progress.visibility = Some(None);
    assert_eq!(next_remote_setup_step(&progress), RemoteSetupStep::Finish(false));
    progress.visibility = Some(Some("private".to_string()));
    assert_eq!(next_remote_setup_step(&progress), RemoteSetupStep::CreateRepository);
    progress.action = Some(None);
    assert_eq!(next_remote_setup_step(&progress), RemoteSetupStep::Finish(false));
}

#[test]
fn remote_setup_commands_and_errors() {
    assert_eq!(
        gh_repo_view_command("o/r").to_vec(),
        vec!["gh", "repo", "view", "o/r", "--json", "url", "--jq", ".url"]
    );
    assert_eq!(
        remote_add_command("/etc/nixos", "origin", "https://x").to_vec(),
        vec!["git", "-C", "/etc/nixos", "remote", "add", "origin", "https://x"]
    );
    assert_eq!(
        gh_repo_create_command("cfg", "private", "/etc/nixos", "origin").to_vec(),
        vec![
            "gh",
            "repo",
            "create",
            "cfg",
            "--private",
            "--source",
            "/etc/nixos",
            "--remote",
            "origin"
        ]
    );
    assert_eq!(
        remote_setup_error(RemoteSetupError::EmptyRepository).describe(),
        "Repository cannot be empty."
    );
    assert_eq!(
        remote_setup_error(RemoteSetupError::EmptyName).describe(),
        "Repository name cannot be empty."
    );
    match remote_setup_error(RemoteSetupError::ViewFailed(4)) {
        NrError::CommandFailed { command, code } => {
            assert_eq!(command, "gh repo view");
            assert_eq!(code, 4);
        }
        _ => panic!("expected a command failure"),
    }
}

#[test]
fn check_report_lines() {
    assert_eq!(
        check_started_line("fmt", "nixfmt --check a.nix"),
        "[fmt] nixfmt --check a.nix"
    );
    assert_eq!(check_passed_line("fmt"), "[fmt] passed");
    assert_eq!(failed_count(&[0, 1, 2, 0]), 2);
    assert_eq!(check_outcome(0).unwrap(), 0);
    match check_outcome(2) {
        Err(NrError::CommandFailed { command, code }) => {
            assert_eq!(command, "nr check");
            assert_eq!(code, 1);
        }
        _ => panic!("expected nr check to fail"),
    }
}

#[test]
fn run_checked_keeps_successful_output() {
    let command = CommandSpec::new("git").arg("status");
    let ok = run_checked(
        &command,
        RunOutput {
            code: 0,
            stdout: "clean".to_string(),
            stderr: String::new(),
        },
    )
    .unwrap();
    assert_eq!(ok.stdout, "clean");
    match run_checked(
        &command,
        RunOutput {
            code: 2,
            stdout: String::new(),
            stderr: String::new(),
        },
    ) {
        Err(NrError::CommandFailed { command, code }) => {
            assert_eq!(command, "git status");
            assert_eq!(code, 2);
        }
        _ => panic!("expected a command failure"),
    }
}

#[test]
fn home_manager_profiles() {
    assert_eq!(
        default_hm_profile_candidates(Some("/x"), Some("/home/u")),
        vec![
            "/x/nix/profiles/home-manager".to_string(),
            "/home/u/.local/state/nix/profiles/home-manager".to_string(),
            "/home/u/.nix-profile".to_string()
        ]
    );
    assert!(default_hm_profile_candidates(None, None).is_empty());
    let candidates = vec![("a".to_string(), false), ("b".to_string(), true)];
    assert_eq!(
        resolve_hm_profile(None, false, &candidates).unwrap(),
        Some("b".to_string())
    );
    assert_eq!(
        resolve_hm_profile(None, false, &candidates[..1]).unwrap(),
        None
    );
    assert_eq!(
        resolve_hm_profile(Some("/p"), true, &candidates).unwrap(),
        Some("/p".to_string())
    );
    assert_eq!(
        resolve_hm_profile(Some("/p"), false, &candidates)
            .unwrap_err()
            .describe(),
        "Home Manager profile does not exist: /p"
    );
}
