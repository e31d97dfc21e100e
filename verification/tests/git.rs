use nr::git::{
    add_paths_command, branch_from_output, commit_command, git_command, git_summary_from,
    parse_status_records, untracked_files_error, GitStatusEntry,
};

#[test]
fn git_status_entries_parse_rename() {
    let entries = parse_status_records("R  new-name.nix\0flake.nix\0").unwrap();
    assert_eq!(entries.len(), 1);
    assert_eq!(
        entries[0].paths,
        vec!["new-name.nix".to_string(), "flake.nix".to_string()]
    );
    assert_eq!(entries[0].label(), "flake.nix -> new-name.nix");
}

#[test]
fn status_records_parse_plain_changes_and_reject_short_ones() {
    let entries = parse_status_records(" M flake.nix\0?? new.nix\0").unwrap();
    assert_eq!(entries.len(), 2);
    assert_eq!(entries[0].status(), " M");
    assert!(entries[0].has_worktree_change());
    assert!(!entries[0].is_staged_only());
    assert_eq!(entries[1].status(), "??");
    assert!(entries[1].has_worktree_change());
    let error = parse_status_records("ab\0").unwrap_err();
    assert_eq!(error.describe(), "Unexpected Git status record: \"ab\"");
    let error = parse_status_records("R  only\0").unwrap_err();
    assert_eq!(
        error.describe(),
        "Unexpected Git rename/copy status record: \"R  only\""
    );
    let staged = GitStatusEntry {
        index: 'M',
        worktree: ' ',
        paths: vec!["a.nix".to_string()],
    };
    assert!(staged.is_staged_only());
    assert!(!staged.has_worktree_change());
}

#[test]
fn git_preflight_message_suggests_adding_untracked_files() {
    let error = untracked_files_error("/flake", &["new file.nix".to_string()]).unwrap();
    let text = error.describe();
    assert!(text.contains("Untracked files"));
    assert!(text.contains("  new file.nix"));
    assert!(text.contains("git -C /flake add -- 'new file.nix'"));
    assert!(untracked_files_error("/flake", &[]).is_none());
}

#[test]
fn git_commands_and_summaries() {
    assert_eq!(
        git_command("/flake", &["status", "--short"]).to_vec(),
        ["git", "-C", "/flake", "status", "--short"].map(String::from)
    );
    assert_eq!(
        add_paths_command("/flake", &["a.nix".to_string()]).to_vec(),
        ["git", "-C", "/flake", "add", "-A", "--", "a.nix"].map(String::from)
    );
    assert_eq!(
        commit_command("/flake", "msg").to_vec(),
        ["git", "-C", "/flake", "commit", "-m", "msg"].map(String::from)
    );
    assert_eq!(branch_from_output(" main\n").unwrap(), "main");
    assert!(branch_from_output("\n").is_err());
    let summary = git_summary_from(true, Some("main".to_string()), " M a\n", 3);
    assert!(summary.dirty);
    assert_eq!(summary.untracked, 3);
    let outside = git_summary_from(false, Some("main".to_string()), " M a\n", 3);
    assert!(!outside.repository && !outside.dirty && outside.branch.is_none());
}

#[test]
fn status_record_cut_after_three_bytes_of_wide_characters() {
    let entries = parse_status_records("éXfoo.nix\0€abc\0").unwrap();
    assert_eq!(entries.len(), 2);
    assert_eq!(entries[0].index, 'é');
    assert_eq!(entries[0].worktree, 'X');
    assert_eq!(entries[0].paths, vec!["foo.nix".to_string()]);
    assert_eq!(entries[1].index, '€');
    assert_eq!(entries[1].worktree, 'a');
    assert_eq!(entries[1].paths, vec!["abc".to_string()]);
}
