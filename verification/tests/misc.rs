use nr::errors::NrError;
use nr::process::{pipe_outcome, CommandSpec, PipeOutcome};
use nr::color::ColorChoice;
use nr::diagnostics::{doctor_exit_code, flakes_line, tool_line};
use nr::export::{asset_reference_candidate, looks_like_secret, manifest, string_literals};
use nr::find::{contains_query, file_matches, type_hint, FindType};
use nr::inputs::input_node_lines;
use nr::lint::lint_line;
use nr::open::{check_requested_path, editor};
use nr::prompts::{choice_line, choose_answer, confirm_answer, line_answer};
use nr::publish::{commit_message, next_per_file_change, publish_mode_for_choice};
use nr::snapshot::{safe_label, snapshot_action, SnapshotAction};
use nr::state::{prune_json, resolve_json_reference, sort_by_modified};
use nr::tree::{format_size, is_asset, EntryKind};
use nr::git::GitStatusEntry;
use nr::cli::PublishMode;

#[test]
fn colors_wrap_text_only_when_enabled() {
    let on = ColorChoice::new(false, false);
    assert_eq!(on.bold("x"), "\x1b[1mx\x1b[0m");
    assert_eq!(on.green("ok"), "\x1b[32mok\x1b[0m");
    let off = ColorChoice::new(false, true);
    assert!(!off.enabled());
    assert_eq!(off.red("x"), "x");
}

#[test]
fn export_finds_literals_and_secrets() {
    assert_eq!(
        string_literals("{ a = \"./x.png\"; b = ''multi\nline''; c = \"q\\\"q\"; }"),
        vec!["./x.png".to_string(), "multi\nline".to_string(), "q\"q".to_string()]
    );
    assert!(looks_like_secret("ID_RSA.pub"));
    assert!(looks_like_secret("server.KEY"));
    assert!(!looks_like_secret("default.nix"));
    assert_eq!(asset_reference_candidate(" ./img/a.png ").as_deref(), Some("img/a.png"));
    assert_eq!(asset_reference_candidate("https://x"), None);
    assert_eq!(asset_reference_candidate("${pkgs}/x"), None);
    let text = manifest("host", Some(" "), 5, "1.0", &["flake.nix".to_string()]);
    assert_eq!(
        text,
        "# nr export manifest\n\n- flake host: host\n- NixOS version: unknown\n- exported at: 5\n- nr version: 1.0\n\n## Files\n- flake.nix\n- MANIFEST.md\n- RESTORE.md\n"
    );
}

#[test]
fn find_matches_lines_with_context() {
    let matches = file_matches("a\nfoo\nb\nc\nFOO", "foo", false, 1);
    assert_eq!(matches.len(), 2);
    assert_eq!(matches[0].line, 2);
    assert_eq!(matches[0].context_before, vec!["a".to_string()]);
    assert_eq!(matches[0].context_after, vec!["b".to_string()]);
    assert_eq!(matches[1].line, 5);
    assert!(matches[1].context_after.is_empty());
    assert!(!contains_query("FOO", "foo", true));
    assert_eq!(type_hint("services.nginx", FindType::AutoDetect), "option");
    assert_eq!(type_hint("nix-output-monitor", FindType::AutoDetect), "package");
    assert_eq!(type_hint("Hello", FindType::AutoDetect), "string");
}

#[test]
fn prompts_interpret_answers() {
    assert_eq!(confirm_answer(" YES ", false), Some(true));
    assert_eq!(confirm_answer("", true), Some(true));
    assert_eq!(confirm_answer("maybe", true), None);
    assert_eq!(line_answer("  ", Some("commit")).as_deref(), Some("commit"));
    assert_eq!(line_answer(" msg ", None).as_deref(), Some("msg"));
    let keys = ["commit", "per-file"];
    assert_eq!(choose_answer("2", &keys, Some("commit")), Some(Some("per-file".to_string())));
    assert_eq!(choose_answer("", &keys, Some("commit")), Some(Some("commit".to_string())));
    assert_eq!(choose_answer("commit", &keys, None), Some(Some("commit".to_string())));
    assert_eq!(choose_answer("3", &keys, None), None);
    assert_eq!(
        choice_line(0, "commit", "one commit for all changes", true),
        "  1. commit: one commit for all changes (default)"
    );
}

#[test]
fn publish_decisions() {
    assert_eq!(publish_mode_for_choice("single"), Some(PublishMode::Commit));
    assert_eq!(publish_mode_for_choice("per-file"), Some(PublishMode::PerFile));
    assert_eq!(commit_message(None, Some(" commit ")).unwrap(), "commit");
    assert!(commit_message(Some("  "), None).is_err());
    assert!(commit_message(None, None).is_err());
    let entries = vec![
        GitStatusEntry { index: 'M', worktree: ' ', paths: vec!["staged.nix".to_string()] },
        GitStatusEntry { index: ' ', worktree: 'M', paths: vec!["a.nix".to_string()] },
        GitStatusEntry { index: '?', worktree: '?', paths: vec!["b.nix".to_string()] },
    ];
    assert_eq!(next_per_file_change(&entries, &Vec::new()), Some(1));
    assert_eq!(next_per_file_change(&entries, &vec![vec!["a.nix".to_string()]]), Some(2));
}

#[test]
fn snapshots_tree_and_state_helpers() {
    assert_eq!(safe_label(" before upgrade/é "), "before%20upgrade%2F%C3%A9");
    assert_eq!(safe_label("   "), "_empty");
    assert!(matches!(snapshot_action(true, None, None).unwrap(), SnapshotAction::List));
    assert!(snapshot_action(true, Some("x"), None).is_err());
    assert_eq!(format_size(512), "512 B");
    assert_eq!(format_size(2048), "2 KiB");
    assert_eq!(format_size(3 * 1024 * 1024), "3 MiB");
    assert!(is_asset("logo.PNG"));
    assert!(!is_asset(".png"));
    assert_eq!(EntryKind::File, EntryKind::File);
    let sorted = sort_by_modified(&[
        (30, "c".to_string()),
        (10, "a".to_string()),
        (30, "d".to_string()),
        (20, "b".to_string()),
    ]);
    assert_eq!(sorted, vec!["a", "b", "c", "d"]);
    let files: Vec<String> = (1..=5).map(|n| format!("report-{n}.json")).collect();
    assert_eq!(
        prune_json(&files, 3, Some("report-5.json")),
        vec!["report-1.json".to_string(), "report-2.json".to_string()]
    );
    assert!(prune_json(&files, 0, None).is_empty());
    assert_eq!(
        resolve_json_reference(&files, &files, "report", "-3", false).unwrap(),
        "report-3.json"
    );
    assert_eq!(
        resolve_json_reference(&files, &files, "report", "latest", false).unwrap(),
        "report-5.json"
    );
    assert!(resolve_json_reference(&files, &files, "report", "x", false).is_err());
}

#[test]
fn small_command_helpers() {
    assert_eq!(doctor_exit_code(0), 0);
    assert_eq!(doctor_exit_code(2), 1);
    assert_eq!(flakes_line("nix-command flakes\n"), "  flakes: enabled");
    assert_eq!(tool_line(false, true, "git", ""), "  missing  git");
    assert_eq!(lint_line(true, "a.nix"), "✓ a.nix");
    assert_eq!(
        input_node_lines(&["root".to_string(), "nixpkgs".to_string()]),
        vec!["  nixpkgs".to_string()]
    );
    assert!(check_requested_path("../x.nix").is_err());
    assert!(check_requested_path("/etc/x.nix").is_err());
    assert!(check_requested_path("hosts/a.nix").is_ok());
    assert_eq!(editor(Some(" "), Some("nano")), "nano");
    assert_eq!(editor(None, None), "vi");
}

#[test]
fn pipe_outcome_follows_producer_then_consumer() {
    let consumer = CommandSpec::new("nom");
    assert!(matches!(pipe_outcome(3, &consumer, 1, true), PipeOutcome::Finished(3)));
    assert!(matches!(pipe_outcome(0, &consumer, 0, false), PipeOutcome::Finished(0)));
    assert!(matches!(pipe_outcome(0, &consumer, 0, true), PipeOutcome::WriteFailed));
    match pipe_outcome(0, &consumer, 2, true) {
        PipeOutcome::Failed(NrError::CommandFailed { command, code }) => {
            assert_eq!(command, "nom");
            assert_eq!(code, 2);
        }
        other => panic!("unexpected outcome {other:?}"),
    }
}
