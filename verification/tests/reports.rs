use nr::impact::{parse_activation_impact, ClosureDiff};
use nr::ui::{activation_summary_lines, diff_summary_lines};
use nr::color::ColorChoice;
use nr::diagnostics::{doctor_lines, tool_version_text, DoctorFacts, ToolFact};
use nr::export::{
    dry_run_lines, exported_line, include_file, is_under_nix_store, should_skip_entry,
};
use nr::find::{
    bold_matches, match_ranges, text_result_lines, total_matches, FileResult, MatchResult,
};
use nr::generations::{generation_row, generations_header, PinsFile, SystemGeneration};
use nr::git::GitSummary;
use nr::lock::{flake_inputs, FieldValue, InputRef, LockFile, LockNode, Locked};
use nr::snapshot::{pad_right, restored_line, snapshot_header, snapshot_row};
use nr::state::{append_history, failed_report_line, history_line, newest_first, HistoryRecord};
use nr::text::pad_left;
use nr::tree::{order_entries, should_skip, tree_summary_line, EntryKind, TreeSummary};

fn tool(name: &str, found: bool, version: &str) -> ToolFact {
    ToolFact {
        name: name.to_string(),
        found,
        version: version.to_string(),
    }
}

#[test]
fn doctor_report_lists_everything_it_found() {
    let facts = DoctorFacts {
        target: "/etc/nixos#host".to_string(),
        user_config: None,
        repo_config: Some("/etc/nixos/nr.toml".to_string()),
        required: vec![tool("nix", true, "nix (Nix) 2.18"), tool("git", false, "")],
        optional: vec![tool("gh", false, "")],
        git: GitSummary {
            repository: true,
            branch: Some("main".to_string()),
            dirty: true,
            untracked: 1,
        },
        git_status: Some(" M a.nix\n?? b\n".to_string()),
        state_dir: "/s".to_string(),
        state_error: None,
        disk: Some("Filesystem 1K-blocks\n/dev/sda 100\nextra\n".to_string()),
        nix_features: Some("flakes nix-command".to_string()),
    };
    let (lines, code) = doctor_lines(&facts);
    assert_eq!(
        lines,
        vec![
            "nr doctor",
            "target: /etc/nixos#host",
            "user config: not found",
            "repo config: /etc/nixos/nr.toml",
            "",
            "dependencies:",
            "  ok       nix (Nix) 2.18",
            "  missing  git",
            "  optional gh: not installed",
            "",
            "git:",
            "  repository: yes",
            "  branch: main",
            "  status: dirty",
            "     M a.nix",
            "    ?? b",
            "",
            "state:",
            "  writable: /s",
            "  Filesystem 1K-blocks",
            "  /dev/sda 100",
            "",
            "nix:",
            "  flakes: enabled",
        ]
    );
    assert_eq!(code, 1);
}

#[test]
fn doctor_passes_without_missing_required_tools() {
    let facts = DoctorFacts {
        target: "x#h".to_string(),
        user_config: None,
        repo_config: None,
        required: vec![tool("git", true, "git version 2")],
        optional: vec![],
        git: GitSummary {
            repository: false,
            branch: None,
            dirty: false,
            untracked: 0,
        },
        git_status: None,
        state_dir: "/s".to_string(),
        state_error: Some("denied".to_string()),
        disk: None,
        nix_features: None,
    };
    let (lines, code) = doctor_lines(&facts);
    assert_eq!(code, 0);
    assert!(lines.contains(&"  repository: no".to_string()));
    assert!(lines.contains(&"  not writable: /s (denied)".to_string()));
    assert_eq!(lines.last().unwrap(), "nix:");
}

#[test]
fn tool_versions_take_the_first_line() {
    assert_eq!(
        tool_version_text("nix", true, "nix (Nix) 2.18\nmore", ""),
        "nix (Nix) 2.18"
    );
    assert_eq!(tool_version_text("ssh", true, "", "OpenSSH_9\n"), "OpenSSH_9");
    assert_eq!(tool_version_text("x", false, "v1", ""), "x installed");
    assert_eq!(tool_version_text("x", true, "  \n", ""), "x installed");
}

#[test]
fn export_includes_only_safe_files() {
    assert!(include_file("hosts/a.nix", true, false, false, false, true, false));
    assert!(!include_file("secrets.nix", true, false, false, false, true, false));
    assert!(include_file("secrets.nix", true, false, false, false, true, true));
    assert!(!include_file("node_modules/x.nix", true, false, false, false, true, false));
    assert!(!include_file("result", true, false, false, true, true, false));
    assert!(!include_file("a.nix", true, false, true, true, true, false));
    assert!(!include_file("a.nix", false, false, false, false, true, false));
    assert!(!include_file("dir", true, false, false, false, false, false));
    assert!(should_skip_entry(".git", false, false));
    assert!(should_skip_entry("result-1", false, true));
    assert!(!should_skip_entry("src", false, false));
    assert!(is_under_nix_store("/nix/store/abc"));
    assert!(is_under_nix_store("/nix/store"));
    assert!(!is_under_nix_store("/nix/storefoo"));
}

#[test]
fn export_summaries() {
    assert_eq!(
        dry_run_lines(&["a.nix".to_string(), "flake.lock".to_string()]),
        vec![
            "dry run: files that would be included",
            "a.nix",
            "flake.lock",
            "MANIFEST.md",
            "RESTORE.md",
            "4 files"
        ]
    );
    assert_eq!(
        exported_line(2, 1234, "/tmp/x.tar.gz"),
        "exported 4 files, 1234 bytes: /tmp/x.tar.gz"
    );
}

fn record(timestamp: u64, old: Option<u64>, new: Option<u64>) -> HistoryRecord {
    HistoryRecord {
        timestamp,
        action: "switch".to_string(),
        target: "/etc/nixos#h".to_string(),
        old_generation: old,
        new_generation: new,
        store_path: None,
        git_revision: None,
        log_path: "/l".to_string(),
        report_result: "switched".to_string(),
    }
}

#[test]
fn history_keeps_the_newest_entries() {
    let mut history = Vec::new();
    append_history(&mut history, record(1, None, Some(1)), 2);
    append_history(&mut history, record(2, Some(1), Some(2)), 2);
    append_history(&mut history, record(3, Some(2), Some(3)), 2);
    assert_eq!(history.len(), 2);
    assert_eq!(history[0].timestamp, 2);
    assert_eq!(history[1].timestamp, 3);
    append_history(&mut history, record(4, None, None), 0);
    assert!(history.is_empty());
}

#[test]
fn history_lines_and_listings() {
    assert_eq!(
        history_line(&record(10, Some(4), Some(5))),
        "10 switch /etc/nixos#h old:Some(4) new:Some(5) switched log:/l"
    );
    assert_eq!(
        history_line(&record(10, None, None)),
        "10 switch /etc/nixos#h old:None new:None switched log:/l"
    );
    let items = vec!["a".to_string(), "b".to_string(), "c".to_string()];
    assert_eq!(newest_first(&items, 2), vec!["c", "b"]);
    assert_eq!(newest_first(&items, 5), vec!["c", "b", "a"]);
    assert_eq!(failed_report_line(true, Some("x"), "r"), None);
    assert_eq!(
        failed_report_line(false, Some("/log"), "r"),
        Some("/log".to_string())
    );
    assert_eq!(
        failed_report_line(false, None, "/r.json"),
        Some("/r.json".to_string())
    );
}

#[test]
fn snapshot_table_is_padded_like_format() {
    assert_eq!(pad_right("ab", 4), "ab  ");
    assert_eq!(pad_right("abcdef", 4), "abcdef");
    assert_eq!(pad_left("3", 4), "   3");
    assert_eq!(
        snapshot_header(),
        format!("{:<24}  {:<12}  {:<10}  GIT", "LABEL", "DATE", "GENERATION")
    );
    assert_eq!(
        snapshot_row("pre", 1700, 41, "abcdef1234"),
        format!("{:<24}  {:<12}  {:<10}  {}", "pre", 1700, 41, "abcdef12")
    );
    assert_eq!(restored_line("pre", 41), "restored snapshot pre at generation 41");
}

#[test]
fn find_marks_matches_by_byte_range() {
    assert_eq!(match_ranges("Foo foo", "foo", false), vec![(0, 3), (4, 7)]);
    assert_eq!(match_ranges("Foo foo", "foo", true), vec![(4, 7)]);
    assert_eq!(match_ranges("aaaa", "aa", true), vec![(0, 2), (2, 4)]);
    assert_eq!(match_ranges("é foo", "foo", true), vec![(3, 6)]);
    let on = ColorChoice::new(false, false);
    let off = ColorChoice::new(true, false);
    assert_eq!(bold_matches("x foo y", "foo", true, on), "x \x1b[1mfoo\x1b[0m y");
    assert_eq!(bold_matches("é foo", "foo", true, on), "é \x1b[1mfoo\x1b[0m");
    assert_eq!(bold_matches("x foo y", "foo", true, off), "x foo y");
    assert_eq!(bold_matches("x foo y", "", true, on), "x foo y");
    assert_eq!(bold_matches("x bar y", "foo", true, on), "x bar y");
}

#[test]
fn find_text_report() {
    let results = vec![FileResult {
        path: "a.nix".to_string(),
        match_count: 1,
        matches: vec![MatchResult {
            line: 3,
            text: "foo".to_string(),
            context_before: vec!["x".to_string()],
            context_after: vec![],
        }],
    }];
    let total = total_matches(&results);
    assert_eq!(total, 1);
    let lines = text_result_lines("foo", "text", &results, total, ColorChoice::new(true, false), false);
    assert_eq!(
        lines,
        vec![
            "Detected type hint: text",
            "1 matches in a.nix",
            "  | x",
            "   3: foo",
            "Found 1 matches across 1 files"
        ]
    );
}

#[test]
fn generation_rows_match_the_heading() {
    let mut pins = PinsFile::default();
    pins.insert("good", 41);
    let g = SystemGeneration {
        generation: 41,
        date: "2024-01-01 10:00:00".to_string(),
        nixos_version: "24.05".to_string(),
        kernel_version: "6.6.1".to_string(),
        configuration_revision: String::new(),
        current: true,
    };
    assert_eq!(
        generations_header(),
        "Generation  Build-date           NixOS version            Kernel   Current  Pin"
    );
    assert_eq!(
        generation_row(&g, &pins),
        format!(
            "{:<10}  {:<19}  {:<23}  {:<7}  {:<7}  {}",
            41, "2024-01-01 10:00:00", "24.05", "6.6.1", "yes", "good"
        )
    );
}

fn locked_rev(rev: &str) -> Locked {
    Locked {
        text: format!("{{\"rev\":\"{rev}\"}}"),
        fields: vec![(
            "rev".to_string(),
            FieldValue {
                is_string: true,
                text: rev.to_string(),
            },
        )],
    }
}

#[test]
fn flake_inputs_lists_locked_revisions_by_name() {
    let lock = LockFile {
        root: None,
        nodes: Some(vec![
            LockNode {
                name: "root".to_string(),
                inputs: vec![
                    ("zz".to_string(), InputRef::Other),
                    ("nr".to_string(), InputRef::Node("nr".to_string())),
                    (
                        "aa".to_string(),
                        InputRef::Follows(vec![FieldValue {
                            is_string: true,
                            text: "bare".to_string(),
                        }]),
                    ),
                    (
                        "home-manager".to_string(),
                        InputRef::Node("home-manager".to_string()),
                    ),
                ],
                locked: None,
            },
            LockNode {
                name: "nr".to_string(),
                inputs: vec![],
                locked: Some(locked_rev("old-nr")),
            },
            LockNode {
                name: "home-manager".to_string(),
                inputs: vec![],
                locked: Some(locked_rev("old-home-manager")),
            },
            LockNode {
                name: "bare".to_string(),
                inputs: vec![],
                locked: None,
            },
        ]),
    };
    assert_eq!(
        flake_inputs(&lock),
        vec![
            ("aa".to_string(), "unlocked".to_string()),
            ("home-manager".to_string(), "old-home".to_string()),
            ("nr".to_string(), "old-nr".to_string()),
        ]
    );
    assert!(flake_inputs(&LockFile {
        root: None,
        nodes: None
    })
    .is_empty());
}

#[test]
fn tree_orders_directories_symlinks_then_files() {
    let entries = vec![
        (EntryKind::File, "b.nix".to_string()),
        (EntryKind::Directory, "z".to_string()),
        (EntryKind::Symlink, "l".to_string()),
        (EntryKind::Directory, "a".to_string()),
        (EntryKind::File, "a.nix".to_string()),
    ];
    assert_eq!(
        order_entries(entries.clone(), true),
        vec![
            (EntryKind::Directory, "a".to_string()),
            (EntryKind::Directory, "z".to_string()),
            (EntryKind::Symlink, "l".to_string()),
            (EntryKind::File, "a.nix".to_string()),
            (EntryKind::File, "b.nix".to_string()),
        ]
    );
    assert_eq!(
        order_entries(entries, false),
        vec![
            (EntryKind::Directory, "a".to_string()),
            (EntryKind::Directory, "z".to_string()),
        ]
    );
    assert!(should_skip("target", false));
    assert!(should_skip("result", true));
    assert!(!should_skip("result", false));
    assert_eq!(
        tree_summary_line(&TreeSummary {
            directories: 2,
            nix_files: 5,
            other_files: 1
        }),
        "2 directories, 5 .nix files, 1 other files"
    );
}

#[test]
fn diff_summary_lists_counts_and_important_changes() {
    let mut diff = ClosureDiff::empty_with(String::new(), None);
    assert_eq!(
        diff_summary_lines(&diff),
        vec!["changes:", "  important: none detected", "  no package changes detected"]
    );
    diff.upgrades = vec!["linux: 6.1 -> 6.2".to_string()];
    diff.important = vec!["linux: 6.1 -> 6.2".to_string()];
    diff.size_delta = Some("+1 MiB".to_string());
    assert_eq!(
        diff_summary_lines(&diff),
        vec!["changes:", "  upgrades: 1", "  important:", "    linux: 6.1 -> 6.2", "  +1 MiB"]
    );
    let unavailable = ClosureDiff::empty_with(String::new(), Some("no system".to_string()));
    assert_eq!(
        diff_summary_lines(&unavailable),
        vec!["changes:", "  unavailable: no system"]
    );
}

#[test]
fn activation_summary_lists_units() {
    let mut impact = parse_activation_impact("");
    impact.restarted = vec!["sshd.service".to_string(), "nginx.service".to_string()];
    impact.unavailable = Some("nixos-rebuild dry-activate exited with 1".to_string());
    assert_eq!(
        activation_summary_lines(&impact),
        vec![
            "activation impact:",
            "  unavailable: nixos-rebuild dry-activate exited with 1",
            "  stopped: none",
            "  started: none",
            "  restarted: sshd.service, nginx.service",
            "  reloaded: none",
            "  skipped: none",
            "  failed: none",
            "  caveats: none",
        ]
    );
}
