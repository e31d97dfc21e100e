use nr::backend::BackendOptions;
use nr::checks::{
    apply_check_overrides, check_failure_lines, check_timeout, configured_checks, filter_checks,
};
use nr::checks::{source_entry, SourceEntry};
use nr::cli::CheckArgs;
use nr::config::CheckSettings;

fn args() -> CheckArgs {
    CheckArgs {
        all: false,
        nixfmt: false,
        statix: false,
        cargo_fmt: false,
        clippy: false,
        no_flake: false,
        only: Vec::new(),
        json: false,
        timeout: None,
    }
}

#[test]
fn overrides_turn_checks_on_and_off() {
    let settings = apply_check_overrides(
        CheckSettings::default(),
        &CheckArgs {
            all: true,
            no_flake: true,
            ..args()
        },
    );
    assert!(!settings.flake && settings.nixfmt && settings.statix && settings.cargo_fmt && settings.clippy);
    let settings = apply_check_overrides(
        CheckSettings::default(),
        &CheckArgs {
            statix: true,
            ..args()
        },
    );
    assert!(settings.flake && settings.statix && !settings.nixfmt);
}

#[test]
fn configured_checks_run_in_order_with_custom_commands_numbered() {
    let settings = CheckSettings {
        flake: true,
        nixfmt: true,
        statix: false,
        cargo_fmt: true,
        clippy: false,
        commands: vec![
            vec!["deadnix".to_string(), "--fail".to_string(), ".".to_string()],
            Vec::new(),
            vec!["true".to_string()],
        ],
    };
    let options = BackendOptions {
        offline: true,
        ..BackendOptions::default()
    };
    let checks = configured_checks("/flake", &settings, &options, &["/flake/a.nix".to_string()]);
    let names: Vec<&str> = checks.iter().map(|(name, _)| name.as_str()).collect();
    assert_eq!(
        names,
        vec![
            "Nix formatting",
            "Rust formatting",
            "Flake checks",
            "Custom check 1: deadnix --fail .",
            "Custom check 3: true"
        ]
    );
    assert_eq!(
        checks[0].1.to_vec(),
        ["nixfmt", "--check", "/flake/a.nix"].map(String::from)
    );
    assert_eq!(checks[1].1.cwd.as_deref(), Some("/flake"));
    assert_eq!(
        checks[2].1.to_vec(),
        ["nix", "--offline", "flake", "check", "path:/flake"].map(String::from)
    );
    let none = configured_checks("/flake", &settings, &options, &[]);
    assert_eq!(none[0].0, "Rust formatting");

    let only = filter_checks(checks, &["DEADNIX".to_string()]);
    assert_eq!(only.len(), 1);
    assert_eq!(only[0].0, "Custom check 1: deadnix --fail .");
}

#[test]
fn failed_checks_print_grouped_output() {
    assert_eq!(check_timeout(Some(0)), Some(1));
    assert_eq!(check_timeout(Some(30)), Some(30));
    assert_eq!(check_timeout(None), None);
    assert_eq!(
        check_failure_lines("lint", 2, "lint .", "bad\r\nworse\n", "  \n"),
        vec![
            "".to_string(),
            "[lint] exited with 2".to_string(),
            "command: lint .".to_string(),
            "stdout:".to_string(),
            "  bad".to_string(),
            "  worse".to_string(),
            "stderr: <empty>".to_string(),
        ]
    );
}

#[test]
fn source_walk_skips_excluded_directories_and_other_files() {
    assert_eq!(source_entry(".git", true, ".nix"), SourceEntry::Skip);
    assert_eq!(source_entry("result", true, ".nix"), SourceEntry::Skip);
    assert_eq!(source_entry("modules", true, ".nix"), SourceEntry::Descend);
    assert_eq!(source_entry("flake.nix", false, ".nix"), SourceEntry::Take);
    assert_eq!(source_entry("README.md", false, ".nix"), SourceEntry::Skip);
}

#[test]
fn source_files_sort_by_path_components() {
    let files = vec![
        "/f/a-c.nix".to_string(),
        "/f/a/b.nix".to_string(),
        "/f/flake.nix".to_string(),
        "/f/a".to_string(),
    ];
    assert_eq!(
        nr::checks::sort_source_files(files),
        vec![
            "/f/a".to_string(),
            "/f/a/b.nix".to_string(),
            "/f/a-c.nix".to_string(),
            "/f/flake.nix".to_string(),
        ]
    );
}
