use nr::events::{Activity, BuildCategory, BuildState};
use nr::git::GitSummary;
use nr::ui::{
    build_graph_lines, compact_activity_text, format_duration, git_status_label,
    should_print_backend_line, store_name, truncate_line, AccentColor, OutputMode, Renderer,
};

#[test]
fn auto_uses_rich_for_interactive_lifecycle_builds() {
    for action in ["build", "switch", "test", "boot", "preview"] {
        assert_eq!(
            OutputMode::Auto.effective_for_lifecycle_with_terminal(action, true),
            OutputMode::Rich
        );
    }
}

#[test]
fn auto_preserves_plain_for_noninteractive_lifecycle_output() {
    assert_eq!(
        OutputMode::Auto.effective_for_lifecycle_with_terminal("switch", false),
        OutputMode::Plain
    );
}

#[test]
fn explicit_lifecycle_output_mode_wins_over_auto_policy() {
    assert_eq!(
        OutputMode::Rich.effective_for_lifecycle_with_terminal("switch", true),
        OutputMode::Rich
    );
    assert_eq!(
        OutputMode::Json.effective_for_lifecycle_with_terminal("switch", true),
        OutputMode::Json
    );
}

#[test]
fn unset_accent_uses_terminal_foreground() {
    let renderer = Renderer::new(OutputMode::Rich);

    assert_eq!(
        renderer.accent_line("▶ evaluating/building"),
        "▶ evaluating/building"
    );
}

#[test]
fn git_status_label_omits_zero_untracked_count() {
    let mut summary = GitSummary {
        repository: true,
        branch: Some("main".to_string()),
        dirty: true,
        untracked: 0,
    };
    assert_eq!(git_status_label(&summary), "dirty");

    summary.untracked = 2;
    assert_eq!(git_status_label(&summary), "dirty, 2 untracked");
}

#[test]
fn truncation_keeps_requested_width() {
    let truncated = truncate_line("abcdefghijklmnopqrstuvwxyz", 12);

    assert_eq!(truncated.chars().count(), 12);
    assert!(truncated.contains("..."));
}

#[test]
fn graph_lines_fit_forty_column_terminal() {
    let state = BuildState {
        phase: "building".to_string(),
        completed: 12,
        downloads: 2,
        source_builds: 1,
        binary_substitutes: 8,
        ..BuildState::default()
    };

    let lines = build_graph_lines(&state, 40);

    assert!(lines.iter().all(|line| line.chars().count() <= 40));
}

#[test]
fn backend_filter_skips_wrapped_debug_errors() {
    assert!(!should_print_backend_line(
        "debug: nixos_rebuild.process: captured output stderr=\"error: noisy\""
    ));
    assert!(!should_print_backend_line(
        "nixos_rebuild.process: captured output with stdout='', stderr=\"error: noisy\""
    ));
    assert!(!should_print_backend_line(
        "warning: Git tree '/etc/nixos' is dirty"
    ));
    assert!(should_print_backend_line("error: real failure"));
    assert!(should_print_backend_line("warning: real warning"));
}

#[test]
fn output_modes_parse_by_name() {
    assert_eq!(OutputMode::parse("jsonl"), Some(OutputMode::Jsonl));
    assert_eq!(OutputMode::parse("nom"), Some(OutputMode::Nom));
    assert_eq!(OutputMode::parse("fancy"), None);
    assert_eq!(
        OutputMode::Auto.effective_for_lifecycle_with_terminal("gc", true),
        OutputMode::Rich
    );
}

#[test]
fn accent_colors_parse_hex_and_paint_headings() {
    let accent = AccentColor::parse("#cba6f7").unwrap();
    assert_eq!((accent.red, accent.green, accent.blue), (0xcb, 0xa6, 0xf7));
    assert!(AccentColor::parse("cba6f7").is_none());
    assert!(AccentColor::parse("#cba6f").is_none());
    assert!(AccentColor::parse("#zzzzzz").is_none());
    let renderer = Renderer::new_for_lifecycle(
        OutputMode::Plain,
        "switch",
        nr::config::UiSettings {
            accent: Some("#010203".to_string()),
        },
    );
    assert_eq!(renderer.mode(), OutputMode::Plain);
    assert_eq!(renderer.accent_line("x"), "\x1b[1;38;2;1;2;3mx\x1b[0m");
}

#[test]
fn durations_and_activity_text_are_compact() {
    assert_eq!(format_duration(999), "999ms");
    assert_eq!(format_duration(59_000), "59s");
    assert_eq!(format_duration(61_000), "1m01s");
    assert_eq!(format_duration(3_723_000), "1h02m");
    assert_eq!(
        store_name("building '/nix/store/aaaa-linux-6.10.drv'").as_deref(),
        Some("linux-6.10")
    );
    assert_eq!(
        compact_activity_text(
            "evaluating derivation 'git+file:///etc/nixos#nixosConfigurations.\"nixos\".config.system.build.toplevel'"
        ),
        "\"nixos.toplevel"
    );
    assert_eq!(compact_activity_text("  fetching git+file:///x "), "fetching /x");
    assert_eq!(truncate_line("abcdef", 2), "..");
}

#[test]
fn graph_lines_show_counters_categories_and_slowest() {
    let mut state = BuildState::default();
    state.running.push(Activity {
        id: 3,
        parent: None,
        text: "building '/nix/store/aaaa-linux.drv'".to_string(),
        category: BuildCategory::KernelBoot,
        source_build: true,
        substitute: false,
        started_at: 0,
        drv_path: None,
    });
    let lines = build_graph_lines(&state, 200);
    assert_eq!(
        lines,
        vec![
            "build graph  phase:building active:1 done:0 failed:0 downloads:0 source:0 cache:0"
                .to_string(),
            "categories: kernel/boot:1".to_string(),
            "Dependency Graph:".to_string(),
            "`-- waiting for nix-store derivation graph".to_string(),
            "slowest: 0ms linux [kernel/boot]".to_string(),
        ]
    );
}

#[test]
fn graph_lines_reflow_for_different_widths() {
    let mut state = BuildState {
        phase: "building".to_string(),
        ..BuildState::default()
    };
    let activity = Activity {
        id: 1,
        parent: None,
        text: "building '/nix/store/aaaaaaaaaaaaaaaaaaaaaaaaaaaaaaaa-package-with-a-long-name.drv'"
            .to_string(),
        category: BuildCategory::Other,
        source_build: true,
        substitute: false,
        started_at: 0,
        drv_path: Some(
            "/nix/store/aaaaaaaaaaaaaaaaaaaaaaaaaaaaaaaa-package-with-a-long-name.drv".to_string(),
        ),
    };
    state.running.push(activity);

    let narrow = build_graph_lines(&state, 48);
    let wide = build_graph_lines(&state, 120);

    assert!(narrow.iter().all(|line| line.chars().count() <= 48));
    assert!(wide.iter().all(|line| line.chars().count() <= 120));
    assert_ne!(narrow, wide);
}
