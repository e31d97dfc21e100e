use nr::backend::{
    generations_json_command, nix_collect_garbage_command, nix_store_diff_closures_command,
    nixos_rebuild_activate_command, nixos_rebuild_build_command,
    nixos_rebuild_dry_activate_command, nom_json_command, notify_send_command, rollback_command,
    rollback_to_store_path_command, BackendOptions,
};
use nr::cli::{Cli, PublishMode};
use nr::config::FlakeTarget;
use nr::ui::OutputMode;

#[test]
fn backend_build_command_uses_nixos_rebuild_json_logs() {
    let target = FlakeTarget {
        path: "/flake".to_string(),
        host: "host".to_string(),
    };
    let command = nixos_rebuild_build_command(
        &target,
        &BackendOptions {
            offline: true,
            show_trace: true,
            specialisation: Some("perf".to_string()),
            backend_args: vec!["--fast".to_string()],
            ..BackendOptions::default()
        },
    );
    assert_eq!(
        command.to_vec(),
        [
            "nixos-rebuild",
            "build",
            "--flake",
            "/flake#host",
            "--log-format",
            "internal-json",
            "--verbose",
            "--offline",
            "--show-trace",
            "--specialisation",
            "perf",
            "--fast",
        ]
        .map(String::from)
    );
}

#[test]
fn rollback_is_official_previous_generation_only() {
    let command = rollback_command(&BackendOptions::default());
    assert_eq!(
        command.to_vec(),
        ["nixos-rebuild", "switch", "--rollback"].map(String::from)
    );
}

#[test]
fn rollback_to_generation_uses_store_path_activation() {
    let command = rollback_to_store_path_command(
        "/nix/var/nix/profiles/system-41-link",
        &BackendOptions::default(),
    );
    assert_eq!(
        command.to_vec(),
        [
            "nixos-rebuild",
            "switch",
            "--store-path",
            "/nix/var/nix/profiles/system-41-link",
        ]
        .map(String::from)
    );
}

#[test]
fn gc_generations_and_notify_commands_are_constructed() {
    assert_eq!(
        generations_json_command().to_vec(),
        ["nixos-rebuild", "list-generations", "--json"].map(String::from)
    );
    assert_eq!(
        nix_collect_garbage_command("7d", false, true).to_vec(),
        [
            "nix-collect-garbage",
            "--delete-older-than",
            "7d",
            "--dry-run"
        ]
        .map(String::from)
    );
    assert_eq!(
        nix_collect_garbage_command("7d", true, false).to_vec(),
        ["nix-collect-garbage", "-d"].map(String::from)
    );
    assert_eq!(
        notify_send_command("nr switch", "done").to_vec(),
        ["notify-send", "nr switch", "done"].map(String::from)
    );
}

#[test]
fn activation_commands_forward_elevation_options() {
    let options = BackendOptions {
        elevate: Some("sudo".to_string()),
        ask_elevate_password: true,
        ..BackendOptions::default()
    };

    let dry_activate = nixos_rebuild_dry_activate_command("/new-system", &options);
    assert_eq!(
        dry_activate.to_vec(),
        [
            "nixos-rebuild",
            "dry-activate",
            "--store-path",
            "/new-system",
            "--elevate",
            "sudo",
            "--ask-elevate-password",
        ]
        .map(String::from)
    );

    let switch = nixos_rebuild_activate_command("switch", "/new-system", &options);
    assert_eq!(
        switch.to_vec(),
        [
            "nixos-rebuild",
            "switch",
            "--store-path",
            "/new-system",
            "--elevate",
            "sudo",
            "--ask-elevate-password",
        ]
        .map(String::from)
    );
}

#[test]
fn nom_command_consumes_internal_json_logs() {
    assert_eq!(
        nom_json_command().to_vec(),
        ["nom", "--json"].map(String::from)
    );
}

#[test]
fn nix_global_flags_precede_store_subcommands() {
    let command = nix_store_diff_closures_command(
        "/old",
        "/new",
        &BackendOptions {
            offline: true,
            show_trace: true,
            ..BackendOptions::default()
        },
    );
    assert_eq!(
        command.to_vec(),
        [
            "nix",
            "--offline",
            "--show-trace",
            "store",
            "diff-closures",
            "/old",
            "/new"
        ]
        .map(String::from)
    );
}

fn bare_cli() -> Cli {
    Cli {
        flake: Some("/one#host".to_string()),
        host: None,
        ui: OutputMode::Auto,
        log_file: None,
        verbose: 2,
        dry: false,
        ask: false,
        offline: true,
        show_trace: false,
        elevate: Some("run0".to_string()),
        ask_elevate_password: false,
        notify: false,
        specialisation: None,
        command: None,
    }
}

#[test]
fn cli_backend_options_carry_global_flags() {
    let cli = bare_cli();
    let options = cli.backend_options(&["--fast".to_string()]);
    assert_eq!(options.verbose, 2);
    assert!(options.offline);
    assert!(!options.show_trace);
    assert_eq!(options.elevate.as_deref(), Some("run0"));
    assert_eq!(options.backend_args, vec!["--fast".to_string()]);
    let input = cli.config_input();
    assert_eq!(input.flake.as_deref(), Some("/one#host"));
    assert_eq!(input.host, None);
    assert_eq!(PublishMode::Commit, PublishMode::Commit);
}

#[test]
fn passthrough_separator_is_dropped_and_elevation_is_detected() {
    let options = BackendOptions {
        backend_args: vec!["--".to_string(), "--sudo".to_string()],
        ..BackendOptions::default()
    };
    assert!(options.has_elevation_request());
    assert!(options.uses_interactive_elevation());
    assert_eq!(
        nr::backend::passthrough_args(&options.backend_args),
        vec!["--sudo".to_string()]
    );
    let none = BackendOptions {
        elevate: Some("none".to_string()),
        ..BackendOptions::default()
    };
    assert!(none.has_elevation_request());
    assert!(!none.uses_interactive_elevation());
}
