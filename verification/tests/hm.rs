use nr::cli::Cli;
use nr::config::{
    CheckSettings, FlakeTarget, HookSettings, NrConfig, PublishSettings, UiSettings,
};
use nr::hm::{flake_fragment, home_target};
use nr::ui::OutputMode;

fn test_config() -> NrConfig {
    NrConfig {
        target: FlakeTarget {
            path: "/flake".to_string(),
            host: "nixos".to_string(),
        },
        check: CheckSettings::default(),
        publish: PublishSettings::default(),
        hooks: HookSettings::default(),
        ui: UiSettings::default(),
        user_config_path: None,
        repo_config_path: None,
    }
}

fn cli(host: Option<&str>, flake: Option<&str>) -> Cli {
    Cli {
        flake: flake.map(str::to_string),
        host: host.map(str::to_string),
        ui: OutputMode::Auto,
        log_file: None,
        verbose: 0,
        dry: false,
        ask: false,
        offline: false,
        show_trace: false,
        elevate: None,
        ask_elevate_password: false,
        notify: false,
        specialisation: None,
        command: None,
    }
}

#[test]
fn flake_fragment_extracts_home_name() {
    assert_eq!(
        flake_fragment(Some("/etc/nixos#lucian")).as_deref(),
        Some("lucian")
    );
    assert_eq!(flake_fragment(Some("/etc/nixos")), None);
}

#[test]
fn explicit_home_wins_over_config_target() {
    let config = test_config();
    let cli = cli(None, None);

    let target = home_target(&cli, &config, Some("me"), None, None).expect("home target");

    assert_eq!(target.host, "me");
    assert_eq!(target.path, "/flake");
}

#[test]
fn home_name_falls_back_through_host_fragment_environment_and_config() {
    let config = test_config();
    assert_eq!(
        home_target(&cli(Some(" alice "), Some("/f#bob")), &config, Some("  "), None, None)
            .unwrap()
            .host,
        "alice"
    );
    assert_eq!(
        home_target(&cli(None, Some("/f#bob")), &config, None, Some("carol"), None)
            .unwrap()
            .host,
        "bob"
    );
    assert_eq!(
        home_target(&cli(None, None), &config, None, Some("carol"), Some("dave"))
            .unwrap()
            .host,
        "carol"
    );
    assert_eq!(
        home_target(&cli(None, None), &config, None, Some(" "), Some("dave"))
            .unwrap()
            .host,
        "dave"
    );
    assert_eq!(
        home_target(&cli(None, None), &config, None, None, None)
            .unwrap()
            .host,
        "nixos"
    );
    assert!(home_target(&cli(None, Some("/f# ")), &config, None, None, None).is_err());
    assert_eq!(flake_fragment(Some("#x")), None);
}
