use nr::config::{
    finish_config, flake_source, is_hex_color, merge_ui_settings, select_host,
    split_flake_reference, user_config_path, validate_flake_path, CheckConfig, ConfigData,
    FlakeSource, HooksConfig, PublishConfig, TargetConfig, UiConfig,
};

fn data(flake: Option<&str>, host: Option<&str>, nixfmt: Option<bool>, accent: Option<&str>) -> ConfigData {
    ConfigData {
        target: TargetConfig {
            flake: flake.map(str::to_string),
            host: host.map(str::to_string),
        },
        check: CheckConfig {
            flake: None,
            nixfmt,
            statix: None,
            cargo_fmt: None,
            clippy: None,
            commands: None,
        },
        publish: PublishConfig { remote: None },
        hooks: HooksConfig { post_switch: None },
        ui: UiConfig {
            accent: accent.map(str::to_string),
        },
    }
}

#[test]
fn split_flake_reference_rejects_empty_fragment() {
    assert_eq!(
        split_flake_reference("/flake#host").unwrap(),
        ("/flake".to_string(), Some("host".to_string()))
    );
    assert!(split_flake_reference("/flake#").is_err());
}

#[test]
fn validate_flake_path_requires_flake_file() {
    assert!(validate_flake_path("/tmp/flake", true, false).is_err());
    validate_flake_path("/tmp/flake", true, true).unwrap();
}

fn env(pairs: &[(&str, &str)]) -> Vec<(String, String)> {
    pairs
        .iter()
        .map(|(k, v)| (k.to_string(), v.to_string()))
        .collect()
}

#[test]
fn flake_sources_follow_precedence() {
    let environment = env(&[("NR_FLAKE", "/env")]);
    let user = Some(data(Some("/user"), None, None, None));
    match flake_source(Some("/cli#h"), &environment, Some("/near"), &user).unwrap() {
        FlakeSource::CommandLine(v) => assert_eq!(v, "/cli#h"),
        other => panic!("unexpected {other:?}"),
    }
    match flake_source(Some("  "), &environment, Some("/near"), &user).unwrap() {
        FlakeSource::Environment(v) => assert_eq!(v, "/env"),
        other => panic!("unexpected {other:?}"),
    }
    match flake_source(None, &[], Some("/near"), &user).unwrap() {
        FlakeSource::Nearest(v) => assert_eq!(v, "/near"),
        other => panic!("unexpected {other:?}"),
    }
    match flake_source(None, &[], None, &user).unwrap() {
        FlakeSource::UserConfig(v) => assert_eq!(v, "/user"),
        other => panic!("unexpected {other:?}"),
    }
    assert!(matches!(
        flake_source(None, &[], None, &None).unwrap(),
        FlakeSource::Default
    ));
    assert!(flake_source(None, &[], None, &Some(data(Some(" "), None, None, None))).is_err());
}

#[test]
fn host_selection_follows_precedence() {
    let environment = env(&[("NR_HOST", "envhost"), ("HOSTNAME", "machine")]);
    assert_eq!(
        select_host(Some(" cli "), Some("frag"), &environment, Some("repo"), Some("user"), None)
            .unwrap(),
        "cli"
    );
    assert_eq!(
        select_host(None, Some("frag"), &environment, Some("repo"), None, None).unwrap(),
        "frag"
    );
    assert_eq!(
        select_host(None, None, &environment, Some("repo"), None, None).unwrap(),
        "envhost"
    );
    assert_eq!(
        select_host(None, None, &[], Some("repo"), Some("user"), None).unwrap(),
        "repo"
    );
    assert_eq!(select_host(None, None, &[], None, None, Some("box")).unwrap(), "box");
    assert_eq!(select_host(None, None, &[], None, None, None).unwrap(), "nixos");
    assert!(select_host(None, Some(" "), &[], None, None, None).is_err());
}

#[test]
fn repo_config_wins_over_user_config() {
    let user = Some(data(None, Some("userhost"), Some(true), Some("#000000")));
    let repo = Some(data(None, Some("repohost"), Some(false), None));
    let config = finish_config(
        "/flake",
        None,
        None,
        &[],
        Some("machine"),
        "/home/u/.config/nr/config.toml",
        &user,
        "/flake/.nr.toml",
        &repo,
    )
    .unwrap();
    assert_eq!(config.target.host, "repohost");
    assert!(!config.check.nixfmt);
    assert!(config.check.flake);
    assert_eq!(config.ui.accent.as_deref(), Some("#000000"));
    assert_eq!(config.repo_config_path.as_deref(), Some("/flake/.nr.toml"));
    let bad_repo = Some(data(Some("/elsewhere"), None, None, None));
    assert!(finish_config("/flake", None, None, &[], None, "u", &None, "r", &bad_repo).is_err());
}

#[test]
fn ui_accent_must_be_hex() {
    assert!(is_hex_color("#cba6f7"));
    assert!(!is_hex_color("#cba6f"));
    assert!(!is_hex_color("purple"));
    let error = merge_ui_settings(
        nr::config::UiSettings::default(),
        &data(None, None, None, Some("purple")),
    )
    .unwrap_err();
    assert_eq!(error.describe(), "[ui].accent must be a hex color like \"#cba6f7\".");
}

#[test]
fn user_config_lives_under_xdg_or_home() {
    assert_eq!(
        user_config_path(&env(&[("XDG_CONFIG_HOME", "/xdg")]), None),
        "/xdg/nr/config.toml"
    );
    assert_eq!(
        user_config_path(&env(&[("HOME", "/home/u")]), None),
        "/home/u/.config/nr/config.toml"
    );
    assert_eq!(user_config_path(&[], Some("/h")), "/h/.config/nr/config.toml");
    assert_eq!(
        user_config_path(&env(&[("XDG_CONFIG_HOME", "~/cfg"), ("HOME", "/home/u")]), None),
        "/home/u/cfg/nr/config.toml"
    );
}
