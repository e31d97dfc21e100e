use nr::events::{parse_line, BuildCategory, BuildState, ParsedLine};
use nr::impact::{
    closure_diff_from_run, parse_activation_impact_lowered, parse_closure_diff, parse_closure_diff_lowered,
    reboot_recommendation, reboot_recommendation_lowered,
};

const DIFF: &str = "
+ linux-6.10
- old-service-1.0
openssl: 3.0 -> 3.1
closure size: 1.0 GiB -> 1.1 GiB, +100.0 MiB
";

fn pair(line: &str, item: &str) -> (String, String) {
    (line.to_string(), item.to_string())
}

fn diff_lowering() -> Vec<(String, String)> {
    vec![
        pair("", ""),
        pair("+ linux-6.10", "linux-6.10"),
        pair("- old-service-1.0", "old-service-1.0"),
        pair("openssl: 3.0 -> 3.1", "openssl: 3.0 -> 3.1"),
        pair(
            "closure size: 1.0 gib -> 1.1 gib, +100.0 mib",
            "closure size: 1.0 gib -> 1.1 gib, +100.0 mib",
        ),
    ]
}

#[test]
fn closure_diff_from_lowered_lines_matches_the_plain_parse() {
    let diff = parse_closure_diff_lowered(DIFF, &diff_lowering()).unwrap();
    assert_eq!(diff.additions, vec!["linux-6.10".to_string()]);
    assert_eq!(diff.removals, vec!["old-service-1.0".to_string()]);
    assert_eq!(diff.upgrades, vec!["openssl: 3.0 -> 3.1".to_string()]);
    assert!(diff.downgrades.is_empty());
    assert!(diff.changes.is_empty());
    assert_eq!(
        diff.size_delta.as_deref(),
        Some("closure size: 1.0 GiB -> 1.1 GiB, +100.0 MiB")
    );
    assert_eq!(
        diff.important,
        vec!["linux-6.10".to_string(), "openssl: 3.0 -> 3.1".to_string()]
    );
    let plain = parse_closure_diff(DIFF);
    assert_eq!(plain.additions, diff.additions);
    assert_eq!(plain.important, diff.important);
}

#[test]
fn closure_diff_wants_one_lowered_entry_per_line() {
    let mut short = diff_lowering();
    short.pop();
    assert!(parse_closure_diff_lowered(DIFF, &short).is_none());
}

#[test]
fn dry_activation_from_lowered_lines() {
    let output = "would stop the following units: old.service\n  more.service\nWould Restart: sshd.service\n";
    let lowered = vec![
        "would stop the following units: old.service".to_string(),
        "more.service".to_string(),
        "would restart: sshd.service".to_string(),
    ];
    let impact = parse_activation_impact_lowered(output, &lowered).unwrap();
    assert_eq!(
        impact.stopped,
        vec!["old.service".to_string(), "more.service".to_string()]
    );
    assert_eq!(impact.restarted, vec!["sshd.service".to_string()]);
    assert!(parse_activation_impact_lowered(output, &lowered[..2].to_vec()).is_none());
}

#[test]
fn reboot_advice_from_lowered_changes() {
    assert_eq!(
        reboot_recommendation_lowered("switch", &vec!["linux-6.10".to_string()]),
        "reboot recommended because core system components changed"
    );
    assert_eq!(
        reboot_recommendation_lowered("switch", &vec!["htop".to_string()]),
        "no reboot requirement detected"
    );
    assert_eq!(
        reboot_recommendation_lowered("boot", &vec![]),
        "reboot required to use the new boot generation"
    );
    let diff = parse_closure_diff("+ Linux-6.10\n");
    assert_eq!(
        reboot_recommendation("test", &diff),
        "reboot recommended because core system components changed"
    );
}

#[test]
fn ingest_with_lowered_text() {
    let ParsedLine::Event(start) = parse_line(
        r#"@nix {"action":"start","id":3,"text":"Building '/nix/store/aaaaaaaaaaaaaaaaaaaaaaaaaaaaaaaa-NIRI.drv'"}"#,
    ) else {
        panic!("expected event");
    };
    let mut state = BuildState::default();
    let lower = "building '/nix/store/aaaaaaaaaaaaaaaaaaaaaaaaaaaaaaaa-niri.drv'";
    state.ingest_lowered(&start, 9, lower, lower);
    assert_eq!(state.phase, "building");
    assert_eq!(state.source_builds, 1);
    assert_eq!(state.running.len(), 1);
    assert_eq!(state.running[0].category, BuildCategory::DesktopStack);
    assert_eq!(state.running[0].started_at, 9);
    assert_eq!(
        state.running[0].drv_path.as_deref(),
        Some("/nix/store/aaaaaaaaaaaaaaaaaaaaaaaaaaaaaaaa-NIRI.drv")
    );
}

#[test]
fn failed_diff_run_keeps_both_outputs() {
    let diff = closure_diff_from_run(2, "out\n", "err\n");
    assert_eq!(diff.raw, "out\nerr\n");
    assert_eq!(
        diff.unavailable.as_deref(),
        Some("nix store diff-closures exited with 2")
    );
    assert!(diff.additions.is_empty() && diff.important.is_empty());
    let ok = closure_diff_from_run(0, "+ zsh-5.9\n", "ignored");
    assert_eq!(ok.additions, vec!["zsh-5.9".to_string()]);
    assert_eq!(ok.raw, "+ zsh-5.9\n");
    assert!(ok.unavailable.is_none());
}
