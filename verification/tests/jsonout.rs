use nr::config::FlakeTarget;
use nr::events::{BuildState, NixEvent};
use nr::git::GitSummary;
use nr::impact::{ActivationImpact, ClosureDiff, GenerationInfo};
use nr::json::{json_to_string, parse_json};
use nr::process::{StreamLine, StreamSource};
use nr::ui::{
    activation_event_json, backend_event_json, build_event_json, diff_event_json,
    finish_event_json, parser_fallback_event_json, phase_event_json, report_json,
    start_event_json, RebuildHeader, RebuildReport,
};

fn strings(items: &[&str]) -> Vec<String> {
    items.iter().map(|s| s.to_string()).collect()
}

fn target() -> FlakeTarget {
    FlakeTarget {
        path: "/etc/nixos".to_string(),
        host: "box".to_string(),
    }
}

fn generation(n: Option<u64>) -> GenerationInfo {
    GenerationInfo {
        generation: n,
        nixos_version: None,
        kernel_version: None,
    }
}

fn diff() -> ClosureDiff {
    ClosureDiff {
        raw: "raw text".to_string(),
        additions: strings(&["a", "b"]),
        removals: strings(&["c"]),
        upgrades: vec![],
        downgrades: vec![],
        changes: strings(&["d", "e", "f"]),
        important: strings(&["linux"]),
        size_delta: Some("+1 MiB".to_string()),
        unavailable: None,
    }
}

fn activation() -> ActivationImpact {
    ActivationImpact {
        raw: String::new(),
        stopped: vec![],
        started: strings(&["x.service"]),
        restarted: vec![],
        reloaded: vec![],
        skipped: strings(&["y.service"]),
        failed: vec![],
        caveats: vec![],
        unavailable: None,
    }
}

fn report(with_parts: bool) -> RebuildReport {
    RebuildReport {
        command: "switch".to_string(),
        target: target(),
        result: "success".to_string(),
        store_path: if with_parts { Some("/nix/store/abc-system".to_string()) } else { None },
        current: generation(if with_parts { Some(41) } else { None }),
        new_generation: if with_parts { Some(42) } else { None },
        build: BuildState {
            completed: 3,
            downloads: 2,
            ..BuildState::default()
        },
        diff: if with_parts { Some(diff()) } else { None },
        activation: if with_parts { Some(activation()) } else { None },
        reboot: "not needed".to_string(),
        rollback: "nr rollback".to_string(),
        log_path: "/tmp/nr.log".to_string(),
    }
}

#[test]
fn json_report_without_diff_or_activation_has_nulls() {
    assert_eq!(
        report_json(&report(false)),
        "{\"activation\":null,\"build\":{\"binary_substitutes\":0,\"completed\":3,\
         \"downloads\":2,\"failed\":0,\"parser_fallback\":false,\"running\":0,\
         \"source_builds\":0},\"command\":\"switch\",\"current_generation\":null,\
         \"diff\":null,\"log_path\":\"/tmp/nr.log\",\"new_generation\":null,\
         \"reboot\":\"not needed\",\"result\":\"success\",\"rollback\":\"nr rollback\",\
         \"store_path\":null,\"target\":\"/etc/nixos#box\"}"
    );
}

#[test]
fn json_report_counts_diff_lists_and_keeps_activation_units() {
    assert_eq!(
        report_json(&report(true)),
        "{\"activation\":{\"caveats\":[],\"failed\":[],\"reloaded\":[],\"restarted\":[],\
         \"skipped\":[\"y.service\"],\"started\":[\"x.service\"],\"stopped\":[],\
         \"unavailable\":null},\"build\":{\"binary_substitutes\":0,\"completed\":3,\
         \"downloads\":2,\"failed\":0,\"parser_fallback\":false,\"running\":0,\
         \"source_builds\":0},\"command\":\"switch\",\"current_generation\":41,\
         \"diff\":{\"additions\":2,\"changes\":3,\"downgrades\":0,\"important\":[\"linux\"],\
         \"removals\":1,\"size_delta\":\"+1 MiB\",\"unavailable\":null,\"upgrades\":0},\
         \"log_path\":\"/tmp/nr.log\",\"new_generation\":42,\"reboot\":\"not needed\",\
         \"result\":\"success\",\"rollback\":\"nr rollback\",\
         \"store_path\":\"/nix/store/abc-system\",\"target\":\"/etc/nixos#box\"}"
    );
}

#[test]
fn jsonl_start_and_phase_lines() {
    let header = RebuildHeader {
        command: "test".to_string(),
        target: target(),
        git: GitSummary {
            repository: false,
            branch: None,
            dirty: false,
            untracked: 0,
        },
        current: generation(None),
        log_path: "/l".to_string(),
    };
    assert_eq!(
        start_event_json(&header),
        "{\"command\":\"test\",\"event\":\"start\",\"log_path\":\"/l\",\"target\":\"/etc/nixos#box\"}"
    );
    assert_eq!(phase_event_json("build"), "{\"event\":\"phase\",\"phase\":\"build\"}");
    assert_eq!(parser_fallback_event_json(), "{\"event\":\"parser_fallback\"}");
}

#[test]
fn jsonl_build_and_backend_lines() {
    let event = NixEvent {
        action: "start".to_string(),
        id: Some(7),
        parent: None,
        activity_type: None,
        level: None,
        text: String::new(),
        fields: vec![],
        raw: String::new(),
    };
    let state = BuildState {
        phase: "building".to_string(),
        completed: 1,
        failed: 2,
        ..BuildState::default()
    };
    assert_eq!(
        build_event_json(&event, &state),
        "{\"action\":\"start\",\"completed\":1,\"event\":\"build\",\"failed\":2,\"id\":7,\
         \"phase\":\"building\",\"running\":0}"
    );
    let line = StreamLine {
        source: StreamSource::Stderr,
        line: "say \"hi\"".to_string(),
    };
    assert_eq!(
        backend_event_json(&line),
        "{\"event\":\"backend\",\"line\":\"say \\\"hi\\\"\",\"source\":\"stderr\"}"
    );
}

#[test]
fn jsonl_diff_activation_and_finish_lines() {
    assert_eq!(
        diff_event_json(&diff()),
        "{\"additions\":2,\"changes\":3,\"downgrades\":0,\"event\":\"diff\",\
         \"important\":[\"linux\"],\"removals\":1,\"size_delta\":\"+1 MiB\",\
         \"unavailable\":null,\"upgrades\":0}"
    );
    let line = activation_event_json(&activation());
    assert_eq!(
        line,
        "{\"caveats\":[],\"event\":\"activation\",\"failed\":[],\"reloaded\":[],\
         \"restarted\":[],\"started\":[\"x.service\"],\"stopped\":[],\"unavailable\":null}"
    );
    assert!(!line.contains("skipped"));
    let finish = finish_event_json(&report(false));
    assert!(finish.starts_with("{\"event\":\"finish\",\"report\":{\"activation\":null,"));
    assert!(finish.ends_with("\"target\":\"/etc/nixos#box\"}}"));
}

#[test]
fn json_text_round_trips_through_the_parser() {
    let parsed = parse_json(b"{\"b\": [1, true, null], \"a\": \"x\\ny\"}").unwrap();
    assert_eq!(json_to_string(&parsed), "{\"a\":\"x\\ny\",\"b\":[1,true,null]}");
}
