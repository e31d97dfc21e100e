use nr::events::{parse_line, Activity, BuildCategory, BuildState, ParsedLine};
use nr::graph::{
    derivation_name_of, extract_derivation_paths, parse_dot_line, store_key_of, DependencyGraph,
    DotEntry,
};
use nr::ui::build_graph_lines;

const SYSTEM_DOT: &str = r#"
digraph G {
"cccccccccccccccccccccccccccccccc-nixos-system-nixos.drv" [label = "nixos-system-nixos"];
"dddddddddddddddddddddddddddddddd-etc.drv" [label = "etc"];
"bbbbbbbbbbbbbbbbbbbbbbbbbbbbbbbb-man-cache.drv" [label = "man-cache"];
"dddddddddddddddddddddddddddddddd-etc.drv" -> "cccccccccccccccccccccccccccccccc-nixos-system-nixos.drv";
"bbbbbbbbbbbbbbbbbbbbbbbbbbbbbbbb-man-cache.drv" -> "dddddddddddddddddddddddddddddddd-etc.drv";
}
"#;

#[test]
fn graph_lines_are_bounded() {
    let mut state = BuildState {
        phase: "building".to_string(),
        completed: 9,
        downloads: 2,
        source_builds: 1,
        binary_substitutes: 1,
        ..BuildState::default()
    };
    let child = Activity {
        id: 2,
        parent: Some(1),
        text: "evaluating derivation 'git+file:///etc/nixos#nixosConfigurations.\"nixos\".config.system.build.toplevel'"
            .to_string(),
        drv_path: Some("/nix/store/bbbbbbbbbbbbbbbbbbbbbbbbbbbbbbbb-man-cache.drv".to_string()),
        category: BuildCategory::Other,
        source_build: false,
        substitute: false,
        started_at: 0,
    };
    state.running.push(child);
    state
        .dependency_graph
        .note_path("/nix/store/cccccccccccccccccccccccccccccccc-nixos-system-nixos.drv");
    state.dependency_graph.note_dot_graph(
        "/nix/store/cccccccccccccccccccccccccccccccc-nixos-system-nixos.drv",
        SYSTEM_DOT,
    );

    let lines = build_graph_lines(&state, 64);

    assert!(lines.iter().any(|line| line.contains("build graph")));
    assert!(lines.iter().any(|line| line.contains("Dependency Graph")));
    assert!(lines.iter().any(|line| line.contains("nixos-system-nixos")));
    assert!(lines.iter().any(|line| line.contains("man-cache")));
    assert!(lines.iter().any(|line| line.contains("`-- man-cache")));
    assert!(lines.iter().all(|line| line.chars().count() <= 64));
}

#[test]
fn extracts_derivation_paths_from_plain_nix_output() {
    let paths = extract_derivation_paths(
        "  /nix/store/aaaaaaaaaaaaaaaaaaaaaaaaaaaaaaaa-nixos-system-host.drv",
    );

    assert_eq!(
        paths,
        vec!["/nix/store/aaaaaaaaaaaaaaaaaaaaaaaaaaaaaaaa-nixos-system-host.drv".to_string()]
    );
}

#[test]
fn dependency_graph_finds_path_from_system_derivation_to_active_drv() {
    let mut state = BuildState::default();
    state.note_derivation_paths_from_text(
        "/nix/store/aaaaaaaaaaaaaaaaaaaaaaaaaaaaaaaa-nixos-system-host.drv",
    );
    state.note_derivation_graph(
        "/nix/store/aaaaaaaaaaaaaaaaaaaaaaaaaaaaaaaa-nixos-system-host.drv",
        r#"
digraph G {
"aaaaaaaaaaaaaaaaaaaaaaaaaaaaaaaa-nixos-system-host.drv" [label = "nixos-system-host"];
"bbbbbbbbbbbbbbbbbbbbbbbbbbbbbbbb-etc.drv" [label = "etc"];
"cccccccccccccccccccccccccccccccc-man-cache.drv" [label = "man-cache"];
"bbbbbbbbbbbbbbbbbbbbbbbbbbbbbbbb-etc.drv" -> "aaaaaaaaaaaaaaaaaaaaaaaaaaaaaaaa-nixos-system-host.drv";
"cccccccccccccccccccccccccccccccc-man-cache.drv" -> "bbbbbbbbbbbbbbbbbbbbbbbbbbbbbbbb-etc.drv";
}
"#,
    );

    let path = state
        .dependency_graph
        .active_path(&["/nix/store/cccccccccccccccccccccccccccccccc-man-cache.drv".to_string()])
        .unwrap();

    assert_eq!(path.len(), 3);
    assert_eq!(
        state.dependency_graph.label(path.last().unwrap()),
        "man-cache"
    );
}

#[test]
fn extraction_finds_paths_in_json_and_quotes_and_skips_outputs() {
    let line = r#"@nix {"action":"start","id":5,"text":"building '/nix/store/abc-hello-2.12.drv'","fields":["/nix/store/abc-hello-2.12.drv"]}"#;
    assert_eq!(
        extract_derivation_paths(line),
        vec![
            "/nix/store/abc-hello-2.12.drv".to_string(),
            "/nix/store/abc-hello-2.12.drv".to_string(),
        ]
    );
    assert!(extract_derivation_paths("copying path '/nix/store/xyz-glibc-2.40' from cache").is_empty());
    assert!(extract_derivation_paths("no store paths here").is_empty());
    assert_eq!(
        extract_derivation_paths("/nix/store/a-x.drv^out and /nix/store/b-y.drv"),
        vec!["/nix/store/a-x.drv".to_string(), "/nix/store/b-y.drv".to_string()]
    );
}

#[test]
fn store_keys_and_derivation_names() {
    assert_eq!(store_key_of("/nix/store/abc-etc.drv"), "abc-etc.drv");
    assert_eq!(store_key_of("abc-etc.drv"), "abc-etc.drv");
    assert_eq!(derivation_name_of("abc-man-cache.drv"), "man-cache");
    assert_eq!(derivation_name_of("plain"), "plain");
}

#[test]
fn dot_lines_parse_nodes_edges_and_attributes() {
    match parse_dot_line(r#""abc-etc.drv" [label = "etc.drv", shape = box, style = filled];"#) {
        DotEntry::Node(key, label) => {
            assert_eq!(key, "abc-etc.drv");
            assert_eq!(label, Some("etc.drv".to_string()));
        }
        _ => panic!("expected a node"),
    }
    match parse_dot_line(r#"  "a.drv" -> "b.drv" [color = "black"];"#) {
        DotEntry::Edge(from, to) => {
            assert_eq!(from, "a.drv");
            assert_eq!(to, "b.drv");
        }
        _ => panic!("expected an edge"),
    }
    match parse_dot_line(r#""a.drv";"#) {
        DotEntry::Node(key, label) => {
            assert_eq!(key, "a.drv");
            assert_eq!(label, None);
        }
        _ => panic!("expected a node"),
    }
    assert!(matches!(parse_dot_line("digraph G {"), DotEntry::Skip));
    assert!(matches!(parse_dot_line("}"), DotEntry::Skip));
    assert!(matches!(parse_dot_line(r#""a.drv" -> oops"#), DotEntry::Skip));
}

#[test]
fn only_unasked_system_derivations_are_roots_to_load() {
    let mut graph = DependencyGraph::new();
    graph.note_paths_from_text(
        "building '/nix/store/aaa-hello.drv' for /nix/store/bbb-nixos-system-host-26.11.drv",
    );
    graph.note_path("/nix/store/bbb-nixos-system-host-26.11.drv");
    assert_eq!(
        graph.roots_to_load(),
        vec!["/nix/store/bbb-nixos-system-host-26.11.drv".to_string()]
    );
    graph.mark_attempted("/nix/store/bbb-nixos-system-host-26.11.drv");
    assert!(graph.roots_to_load().is_empty());
    assert!(!graph.roots_loaded());
}

#[test]
fn active_path_is_none_when_nothing_reaches_the_active_derivations() {
    let mut graph = DependencyGraph::new();
    assert_eq!(graph.active_path(&["/nix/store/x-a.drv".to_string()]), None);
    graph.note_dot_graph(
        "/nix/store/root-nixos-system-h.drv",
        r#""dep-a.drv" -> "root-nixos-system-h.drv";"#,
    );
    assert!(graph.roots_loaded());
    assert_eq!(graph.active_path(&["/nix/store/other-b.drv".to_string()]), None);
    assert_eq!(
        graph.active_path(&[
            "/nix/store/other-b.drv".to_string(),
            "/nix/store/dep-a.drv".to_string(),
        ]),
        Some(vec!["root-nixos-system-h.drv".to_string(), "dep-a.drv".to_string()])
    );
    assert_eq!(graph.label("dep-a.drv"), "a");
    assert_eq!(
        graph.active_path(&["/nix/store/root-nixos-system-h.drv".to_string()]),
        Some(vec!["root-nixos-system-h.drv".to_string()])
    );
}

#[test]
fn later_labels_win_and_edges_accumulate() {
    let mut graph = DependencyGraph::new();
    graph.note_dot_graph(
        "/nix/store/r-nixos-system-x.drv",
        "\"a.drv\" [label = \"first\"];\n\"a.drv\" [label = \"second\"];\n\"a.drv\" -> \"r-nixos-system-x.drv\";",
    );
    assert_eq!(graph.label("a.drv"), "second");
    graph.note_dot_graph("/nix/store/r-nixos-system-x.drv", "\"b.drv\" -> \"a.drv\";");
    assert_eq!(
        graph.active_path(&["/nix/store/a.drv".to_string()]),
        Some(vec!["r-nixos-system-x.drv".to_string(), "a.drv".to_string()])
    );
    assert_eq!(
        graph.active_path(&["/nix/store/b.drv".to_string()]),
        Some(vec![
            "r-nixos-system-x.drv".to_string(),
            "a.drv".to_string(),
            "b.drv".to_string(),
        ])
    );
    assert_eq!(graph.label("a.drv"), "second");
}

#[test]
fn started_build_records_its_derivation() {
    let line = r#"@nix {"action":"start","id":7,"type":105,"text":"building '/nix/store/abc-linux-6.18.drv'","fields":[]}"#;
    let ParsedLine::Event(event) = parse_line(line) else {
        panic!("expected event");
    };
    let mut state = BuildState::default();
    state.ingest(&event);
    assert_eq!(
        state.running[0].drv_path,
        Some("/nix/store/abc-linux-6.18.drv".to_string())
    );
    assert_eq!(
        state.active_derivation_paths(),
        vec!["/nix/store/abc-linux-6.18.drv".to_string()]
    );
}

#[test]
fn graph_lines_show_the_route_and_what_is_waited_for() {
    let mut state = BuildState::default();
    state.running.push(Activity {
        id: 1,
        parent: None,
        text: "building".to_string(),
        category: BuildCategory::Other,
        source_build: true,
        substitute: false,
        started_at: 0,
        drv_path: Some("/nix/store/bbbbbbbbbbbbbbbbbbbbbbbbbbbbbbbb-man-cache.drv".to_string()),
    });
    let waiting = build_graph_lines(&state, 200);
    assert_eq!(waiting[3], "`-- waiting for nix-store derivation graph");
    assert_eq!(waiting[4], "active derivations:");
    assert!(waiting[5].starts_with("  - "));

    state.dependency_graph.note_dot_graph(
        "/nix/store/cccccccccccccccccccccccccccccccc-nixos-system-nixos.drv",
        SYSTEM_DOT,
    );
    let lines = build_graph_lines(&state, 200);
    assert_eq!(
        lines[2..6].to_vec(),
        vec![
            "Dependency Graph:".to_string(),
            "|-- nixos-system-nixos".to_string(),
            "    |-- etc".to_string(),
            "        `-- man-cache".to_string(),
        ]
    );

    state.running[0].drv_path = Some("/nix/store/zzz-unrelated.drv".to_string());
    let loaded = build_graph_lines(&state, 200);
    assert_eq!(
        loaded[3],
        "`-- waiting for an active derivation in the loaded graph"
    );
}

#[test]
fn deep_routes_are_cut_at_the_graph_depth() {
    let mut state = BuildState::default();
    state.running.push(Activity {
        id: 1,
        parent: None,
        text: "building".to_string(),
        category: BuildCategory::Other,
        source_build: true,
        substitute: false,
        started_at: 0,
        drv_path: Some("/nix/store/bbbbbbbbbbbbbbbbbbbbbbbbbbbbbbbb-man-cache.drv".to_string()),
    });
    state.dependency_graph.note_dot_graph(
        "/nix/store/cccccccccccccccccccccccccccccccc-nixos-system-nixos.drv",
        SYSTEM_DOT,
    );
    let lines = nr::ui::build_graph_lines_at(&state, 200, 0, 1);
    assert_eq!(lines[3], "|-- nixos-system-nixos");
    assert_eq!(lines[4], "     `-- ... 2 more dependencies");
}

#[test]
fn active_path_takes_a_shortest_route() {
    let mut graph = DependencyGraph::new();
    graph.note_dot_graph(
        "/nix/store/r-nixos-system-x.drv",
        "\"a.drv\" -> \"r-nixos-system-x.drv\";\n\"b.drv\" -> \"a.drv\";\n\"c.drv\" -> \"b.drv\";\n\"c.drv\" -> \"r-nixos-system-x.drv\";",
    );
    assert_eq!(
        graph.active_path(&["/nix/store/c.drv".to_string()]),
        Some(vec!["r-nixos-system-x.drv".to_string(), "c.drv".to_string()])
    );
    assert_eq!(
        graph.active_path(&["/nix/store/b.drv".to_string()]),
        Some(vec![
            "r-nixos-system-x.drv".to_string(),
            "a.drv".to_string(),
            "b.drv".to_string(),
        ])
    );
}
