use nr::json::{json_to_string, parse_json, JsonValue};
use nr::lock::{
    focused_field_changes, focused_lockfile_diff, focused_lockfile_diff_bytes, focused_report,
    lock_node_for_input, lock_of_json, FieldValue, FocusedLockDiff, InputRef, LockFile, LockNode,
    Locked,
};

fn string_field(name: &str, value: &str) -> (String, FieldValue) {
    (
        name.to_string(),
        FieldValue {
            is_string: true,
            text: value.to_string(),
        },
    )
}

fn github_lock(rev: &str) -> Locked {
    // Entries in key order, as serde_json keeps an object.
    Locked {
        text: format!(
            "{{\"narHash\":\"sha256-{rev}\",\"rev\":\"{rev}\",\"type\":\"github\"}}"
        ),
        fields: vec![
            string_field("narHash", &format!("sha256-{rev}")),
            string_field("rev", rev),
            string_field("type", "github"),
        ],
    }
}

fn test_lockfile(nr_rev: &str, home_manager_rev: &str) -> LockFile {
    LockFile {
        root: Some("root".to_string()),
        nodes: Some(vec![
            LockNode {
                name: "home-manager".to_string(),
                inputs: vec![],
                locked: Some(github_lock(home_manager_rev)),
            },
            LockNode {
                name: "nr".to_string(),
                inputs: vec![],
                locked: Some(github_lock(nr_rev)),
            },
            LockNode {
                name: "root".to_string(),
                inputs: vec![
                    ("home-manager".to_string(), InputRef::Node("home-manager".to_string())),
                    ("nr".to_string(), InputRef::Node("nr".to_string())),
                ],
                locked: None,
            },
        ]),
    }
}

#[test]
fn focused_lockfile_diff_on_lock_models() {
    let before = test_lockfile("old-nr", "old-home-manager");
    let after = test_lockfile("new-nr", "new-home-manager");
    let diff = focused_lockfile_diff(&before, &after, &vec!["nr".to_string()])
        .expect("focused lock diff");

    assert_eq!(diff.requested.len(), 1);
    assert_eq!(diff.requested[0].input, "nr");
    assert!(diff.requested[0]
        .fields
        .iter()
        .any(|field| field.name == "rev" && field.before == "old-nr" && field.after == "new-nr"));
    assert_eq!(diff.other_changed, 1);
}

#[test]
fn focused_diff_lists_changed_fields_in_fixed_order() {
    let before = test_lockfile("a", "b");
    let after = test_lockfile("c", "b");
    let diff = focused_lockfile_diff(&before, &after, &vec!["nr".to_string()]).unwrap();
    let fields = &diff.requested[0].fields;
    assert_eq!(fields.len(), 2);
    assert_eq!(fields[0].name, "rev");
    assert_eq!(fields[1].name, "narHash");
    assert_eq!(fields[1].before, "sha256-a");
    assert_eq!(fields[1].after, "sha256-c");
    assert_eq!(diff.other_changed, 0);
}

#[test]
fn focused_diff_skips_unchanged_requested_inputs() {
    let before = test_lockfile("a", "b");
    let after = test_lockfile("a", "c");
    let diff = focused_lockfile_diff(&before, &after, &vec!["nr".to_string()]).unwrap();
    assert!(diff.requested.is_empty());
    assert_eq!(diff.other_changed, 1);
    let (lines, warning) = focused_report(&diff, &vec!["nr".to_string()], "/etc/nixos");
    assert_eq!(
        lines,
        vec![
            "flake.lock changed:".to_string(),
            "  requested inputs unchanged: nr".to_string()
        ]
    );
    assert_eq!(
        warning,
        Some(
            "warning: 1 other lock node(s) changed; run `git -C /etc/nixos diff -- flake.lock` to inspect them"
                .to_string()
        )
    );
}

#[test]
fn focused_diff_needs_nodes_on_both_sides() {
    let before = LockFile {
        root: None,
        nodes: None,
    };
    let after = test_lockfile("a", "b");
    assert!(focused_lockfile_diff(&before, &after, &vec!["nr".to_string()]).is_none());
    assert!(focused_lockfile_diff(&after, &before, &vec!["nr".to_string()]).is_none());
}

#[test]
fn input_names_resolve_through_root_and_follows() {
    let mut lock = test_lockfile("a", "b");
    if let Some(nodes) = lock.nodes.as_mut() {
        nodes[2].inputs.push((
            "nixpkgs".to_string(),
            InputRef::Follows(vec![
                FieldValue {
                    is_string: true,
                    text: "home-manager".to_string(),
                },
                FieldValue {
                    is_string: true,
                    text: "nixpkgs_2".to_string(),
                },
            ]),
        ));
    }
    assert_eq!(lock_node_for_input(&lock, "nr"), Some("nr".to_string()));
    assert_eq!(lock_node_for_input(&lock, "nr/sub"), Some("nr".to_string()));
    assert_eq!(lock_node_for_input(&lock, "nixpkgs"), Some("nixpkgs_2".to_string()));
    assert_eq!(lock_node_for_input(&lock, "missing"), None);
    assert_eq!(lock_node_for_input(&lock, "/nr"), None);
}

#[test]
fn report_shows_each_field_change() {
    let before = test_lockfile("a", "b");
    let after = test_lockfile("c", "b");
    let diff = focused_lockfile_diff(&before, &after, &vec!["nr".to_string()]).unwrap();
    let (lines, warning) = focused_report(&diff, &vec!["nr".to_string()], ".");
    assert_eq!(
        lines,
        vec![
            "flake.lock changed:".to_string(),
            "  requested input changes:".to_string(),
            "    nr:".to_string(),
            "      rev: a -> c".to_string(),
            "      narHash: sha256-a -> sha256-c".to_string(),
        ]
    );
    assert_eq!(warning, None);
    let only_locked = FocusedLockDiff {
        requested: vec![nr::lock::FocusedInputChange {
            input: "x".to_string(),
            fields: vec![],
        }],
        other_changed: 0,
    };
    let (lines, _) = focused_report(&only_locked, &vec!["x".to_string()], ".");
    assert_eq!(lines[2..], ["    x:".to_string(), "      locked: changed".to_string()]);
}

#[test]
fn missing_fields_show_as_missing() {
    let changes = focused_field_changes(&None, &Some(github_lock("z")));
    assert_eq!(changes.len(), 3);
    assert_eq!(changes[0].name, "rev");
    assert_eq!(changes[0].before, "<missing>");
    assert_eq!(changes[0].after, "z");
    assert_eq!(changes[2].name, "type");
}

fn test_lockfile_text(nr_rev: &str, home_manager_rev: &str) -> String {
    format!(
        r#"{{
  "root": "root",
  "nodes": {{
    "root": {{"inputs": {{"nr": "nr", "home-manager": "home-manager"}}}},
    "nr": {{"locked": {{"type": "github", "rev": "{nr_rev}", "narHash": "sha256-{nr_rev}"}}}},
    "home-manager": {{"locked": {{"type": "github", "rev": "{home_manager_rev}", "narHash": "sha256-{home_manager_rev}"}}}}
  }}
}}"#
    )
}

#[test]
fn focused_lockfile_diff_reports_requested_input_only() {
    let before = test_lockfile_text("old-nr", "old-home-manager");
    let after = test_lockfile_text("new-nr", "new-home-manager");
    let diff = focused_lockfile_diff_bytes(before.as_bytes(), after.as_bytes(), &vec!["nr".to_string()])
        .expect("focused lock diff");

    assert_eq!(diff.requested.len(), 1);
    assert_eq!(diff.requested[0].input, "nr");
    assert!(
        diff.requested[0]
            .fields
            .iter()
            .any(|field| field.name == "rev"
                && field.before == "old-nr"
                && field.after == "new-nr")
    );
    assert_eq!(diff.other_changed, 1);
}

#[test]
fn focused_lockfile_diff_bytes_needs_json_and_nodes() {
    let good = test_lockfile_text("a", "b");
    let inputs = vec!["nr".to_string()];
    assert!(focused_lockfile_diff_bytes(b"not json", good.as_bytes(), &inputs).is_none());
    assert!(focused_lockfile_diff_bytes(good.as_bytes(), b"{", &inputs).is_none());
    assert!(focused_lockfile_diff_bytes(br#"{"root":"root"}"#, good.as_bytes(), &inputs).is_none());
    let same = focused_lockfile_diff_bytes(good.as_bytes(), good.as_bytes(), &inputs).unwrap();
    assert!(same.requested.is_empty());
    assert_eq!(same.other_changed, 0);
}

#[test]
fn json_text_is_compact_and_escaped() {
    let value = parse_json(br#"{ "b": null, "a": [1, 2.5, true, "x\n\"y\u0001"] }"#).unwrap();
    assert_eq!(
        json_to_string(&value),
        r#"{"a":[1,2.5,true,"x\n\"y\u0001"],"b":null}"#
    );
    assert!(matches!(parse_json(b"[1,]"), None));
    assert!(matches!(parse_json(b"\"s\""), Some(JsonValue::Str(_))));
}

#[test]
fn lock_of_json_reads_roots_follows_and_locked_fields() {
    let text = br#"{"root":"top","nodes":{"top":{"inputs":{"a":["b","c"],"d":7}},"c":{"locked":{"lastModified":42,"rev":"r"}}}}"#;
    let lock = lock_of_json(&parse_json(text).unwrap());
    assert_eq!(lock.root, Some("top".to_string()));
    assert_eq!(lock_node_for_input(&lock, "a/x"), Some("c".to_string()));
    assert_eq!(lock_node_for_input(&lock, "d"), None);
    let nodes = lock.nodes.unwrap();
    let c = nodes.iter().find(|n| n.name == "c").unwrap();
    let locked = c.locked.as_ref().unwrap();
    assert_eq!(locked.text, r#"{"lastModified":42,"rev":"r"}"#);
    assert!(!locked.fields[0].1.is_string);
    assert_eq!(locked.fields[0].1.text, "42");
}
