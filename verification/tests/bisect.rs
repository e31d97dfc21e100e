use nr::bisect::{
    clean_generation_revision, generation_number_for_reference, git_bisect_run_command,
    history_revision_for_generation_in, previous_generation_before, short_revision, HistoryEntry,
};
use nr::generations::{PinsFile, SystemGeneration};
use nr::process::CommandSpec;

fn generation(number: u64, current: bool) -> SystemGeneration {
    SystemGeneration {
        generation: number,
        date: String::new(),
        nixos_version: String::new(),
        kernel_version: String::new(),
        configuration_revision: number.to_string(),
        current,
    }
}

#[test]
fn generation_revision_filters_unknown_values() {
    assert_eq!(
        clean_generation_revision("abc123").as_deref(),
        Some("abc123")
    );
    assert_eq!(clean_generation_revision("unknown"), None);
    assert_eq!(clean_generation_revision("dirty"), None);
    assert_eq!(clean_generation_revision(""), None);
}

#[test]
fn previous_generation_before_selects_nearest_lower_generation() {
    let generations = vec![
        generation(1, false),
        generation(2, false),
        generation(5, true),
    ];

    assert_eq!(previous_generation_before(&generations, 5), Some(2));
    assert_eq!(previous_generation_before(&generations, 2), Some(1));
    assert_eq!(previous_generation_before(&generations, 1), None);
}

#[test]
fn history_revision_uses_latest_matching_generation() {
    let entries = vec![
        HistoryEntry {
            new_generation: Some(4),
            git_revision: Some("old".to_string()),
        },
        HistoryEntry {
            new_generation: Some(5),
            git_revision: Some("wrong".to_string()),
        },
        HistoryEntry {
            new_generation: Some(4),
            git_revision: Some("new".to_string()),
        },
    ];
    let revision = history_revision_for_generation_in(&entries, 4);

    assert_eq!(revision.as_deref(), Some("new"));
}

#[test]
fn bisect_references_resolve_current_numbers_and_pins() {
    let generations = vec![generation(7, false), generation(8, true)];
    let pins = nr::generations::pin_generation(7, " good ", false, PinsFile::default()).unwrap();
    assert_eq!(
        generation_number_for_reference("current", &generations, &pins).unwrap(),
        Some(8)
    );
    assert_eq!(
        generation_number_for_reference("12", &generations, &pins).unwrap(),
        Some(12)
    );
    assert_eq!(
        generation_number_for_reference("good", &generations, &pins).unwrap(),
        Some(7)
    );
    assert_eq!(
        generation_number_for_reference("HEAD~3", &generations, &pins).unwrap(),
        None
    );
}

#[test]
fn placeholder_revisions_and_short_revisions() {
    assert_eq!(clean_generation_revision("  N/A "), None);
    assert_eq!(clean_generation_revision(" - "), None);
    assert_eq!(clean_generation_revision(" deadbeef ").as_deref(), Some("deadbeef"));
    assert_eq!(short_revision("0123456789abcdef"), "0123456789ab");
    assert_eq!(short_revision("abc"), "abc");
}

#[test]
fn bisect_run_wraps_the_probe_command() {
    let probe = CommandSpec::new("nr").arg("build");
    assert_eq!(
        git_bisect_run_command("/flake", &probe).to_vec(),
        ["git", "-C", "/flake", "bisect", "run", "nr", "build"].map(String::from)
    );
}
