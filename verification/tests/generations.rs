use nr::backend::BackendOptions;
use nr::generations::{
    current_generation, generation_by_number, generation_path, pin_generation, pin_labels,
    pins_path, previous_generation, resolve_generation_reference, rollback_target_command,
    PinsFile, SystemGeneration,
};

#[test]
fn pins_generation_labels_and_requires_force_to_overwrite() {
    let pins = pin_generation(42, "last-good", false, PinsFile::default()).unwrap();
    assert_eq!(pins.get("last-good"), Some(42));
    assert_eq!(
        resolve_generation_reference("last-good", &pins).unwrap(),
        42
    );
    assert_eq!(resolve_generation_reference("43", &pins).unwrap(), 43);

    assert!(pin_generation(41, "last-good", false, pins.clone()).is_err());
    let pins = pin_generation(41, "last-good", true, pins).unwrap();
    assert_eq!(pins.get("last-good"), Some(41));
}

fn generation(number: u64, date: &str, current: bool) -> SystemGeneration {
    SystemGeneration {
        generation: number,
        date: date.to_string(),
        nixos_version: "26.11".to_string(),
        kernel_version: String::new(),
        configuration_revision: String::new(),
        current,
    }
}

#[test]
fn finds_previous_current_and_numbered_generations() {
    let generations = vec![
        generation(2, "2026-08-01 10:00:00", true),
        generation(1, "2026-07-31 10:00:00", false),
    ];

    assert_eq!(current_generation(&generations).unwrap().generation, 2);
    assert_eq!(previous_generation(&generations).unwrap().generation, 1);
    assert_eq!(
        generation_by_number(&generations, 1).unwrap().date,
        "2026-07-31 10:00:00"
    );
    assert!(generation_by_number(&generations, 3).is_none());
    assert!(previous_generation(&[generation(1, "", true)]).is_none());
    assert!(current_generation(&[generation(1, "", false)]).is_none());
}

#[test]
fn pins_stay_sorted_and_labels_are_listed_per_generation() {
    let mut pins = PinsFile::default();
    pins.insert("zeta", 3);
    pins.insert("alpha", 3);
    pins.insert("mid", 4);
    pins.insert("alpha", 3);
    let labels: Vec<&str> = pins.pins.iter().map(|(l, _)| l.as_str()).collect();
    assert_eq!(labels, vec!["alpha", "mid", "zeta"]);
    assert_eq!(pin_labels(&pins, 3), "alpha, zeta");
    assert_eq!(pin_labels(&pins, 9), "");
    assert!(pins.contains_key("mid"));
    assert!(!pins.contains_key("nope"));
}

#[test]
fn pin_errors_and_unknown_references() {
    let error = pin_generation(1, "   ", false, PinsFile::default()).unwrap_err();
    assert_eq!(error.describe(), "pin label cannot be empty.");
    let pins = pin_generation(1, "a", false, PinsFile::default()).unwrap();
    let error = pin_generation(2, " a ", false, pins.clone()).unwrap_err();
    assert_eq!(
        error.describe(),
        "pin label already exists: a. Use --force to overwrite."
    );
    let error = resolve_generation_reference("b", &pins).unwrap_err();
    assert_eq!(error.describe(), "unknown generation or pin: b");
    assert_eq!(resolve_generation_reference("+7", &pins).unwrap(), 7);
}

#[test]
fn rollback_targets_use_profile_links() {
    assert_eq!(generation_path(41), "/nix/var/nix/profiles/system-41-link");
    assert_eq!(
        rollback_target_command(Some(41), &BackendOptions::default()).to_vec(),
        [
            "nixos-rebuild",
            "switch",
            "--store-path",
            "/nix/var/nix/profiles/system-41-link"
        ]
        .map(String::from)
    );
    assert_eq!(
        rollback_target_command(None, &BackendOptions::default()).to_vec(),
        ["nixos-rebuild", "switch", "--rollback"].map(String::from)
    );
    assert_eq!(pins_path("/state/nr"), "/state/nr/pins.toml");
}

#[test]
fn generation_path_reads_back_as_its_number() {
    for n in [0u64, 7, 41, 1234567890123] {
        assert_eq!(
            nr::impact::parse_generation_from_path(&generation_path(n)),
            Some(n)
        );
    }
    assert_eq!(nr::impact::parse_generation_from_path("/run/current-system"), None);
}
