use nr::backend::BackendOptions;
use nr::generations::SystemGeneration;
use nr::lifecycle::{
    apply_default_elevation_with_context, generation_or_path, hook_phase_label,
    is_explicit_local_flake_reference, lifecycle_command_name, looks_like_flake_uri,
    next_lifecycle_step, plan_apply, plan_lifecycle, rollback_target_message,
    should_apply_default_elevation, success_result, LifecycleProgress, LifecycleStep,
};

#[test]
fn mutating_interactive_user_gets_default_sudo_elevation() {
    assert!(should_apply_default_elevation(
        "switch",
        false,
        &BackendOptions::default(),
        true,
        false,
    ));
    let mut options = BackendOptions::default();
    apply_default_elevation_with_context("switch", false, &mut options, true, false);
    assert_eq!(options.elevate.as_deref(), Some("sudo"));
    assert!(!options.ask_elevate_password);
}

#[test]
fn preview_root_and_explicit_elevation_skip_default_sudo_elevation() {
    assert!(!should_apply_default_elevation(
        "switch",
        true,
        &BackendOptions::default(),
        true,
        false,
    ));
    assert!(!should_apply_default_elevation(
        "switch",
        false,
        &BackendOptions::default(),
        true,
        true,
    ));
    assert!(!should_apply_default_elevation(
        "switch",
        false,
        &BackendOptions {
            elevate: Some("none".to_string()),
            ..BackendOptions::default()
        },
        true,
        false,
    ));
}

fn run(plan: &nr::lifecycle::LifecyclePlan, codes: (i32, i32, i32), confirm: bool) -> Vec<LifecycleStep> {
    let mut progress = LifecycleProgress::start();
    let mut steps = Vec::new();
    loop {
        let step = next_lifecycle_step(plan, &progress);
        steps.push(step);
        match step {
            LifecycleStep::Build => progress.build_code = Some(codes.0),
            LifecycleStep::Diff => progress.diffed = true,
            LifecycleStep::DryActivation => progress.dry_activation_code = Some(codes.1),
            LifecycleStep::Confirm => progress.confirmed = Some(confirm),
            LifecycleStep::Activate => progress.activation_code = Some(codes.2),
            LifecycleStep::PostSwitchHooks => progress.hooks_done = true,
            _ => return steps,
        }
    }
}

#[test]
fn switch_builds_diffs_dry_activates_activates_and_runs_hooks() {
    let plan = plan_lifecycle("switch", false, false);
    assert_eq!(
        run(&plan, (0, 0, 0), true),
        vec![
            LifecycleStep::Build,
            LifecycleStep::Diff,
            LifecycleStep::DryActivation,
            LifecycleStep::Activate,
            LifecycleStep::PostSwitchHooks,
            LifecycleStep::Succeed
        ]
    );
}

#[test]
fn preview_never_activates_and_tolerates_dry_activation_failure() {
    let plan = plan_lifecycle("switch", true, true);
    assert!(plan.preview);
    assert_eq!(
        run(&plan, (0, 3, 0), true),
        vec![
            LifecycleStep::Build,
            LifecycleStep::Diff,
            LifecycleStep::DryActivation,
            LifecycleStep::Succeed
        ]
    );
    assert_eq!(lifecycle_command_name("switch", true), "preview");
    assert_eq!(lifecycle_command_name("boot", false), "boot");
}

#[test]
fn failures_stop_with_the_backend_exit_code() {
    let switch = plan_lifecycle("switch", false, false);
    assert_eq!(
        run(&switch, (42, 0, 0), true),
        vec![LifecycleStep::Build, LifecycleStep::FailBuild(42)]
    );
    assert_eq!(
        run(&switch, (0, 7, 0), true),
        vec![
            LifecycleStep::Build,
            LifecycleStep::Diff,
            LifecycleStep::DryActivation,
            LifecycleStep::FailDryActivation(7)
        ]
    );
    let boot = plan_lifecycle("boot", false, true);
    assert_eq!(
        run(&boot, (0, 0, 9), true),
        vec![
            LifecycleStep::Build,
            LifecycleStep::Diff,
            LifecycleStep::Confirm,
            LifecycleStep::Activate,
            LifecycleStep::FailActivation(9)
        ]
    );
    assert_eq!(
        run(&boot, (0, 0, 0), false),
        vec![
            LifecycleStep::Build,
            LifecycleStep::Diff,
            LifecycleStep::Confirm,
            LifecycleStep::Declined
        ]
    );
    let build = plan_lifecycle("build", false, false);
    assert!(build.builds_in_working_directory);
    assert_eq!(
        run(&build, (0, 0, 0), true),
        vec![LifecycleStep::Build, LifecycleStep::Diff, LifecycleStep::Succeed]
    );
    let apply = plan_apply("test");
    assert!(apply.dry_activation && apply.dry_activation_required && apply.activates);
}

#[test]
fn flake_references_and_generation_paths() {
    assert!(looks_like_flake_uri("github:owner/repo"));
    assert!(!looks_like_flake_uri("./dir:odd"));
    assert!(!looks_like_flake_uri(":x"));
    assert!(is_explicit_local_flake_reference("/etc/nixos"));
    assert!(is_explicit_local_flake_reference(".."));
    assert!(is_explicit_local_flake_reference("dir/sub"));
    assert!(!is_explicit_local_flake_reference("github:owner/repo"));
    assert!(!is_explicit_local_flake_reference("plain"));
    assert_eq!(generation_or_path("41"), "/nix/var/nix/profiles/system-41-link");
    assert_eq!(generation_or_path("/nix/store/x"), "/nix/store/x");
    assert_eq!(hook_phase_label("post_switch"), "post-switch hook");
    assert_eq!(hook_phase_label("pre_build"), "hook");
    assert_eq!(success_result("test"), "test activation complete; reboot returns to the previous boot default");
}

fn listed(number: u64, date: &str, current: bool) -> SystemGeneration {
    SystemGeneration {
        generation: number,
        date: date.to_string(),
        nixos_version: String::new(),
        kernel_version: String::new(),
        configuration_revision: String::new(),
        current,
    }
}

#[test]
fn rollback_message_names_current_and_target() {
    let generations = vec![listed(1, "d1", false), listed(2, "d2", true)];
    assert_eq!(
        rollback_target_message(&generations, Some(1)),
        "Rolling back from generation 2 (d2) to generation 1 (d1)"
    );
    assert_eq!(
        rollback_target_message(&generations, Some(9)),
        "Rolling back from generation 2 (d2) to generation 9"
    );
    assert_eq!(
        rollback_target_message(&generations, None),
        "Rolling back from generation 2 (d2) to the previous generation"
    );
    assert_eq!(
        rollback_target_message(&[], None),
        "Rolling back to the previous generation"
    );
}
