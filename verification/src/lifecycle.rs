use vstd::prelude::*;

use crate::backend::{has_elevation_request_spec, is_elevation_flag, passthrough, BackendOptions};
use crate::cli::{opt_views, Cli};
use crate::config::{
    join_paths, path_join, split_flake_reference, split_flake_reference_spec, FlakeTarget, HookSettings,
};
use crate::edit::char_count;
use crate::errors::NrError;
use crate::events::BuildState;
use crate::generations::{
    current_generation, current_index, generation_by_number, number_index, generation_path,
    generation_path_spec, previous_generation, resolve_generation_reference, rollback_target_command,
    PinsFile, SystemGeneration,
};
use crate::impact::{reboot_recommendation, reboot_recommendation_spec, ActivationImpact, ClosureDiff};
use crate::process::{CommandSpec, StreamLine};
use crate::text::{
    chars_of, concat, contains, decimal, eq_str, find_char_from, find_char_from_exec,
    lemma_find_char_from, parse_u64, parse_u64_spec, signed_decimal, i32_to_string, starts_with, starts_with_str, strs, trim_start,
    trim_start_str, u64_to_string,
};
use crate::ui::{RebuildHeader, RebuildReport};

verus! {

/// The lifecycle actions that change the running system.
pub open spec fn is_mutating_action(action: Seq<char>) -> bool {
    action == "switch"@ || action == "test"@ || action == "boot"@ || action == "rollback"@
}

/// Whether `nixos-rebuild` should be asked to elevate with sudo on its own:
/// for a mutating action run by a non-root user at a terminal who asked
/// for no elevation of their own.
pub open spec fn default_elevation_applies(
    action: Seq<char>,
    preview: bool,
    options: BackendOptions,
    stdin_interactive: bool,
    running_as_root: bool,
) -> bool {
    !preview && is_mutating_action(action) && !has_elevation_request_spec(options) && !running_as_root
        && stdin_interactive
}

pub fn should_apply_default_elevation(
    action: &str,
    preview: bool,
    options: &BackendOptions,
    stdin_interactive: bool,
    running_as_root: bool,
) -> (r: bool)
    ensures
        r == default_elevation_applies(action@, preview, *options, stdin_interactive, running_as_root),
{
    !preview && (eq_str(action, "switch") || eq_str(action, "test") || eq_str(action, "boot")
        || eq_str(action, "rollback")) && !options.has_elevation_request() && !running_as_root
        && stdin_interactive
}

/// Sets `--elevate sudo` where the default elevation applies; leaves the
/// options as they are otherwise.
pub fn apply_default_elevation_with_context(
    action: &str,
    preview: bool,
    options: &mut BackendOptions,
    stdin_interactive: bool,
    running_as_root: bool,
)
    ensures
        default_elevation_applies(action@, preview, *old(options), stdin_interactive, running_as_root)
            ==> (final(options).elevate matches Some(e) && e@ == "sudo"@),
        !default_elevation_applies(action@, preview, *old(options), stdin_interactive, running_as_root)
            ==> final(options).elevate == old(options).elevate,
        final(options).verbose == old(options).verbose,
        final(options).offline == old(options).offline,
        final(options).show_trace == old(options).show_trace,
        final(options).specialisation == old(options).specialisation,
        final(options).ask_elevate_password == old(options).ask_elevate_password,
        final(options).backend_args == old(options).backend_args,
{
    if should_apply_default_elevation(action, preview, options, stdin_interactive, running_as_root) {
        options.elevate = Some("sudo".to_owned());
    }
}

/// Whether the global flags or the backend arguments ask for elevation.
pub open spec fn cli_requests_elevation(cli: Cli, backend_args: Seq<Seq<char>>) -> bool {
    cli.elevate is Some || cli.ask_elevate_password || exists|i: int|
        0 <= i < passthrough(backend_args).len() && is_elevation_flag(
            #[trigger] passthrough(backend_args)[i],
        )
}

/// The backend options of a lifecycle command: the global flags, then the
/// default elevation.
pub fn lifecycle_backend_options(
    action: &str,
    preview: bool,
    cli: &Cli,
    backend_args: &[String],
    stdin_interactive: bool,
    running_as_root: bool,
) -> (r: BackendOptions)
    ensures
        r.verbose == cli.verbose,
        r.offline == cli.offline,
        r.show_trace == cli.show_trace,
        opt_views(r.specialisation) == opt_views(cli.specialisation),
        r.ask_elevate_password == cli.ask_elevate_password,
        strs(r.backend_args@) == strs(backend_args@),
        if !preview && is_mutating_action(action@) && !cli_requests_elevation(*cli, strs(backend_args@))
            && !running_as_root && stdin_interactive {
            r.elevate matches Some(e) && e@ == "sudo"@
        } else {
            opt_views(r.elevate) == opt_views(cli.elevate)
        },
{
    let mut options = cli.backend_options(backend_args);
    assert(has_elevation_request_spec(options) == cli_requests_elevation(*cli, strs(backend_args@)));
    apply_default_elevation_with_context(
        action,
        preview,
        &mut options,
        stdin_interactive,
        running_as_root,
    );
    options
}


/// How a hook phase is named in warnings.
pub open spec fn hook_phase_text(phase: Seq<char>) -> Seq<char> {
    if phase == "post_activate"@ {
        "post-activate hook"@
    } else if phase == "post_switch"@ {
        "post-switch hook"@
    } else {
        "hook"@
    }
}

pub fn hook_phase_label(phase: &str) -> (r: &'static str)
    ensures
        r@ == hook_phase_text(phase@),
{
    if eq_str(phase, "post_activate") {
        "post-activate hook"
    } else if eq_str(phase, "post_switch") {
        "post-switch hook"
    } else {
        "hook"
    }
}

/// The warning recorded when a hook fails after a successful activation.
pub fn hook_warning(phase: &str, error: &str) -> (r: String)
    ensures
        r@ == "warning: "@ + hook_phase_text(phase@) + " failed after successful activation: "@
            + error@,
{
    let mut r = "warning: ".to_owned();
    r.append(hook_phase_label(phase));
    r.append(" failed after successful activation: ");
    r.append(error);
    r
}

/// The hooks configured for a phase; only `post_switch` can be configured.
pub fn hooks_for_phase<'a>(hooks: &'a HookSettings, phase: &str) -> (r: &'a [Vec<String>])
    ensures
        phase@ == "post_switch"@ ==> r@ == hooks.post_switch@,
        phase@ != "post_switch"@ ==> r@.len() == 0,
{
    if eq_str(phase, "post_switch") {
        hooks.post_switch.as_slice()
    } else {
        &[]
    }
}

/// The error for an empty hook command.
pub fn empty_hook_error(phase: &str) -> (r: NrError)
    ensures
        r matches NrError::Message(m) && m@ == "[hooks]."@ + phase@ + " entries cannot be empty."@,
{
    let mut m = "[hooks].".to_owned();
    m.append(phase);
    m.append(" entries cannot be empty.");
    NrError::Message(m)
}

/// The command of one hook: its first word run with the rest as arguments,
/// in the flake's directory; an empty hook is an error.
pub fn hook_command(hook: &Vec<String>, phase: &str, flake_path: &str) -> (r: Result<CommandSpec, NrError>)
    ensures
        hook@.len() == 0 ==> (r matches Err(NrError::Message(m)) && m@ == "[hooks]."@ + phase@
            + " entries cannot be empty."@),
        hook@.len() > 0 ==> (r matches Ok(c) && c.argv() == strs(hook@) && (c.cwd matches Some(d) && d@
            == flake_path@)),
{
    if hook.len() == 0 {
        return Err(empty_hook_error(phase));
    }
    let mut rest: Vec<String> = Vec::new();
    let mut i: usize = 1;
    while i < hook.len()
        invariant
            1 <= i <= hook.len(),
            strs(rest@) == strs(hook@).subrange(1, i as int),
        decreases hook.len() - i,
    {
        let ghost prev = rest@;
        rest.push(hook[i].clone());
        proof {
            crate::text::lemma_strs_push(prev, hook@[i as int]);
            assert(strs(hook@).subrange(1, i + 1) =~= strs(hook@).subrange(1, i as int).push(hook@[i as int]@));
        }
        i = i + 1;
    }
    let r = CommandSpec::new(hook[0].as_str()).args(rest.as_slice()).cwd(flake_path);
    assert(r.argv() =~= strs(hook@));
    Ok(r)
}

/// Notes failed post-activation hooks in a report's result.
pub fn apply_hook_warnings(report: &mut RebuildReport, warnings: &[String])
    ensures
        warnings@.len() == 0 ==> final(report).result@ == old(report).result@,
        warnings@.len() > 0 ==> final(report).result@ == old(report).result@ + "; "@ + decimal(
            warnings@.len() as nat,
        ) + " post-activation hook warning(s), see log"@,
        final(report).command == old(report).command,
        final(report).new_generation == old(report).new_generation,
        final(report).store_path == old(report).store_path,
{
    if warnings.len() > 0 {
        let mut r = report.result.clone();
        r.append("; ");
        crate::text::push_decimal(&mut r, warnings.len() as u64);
        r.append(" post-activation hook warning(s), see log");
        report.result = r;
    }
}

/// What a successful command reports as its result.
pub open spec fn success_text(command: Seq<char>) -> Seq<char> {
    if command == "preview"@ {
        "preview complete; no activation performed"@
    } else if command == "build"@ {
        "build complete"@
    } else if command == "boot"@ {
        "boot generation registered"@
    } else if command == "test"@ {
        "test activation complete; reboot returns to the previous boot default"@
    } else if command == "switch"@ {
        "switch complete"@
    } else {
        "complete"@
    }
}

pub fn success_result(command: &str) -> (r: &'static str)
    ensures
        r@ == success_text(command@),
{
    if eq_str(command, "preview") {
        "preview complete; no activation performed"
    } else if eq_str(command, "build") {
        "build complete"
    } else if eq_str(command, "boot") {
        "boot generation registered"
    } else if eq_str(command, "test") {
        "test activation complete; reboot returns to the previous boot default"
    } else if eq_str(command, "switch") {
        "switch complete"
    } else {
        "complete"
    }
}

/// The report of a command that succeeded.
pub fn success_report(
    command: &str,
    target: &FlakeTarget,
    header: &RebuildHeader,
    store_path: &str,
    diff: ClosureDiff,
    activation: Option<ActivationImpact>,
    new_generation: Option<u64>,
    build: BuildState,
) -> (r: RebuildReport)
    ensures
        r.command@ == command@,
        r.target.path@ == target.path@ && r.target.host@ == target.host@,
        r.result@ == success_text(command@),
        r.store_path matches Some(p) && p@ == store_path@,
        r.new_generation == new_generation,
        r.reboot@ == reboot_recommendation_spec(command@, diff@),
        r.rollback@ == "nr rollback"@,
        r.log_path@ == header.log_path@,
        r.diff == Some(diff),
        r.activation == activation,
        r.build == build,
{
    let reboot = reboot_recommendation(command, &diff);
    RebuildReport {
        command: command.to_owned(),
        target: FlakeTarget { path: target.path.clone(), host: target.host.clone() },
        result: success_result(command).to_owned(),
        store_path: Some(store_path.to_owned()),
        current: header.current.clone(),
        new_generation,
        build,
        diff: Some(diff),
        activation,
        reboot,
        rollback: "nr rollback".to_owned(),
        log_path: header.log_path.clone(),
    }
}

/// The report of a command that failed; no reboot advice is given.
pub fn failure_report(
    command: &str,
    target: &FlakeTarget,
    header: &RebuildHeader,
    result: &str,
    store_path: Option<String>,
    diff: Option<ClosureDiff>,
    activation: Option<ActivationImpact>,
    new_generation: Option<u64>,
    build: BuildState,
) -> (r: RebuildReport)
    ensures
        r.command@ == command@,
        r.target.path@ == target.path@ && r.target.host@ == target.host@,
        r.result@ == result@,
        r.store_path == store_path,
        r.new_generation == new_generation,
        r.reboot@ == "not evaluated"@,
        r.rollback@ == "nr rollback"@,
        r.log_path@ == header.log_path@,
        r.diff == diff,
        r.activation == activation,
        r.build == build,
{
    RebuildReport {
        command: command.to_owned(),
        target: FlakeTarget { path: target.path.clone(), host: target.host.clone() },
        result: result.to_owned(),
        store_path,
        current: header.current.clone(),
        new_generation,
        build,
        diff,
        activation,
        reboot: "not evaluated".to_owned(),
        rollback: "nr rollback".to_owned(),
        log_path: header.log_path.clone(),
    }
}

/// A flake URI such as `github:owner/repo`: a non-empty scheme without a
/// slash before the first colon.
pub open spec fn flake_uri_like(value: Seq<char>) -> bool {
    match find_char_from(value, ':', 0) {
        Some(i) => i > 0 && !value.take(i).contains('/'),
        None => false,
    }
}

pub fn looks_like_flake_uri(value: &str) -> (r: bool)
    ensures
        r == flake_uri_like(value@),
{
    let v = chars_of(value);
    proof {
        lemma_find_char_from(v@, ':', 0);
    }
    match find_char_from_exec(v.as_slice(), ':', 0) {
        Some(i) => {
            if i == 0 {
                return false;
            }
            let mut k: usize = 0;
            while k < i
                invariant
                    k <= i <= v.len(),
                    i > 0,
                    v@ == value@,
                    find_char_from(v@, ':', 0) == Some(i as int),
                    forall|j: int| 0 <= j < k ==> v@[j] != '/',
                decreases i - k,
            {
                if v[k] == '/' {
                    assert(v@.take(i as int)[k as int] == '/');
                    return false;
                }
                k = k + 1;
            }
            assert(!v@.take(i as int).contains('/')) by {
                if v@.take(i as int).contains('/') {
                    let j = choose|j: int| 0 <= j < i && v@.take(i as int)[j] == '/';
                    assert(v@[j] == '/');
                }
            }
            true
        },
        None => false,
    }
}

/// A reference that can only mean a local path: absolute, `.` or `..`,
/// starting with `./` or `../`, or holding a slash without being a URI.
pub open spec fn explicit_local_reference(value: Seq<char>) -> bool {
    starts_with(value, "/"@) || value == "."@ || value == ".."@ || starts_with(value, "./"@)
        || starts_with(value, "../"@) || (value.contains('/') && !flake_uri_like(value))
}

pub fn is_explicit_local_flake_reference(value: &str) -> (r: bool)
    ensures
        r == explicit_local_reference(value@),
{
    if starts_with_str(value, "/") || eq_str(value, ".") || eq_str(value, "..") || starts_with_str(
        value,
        "./",
    ) || starts_with_str(value, "../") {
        return true;
    }
    let v = chars_of(value);
    let mut k: usize = 0;
    while k < v.len()
        invariant
            k <= v.len(),
            v@ == value@,
            !(starts_with(value@, "/"@) || value@ == "."@ || value@ == ".."@ || starts_with(value@, "./"@)
                || starts_with(value@, "../"@)),
            forall|j: int| 0 <= j < k ==> v@[j] != '/',
        decreases v.len() - k,
    {
        if v[k] == '/' {
            assert(value@.contains('/')) by {
                assert(value@[k as int] == '/');
            }
            return !looks_like_flake_uri(value);
        }
        k = k + 1;
    }
    false
}

/// A generation number names its profile link; anything else is a path.
pub fn generation_or_path(value: &str) -> (r: String)
    ensures
        match parse_u64_spec(value@) {
            Some(n) => r@ == generation_path_spec(n),
            None => r@ == value@,
        },
{
    let v = chars_of(value);
    match parse_u64(v.as_slice()) {
        Some(n) => generation_path(n),
        None => value.to_owned(),
    }
}

/// The directory the path part of a `--to` reference names: as given when
/// absolute, else under `cwd`.
pub fn reference_directory(value: &str, cwd: &str) -> (r: Result<String, NrError>)
    ensures
        match split_flake_reference_spec(value@) {
            Ok((p, _)) => r matches Ok(d) && d@ == path_join(cwd@, p),
            Err(m) => r matches Err(NrError::Message(e)) && e@ == m,
        },
{
    let (path_text, _host) = split_flake_reference(value)?;
    Ok(join_paths(cwd, path_text.as_str()))
}

/// What `flake_target_from_reference` decides, given whether the
/// reference's directory holds a `flake.nix`.
pub open spec fn reference_target(value: Seq<char>, default_host: Seq<char>, cwd: Seq<char>, has_flake_nix: bool) -> Result<
    Option<(Seq<char>, Seq<char>)>,
    Seq<char>,
> {
    match split_flake_reference_spec(value) {
        Err(m) => Err(m),
        Ok((path_text, host)) => {
            let host_or_default = match host {
                Some(h) => h,
                None => default_host,
            };
            if has_flake_nix {
                Ok(Some((path_join(cwd, path_text), host_or_default)))
            } else if host is Some && explicit_local_reference(path_text) {
                Err("No flake.nix found for --to flake reference: "@ + value)
            } else if host is Some || flake_uri_like(path_text) {
                Ok(Some((path_text, host_or_default)))
            } else {
                Ok(None)
            }
        },
    }
}

/// Reads a `--to` value as a flake target: a local flake (its directory,
/// see `reference_directory`, holds `flake.nix`), a `PATH#HOST` reference,
/// or a flake URI; `None` when it is none of these (a generation or a store
/// path). A local-looking `PATH#HOST` without `flake.nix` is an error.
pub fn flake_target_from_reference(value: &str, default_host: &str, cwd: &str, has_flake_nix: bool) -> (r: Result<
    Option<FlakeTarget>,
    NrError,
>)
    ensures
        match reference_target(value@, default_host@, cwd@, has_flake_nix) {
            Err(m) => r matches Err(NrError::Message(e)) && e@ == m,
            Ok(None) => r matches Ok(None),
            Ok(Some((p, h))) => r matches Ok(Some(t)) && t.path@ == p && t.host@ == h,
        },
{
    let (path_text, host) = split_flake_reference(value)?;
    let has_host = host.is_some();
    let host_or_default = match host {
        Some(h) => h,
        None => default_host.to_owned(),
    };
    if has_flake_nix {
        Ok(Some(FlakeTarget { path: join_paths(cwd, path_text.as_str()), host: host_or_default }))
    } else if has_host && is_explicit_local_flake_reference(path_text.as_str()) {
        let mut m = "No flake.nix found for --to flake reference: ".to_owned();
        m.append(value);
        Err(NrError::Message(m))
    } else if has_host || looks_like_flake_uri(path_text.as_str()) {
        Ok(Some(FlakeTarget { path: path_text, host: host_or_default }))
    } else {
        Ok(None)
    }
}

/// The result line of a finished diff.
pub fn diff_result_text(from_label: &str, to_label: &str) -> (r: String)
    ensures
        r@ == "diff complete: "@ + from_label@ + " -> "@ + to_label@,
{
    let mut r = "diff complete: ".to_owned();
    r.append(from_label);
    r.append(" -> ");
    r.append(to_label);
    r
}

/// Whether a backend line is internal JSON that nom should see.
pub fn pipe_line_to_nom(line: &StreamLine) -> (r: bool)
    ensures
        r == starts_with(trim_start(line.line@), "@nix "@),
{
    let t = trim_start_str(line.line.as_str());
    starts_with_str(t.as_str(), "@nix ")
}


/// What a lifecycle command does, decided before it starts.
#[derive(Clone, Copy, Debug, PartialEq, Eq, Structural)]
pub struct LifecyclePlan {
    pub preview: bool,
    pub builds_in_working_directory: bool,
    pub dry_activation: bool,
    pub dry_activation_required: bool,
    pub activates: bool,
    pub boot_registration: bool,
    pub asks: bool,
    pub post_switch_hooks: bool,
    pub records_history: bool,
}

pub open spec fn is_preview(action: Seq<char>, dry: bool) -> bool {
    action == "preview"@ || dry
}

pub open spec fn lifecycle_plan(action: Seq<char>, dry: bool, ask: bool) -> LifecyclePlan {
    let preview = is_preview(action, dry);
    LifecyclePlan {
        preview,
        builds_in_working_directory: action == "build"@ && !preview,
        dry_activation: preview || action == "switch"@ || action == "test"@,
        dry_activation_required: !preview,
        activates: !(preview || action == "build"@),
        boot_registration: action == "boot"@,
        asks: ask,
        post_switch_hooks: action == "switch"@,
        records_history: !preview && (action == "switch"@ || action == "test"@ || action == "boot"@),
    }
}

/// The plan of `build`, `switch`, `test`, `boot` or `preview`; `--dry`
/// turns any of them into a preview.
pub fn plan_lifecycle(action: &str, dry: bool, ask: bool) -> (r: LifecyclePlan)
    ensures
        r == lifecycle_plan(action@, dry, ask),
{
    let preview = eq_str(action, "preview") || dry;
    let switch = eq_str(action, "switch");
    let test = eq_str(action, "test");
    let boot = eq_str(action, "boot");
    let build = eq_str(action, "build");
    LifecyclePlan {
        preview,
        builds_in_working_directory: build && !preview,
        dry_activation: preview || switch || test,
        dry_activation_required: !preview,
        activates: !(preview || build),
        boot_registration: boot,
        asks: ask,
        post_switch_hooks: switch,
        records_history: !preview && (switch || test || boot),
    }
}

/// The name a lifecycle command reports under: `preview` for a preview.
pub fn lifecycle_command_name(action: &str, dry: bool) -> (r: String)
    ensures
        r@ == (if is_preview(action@, dry) { "preview"@ } else { action@ }),
{
    if eq_str(action, "preview") || dry {
        "preview".to_owned()
    } else {
        action.to_owned()
    }
}

pub open spec fn apply_plan(action: Seq<char>) -> LifecyclePlan {
    LifecyclePlan {
        preview: false,
        builds_in_working_directory: false,
        dry_activation: action == "switch"@ || action == "test"@,
        dry_activation_required: true,
        activates: true,
        boot_registration: action == "boot"@,
        asks: false,
        post_switch_hooks: action == "switch"@,
        records_history: action == "switch"@ || action == "test"@ || action == "boot"@,
    }
}

/// The plan of activating a saved preview: nothing is built again.
pub fn plan_apply(action: &str) -> (r: LifecyclePlan)
    ensures
        r == apply_plan(action@),
{
    let switch = eq_str(action, "switch");
    let test = eq_str(action, "test");
    let boot = eq_str(action, "boot");
    LifecyclePlan {
        preview: false,
        builds_in_working_directory: false,
        dry_activation: switch || test,
        dry_activation_required: true,
        activates: true,
        boot_registration: boot,
        asks: false,
        post_switch_hooks: switch,
        records_history: switch || test || boot,
    }
}

/// What has happened so far in a lifecycle command.
#[derive(Clone, Copy, Debug, PartialEq, Eq, Structural)]
pub struct LifecycleProgress {
    pub build_code: Option<i32>,
    pub diffed: bool,
    pub dry_activation_code: Option<i32>,
    pub confirmed: Option<bool>,
    pub activation_code: Option<i32>,
    pub hooks_done: bool,
}

impl LifecycleProgress {
    /// Nothing has run yet.
    pub fn start() -> (r: LifecycleProgress)
        ensures
            r == (LifecycleProgress {
                build_code: None,
                diffed: false,
                dry_activation_code: None,
                confirmed: None,
                activation_code: None,
                hooks_done: false,
            }),
    {
        LifecycleProgress {
            build_code: None,
            diffed: false,
            dry_activation_code: None,
            confirmed: None,
            activation_code: None,
            hooks_done: false,
        }
    }
}

/// The next thing a lifecycle command does.
#[derive(Clone, Copy, Debug, PartialEq, Eq, Structural)]
pub enum LifecycleStep {
    Build,
    Diff,
    DryActivation,
    Confirm,
    Activate,
    PostSwitchHooks,
    FailBuild(i32),
    FailDryActivation(i32),
    FailActivation(i32),
    Declined,
    Succeed,
}

pub open spec fn next_step(plan: LifecyclePlan, p: LifecycleProgress) -> LifecycleStep {
    match p.build_code {
        None => LifecycleStep::Build,
        Some(c) => if c != 0 {
            LifecycleStep::FailBuild(c)
        } else if !p.diffed {
            LifecycleStep::Diff
        } else if plan.dry_activation && p.dry_activation_code is None {
            LifecycleStep::DryActivation
        } else if plan.dry_activation && plan.dry_activation_required && (p.dry_activation_code
            matches Some(d) && d != 0) {
            LifecycleStep::FailDryActivation(p.dry_activation_code->0)
        } else if !plan.activates {
            LifecycleStep::Succeed
        } else if plan.asks && p.confirmed is None {
            LifecycleStep::Confirm
        } else if plan.asks && p.confirmed == Some(false) {
            LifecycleStep::Declined
        } else {
            match p.activation_code {
                None => LifecycleStep::Activate,
                Some(a) => if a != 0 {
                    LifecycleStep::FailActivation(a)
                } else if plan.post_switch_hooks && !p.hooks_done {
                    LifecycleStep::PostSwitchHooks
                } else {
                    LifecycleStep::Succeed
                },
            }
        },
    }
}

/// Decides the next step from the plan and what has happened: build,
/// diff, dry-activate, ask, activate, run post-switch hooks, in that order,
/// stopping at the first failure that the plan treats as fatal.
pub fn next_lifecycle_step(plan: &LifecyclePlan, progress: &LifecycleProgress) -> (r: LifecycleStep)
    ensures
        r == next_step(*plan, *progress),
{
    match progress.build_code {
        None => LifecycleStep::Build,
        Some(c) => {
            if c != 0 {
                LifecycleStep::FailBuild(c)
            } else if !progress.diffed {
                LifecycleStep::Diff
            } else if plan.dry_activation && progress.dry_activation_code.is_none() {
                LifecycleStep::DryActivation
            } else if plan.dry_activation && plan.dry_activation_required && match progress.dry_activation_code {
                Some(d) => d != 0,
                None => false,
            } {
                match progress.dry_activation_code {
                    Some(d) => LifecycleStep::FailDryActivation(d),
                    None => LifecycleStep::Succeed,
                }
            } else if !plan.activates {
                LifecycleStep::Succeed
            } else if plan.asks && progress.confirmed.is_none() {
                LifecycleStep::Confirm
            } else if plan.asks && progress.confirmed == Some(false) {
                LifecycleStep::Declined
            } else {
                match progress.activation_code {
                    None => LifecycleStep::Activate,
                    Some(a) => {
                        if a != 0 {
                            LifecycleStep::FailActivation(a)
                        } else if plan.post_switch_hooks && !progress.hooks_done {
                            LifecycleStep::PostSwitchHooks
                        } else {
                            LifecycleStep::Succeed
                        }
                    },
                }
            }
        },
    }
}

/// A preview never activates, asks to activate, or runs activation hooks,
/// whatever has happened before.
pub proof fn lemma_preview_never_activates(action: Seq<char>, dry: bool, ask: bool, p: LifecycleProgress)
    requires
        is_preview(action, dry),
    ensures
        next_step(lifecycle_plan(action, dry, ask), p) != LifecycleStep::Activate,
        next_step(lifecycle_plan(action, dry, ask), p) != LifecycleStep::Confirm,
        next_step(lifecycle_plan(action, dry, ask), p) != LifecycleStep::PostSwitchHooks,
        !(next_step(lifecycle_plan(action, dry, ask), p) is FailDryActivation),
{
}

/// `build` never activates either.
pub proof fn lemma_build_never_activates(ask: bool, p: LifecycleProgress)
    ensures
        next_step(lifecycle_plan("build"@, false, ask), p) != LifecycleStep::Activate,
        next_step(lifecycle_plan("build"@, false, ask), p) != LifecycleStep::PostSwitchHooks,
{
}

/// A failed build stops the command before anything else, with the
/// build's own exit code.
pub proof fn lemma_build_failure_stops_with_its_code(plan: LifecyclePlan, p: LifecycleProgress, code: i32)
    requires
        p.build_code == Some(code),
        code != 0,
    ensures
        next_step(plan, p) == LifecycleStep::FailBuild(code),
{
}

/// A failed dry activation is fatal for `switch` and `test` and only
/// reported for a preview.
pub proof fn lemma_dry_activation_failure(action: Seq<char>, dry: bool, ask: bool, p: LifecycleProgress, code: i32)
    requires
        p.build_code == Some(0i32),
        p.diffed,
        p.dry_activation_code == Some(code),
        code != 0,
        is_preview(action, dry) || action == "switch"@ || action == "test"@,
    ensures
        !is_preview(action, dry) ==> next_step(lifecycle_plan(action, dry, ask), p)
            == LifecycleStep::FailDryActivation(code),
        is_preview(action, dry) ==> next_step(lifecycle_plan(action, dry, ask), p)
            == LifecycleStep::Succeed,
{
}

/// A failed activation stops the command with the activation's exit code;
/// no hook runs after it.
pub proof fn lemma_activation_failure_stops_with_its_code(plan: LifecyclePlan, p: LifecycleProgress, code: i32)
    requires
        p.build_code == Some(0i32),
        p.diffed,
        !plan.dry_activation || p.dry_activation_code == Some(0i32),
        plan.activates,
        !plan.asks || p.confirmed == Some(true),
        p.activation_code == Some(code),
        code != 0,
    ensures
        next_step(plan, p) == LifecycleStep::FailActivation(code),
{
}

/// Post-switch hooks run only after a successful activation of `switch`.
pub proof fn lemma_hooks_only_after_switch(plan: LifecyclePlan, p: LifecycleProgress)
    requires
        next_step(plan, p) == LifecycleStep::PostSwitchHooks,
    ensures
        plan.post_switch_hooks,
        plan.activates,
        p.build_code == Some(0i32),
        p.activation_code == Some(0i32),
{
}


/// A failed post-switch hook does not fail the command: once the
/// activation succeeded and the hooks ran, whatever they returned, the
/// command succeeds.
pub proof fn lemma_hook_failure_is_only_a_warning(plan: LifecyclePlan, p: LifecycleProgress)
    requires
        p.build_code == Some(0i32),
        p.diffed,
        !plan.dry_activation || p.dry_activation_code == Some(0i32),
        plan.activates,
        !plan.asks || p.confirmed == Some(true),
        p.activation_code == Some(0i32),
        p.hooks_done,
    ensures
        next_step(plan, p) == LifecycleStep::Succeed,
{
}

/// Records that dry activation exited with a failure code.
pub fn note_dry_activation_exit(impact: &mut ActivationImpact, code: i32)
    ensures
        code == 0 ==> *final(impact) == *old(impact),
        code != 0 ==> (final(impact).unavailable matches Some(u) && u@
            == "nixos-rebuild dry-activate exited with "@ + signed_decimal(code as int)),
        final(impact).stopped == old(impact).stopped,
        final(impact).started == old(impact).started,
        final(impact).restarted == old(impact).restarted,
        final(impact).reloaded == old(impact).reloaded,
        final(impact).failed == old(impact).failed,
{
    if code != 0 {
        impact.unavailable = Some(concat("nixos-rebuild dry-activate exited with ", i32_to_string(code).as_str()));
    }
}

/// The generation a rollback goes to, and the one its command names: a
/// target given as a number or pin is switched to by its profile link;
/// without one, the previous generation is shown and `--rollback` used.
pub fn rollback_targets(target: Option<&str>, generations: &[SystemGeneration], pins: &PinsFile) -> (r:
    Result<(Option<u64>, Option<u64>), NrError>)
    requires
        pins.well_formed(),
    ensures
        match target {
            Some(t) => match r {
                Ok((shown, named)) => shown is Some && named == shown && (parse_u64_spec(t@) matches Some(n)
                    ==> shown == Some(n)) && (parse_u64_spec(t@) is None ==> pins.pin_map().contains_key(t@)
                    && shown == Some(pins.pin_map()[t@])),
                Err(NrError::Message(m)) => parse_u64_spec(t@) is None && !pins.pin_map().contains_key(
                    t@,
                ) && m@ == "unknown generation or pin: "@ + t@,
                Err(_) => false,
            },
            None => r matches Ok((shown, named)) && named is None && match current_index(generations@) {
                None => shown is None,
                Some(c) => match shown {
                    Some(g) => exists|j: int|
                        crate::generations::is_latest_below(generations@, generations@[c].generation, j)
                            && generations@[j].generation == g,
                    None => forall|k: int|
                        0 <= k < generations@.len() ==> (#[trigger] generations@[k]).generation
                            >= generations@[c].generation,
                },
            },
        },
{
    match target {
        Some(t) => match resolve_generation_reference(t, pins) {
            Ok(n) => Ok((Some(n), Some(n))),
            Err(e) => Err(e),
        },
        None => {
            let shown = match previous_generation(generations) {
                Some(g) => Some(g.generation),
                None => None,
            };
            Ok((shown, None))
        },
    }
}

pub open spec fn generation_text(g: SystemGeneration) -> Seq<char> {
    decimal(g.generation as nat) + " ("@ + g.date@ + ")"@
}

pub open spec fn rollback_message(s: Seq<SystemGeneration>, target: Option<u64>) -> Seq<char> {
    match target {
        Some(n) => match (current_index(s), number_index(s, n)) {
            (Some(c), Some(t)) => "Rolling back from generation "@ + generation_text(s[c])
                + " to generation "@ + generation_text(s[t]),
            (Some(c), None) => "Rolling back from generation "@ + generation_text(s[c])
                + " to generation "@ + decimal(n as nat),
            (None, Some(t)) => "Rolling back to generation "@ + generation_text(s[t]),
            (None, None) => "Rolling back to generation "@ + decimal(n as nat),
        },
        None => match current_index(s) {
            Some(c) => "Rolling back from generation "@ + generation_text(s[c])
                + " to the previous generation"@,
            None => "Rolling back to the previous generation"@,
        },
    }
}

fn describe(g: &SystemGeneration) -> (r: String)
    ensures
        r@ == decimal(g.generation as nat) + " ("@ + g.date@ + ")"@,
{
    let mut r = u64_to_string(g.generation);
    r.append(" (");
    r.append(g.date.as_str());
    r.append(")");
    r
}

/// The line printed before a rollback: from which generation to which, as
/// far as the listing knows them.
pub fn rollback_target_message(generations: &[SystemGeneration], target: Option<u64>) -> (r: String)
    ensures
        r@ == rollback_message(generations@, target),
{
    let current = current_generation(generations);
    match target {
        Some(number) => {
            let t = generation_by_number(generations, number);
            match (current, t) {
                (Some(c), Some(t)) => {
                    let mut r = "Rolling back from generation ".to_owned();
                    r.append(describe(c).as_str());
                    r.append(" to generation ");
                    r.append(describe(t).as_str());
                    r
                },
                (Some(c), None) => {
                    let mut r = "Rolling back from generation ".to_owned();
                    r.append(describe(c).as_str());
                    r.append(" to generation ");
                    r.append(u64_to_string(number).as_str());
                    r
                },
                (None, Some(t)) => concat("Rolling back to generation ", describe(t).as_str()),
                (None, None) => concat("Rolling back to generation ", u64_to_string(number).as_str()),
            }
        },
        None => match current {
            Some(c) => {
                let mut r = "Rolling back from generation ".to_owned();
                r.append(describe(c).as_str());
                r.append(" to the previous generation");
                r
            },
            None => "Rolling back to the previous generation".to_owned(),
        },
    }
}

} // verus!
