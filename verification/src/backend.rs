use vstd::prelude::*;
use vstd::string::*;

use crate::config::FlakeTarget;
use crate::process::CommandSpec;
use crate::text::{eq_str, extend_strings, push_str, starts_with, starts_with_str, strip_prefix_str, strs};

verus! {

/// Options that shape the Nix and nixos-rebuild command lines.
#[derive(Clone, Debug)]
pub struct BackendOptions {
    pub verbose: u8,
    pub offline: bool,
    pub show_trace: bool,
    pub specialisation: Option<String>,
    pub elevate: Option<String>,
    pub ask_elevate_password: bool,
    pub backend_args: Vec<String>,
}

impl Default for BackendOptions {
    fn default() -> (r: BackendOptions)
        ensures
            r.verbose == 0,
            !r.offline,
            !r.show_trace,
            r.specialisation is None,
            r.elevate is None,
            !r.ask_elevate_password,
            r.backend_args@.len() == 0,
    {
        BackendOptions {
            verbose: 0,
            offline: false,
            show_trace: false,
            specialisation: None,
            elevate: None,
            ask_elevate_password: false,
            backend_args: Vec::new(),
        }
    }
}

/// Arguments after a leading `--` separator, which is dropped.
pub open spec fn passthrough(values: Seq<Seq<char>>) -> Seq<Seq<char>> {
    if values.len() > 0 && values[0] == "--"@ {
        values.drop_first()
    } else {
        values
    }
}

pub open spec fn common_args(o: BackendOptions) -> Seq<Seq<char>> {
    (if o.offline { seq!["--offline"@] } else { Seq::empty() }) + (if o.show_trace {
        seq!["--show-trace"@]
    } else {
        Seq::empty()
    })
}

pub open spec fn elevation_args(o: BackendOptions) -> Seq<Seq<char>> {
    (match o.elevate {
        Some(e) => seq!["--elevate"@, e@],
        None => Seq::empty(),
    }) + (if o.ask_elevate_password { seq!["--ask-elevate-password"@] } else { Seq::empty() })
}

pub open spec fn specialisation_args(o: BackendOptions) -> Seq<Seq<char>> {
    match o.specialisation {
        Some(s) => seq!["--specialisation"@, s@],
        None => Seq::empty(),
    }
}

pub open spec fn extra_args(o: BackendOptions) -> Seq<Seq<char>> {
    passthrough(strs(o.backend_args@))
}

pub open spec fn is_command(c: CommandSpec, program: Seq<char>, args: Seq<Seq<char>>) -> bool {
    c.program@ == program && strs(c.args@) == args && c.cwd is None
}

/// Drops a leading `--` from backend arguments.
pub fn passthrough_args(values: &[String]) -> (r: Vec<String>)
    ensures
        strs(r@) == passthrough(strs(values@)),
{
    let mut r: Vec<String> = Vec::new();
    let skip = values.len() > 0 && eq_str(values[0].as_str(), "--");
    let start: usize = if skip { 1 } else { 0 };
    let mut i = start;
    while i < values.len()
        invariant
            start <= i <= values.len(),
            strs(r@) == strs(values@).subrange(start as int, i as int),
        decreases values.len() - i,
    {
        push_str(&mut r, values[i].as_str());
        i = i + 1;
        assert(strs(r@) =~= strs(values@).subrange(start as int, i as int));
    }
    assert(strs(values@).subrange(start as int, values.len() as int) =~= passthrough(strs(values@)));
    r
}

/// `--offline` and `--show-trace`, as the options ask.
pub fn nix_common_args(options: &BackendOptions) -> (r: Vec<String>)
    ensures
        strs(r@) == common_args(*options),
{
    let mut args: Vec<String> = Vec::new();
    if options.offline {
        push_str(&mut args, "--offline");
    }
    if options.show_trace {
        push_str(&mut args, "--show-trace");
    }
    assert(strs(args@) =~= common_args(*options));
    args
}

/// `--elevate METHOD` and `--ask-elevate-password`, as the options ask.
pub fn nixos_rebuild_elevation_args(options: &BackendOptions) -> (r: Vec<String>)
    ensures
        strs(r@) == elevation_args(*options),
{
    let mut args: Vec<String> = Vec::new();
    if let Some(elevate) = &options.elevate {
        push_str(&mut args, "--elevate");
        push_str(&mut args, elevate.as_str());
    }
    if options.ask_elevate_password {
        push_str(&mut args, "--ask-elevate-password");
    }
    assert(strs(args@) =~= elevation_args(*options));
    args
}

fn push_specialisation(args: &mut Vec<String>, options: &BackendOptions)
    ensures
        strs(final(args)@) == strs(old(args)@) + specialisation_args(*options),
{
    let ghost before = strs(args@);
    if let Some(s) = &options.specialisation {
        push_str(args, "--specialisation");
        push_str(args, s.as_str());
    }
    assert(strs(args@) =~= before + specialisation_args(*options));
}

fn push_all(args: &mut Vec<String>, more: Vec<String>)
    ensures
        strs(final(args)@) == strs(old(args)@) + strs(more@),
{
    extend_strings(args, more.as_slice());
}

pub open spec fn build_args(target: FlakeTarget, o: BackendOptions) -> Seq<Seq<char>> {
    seq![
        "build"@,
        "--flake"@,
        target.reference_spec(),
        "--log-format"@,
        "internal-json"@,
        "--verbose"@,
    ] + Seq::new(o.verbose as nat, |i: int| "--verbose"@) + common_args(o) + specialisation_args(o)
        + extra_args(o)
}

/// `nixos-rebuild build` with internal-JSON logs for the target.
pub fn nixos_rebuild_build_command(target: &FlakeTarget, options: &BackendOptions) -> (r:
    CommandSpec)
    ensures
        is_command(r, "nixos-rebuild"@, build_args(*target, *options)),
{
    let mut args: Vec<String> = Vec::new();
    push_str(&mut args, "build");
    push_str(&mut args, "--flake");
    let reference = target.reference();
    push_str(&mut args, reference.as_str());
    push_str(&mut args, "--log-format");
    push_str(&mut args, "internal-json");
    push_str(&mut args, "--verbose");
    let ghost head = strs(args@);
    let mut k: u8 = 0;
    while k < options.verbose
        invariant
            k <= options.verbose,
            strs(args@) == head + Seq::new(k as nat, |i: int| "--verbose"@),
        decreases options.verbose - k,
    {
        push_str(&mut args, "--verbose");
        k = k + 1;
        assert(strs(args@) =~= head + Seq::new(k as nat, |i: int| "--verbose"@));
    }
    push_all(&mut args, nix_common_args(options));
    push_specialisation(&mut args, options);
    push_all(&mut args, passthrough_args(options.backend_args.as_slice()));
    assert(strs(args@) =~= build_args(*target, *options));
    CommandSpec::new("nixos-rebuild").args(args.as_slice())
}

pub open spec fn dry_activate_args(store_path: Seq<char>, o: BackendOptions) -> Seq<Seq<char>> {
    seq!["dry-activate"@, "--store-path"@, store_path] + common_args(o)
        + elevation_args(o) + extra_args(o)
}

/// `nixos-rebuild dry-activate` for an already built system.
pub fn nixos_rebuild_dry_activate_command(store_path: &str, options: &BackendOptions) -> (r:
    CommandSpec)
    ensures
        is_command(r, "nixos-rebuild"@, dry_activate_args(store_path@, *options)),
{
    let mut args: Vec<String> = Vec::new();
    push_str(&mut args, "dry-activate");
    push_str(&mut args, "--store-path");
    push_str(&mut args, store_path);
    push_all(&mut args, nix_common_args(options));
    push_all(&mut args, nixos_rebuild_elevation_args(options));
    push_all(&mut args, passthrough_args(options.backend_args.as_slice()));
    assert(strs(args@) =~= dry_activate_args(store_path@, *options));
    CommandSpec::new("nixos-rebuild").args(args.as_slice())
}

pub open spec fn activate_args(action: Seq<char>, store_path: Seq<char>, o: BackendOptions) -> Seq<
    Seq<char>,
> {
    seq![action, "--store-path"@, store_path] + common_args(o) + elevation_args(o)
        + specialisation_args(o) + extra_args(o)
}

/// `nixos-rebuild ACTION --store-path PATH`, activating a built system.
pub fn nixos_rebuild_activate_command(action: &str, store_path: &str, options: &BackendOptions) -> (r:
    CommandSpec)
    ensures
        is_command(r, "nixos-rebuild"@, activate_args(action@, store_path@, *options)),
{
    let mut args: Vec<String> = Vec::new();
    push_str(&mut args, action);
    push_str(&mut args, "--store-path");
    push_str(&mut args, store_path);
    push_all(&mut args, nix_common_args(options));
    push_all(&mut args, nixos_rebuild_elevation_args(options));
    push_specialisation(&mut args, options);
    push_all(&mut args, passthrough_args(options.backend_args.as_slice()));
    assert(strs(args@) =~= activate_args(action@, store_path@, *options));
    CommandSpec::new("nixos-rebuild").args(args.as_slice())
}

/// `nix store diff-closures OLD NEW`.
pub fn nix_store_diff_closures_command(old: &str, new: &str, options: &BackendOptions) -> (r:
    CommandSpec)
    ensures
        is_command(
            r,
            "nix"@,
            common_args(*options) + seq!["store"@, "diff-closures"@, old@, new@],
        ),
{
    let mut args = nix_common_args(options);
    push_str(&mut args, "store");
    push_str(&mut args, "diff-closures");
    push_str(&mut args, old);
    push_str(&mut args, new);
    assert(strs(args@) =~= common_args(*options) + seq!["store"@, "diff-closures"@, old@, new@]);
    CommandSpec::new("nix").args(args.as_slice())
}

/// `nix-store --query --graph PATH`.
pub fn nix_store_query_graph_command(path: &str) -> (r: CommandSpec)
    ensures
        is_command(r, "nix-store"@, seq!["--query"@, "--graph"@, path@]),
{
    let mut args: Vec<String> = Vec::new();
    push_str(&mut args, "--query");
    push_str(&mut args, "--graph");
    push_str(&mut args, path);
    assert(strs(args@) =~= seq!["--query"@, "--graph"@, path@]);
    CommandSpec::new("nix-store").args(args.as_slice())
}

/// `nom --json`, which reads internal-JSON build logs.
pub fn nom_json_command() -> (r: CommandSpec)
    ensures
        is_command(r, "nom"@, seq!["--json"@]),
{
    let r = CommandSpec::new("nom").arg("--json");
    assert(strs(r.args@) =~= seq!["--json"@]);
    r
}

/// `nix flake update --flake PATH [INPUT...]`.
pub fn nix_flake_update_command(target: &FlakeTarget, inputs: &[String], options: &BackendOptions) -> (r:
    CommandSpec)
    ensures
        is_command(
            r,
            "nix"@,
            common_args(*options) + seq!["flake"@, "update"@, "--flake"@, target.path@] + strs(
                inputs@,
            ),
        ),
{
    let mut args: Vec<String> = Vec::new();
    push_all(&mut args, nix_common_args(options));
    push_str(&mut args, "flake");
    push_str(&mut args, "update");
    push_str(&mut args, "--flake");
    push_str(&mut args, target.path.as_str());
    extend_strings(&mut args, inputs);
    assert(strs(args@) =~= common_args(*options) + seq!["flake"@, "update"@, "--flake"@, target.path@]
        + strs(inputs@));
    CommandSpec::new("nix").args(args.as_slice())
}

/// `nixos-rebuild switch --rollback`.
pub fn rollback_command(options: &BackendOptions) -> (r: CommandSpec)
    ensures
        is_command(
            r,
            "nixos-rebuild"@,
            seq!["switch"@, "--rollback"@] + common_args(*options) + elevation_args(
                *options,
            ) + extra_args(*options),
        ),
{
    let mut args: Vec<String> = Vec::new();
    push_str(&mut args, "switch");
    push_str(&mut args, "--rollback");
    push_all(&mut args, nix_common_args(options));
    push_all(&mut args, nixos_rebuild_elevation_args(options));
    push_all(&mut args, passthrough_args(options.backend_args.as_slice()));
    assert(strs(args@) =~= seq!["switch"@, "--rollback"@] + common_args(*options)
        + elevation_args(*options) + extra_args(*options));
    CommandSpec::new("nixos-rebuild").args(args.as_slice())
}

/// `nixos-rebuild switch --store-path PATH`, switching to a chosen generation.
pub fn rollback_to_store_path_command(store_path: &str, options: &BackendOptions) -> (r: CommandSpec)
    ensures
        is_command(
            r,
            "nixos-rebuild"@,
            seq!["switch"@, "--store-path"@, store_path@] + common_args(*options)
                + elevation_args(*options) + extra_args(*options),
        ),
{
    let mut args: Vec<String> = Vec::new();
    push_str(&mut args, "switch");
    push_str(&mut args, "--store-path");
    push_str(&mut args, store_path);
    push_all(&mut args, nix_common_args(options));
    push_all(&mut args, nixos_rebuild_elevation_args(options));
    push_all(&mut args, passthrough_args(options.backend_args.as_slice()));
    assert(strs(args@) =~= seq!["switch"@, "--store-path"@, store_path@]
        + common_args(*options) + elevation_args(*options) + extra_args(*options));
    CommandSpec::new("nixos-rebuild").args(args.as_slice())
}

/// Lists generations: of a profile through `nix-env`, else the system's
/// through `nixos-rebuild`.
pub fn generations_command(profile: Option<&str>, backend_args: &[String]) -> (r: CommandSpec)
    ensures
        match profile {
            Some(p) => is_command(
                r,
                "nix-env"@,
                seq!["--profile"@, p@, "--list-generations"@] + passthrough(strs(backend_args@)),
            ),
            None => is_command(
                r,
                "nixos-rebuild"@,
                seq!["list-generations"@] + passthrough(strs(backend_args@)),
            ),
        },
{
    let mut args: Vec<String> = Vec::new();
    match profile {
        Some(p) => {
            push_str(&mut args, "--profile");
            push_str(&mut args, p);
            push_str(&mut args, "--list-generations");
            push_all(&mut args, passthrough_args(backend_args));
            assert(strs(args@) =~= seq!["--profile"@, p@, "--list-generations"@] + passthrough(
                strs(backend_args@),
            ));
            CommandSpec::new("nix-env").args(args.as_slice())
        },
        None => {
            push_str(&mut args, "list-generations");
            push_all(&mut args, passthrough_args(backend_args));
            assert(strs(args@) =~= seq!["list-generations"@] + passthrough(strs(backend_args@)));
            CommandSpec::new("nixos-rebuild").args(args.as_slice())
        },
    }
}

/// `nixos-rebuild list-generations --json`.
pub fn generations_json_command() -> (r: CommandSpec)
    ensures
        is_command(r, "nixos-rebuild"@, seq!["list-generations"@, "--json"@]),
{
    let mut args: Vec<String> = Vec::new();
    push_str(&mut args, "list-generations");
    push_str(&mut args, "--json");
    assert(strs(args@) =~= seq!["list-generations"@, "--json"@]);
    CommandSpec::new("nixos-rebuild").args(args.as_slice())
}

/// `nix-collect-garbage`: `-d`, or `--delete-older-than AGE`; `--dry-run` on request.
pub fn nix_collect_garbage_command(older_than: &str, delete_old: bool, dry_run: bool) -> (r:
    CommandSpec)
    ensures
        is_command(
            r,
            "nix-collect-garbage"@,
            (if delete_old { seq!["-d"@] } else { seq!["--delete-older-than"@, older_than@] }) + (
            if dry_run {
                seq!["--dry-run"@]
            } else {
                Seq::empty()
            }),
        ),
{
    let mut args: Vec<String> = Vec::new();
    if delete_old {
        push_str(&mut args, "-d");
    } else {
        push_str(&mut args, "--delete-older-than");
        push_str(&mut args, older_than);
    }
    if dry_run {
        push_str(&mut args, "--dry-run");
    }
    assert(strs(args@) =~= (if delete_old { seq!["-d"@] } else { seq!["--delete-older-than"@, older_than@] }) + (
    if dry_run {
        seq!["--dry-run"@]
    } else {
        Seq::empty()
    }));
    CommandSpec::new("nix-collect-garbage").args(args.as_slice())
}

/// `notify-send TITLE BODY`.
pub fn notify_send_command(title: &str, body: &str) -> (r: CommandSpec)
    ensures
        is_command(r, "notify-send"@, seq![title@, body@]),
{
    let r = CommandSpec::new("notify-send").arg(title).arg(body);
    assert(strs(r.args@) =~= seq![title@, body@]);
    r
}

/// Backend arguments that ask nixos-rebuild to elevate.
pub open spec fn is_elevation_flag(v: Seq<char>) -> bool {
    v == "--elevate"@ || v == "--ask-elevate-password"@ || v == "--ask-sudo-password"@ || v
        == "--sudo"@ || v == "--use-remote-sudo"@ || starts_with(v, "--elevate="@)
}

/// Backend arguments that make elevation prompt the user.
pub open spec fn is_interactive_elevation_flag(v: Seq<char>) -> bool {
    v == "--ask-elevate-password"@ || v == "--ask-sudo-password"@ || v == "--sudo"@ || v
        == "--use-remote-sudo"@ || (starts_with(v, "--elevate="@) && v.skip(
        "--elevate="@.len() as int,
    ) != "none"@)
}

pub open spec fn has_elevation_request_spec(o: BackendOptions) -> bool {
    o.elevate is Some || o.ask_elevate_password || exists|i: int|
        0 <= i < extra_args(o).len() && is_elevation_flag(#[trigger] extra_args(o)[i])
}

pub open spec fn uses_interactive_elevation_spec(o: BackendOptions) -> bool {
    o.ask_elevate_password || (o.elevate matches Some(e) && e@ != "none"@) || exists|i: int|
        0 <= i < extra_args(o).len() && is_interactive_elevation_flag(#[trigger] extra_args(o)[i])
}

fn elevation_flag(v: &str) -> (r: bool)
    ensures
        r == is_elevation_flag(v@),
{
    eq_str(v, "--elevate") || eq_str(v, "--ask-elevate-password") || eq_str(v, "--ask-sudo-password")
        || eq_str(v, "--sudo") || eq_str(v, "--use-remote-sudo") || starts_with_str(v, "--elevate=")
}

fn interactive_elevation_flag(v: &str) -> (r: bool)
    ensures
        r == is_interactive_elevation_flag(v@),
{
    if eq_str(v, "--ask-elevate-password") || eq_str(v, "--ask-sudo-password") || eq_str(v, "--sudo")
        || eq_str(v, "--use-remote-sudo") {
        return true;
    }
    match strip_prefix_str(v, "--elevate=") {
        Some(method) => !eq_str(method.as_str(), "none"),
        None => false,
    }
}

fn passthrough_args_have_elevation_request(values: &[String]) -> (r: bool)
    ensures
        r == exists|i: int|
            0 <= i < passthrough(strs(values@)).len() && is_elevation_flag(
                #[trigger] passthrough(strs(values@))[i],
            ),
{
    let args = passthrough_args(values);
    let mut i: usize = 0;
    while i < args.len()
        invariant
            i <= args.len(),
            strs(args@) == passthrough(strs(values@)),
            forall|k: int| 0 <= k < i ==> !is_elevation_flag(#[trigger] strs(args@)[k]),
        decreases args.len() - i,
    {
        if elevation_flag(args[i].as_str()) {
            assert(is_elevation_flag(strs(args@)[i as int]));
            return true;
        }
        i = i + 1;
    }
    false
}

fn passthrough_args_have_interactive_elevation(values: &[String]) -> (r: bool)
    ensures
        r == exists|i: int|
            0 <= i < passthrough(strs(values@)).len() && is_interactive_elevation_flag(
                #[trigger] passthrough(strs(values@))[i],
            ),
{
    let args = passthrough_args(values);
    let mut i: usize = 0;
    while i < args.len()
        invariant
            i <= args.len(),
            strs(args@) == passthrough(strs(values@)),
            forall|k: int| 0 <= k < i ==> !is_interactive_elevation_flag(#[trigger] strs(args@)[k]),
        decreases args.len() - i,
    {
        if interactive_elevation_flag(args[i].as_str()) {
            assert(is_interactive_elevation_flag(strs(args@)[i as int]));
            return true;
        }
        i = i + 1;
    }
    false
}

impl BackendOptions {
    /// Whether the user asked for any kind of elevation, by option or by a
    /// backend argument.
    pub fn has_elevation_request(&self) -> (r: bool)
        ensures
            r == has_elevation_request_spec(*self),
    {
        self.elevate.is_some() || self.ask_elevate_password
            || passthrough_args_have_elevation_request(self.backend_args.as_slice())
    }

    /// Whether elevation will prompt on the terminal.
    pub fn uses_interactive_elevation(&self) -> (r: bool)
        ensures
            r == uses_interactive_elevation_spec(*self),
    {
        if self.ask_elevate_password {
            return true;
        }
        if let Some(e) = &self.elevate {
            if !eq_str(e.as_str(), "none") {
                return true;
            }
        }
        assert(!(self.elevate matches Some(e) && e@ != "none"@));
        let r = passthrough_args_have_interactive_elevation(self.backend_args.as_slice());
        assert(extra_args(*self) == passthrough(strs(self.backend_args@)));
        r
    }
}

} // verus!
