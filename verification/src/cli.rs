use vstd::prelude::*;

use crate::backend::BackendOptions;
use crate::config::ConfigInput;
use crate::text::strs;
use crate::ui::OutputMode;

verus! {

/// The command line: global options and the subcommand.
#[derive(Clone, Debug)]
pub struct Cli {
    pub flake: Option<String>,
    pub host: Option<String>,
    pub ui: OutputMode,
    pub log_file: Option<String>,
    pub verbose: u8,
    pub dry: bool,
    pub ask: bool,
    pub offline: bool,
    pub show_trace: bool,
    pub elevate: Option<String>,
    pub ask_elevate_password: bool,
    pub notify: bool,
    pub specialisation: Option<String>,
    pub command: Option<NrCommand>,
}

/// The subcommands.
#[derive(Clone, Debug)]
pub enum NrCommand {
    Build(Passthrough),
    Switch(Passthrough),
    Test(Passthrough),
    Boot(Passthrough),
    Preview(Passthrough),
    Update(UpdateArgs),
    Rollback(RollbackArgs),
    Generations(GenerationsArgs),
    Diff(DiffArgs),
    Gc(GcArgs),
    Pin(PinArgs),
    Publish(PublishArgs),
    Check(CheckArgs),
    Doctor,
    Cheat,
}

/// Arguments after `--`, handed to the backend.
#[derive(Clone, Debug)]
pub struct Passthrough {
    pub backend_args: Vec<String>,
}

#[derive(Clone, Debug)]
pub struct UpdateArgs {
    pub inputs: Vec<String>,
    pub switch: bool,
}

#[derive(Clone, Debug)]
pub struct RollbackArgs {
    pub target: Option<String>,
    pub backend_args: Vec<String>,
}

#[derive(Clone, Debug)]
pub struct GenerationsArgs {
    pub profile: Option<String>,
    pub backend_args: Vec<String>,
}

/// How `nr publish` commits.
#[derive(Clone, Copy, Debug, PartialEq, Eq, Structural)]
pub enum PublishMode {
    Commit,
    PerFile,
}

#[derive(Clone, Debug)]
pub struct DiffArgs {
    pub from: Option<String>,
    pub to: Option<String>,
    pub backend_args: Vec<String>,
}

#[derive(Clone, Debug)]
pub struct GcArgs {
    pub older_than: String,
    pub delete_old: bool,
    pub dry_run: bool,
}

#[derive(Clone, Debug)]
pub struct PinArgs {
    pub generation: u64,
    pub label: String,
    pub force: bool,
}

#[derive(Clone, Debug)]
pub struct PublishArgs {
    pub message: Option<String>,
    pub push: bool,
    pub mode: Option<PublishMode>,
    pub remote: Option<String>,
}

#[derive(Clone, Debug)]
pub struct CheckArgs {
    pub all: bool,
    pub nixfmt: bool,
    pub statix: bool,
    pub cargo_fmt: bool,
    pub clippy: bool,
    pub no_flake: bool,
    pub only: Vec<String>,
    pub json: bool,
    pub timeout: Option<u64>,
}

pub open spec fn opt_views(o: Option<String>) -> Option<Seq<char>> {
    match o {
        Some(s) => Some(s@),
        None => None,
    }
}

fn clone_opt(o: &Option<String>) -> (r: Option<String>)
    ensures
        opt_views(r) == opt_views(*o),
{
    match o {
        Some(s) => Some(s.clone()),
        None => None,
    }
}

impl Cli {
    /// The backend options the global flags select, with `backend_args`
    /// passed through.
    pub fn backend_options(&self, backend_args: &[String]) -> (r: BackendOptions)
        ensures
            r.verbose == self.verbose,
            r.offline == self.offline,
            r.show_trace == self.show_trace,
            opt_views(r.specialisation) == opt_views(self.specialisation),
            opt_views(r.elevate) == opt_views(self.elevate),
            r.ask_elevate_password == self.ask_elevate_password,
            strs(r.backend_args@) == strs(backend_args@),
    {
        let mut args: Vec<String> = Vec::new();
        crate::text::extend_strings(&mut args, backend_args);
        BackendOptions {
            verbose: self.verbose,
            offline: self.offline,
            show_trace: self.show_trace,
            specialisation: clone_opt(&self.specialisation),
            elevate: clone_opt(&self.elevate),
            ask_elevate_password: self.ask_elevate_password,
            backend_args: args,
        }
    }

    /// The configuration input that `--flake` and `--host` give.
    pub fn config_input(&self) -> (r: ConfigInput)
        ensures
            opt_views(r.flake) == opt_views(self.flake),
            opt_views(r.host) == opt_views(self.host),
            r.cwd is None,
            r.environ is None,
            r.hostname is None,
    {
        ConfigInput {
            flake: clone_opt(&self.flake),
            host: clone_opt(&self.host),
            cwd: None,
            environ: None,
            hostname: None,
        }
    }
}

} // verus!
