use vstd::prelude::*;
use vstd::string::*;

use crate::errors::NrError;
use crate::text::{
    strs, chars_of, eq_str, lemma_rfind_char, push_char, rfind_char, rfind_char_exec, string_of_range,
    trim, trim_str,
};

verus! {

/// A flake directory and the NixOS configuration (host) inside it.
#[derive(Clone, Debug)]
pub struct FlakeTarget {
    pub path: String,
    pub host: String,
}

impl FlakeTarget {
    pub open spec fn reference_spec(&self) -> Seq<char> {
        self.path@ + "#"@ + self.host@
    }

    /// `PATH#HOST`, the flake reference that Nix tools take.
    pub fn reference(&self) -> (r: String)
        ensures
            r@ == self.reference_spec(),
    {
        let mut r = self.path.clone();
        r.append("#");
        r.append(self.host.as_str());
        r
    }
}

/// What `split_flake_reference` makes of a reference: the text before the
/// last `#` and the host after it; both parts must be non-empty.
pub open spec fn split_flake_reference_spec(value: Seq<char>) -> Result<
    (Seq<char>, Option<Seq<char>>),
    Seq<char>,
> {
    match rfind_char(value, '#') {
        None => Ok((value, None)),
        Some(i) => if i == 0 {
            Err("Flake path cannot be empty."@)
        } else if i == value.len() - 1 {
            Err("Flake host cannot be empty after '#'."@)
        } else {
            Ok((value.take(i), Some(value.skip(i + 1))))
        },
    }
}

/// Splits `PATH#HOST` at the last `#`.
pub fn split_flake_reference(value: &str) -> (r: Result<(String, Option<String>), NrError>)
    ensures
        match split_flake_reference_spec(value@) {
            Ok((p, h)) => r matches Ok((rp, rh)) && rp@ == p && match h {
                Some(hv) => rh matches Some(x) && x@ == hv,
                None => rh is None,
            },
            Err(m) => r matches Err(NrError::Message(rm)) && rm@ == m,
        },
{
    let v = chars_of(value);
    match rfind_char_exec(v.as_slice(), '#') {
        None => Ok((value.to_owned(), None)),
        Some(i) => {
            proof {
                lemma_rfind_char(value@, '#');
            }
            if i == 0 {
                Err(NrError::message("Flake path cannot be empty."))
            } else if i == v.len() - 1 {
                Err(NrError::message("Flake host cannot be empty after '#'."))
            } else {
                let path = string_of_range(v.as_slice(), 0, i);
                let host = string_of_range(v.as_slice(), i + 1, v.len());
                assert(path@ =~= value@.take(i as int));
                assert(host@ =~= value@.skip(i + 1));
                Ok((path, Some(host)))
            }
        },
    }
}


/// A check or hook: a program and its arguments.
pub type CheckCommand = Vec<String>;

pub type HookCommand = Vec<String>;

/// Which checks `nr check` runs.
#[derive(Clone, Debug)]
pub struct CheckSettings {
    pub flake: bool,
    pub nixfmt: bool,
    pub statix: bool,
    pub cargo_fmt: bool,
    pub clippy: bool,
    pub commands: Vec<CheckCommand>,
}

impl Default for CheckSettings {
    fn default() -> (r: CheckSettings)
        ensures
            r.flake && !r.nixfmt && !r.statix && !r.cargo_fmt && !r.clippy,
            r.commands@.len() == 0,
    {
        CheckSettings {
            flake: true,
            nixfmt: false,
            statix: false,
            cargo_fmt: false,
            clippy: false,
            commands: Vec::new(),
        }
    }
}

/// Where `nr publish` pushes.
#[derive(Clone, Debug)]
pub struct PublishSettings {
    pub remote: String,
}

impl Default for PublishSettings {
    fn default() -> (r: PublishSettings)
        ensures
            r.remote@ == "origin"@,
    {
        PublishSettings { remote: "origin".to_owned() }
    }
}

/// Commands run after a successful switch.
#[derive(Clone, Debug)]
pub struct HookSettings {
    pub post_switch: Vec<HookCommand>,
}

impl Default for HookSettings {
    fn default() -> (r: HookSettings)
        ensures
            r.post_switch@.len() == 0,
    {
        HookSettings { post_switch: Vec::new() }
    }
}

/// Display settings.
#[derive(Clone, Debug)]
pub struct UiSettings {
    pub accent: Option<String>,
}

impl Default for UiSettings {
    fn default() -> (r: UiSettings)
        ensures
            r.accent is None,
    {
        UiSettings { accent: None }
    }
}

/// The resolved configuration.
#[derive(Clone, Debug)]
pub struct NrConfig {
    pub target: FlakeTarget,
    pub check: CheckSettings,
    pub publish: PublishSettings,
    pub hooks: HookSettings,
    pub ui: UiSettings,
    pub user_config_path: Option<String>,
    pub repo_config_path: Option<String>,
}

/// What the command line and the caller contribute to configuration.
#[derive(Clone, Debug)]
pub struct ConfigInput {
    pub flake: Option<String>,
    pub host: Option<String>,
    pub cwd: Option<String>,
    pub environ: Option<Vec<(String, String)>>,
    pub hostname: Option<String>,
}

impl Default for ConfigInput {
    fn default() -> (r: ConfigInput)
        ensures
            r.flake is None && r.host is None && r.cwd is None && r.environ is None && r.hostname is None,
    {
        ConfigInput { flake: None, host: None, cwd: None, environ: None, hostname: None }
    }
}

/// The `[target]` table of a config file.
#[derive(Clone, Debug)]
pub struct TargetConfig {
    pub flake: Option<String>,
    pub host: Option<String>,
}

/// The `[check]` table.
#[derive(Clone, Debug)]
pub struct CheckConfig {
    pub flake: Option<bool>,
    pub nixfmt: Option<bool>,
    pub statix: Option<bool>,
    pub cargo_fmt: Option<bool>,
    pub clippy: Option<bool>,
    pub commands: Option<Vec<CheckCommand>>,
}

/// The `[publish]` table.
#[derive(Clone, Debug)]
pub struct PublishConfig {
    pub remote: Option<String>,
}

/// The `[hooks]` table.
#[derive(Clone, Debug)]
pub struct HooksConfig {
    pub post_switch: Option<Vec<HookCommand>>,
}

/// The `[ui]` table.
#[derive(Clone, Debug)]
pub struct UiConfig {
    pub accent: Option<String>,
}

/// One config file, every key optional.
#[derive(Clone, Debug)]
pub struct ConfigData {
    pub target: TargetConfig,
    pub check: CheckConfig,
    pub publish: PublishConfig,
    pub hooks: HooksConfig,
    pub ui: UiConfig,
}

/// A configured string: absent, or trimmed and non-empty.
pub open spec fn non_empty_spec(value: Option<Seq<char>>, label: Seq<char>) -> Result<
    Option<Seq<char>>,
    Seq<char>,
> {
    match value {
        None => Ok(None),
        Some(v) => if trim(v).len() == 0 {
            Err(label + " cannot be empty."@)
        } else {
            Ok(Some(trim(v)))
        },
    }
}

pub open spec fn opt_str(value: Option<String>) -> Option<Seq<char>> {
    match value {
        Some(v) => Some(v@),
        None => None,
    }
}

/// Whether a result carries exactly the given value or message.
pub open spec fn result_matches(r: Result<Option<String>, NrError>, s: Result<Option<Seq<char>>, Seq<char>>) -> bool {
    match s {
        Ok(v) => r matches Ok(x) && opt_str(x) == v,
        Err(m) => r matches Err(NrError::Message(e)) && e@ == m,
    }
}

pub fn non_empty_string(value: Option<&String>, label: &str) -> (r: Result<Option<String>, NrError>)
    ensures
        result_matches(
            r,
            non_empty_spec(
                match value {
                    Some(v) => Some(v@),
                    None => None,
                },
                label@,
            ),
        ),
{
    match value {
        None => Ok(None),
        Some(v) => {
            let trimmed = trim_str(v.as_str());
            if chars_of(trimmed.as_str()).len() == 0 {
                let mut m = label.to_owned();
                m.append(" cannot be empty.");
                Err(NrError::Message(m))
            } else {
                Ok(Some(trimmed))
            }
        },
    }
}

/// A repository's `.nr.toml` may not choose the flake it lives in.
pub fn reject_repo_flake(data: &Option<ConfigData>) -> (r: Result<(), NrError>)
    ensures
        match data {
            Some(d) => match d.target.flake {
                Some(f) => r matches Err(NrError::Message(m)) && m@ == (if trim(f@).len() == 0 {
                    "[target].flake cannot be empty."@
                } else {
                    ".nr.toml cannot set [target].flake; it already lives in the flake."@
                }),
                None => r is Ok,
            },
            None => r is Ok,
        },
{
    let value = match data {
        Some(d) => match &d.target.flake {
            Some(f) => f,
            None => return Ok(()),
        },
        None => return Ok(()),
    };
    let trimmed = trim_str(value.as_str());
    if chars_of(trimmed.as_str()).len() == 0 {
        return Err(NrError::message("[target].flake cannot be empty."));
    }
    Err(NrError::message(".nr.toml cannot set [target].flake; it already lives in the flake."))
}

pub open spec fn data_target_flake(data: Option<ConfigData>) -> Option<Seq<char>> {
    match data {
        Some(d) => opt_str(d.target.flake),
        None => None,
    }
}

pub open spec fn data_target_host(data: Option<ConfigData>) -> Option<Seq<char>> {
    match data {
        Some(d) => opt_str(d.target.host),
        None => None,
    }
}

pub fn target_flake(data: &Option<ConfigData>) -> (r: Result<Option<String>, NrError>)
    ensures
        result_matches(r, non_empty_spec(data_target_flake(*data), "[target].flake"@)),
{
    let value = match data {
        Some(d) => d.target.flake.as_ref(),
        None => None,
    };
    non_empty_string(value, "[target].flake")
}

pub fn target_host(data: &Option<ConfigData>) -> (r: Result<Option<String>, NrError>)
    ensures
        result_matches(r, non_empty_spec(data_target_host(*data), "[target].host"@)),
{
    let value = match data {
        Some(d) => d.target.host.as_ref(),
        None => None,
    };
    non_empty_string(value, "[target].host")
}

/// Layers the check keys a config file sets over `base`.
pub fn merge_check_settings(base: CheckSettings, data: &ConfigData) -> (r: CheckSettings)
    ensures
        r.flake == (match data.check.flake { Some(v) => v, None => base.flake }),
        r.nixfmt == (match data.check.nixfmt { Some(v) => v, None => base.nixfmt }),
        r.statix == (match data.check.statix { Some(v) => v, None => base.statix }),
        r.cargo_fmt == (match data.check.cargo_fmt { Some(v) => v, None => base.cargo_fmt }),
        r.clippy == (match data.check.clippy { Some(v) => v, None => base.clippy }),
        command_views(r.commands@) == (match data.check.commands {
            Some(c) => command_views(c@),
            None => command_views(base.commands@),
        }),
{
    let mut base = base;
    if let Some(value) = data.check.flake {
        base.flake = value;
    }
    if let Some(value) = data.check.nixfmt {
        base.nixfmt = value;
    }
    if let Some(value) = data.check.statix {
        base.statix = value;
    }
    if let Some(value) = data.check.cargo_fmt {
        base.cargo_fmt = value;
    }
    if let Some(value) = data.check.clippy {
        base.clippy = value;
    }
    if let Some(commands) = &data.check.commands {
        base.commands = clone_commands(commands);
    }
    base
}

pub open spec fn command_views(v: Seq<Vec<String>>) -> Seq<Seq<Seq<char>>> {
    v.map_values(|c: Vec<String>| strs(c@))
}

proof fn lemma_command_views_push(v: Seq<Vec<String>>, c: Vec<String>)
    ensures
        command_views(v.push(c)) =~= command_views(v).push(strs(c@)),
{
    assert forall|i: int| 0 <= i < v.len() + 1 implies command_views(v.push(c))[i] == command_views(
        v,
    ).push(strs(c@))[i] by {
        if i < v.len() {
            assert(v.push(c)[i] == v[i]);
        }
    }
}

/// A copy of a list of commands.
pub fn clone_commands(commands: &Vec<Vec<String>>) -> (r: Vec<Vec<String>>)
    ensures
        command_views(r@) == command_views(commands@),
{
    let mut r: Vec<Vec<String>> = Vec::new();
    let mut i: usize = 0;
    while i < commands.len()
        invariant
            i <= commands.len(),
            command_views(r@) == command_views(commands@.take(i as int)),
        decreases commands.len() - i,
    {
        let mut c: Vec<String> = Vec::new();
        let mut k: usize = 0;
        while k < commands[i].len()
            invariant
                i < commands.len(),
                k <= commands@[i as int].len(),
                c@ == commands@[i as int]@.take(k as int),
            decreases commands@[i as int].len() - k,
        {
            let s = commands[i][k].clone();
            c.push(s);
            k = k + 1;
            assert(c@ =~= commands@[i as int]@.take(k as int));
        }
        assert(commands@[i as int]@.take(k as int) =~= commands@[i as int]@);
        let ghost before = r@;
        let ghost cg = c;
        r.push(c);
        proof {
            lemma_command_views_push(before, cg);
            lemma_command_views_push(commands@.take(i as int), commands@[i as int]);
            assert(commands@.take(i + 1) =~= commands@.take(i as int).push(commands@[i as int]));
        }
        i = i + 1;
    }
    assert(commands@.take(i as int) =~= commands@);
    r
}


/// `[ui].accent` must be `#` and six hex digits.
pub open spec fn hex_color(value: Seq<char>) -> bool {
    value.len() == 7 && value[0] == '#' && forall|i: int|
        1 <= i < 7 ==> crate::ui::is_hex_char(#[trigger] value[i])
}

pub fn is_hex_color(value: &str) -> (r: bool)
    ensures
        r == hex_color(value@),
{
    let v = chars_of(value);
    if v.len() != 7 || v[0] != '#' {
        return false;
    }
    let mut i: usize = 1;
    while i < 7
        invariant
            1 <= i <= 7,
            v.len() == 7,
            v@ == value@,
            v@[0] == '#',
            forall|k: int| 1 <= k < i ==> crate::ui::is_hex_char(#[trigger] v@[k]),
        decreases 7 - i,
    {
        let c = v[i];
        if !(('0' <= c && c <= '9') || ('a' <= c && c <= 'f') || ('A' <= c && c <= 'F')) {
            return false;
        }
        i = i + 1;
    }
    true
}

/// Layers the `[publish]` remote over `base`.
pub fn merge_publish_settings(base: PublishSettings, data: &ConfigData) -> (r: Result<PublishSettings, NrError>)
    ensures
        match non_empty_spec(opt_str(data.publish.remote), "[publish].remote"@) {
            Ok(Some(v)) => r matches Ok(p) && p.remote@ == v,
            Ok(None) => r matches Ok(p) && p.remote@ == base.remote@,
            Err(m) => r matches Err(NrError::Message(e)) && e@ == m,
        },
{
    match non_empty_string(data.publish.remote.as_ref(), "[publish].remote") {
        Ok(Some(v)) => Ok(PublishSettings { remote: v }),
        Ok(None) => Ok(base),
        Err(e) => Err(e),
    }
}

/// Layers the `[hooks]` commands over `base`.
pub fn merge_hook_settings(base: HookSettings, data: &ConfigData) -> (r: HookSettings)
    ensures
        command_views(r.post_switch@) == (match data.hooks.post_switch {
            Some(c) => command_views(c@),
            None => command_views(base.post_switch@),
        }),
{
    match &data.hooks.post_switch {
        Some(commands) => HookSettings { post_switch: clone_commands(commands) },
        None => base,
    }
}

/// Layers the `[ui]` accent over `base`; it must be a hex color.
pub fn merge_ui_settings(base: UiSettings, data: &ConfigData) -> (r: Result<UiSettings, NrError>)
    ensures
        match data.ui.accent {
            Some(a) => if hex_color(trim(a@)) {
                r matches Ok(u) && u.accent matches Some(x) && x@ == trim(a@)
            } else {
                r matches Err(NrError::Message(m)) && m@ == "[ui].accent must be a hex color like \"#cba6f7\"."@
            },
            None => r matches Ok(u) && opt_str(u.accent) == opt_str(base.accent),
        },
{
    match &data.ui.accent {
        Some(a) => {
            let t = trim_str(a.as_str());
            if !is_hex_color(t.as_str()) {
                return Err(NrError::message("[ui].accent must be a hex color like \"#cba6f7\"."));
            }
            Ok(UiSettings { accent: Some(t) })
        },
        None => Ok(base),
    }
}

pub open spec fn env_lookup(environment: Seq<(String, String)>, key: Seq<char>) -> Option<Seq<char>>
    decreases environment.len(),
{
    if environment.len() == 0 {
        None
    } else if environment[0].0@ == key {
        Some(environment[0].1@)
    } else {
        env_lookup(environment.drop_first(), key)
    }
}

/// The value of the first variable named `key`.
pub fn env_value(environment: &[(String, String)], key: &str) -> (r: Option<String>)
    ensures
        opt_str(r) == env_lookup(environment@, key@),
{
    let mut i: usize = 0;
    assert(environment@.skip(0) =~= environment@);
    while i < environment.len()
        invariant
            i <= environment.len(),
            env_lookup(environment@, key@) == env_lookup(environment@.skip(i as int), key@),
        decreases environment.len() - i,
    {
        assert(environment@.skip(i as int)[0] == environment@[i as int]);
        if eq_str(environment[i].0.as_str(), key) {
            return Some(environment[i].1.clone());
        }
        assert(environment@.skip(i as int).drop_first() =~= environment@.skip(i + 1));
        i = i + 1;
    }
    None
}

/// The home directory: `HOME` from the given environment, else the
/// process's own, else `.`.
pub open spec fn home_of(environment: Seq<(String, String)>, process_home: Option<Seq<char>>) -> Seq<char> {
    match env_lookup(environment, "HOME"@) {
        Some(h) => h,
        None => match process_home {
            Some(h) => h,
            None => "."@,
        },
    }
}

pub fn home_dir(environment: &[(String, String)], process_home: Option<&str>) -> (r: String)
    ensures
        r@ == home_of(
            environment@,
            match process_home {
                Some(h) => Some(h@),
                None => None,
            },
        ),
{
    match env_value(environment, "HOME") {
        Some(h) => h,
        None => match process_home {
            Some(h) => h.to_owned(),
            None => ".".to_owned(),
        },
    }
}

/// `~` and `~/...` expanded against the home directory.
pub open spec fn expand_home_spec(value: Seq<char>, home: Seq<char>) -> Seq<char> {
    if value == "~"@ {
        home
    } else if crate::text::starts_with(value, "~/"@) {
        crate::text::join_path_spec(home, value.skip(2))
    } else {
        value
    }
}

pub fn expand_home(value: &str, environment: &[(String, String)], process_home: Option<&str>) -> (r: String)
    ensures
        r@ == expand_home_spec(
            value@,
            home_of(
                environment@,
                match process_home {
                    Some(h) => Some(h@),
                    None => None,
                },
            ),
        ),
{
    proof {
        reveal_strlit("~/");
    }
    if eq_str(value, "~") {
        return home_dir(environment, process_home);
    }
    match crate::text::strip_prefix_str(value, "~/") {
        Some(rest) => {
            let home = home_dir(environment, process_home);
            crate::text::join_path(home.as_str(), rest.as_str())
        },
        None => value.to_owned(),
    }
}

/// `Path::join`: an absolute path replaces the base.
pub open spec fn path_join(base: Seq<char>, path: Seq<char>) -> Seq<char> {
    if crate::text::starts_with(path, "/"@) {
        path
    } else {
        crate::text::join_path_spec(base, path)
    }
}

pub fn join_paths(base: &str, path: &str) -> (r: String)
    ensures
        r@ == path_join(base@, path@),
{
    if crate::text::starts_with_str(path, "/") {
        path.to_owned()
    } else {
        crate::text::join_path(base, path)
    }
}

/// Where the user config lives: under `XDG_CONFIG_HOME`, else under the
/// home directory.
pub fn user_config_path(environment: &[(String, String)], process_home: Option<&str>) -> (r: String)
    ensures
        r@ == (match env_lookup(environment@, "XDG_CONFIG_HOME"@) {
            Some(x) => path_join(
                expand_home_spec(
                    x,
                    home_of(
                        environment@,
                        match process_home {
                            Some(h) => Some(h@),
                            None => None,
                        },
                    ),
                ),
                "nr/config.toml"@,
            ),
            None => path_join(
                home_of(
                    environment@,
                    match process_home {
                        Some(h) => Some(h@),
                        None => None,
                    },
                ),
                ".config/nr/config.toml"@,
            ),
        }),
{
    match env_value(environment, "XDG_CONFIG_HOME") {
        Some(x) => {
            let base = expand_home(x.as_str(), environment, process_home);
            join_paths(base.as_str(), "nr/config.toml")
        },
        None => {
            let home = home_dir(environment, process_home);
            join_paths(home.as_str(), ".config/nr/config.toml")
        },
    }
}

/// Where the flake comes from, in order of precedence.
#[derive(Clone, Debug)]
pub enum FlakeSource {
    /// `--flake`, not blank.
    CommandLine(String),
    /// `NR_FLAKE`.
    Environment(String),
    /// The nearest directory upwards holding a `flake.nix`.
    Nearest(String),
    /// `[target].flake` of the user config.
    UserConfig(String),
    /// `/etc/nixos`.
    Default,
}

pub open spec fn flake_source_spec(
    cli_flake: Option<Seq<char>>,
    environment: Seq<(String, String)>,
    nearest: Option<Seq<char>>,
    user_data: Option<ConfigData>,
) -> Result<(nat, Seq<char>), Seq<char>> {
    if cli_flake matches Some(f) && trim(f).len() > 0 {
        Ok((0, cli_flake->0))
    } else if env_lookup(environment, "NR_FLAKE"@) is Some {
        Ok((1, env_lookup(environment, "NR_FLAKE"@)->0))
    } else if nearest is Some {
        Ok((2, nearest->0))
    } else {
        match non_empty_spec(data_target_flake(user_data), "[target].flake"@) {
            Err(m) => Err(m),
            Ok(Some(v)) => Ok((3, v)),
            Ok(None) => Ok((4, "/etc/nixos"@)),
        }
    }
}

pub open spec fn source_view(s: FlakeSource) -> (nat, Seq<char>) {
    match s {
        FlakeSource::CommandLine(v) => (0, v@),
        FlakeSource::Environment(v) => (1, v@),
        FlakeSource::Nearest(v) => (2, v@),
        FlakeSource::UserConfig(v) => (3, v@),
        FlakeSource::Default => (4, "/etc/nixos"@),
    }
}

/// Picks the flake: `--flake`, then `NR_FLAKE`, then the nearest
/// `flake.nix` upwards (`nearest`), then the user config, then `/etc/nixos`.
pub fn flake_source(
    cli_flake: Option<&str>,
    environment: &[(String, String)],
    nearest: Option<&str>,
    user_data: &Option<ConfigData>,
) -> (r: Result<FlakeSource, NrError>)
    ensures
        match flake_source_spec(
            match cli_flake {
                Some(f) => Some(f@),
                None => None,
            },
            environment@,
            match nearest {
                Some(n) => Some(n@),
                None => None,
            },
            *user_data,
        ) {
            Ok(v) => r matches Ok(s) && source_view(s) == v,
            Err(m) => r matches Err(NrError::Message(e)) && e@ == m,
        },
{
    if let Some(f) = cli_flake {
        if !trim_str(f).as_str().is_empty() {
            return Ok(FlakeSource::CommandLine(f.to_owned()));
        }
    }
    if let Some(v) = env_value(environment, "NR_FLAKE") {
        return Ok(FlakeSource::Environment(v));
    }
    if let Some(n) = nearest {
        return Ok(FlakeSource::Nearest(n.to_owned()));
    }
    match target_flake(user_data) {
        Err(e) => Err(e),
        Ok(Some(v)) => Ok(FlakeSource::UserConfig(v)),
        Ok(None) => Ok(FlakeSource::Default),
    }
}

/// The configuration name, before trimming: `--host`, the `#` fragment,
/// `NR_HOST`, the repo config, the user config, the machine's hostname,
/// `HOSTNAME`, then `nixos`.
pub open spec fn host_choice(
    cli_host: Option<Seq<char>>,
    fragment_host: Option<Seq<char>>,
    environment: Seq<(String, String)>,
    repo_host: Option<Seq<char>>,
    user_host: Option<Seq<char>>,
    hostname: Option<Seq<char>>,
) -> Seq<char> {
    if cli_host matches Some(h) && trim(h).len() > 0 {
        cli_host->0
    } else if fragment_host is Some {
        fragment_host->0
    } else if env_lookup(environment, "NR_HOST"@) is Some {
        env_lookup(environment, "NR_HOST"@)->0
    } else if repo_host is Some {
        repo_host->0
    } else if user_host is Some {
        user_host->0
    } else if hostname is Some {
        hostname->0
    } else if env_lookup(environment, "HOSTNAME"@) is Some {
        env_lookup(environment, "HOSTNAME"@)->0
    } else {
        "nixos"@
    }
}

pub fn select_host(
    cli_host: Option<&str>,
    fragment_host: Option<&str>,
    environment: &[(String, String)],
    repo_host: Option<&str>,
    user_host: Option<&str>,
    hostname: Option<&str>,
) -> (r: Result<String, NrError>)
    ensures
        ({
            let h = host_choice(
                match cli_host {
                    Some(v) => Some(v@),
                    None => None,
                },
                match fragment_host {
                    Some(v) => Some(v@),
                    None => None,
                },
                environment@,
                match repo_host {
                    Some(v) => Some(v@),
                    None => None,
                },
                match user_host {
                    Some(v) => Some(v@),
                    None => None,
                },
                match hostname {
                    Some(v) => Some(v@),
                    None => None,
                },
            );
            if trim(h).len() == 0 {
                r matches Err(NrError::Message(m)) && m@ == "NixOS configuration name cannot be empty."@
            } else {
                r matches Ok(s) && s@ == trim(h)
            }
        }),
{
    let chosen: String = match cli_host {
        Some(h) if !trim_str(h).as_str().is_empty() => h.to_owned(),
        _ => match fragment_host {
            Some(f) => f.to_owned(),
            None => match env_value(environment, "NR_HOST") {
                Some(v) => v,
                None => match repo_host {
                    Some(v) => v.to_owned(),
                    None => match user_host {
                        Some(v) => v.to_owned(),
                        None => match hostname {
                            Some(v) => v.to_owned(),
                            None => match env_value(environment, "HOSTNAME") {
                                Some(v) => v,
                                None => "nixos".to_owned(),
                            },
                        },
                    },
                },
            },
        },
    };
    let t = trim_str(chosen.as_str());
    if t.as_str().is_empty() {
        return Err(NrError::message("NixOS configuration name cannot be empty."));
    }
    Ok(t)
}

/// A flake directory must exist and hold a `flake.nix`.
pub fn validate_flake_path(path: &str, is_dir: bool, has_flake_nix: bool) -> (r: Result<(), NrError>)
    ensures
        !is_dir ==> (r matches Err(NrError::Message(m)) && m@ == "Flake directory does not exist: "@ + path@),
        is_dir && !has_flake_nix ==> (r matches Err(NrError::Message(m)) && m@ == "No flake.nix found in: "@ + path@),
        is_dir && has_flake_nix ==> r is Ok,
{
    if !is_dir {
        return Err(NrError::Message(crate::text::concat("Flake directory does not exist: ", path)));
    }
    if !has_flake_nix {
        return Err(NrError::Message(crate::text::concat("No flake.nix found in: ", path)));
    }
    Ok(())
}


pub open spec fn repo_flake_error(data: Option<ConfigData>) -> Option<Seq<char>> {
    match data_target_flake(data) {
        Some(f) => Some(
            if trim(f).len() == 0 {
                "[target].flake cannot be empty."@
            } else {
                ".nr.toml cannot set [target].flake; it already lives in the flake."@
            },
        ),
        None => None,
    }
}

pub open spec fn data_error(data: Option<ConfigData>) -> Option<Seq<char>> {
    match data {
        None => None,
        Some(d) => match non_empty_spec(opt_str(d.publish.remote), "[publish].remote"@) {
            Err(m) => Some(m),
            Ok(_) => match d.ui.accent {
                Some(a) => if hex_color(trim(a@)) {
                    None
                } else {
                    Some("[ui].accent must be a hex color like \"#cba6f7\"."@)
                },
                None => None,
            },
        },
    }
}

pub open spec fn layered<T>(repo: Option<T>, user: Option<T>, default: T) -> T {
    match repo {
        Some(v) => v,
        None => match user {
            Some(v) => v,
            None => default,
        },
    }
}

pub open spec fn check_flag(data: Option<ConfigData>, pick: spec_fn(CheckConfig) -> Option<bool>) -> Option<bool> {
    match data {
        Some(d) => pick(d.check),
        None => None,
    }
}

/// The configuration from a validated flake directory, the selected host
/// sources and the two config files; a repo file wins over the user file,
/// which wins over the defaults.
pub fn finish_config(
    flake_path: &str,
    cli_host: Option<&str>,
    fragment_host: Option<&str>,
    environment: &[(String, String)],
    hostname: Option<&str>,
    user_path: &str,
    user_data: &Option<ConfigData>,
    repo_path: &str,
    repo_data: &Option<ConfigData>,
) -> (r: Result<NrConfig, NrError>)
    ensures
        repo_flake_error(*repo_data) matches Some(m) ==> (r matches Err(NrError::Message(e)) && e@ == m),
        r is Ok ==> repo_flake_error(*repo_data) is None
            && non_empty_spec(data_target_host(*repo_data), "[target].host"@) is Ok
            && non_empty_spec(data_target_host(*user_data), "[target].host"@) is Ok
            && data_error(*user_data) is None && data_error(*repo_data) is None,
        r matches Ok(c) ==> ({
            &&& c.target.path@ == flake_path@
            &&& c.target.host@ == trim(host_choice(
                match cli_host {
                    Some(v) => Some(v@),
                    None => None,
                },
                match fragment_host {
                    Some(v) => Some(v@),
                    None => None,
                },
                environment@,
                non_empty_spec(data_target_host(*repo_data), "[target].host"@)->Ok_0,
                non_empty_spec(data_target_host(*user_data), "[target].host"@)->Ok_0,
                match hostname {
                    Some(v) => Some(v@),
                    None => None,
                },
            ))
            &&& c.check.flake == layered(
                check_flag(*repo_data, |k: CheckConfig| k.flake),
                check_flag(*user_data, |k: CheckConfig| k.flake),
                true,
            )
            &&& c.check.nixfmt == layered(
                check_flag(*repo_data, |k: CheckConfig| k.nixfmt),
                check_flag(*user_data, |k: CheckConfig| k.nixfmt),
                false,
            )
            &&& c.check.statix == layered(
                check_flag(*repo_data, |k: CheckConfig| k.statix),
                check_flag(*user_data, |k: CheckConfig| k.statix),
                false,
            )
            &&& c.check.cargo_fmt == layered(
                check_flag(*repo_data, |k: CheckConfig| k.cargo_fmt),
                check_flag(*user_data, |k: CheckConfig| k.cargo_fmt),
                false,
            )
            &&& c.check.clippy == layered(
                check_flag(*repo_data, |k: CheckConfig| k.clippy),
                check_flag(*user_data, |k: CheckConfig| k.clippy),
                false,
            )
            &&& c.user_config_path.is_some() == user_data.is_some()
            &&& c.repo_config_path.is_some() == repo_data.is_some()
            &&& (c.user_config_path matches Some(u) ==> u@ == user_path@)
            &&& (c.repo_config_path matches Some(p) ==> p@ == repo_path@)
        }),
{
    match reject_repo_flake(repo_data) {
        Err(e) => return Err(e),
        Ok(()) => {},
    }
    let repo_host = match target_host(repo_data) {
        Err(e) => return Err(e),
        Ok(h) => h,
    };
    let user_host = match target_host(user_data) {
        Err(e) => return Err(e),
        Ok(h) => h,
    };
    let repo_host_ref = match &repo_host {
        Some(h) => Some(h.as_str()),
        None => None,
    };
    let user_host_ref = match &user_host {
        Some(h) => Some(h.as_str()),
        None => None,
    };
    let selected = match select_host(cli_host, fragment_host, environment, repo_host_ref, user_host_ref, hostname) {
        Err(e) => return Err(e),
        Ok(h) => h,
    };
    let mut check = CheckSettings::default();
    let mut publish = PublishSettings::default();
    let mut hooks = HookSettings::default();
    let mut ui = UiSettings::default();
    if let Some(data) = user_data {
        check = merge_check_settings(check, data);
        publish = match merge_publish_settings(publish, data) {
            Err(e) => return Err(e),
            Ok(p) => p,
        };
        hooks = merge_hook_settings(hooks, data);
        ui = match merge_ui_settings(ui, data) {
            Err(e) => return Err(e),
            Ok(u) => u,
        };
    }
    if let Some(data) = repo_data {
        check = merge_check_settings(check, data);
        publish = match merge_publish_settings(publish, data) {
            Err(e) => return Err(e),
            Ok(p) => p,
        };
        hooks = merge_hook_settings(hooks, data);
        ui = match merge_ui_settings(ui, data) {
            Err(e) => return Err(e),
            Ok(u) => u,
        };
    }
    Ok(NrConfig {
        target: FlakeTarget { path: flake_path.to_owned(), host: selected },
        check,
        publish,
        hooks,
        ui,
        user_config_path: if user_data.is_some() { Some(user_path.to_owned()) } else { None },
        repo_config_path: if repo_data.is_some() { Some(repo_path.to_owned()) } else { None },
    })
}


/// A non-blank `--flake` is used whatever the environment, the working
/// directory and the user config say.
pub proof fn lemma_cli_flake_wins(
    cli_flake: Seq<char>,
    environment: Seq<(String, String)>,
    nearest: Option<Seq<char>>,
    user_data: Option<ConfigData>,
)
    requires
        trim(cli_flake).len() > 0,
    ensures
        flake_source_spec(Some(cli_flake), environment, nearest, user_data) == Ok::<
            (nat, Seq<char>),
            Seq<char>,
        >((0, cli_flake)),
{
}

/// `NR_FLAKE` wins over a flake found upwards and over the user config.
pub proof fn lemma_env_flake_wins_over_files(
    environment: Seq<(String, String)>,
    nearest: Option<Seq<char>>,
    user_data: Option<ConfigData>,
)
    requires
        env_lookup(environment, "NR_FLAKE"@) is Some,
    ensures
        flake_source_spec(None, environment, nearest, user_data) == Ok::<(nat, Seq<char>), Seq<char>>(
            (1, env_lookup(environment, "NR_FLAKE"@)->0),
        ),
{
}

/// A non-blank `--host` is used whatever the fragment, the environment and
/// the config files say.
pub proof fn lemma_cli_host_wins(
    cli_host: Seq<char>,
    fragment_host: Option<Seq<char>>,
    environment: Seq<(String, String)>,
    repo_host: Option<Seq<char>>,
    user_host: Option<Seq<char>>,
    hostname: Option<Seq<char>>,
)
    requires
        trim(cli_host).len() > 0,
    ensures
        host_choice(Some(cli_host), fragment_host, environment, repo_host, user_host, hostname)
            == cli_host,
{
}

/// Without a usable `--host`, a fragment host or `NR_HOST`, the repo
/// config's host is used; without that too, the user config's host is used,
/// whatever the machine's hostname; only without both does the machine's
/// hostname count.
pub proof fn lemma_config_hosts_win_over_hostname(
    cli_host: Option<Seq<char>>,
    environment: Seq<(String, String)>,
    repo_host: Option<Seq<char>>,
    user_host: Option<Seq<char>>,
    hostname: Option<Seq<char>>,
)
    requires
        !(cli_host matches Some(h) && trim(h).len() > 0),
        env_lookup(environment, "NR_HOST"@) is None,
    ensures
        repo_host matches Some(r) ==> host_choice(
            cli_host,
            None,
            environment,
            repo_host,
            user_host,
            hostname,
        ) == r,
        repo_host is None ==> (user_host matches Some(u) ==> host_choice(
            cli_host,
            None,
            environment,
            repo_host,
            user_host,
            hostname,
        ) == u),
        repo_host is None && user_host is None ==> (hostname matches Some(m) ==> host_choice(
            cli_host,
            None,
            environment,
            repo_host,
            user_host,
            hostname,
        ) == m),
{
}

/// `NR_HOST` wins over both config files.
pub proof fn lemma_env_host_wins_over_files(
    environment: Seq<(String, String)>,
    repo_host: Option<Seq<char>>,
    user_host: Option<Seq<char>>,
    hostname: Option<Seq<char>>,
)
    requires
        env_lookup(environment, "NR_HOST"@) is Some,
    ensures
        host_choice(None, None, environment, repo_host, user_host, hostname) == env_lookup(
            environment,
            "NR_HOST"@,
        )->0,
{
}

/// A key set in the repository's config wins over the user's, which wins
/// over the default.
pub proof fn lemma_repo_config_wins<T>(repo: Option<T>, user: Option<T>, default: T)
    ensures
        repo matches Some(v) ==> layered(repo, user, default) == v,
        repo is None ==> (user matches Some(u) ==> layered(repo, user, default) == u),
        repo is None && user is None ==> layered(repo, user, default) == default,
{
}

} // verus!
