use vstd::prelude::*;

use crate::cli::{opt_views, Cli};
use crate::config::{split_flake_reference, split_flake_reference_spec, FlakeTarget, NrConfig};
use crate::errors::NrError;
use crate::text::{chars_of, trim, trim_str};

verus! {

/// The host fragment of a flake reference, when it has a valid one.
pub open spec fn fragment_of(value: Option<Seq<char>>) -> Option<Seq<char>> {
    match value {
        None => None,
        Some(v) => match split_flake_reference_spec(v) {
            Ok((_, h)) => h,
            Err(_) => None,
        },
    }
}

pub fn flake_fragment(value: Option<&str>) -> (r: Option<String>)
    ensures
        opt_views(r) == fragment_of(
            match value {
                Some(v) => Some(v@),
                None => None,
            },
        ),
{
    let value = match value {
        Some(v) => v,
        None => return None,
    };
    match split_flake_reference(value) {
        Ok((_, fragment)) => fragment,
        Err(_) => None,
    }
}

/// The Home Manager configuration name before trimming: an explicit name,
/// then `--host`, then the `#` fragment of `--flake`, then `NR_HOME`, then
/// `USER`, then the NixOS host.
pub open spec fn home_choice(
    explicit: Option<Seq<char>>,
    cli_host: Option<Seq<char>>,
    cli_flake: Option<Seq<char>>,
    nr_home: Option<Seq<char>>,
    user: Option<Seq<char>>,
    config_host: Seq<char>,
) -> Seq<char> {
    if explicit matches Some(e) && trim(e).len() > 0 {
        trim(explicit->0)
    } else if cli_host matches Some(h) && trim(h).len() > 0 {
        trim(cli_host->0)
    } else if fragment_of(cli_flake) is Some {
        fragment_of(cli_flake)->0
    } else if nr_home matches Some(n) && trim(n).len() > 0 {
        nr_home->0
    } else if user matches Some(u) && trim(u).len() > 0 {
        user->0
    } else {
        config_host
    }
}

fn non_blank(value: Option<&str>) -> (r: Option<String>)
    ensures
        match value {
            Some(v) => if trim(v@).len() > 0 {
                r matches Some(x) && x@ == v@
            } else {
                r is None
            },
            None => r is None,
        },
{
    match value {
        Some(v) => {
            let t = trim_str(v);
            if chars_of(t.as_str()).len() > 0 {
                Some(v.to_owned())
            } else {
                None
            }
        },
        None => None,
    }
}

fn trimmed_non_blank(value: Option<&str>) -> (r: Option<String>)
    ensures
        match value {
            Some(v) => if trim(v@).len() > 0 {
                r matches Some(x) && x@ == trim(v@)
            } else {
                r is None
            },
            None => r is None,
        },
{
    match value {
        Some(v) => {
            let t = trim_str(v);
            if chars_of(t.as_str()).len() > 0 {
                Some(t)
            } else {
                None
            }
        },
        None => None,
    }
}

/// The Home Manager flake target: the configured flake with the chosen
/// configuration name; `nr_home` and `user` are the values of the
/// `NR_HOME` and `USER` variables.
pub fn home_target(
    cli: &Cli,
    config: &NrConfig,
    explicit: Option<&str>,
    nr_home: Option<&str>,
    user: Option<&str>,
) -> (r: Result<FlakeTarget, NrError>)
    ensures
        ({
            let home = home_choice(
                match explicit {
                    Some(v) => Some(v@),
                    None => None,
                },
                opt_views(cli.host),
                opt_views(cli.flake),
                match nr_home {
                    Some(v) => Some(v@),
                    None => None,
                },
                match user {
                    Some(v) => Some(v@),
                    None => None,
                },
                config.target.host@,
            );
            if trim(home).len() == 0 {
                r matches Err(NrError::Message(m)) && m@
                    == "Home Manager configuration name cannot be empty."@
            } else {
                r matches Ok(t) && t.path@ == config.target.path@ && t.host@ == trim(home)
            }
        }),
{
    let host_ref = match &cli.host {
        Some(h) => Some(h.as_str()),
        None => None,
    };
    let flake_ref = match &cli.flake {
        Some(f) => Some(f.as_str()),
        None => None,
    };
    let home: String = match trimmed_non_blank(explicit) {
        Some(e) => e,
        None => match trimmed_non_blank(host_ref) {
            Some(h) => h,
            None => match flake_fragment(flake_ref) {
                Some(f) => f,
                None => match non_blank(nr_home) {
                    Some(n) => n,
                    None => match non_blank(user) {
                        Some(u) => u,
                        None => config.target.host.clone(),
                    },
                },
            },
        },
    };
    let trimmed = trim_str(home.as_str());
    if chars_of(trimmed.as_str()).len() == 0 {
        return Err(NrError::message("Home Manager configuration name cannot be empty."));
    }
    Ok(FlakeTarget { path: config.target.path.clone(), host: trimmed })
}

pub open spec fn str_view(o: Option<&str>) -> Option<Seq<char>> {
    match o {
        Some(s) => Some(s@),
        None => None,
    }
}

/// Where a Home Manager profile usually lives: under `$XDG_STATE_HOME`,
/// then under `$HOME` in the state directory, then `~/.nix-profile`.
pub open spec fn profile_candidates(xdg_state_home: Option<Seq<char>>, home: Option<Seq<char>>) -> Seq<Seq<char>> {
    (match xdg_state_home {
        Some(x) => seq![crate::text::join_path_spec(x, "nix/profiles/home-manager"@)],
        None => Seq::empty(),
    }) + match home {
        Some(h) => seq![
            crate::text::join_path_spec(h, ".local/state/nix/profiles/home-manager"@),
            crate::text::join_path_spec(h, ".nix-profile"@),
        ],
        None => Seq::empty(),
    }
}

pub fn default_hm_profile_candidates(xdg_state_home: Option<&str>, home: Option<&str>) -> (r: Vec<String>)
    ensures
        crate::text::strs(r@) == profile_candidates(str_view(xdg_state_home), str_view(home)),
{
    let mut r: Vec<String> = Vec::new();
    match xdg_state_home {
        Some(x) => r.push(crate::text::join_path(x, "nix/profiles/home-manager")),
        None => {},
    }
    match home {
        Some(h) => {
            r.push(crate::text::join_path(h, ".local/state/nix/profiles/home-manager"));
            r.push(crate::text::join_path(h, ".nix-profile"));
        },
        None => {},
    }
    assert(crate::text::strs(r@) =~= profile_candidates(str_view(xdg_state_home), str_view(home)));
    r
}

/// The profile to diff against: the one given, which must exist, or the
/// first candidate that exists.
pub fn resolve_hm_profile(explicit: Option<&str>, explicit_exists: bool, candidates: &[(String, bool)]) -> (r: Result<
    Option<String>,
    NrError,
>)
    ensures
        explicit matches Some(p) ==> (explicit_exists ==> (r matches Ok(Some(s)) && s@ == p@)) && (!explicit_exists
            ==> (r matches Err(NrError::Message(m)) && m@ == "Home Manager profile does not exist: "@ + p@)),
        explicit is None ==> match r {
            Ok(Some(s)) => exists|i: int|
                0 <= i < candidates@.len() && candidates@[i].1 && candidates@[i].0@ == s@ && forall|j: int|
                    0 <= j < i ==> !(#[trigger] candidates@[j]).1,
            Ok(None) => forall|j: int| 0 <= j < candidates@.len() ==> !(#[trigger] candidates@[j]).1,
            Err(_) => false,
        },
{
    match explicit {
        Some(p) => {
            if explicit_exists {
                Ok(Some(p.to_owned()))
            } else {
                let mut m = "Home Manager profile does not exist: ".to_owned();
                m.append(p);
                Err(NrError::Message(m))
            }
        },
        None => {
            let mut i: usize = 0;
            while i < candidates.len()
                invariant
                    i <= candidates.len(),
                    explicit is None,
                    forall|j: int| 0 <= j < i ==> !(#[trigger] candidates@[j]).1,
                decreases candidates.len() - i,
            {
                if candidates[i].1 {
                    return Ok(Some(candidates[i].0.clone()));
                }
                i = i + 1;
            }
            Ok(None)
        },
    }
}

} // verus!
