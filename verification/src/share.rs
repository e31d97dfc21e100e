use vstd::prelude::*;

use crate::generations::{current_index, SystemGeneration};
use crate::git::GitSummary;
use crate::text::{
    chars_of, concat, decimal, join, join_strings, lemma_strs_push, strs, trim, trim_str,
    u64_to_string,
};

verus! {

/// The counters of the latest build report.
#[derive(Clone, Debug)]
pub struct BuildStats {
    pub completed: u64,
    pub failed: u64,
    pub store: String,
}

/// What `nr share` reports about the system.
#[derive(Clone, Debug)]
pub struct SystemSummary {
    pub nixos_version: String,
    pub kernel_version: String,
    pub generation: String,
    pub generation_date: String,
    pub flake_host: String,
    pub git_branch: String,
    pub git_dirty: String,
    pub inputs: Vec<(String, String)>,
    pub build_stats: Option<BuildStats>,
    pub nr_version: String,
}

pub open spec fn input_lines(inputs: Seq<(String, String)>) -> Seq<Seq<char>> {
    inputs.map_values(|p: (String, String)| "  "@ + p.0@ + ": "@ + p.1@)
}

pub open spec fn summary_lines(s: SystemSummary) -> Seq<Seq<char>> {
    seq![
        "nr system summary"@,
        "NixOS: "@ + s.nixos_version@,
        "Kernel: "@ + s.kernel_version@,
        "Current generation: "@ + s.generation@ + " ("@ + s.generation_date@ + ")"@,
        "Flake host: "@ + s.flake_host@,
        "Git: "@ + s.git_branch@ + " ("@ + s.git_dirty@ + ")"@,
        "Flake inputs:"@,
    ] + (if s.inputs@.len() == 0 {
        seq!["  none found"@]
    } else {
        input_lines(s.inputs@)
    }) + seq![
        match s.build_stats {
            Some(b) => "Last build: completed "@ + decimal(b.completed as nat) + " failed "@ + decimal(
                b.failed as nat,
            ) + " store "@ + b.store@,
            None => "Last build: unavailable"@,
        },
        "nr: "@ + s.nr_version@,
    ]
}

impl SystemSummary {
    /// The summary as lines of text.
    pub fn render_text(&self) -> (r: String)
        ensures
            r@ == join(summary_lines(*self), "\n"@),
    {
        let mut lines: Vec<String> = Vec::new();
        lines.push("nr system summary".to_owned());
        lines.push(concat("NixOS: ", self.nixos_version.as_str()));
        lines.push(concat("Kernel: ", self.kernel_version.as_str()));
        let mut g = "Current generation: ".to_owned();
        g.append(self.generation.as_str());
        g.append(" (");
        g.append(self.generation_date.as_str());
        g.append(")");
        lines.push(g);
        lines.push(concat("Flake host: ", self.flake_host.as_str()));
        let mut git = "Git: ".to_owned();
        git.append(self.git_branch.as_str());
        git.append(" (");
        git.append(self.git_dirty.as_str());
        git.append(")");
        lines.push(git);
        lines.push("Flake inputs:".to_owned());
        assert(strs(lines@) =~= seq![
            "nr system summary"@,
            "NixOS: "@ + self.nixos_version@,
            "Kernel: "@ + self.kernel_version@,
            "Current generation: "@ + self.generation@ + " ("@ + self.generation_date@ + ")"@,
            "Flake host: "@ + self.flake_host@,
            "Git: "@ + self.git_branch@ + " ("@ + self.git_dirty@ + ")"@,
            "Flake inputs:"@,
        ]);
        let ghost head = strs(lines@);
        if self.inputs.len() == 0 {
            lines.push("  none found".to_owned());
            assert(strs(lines@) =~= head + seq!["  none found"@]);
        } else {
            let mut i: usize = 0;
            while i < self.inputs.len()
                invariant
                    i <= self.inputs.len(),
                    strs(lines@) == head + input_lines(self.inputs@.take(i as int)),
                decreases self.inputs.len() - i,
            {
                let mut l = "  ".to_owned();
                l.append(self.inputs[i].0.as_str());
                l.append(": ");
                l.append(self.inputs[i].1.as_str());
                let ghost before = lines@;
                lines.push(l);
                proof {
                    lemma_strs_push(before, l);
                    assert(self.inputs@.take(i + 1) =~= self.inputs@.take(i as int).push(
                        self.inputs@[i as int],
                    ));
                }
                i = i + 1;
                assert(strs(lines@) =~= head + input_lines(self.inputs@.take(i as int)));
            }
            assert(self.inputs@.take(i as int) =~= self.inputs@);
        }
        let ghost mid = strs(lines@);
        assert(mid == head + (if self.inputs@.len() == 0 {
            seq!["  none found"@]
        } else {
            input_lines(self.inputs@)
        }));
        match &self.build_stats {
            Some(b) => {
                let mut l = "Last build: completed ".to_owned();
                l.append(u64_to_string(b.completed).as_str());
                l.append(" failed ");
                l.append(u64_to_string(b.failed).as_str());
                l.append(" store ");
                l.append(b.store.as_str());
                lines.push(l);
            },
            None => lines.push("Last build: unavailable".to_owned()),
        }
        lines.push(concat("nr: ", self.nr_version.as_str()));
        assert(strs(lines@) =~= summary_lines(*self));
        join_strings(lines.as_slice(), "\n")
    }
}

/// A reported value, or `unknown` when it is blank.
pub open spec fn known(value: Option<Seq<char>>) -> Seq<char> {
    match value {
        Some(v) => if trim(v).len() == 0 {
            "unknown"@
        } else {
            v
        },
        None => "unknown"@,
    }
}

fn known_or_unknown(value: Option<&String>) -> (r: String)
    ensures
        r@ == known(
            match value {
                Some(v) => Some(v@),
                None => None,
            },
        ),
{
    match value {
        Some(v) => if trim_str(v.as_str()).as_str().is_empty() {
            "unknown".to_owned()
        } else {
            v.clone()
        },
        None => "unknown".to_owned(),
    }
}

/// The summary of the current generation, Git state and inputs; the
/// kernel comes from the generation listing, else from `uname -r`.
pub fn build_summary(
    generations: &[SystemGeneration],
    uname_kernel: Option<&str>,
    flake_host: &str,
    git: &GitSummary,
    inputs: Vec<(String, String)>,
    build_stats: Option<BuildStats>,
    nr_version: &str,
) -> (r: SystemSummary)
    ensures
        match current_index(generations@) {
            Some(c) => r.nixos_version@ == known(Some(generations@[c].nixos_version@))
                && r.generation@ == decimal(generations@[c].generation as nat)
                && r.generation_date@ == known(Some(generations@[c].date@))
                && r.kernel_version@ == (if trim(generations@[c].kernel_version@).len() > 0 {
                    generations@[c].kernel_version@
                } else {
                    known(
                        match uname_kernel {
                            Some(k) => Some(k@),
                            None => None,
                        },
                    )
                }),
            None => r.nixos_version@ == "unknown"@ && r.generation@ == "unknown"@
                && r.generation_date@ == "unknown"@ && r.kernel_version@ == known(
                match uname_kernel {
                    Some(k) => Some(k@),
                    None => None,
                },
            ),
        },
        r.flake_host@ == flake_host@,
        r.git_branch@ == (if git.repository {
            match git.branch {
                Some(b) => b@,
                None => "detached"@,
            }
        } else {
            "not a repository"@
        }),
        r.git_dirty@ == (if git.dirty { "dirty"@ } else { "clean"@ }),
        r.inputs == inputs,
        r.build_stats == build_stats,
        r.nr_version@ == nr_version@,
{
    let current = crate::generations::current_generation(generations);
    let uname: Option<String> = match uname_kernel {
        Some(k) => Some(k.to_owned()),
        None => None,
    };
    let (nixos_version, generation, generation_date, kernel_version) = match current {
        Some(c) => {
            let kernel = if !trim_str(c.kernel_version.as_str()).as_str().is_empty() {
                c.kernel_version.clone()
            } else {
                known_or_unknown(uname.as_ref())
            };
            (
                known_or_unknown(Some(&c.nixos_version)),
                u64_to_string(c.generation),
                known_or_unknown(Some(&c.date)),
                kernel,
            )
        },
        None => (
            "unknown".to_owned(),
            "unknown".to_owned(),
            "unknown".to_owned(),
            known_or_unknown(uname.as_ref()),
        ),
    };
    let git_branch = if git.repository {
        match &git.branch {
            Some(b) => b.clone(),
            None => "detached".to_owned(),
        }
    } else {
        "not a repository".to_owned()
    };
    SystemSummary {
        nixos_version,
        kernel_version,
        generation,
        generation_date,
        flake_host: flake_host.to_owned(),
        git_branch,
        git_dirty: if git.dirty {
            "dirty".to_owned()
        } else {
            "clean".to_owned()
        },
        inputs,
        build_stats,
        nr_version: nr_version.to_owned(),
    }
}

} // verus!
