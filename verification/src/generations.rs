use vstd::prelude::*;

use crate::backend::{
    common_args, elevation_args, extra_args, is_command, rollback_command,
    rollback_to_store_path_command, BackendOptions,
};
use crate::errors::NrError;
use crate::process::CommandSpec;
use crate::text::{
    chars_less, chars_of, concat, concat3, decimal, eq_str, lemma_chars_less_irreflexive,
    lemma_chars_less_total, lemma_chars_less_transitive, parse_u64, parse_u64_spec, str_less, trim, join, join_strings, strs, lemma_strs_push,
    trim_str, u64_to_string,
};

verus! {

/// One system generation as `nixos-rebuild list-generations --json` lists it.
#[derive(Clone, Debug)]
pub struct SystemGeneration {
    pub generation: u64,
    pub date: String,
    pub nixos_version: String,
    pub kernel_version: String,
    pub configuration_revision: String,
    pub current: bool,
}

/// Named generations: each label pins one generation number. The labels
/// are kept sorted and distinct, as a `BTreeMap` keeps its keys.
#[derive(Clone, Debug)]
pub struct PinsFile {
    pub pins: Vec<(String, u64)>,
}

pub open spec fn pin_entries(v: Seq<(String, u64)>) -> Seq<(Seq<char>, u64)> {
    v.map_values(|p: (String, u64)| (p.0@, p.1))
}

/// Labels strictly increasing, hence distinct.
pub open spec fn labels_sorted(s: Seq<(Seq<char>, u64)>) -> bool {
    forall|i: int, j: int| 0 <= i < j < s.len() ==> chars_less(#[trigger] s[i].0, #[trigger] s[j].0)
}

pub open spec fn has_label(s: Seq<(Seq<char>, u64)>, label: Seq<char>) -> bool {
    exists|k: int| 0 <= k < s.len() && #[trigger] s[k].0 == label
}

/// Where `label` stands, if it does.
pub open spec fn label_index(s: Seq<(Seq<char>, u64)>, label: Seq<char>) -> int {
    choose|k: int| 0 <= k < s.len() && #[trigger] s[k].0 == label
}

/// The pins as a map from label to generation.
pub open spec fn pin_map(s: Seq<(Seq<char>, u64)>) -> Map<Seq<char>, u64> {
    Map::new(|l: Seq<char>| has_label(s, l), |l: Seq<char>| s[label_index(s, l)].1)
}

proof fn lemma_pin_map_at(s: Seq<(Seq<char>, u64)>, k: int)
    requires
        labels_sorted(s),
        0 <= k < s.len(),
    ensures
        pin_map(s).contains_key(s[k].0),
        pin_map(s)[s[k].0] == s[k].1,
{
    let l = s[k].0;
    assert(has_label(s, l));
    let c = label_index(s, l);
    if c < k {
        assert(chars_less(s[c].0, s[k].0));
        lemma_chars_less_irreflexive(l);
    } else if c > k {
        assert(chars_less(s[k].0, s[c].0));
        lemma_chars_less_irreflexive(l);
    }
    assert(c == k);
    assert(pin_map(s).dom().contains(l));
    assert(pin_map(s)[l] == s[c].1);
}

proof fn lemma_pin_map_ext(s: Seq<(Seq<char>, u64)>, m: Map<Seq<char>, u64>)
    requires
        labels_sorted(s),
        forall|k: int|
            0 <= k < s.len() ==> m.contains_key(#[trigger] s[k].0) && m[s[k].0] == s[k].1,
        forall|x: Seq<char>| #[trigger] m.contains_key(x) ==> has_label(s, x),
    ensures
        pin_map(s) == m,
{
    assert forall|x: Seq<char>| #[trigger] pin_map(s).contains_key(x) == m.contains_key(x) by {
        if has_label(s, x) {
            let k = label_index(s, x);
            assert(m.contains_key(s[k].0));
        }
    }
    assert forall|x: Seq<char>| pin_map(s).contains_key(x) implies #[trigger] pin_map(s)[x] == m[x] by {
        let k = label_index(s, x);
        lemma_pin_map_at(s, k);
        assert(m[s[k].0] == s[k].1);
    }
    assert(pin_map(s) =~= m);
}

impl PinsFile {
    pub open spec fn entries(&self) -> Seq<(Seq<char>, u64)> {
        pin_entries(self.pins@)
    }

    pub open spec fn well_formed(&self) -> bool {
        labels_sorted(self.entries())
    }

    pub open spec fn pin_map(&self) -> Map<Seq<char>, u64> {
        pin_map(self.entries())
    }

    /// The generation pinned under `label`.
    pub fn get(&self, label: &str) -> (r: Option<u64>)
        requires
            self.well_formed(),
        ensures
            r == (if self.pin_map().contains_key(label@) {
                Some(self.pin_map()[label@])
            } else {
                None
            }),
    {
        let mut i: usize = 0;
        while i < self.pins.len()
            invariant
                i <= self.pins.len(),
                self.well_formed(),
                forall|k: int| 0 <= k < i ==> #[trigger] self.entries()[k].0 != label@,
            decreases self.pins.len() - i,
        {
            if eq_str(self.pins[i].0.as_str(), label) {
                proof {
                    lemma_pin_map_at(self.entries(), i as int);
                }
                return Some(self.pins[i].1);
            }
            i = i + 1;
        }
        assert(!has_label(self.entries(), label@));
        None
    }

    /// Whether some generation is pinned under `label`.
    pub fn contains_key(&self, label: &str) -> (r: bool)
        requires
            self.well_formed(),
        ensures
            r == self.pin_map().contains_key(label@),
    {
        self.get(label).is_some()
    }

    /// Pins `generation` under `label`, replacing what the label pinned.
    pub fn insert(&mut self, label: &str, generation: u64)
        requires
            old(self).well_formed(),
        ensures
            final(self).well_formed(),
            final(self).pin_map() == old(self).pin_map().insert(label@, generation),
    {
        let ghost s0 = self.entries();
        let mut i: usize = 0;
        while i < self.pins.len() && str_less(self.pins[i].0.as_str(), label)
            invariant
                i <= self.pins.len(),
                self.entries() == s0,
                labels_sorted(s0),
                forall|k: int| 0 <= k < i ==> chars_less(#[trigger] s0[k].0, label@),
            decreases self.pins.len() - i,
        {
            i = i + 1;
        }
        let ghost l = label@;
        if i < self.pins.len() && eq_str(self.pins[i].0.as_str(), label) {
            self.pins.set(i, (label.to_owned(), generation));
            let ghost s1 = self.entries();
            assert(s1 =~= s0.update(i as int, (l, generation)));
            assert forall|a: int| 0 <= a < s1.len() implies (#[trigger] s1[a]).0 == s0[a].0 by {}
            assert(labels_sorted(s1));
            let ghost m = pin_map(s0).insert(l, generation);
            assert forall|k: int| 0 <= k < s1.len() implies m.contains_key(#[trigger] s1[k].0) && m[s1[k].0]
                == s1[k].1 by {
                if k != i {
                    assert(s1[k] == s0[k]);
                    if s0[k].0 == l {
                        if k < i {
                            assert(chars_less(s0[k].0, s0[i as int].0));
                        } else {
                            assert(chars_less(s0[i as int].0, s0[k].0));
                        }
                        lemma_chars_less_irreflexive(l);
                    }
                    lemma_pin_map_at(s0, k);
                }
            }
            assert forall|x: Seq<char>| #[trigger] m.contains_key(x) implies has_label(s1, x) by {
                if x == l {
                    assert(s1[i as int].0 == l);
                } else {
                    let k = label_index(s0, x);
                    assert(s1[k].0 == x);
                }
            }
            proof { lemma_pin_map_ext(s1, m); }
        } else {
            proof {
                if i < s0.len() {
                    lemma_chars_less_total(s0[i as int].0, l);
                }
            }
            self.pins.insert(i, (label.to_owned(), generation));
            let ghost s1 = self.entries();
            assert(s1 =~= s0.insert(i as int, (l, generation)));
            assert forall|a: int, b: int| 0 <= a < b < s1.len() implies chars_less(
                #[trigger] s1[a].0,
                #[trigger] s1[b].0,
            ) by {
                if b == i {
                    assert(s1[a] == s0[a]);
                } else if a == i {
                    assert(s1[b] == s0[b - 1]);
                    if b - 1 > i {
                        assert(chars_less(s0[i as int].0, s0[b - 1].0));
                        lemma_chars_less_transitive(l, s0[i as int].0, s0[b - 1].0);
                    }
                } else if a < i && b > i {
                    assert(s1[b] == s0[b - 1]);
                    if b - 1 > i {
                        assert(chars_less(s0[i as int].0, s0[b - 1].0));
                        lemma_chars_less_transitive(l, s0[i as int].0, s0[b - 1].0);
                    }
                    lemma_chars_less_transitive(s0[a].0, l, s0[b - 1].0);
                } else if a > i {
                    assert(s1[a] == s0[a - 1] && s1[b] == s0[b - 1]);
                } else {
                    assert(s1[a] == s0[a] && s1[b] == s0[b]);
                }
            }
            assert(!has_label(s0, l)) by {
                if has_label(s0, l) {
                    let k = label_index(s0, l);
                    if k < i {
                        lemma_chars_less_irreflexive(l);
                    } else if k > i {
                        assert(chars_less(s0[i as int].0, s0[k].0));
                        lemma_chars_less_transitive(l, s0[i as int].0, s0[k].0);
                        lemma_chars_less_irreflexive(l);
                    }
                }
            }
            let ghost m = pin_map(s0).insert(l, generation);
            assert forall|k: int| 0 <= k < s1.len() implies m.contains_key(#[trigger] s1[k].0) && m[s1[k].0]
                == s1[k].1 by {
                if k < i {
                    assert(s1[k] == s0[k]);
                    assert(chars_less(s0[k].0, l));
                    if s0[k].0 == l {
                        lemma_chars_less_irreflexive(l);
                    }
                    lemma_pin_map_at(s0, k);
                } else if k > i {
                    assert(s1[k] == s0[k - 1]);
                    assert(chars_less(l, s0[k - 1].0)) by {
                        if k - 1 > i {
                            assert(chars_less(s0[i as int].0, s0[k - 1].0));
                            lemma_chars_less_transitive(l, s0[i as int].0, s0[k - 1].0);
                        }
                    }
                    if s0[k - 1].0 == l {
                        lemma_chars_less_irreflexive(l);
                    }
                    lemma_pin_map_at(s0, k - 1);
                }
            }
            assert forall|x: Seq<char>| #[trigger] m.contains_key(x) implies has_label(s1, x) by {
                if x == l {
                    assert(s1[i as int].0 == l);
                } else {
                    let k = label_index(s0, x);
                    if k < i {
                        assert(s1[k].0 == x);
                    } else {
                        assert(s1[k + 1].0 == x);
                    }
                }
            }
            proof { lemma_pin_map_ext(s1, m); }
        }
    }
}

impl Default for PinsFile {
    fn default() -> (r: PinsFile)
        ensures
            r.pins@.len() == 0,
            r.well_formed(),
            r.pin_map() == Map::<Seq<char>, u64>::empty(),
    {
        let r = PinsFile { pins: Vec::new() };
        assert(r.pin_map() =~= Map::<Seq<char>, u64>::empty());
        r
    }
}

pub open spec fn pin_exists_message(label: Seq<char>) -> Seq<char> {
    "pin label already exists: "@ + label + ". Use --force to overwrite."@
}

/// Pins `generation` under the trimmed `label` in `pins` and gives back the
/// new pins; an existing label is replaced only with `force`.
pub fn pin_generation(generation: u64, label: &str, force: bool, pins: PinsFile) -> (r: Result<
    PinsFile,
    NrError,
>)
    requires
        pins.well_formed(),
    ensures
        trim(label@).len() == 0 ==> (r matches Err(NrError::Message(m)) && m@
            == "pin label cannot be empty."@),
        trim(label@).len() > 0 && pins.pin_map().contains_key(trim(label@)) && !force ==> (r matches Err(
            NrError::Message(m),
        ) && m@ == pin_exists_message(trim(label@))),
        trim(label@).len() > 0 && (!pins.pin_map().contains_key(trim(label@)) || force) ==> (r matches Ok(
            p,
        ) && p.well_formed() && p.pin_map() == pins.pin_map().insert(trim(label@), generation)),
{
    let label = trim_str(label);
    if chars_of(label.as_str()).len() == 0 {
        return Err(NrError::message("pin label cannot be empty."));
    }
    if pins.contains_key(label.as_str()) && !force {
        let m = concat3("pin label already exists: ", label.as_str(), ". Use --force to overwrite.");
        return Err(NrError::Message(m));
    }
    let mut pins = pins;
    pins.insert(label.as_str(), generation);
    Ok(pins)
}

/// A generation number, or the label of a pin.
pub fn resolve_generation_reference(reference: &str, pins: &PinsFile) -> (r: Result<u64, NrError>)
    requires
        pins.well_formed(),
    ensures
        parse_u64_spec(reference@) matches Some(n) ==> r == Ok::<u64, NrError>(n),
        parse_u64_spec(reference@) is None && pins.pin_map().contains_key(reference@) ==> r
            == Ok::<u64, NrError>(pins.pin_map()[reference@]),
        parse_u64_spec(reference@) is None && !pins.pin_map().contains_key(reference@) ==> (r matches Err(
            NrError::Message(m),
        ) && m@ == "unknown generation or pin: "@ + reference@),
{
    let chars = chars_of(reference);
    if let Some(generation) = parse_u64(chars.as_slice()) {
        return Ok(generation);
    }
    match pins.get(reference) {
        Some(generation) => Ok(generation),
        None => Err(NrError::Message(concat("unknown generation or pin: ", reference))),
    }
}

pub open spec fn generation_path_spec(generation: u64) -> Seq<char> {
    "/nix/var/nix/profiles/system-"@ + decimal(generation as nat) + "-link"@
}

/// The profile link of a system generation.
pub fn generation_path(generation: u64) -> (r: String)
    ensures
        r@ == generation_path_spec(generation),
{
    let n = u64_to_string(generation);
    concat3("/nix/var/nix/profiles/system-", n.as_str(), "-link")
}

/// The first generation marked current.
pub open spec fn current_index(s: Seq<SystemGeneration>) -> Option<int> {
    if exists|i: int| 0 <= i < s.len() && #[trigger] s[i].current {
        Some(
            choose|i: int|
                0 <= i < s.len() && #[trigger] s[i].current && forall|j: int|
                    0 <= j < i ==> !(#[trigger] s[j].current),
        )
    } else {
        None
    }
}

proof fn lemma_first_current(s: Seq<SystemGeneration>, i: int)
    requires
        0 <= i < s.len(),
        s[i].current,
        forall|j: int| 0 <= j < i ==> !(#[trigger] s[j].current),
    ensures
        current_index(s) == Some(i),
{
    let c = choose|c: int|
        0 <= c < s.len() && #[trigger] s[c].current && forall|j: int|
            0 <= j < c ==> !(#[trigger] s[j].current);
    assert(0 <= c < s.len() && s[c].current && forall|j: int| 0 <= j < c ==> !(#[trigger] s[j].current));
    if c < i {
    } else if c > i {
        assert(!s[i].current);
    }
}

/// The generation marked current, the first if several are.
pub fn current_generation(generations: &[SystemGeneration]) -> (r: Option<&SystemGeneration>)
    ensures
        match current_index(generations@) {
            Some(i) => r == Some(&generations@[i]),
            None => r is None,
        },
{
    let mut i: usize = 0;
    while i < generations.len()
        invariant
            i <= generations.len(),
            forall|j: int| 0 <= j < i ==> !(#[trigger] generations@[j].current),
        decreases generations.len() - i,
    {
        if generations[i].current {
            proof {
                lemma_first_current(generations@, i as int);
            }
            return Some(&generations[i]);
        }
        i = i + 1;
    }
    None
}

/// The first generation with the given number.
pub open spec fn number_index(s: Seq<SystemGeneration>, number: u64) -> Option<int> {
    if exists|i: int| 0 <= i < s.len() && #[trigger] s[i].generation == number {
        Some(
            choose|i: int|
                0 <= i < s.len() && #[trigger] s[i].generation == number && forall|j: int|
                    0 <= j < i ==> (#[trigger] s[j]).generation != number,
        )
    } else {
        None
    }
}

proof fn lemma_first_number(s: Seq<SystemGeneration>, number: u64, i: int)
    requires
        0 <= i < s.len(),
        s[i].generation == number,
        forall|j: int| 0 <= j < i ==> (#[trigger] s[j]).generation != number,
    ensures
        number_index(s, number) == Some(i),
{
    let c = choose|c: int|
        0 <= c < s.len() && #[trigger] s[c].generation == number && forall|j: int|
            0 <= j < c ==> (#[trigger] s[j]).generation != number;
    assert(0 <= c < s.len() && s[c].generation == number && forall|j: int|
        0 <= j < c ==> (#[trigger] s[j]).generation != number);
    if c < i {
    } else if c > i {
        assert(s[i].generation != number);
    }
}

/// The generation with the given number, the first if several have it.
pub fn generation_by_number(generations: &[SystemGeneration], number: u64) -> (r: Option<
    &SystemGeneration,
>)
    ensures
        match number_index(generations@, number) {
            Some(i) => r == Some(&generations@[i]),
            None => r is None,
        },
{
    let mut i: usize = 0;
    while i < generations.len()
        invariant
            i <= generations.len(),
            forall|j: int| 0 <= j < i ==> (#[trigger] generations@[j]).generation != number,
        decreases generations.len() - i,
    {
        if generations[i].generation == number {
            proof {
                lemma_first_number(generations@, number, i as int);
            }
            return Some(&generations[i]);
        }
        i = i + 1;
    }
    None
}

/// Whether generation `j` is the one `max_by_key` picks among the first
/// `n` below `limit`: the highest number, the last of equals.
pub open spec fn latest_below_upto(s: Seq<SystemGeneration>, limit: u64, j: int, n: int) -> bool {
    &&& 0 <= j < n <= s.len()
    &&& s[j].generation < limit
    &&& forall|k: int|
        0 <= k < n && (#[trigger] s[k]).generation < limit ==> s[k].generation <= s[j].generation
    &&& forall|k: int|
        j < k < n && (#[trigger] s[k]).generation < limit ==> s[k].generation < s[j].generation
}

pub open spec fn is_latest_below(s: Seq<SystemGeneration>, limit: u64, j: int) -> bool {
    latest_below_upto(s, limit, j, s.len() as int)
}

/// The generation just before the current one: the highest numbered one
/// below it.
pub fn previous_generation(generations: &[SystemGeneration]) -> (r: Option<&SystemGeneration>)
    ensures
        match current_index(generations@) {
            None => r is None,
            Some(c) => {
                let limit = generations@[c].generation;
                match r {
                    Some(g) => exists|j: int|
                        is_latest_below(generations@, limit, j) && generations@[j] == *g,
                    None => forall|k: int|
                        0 <= k < generations@.len() ==> (#[trigger] generations@[k]).generation
                            >= limit,
                }
            },
        },
{
    let current = match current_generation(generations) {
        Some(c) => c,
        None => return None,
    };
    let limit = current.generation;
    let mut best: Option<usize> = None;
    let mut i: usize = 0;
    while i < generations.len()
        invariant
            i <= generations.len(),
            match best {
                None => forall|k: int|
                    0 <= k < i ==> (#[trigger] generations@[k]).generation >= limit,
                Some(b) => latest_below_upto(generations@, limit, b as int, i as int),
            },
        decreases generations.len() - i,
    {
        let g = generations[i].generation;
        if g < limit {
            match best {
                None => {
                    best = Some(i);
                },
                Some(b) => {
                    if g >= generations[b].generation {
                        best = Some(i);
                    }
                },
            }
        }
        i = i + 1;
    }
    match best {
        Some(b) => Some(&generations[b]),
        None => None,
    }
}

/// The command that rolls back: to a chosen generation's profile link, or
/// to the previous one.
pub fn rollback_target_command(target: Option<u64>, options: &BackendOptions) -> (r: CommandSpec)
    ensures
        match target {
            Some(g) => is_command(
                r,
                "nixos-rebuild"@,
                seq!["switch"@, "--store-path"@, generation_path_spec(g)] + common_args(*options)
                    + elevation_args(*options) + extra_args(*options),
            ),
            None => is_command(
                r,
                "nixos-rebuild"@,
                seq!["switch"@, "--rollback"@] + common_args(*options) + elevation_args(*options)
                    + extra_args(*options),
            ),
        },
{
    match target {
        Some(generation) => {
            let path = generation_path(generation);
            rollback_to_store_path_command(path.as_str(), options)
        },
        None => rollback_command(options),
    }
}

/// The pins file inside the state directory.
pub fn pins_path(state_dir: &str) -> (r: String)
    ensures
        r@ == crate::text::join_path_spec(state_dir@, "pins.toml"@),
{
    crate::text::join_path(state_dir, "pins.toml")
}


/// The labels, in order, that pin `generation`.
pub open spec fn labels_for(s: Seq<(Seq<char>, u64)>, generation: u64) -> Seq<Seq<char>>
    decreases s.len(),
{
    if s.len() == 0 {
        Seq::empty()
    } else if s.last().1 == generation {
        labels_for(s.drop_last(), generation).push(s.last().0)
    } else {
        labels_for(s.drop_last(), generation)
    }
}

/// The labels that pin `generation`, joined by ", " for the listing.
pub fn pin_labels(pins: &PinsFile, generation: u64) -> (r: String)
    ensures
        r@ == join(labels_for(pins.entries(), generation), ", "@),
{
    let mut labels: Vec<String> = Vec::new();
    let mut i: usize = 0;
    while i < pins.pins.len()
        invariant
            i <= pins.pins.len(),
            strs(labels@) == labels_for(pins.entries().take(i as int), generation),
        decreases pins.pins.len() - i,
    {
        let ghost before = labels@;
        assert(pins.entries().take(i + 1).drop_last() =~= pins.entries().take(i as int));
        if pins.pins[i].1 == generation {
            labels.push(pins.pins[i].0.clone());
            proof {
                lemma_strs_push(before, pins.pins@[i as int].0);
            }
        }
        i = i + 1;
    }
    assert(pins.entries().take(pins.pins.len() as int) =~= pins.entries());
    join_strings(labels.as_slice(), ", ")
}

/// The heading of `nr generations`.
pub fn generations_header() -> (r: &'static str)
    ensures
        r@ == "Generation  Build-date           NixOS version            Kernel   Current  Pin"@,
{
    "Generation  Build-date           NixOS version            Kernel   Current  Pin"
}

/// One row of `nr generations`: the generation's columns padded to the
/// heading, then the labels that pin it.
pub fn generation_row(g: &SystemGeneration, pins: &PinsFile) -> (r: String)
    ensures
        r@ == crate::snapshot::padded(crate::text::decimal(g.generation as nat), 10) + "  "@
            + crate::snapshot::padded(g.date@, 19) + "  "@ + crate::snapshot::padded(g.nixos_version@, 23)
            + "  "@ + crate::snapshot::padded(g.kernel_version@, 7) + "  "@ + crate::snapshot::padded(
            if g.current { "yes"@ } else { "no"@ },
            7,
        ) + "  "@ + join(labels_for(pins.entries(), g.generation), ", "@),
{
    let mut r = crate::snapshot::pad_right(crate::text::u64_to_string(g.generation).as_str(), 10);
    r.append("  ");
    r.append(crate::snapshot::pad_right(g.date.as_str(), 19).as_str());
    r.append("  ");
    r.append(crate::snapshot::pad_right(g.nixos_version.as_str(), 23).as_str());
    r.append("  ");
    r.append(crate::snapshot::pad_right(g.kernel_version.as_str(), 7).as_str());
    r.append("  ");
    r.append(crate::snapshot::pad_right(if g.current { "yes" } else { "no" }, 7).as_str());
    r.append("  ");
    r.append(pin_labels(pins, g.generation).as_str());
    r
}

/// What `pin_generation` wrote is what a later lookup of the label reads:
/// the trimmed label then names the pinned generation, and every other
/// label keeps what it named.
pub proof fn lemma_pinned_label_resolves(pins: PinsFile, label: Seq<char>, generation: u64, after: PinsFile, other: Seq<char>)
    requires
        after.pin_map() == pins.pin_map().insert(trim(label), generation),
    ensures
        after.pin_map().contains_key(trim(label)),
        after.pin_map()[trim(label)] == generation,
        other != trim(label) ==> (after.pin_map().contains_key(other) == pins.pin_map().contains_key(other)),
        other != trim(label) && pins.pin_map().contains_key(other) ==> after.pin_map()[other]
            == pins.pin_map()[other],
{
}

} // verus!
