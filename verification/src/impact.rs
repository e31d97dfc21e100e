use vstd::prelude::*;
use vstd::string::*;

use crate::text::{
    chars_of, contains, contains_str as includes, eq_str, lemma_strs_push, lines, lines_of, lowercase,
    starts_with, starts_with_str, string_of_range, strs, to_lowercase, trim, trim_str,
};

verus! {

pub open spec fn opt_view(o: Option<String>) -> Option<Seq<char>> {
    match o {
        Some(s) => Some(s@),
        None => None,
    }
}

/// What `nix store diff-closures` reported, sorted into kinds of change.
#[derive(Clone, Debug)]
pub struct ClosureDiff {
    pub raw: String,
    pub additions: Vec<String>,
    pub removals: Vec<String>,
    pub upgrades: Vec<String>,
    pub downgrades: Vec<String>,
    pub changes: Vec<String>,
    pub important: Vec<String>,
    pub size_delta: Option<String>,
    pub unavailable: Option<String>,
}

#[verifier::ext_equal]
pub struct ClosureDiffView {
    pub raw: Seq<char>,
    pub additions: Seq<Seq<char>>,
    pub removals: Seq<Seq<char>>,
    pub upgrades: Seq<Seq<char>>,
    pub downgrades: Seq<Seq<char>>,
    pub changes: Seq<Seq<char>>,
    pub important: Seq<Seq<char>>,
    pub size_delta: Option<Seq<char>>,
    pub unavailable: Option<Seq<char>>,
}

impl View for ClosureDiff {
    type V = ClosureDiffView;

    open spec fn view(&self) -> ClosureDiffView {
        ClosureDiffView {
            raw: self.raw@,
            additions: strs(self.additions@),
            removals: strs(self.removals@),
            upgrades: strs(self.upgrades@),
            downgrades: strs(self.downgrades@),
            changes: strs(self.changes@),
            important: strs(self.important@),
            size_delta: opt_view(self.size_delta),
            unavailable: opt_view(self.unavailable),
        }
    }
}

impl ClosureDiff {
    /// A diff with nothing in it but the given raw text and reason.
    pub fn empty_with(raw: String, unavailable: Option<String>) -> (r: ClosureDiff)
        ensures
            r@.raw == raw@,
            r@.unavailable == opt_view(unavailable),
            r@.additions.len() == 0 && r@.removals.len() == 0 && r@.upgrades.len() == 0,
            r@.downgrades.len() == 0 && r@.changes.len() == 0 && r@.important.len() == 0,
            r@.size_delta is None,
    {
        ClosureDiff {
            raw,
            additions: Vec::new(),
            removals: Vec::new(),
            upgrades: Vec::new(),
            downgrades: Vec::new(),
            changes: Vec::new(),
            important: Vec::new(),
            size_delta: None,
            unavailable,
        }
    }

    /// Whether any package was added, removed or changed.
    pub fn changed(&self) -> (r: bool)
        ensures
            r == !(self@.additions.len() == 0 && self@.removals.len() == 0 && self@.upgrades.len()
                == 0 && self@.downgrades.len() == 0 && self@.changes.len() == 0),
    {
        !(self.additions.len() == 0 && self.removals.len() == 0 && self.upgrades.len() == 0
            && self.downgrades.len() == 0 && self.changes.len() == 0)
    }
}

/// Lowercased text that names a component whose change matters.
pub open spec fn is_important_text(l: Seq<char>) -> bool {
    contains(l, "kernel"@) || contains(l, "linux"@) || contains(l, "systemd"@) || contains(
        l,
        "bootloader"@,
    ) || contains(l, "grub"@) || contains(l, "systemd-boot"@) || contains(l, "gdm"@) || contains(
        l,
        "sddm"@,
    ) || contains(l, "display-manager"@) || contains(l, "mesa"@) || contains(l, "nvidia"@)
        || contains(l, "networkmanager"@) || contains(l, "openssh"@) || contains(l, "openssl"@)
        || contains(l, "sudo"@) || contains(l, "pam"@) || contains(l, "polkit"@) || contains(
        l,
        "zfs"@,
    ) || contains(l, "btrfs"@) || contains(l, "bash"@) || contains(l, "fish"@) || contains(
        l,
        "zsh"@,
    )
}

fn important_text(l: &str) -> (r: bool)
    ensures
        r == is_important_text(l@),
{
    includes(l, "kernel") || includes(l, "linux") || includes(l, "systemd") || includes(l, "bootloader") || includes(
        l,
        "grub",
    ) || includes(l, "systemd-boot") || includes(l, "gdm") || includes(l, "sddm") || includes(l, "display-manager")
        || includes(l, "mesa") || includes(l, "nvidia") || includes(l, "networkmanager") || includes(l, "openssh")
        || includes(l, "openssl") || includes(l, "sudo") || includes(l, "pam") || includes(l, "polkit") || includes(
        l,
        "zfs",
    ) || includes(l, "btrfs") || includes(l, "bash") || includes(l, "fish") || includes(l, "zsh")
}

/// The part of a trimmed line of `diff-closures` output that decides whether
/// it names an important component: the item after a leading `+` or `-`,
/// trimmed, and the whole line otherwise.
pub open spec fn diff_item(line: Seq<char>) -> Seq<char> {
    if line.len() > 0 && (line[0] == '+' || line[0] == '-') {
        trim(line.drop_first())
    } else {
        line
    }
}

/// `important` with `item` added when its lowercased form `lower_item` names
/// an important component and it is not there yet.
pub open spec fn remember(important: Seq<Seq<char>>, item: Seq<char>, lower_item: Seq<char>) -> Seq<
    Seq<char>,
> {
    if is_important_text(lower_item) && !important.contains(item) {
        important.push(item)
    } else {
        important
    }
}

/// How one trimmed line of `diff-closures` output changes the diff, given
/// the line lowercased and its item (`diff_item`) lowercased.
pub open spec fn closure_step(
    d: ClosureDiffView,
    line: Seq<char>,
    lower: Seq<char>,
    lower_item: Seq<char>,
) -> ClosureDiffView {
    if line.len() == 0 {
        d
    } else if starts_with(lower, "closure size:"@) {
        ClosureDiffView { size_delta: Some(line), ..d }
    } else if line[0] == '+' {
        let item = trim(line.drop_first());
        ClosureDiffView {
            additions: d.additions.push(item),
            important: remember(d.important, item, lower_item),
            ..d
        }
    } else if line[0] == '-' {
        let item = trim(line.drop_first());
        ClosureDiffView {
            removals: d.removals.push(item),
            important: remember(d.important, item, lower_item),
            ..d
        }
    } else if contains(line, "->"@) || contains(line, "→"@) {
        let down = contains(lower, "downgrade"@) || contains(lower, "↓"@);
        let up = contains(lower, "upgrade"@) || contains(lower, "↑"@);
        if down {
            ClosureDiffView {
                downgrades: d.downgrades.push(line),
                important: remember(d.important, line, lower_item),
                ..d
            }
        } else if up || !contains(lower, "downgrade"@) {
            ClosureDiffView {
                upgrades: d.upgrades.push(line),
                important: remember(d.important, line, lower_item),
                ..d
            }
        } else {
            ClosureDiffView {
                changes: d.changes.push(line),
                important: remember(d.important, line, lower_item),
                ..d
            }
        }
    } else {
        ClosureDiffView {
            changes: d.changes.push(line),
            important: remember(d.important, line, lower_item),
            ..d
        }
    }
}

/// The diff after the given lines, each trimmed first; `lw` holds, line by
/// line, the trimmed line lowercased and its item lowercased.
pub open spec fn closure_fold(
    d: ClosureDiffView,
    ls: Seq<Seq<char>>,
    lw: Seq<(Seq<char>, Seq<char>)>,
) -> ClosureDiffView
    decreases ls.len(),
{
    if ls.len() == 0 {
        d
    } else {
        closure_step(
            closure_fold(d, ls.drop_last(), lw.drop_last()),
            trim(ls.last()),
            lw.last().0,
            lw.last().1,
        )
    }
}

/// What each line lowercases to: the trimmed line, and its item.
pub open spec fn closure_lowering(ls: Seq<Seq<char>>) -> Seq<(Seq<char>, Seq<char>)> {
    ls.map_values(|l: Seq<char>| (lowercase(trim(l)), lowercase(diff_item(trim(l)))))
}

/// A pair of strings by their views.
pub open spec fn pair_views(v: Seq<(String, String)>) -> Seq<(Seq<char>, Seq<char>)> {
    v.map_values(|p: (String, String)| (p.0@, p.1@))
}

/// A diff of `output` with no line read yet.
pub open spec fn empty_diff(output: Seq<char>) -> ClosureDiffView {
    ClosureDiffView {
        raw: output,
        additions: Seq::empty(),
        removals: Seq::empty(),
        upgrades: Seq::empty(),
        downgrades: Seq::empty(),
        changes: Seq::empty(),
        important: Seq::empty(),
        size_delta: None,
        unavailable: None,
    }
}

pub open spec fn parse_closure_diff_spec(output: Seq<char>) -> ClosureDiffView {
    closure_fold(empty_diff(output), lines_of(output), closure_lowering(lines_of(output)))
}

fn push_string(v: &mut Vec<String>, s: String)
    ensures
        strs(final(v)@) == strs(old(v)@).push(s@),
{
    let ghost before = v@;
    let ghost sv = s@;
    v.push(s);
    assert(strs(v@) =~= strs(before).push(sv));
}

/// Whether a list of strings holds `item`.
pub fn contains_string(v: &Vec<String>, item: &str) -> (r: bool)
    ensures
        r == strs(v@).contains(item@),
{
    let mut i: usize = 0;
    while i < v.len()
        invariant
            i <= v.len(),
            forall|k: int| 0 <= k < i ==> strs(v@)[k] != item@,
        decreases v.len() - i,
    {
        if eq_str(v[i].as_str(), item) {
            assert(strs(v@)[i as int] == item@);
            return true;
        }
        i = i + 1;
    }
    false
}

fn remember_important(important: &mut Vec<String>, item: &str, lower_item: &str)
    ensures
        strs(final(important)@) == remember(strs(old(important)@), item@, lower_item@),
{
    if important_text(lower_item) && !contains_string(important, item) {
        push_string(important, item.to_owned());
    }
}

fn tail_trimmed(line: &str) -> (r: String)
    requires
        line@.len() > 0,
    ensures
        r@ == trim(line@.drop_first()),
{
    let v = chars_of(line);
    let rest = string_of_range(v.as_slice(), 1, v.len());
    assert(rest@ =~= line@.drop_first());
    trim_str(rest.as_str())
}

fn first_char(line: &str) -> (r: Option<char>)
    ensures
        line@.len() > 0 ==> r == Some(line@[0]),
        line@.len() == 0 ==> r is None,
{
    let v = chars_of(line);
    if v.len() > 0 {
        Some(v[0])
    } else {
        None
    }
}

/// The item of a trimmed line, as `diff_item` says.
fn item_of(line: &str) -> (r: String)
    ensures
        r@ == diff_item(line@),
{
    let first = first_char(line);
    if first == Some('+') || first == Some('-') {
        tail_trimmed(line)
    } else {
        line.to_owned()
    }
}

impl ClosureDiff {
    fn step(&mut self, line: &str, l: &str, lower_item: &str)
        ensures
            final(self)@ == closure_step(old(self)@, line@, l@, lower_item@),
    {
        if line.is_empty() {
            return;
        }
        if starts_with_str(l, "closure size:") {
            self.size_delta = Some(line.to_owned());
            return;
        }
        let first = first_char(line);
        if first == Some('+') {
            let item = tail_trimmed(line);
            push_string(&mut self.additions, item.clone());
            remember_important(&mut self.important, item.as_str(), lower_item);
            return;
        }
        if first == Some('-') {
            let item = tail_trimmed(line);
            push_string(&mut self.removals, item.clone());
            remember_important(&mut self.important, item.as_str(), lower_item);
            return;
        }
        if includes(line, "->") || includes(line, "→") {
            let down = includes(l, "downgrade") || includes(l, "↓");
            let up = includes(l, "upgrade") || includes(l, "↑");
            if down {
                push_string(&mut self.downgrades, line.to_owned());
            } else if up || !includes(l, "downgrade") {
                push_string(&mut self.upgrades, line.to_owned());
            } else {
                push_string(&mut self.changes, line.to_owned());
            }
            remember_important(&mut self.important, line, lower_item);
            return;
        }
        push_string(&mut self.changes, line.to_owned());
        remember_important(&mut self.important, line, lower_item);
    }
}

/// Sorts `nix store diff-closures` output as `parse_closure_diff` does,
/// with the lowercasing done by the caller: `lowered` holds, for each line of
/// `output` in turn, the trimmed line lowercased and its item (`diff_item`)
/// lowercased. `None` when `lowered` does not have one entry per line.
pub fn parse_closure_diff_lowered(output: &str, lowered: &Vec<(String, String)>) -> (r: Option<
    ClosureDiff,
>)
    ensures
        r is Some <==> lowered@.len() == lines_of(output@).len(),
        r matches Some(d) ==> d@ == closure_fold(
            empty_diff(output@),
            lines_of(output@),
            pair_views(lowered@),
        ),
{
    let ls = lines(output);
    if ls.len() != lowered.len() {
        return None;
    }
    let mut diff = ClosureDiff::empty_with(output.to_owned(), None);
    let ghost init = diff@;
    let ghost lw = pair_views(lowered@);
    assert(init =~= empty_diff(output@));
    assert(init == closure_fold(init, strs(ls@).take(0), lw.take(0)));
    let mut i: usize = 0;
    while i < ls.len()
        invariant
            i <= ls.len(),
            ls.len() == lowered.len(),
            lw == pair_views(lowered@),
            diff@ == closure_fold(init, strs(ls@).take(i as int), lw.take(i as int)),
        decreases ls.len() - i,
    {
        let line = trim_str(ls[i].as_str());
        assert(strs(ls@).take(i + 1).drop_last() =~= strs(ls@).take(i as int));
        assert(strs(ls@).take(i + 1).last() == ls@[i as int]@);
        assert(lw.take(i + 1).drop_last() =~= lw.take(i as int));
        assert(lw.take(i + 1).last() == (lowered@[i as int].0@, lowered@[i as int].1@));
        diff.step(line.as_str(), lowered[i].0.as_str(), lowered[i].1.as_str());
        i = i + 1;
    }
    assert(strs(ls@).take(ls.len() as int) =~= strs(ls@));
    assert(lw.take(ls.len() as int) =~= lw);
    Some(diff)
}

/// Sorts `nix store diff-closures` output into additions, removals,
/// upgrades, downgrades and other changes, and picks out the important ones.
pub fn parse_closure_diff(output: &str) -> (r: ClosureDiff)
    ensures
        r@ == parse_closure_diff_spec(output@),
{
    let ls = lines(output);
    let ghost want = closure_lowering(strs(ls@));
    let mut lowered: Vec<(String, String)> = Vec::new();
    let mut i: usize = 0;
    while i < ls.len()
        invariant
            i <= ls.len(),
            want == closure_lowering(strs(ls@)),
            pair_views(lowered@) == want.take(i as int),
        decreases ls.len() - i,
    {
        let line = trim_str(ls[i].as_str());
        let item = item_of(line.as_str());
        let pair = (to_lowercase(line.as_str()), to_lowercase(item.as_str()));
        assert(strs(ls@)[i as int] == ls@[i as int]@);
        assert(want[i as int] == (pair.0@, pair.1@));
        let ghost before = lowered@;
        lowered.push(pair);
        assert(lowered@ == before.push(pair));
        assert(pair_views(lowered@) =~= pair_views(before).push((pair.0@, pair.1@)));
        assert(pair_views(lowered@) =~= want.take(i + 1));
        i = i + 1;
    }
    assert(want.take(ls.len() as int) =~= want);
    match parse_closure_diff_lowered(output, &lowered) {
        Some(d) => d,
        None => {
            proof {
                assert(false);
            }
            ClosureDiff::empty_with(output.to_owned(), None)
        },
    }
}


/// The diff of a run of `nix store diff-closures` that exited with `code`
/// other than 0: no changes, both outputs kept as the raw text, and the exit
/// code as the reason the diff is unavailable.
pub open spec fn failed_diff(code: i32, stdout: Seq<char>, stderr: Seq<char>) -> ClosureDiffView {
    ClosureDiffView {
        raw: stdout + stderr,
        unavailable: Some(
            "nix store diff-closures exited with "@ + crate::text::signed_decimal(code as int),
        ),
        ..empty_diff(Seq::empty())
    }
}

/// The diff that a run of `nix store diff-closures` gives: its output read
/// when it exited with 0, and `failed_diff` otherwise.
pub fn closure_diff_from_run(code: i32, stdout: &str, stderr: &str) -> (r: ClosureDiff)
    ensures
        code == 0 ==> r@ == parse_closure_diff_spec(stdout@),
        code != 0 ==> r@ == failed_diff(code, stdout@, stderr@),
{
    if code != 0 {
        let mut raw = stdout.to_owned();
        raw.append(stderr);
        let mut reason = "nix store diff-closures exited with ".to_owned();
        reason.append(crate::text::i32_to_string(code).as_str());
        let d = ClosureDiff::empty_with(raw, Some(reason));
        assert(d@ =~= failed_diff(code, stdout@, stderr@));
        return d;
    }
    parse_closure_diff(stdout)
}

/// What `nixos-rebuild dry-activate` says it would do to systemd units.
#[derive(Clone, Debug)]
pub struct ActivationImpact {
    pub raw: String,
    pub stopped: Vec<String>,
    pub started: Vec<String>,
    pub restarted: Vec<String>,
    pub reloaded: Vec<String>,
    pub skipped: Vec<String>,
    pub failed: Vec<String>,
    pub caveats: Vec<String>,
    pub unavailable: Option<String>,
}

#[verifier::ext_equal]
pub struct ActivationView {
    pub raw: Seq<char>,
    pub stopped: Seq<Seq<char>>,
    pub started: Seq<Seq<char>>,
    pub restarted: Seq<Seq<char>>,
    pub reloaded: Seq<Seq<char>>,
    pub skipped: Seq<Seq<char>>,
    pub failed: Seq<Seq<char>>,
    pub caveats: Seq<Seq<char>>,
    pub unavailable: Option<Seq<char>>,
}

impl View for ActivationImpact {
    type V = ActivationView;

    open spec fn view(&self) -> ActivationView {
        ActivationView {
            raw: self.raw@,
            stopped: strs(self.stopped@),
            started: strs(self.started@),
            restarted: strs(self.restarted@),
            reloaded: strs(self.reloaded@),
            skipped: strs(self.skipped@),
            failed: strs(self.failed@),
            caveats: strs(self.caveats@),
            unavailable: opt_view(self.unavailable),
        }
    }
}

/// The list that indented continuation lines add to.
#[derive(Clone, Copy, PartialEq, Eq, Structural)]
pub enum Section {
    Stopped,
    Started,
    Restarted,
    Reloaded,
    Skipped,
    Failed,
}

pub open spec fn is_unit_name(u: Seq<char>) -> bool {
    crate::text::ends_with(u, ".service"@) || crate::text::ends_with(u, ".target"@)
        || crate::text::ends_with(u, ".socket"@)
}

/// The trimmed pieces that name units.
pub open spec fn unit_pieces(ps: Seq<Seq<char>>) -> Seq<Seq<char>>
    decreases ps.len(),
{
    if ps.len() == 0 {
        Seq::empty()
    } else if is_unit_name(trim(ps.last())) {
        unit_pieces(ps.drop_last()).push(trim(ps.last()))
    } else {
        unit_pieces(ps.drop_last())
    }
}

/// The unit names in a text whose words are separated by commas, spaces or tabs.
pub open spec fn split_units_spec(text: Seq<char>) -> Seq<Seq<char>> {
    unit_pieces(crate::text::split_on(text, crate::text::sep3(',', ' ', '\t')))
}

/// The unit names after the first `:` of a line.
pub open spec fn units_after_colon_spec(line: Seq<char>) -> Seq<Seq<char>> {
    match crate::text::find_char_from(line, ':', 0) {
        None => Seq::empty(),
        Some(i) => split_units_spec(line.skip(i + 1)),
    }
}

/// The values in order, each kept at its first occurrence only.
pub open spec fn dedup(s: Seq<Seq<char>>) -> Seq<Seq<char>>
    decreases s.len(),
{
    if s.len() == 0 {
        s
    } else if dedup(s.drop_last()).contains(s.last()) {
        dedup(s.drop_last())
    } else {
        dedup(s.drop_last()).push(s.last())
    }
}

pub open spec fn starts_with_ws(s: Seq<char>) -> bool {
    s.len() > 0 && crate::text::is_ws(s[0])
}

/// How one line of dry-activation output changes the impact and the
/// current section, given the trimmed line lowercased.
pub open spec fn activation_step(
    st: (ActivationView, Option<Section>),
    untrimmed: Seq<char>,
    lower: Seq<char>,
) -> (ActivationView, Option<Section>) {
    let (a, section) = st;
    let line = trim(untrimmed);
    if line.len() == 0 {
        st
    } else if contains(lower, "would restart"@) || contains(lower, "restart the following"@) {
        (
            ActivationView { restarted: a.restarted + units_after_colon_spec(line), ..a },
            Some(Section::Restarted),
        )
    } else if contains(lower, "would reload"@) || contains(lower, "reload the following"@) {
        (
            ActivationView { reloaded: a.reloaded + units_after_colon_spec(line), ..a },
            Some(Section::Reloaded),
        )
    } else if contains(lower, "would stop"@) || contains(lower, "stop the following"@) {
        (
            ActivationView { stopped: a.stopped + units_after_colon_spec(line), ..a },
            Some(Section::Stopped),
        )
    } else if contains(lower, "would start"@) || contains(lower, "start the following"@) {
        (
            ActivationView { started: a.started + units_after_colon_spec(line), ..a },
            Some(Section::Started),
        )
    } else if contains(lower, "skip"@) {
        let units = units_after_colon_spec(line);
        (
            ActivationView {
                skipped: if units.len() == 0 {
                    a.skipped.push(line)
                } else {
                    a.skipped + units
                },
                ..a
            },
            Some(Section::Skipped),
        )
    } else if contains(lower, "failed"@) || contains(lower, "error"@) {
        (ActivationView { failed: a.failed.push(line), ..a }, Some(Section::Failed))
    } else if contains(lower, "user"@) || contains(lower, "warning"@) || contains(lower, "caveat"@) {
        (ActivationView { caveats: a.caveats.push(line), ..a }, None)
    } else if starts_with_ws(untrimmed) {
        (
            match section {
                Some(Section::Stopped) => ActivationView {
                    stopped: a.stopped + split_units_spec(line),
                    ..a
                },
                Some(Section::Started) => ActivationView {
                    started: a.started + split_units_spec(line),
                    ..a
                },
                Some(Section::Restarted) => ActivationView {
                    restarted: a.restarted + split_units_spec(line),
                    ..a
                },
                Some(Section::Reloaded) => ActivationView {
                    reloaded: a.reloaded + split_units_spec(line),
                    ..a
                },
                Some(Section::Skipped) => ActivationView {
                    skipped: a.skipped + split_units_spec(line),
                    ..a
                },
                Some(Section::Failed) => ActivationView { failed: a.failed.push(line), ..a },
                None => a,
            },
            section,
        )
    } else {
        st
    }
}

/// The impact and section after the given lines; `lw` holds, line by line,
/// the trimmed line lowercased.
pub open spec fn activation_fold(
    st: (ActivationView, Option<Section>),
    ls: Seq<Seq<char>>,
    lw: Seq<Seq<char>>,
) -> (ActivationView, Option<Section>)
    decreases ls.len(),
{
    if ls.len() == 0 {
        st
    } else {
        activation_step(activation_fold(st, ls.drop_last(), lw.drop_last()), ls.last(), lw.last())
    }
}

/// What each line lowercases to, once trimmed.
pub open spec fn activation_lowering(ls: Seq<Seq<char>>) -> Seq<Seq<char>> {
    ls.map_values(|l: Seq<char>| lowercase(trim(l)))
}

/// An impact of `output` with no line read yet.
pub open spec fn empty_activation(output: Seq<char>) -> ActivationView {
    ActivationView {
        raw: output,
        stopped: Seq::empty(),
        started: Seq::empty(),
        restarted: Seq::empty(),
        reloaded: Seq::empty(),
        skipped: Seq::empty(),
        failed: Seq::empty(),
        caveats: Seq::empty(),
        unavailable: None,
    }
}

/// The impact read from `output` with the lowercased lines `lw`, each list
/// without repeats.
pub open spec fn activation_outcome(output: Seq<char>, lw: Seq<Seq<char>>) -> ActivationView {
    let a = activation_fold((empty_activation(output), None), lines_of(output), lw).0;
    ActivationView {
        stopped: dedup(a.stopped),
        started: dedup(a.started),
        restarted: dedup(a.restarted),
        reloaded: dedup(a.reloaded),
        skipped: dedup(a.skipped),
        failed: dedup(a.failed),
        caveats: dedup(a.caveats),
        ..a
    }
}

pub open spec fn parse_activation_impact_spec(output: Seq<char>) -> ActivationView {
    activation_outcome(output, activation_lowering(lines_of(output)))
}

fn is_unit_name_exec(u: &str) -> (r: bool)
    ensures
        r == is_unit_name(u@),
{
    crate::text::ends_with_str(u, ".service") || crate::text::ends_with_str(u, ".target")
        || crate::text::ends_with_str(u, ".socket")
}

/// The unit names among the words of a text.
pub fn split_units(text: &str) -> (r: Vec<String>)
    ensures
        strs(r@) == split_units_spec(text@),
{
    let v = chars_of(text);
    let pieces = crate::text::split3(v.as_slice(), ',', ' ', '\t');
    let mut out: Vec<String> = Vec::new();
    let mut i: usize = 0;
    assert(strs(out@) =~= unit_pieces(strs(pieces@).take(0)));
    while i < pieces.len()
        invariant
            i <= pieces.len(),
            strs(out@) == unit_pieces(strs(pieces@).take(i as int)),
        decreases pieces.len() - i,
    {
        let piece = trim_str(pieces[i].as_str());
        assert(strs(pieces@).take(i + 1).drop_last() =~= strs(pieces@).take(i as int));
        assert(strs(pieces@).take(i + 1).last() == pieces@[i as int]@);
        if is_unit_name_exec(piece.as_str()) {
            push_string(&mut out, piece);
        }
        i = i + 1;
    }
    assert(strs(pieces@).take(pieces.len() as int) =~= strs(pieces@));
    out
}

/// The unit names after the first `:` of a line.
pub fn units_after_colon(line: &str) -> (r: Vec<String>)
    ensures
        strs(r@) == units_after_colon_spec(line@),
{
    let v = chars_of(line);
    match crate::text::find_char_from_exec(v.as_slice(), ':', 0) {
        None => Vec::new(),
        Some(i) => {
            proof {
                crate::text::lemma_find_char_from(v@, ':', 0);
                assert(crate::text::find_char_from(v@, ':', 0) == Some(i as int));
            }
            assert(i < v.len());
            let rest = string_of_range(v.as_slice(), i + 1, v.len());
            assert(rest@ =~= line@.skip(i + 1));
            split_units(rest.as_str())
        },
    }
}

fn extend_owned(v: &mut Vec<String>, more: Vec<String>)
    ensures
        strs(final(v)@) == strs(old(v)@) + strs(more@),
{
    crate::text::extend_strings(v, more.as_slice());
}

/// Keeps each value at its first occurrence.
pub fn dedup_strings(values: &Vec<String>) -> (r: Vec<String>)
    ensures
        strs(r@) == dedup(strs(values@)),
{
    let mut out: Vec<String> = Vec::new();
    let mut i: usize = 0;
    assert(strs(out@) =~= dedup(strs(values@).take(0)));
    while i < values.len()
        invariant
            i <= values.len(),
            strs(out@) == dedup(strs(values@).take(i as int)),
        decreases values.len() - i,
    {
        assert(strs(values@).take(i + 1).drop_last() =~= strs(values@).take(i as int));
        assert(strs(values@).take(i + 1).last() == values@[i as int]@);
        if !contains_string(&out, values[i].as_str()) {
            push_string(&mut out, values[i].clone());
        }
        i = i + 1;
    }
    assert(strs(values@).take(values.len() as int) =~= strs(values@));
    out
}

impl ActivationImpact {
    fn step(&mut self, section: Option<Section>, untrimmed: &str, l: &str) -> (r: Option<Section>)
        ensures
            (final(self)@, r) == activation_step((old(self)@, section), untrimmed@, l@),
    {
        let line = trim_str(untrimmed);
        if line.as_str().is_empty() {
            return section;
        }
        if includes(l, "would restart") || includes(l, "restart the following") {
            extend_owned(&mut self.restarted, units_after_colon(line.as_str()));
            Some(Section::Restarted)
        } else if includes(l, "would reload") || includes(l, "reload the following") {
            extend_owned(&mut self.reloaded, units_after_colon(line.as_str()));
            Some(Section::Reloaded)
        } else if includes(l, "would stop") || includes(l, "stop the following") {
            extend_owned(&mut self.stopped, units_after_colon(line.as_str()));
            Some(Section::Stopped)
        } else if includes(l, "would start") || includes(l, "start the following") {
            extend_owned(&mut self.started, units_after_colon(line.as_str()));
            Some(Section::Started)
        } else if includes(l, "skip") {
            let units = units_after_colon(line.as_str());
            if units.len() == 0 {
                push_string(&mut self.skipped, line);
            } else {
                extend_owned(&mut self.skipped, units);
            }
            Some(Section::Skipped)
        } else if includes(l, "failed") || includes(l, "error") {
            push_string(&mut self.failed, line);
            Some(Section::Failed)
        } else if includes(l, "user") || includes(l, "warning") || includes(l, "caveat") {
            push_string(&mut self.caveats, line);
            None
        } else if starts_with_whitespace(untrimmed) {
            match section {
                Some(Section::Stopped) => extend_owned(&mut self.stopped, split_units(line.as_str())),
                Some(Section::Started) => extend_owned(&mut self.started, split_units(line.as_str())),
                Some(Section::Restarted) => extend_owned(
                    &mut self.restarted,
                    split_units(line.as_str()),
                ),
                Some(Section::Reloaded) => extend_owned(
                    &mut self.reloaded,
                    split_units(line.as_str()),
                ),
                Some(Section::Skipped) => extend_owned(&mut self.skipped, split_units(line.as_str())),
                Some(Section::Failed) => push_string(&mut self.failed, line),
                None => {},
            }
            section
        } else {
            section
        }
    }
}

fn starts_with_whitespace(s: &str) -> (r: bool)
    ensures
        r == starts_with_ws(s@),
{
    match first_char(s) {
        Some(c) => crate::text::is_whitespace(c),
        None => false,
    }
}

/// Reads dry-activation output as `parse_activation_impact` does, with the
/// lowercasing done by the caller: `lowered` holds, for each line of `output`
/// in turn, the trimmed line lowercased. `None` when `lowered` does not have
/// one entry per line.
pub fn parse_activation_impact_lowered(output: &str, lowered: &Vec<String>) -> (r: Option<
    ActivationImpact,
>)
    ensures
        r is Some <==> lowered@.len() == lines_of(output@).len(),
        r matches Some(a) ==> a@ == activation_outcome(output@, strs(lowered@)),
{
    let ls = lines(output);
    if ls.len() != lowered.len() {
        return None;
    }
    let mut impact = ActivationImpact {
        raw: output.to_owned(),
        stopped: Vec::new(),
        started: Vec::new(),
        restarted: Vec::new(),
        reloaded: Vec::new(),
        skipped: Vec::new(),
        failed: Vec::new(),
        caveats: Vec::new(),
        unavailable: None,
    };
    let ghost init = (impact@, None::<Section>);
    let ghost lw = strs(lowered@);
    assert(init.0 =~= empty_activation(output@));
    let mut section: Option<Section> = None;
    let mut i: usize = 0;
    assert(activation_fold(init, strs(ls@).take(0), lw.take(0)) == init);
    while i < ls.len()
        invariant
            i <= ls.len(),
            ls.len() == lowered.len(),
            lw == strs(lowered@),
            (impact@, section) == activation_fold(init, strs(ls@).take(i as int), lw.take(i as int)),
        decreases ls.len() - i,
    {
        assert(strs(ls@).take(i + 1).drop_last() =~= strs(ls@).take(i as int));
        assert(strs(ls@).take(i + 1).last() == ls@[i as int]@);
        assert(lw.take(i + 1).drop_last() =~= lw.take(i as int));
        assert(lw.take(i + 1).last() == lowered@[i as int]@);
        section = impact.step(section, ls[i].as_str(), lowered[i].as_str());
        i = i + 1;
    }
    assert(strs(ls@).take(ls.len() as int) =~= strs(ls@));
    assert(lw.take(ls.len() as int) =~= lw);
    Some(
        ActivationImpact {
            raw: impact.raw,
            stopped: dedup_strings(&impact.stopped),
            started: dedup_strings(&impact.started),
            restarted: dedup_strings(&impact.restarted),
            reloaded: dedup_strings(&impact.reloaded),
            skipped: dedup_strings(&impact.skipped),
            failed: dedup_strings(&impact.failed),
            caveats: dedup_strings(&impact.caveats),
            unavailable: impact.unavailable,
        },
    )
}

/// Reads dry-activation output into the units it would stop, start,
/// restart, reload or skip, the failures it reports and caveats.
pub fn parse_activation_impact(output: &str) -> (r: ActivationImpact)
    ensures
        r@ == parse_activation_impact_spec(output@),
{
    let ls = lines(output);
    let ghost want = activation_lowering(strs(ls@));
    let mut lowered: Vec<String> = Vec::new();
    let mut i: usize = 0;
    while i < ls.len()
        invariant
            i <= ls.len(),
            want == activation_lowering(strs(ls@)),
            strs(lowered@) == want.take(i as int),
        decreases ls.len() - i,
    {
        let line = trim_str(ls[i].as_str());
        let lower = to_lowercase(line.as_str());
        assert(strs(ls@)[i as int] == ls@[i as int]@);
        assert(want[i as int] == lower@);
        let ghost before = lowered@;
        lowered.push(lower);
        assert(strs(lowered@) =~= strs(before).push(want[i as int]));
        assert(strs(lowered@) =~= want.take(i + 1));
        i = i + 1;
    }
    assert(want.take(ls.len() as int) =~= want);
    match parse_activation_impact_lowered(output, &lowered) {
        Some(a) => a,
        None => {
            proof {
                assert(false);
            }
            ActivationImpact {
                raw: output.to_owned(),
                stopped: Vec::new(),
                started: Vec::new(),
                restarted: Vec::new(),
                reloaded: Vec::new(),
                skipped: Vec::new(),
                failed: Vec::new(),
                caveats: Vec::new(),
                unavailable: None,
            }
        },
    }
}


/// What is known of a system generation.
#[derive(Clone, Debug)]
pub struct GenerationInfo {
    pub generation: Option<u64>,
    pub nixos_version: Option<String>,
    pub kernel_version: Option<String>,
}

pub open spec fn is_core_component(l: Seq<char>) -> bool {
    contains(l, "kernel"@) || contains(l, "linux"@) || contains(l, "systemd"@) || contains(
        l,
        "mesa"@,
    ) || contains(l, "nvidia"@)
}

/// The reboot advice for `action`, given each important change lowercased.
pub open spec fn reboot_from_lowered(action: Seq<char>, lowered: Seq<Seq<char>>) -> Seq<char> {
    if action == "boot"@ {
        "reboot required to use the new boot generation"@
    } else if exists|i: int| 0 <= i < lowered.len() && is_core_component(#[trigger] lowered[i]) {
        "reboot recommended because core system components changed"@
    } else {
        "no reboot requirement detected"@
    }
}

pub open spec fn reboot_recommendation_spec(action: Seq<char>, d: ClosureDiffView) -> Seq<char> {
    reboot_from_lowered(action, d.important.map_values(|s: Seq<char>| lowercase(s)))
}

/// The reboot advice of `reboot_recommendation`, with the lowercasing done
/// by the caller: `lowered` holds the diff's important changes, each
/// lowercased.
pub fn reboot_recommendation_lowered(action: &str, lowered: &Vec<String>) -> (r: String)
    ensures
        r@ == reboot_from_lowered(action@, strs(lowered@)),
{
    if eq_str(action, "boot") {
        return "reboot required to use the new boot generation".to_owned();
    }
    let ghost lw = strs(lowered@);
    let mut i: usize = 0;
    while i < lowered.len()
        invariant
            i <= lowered.len(),
            action@ != "boot"@,
            lw == strs(lowered@),
            forall|k: int| 0 <= k < i ==> !is_core_component(#[trigger] lw[k]),
        decreases lowered.len() - i,
    {
        let l = lowered[i].as_str();
        assert(lw[i as int] == l@);
        if includes(l, "kernel") || includes(l, "linux") || includes(l, "systemd") || includes(
            l,
            "mesa",
        ) || includes(l, "nvidia") {
            assert(is_core_component(lw[i as int]));
            return "reboot recommended because core system components changed".to_owned();
        }
        i = i + 1;
    }
    "no reboot requirement detected".to_owned()
}

/// Whether a reboot is needed: always after `boot`, recommended when the
/// kernel, systemd or graphics stack changed.
pub fn reboot_recommendation(action: &str, diff: &ClosureDiff) -> (r: String)
    ensures
        r@ == reboot_recommendation_spec(action@, diff@),
{
    let ghost want = diff@.important.map_values(|s: Seq<char>| lowercase(s));
    let mut lowered: Vec<String> = Vec::new();
    let mut i: usize = 0;
    while i < diff.important.len()
        invariant
            i <= diff.important.len(),
            want == diff@.important.map_values(|s: Seq<char>| lowercase(s)),
            strs(lowered@) == want.take(i as int),
        decreases diff.important.len() - i,
    {
        let lower = to_lowercase(diff.important[i].as_str());
        assert(want[i as int] == lower@);
        let ghost before = lowered@;
        lowered.push(lower);
        assert(strs(lowered@) =~= strs(before).push(want[i as int]));
        assert(strs(lowered@) =~= want.take(i + 1));
        i = i + 1;
    }
    assert(want.take(diff.important.len() as int) =~= want);
    reboot_recommendation_lowered(action, &lowered)
}

/// The path pieces that name something: not empty and not `.`.
pub open spec fn normal_pieces(ps: Seq<Seq<char>>) -> Seq<Seq<char>>
    decreases ps.len(),
{
    if ps.len() == 0 {
        Seq::empty()
    } else if ps.last().len() == 0 || ps.last() == seq!['.'] {
        normal_pieces(ps.drop_last())
    } else {
        normal_pieces(ps.drop_last()).push(ps.last())
    }
}

/// The last component of a Unix path, as `Path::file_name` gives it: none
/// for a path that ends in `..` or has no named component.
pub open spec fn file_name_spec(path: Seq<char>) -> Option<Seq<char>> {
    let comps = normal_pieces(crate::text::split_on(path, crate::text::sep3('/', '/', '/')));
    if comps.len() == 0 || comps.last() == seq!['.', '.'] {
        None
    } else {
        Some(comps.last())
    }
}

/// `Path::file_name` for a Unix path.
pub fn file_name(path: &str) -> (r: Option<String>)
    ensures
        match file_name_spec(path@) {
            Some(n) => r matches Some(x) && x@ == n,
            None => r is None,
        },
{
    let v = chars_of(path);
    let pieces = crate::text::split3(v.as_slice(), '/', '/', '/');
    let mut comps: Vec<String> = Vec::new();
    let mut i: usize = 0;
    assert(strs(comps@) =~= normal_pieces(strs(pieces@).take(0)));
    while i < pieces.len()
        invariant
            i <= pieces.len(),
            strs(comps@) == normal_pieces(strs(pieces@).take(i as int)),
        decreases pieces.len() - i,
    {
        assert(strs(pieces@).take(i + 1).drop_last() =~= strs(pieces@).take(i as int));
        assert(strs(pieces@).take(i + 1).last() == pieces@[i as int]@);
        let p = pieces[i].as_str();
        let pc = chars_of(p);
        let dot = pc.len() == 1 && pc[0] == '.';
        assert(dot == (p@ == seq!['.'])) by {
            if p@ == seq!['.'] {
                assert(pc@.len() == 1);
            }
            if dot {
                assert(pc@ =~= seq!['.']);
            }
        }
        if !(pc.len() == 0 || dot) {
            push_string(&mut comps, pieces[i].clone());
        }
        i = i + 1;
    }
    assert(strs(pieces@).take(pieces.len() as int) =~= strs(pieces@));
    if comps.len() == 0 {
        return None;
    }
    let last = comps[comps.len() - 1].clone();
    assert(last@ == strs(comps@).last());
    let lc = chars_of(last.as_str());
    let dots = lc.len() == 2 && lc[0] == '.' && lc[1] == '.';
    assert(dots == (last@ == seq!['.', '.'])) by {
        if last@ == seq!['.', '.'] {
            assert(lc@.len() == 2);
        }
        if dots {
            assert(lc@ =~= seq!['.', '.']);
        }
    }
    if dots {
        None
    } else {
        Some(last)
    }
}

pub open spec fn generation_from_name(name: Seq<char>) -> Option<u64> {
    if starts_with(name, "system-"@) && crate::text::ends_with(
        name.skip("system-"@.len() as int),
        "-link"@,
    ) {
        let rest = name.skip("system-"@.len() as int);
        crate::text::parse_u64_spec(rest.take(rest.len() - "-link"@.len()))
    } else {
        None
    }
}

/// The generation number in a profile link name such as `system-41-link`.
pub fn parse_generation_from_path(path: &str) -> (r: Option<u64>)
    ensures
        r == match file_name_spec(path@) {
            Some(n) => generation_from_name(n),
            None => None,
        },
{
    let name = match file_name(path) {
        Some(n) => n,
        None => return None,
    };
    let rest = match crate::text::strip_prefix_str(name.as_str(), "system-") {
        Some(r) => r,
        None => return None,
    };
    let rc = chars_of(rest.as_str());
    let suffix = chars_of("-link");
    if !crate::text::ends_with_chars(rc.as_slice(), suffix.as_slice()) {
        return None;
    }
    let mut digits: Vec<char> = Vec::new();
    let end = rc.len() - suffix.len();
    let mut k: usize = 0;
    while k < end
        invariant
            k <= end <= rc.len(),
            digits@ == rc@.take(k as int),
        decreases end - k,
    {
        digits.push(rc[k]);
        k = k + 1;
        assert(digits@ =~= rc@.take(k as int));
    }
    crate::text::parse_u64(digits.as_slice())
}


proof fn lemma_split_last(a: Seq<char>, b: Seq<char>)
    requires
        a.len() > 0,
        a.last() == '/',
        forall|i: int| 0 <= i < b.len() ==> b[i] != '/',
    ensures
        crate::text::split_on(a + b, crate::text::sep3('/', '/', '/')).len() >= 1,
        crate::text::split_on(a + b, crate::text::sep3('/', '/', '/')).last() == b,
    decreases b.len(),
{
    let sep = crate::text::sep3('/', '/', '/');
    if b.len() == 0 {
        assert(a + b =~= a);
        crate::text::lemma_split_on_nonempty(a.drop_last(), sep);
    } else {
        assert((a + b).drop_last() =~= a + b.drop_last());
        assert((a + b).last() == b.last());
        lemma_split_last(a, b.drop_last());
        assert(b.drop_last().push(b.last()) =~= b);
    }
}

proof fn lemma_digit_char(k: nat)
    requires
        k < 10,
    ensures
        crate::text::digit_value(crate::text::digit_char(k)) == k,
        crate::text::is_digit(crate::text::digit_char(k)),
{
    assert(('0' as int) == 48 && ('1' as int) == 49 && ('2' as int) == 50 && ('3' as int) == 51
        && ('4' as int) == 52 && ('5' as int) == 53 && ('6' as int) == 54 && ('7' as int) == 55
        && ('8' as int) == 56 && ('9' as int) == 57);
}

proof fn lemma_decimal_digits(n: nat)
    ensures
        crate::text::decimal(n).len() > 0,
        crate::text::all_digits(crate::text::decimal(n)),
        crate::text::digits_value(crate::text::decimal(n)) == n,
    decreases n,
{
    lemma_digit_char(n % 10);
    if n >= 10 {
        lemma_decimal_digits(n / 10);
        let d = crate::text::decimal(n);
        assert(d.last() == crate::text::digit_char(n % 10));
        assert((n / 10) * 10 + n % 10 == n);
        assert(d.drop_last() =~= crate::text::decimal(n / 10));
        assert forall|i: int| 0 <= i < d.len() implies crate::text::is_digit(#[trigger] d[i]) by {
            if i < d.len() - 1 {
                assert(d[i] == crate::text::decimal(n / 10)[i]);
            }
        }
        assert(crate::text::digits_value(d) == crate::text::digits_value(d.drop_last()) * 10
            + crate::text::digit_value(d.last()));
    } else {
        let d = crate::text::decimal(n);
        assert(d == seq![crate::text::digit_char(n)]);
        assert(d.drop_last() =~= Seq::<char>::empty());
        assert(crate::text::digits_value(d.drop_last()) == 0);
        assert(crate::text::digits_value(d) == crate::text::digits_value(d.drop_last()) * 10
            + crate::text::digit_value(d.last()));
    }
}

/// The profile link of a generation names that generation: building the
/// link for `n` and reading the number back from it gives `n`.
pub proof fn lemma_generation_path_round_trip(n: u64)
    ensures
        match file_name_spec(crate::generations::generation_path_spec(n)) {
            Some(name) => generation_from_name(name),
            None => None,
        } == Some(n),
{
    reveal_strlit("/nix/var/nix/profiles/system-");
    reveal_strlit("/nix/var/nix/profiles/");
    reveal_strlit("system-");
    reveal_strlit("-link");
    let d = crate::text::decimal(n as nat);
    lemma_decimal_digits(n as nat);
    let name = "system-"@ + d + "-link"@;
    let path = crate::generations::generation_path_spec(n);
    assert(path =~= "/nix/var/nix/profiles/"@ + name);
    assert forall|i: int| 0 <= i < name.len() implies name[i] != '/' by {
        if 7 <= i < 7 + d.len() {
            assert(name[i] == d[i - 7]);
            assert(crate::text::is_digit(d[i - 7]));
        }
    }
    lemma_split_last("/nix/var/nix/profiles/"@, name);
    let ps = crate::text::split_on(path, crate::text::sep3('/', '/', '/'));
    assert(ps.last() == name);
    assert(name.len() > 1);
    assert(name != seq!['.']);
    assert(normal_pieces(ps) == normal_pieces(ps.drop_last()).push(name));
    assert(name != seq!['.', '.']);
    assert(file_name_spec(path) == Some(name));
    let rest = name.skip(7);
    assert(rest =~= d + "-link"@);
    assert(crate::text::ends_with(rest, "-link"@)) by {
        assert(rest.subrange(rest.len() - 5, rest.len() as int) =~= "-link"@);
    }
    assert(rest.take(rest.len() - 5) =~= d);
    assert(crate::text::starts_with(name, "system-"@)) by {
        assert(name.subrange(0, 7) =~= "system-"@);
    }
    assert(d[0] != '+') by {
        assert(crate::text::is_digit(d[0]));
    }
}

/// A step of the diff never drops an addition, a removal or an important
/// change that was already recorded.
proof fn lemma_closure_step_keeps(
    d: ClosureDiffView,
    line: Seq<char>,
    lower: Seq<char>,
    lower_item: Seq<char>,
    x: Seq<char>,
)
    ensures
        d.important.contains(x) ==> closure_step(d, line, lower, lower_item).important.contains(x),
        d.removals.contains(x) ==> closure_step(d, line, lower, lower_item).removals.contains(x),
        d.additions.contains(x) ==> closure_step(d, line, lower, lower_item).additions.contains(x),
{
    let n = closure_step(d, line, lower, lower_item);
    if d.important.contains(x) {
        let i = choose|i: int| 0 <= i < d.important.len() && d.important[i] == x;
        assert(n.important[i] == x);
    }
    if d.removals.contains(x) {
        let i = choose|i: int| 0 <= i < d.removals.len() && d.removals[i] == x;
        assert(n.removals[i] == x);
    }
    if d.additions.contains(x) {
        let i = choose|i: int| 0 <= i < d.additions.len() && d.additions[i] == x;
        assert(n.additions[i] == x);
    }
}

/// Every line of `diff-closures` output that starts with `+` or `-` (once
/// trimmed) has its item recorded as an addition or a removal, and, when the
/// item's lowercased text names an important component (the kernel,
/// systemd, a graphics driver, ...), also among the important changes; a
/// removal counts exactly as an addition does. Later lines never take these
/// back.
pub proof fn lemma_signed_lines_recorded(
    d: ClosureDiffView,
    ls: Seq<Seq<char>>,
    lw: Seq<(Seq<char>, Seq<char>)>,
    k: int,
)
    requires
        ls.len() == lw.len(),
        0 <= k < ls.len(),
        trim(ls[k]).len() > 0,
        trim(ls[k])[0] == '+' || trim(ls[k])[0] == '-',
        !starts_with(lw[k].0, "closure size:"@),
    ensures
        trim(ls[k])[0] == '+' ==> closure_fold(d, ls, lw).additions.contains(
            trim(trim(ls[k]).drop_first()),
        ),
        trim(ls[k])[0] == '-' ==> closure_fold(d, ls, lw).removals.contains(
            trim(trim(ls[k]).drop_first()),
        ),
        is_important_text(lw[k].1) ==> closure_fold(d, ls, lw).important.contains(
            trim(trim(ls[k]).drop_first()),
        ),
    decreases ls.len(),
{
    let item = trim(trim(ls[k]).drop_first());
    let last = ls.len() - 1;
    let prev = closure_fold(d, ls.drop_last(), lw.drop_last());
    let n = closure_fold(d, ls, lw);
    assert(n == closure_step(prev, trim(ls.last()), lw.last().0, lw.last().1));
    if k == last {
        let line = trim(ls[k]);
        if line[0] == '+' {
            assert(n.additions == prev.additions.push(item));
            assert(n.additions[prev.additions.len() as int] == item);
        } else {
            assert(n.removals == prev.removals.push(item));
            assert(n.removals[prev.removals.len() as int] == item);
        }
        if is_important_text(lw[k].1) {
            assert(n.important == remember(prev.important, item, lw[k].1));
            if !prev.important.contains(item) {
                assert(n.important[prev.important.len() as int] == item);
            }
        }
    } else {
        assert(ls.drop_last()[k] == ls[k]);
        assert(lw.drop_last()[k] == lw[k]);
        lemma_signed_lines_recorded(d, ls.drop_last(), lw.drop_last(), k);
        lemma_closure_step_keeps(prev, trim(ls.last()), lw.last().0, lw.last().1, item);
    }
}

/// A dry-activation line that announces units to start (and no restart,
/// reload or stop) adds the units named after its first `:` to the started
/// ones and opens the started section; nothing else changes.
pub proof fn lemma_start_line_adds_started(
    a: ActivationView,
    section: Option<Section>,
    untrimmed: Seq<char>,
    lower: Seq<char>,
)
    requires
        trim(untrimmed).len() > 0,
        contains(lower, "would start"@) || contains(lower, "start the following"@),
        !contains(lower, "would restart"@) && !contains(lower, "restart the following"@),
        !contains(lower, "would reload"@) && !contains(lower, "reload the following"@),
        !contains(lower, "would stop"@) && !contains(lower, "stop the following"@),
    ensures
        activation_step((a, section), untrimmed, lower) == (
            ActivationView { started: a.started + units_after_colon_spec(trim(untrimmed)), ..a },
            Some(Section::Started),
        ),
{
}

/// What `lemma_signed_lines_recorded` says, for `parse_closure_diff` itself:
/// an added or removed item whose lowercased text names an important
/// component is among the important changes.
pub proof fn lemma_parsed_important_items(output: Seq<char>, k: int)
    requires
        0 <= k < lines_of(output).len(),
        trim(lines_of(output)[k]).len() > 0,
        trim(lines_of(output)[k])[0] == '+' || trim(lines_of(output)[k])[0] == '-',
        !starts_with(lowercase(trim(lines_of(output)[k])), "closure size:"@),
    ensures
        trim(lines_of(output)[k])[0] == '-' ==> parse_closure_diff_spec(output).removals.contains(
            trim(trim(lines_of(output)[k]).drop_first()),
        ),
        trim(lines_of(output)[k])[0] == '+' ==> parse_closure_diff_spec(output).additions.contains(
            trim(trim(lines_of(output)[k]).drop_first()),
        ),
        is_important_text(lowercase(trim(trim(lines_of(output)[k]).drop_first())))
            ==> parse_closure_diff_spec(output).important.contains(
            trim(trim(lines_of(output)[k]).drop_first()),
        ),
{
    let ls = lines_of(output);
    let lw = closure_lowering(ls);
    assert(lw[k] == (lowercase(trim(ls[k])), lowercase(diff_item(trim(ls[k])))));
    lemma_signed_lines_recorded(empty_diff(output), ls, lw, k);
}

} // verus!
