use vstd::prelude::*;

use crate::errors::NrError;
use crate::text::{
    concat, concat3, contains, contains_str, ends_with, ends_with_str, eq_str, join_path,
    join_path_spec, lemma_strs_push, starts_with, starts_with_str, strs,
};
use crate::tree::{extension, extension_of};

verus! {

/// The directory of saved preview plans.
pub fn plans_dir(state_dir: &str) -> (r: String)
    ensures
        r@ == join_path_spec(state_dir@, "plans"@),
{
    join_path(state_dir, "plans")
}

/// The directory of saved reports.
pub fn reports_dir(state_dir: &str) -> (r: String)
    ensures
        r@ == join_path_spec(state_dir@, "reports"@),
{
    join_path(state_dir, "reports")
}

/// The directory of default build logs.
pub fn logs_dir(state_dir: &str) -> (r: String)
    ensures
        r@ == join_path_spec(state_dir@, "logs"@),
{
    join_path(state_dir, "logs")
}

/// The switch history file.
pub fn history_path(state_dir: &str) -> (r: String)
    ensures
        r@ == join_path_spec(state_dir@, "history.json"@),
{
    join_path(state_dir, "history.json")
}

/// Whether a file name belongs to a kind of state file.
pub fn is_state_file(name: &str, prefix: &str, suffix: &str) -> (r: bool)
    ensures
        r == (starts_with(name@, prefix@) && ends_with(name@, suffix@)),
{
    starts_with_str(name, prefix) && ends_with_str(name, suffix)
}

/// Inserts after every entry whose key is not greater: a stable insertion.
pub open spec fn insert_by_key(s: Seq<(u128, Seq<char>)>, x: (u128, Seq<char>)) -> Seq<
    (u128, Seq<char>),
>
    decreases s.len(),
{
    if s.len() == 0 {
        seq![x]
    } else if s.last().0 <= x.0 {
        s.push(x)
    } else {
        insert_by_key(s.drop_last(), x).push(s.last())
    }
}

/// The entries in order of their keys, equal keys in their first order.
pub open spec fn sorted_by_key(s: Seq<(u128, Seq<char>)>) -> Seq<(u128, Seq<char>)>
    decreases s.len(),
{
    if s.len() == 0 {
        Seq::empty()
    } else {
        insert_by_key(sorted_by_key(s.drop_last()), s.last())
    }
}

pub open spec fn keys_ascending(s: Seq<(u128, Seq<char>)>) -> bool {
    forall|i: int, j: int| 0 <= i < j < s.len() ==> s[i].0 <= s[j].0
}

proof fn lemma_insert_sorted(s: Seq<(u128, Seq<char>)>, x: (u128, Seq<char>))
    requires
        keys_ascending(s),
    ensures
        keys_ascending(insert_by_key(s, x)),
        insert_by_key(s, x).len() == s.len() + 1,
        forall|i: int|
            0 <= i < insert_by_key(s, x).len() ==> (#[trigger] insert_by_key(s, x)[i]).0 >= x.0
                || insert_by_key(s, x)[i].0 <= x.0,
    decreases s.len(),
{
    if s.len() > 0 && s.last().0 > x.0 {
        lemma_insert_sorted(s.drop_last(), x);
        let t = insert_by_key(s.drop_last(), x);
        assert forall|i: int| 0 <= i < t.len() implies t[i].0 <= s.last().0 by {
            lemma_insert_members(s.drop_last(), x, i);
            if t[i] != x {
                let k = choose|k: int| 0 <= k < s.drop_last().len() && s.drop_last()[k] == t[i];
                assert(s[k].0 <= s[s.len() - 1].0);
            }
        }
    }
}

proof fn lemma_insert_members(s: Seq<(u128, Seq<char>)>, x: (u128, Seq<char>), i: int)
    requires
        0 <= i < insert_by_key(s, x).len(),
    ensures
        insert_by_key(s, x)[i] == x || exists|k: int| 0 <= k < s.len() && s[k] == insert_by_key(s, x)[i],
    decreases s.len(),
{
    if s.len() > 0 && s.last().0 > x.0 {
        let t = insert_by_key(s.drop_last(), x);
        if i < t.len() {
            lemma_insert_members(s.drop_last(), x, i);
            if t[i] != x {
                let k = choose|k: int| 0 <= k < s.drop_last().len() && s.drop_last()[k] == t[i];
                assert(s[k] == t[i]);
            }
        } else {
            assert(insert_by_key(s, x)[i] == s[s.len() - 1]);
        }
    } else if s.len() > 0 {
        if i < s.len() {
            assert(insert_by_key(s, x)[i] == s[i]);
        }
    }
}

/// Sorting leaves the keys in ascending order.
pub proof fn lemma_sorted_by_key_ascending(s: Seq<(u128, Seq<char>)>)
    ensures
        keys_ascending(sorted_by_key(s)),
        sorted_by_key(s).len() == s.len(),
    decreases s.len(),
{
    if s.len() > 0 {
        lemma_sorted_by_key_ascending(s.drop_last());
        lemma_insert_sorted(sorted_by_key(s.drop_last()), s.last());
    }
}

pub open spec fn entry_views(v: Seq<(u128, String)>) -> Seq<(u128, Seq<char>)> {
    v.map_values(|e: (u128, String)| (e.0, e.1@))
}

/// State files in the order they were modified, oldest first; `entries`
/// pair each path with its modification time.
pub fn sort_by_modified(entries: &[(u128, String)]) -> (r: Vec<String>)
    ensures
        strs(r@) == sorted_by_key(entry_views(entries@)).map_values(|e: (u128, Seq<char>)| e.1),
{
    let mut sorted: Vec<(u128, String)> = Vec::new();
    let mut i: usize = 0;
    while i < entries.len()
        invariant
            i <= entries.len(),
            entry_views(sorted@) == sorted_by_key(entry_views(entries@).take(i as int)),
        decreases entries.len() - i,
    {
        let (key, path) = &entries[i];
        let ghost before = entry_views(sorted@);
        let mut pos: usize = sorted.len();
        proof {
            let x = (*key, path@);
            assert(before.take(pos as int) =~= before);
            assert(before.skip(pos as int) =~= Seq::<(u128, Seq<char>)>::empty());
            assert(insert_by_key(before, x) + Seq::<(u128, Seq<char>)>::empty() =~= insert_by_key(before, x));
        }
        while pos > 0 && sorted[pos - 1].0 > *key
            invariant
                pos <= sorted.len(),
                before == entry_views(sorted@),
                insert_by_key(before, (*key, path@)) == insert_by_key(before.take(pos as int), (*key, path@))
                    + before.skip(pos as int),
            decreases pos,
        {
            proof {
                let x = (*key, path@);
                let t = before.take(pos as int);
                assert(t.drop_last() =~= before.take(pos - 1));
                assert(t.last() == before[pos - 1]);
                assert(insert_by_key(t, x) == insert_by_key(before.take(pos - 1), x).push(before[pos - 1]));
                assert(before.skip(pos - 1) =~= seq![before[pos - 1]] + before.skip(pos as int));
                assert(insert_by_key(before.take(pos - 1), x).push(before[pos - 1]) + before.skip(pos as int)
                    =~= insert_by_key(before.take(pos - 1), x) + before.skip(pos - 1));
            }
            pos = pos - 1;
        }
        proof {
            let x = (*key, path@);
            let t = before.take(pos as int);
            if pos > 0 {
                assert(t.last() == before[pos - 1]);
                assert(insert_by_key(t, x) == t.push(x));
            } else {
                assert(insert_by_key(t, x) == seq![x]);
            }
        }
        sorted.insert(pos, (*key, path.clone()));
        proof {
            let x = (*key, path@);
            assert(entry_views(sorted@) =~= before.take(pos as int).push(x) + before.skip(pos as int));
            assert(entry_views(entries@).take(i + 1).drop_last() =~= entry_views(entries@).take(i as int));
            assert(entry_views(entries@).take(i + 1).last() == x);
        }
        i = i + 1;
    }
    assert(entry_views(entries@).take(i as int) =~= entry_views(entries@));
    let mut r: Vec<String> = Vec::new();
    let mut k: usize = 0;
    while k < sorted.len()
        invariant
            k <= sorted.len(),
            strs(r@) == entry_views(sorted@).take(k as int).map_values(|e: (u128, Seq<char>)| e.1),
        decreases sorted.len() - k,
    {
        let ghost before = r@;
        let p = sorted[k].1.clone();
        r.push(p);
        proof {
            lemma_strs_push(before, p);
        }
        k = k + 1;
        assert(strs(r@) =~= entry_views(sorted@).take(k as int).map_values(|e: (u128, Seq<char>)| e.1));
    }
    assert(entry_views(sorted@).take(k as int) =~= entry_views(sorted@));
    r
}

/// The oldest files to remove so that at most `keep` remain.
pub fn logs_to_remove(sorted: &[String], keep: usize) -> (r: Vec<String>)
    ensures
        strs(r@) == strs(sorted@).take(if sorted@.len() > keep { sorted@.len() - keep } else { 0 }),
{
    let count: usize = if sorted.len() > keep { sorted.len() - keep } else { 0 };
    let mut r: Vec<String> = Vec::new();
    let mut i: usize = 0;
    while i < count
        invariant
            i <= count <= sorted.len(),
            strs(r@) == strs(sorted@).take(i as int),
        decreases count - i,
    {
        let ghost before = r@;
        let p = sorted[i].clone();
        r.push(p);
        proof {
            lemma_strs_push(before, p);
        }
        i = i + 1;
        assert(strs(r@) =~= strs(sorted@).take(i as int));
    }
    r
}

/// The files other than the one to preserve.
pub open spec fn without(s: Seq<Seq<char>>, preserve: Option<Seq<char>>) -> Seq<Seq<char>>
    decreases s.len(),
{
    if s.len() == 0 {
        Seq::empty()
    } else if preserve == Some(s.last()) {
        without(s.drop_last(), preserve)
    } else {
        without(s.drop_last(), preserve).push(s.last())
    }
}

/// How many of the other files go: enough that, with the preserved file,
/// at most `keep` remain; none when `keep` is zero.
pub open spec fn prune_count(others: nat, keep: nat, preserving: bool) -> nat {
    if keep == 0 {
        0
    } else {
        let room: nat = if preserving {
            (keep - 1) as nat
        } else {
            keep
        };
        if others > room {
            (others - room) as nat
        } else {
            0
        }
    }
}

/// The oldest state files to remove so that at most `keep` remain, the
/// preserved one (the one just written) among them.
pub fn prune_json(sorted: &[String], keep: usize, preserve: Option<&str>) -> (r: Vec<String>)
    ensures
        ({
            let others = without(
                strs(sorted@),
                match preserve {
                    Some(p) => Some(p@),
                    None => None,
                },
            );
            strs(r@) == others.take(prune_count(others.len(), keep as nat, preserve is Some) as int)
        }),
{
    let ghost pv = match preserve {
        Some(p) => Some(p@),
        None => None::<Seq<char>>,
    };
    let mut others: Vec<String> = Vec::new();
    let mut i: usize = 0;
    while i < sorted.len()
        invariant
            i <= sorted.len(),
            pv == (match preserve {
                Some(p) => Some(p@),
                None => None::<Seq<char>>,
            }),
            strs(others@) == without(strs(sorted@).take(i as int), pv),
        decreases sorted.len() - i,
    {
        assert(strs(sorted@).take(i + 1).drop_last() =~= strs(sorted@).take(i as int));
        let keep_it = match preserve {
            Some(p) => !eq_str(sorted[i].as_str(), p),
            None => true,
        };
        if keep_it {
            let ghost before = others@;
            let p = sorted[i].clone();
            others.push(p);
            proof {
                lemma_strs_push(before, p);
            }
        }
        i = i + 1;
    }
    assert(strs(sorted@).take(i as int) =~= strs(sorted@));
    if keep == 0 {
        let r: Vec<String> = Vec::new();
        assert(strs(r@) =~= strs(others@).take(0));
        return r;
    }
    let room: usize = if preserve.is_some() { keep - 1 } else { keep };
    logs_to_remove(others.as_slice(), room)
}

/// Pruning leaves at most `keep` files, the preserved one included.
pub proof fn lemma_prune_bounds(others: nat, keep: nat, preserving: bool)
    requires
        keep > 0,
    ensures
        others - prune_count(others, keep, preserving) + (if preserving { 1int } else { 0int }) <= keep,
        prune_count(others, keep, preserving) <= others,
{
}

/// The last (newest) state file.
pub fn latest_json(sorted: &[String], prefix: &str) -> (r: Result<String, NrError>)
    ensures
        sorted@.len() > 0 ==> (r matches Ok(p) && p@ == sorted@.last()@),
        sorted@.len() == 0 ==> (r matches Err(NrError::Message(m)) && m@ == "No "@ + prefix@ + " files found."@),
{
    if sorted.len() == 0 {
        return Err(NrError::Message(concat3("No ", prefix, " files found.")));
    }
    Ok(sorted[sorted.len() - 1].clone())
}

/// `Path::file_stem` of a file name.
pub open spec fn file_stem_of(name: Seq<char>) -> Seq<char> {
    match extension_of(name) {
        Some(e) => name.take(name.len() - e.len() - 1),
        None => name,
    }
}

pub fn file_stem(name: &str) -> (r: String)
    ensures
        r@ == file_stem_of(name@),
{
    let v = crate::text::chars_of(name);
    match extension(name) {
        Some(e) => {
            let el = crate::text::chars_of(e.as_str()).len();
            proof {
                crate::text::lemma_rfind_char(name@, '.');
            }
            crate::text::string_of_range(v.as_slice(), 0, v.len() - el - 1)
        },
        None => name.to_owned(),
    }
}

/// The first file (oldest first) whose name, without extension, holds
/// the reference.
pub open spec fn first_stem_match(names: Seq<Seq<char>>, reference: Seq<char>) -> Option<int>
    decreases names.len(),
{
    if names.len() == 0 {
        None
    } else {
        match first_stem_match(names.drop_last(), reference) {
            Some(i) => Some(i),
            None => if contains(file_stem_of(names.last()), reference) {
                Some(names.len() - 1)
            } else {
                None
            },
        }
    }
}

/// Finds a saved plan or report: `latest`, a path to an existing file
/// (`direct_is_file`), or part of a file's name; `names` are the file
/// names of `sorted`, oldest first.
pub fn resolve_json_reference(
    sorted: &[String],
    names: &[String],
    prefix: &str,
    reference: &str,
    direct_is_file: bool,
) -> (r: Result<String, NrError>)
    requires
        sorted@.len() == names@.len(),
    ensures
        reference@ == "latest"@ ==> (if sorted@.len() > 0 {
            r matches Ok(p) && p@ == sorted@.last()@
        } else {
            r matches Err(NrError::Message(m)) && m@ == "No "@ + prefix@ + " files found."@
        }),
        reference@ != "latest"@ && direct_is_file ==> (r matches Ok(p) && p@ == reference@),
        reference@ != "latest"@ && !direct_is_file ==> match first_stem_match(strs(names@), reference@) {
            Some(i) => r matches Ok(p) && p@ == sorted@[i]@,
            None => r matches Err(NrError::Message(m)) && m@ == "No "@ + prefix@
                + " file matches reference: "@ + reference@,
        },
{
    if eq_str(reference, "latest") {
        return latest_json(sorted, prefix);
    }
    if direct_is_file {
        return Ok(reference.to_owned());
    }
    let mut i: usize = 0;
    while i < names.len()
        invariant
            i <= names.len() == sorted.len(),
            reference@ != "latest"@,
            !direct_is_file,
            first_stem_match(strs(names@).take(i as int), reference@) is None,
        decreases names.len() - i,
    {
        assert(strs(names@).take(i + 1).drop_last() =~= strs(names@).take(i as int));
        let stem = file_stem(names[i].as_str());
        if contains_str(stem.as_str(), reference) {
            proof {
                lemma_first_stem_prefix(strs(names@), reference@, i as int + 1);
            }
            return Ok(sorted[i].clone());
        }
        i = i + 1;
    }
    assert(strs(names@).take(i as int) =~= strs(names@));
    let mut m = "No ".to_owned();
    m.append(prefix);
    m.append(" file matches reference: ");
    m.append(reference);
    Err(NrError::Message(m))
}

proof fn lemma_first_stem_prefix(names: Seq<Seq<char>>, reference: Seq<char>, n: int)
    requires
        0 < n <= names.len(),
        first_stem_match(names.take(n - 1), reference) is None,
        contains(file_stem_of(names[n - 1]), reference),
    ensures
        first_stem_match(names, reference) == Some(n - 1),
    decreases names.len() - n,
{
    assert(names.take(n).drop_last() =~= names.take(n - 1));
    assert(first_stem_match(names.take(n), reference) == Some(n - 1));
    if n < names.len() {
        lemma_first_stem_extend(names, reference, n);
    } else {
        assert(names.take(n) =~= names);
    }
}

proof fn lemma_first_stem_extend(names: Seq<Seq<char>>, reference: Seq<char>, n: int)
    requires
        0 < n <= names.len(),
        first_stem_match(names.take(n), reference) is Some,
    ensures
        first_stem_match(names, reference) == first_stem_match(names.take(n), reference),
    decreases names.len() - n,
{
    if n < names.len() {
        assert(names.take(n + 1).drop_last() =~= names.take(n));
        lemma_first_stem_extend(names, reference, n + 1);
    } else {
        assert(names.take(n) =~= names);
    }
}


/// The state directory: `XDG_STATE_HOME/nr`, else `HOME/.local/state/nr`,
/// else `nr` in the temporary directory.
pub fn state_dir(xdg_state_home: Option<&str>, home: Option<&str>, temp_dir: &str) -> (r: String)
    ensures
        r@ == join_path_spec(
            match xdg_state_home {
                Some(x) => x@,
                None => match home {
                    Some(h) => join_path_spec(h@, ".local/state"@),
                    None => temp_dir@,
                },
            },
            "nr"@,
        ),
{
    let root = match xdg_state_home {
        Some(x) => x.to_owned(),
        None => match home {
            Some(h) => join_path(h, ".local/state"),
            None => temp_dir.to_owned(),
        },
    };
    join_path(root.as_str(), "nr")
}

/// The name of a state file written at `timestamp` by process `pid`.
pub fn state_file_name(prefix: &str, timestamp: u64, pid: u32) -> (r: String)
    ensures
        r@ == prefix@ + "-"@ + crate::text::decimal(timestamp as nat) + "-"@ + crate::text::decimal(
            pid as nat,
        ) + ".json"@,
{
    let mut r = prefix.to_owned();
    r.append("-");
    crate::text::push_decimal(&mut r, timestamp);
    r.append("-");
    crate::text::push_decimal(&mut r, pid as u64);
    r.append(".json");
    r
}

/// Where a default build log goes.
pub fn default_log_path(state_dir: &str, seconds: u64, pid: u32) -> (r: String)
    ensures
        r@ == join_path_spec(
            join_path_spec(state_dir@, "logs"@),
            "nr-"@ + crate::text::decimal(seconds as nat) + "-"@ + crate::text::decimal(pid as nat)
                + ".log"@,
        ),
{
    let dir = logs_dir(state_dir);
    let mut name = "nr-".to_owned();
    crate::text::push_decimal(&mut name, seconds);
    name.append("-");
    crate::text::push_decimal(&mut name, pid as u64);
    name.append(".log");
    join_path(dir.as_str(), name.as_str())
}

/// One recorded switch, test or boot.
#[derive(Clone, Debug)]
pub struct HistoryRecord {
    pub timestamp: u64,
    pub action: String,
    pub target: String,
    pub old_generation: Option<u64>,
    pub new_generation: Option<u64>,
    pub store_path: Option<String>,
    pub git_revision: Option<String>,
    pub log_path: String,
    pub report_result: String,
}

/// The history after appending an entry and keeping only the newest
/// `keep` entries.
pub open spec fn appended_history(history: Seq<HistoryRecord>, entry: HistoryRecord, keep: nat) -> Seq<
    HistoryRecord,
> {
    let all = history.push(entry);
    if all.len() > keep {
        all.skip(all.len() - keep)
    } else {
        all
    }
}

/// Appends an entry to the switch history, dropping the oldest entries
/// beyond `keep`.
pub fn append_history(history: &mut Vec<HistoryRecord>, entry: HistoryRecord, keep: usize)
    ensures
        final(history)@ == appended_history(old(history)@, entry, keep as nat),
{
    let ghost all = history@.push(entry);
    history.push(entry);
    let ghost mut removed: int = 0;
    while history.len() > keep
        invariant
            0 <= removed <= all.len(),
            history@ == all.skip(removed),
            all.len() > keep ==> removed <= all.len() - keep,
            all.len() <= keep ==> removed == 0,
        decreases history.len(),
    {
        let ghost prev = history@;
        history.remove(0);
        proof {
            assert(history@ =~= all.skip(removed + 1));
            removed = removed + 1;
        }
    }
    proof {
        if all.len() > keep {
            assert(removed == all.len() - keep);
        } else {
            assert(history@ =~= all);
        }
    }
}

/// The history never holds more than `keep` entries after an append, and
/// the entry just appended is the newest one kept.
pub proof fn lemma_history_keeps_newest(history: Seq<HistoryRecord>, entry: HistoryRecord, keep: nat)
    ensures
        appended_history(history, entry, keep).len() == if history.len() + 1 > keep {
            keep
        } else {
            history.len() + 1
        },
        keep > 0 ==> appended_history(history, entry, keep).last() == entry,
        forall|i: int|
            0 <= i < appended_history(history, entry, keep).len() ==> #[trigger] appended_history(
                history,
                entry,
                keep,
            )[i] == history.push(entry)[history.len() + 1 - appended_history(history, entry, keep).len()
                + i],
{
}

/// `Option<u64>` as `{:?}` writes it.
pub open spec fn debug_option(v: Option<u64>) -> Seq<char> {
    match v {
        Some(n) => "Some("@ + crate::text::decimal(n as nat) + ")"@,
        None => "None"@,
    }
}

fn push_debug_option(out: &mut String, v: Option<u64>)
    ensures
        final(out)@ == old(out)@ + debug_option(v),
{
    match v {
        Some(n) => {
            out.append("Some(");
            crate::text::push_decimal(out, n);
            out.append(")");
        },
        None => out.append("None"),
    }
}

/// The line `nr history` prints for an entry.
pub fn history_line(entry: &HistoryRecord) -> (r: String)
    ensures
        r@ == crate::text::decimal(entry.timestamp as nat) + " "@ + entry.action@ + " "@ + entry.target@
            + " old:"@ + debug_option(entry.old_generation) + " new:"@ + debug_option(entry.new_generation)
            + " "@ + entry.report_result@ + " log:"@ + entry.log_path@,
{
    let mut r = String::new();
    crate::text::push_decimal(&mut r, entry.timestamp);
    r.append(" ");
    r.append(entry.action.as_str());
    r.append(" ");
    r.append(entry.target.as_str());
    r.append(" old:");
    push_debug_option(&mut r, entry.old_generation);
    r.append(" new:");
    push_debug_option(&mut r, entry.new_generation);
    r.append(" ");
    r.append(entry.report_result.as_str());
    r.append(" log:");
    r.append(entry.log_path.as_str());
    r
}

/// The newest `limit` of a list sorted oldest first, newest first.
pub open spec fn newest(items: Seq<Seq<char>>, limit: nat) -> Seq<Seq<char>> {
    let n = if items.len() < limit { items.len() } else { limit };
    Seq::new(n, |i: int| items[items.len() - 1 - i])
}

pub fn newest_first(items: &[String], limit: usize) -> (r: Vec<String>)
    ensures
        strs(r@) == newest(strs(items@), limit as nat),
{
    let n: usize = if items.len() < limit { items.len() } else { limit };
    let mut r: Vec<String> = Vec::new();
    let mut i: usize = 0;
    while i < n
        invariant
            i <= n <= items.len(),
            n == (if items.len() < limit { items.len() } else { limit }),
            strs(r@) == newest(strs(items@), limit as nat).take(i as int),
        decreases n - i,
    {
        let ghost prev = r@;
        let s = items[items.len() - 1 - i].clone();
        r.push(s);
        proof {
            lemma_strs_push(prev, s);
            assert(newest(strs(items@), limit as nat).take(i + 1) =~= newest(strs(items@), limit as nat).take(
                i as int,
            ).push(s@));
        }
        i = i + 1;
    }
    assert(newest(strs(items@), limit as nat).take(n as int) =~= newest(strs(items@), limit as nat));
    r
}

/// What `nr logs --last-failed` prints for a report, newest first: for a
/// failed one its log path, or the report's own path when it names none;
/// nothing for a successful one.
pub fn failed_report_line(success: bool, log_path: Option<&str>, report_path: &str) -> (r: Option<String>)
    ensures
        success ==> r is None,
        !success ==> (r matches Some(s) && s@ == match log_path {
            Some(l) => l@,
            None => report_path@,
        }),
{
    if success {
        None
    } else {
        match log_path {
            Some(l) => Some(l.to_owned()),
            None => Some(report_path.to_owned()),
        }
    }
}

/// How many default logs are kept.
pub const KEPT_LOGS: usize = 20;

/// How many logs to keep when a log is opened: a log path the user gave is
/// never rotated; default logs keep the newest twenty.
pub fn log_rotation(user_path_given: bool) -> (r: Option<usize>)
    ensures
        user_path_given ==> r is None,
        !user_path_given ==> r == Some(20usize),
{
    if user_path_given {
        None
    } else {
        Some(KEPT_LOGS)
    }
}

/// Rotation leaves at most `keep` logs, and the ones left are the newest.
pub proof fn lemma_rotation_keeps_newest(sorted: Seq<Seq<char>>, keep: nat)
    ensures
        ({
            let removed = sorted.take(if sorted.len() > keep { sorted.len() - keep } else { 0 });
            let left = sorted.skip(removed.len() as int);
            &&& left.len() <= keep
            &&& removed + left == sorted
            &&& sorted.len() >= keep ==> left.len() == keep
        }),
{
    let removed = sorted.take(if sorted.len() > keep { sorted.len() - keep } else { 0 });
    assert(removed + sorted.skip(removed.len() as int) =~= sorted);
}

} // verus!
