use vstd::prelude::*;

use crate::color::{painted, ColorChoice};
use crate::export::{ascii_lower, to_ascii_lowercase};
use crate::text::{
    chars_of, concat, decimal, eq_str, lemma_rfind_char, rfind_char, rfind_char_exec,
    string_of_range, u64_to_string,
};

verus! {

/// What a directory entry is.
#[derive(Clone, Copy, Debug, PartialEq, Eq, Structural)]
pub enum EntryKind {
    Directory,
    File,
    Symlink,
}

/// Directories first, then symlinks, then files.
pub fn sort_rank(kind: EntryKind) -> (r: u8)
    ensures
        r == (match kind {
            EntryKind::Directory => 0u8,
            EntryKind::Symlink => 1u8,
            EntryKind::File => 2u8,
        }),
{
    match kind {
        EntryKind::Directory => 0,
        EntryKind::Symlink => 1,
        EntryKind::File => 2,
    }
}

/// A file size in bytes, KiB or MiB, rounded down.
pub open spec fn size_text(size: nat) -> Seq<char> {
    if size < 1024 {
        decimal(size) + " B"@
    } else if size < 1024 * 1024 {
        decimal(size / 1024) + " KiB"@
    } else {
        decimal(size / (1024 * 1024)) + " MiB"@
    }
}

pub fn format_size(size: u64) -> (r: String)
    ensures
        r@ == size_text(size as nat),
{
    if size < 1024 {
        return concat(u64_to_string(size).as_str(), " B");
    }
    if size < 1024 * 1024 {
        return concat(u64_to_string(size / 1024).as_str(), " KiB");
    }
    concat(u64_to_string(size / (1024 * 1024)).as_str(), " MiB")
}

/// `Path::extension` of a file name: after the last dot, unless that dot
/// begins the name.
pub open spec fn extension_of(name: Seq<char>) -> Option<Seq<char>> {
    match rfind_char(name, '.') {
        Some(i) => if i == 0 {
            None
        } else {
            Some(name.skip(i + 1))
        },
        None => None,
    }
}

pub fn extension(name: &str) -> (r: Option<String>)
    ensures
        match extension_of(name@) {
            Some(e) => r matches Some(s) && s@ == e,
            None => r is None,
        },
{
    let v = chars_of(name);
    let n = v.len();
    proof {
        lemma_rfind_char(v@, '.');
    }
    match rfind_char_exec(v.as_slice(), '.') {
        Some(i) => if i == 0 {
            None
        } else {
            let e = string_of_range(v.as_slice(), i + 1, n);
            assert(e@ =~= name@.skip(i + 1));
            Some(e)
        },
        None => None,
    }
}

/// Extensions of images and documents, shown in their own color.
pub open spec fn asset_extension(e: Seq<char>) -> bool {
    let l = ascii_lower(e);
    l == "png"@ || l == "jpg"@ || l == "jpeg"@ || l == "gif"@ || l == "svg"@ || l == "webp"@ || l
        == "txt"@ || l == "md"@ || l == "json"@ || l == "toml"@ || l == "yaml"@ || l == "yml"@
}

pub fn is_asset(name: &str) -> (r: bool)
    ensures
        r == (extension_of(name@) matches Some(e) && asset_extension(e)),
{
    match extension(name) {
        Some(e) => {
            let l = to_ascii_lowercase(e.as_str());
            let s = l.as_str();
            eq_str(s, "png") || eq_str(s, "jpg") || eq_str(s, "jpeg") || eq_str(s, "gif") || eq_str(
                s,
                "svg",
            ) || eq_str(s, "webp") || eq_str(s, "txt") || eq_str(s, "md") || eq_str(s, "json")
                || eq_str(s, "toml") || eq_str(s, "yaml") || eq_str(s, "yml")
        },
        None => false,
    }
}

/// Counts of what the tree shows.
#[derive(Clone, Copy, Debug)]
pub struct TreeSummary {
    pub directories: usize,
    pub nix_files: usize,
    pub other_files: usize,
}

pub open spec fn is_nix_name(name: Seq<char>) -> bool {
    extension_of(name) == Some("nix"@)
}

fn nix_name(name: &str) -> (r: bool)
    ensures
        r == is_nix_name(name@),
{
    match extension(name) {
        Some(e) => eq_str(e.as_str(), "nix"),
        None => false,
    }
}

/// Counts one entry: a directory, a `.nix` file or link, or another file.
pub fn count_entry(kind: EntryKind, name: &str, summary: &mut TreeSummary)
    requires
        old(summary).directories < usize::MAX,
        old(summary).nix_files < usize::MAX,
        old(summary).other_files < usize::MAX,
    ensures
        kind == EntryKind::Directory ==> (final(summary).directories == old(summary).directories + 1
            && final(summary).nix_files == old(summary).nix_files
            && final(summary).other_files == old(summary).other_files),
        kind != EntryKind::Directory && is_nix_name(name@) ==> (final(summary).nix_files
            == old(summary).nix_files + 1 && final(summary).directories == old(summary).directories
            && final(summary).other_files == old(summary).other_files),
        kind != EntryKind::Directory && !is_nix_name(name@) ==> (final(summary).other_files
            == old(summary).other_files + 1 && final(summary).directories == old(summary).directories
            && final(summary).nix_files == old(summary).nix_files),
{
    match kind {
        EntryKind::Directory => summary.directories = summary.directories + 1,
        _ => if nix_name(name) {
            summary.nix_files = summary.nix_files + 1;
        } else {
            summary.other_files = summary.other_files + 1;
        },
    }
}

/// The branch drawn before an entry, and the indent its children get.
pub fn tree_connector(last: bool) -> (r: &'static str)
    ensures
        r@ == (if last { "└── "@ } else { "├── "@ }),
{
    if last {
        "└── "
    } else {
        "├── "
    }
}

pub fn child_prefix(prefix: &str, last: bool) -> (r: String)
    ensures
        r@ == prefix@ + (if last { "    "@ } else { "│   "@ }),
{
    if last {
        concat(prefix, "    ")
    } else {
        concat(prefix, "│   ")
    }
}

/// How an entry's label is colored: directories blue, links yellow,
/// `default.nix` bold green, other `.nix` files green, assets magenta.
pub open spec fn colored_label(color: ColorChoice, kind: EntryKind, name: Seq<char>, label: Seq<char>) -> Seq<char> {
    let code: Option<Seq<char>> = match kind {
        EntryKind::Directory => Some("34"@),
        EntryKind::Symlink => Some("33"@),
        EntryKind::File => if name == "default.nix"@ {
            Some("1;32"@)
        } else if is_nix_name(name) {
            Some("32"@)
        } else if extension_of(name) matches Some(e) && asset_extension(e) {
            Some("35"@)
        } else {
            None
        },
    };
    match code {
        Some(c) => if color.is_enabled() {
            painted(c, label)
        } else {
            label
        },
        None => label,
    }
}

pub fn entry_label(color: ColorChoice, kind: EntryKind, name: &str, label: &str) -> (r: String)
    ensures
        r@ == colored_label(color, kind, name@, label@),
{
    match kind {
        EntryKind::Directory => color.blue(label),
        EntryKind::Symlink => color.yellow(label),
        EntryKind::File => {
            if eq_str(name, "default.nix") {
                color.bold_green(label)
            } else if nix_name(name) {
                color.green(label)
            } else if is_asset(name) {
                color.magenta(label)
            } else {
                label.to_owned()
            }
        },
    }
}

pub open spec fn rank_of(kind: EntryKind) -> u8 {
    match kind {
        EntryKind::Directory => 0u8,
        EntryKind::Symlink => 1u8,
        EntryKind::File => 2u8,
    }
}

/// Whether an entry sorts before another: by rank, then by name.
pub open spec fn entry_before(a: (EntryKind, Seq<char>), b: (EntryKind, Seq<char>)) -> bool {
    rank_of(a.0) < rank_of(b.0) || (rank_of(a.0) == rank_of(b.0) && crate::text::chars_less(a.1, b.1))
}

pub open spec fn insert_entry(s: Seq<(EntryKind, Seq<char>)>, x: (EntryKind, Seq<char>)) -> Seq<
    (EntryKind, Seq<char>),
>
    decreases s.len(),
{
    if s.len() == 0 {
        seq![x]
    } else if !entry_before(x, s.last()) {
        s.push(x)
    } else {
        insert_entry(s.drop_last(), x).push(s.last())
    }
}

/// The entries kept (directories, and other entries when files are
/// shown), in their first order.
pub open spec fn kept_entries(s: Seq<(EntryKind, Seq<char>)>, show_files: bool, n: int) -> Seq<
    (EntryKind, Seq<char>),
>
    decreases n,
{
    if n <= 0 {
        Seq::empty()
    } else if s[n - 1].0 == EntryKind::Directory || show_files {
        kept_entries(s, show_files, n - 1).push(s[n - 1])
    } else {
        kept_entries(s, show_files, n - 1)
    }
}

/// Sorting by rank then name, equal entries in their first order.
pub open spec fn sorted_entries(s: Seq<(EntryKind, Seq<char>)>) -> Seq<(EntryKind, Seq<char>)>
    decreases s.len(),
{
    if s.len() == 0 {
        Seq::empty()
    } else {
        insert_entry(sorted_entries(s.drop_last()), s.last())
    }
}

pub open spec fn tree_entry_views(v: Seq<(EntryKind, String)>) -> Seq<(EntryKind, Seq<char>)> {
    v.map_values(|e: (EntryKind, String)| (e.0, e.1@))
}

fn entry_precedes(a: &(EntryKind, String), b: &(EntryKind, String)) -> (r: bool)
    ensures
        r == entry_before((a.0, a.1@), (b.0, b.1@)),
{
    let ra = sort_rank(a.0);
    let rb = sort_rank(b.0);
    ra < rb || (ra == rb && crate::text::str_less(a.1.as_str(), b.1.as_str()))
}

fn insert_tree_entry(sorted: &mut Vec<(EntryKind, String)>, x: (EntryKind, String))
    ensures
        tree_entry_views(final(sorted)@) == insert_entry(tree_entry_views(old(sorted)@), (x.0, x.1@)),
{
    let ghost before = tree_entry_views(sorted@);
    let ghost xv = (x.0, x.1@);
    let mut pos: usize = sorted.len();
    assert(before.take(pos as int) =~= before);
    assert(before.skip(pos as int) =~= Seq::<(EntryKind, Seq<char>)>::empty());
    assert(insert_entry(before, xv) + Seq::<(EntryKind, Seq<char>)>::empty() =~= insert_entry(before, xv));
    while pos > 0 && entry_precedes(&x, &sorted[pos - 1])
        invariant
            pos <= sorted.len(),
            before == tree_entry_views(sorted@),
            xv == (x.0, x.1@),
            insert_entry(before, xv) == insert_entry(before.take(pos as int), xv) + before.skip(pos as int),
        decreases pos,
    {
        proof {
            let t = before.take(pos as int);
            assert(t.drop_last() =~= before.take(pos - 1));
            assert(t.last() == before[pos - 1]);
            assert(insert_entry(t, xv) == insert_entry(before.take(pos - 1), xv).push(before[pos - 1]));
            assert(before.skip(pos - 1) =~= seq![before[pos - 1]] + before.skip(pos as int));
            assert(insert_entry(before.take(pos - 1), xv).push(before[pos - 1]) + before.skip(pos as int)
                =~= insert_entry(before.take(pos - 1), xv) + before.skip(pos - 1));
        }
        pos = pos - 1;
    }
    proof {
        let t = before.take(pos as int);
        if pos > 0 {
            assert(t.last() == before[pos - 1]);
            assert(insert_entry(t, xv) == t.push(xv));
        } else {
            assert(insert_entry(t, xv) == seq![xv]);
        }
    }
    sorted.insert(pos, x);
    assert(tree_entry_views(sorted@) =~= before.take(pos as int).push(xv) + before.skip(pos as int));
}

/// The entries of a directory as `nr tree` lists them: directories, and
/// other entries when files are shown, sorted by kind (directories, then
/// symlinks, then files) and then by name.
pub fn order_entries(entries: Vec<(EntryKind, String)>, show_files: bool) -> (r: Vec<(EntryKind, String)>)
    ensures
        tree_entry_views(r@) == sorted_entries(
            kept_entries(tree_entry_views(entries@), show_files, entries@.len() as int),
        ),
{
    let ghost ev = tree_entry_views(entries@);
    let mut sorted: Vec<(EntryKind, String)> = Vec::new();
    let mut rest = entries;
    let mut i: usize = 0;
    let n = rest.len();
    while rest.len() > 0
        invariant
            i + rest.len() == n,
            n == ev.len(),
            tree_entry_views(rest@) == ev.skip(i as int),
            tree_entry_views(sorted@) == sorted_entries(kept_entries(ev, show_files, i as int)),
        decreases rest.len(),
    {
        let ghost old_rest = rest@;
        let x = rest.remove(0);
        assert(ev[i as int] == (x.0, x.1@)) by {
            assert(ev.skip(i as int)[0] == ev[i as int]);
            assert(tree_entry_views(old_rest)[0] == (x.0, x.1@));
        }
        assert forall|k: int| 0 <= k < rest@.len() implies tree_entry_views(rest@)[k] == ev.skip(i + 1)[k] by {
            assert(rest@[k] == old_rest[k + 1]);
            assert(ev.skip(i as int)[k + 1] == tree_entry_views(old_rest)[k + 1]);
        }
        assert(tree_entry_views(rest@) =~= ev.skip(i + 1));
        if x.0 == EntryKind::Directory || show_files {
            let ghost xv = (x.0, x.1@);
            insert_tree_entry(&mut sorted, x);
            assert(kept_entries(ev, show_files, i + 1) == kept_entries(ev, show_files, i as int).push(xv));
            assert(kept_entries(ev, show_files, i + 1).drop_last() =~= kept_entries(ev, show_files, i as int));
        }
        i = i + 1;
    }
    sorted
}

/// Whether `nr tree` leaves an entry out: a never-shown directory name, or
/// a `result` link.
pub fn should_skip(name: &str, is_symlink: bool) -> (r: bool)
    ensures
        r == (crate::export::forbidden_name(name@) || (crate::text::starts_with(name@, "result"@) && is_symlink)),
{
    crate::export::forbidden_component(name) || (crate::text::starts_with_str(name, "result") && is_symlink)
}

/// The last line of `nr tree`.
pub fn tree_summary_line(summary: &TreeSummary) -> (r: String)
    ensures
        r@ == decimal(summary.directories as nat) + " directories, "@ + decimal(summary.nix_files as nat)
            + " .nix files, "@ + decimal(summary.other_files as nat) + " other files"@,
{
    let mut r = u64_to_string(summary.directories as u64);
    r.append(" directories, ");
    crate::text::push_decimal(&mut r, summary.nix_files as u64);
    r.append(" .nix files, ");
    crate::text::push_decimal(&mut r, summary.other_files as u64);
    r.append(" other files");
    r
}

} // verus!
