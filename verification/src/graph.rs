use vstd::prelude::*;

use crate::text::{
    chars_of, ends_with, ends_with_str, find, find_char_from, find_char_from_exec, find_from,
    find_from_exec, lemma_find_char_from, occurs_at, lemma_find_from_some, lines, lines_of, starts_with,
    starts_with_str, string_of_range, strs, trim, trim_start, trim_start_str, trim_str,
    lemma_strs_push,
};

verus! {

/// The directory every store path starts with.
pub open spec fn store_dir() -> Seq<char> {
    "/nix/store/"@
}

/// Characters that may appear in the name part of a store path.
pub open spec fn is_store_char(c: char) -> bool {
    ('a' <= c && c <= 'z') || ('A' <= c && c <= 'Z') || ('0' <= c && c <= '9') || c == '+' || c
        == '-' || c == '.' || c == '_' || c == '?' || c == '='
}

/// The end of the run of store-path characters that starts at `i`.
pub open spec fn run_end(t: Seq<char>, i: int) -> int
    decreases t.len() - i,
{
    if 0 <= i < t.len() && is_store_char(t[i]) {
        run_end(t, i + 1)
    } else {
        i
    }
}

/// The derivation paths (`/nix/store/NAME.drv`) that occur in `t` at or after
/// position `i`, in order of appearance.
pub open spec fn drv_paths_from(t: Seq<char>, i: int) -> Seq<Seq<char>>
    decreases t.len() + 1 - i,
{
    if i < 0 || i > t.len() {
        Seq::empty()
    } else {
        match find_from(t, store_dir(), i) {
            None => Seq::empty(),
            Some(s) => {
                let e = run_end(t, s + store_dir().len());
                if e <= i || e > t.len() {
                    Seq::empty()
                } else {
                    let p = t.subrange(s, e);
                    (if ends_with(p, ".drv"@) {
                        seq![p]
                    } else {
                        Seq::empty()
                    }) + drv_paths_from(t, e)
                }
            },
        }
    }
}

pub open spec fn drv_paths(t: Seq<char>) -> Seq<Seq<char>> {
    drv_paths_from(t, 0)
}

proof fn lemma_run_end(t: Seq<char>, i: int)
    requires
        0 <= i <= t.len(),
    ensures
        i <= run_end(t, i) <= t.len(),
        forall|k: int| i <= k < run_end(t, i) ==> is_store_char(#[trigger] t[k]),
        run_end(t, i) < t.len() ==> !is_store_char(t[run_end(t, i)]),
    decreases t.len() - i,
{
    if i < t.len() && is_store_char(t[i]) {
        lemma_run_end(t, i + 1);
    }
}

fn is_store_char_exec(c: char) -> (r: bool)
    ensures
        r == is_store_char(c),
{
    ('a' <= c && c <= 'z') || ('A' <= c && c <= 'Z') || ('0' <= c && c <= '9') || c == '+' || c
        == '-' || c == '.' || c == '_' || c == '?' || c == '='
}

fn run_end_exec(t: &[char], i: usize) -> (r: usize)
    requires
        i <= t.len(),
    ensures
        r as int == run_end(t@, i as int),
{
    let mut j = i;
    while j < t.len() && is_store_char_exec(t[j])
        invariant
            i <= j <= t.len(),
            run_end(t@, j as int) == run_end(t@, i as int),
        decreases t.len() - j,
    {
        j = j + 1;
    }
    j
}

/// The derivation paths named in a piece of build output, in order.
pub fn extract_derivation_paths(text: &str) -> (r: Vec<String>)
    ensures
        strs(r@) == drv_paths(text@),
{
    let t = chars_of(text);
    let prefix = chars_of("/nix/store/");
    proof {
        reveal_strlit("/nix/store/");
    }
    let mut out: Vec<String> = Vec::new();
    let mut i: usize = 0;
    assert(strs(out@) =~= Seq::<Seq<char>>::empty());
    loop
        invariant
            t@ == text@,
            prefix@ == store_dir(),
            prefix.len() == 11,
            i <= t.len(),
            strs(out@) + drv_paths_from(t@, i as int) == drv_paths(text@),
        decreases t.len() - i,
    {
        match find_from_exec(t.as_slice(), prefix.as_slice(), i) {
            None => {
                assert(strs(out@) + drv_paths_from(t@, i as int) == strs(out@));
                return out;
            },
            Some(s) => {
                proof {
                    reveal_strlit("/nix/store/");
                    lemma_find_from_some(t@, prefix@, i as int);
                }
                let e = run_end_exec(t.as_slice(), s + prefix.len());
                proof {
                    lemma_run_end(t@, s + prefix.len());
                }
                let p = string_of_range(t.as_slice(), s, e);
                let ghost rest = drv_paths_from(t@, e as int);
                if ends_with_str(p.as_str(), ".drv") {
                    let ghost before = out@;
                    out.push(p);
                    proof {
                        lemma_strs_push(before, p);
                    }
                    assert(strs(out@) + rest =~= strs(before) + (seq![p@] + rest));
                } else {
                    assert(strs(out@) + rest =~= strs(out@) + (Seq::<Seq<char>>::empty() + rest));
                }
                i = e;
            },
        }
    }
}

/// A store path without its directory: the name under which the
/// derivation graph knows a node.
pub open spec fn store_key(p: Seq<char>) -> Seq<char> {
    if starts_with(p, store_dir()) {
        p.skip(store_dir().len() as int)
    } else {
        p
    }
}

pub fn derivation_name_of(key: &str) -> (r: String)
    ensures
        r@ == derivation_name(key@),
{
    let c = chars_of(key);
    proof {
        reveal_strlit(".drv");
    }
    let end = if ends_with_str(key, ".drv") {
        c.len() - 4
    } else {
        c.len()
    };
    let k = string_of_range(c.as_slice(), 0, end);
    assert(k@ =~= (if ends_with(key@, ".drv"@) {
        key@.take(key@.len() - 4)
    } else {
        key@
    }));
    let kc = chars_of(k.as_str());
    match find_char_from_exec(kc.as_slice(), '-', 0) {
        Some(j) => {
            proof {
                lemma_find_char_from(kc@, '-', 0);
            }
            let r = string_of_range(kc.as_slice(), j + 1, kc.len());
            assert(r@ =~= k@.skip(j + 1));
            r
        },
        None => k,
    }
}

pub fn store_key_of(path: &str) -> (r: String)
    ensures
        r@ == store_key(path@),
{
    proof {
        reveal_strlit("/nix/store/");
    }
    if starts_with_str(path, "/nix/store/") {
        let c = chars_of(path);
        let r = string_of_range(c.as_slice(), 11, c.len());
        assert(r@ =~= path@.skip(11));
        r
    } else {
        path.to_owned()
    }
}

/// One line of `nix-store --query --graph` output: a node with its label,
/// an edge from a dependency to the derivation that uses it, or anything
/// else.
pub enum DotItem {
    Node(Seq<char>, Option<Seq<char>>),
    Edge(Seq<char>, Seq<char>),
    Skip,
}

/// The text between the quote at `i` and the next quote, and the position
/// after the closing quote.
pub open spec fn quoted_at(s: Seq<char>, i: int) -> Option<(Seq<char>, int)> {
    if 0 <= i < s.len() && s[i] == '"' {
        match find_char_from(s, '"', i + 1) {
            Some(j) => Some((s.subrange(i + 1, j), j + 1)),
            None => None,
        }
    } else {
        None
    }
}

/// The quoted value of the `label` attribute in a node's attribute list.
pub open spec fn attribute_label(rest: Seq<char>) -> Option<Seq<char>> {
    match find(rest, "label"@) {
        None => None,
        Some(k) => match find_char_from(rest, '"', k + 5) {
            None => None,
            Some(q) => match quoted_at(rest, q) {
                Some((v, _)) => Some(v),
                None => None,
            },
        },
    }
}

pub open spec fn dot_line(line: Seq<char>) -> DotItem {
    let l = trim(line);
    match quoted_at(l, 0) {
        None => DotItem::Skip,
        Some((a, j)) => {
            let rest = trim_start(l.skip(j));
            if starts_with(rest, "->"@) {
                match quoted_at(trim_start(rest.skip(2)), 0) {
                    Some((b, _)) => DotItem::Edge(a, b),
                    None => DotItem::Skip,
                }
            } else {
                DotItem::Node(a, attribute_label(rest))
            }
        },
    }
}

pub open spec fn dot_items(dot: Seq<char>) -> Seq<DotItem> {
    lines_of(dot).map_values(|l: Seq<char>| dot_line(l))
}

/// A parsed graph line.
pub enum DotEntry {
    Node(String, Option<String>),
    Edge(String, String),
    Skip,
}

impl DotEntry {
    pub open spec fn item(&self) -> DotItem {
        match self {
            DotEntry::Node(a, l) => DotItem::Node(
                a@,
                match l {
                    Some(v) => Some(v@),
                    None => None,
                },
            ),
            DotEntry::Edge(a, b) => DotItem::Edge(a@, b@),
            DotEntry::Skip => DotItem::Skip,
        }
    }
}

fn quoted_at_exec(s: &[char], i: usize) -> (r: Option<(String, usize)>)
    ensures
        match quoted_at(s@, i as int) {
            Some((v, e)) => r matches Some((x, f)) && x@ == v && f as int == e,
            None => r is None,
        },
        r matches Some((x, f)) ==> f <= s.len(),
{
    if i < s.len() && s[i] == '"' {
        match find_char_from_exec(s, '"', i + 1) {
            Some(j) => {
                proof {
                    lemma_find_char_from(s@, '"', i + 1);
                }
                Some((string_of_range(s, i + 1, j), j + 1))
            },
            None => None,
        }
    } else {
        None
    }
}

fn attribute_label_exec(rest: &[char]) -> (r: Option<String>)
    ensures
        match attribute_label(rest@) {
            Some(v) => r matches Some(x) && x@ == v,
            None => r is None,
        },
{
    let label = chars_of("label");
    proof {
        reveal_strlit("label");
    }
    match find_from_exec(rest, label.as_slice(), 0) {
        None => None,
        Some(k) => {
            let n = rest.len();
            proof {
                lemma_find_from_some(rest@, label@, 0);
                assert(label@.len() == 5);
                assert(occurs_at(rest@, label@, k as int));
                assert(k + 5 <= rest@.len());
            }
            match find_char_from_exec(rest, '"', k + 5) {
                None => None,
                Some(q) => match quoted_at_exec(rest, q) {
                    Some((v, _)) => Some(v),
                    None => None,
                },
            }
        },
    }
}

/// Reads one line of graph output.
pub fn parse_dot_line(line: &str) -> (r: DotEntry)
    ensures
        r.item() == dot_line(line@),
{
    let l = trim_str(line);
    let c = chars_of(l.as_str());
    match quoted_at_exec(c.as_slice(), 0) {
        None => DotEntry::Skip,
        Some((a, j)) => {
            let after = string_of_range(c.as_slice(), j, c.len());
            assert(after@ =~= l@.skip(j as int));
            let rest_s = trim_start_str(after.as_str());
            let rest = chars_of(rest_s.as_str());
            if starts_with_str(rest_s.as_str(), "->") {
                proof {
                    reveal_strlit("->");
                }
                let tail = string_of_range(rest.as_slice(), 2, rest.len());
                assert(tail@ =~= rest_s@.skip(2));
                let tail_t = trim_start_str(tail.as_str());
                let tc = chars_of(tail_t.as_str());
                match quoted_at_exec(tc.as_slice(), 0) {
                    Some((b, _)) => DotEntry::Edge(a, b),
                    None => DotEntry::Skip,
                }
            } else {
                DotEntry::Node(a, attribute_label_exec(rest.as_slice()))
            }
        },
    }
}

/// Derivations, their labels and the edges between them, as far as graphs
/// have been loaded, with the derivation paths seen in the build output.
#[derive(Clone, Debug)]
pub struct DependencyGraph {
    keys: Vec<String>,
    labels: Vec<String>,
    inputs: Vec<Vec<usize>>,
    roots: Vec<usize>,
    noted: Vec<String>,
    attempted: Vec<String>,
}

/// The graph's model: node `i` is derivation `keys[i]` with label
/// `labels[i]` ("" when none is known); `inputs[i]` are the nodes it
/// depends on; `roots` the nodes whose graph was loaded; `noted` the
/// derivation paths seen, in order; `attempted` those whose graph was
/// asked for.
pub struct GraphView {
    pub keys: Seq<Seq<char>>,
    pub labels: Seq<Seq<char>>,
    pub inputs: Seq<Seq<usize>>,
    pub roots: Seq<usize>,
    pub noted: Seq<Seq<char>>,
    pub attempted: Seq<Seq<char>>,
}

impl View for DependencyGraph {
    type V = GraphView;

    closed spec fn view(&self) -> GraphView {
        GraphView {
            keys: strs(self.keys@),
            labels: strs(self.labels@),
            inputs: self.inputs@.map_values(|v: Vec<usize>| v@),
            roots: self.roots@,
            noted: strs(self.noted@),
            attempted: strs(self.attempted@),
        }
    }
}

impl GraphView {
    /// Every node index in range, and each derivation a node once.
    pub open spec fn wf(self) -> bool {
        &&& self.keys.len() == self.labels.len()
        &&& self.keys.len() == self.inputs.len()
        &&& forall|i: int, m: int|
            0 <= i < self.inputs.len() && 0 <= m < self.inputs[i].len() ==> #[trigger] self.inputs[i][m]
                < self.keys.len()
        &&& forall|r: int| 0 <= r < self.roots.len() ==> #[trigger] self.roots[r] < self.keys.len()
        &&& forall|i: int, j: int|
            0 <= i < self.keys.len() && 0 <= j < self.keys.len() && i != j ==> #[trigger] self.keys[i]
                != #[trigger] self.keys[j]
    }

    pub open spec fn has_node(self, k: Seq<char>) -> bool {
        exists|i: int| 0 <= i < self.keys.len() && #[trigger] self.keys[i] == k
    }

    pub open spec fn index_of(self, k: Seq<char>) -> int {
        choose|i: int| 0 <= i < self.keys.len() && #[trigger] self.keys[i] == k
    }

    /// The label of derivation `k`; "" when it has none or is unknown.
    pub open spec fn label_of(self, k: Seq<char>) -> Seq<char> {
        if self.has_node(k) {
            self.labels[self.index_of(k)]
        } else {
            Seq::empty()
        }
    }

    /// Derivation `b` depends on derivation `a`.
    pub open spec fn has_edge(self, a: Seq<char>, b: Seq<char>) -> bool {
        exists|i: int, m: int|
            #![trigger self.keys[i], self.inputs[i][m]]
            0 <= i < self.keys.len() && 0 <= m < self.inputs[i].len() && self.keys[i] == b
                && self.keys[self.inputs[i][m] as int] == a
    }

    /// The graph of derivation `k` was loaded.
    pub open spec fn is_root(self, k: Seq<char>) -> bool {
        exists|r: int| 0 <= r < self.roots.len() && self.keys[#[trigger] self.roots[r] as int] == k
    }

    /// The same derivations, labels, edges and roots.
    pub open spec fn same_graph(self, other: GraphView) -> bool {
        &&& forall|k: Seq<char>| self.has_node(k) == other.has_node(k)
        &&& forall|k: Seq<char>| self.label_of(k) == other.label_of(k)
        &&& forall|a: Seq<char>, b: Seq<char>| self.has_edge(a, b) == other.has_edge(a, b)
        &&& forall|k: Seq<char>| self.is_root(k) == other.is_root(k)
    }
}

proof fn lemma_index_of(g: GraphView, i: int)
    requires
        g.wf(),
        0 <= i < g.keys.len(),
    ensures
        g.has_node(g.keys[i]),
        g.index_of(g.keys[i]) == i,
        g.label_of(g.keys[i]) == g.labels[i],
{
    assert(g.has_node(g.keys[i]));
    let j = g.index_of(g.keys[i]);
    assert(0 <= j < g.keys.len() && g.keys[j] == g.keys[i]);
}

/// The derivation is named by a line of the graph.
pub open spec fn item_mentions(it: DotItem, k: Seq<char>) -> bool {
    match it {
        DotItem::Node(a, _) => a == k,
        DotItem::Edge(a, b) => a == k || b == k,
        DotItem::Skip => false,
    }
}

pub open spec fn mentions(items: Seq<DotItem>, k: Seq<char>) -> bool {
    exists|j: int| 0 <= j < items.len() && item_mentions(#[trigger] items[j], k)
}

/// The label that the last labelled line for `k` gives.
pub open spec fn last_label(items: Seq<DotItem>, k: Seq<char>) -> Option<Seq<char>>
    decreases items.len(),
{
    if items.len() == 0 {
        None
    } else {
        match items.last() {
            DotItem::Node(a, Some(l)) => if a == k {
                Some(l)
            } else {
                last_label(items.drop_last(), k)
            },
            _ => last_label(items.drop_last(), k),
        }
    }
}

proof fn lemma_items_push(s: Seq<DotItem>, x: DotItem)
    ensures
        forall|k: Seq<char>| mentions(s.push(x), k) == (mentions(s, k) || item_mentions(x, k)),
        forall|a: Seq<char>, b: Seq<char>|
            s.push(x).contains(DotItem::Edge(a, b)) == (s.contains(DotItem::Edge(a, b)) || x
                == DotItem::Edge(a, b)),
        s.push(x).drop_last() == s,
{
    assert(s.push(x).drop_last() =~= s);
    assert forall|k: Seq<char>| mentions(s.push(x), k) == (mentions(s, k) || item_mentions(x, k)) by {
        if mentions(s, k) {
            let j = choose|j: int| 0 <= j < s.len() && item_mentions(#[trigger] s[j], k);
            assert(s.push(x)[j] == s[j]);
        }
        if item_mentions(x, k) {
            assert(s.push(x)[s.len() as int] == x);
        }
        if mentions(s.push(x), k) {
            let j = choose|j: int| 0 <= j < s.push(x).len() && item_mentions(#[trigger] s.push(x)[j], k);
            if j < s.len() {
                assert(s.push(x)[j] == s[j]);
            }
        }
    }
    assert forall|a: Seq<char>, b: Seq<char>|
        s.push(x).contains(DotItem::Edge(a, b)) == (s.contains(DotItem::Edge(a, b)) || x
            == DotItem::Edge(a, b)) by {
        let e = DotItem::Edge(a, b);
        if s.contains(e) {
            let j = choose|j: int| 0 <= j < s.len() && s[j] == e;
            assert(s.push(x)[j] == s[j]);
        }
        if x == e {
            assert(s.push(x)[s.len() as int] == x);
        }
        if s.push(x).contains(e) {
            let j = choose|j: int| 0 <= j < s.push(x).len() && s.push(x)[j] == e;
            if j < s.len() {
                assert(s.push(x)[j] == s[j]);
            }
        }
    }
}

/// The label a single line gives derivation `k`.
pub open spec fn item_label(it: DotItem, k: Seq<char>) -> Option<Seq<char>> {
    match it {
        DotItem::Node(a, Some(l)) => if a == k {
            Some(l)
        } else {
            None
        },
        _ => None,
    }
}

proof fn lemma_last_label_push(s: Seq<DotItem>, x: DotItem, k: Seq<char>)
    ensures
        last_label(s.push(x), k) == match item_label(x, k) {
            Some(l) => Some(l),
            None => last_label(s, k),
        },
{
    assert(s.push(x).drop_last() =~= s);
    assert(s.push(x).last() == x);
}

proof fn lemma_last_label_mentions(s: Seq<DotItem>, k: Seq<char>)
    ensures
        last_label(s, k) is Some ==> mentions(s, k),
    decreases s.len(),
{
    if s.len() > 0 {
        lemma_last_label_mentions(s.drop_last(), k);
        if last_label(s.drop_last(), k) is Some {
            let j = choose|j: int| 0 <= j < s.drop_last().len() && item_mentions(#[trigger] s.drop_last()[j], k);
            assert(s[j] == s.drop_last()[j]);
        }
        if let DotItem::Node(a, Some(_)) = s.last() {
            if a == k {
                assert(item_mentions(s[s.len() - 1], k));
            }
        }
    }
}

/// The name a derivation is shown by when its graph gave no label: its key
/// without the hash and without `.drv`.
pub open spec fn derivation_name(key: Seq<char>) -> Seq<char> {
    let k = if ends_with(key, ".drv"@) {
        key.take(key.len() - 4)
    } else {
        key
    };
    match find_char_from(k, '-', 0) {
        Some(j) => k.skip(j + 1),
        None => k,
    }
}

impl GraphView {
    /// How derivation `key` is shown: its label, else its name.
    pub open spec fn display_label(self, key: Seq<char>) -> Seq<char> {
        if self.label_of(key).len() > 0 {
            self.label_of(key)
        } else {
            derivation_name(key)
        }
    }
}

impl GraphView {
    /// `p` leads from a loaded root down through dependencies: each
    /// derivation after the first is a dependency of the one before it.
    pub open spec fn is_route(self, p: Seq<Seq<char>>) -> bool {
        &&& p.len() > 0
        &&& self.is_root(p[0])
        &&& forall|i: int, j: int|
            #![trigger p[i], p[j]]
            0 <= i && j == i + 1 && j < p.len() ==> self.has_edge(p[j], p[i])
    }

    /// Some route from a loaded root ends at derivation `k`.
    pub open spec fn reaches(self, k: Seq<char>) -> bool {
        exists|p: Seq<Seq<char>>| self.is_route(p) && p.last() == k
    }

    /// `r` is what the build display shows for the active derivations
    /// `active`: a shortest route to the first of them that some route
    /// reaches, or `None` when no route reaches any of them.
    pub open spec fn is_active_route(self, active: Seq<Seq<char>>, r: Option<Seq<Seq<char>>>) -> bool {
        match r {
            Some(p) => self.is_route(p) && (forall|q: Seq<Seq<char>>|
                #[trigger] self.is_route(q) && q.last() == p.last() ==> p.len() <= q.len())
                && exists|j: int|
                0 <= j < active.len() && p.last() == store_key(active[j]) && forall|i: int|
                    0 <= i < j ==> !self.reaches(store_key(#[trigger] active[i])),
            None => forall|j: int| 0 <= j < active.len() ==> !self.reaches(store_key(#[trigger] active[j])),
        }
    }

    /// A route over node indices.
    pub open spec fn is_index_route(self, q: Seq<usize>) -> bool {
        &&& q.len() > 0
        &&& self.roots.contains(q[0])
        &&& forall|i: int| 0 <= i < q.len() ==> (#[trigger] q[i]) < self.keys.len()
        &&& forall|i: int, j: int|
            #![trigger q[i], q[j]]
            0 <= i && j == i + 1 && j < q.len() ==> self.inputs[q[i] as int].contains(q[j])
    }

    pub open spec fn keys_of(self, q: Seq<usize>) -> Seq<Seq<char>> {
        q.map_values(|x: usize| self.keys[x as int])
    }
}

proof fn lemma_index_route_is_route(g: GraphView, q: Seq<usize>)
    requires
        g.wf(),
        g.is_index_route(q),
    ensures
        g.is_route(g.keys_of(q)),
        g.keys_of(q).last() == g.keys[q.last() as int],
{
    let p = g.keys_of(q);
    let r = choose|r: int| 0 <= r < g.roots.len() && g.roots[r] == q[0];
    assert(g.keys[g.roots[r] as int] == p[0]);
    assert forall|i: int, j: int|
        #![trigger p[i], p[j]]
        0 <= i && j == i + 1 && j < p.len() implies g.has_edge(p[j], p[i]) by {
        assert(q[i] < g.keys.len() && q[j] < g.keys.len());
        let x = q[i] as int;
        let m = choose|m: int| 0 <= m < g.inputs[x].len() && g.inputs[x][m] == q[j];
        assert(g.keys[x] == p[i] && g.keys[g.inputs[x][m] as int] == p[j]);
    }
}

proof fn lemma_reaches_has_node(g: GraphView, k: Seq<char>)
    requires
        g.wf(),
        g.reaches(k),
    ensures
        g.has_node(k),
{
    let p = choose|p: Seq<Seq<char>>| g.is_route(p) && p.last() == k;
    if p.len() == 1 {
        let r = choose|r: int| 0 <= r < g.roots.len() && g.keys[#[trigger] g.roots[r] as int] == p[0];
        assert(g.keys[g.roots[r] as int] == k);
    } else {
        let i = p.len() - 2;
        let j = p.len() - 1;
        assert(g.has_edge(p[j], p[i]));
        let (x, m) = choose|x: int, m: int|
            #![trigger g.keys[x], g.inputs[x][m]]
            0 <= x < g.keys.len() && 0 <= m < g.inputs[x].len() && g.keys[x] == p[i]
                && g.keys[g.inputs[x][m] as int] == p[j];
        assert(g.keys[g.inputs[x][m] as int] == k);
    }
}

/// Every derivation on a route is marked when the marks hold the roots and
/// are closed under dependencies.
proof fn lemma_route_marked(g: GraphView, seen: Seq<bool>, p: Seq<Seq<char>>, i: int)
    requires
        g.wf(),
        seen.len() == g.keys.len(),
        g.is_route(p),
        0 <= i < p.len(),
        forall|r: int| 0 <= r < g.roots.len() ==> seen[#[trigger] g.roots[r] as int],
        forall|x: int, m: int|
            0 <= x < g.keys.len() && seen[x] && 0 <= m < g.inputs[x].len() ==> seen[
                #[trigger] g.inputs[x][m] as int],
    ensures
        g.has_node(p[i]),
        seen[g.index_of(p[i])],
    decreases i,
{
    if i == 0 {
        let r = choose|r: int| 0 <= r < g.roots.len() && g.keys[#[trigger] g.roots[r] as int] == p[0];
        lemma_index_of(g, g.roots[r] as int);
    } else {
        lemma_route_marked(g, seen, p, i - 1);
        assert(g.has_edge(p[i], p[i - 1]));
        let (x, m) = choose|x: int, m: int|
            #![trigger g.keys[x], g.inputs[x][m]]
            0 <= x < g.keys.len() && 0 <= m < g.inputs[x].len() && g.keys[x] == p[i - 1]
                && g.keys[g.inputs[x][m] as int] == p[i];
        lemma_index_of(g, x);
        lemma_index_of(g, g.inputs[x][m] as int);
    }
}

/// Loading more of the graph never loses a route: a derivation that some
/// route reached still has one once edges and roots have been added.
pub proof fn lemma_routes_survive_loading(g: GraphView, h: GraphView, k: Seq<char>)
    requires
        forall|a: Seq<char>, b: Seq<char>| g.has_edge(a, b) ==> h.has_edge(a, b),
        forall|r: Seq<char>| g.is_root(r) ==> h.is_root(r),
        g.reaches(k),
    ensures
        h.reaches(k),
{
    let p = choose|p: Seq<Seq<char>>| g.is_route(p) && p.last() == k;
    assert forall|i: int, j: int|
        #![trigger p[i], p[j]]
        0 <= i && j == i + 1 && j < p.len() implies h.has_edge(p[j], p[i]) by {
        assert(g.has_edge(p[j], p[i]));
    }
    assert(h.is_route(p));
}

/// On a route, the `i`-th derivation was found with a route of at most
/// `i + 1` derivations, when the roots were found with routes of one and
/// each input with a route at most one longer than its user's.
proof fn lemma_route_level(g: GraphView, seen: Seq<bool>, routes: Seq<Vec<usize>>, p: Seq<Seq<char>>, i: int)
    requires
        g.wf(),
        seen.len() == g.keys.len(),
        routes.len() == g.keys.len(),
        g.is_route(p),
        0 <= i < p.len(),
        forall|r: int| 0 <= r < g.roots.len() ==> seen[#[trigger] g.roots[r] as int],
        forall|r: int| 0 <= r < g.roots.len() ==> (#[trigger] routes[g.roots[r] as int])@.len() == 1,
        forall|x: int, m: int|
            0 <= x < g.keys.len() && seen[x] && 0 <= m < g.inputs[x].len() ==> seen[
                #[trigger] g.inputs[x][m] as int],
        forall|x: int, m: int|
            0 <= x < g.keys.len() && seen[x] && 0 <= m < g.inputs[x].len() ==> routes[
                #[trigger] g.inputs[x][m] as int]@.len() <= routes[x]@.len() + 1,
    ensures
        g.has_node(p[i]),
        seen[g.index_of(p[i])],
        routes[g.index_of(p[i])]@.len() <= i + 1,
    decreases i,
{
    if i == 0 {
        let r = choose|r: int| 0 <= r < g.roots.len() && g.keys[#[trigger] g.roots[r] as int] == p[0];
        lemma_index_of(g, g.roots[r] as int);
    } else {
        lemma_route_level(g, seen, routes, p, i - 1);
        assert(g.has_edge(p[i], p[i - 1]));
        let (x, m) = choose|x: int, m: int|
            #![trigger g.keys[x], g.inputs[x][m]]
            0 <= x < g.keys.len() && 0 <= m < g.inputs[x].len() && g.keys[x] == p[i - 1]
                && g.keys[g.inputs[x][m] as int] == p[i];
        lemma_index_of(g, x);
        lemma_index_of(g, g.inputs[x][m] as int);
    }
}

pub open spec fn count_true(s: Seq<bool>) -> nat
    decreases s.len(),
{
    if s.len() == 0 {
        0
    } else {
        count_true(s.drop_last()) + if s.last() {
            1nat
        } else {
            0nat
        }
    }
}

proof fn lemma_all_false(s: Seq<bool>)
    requires
        forall|x: int| 0 <= x < s.len() ==> !s[x],
    ensures
        count_true(s) == 0,
    decreases s.len(),
{
    if s.len() > 0 {
        lemma_all_false(s.drop_last());
    }
}

proof fn lemma_count_true_le(s: Seq<bool>)
    ensures
        count_true(s) <= s.len(),
    decreases s.len(),
{
    if s.len() > 0 {
        lemma_count_true_le(s.drop_last());
    }
}

proof fn lemma_count_true_set(s: Seq<bool>, x: int)
    requires
        0 <= x < s.len(),
        !s[x],
    ensures
        count_true(s.update(x, true)) == count_true(s) + 1,
    decreases s.len(),
{
    let u = s.update(x, true);
    if x == s.len() - 1 {
        assert(u.drop_last() =~= s.drop_last());
    } else {
        assert(u.drop_last() =~= s.drop_last().update(x, true));
        lemma_count_true_set(s.drop_last(), x);
    }
}

/// `p` added at the end unless it is already there.
pub open spec fn add_once(s: Seq<Seq<char>>, p: Seq<char>) -> Seq<Seq<char>> {
    if s.contains(p) {
        s
    } else {
        s.push(p)
    }
}

pub open spec fn add_all(s: Seq<Seq<char>>, ps: Seq<Seq<char>>) -> Seq<Seq<char>>
    decreases ps.len(),
{
    if ps.len() == 0 {
        s
    } else {
        add_once(add_all(s, ps.drop_last()), ps.last())
    }
}

/// A system derivation, whose graph covers the whole build.
pub open spec fn is_system_drv(p: Seq<char>) -> bool {
    crate::text::contains(store_key(p), "-nixos-system-"@)
}

/// The system derivations seen whose graph was not asked for yet, in the
/// order they were seen.
pub open spec fn pending_roots(noted: Seq<Seq<char>>, attempted: Seq<Seq<char>>) -> Seq<Seq<char>>
    decreases noted.len(),
{
    if noted.len() == 0 {
        Seq::empty()
    } else {
        let rest = pending_roots(noted.drop_last(), attempted);
        if is_system_drv(noted.last()) && !attempted.contains(noted.last()) {
            rest.push(noted.last())
        } else {
            rest
        }
    }
}

fn push_once(v: &mut Vec<String>, p: String)
    ensures
        strs(final(v)@) == add_once(strs(old(v)@), p@),
{
    let mut j: usize = 0;
    while j < v.len()
        invariant
            j <= v.len(),
            forall|q: int| 0 <= q < j ==> strs(v@)[q] != p@,
        decreases v.len() - j,
    {
        if v[j] == p {
            assert(strs(v@)[j as int] == p@);
            assert(strs(v@).contains(p@));
            return;
        }
        j = j + 1;
    }
    assert(!strs(v@).contains(p@));
    let ghost before = v@;
    v.push(p);
    proof {
        lemma_strs_push(before, p);
    }
}

impl DependencyGraph {
    /// A graph with nothing loaded and nothing seen.
    pub fn new() -> (r: DependencyGraph)
        ensures
            r@.wf(),
            r@.keys.len() == 0,
            r@.roots.len() == 0,
            r@.noted.len() == 0,
            r@.attempted.len() == 0,
    {
        let r = DependencyGraph {
            keys: Vec::new(),
            labels: Vec::new(),
            inputs: Vec::new(),
            roots: Vec::new(),
            noted: Vec::new(),
            attempted: Vec::new(),
        };
        assert(r@.keys =~= Seq::<Seq<char>>::empty());
        assert(r@.noted =~= Seq::<Seq<char>>::empty());
        assert(r@.attempted =~= Seq::<Seq<char>>::empty());
        r
    }

    /// The node of derivation `key`, added without label or inputs when
    /// it is new.
    fn ensure_node(&mut self, key: String) -> (i: usize)
        requires
            old(self)@.wf(),
        ensures
            final(self)@.wf(),
            i < final(self)@.keys.len(),
            final(self)@.keys[i as int] == key@,
            old(self)@.keys.len() <= final(self)@.keys.len(),
            forall|j: int| 0 <= j < old(self)@.keys.len() ==> final(self)@.keys[j] == old(self)@.keys[j],
            forall|k: Seq<char>| final(self)@.has_node(k) == (old(self)@.has_node(k) || k == key@),
            forall|k: Seq<char>| old(self)@.has_node(k) ==> final(self)@.label_of(k) == old(self)@.label_of(k),
            final(self)@.label_of(key@) == old(self)@.label_of(key@),
            forall|a: Seq<char>, b: Seq<char>| final(self)@.has_edge(a, b) == old(self)@.has_edge(a, b),
            forall|k: Seq<char>| final(self)@.is_root(k) == old(self)@.is_root(k),
            final(self)@.noted == old(self)@.noted,
            final(self)@.attempted == old(self)@.attempted,
    {
        let ghost g = self@;
        let mut j: usize = 0;
        while j < self.keys.len()
            invariant
                self@ == g,
                g.wf(),
                j <= self.keys.len(),
                forall|q: int| 0 <= q < j ==> g.keys[q] != key@,
            decreases self.keys.len() - j,
        {
            if self.keys[j] == key {
                assert(g.keys[j as int] == key@);
                proof {
                    lemma_index_of(g, j as int);
                }
                return j;
            }
            j = j + 1;
        }
        assert(!g.has_node(key@));
        let n = self.keys.len();
        self.keys.push(key);
        self.labels.push(String::new());
        self.inputs.push(Vec::new());
        let ghost h = self@;
        proof {
            assert(h.keys =~= g.keys.push(key@));
            assert(h.labels =~= g.labels.push(Seq::<char>::empty()));
            assert(h.inputs =~= g.inputs.push(Seq::<usize>::empty()));
            assert(h.noted =~= g.noted);
            assert(h.attempted =~= g.attempted);
            assert(h.roots =~= g.roots);
            assert forall|i: int, m: int|
                0 <= i < h.inputs.len() && 0 <= m < h.inputs[i].len() implies #[trigger] h.inputs[i][m]
                    < h.keys.len() by {
                assert(i < n);
                assert(h.inputs[i] == g.inputs[i]);
            }
            assert forall|i: int, j: int|
                0 <= i < h.keys.len() && 0 <= j < h.keys.len() && i != j implies #[trigger] h.keys[i]
                    != #[trigger] h.keys[j] by {
                if i < n && j < n {
                } else if i < n {
                    assert(g.keys[i] != key@);
                } else {
                    assert(g.keys[j] != key@);
                }
            }
            assert(h.wf());
            assert forall|k: Seq<char>| h.has_node(k) == (g.has_node(k) || k == key@) by {
                if g.has_node(k) {
                    let q = choose|q: int| 0 <= q < g.keys.len() && #[trigger] g.keys[q] == k;
                    assert(h.keys[q] == k);
                }
                if k == key@ {
                    assert(h.keys[n as int] == k);
                }
                if h.has_node(k) {
                    let q = choose|q: int| 0 <= q < h.keys.len() && #[trigger] h.keys[q] == k;
                    if q < n {
                        assert(g.keys[q] == k);
                    }
                }
            }
            assert forall|k: Seq<char>| g.has_node(k) implies h.label_of(k) == g.label_of(k) by {
                let q = g.index_of(k);
                lemma_index_of(g, q);
                lemma_index_of(h, q);
            }
            lemma_index_of(h, n as int);
            assert forall|a: Seq<char>, b: Seq<char>| h.has_edge(a, b) == g.has_edge(a, b) by {
                if g.has_edge(a, b) {
                    let (i, m) = choose|i: int, m: int|
                        #![trigger g.keys[i], g.inputs[i][m]]
                        0 <= i < g.keys.len() && 0 <= m < g.inputs[i].len() && g.keys[i] == b
                            && g.keys[g.inputs[i][m] as int] == a;
                    assert(h.keys[i] == b && h.inputs[i][m] == g.inputs[i][m]);
                    assert(h.keys[h.inputs[i][m] as int] == a);
                }
                if h.has_edge(a, b) {
                    let (i, m) = choose|i: int, m: int|
                        #![trigger h.keys[i], h.inputs[i][m]]
                        0 <= i < h.keys.len() && 0 <= m < h.inputs[i].len() && h.keys[i] == b
                            && h.keys[h.inputs[i][m] as int] == a;
                    assert(i < n);
                    assert(g.keys[i] == b && h.inputs[i][m] == g.inputs[i][m]);
                    assert(g.keys[g.inputs[i][m] as int] == a);
                }
            }
            assert forall|k: Seq<char>| h.is_root(k) == g.is_root(k) by {
                if g.is_root(k) {
                    let r = choose|r: int| 0 <= r < g.roots.len() && g.keys[#[trigger] g.roots[r] as int] == k;
                    assert(h.keys[h.roots[r] as int] == k);
                }
                if h.is_root(k) {
                    let r = choose|r: int| 0 <= r < h.roots.len() && h.keys[#[trigger] h.roots[r] as int] == k;
                    assert(g.keys[g.roots[r] as int] == k);
                }
            }
        }
        n
    }

    fn set_label(&mut self, i: usize, label: String)
        requires
            old(self)@.wf(),
            i < old(self)@.keys.len(),
        ensures
            final(self)@.wf(),
            final(self)@.keys == old(self)@.keys,
            forall|k: Seq<char>| final(self)@.has_node(k) == old(self)@.has_node(k),
            final(self)@.label_of(old(self)@.keys[i as int]) == label@,
            forall|k: Seq<char>|
                k != old(self)@.keys[i as int] ==> final(self)@.label_of(k) == old(self)@.label_of(k),
            forall|a: Seq<char>, b: Seq<char>| final(self)@.has_edge(a, b) == old(self)@.has_edge(a, b),
            forall|k: Seq<char>| final(self)@.is_root(k) == old(self)@.is_root(k),
            final(self)@.noted == old(self)@.noted,
            final(self)@.attempted == old(self)@.attempted,
    {
        let ghost g = self@;
        let ghost lv = label@;
        self.labels.set(i, label);
        let ghost h = self@;
        proof {
            assert(h.keys =~= g.keys);
            assert(h.inputs =~= g.inputs);
            assert(h.roots =~= g.roots);
            assert(h.noted =~= g.noted);
            assert(h.attempted =~= g.attempted);
            assert(h.labels =~= g.labels.update(i as int, lv));
            lemma_index_of(h, i as int);
            assert forall|k: Seq<char>| k != g.keys[i as int] implies h.label_of(k) == g.label_of(k) by {
                if g.has_node(k) {
                    let q = g.index_of(k);
                    lemma_index_of(g, q);
                    lemma_index_of(h, q);
                }
            }
        }
    }

    fn add_edge(&mut self, from: usize, to: usize)
        requires
            old(self)@.wf(),
            from < old(self)@.keys.len(),
            to < old(self)@.keys.len(),
        ensures
            final(self)@.wf(),
            final(self)@.keys == old(self)@.keys,
            forall|k: Seq<char>| final(self)@.has_node(k) == old(self)@.has_node(k),
            forall|k: Seq<char>| final(self)@.label_of(k) == old(self)@.label_of(k),
            forall|a: Seq<char>, b: Seq<char>|
                final(self)@.has_edge(a, b) == (old(self)@.has_edge(a, b) || (a == old(self)@.keys[
                    from as int] && b == old(self)@.keys[to as int])),
            forall|k: Seq<char>| final(self)@.is_root(k) == old(self)@.is_root(k),
            final(self)@.noted == old(self)@.noted,
            final(self)@.attempted == old(self)@.attempted,
    {
        let ghost g = self@;
        let mut m: usize = 0;
        while m < self.inputs[to].len()
            invariant
                self@ == g,
                g.wf(),
                to < g.keys.len(),
                self.inputs@.len() == g.keys.len(),
                m <= self.inputs@[to as int]@.len(),
                forall|q: int| 0 <= q < m ==> self.inputs@[to as int]@[q] != from,
            decreases self.inputs@[to as int]@.len() - m,
        {
            if self.inputs[to][m] == from {
                proof {
                    assert(g.inputs[to as int][m as int] == from);
                    assert(g.has_edge(g.keys[from as int], g.keys[to as int]));
                }
                return;
            }
            m = m + 1;
        }
        self.inputs[to].push(from);
        let ghost h = self@;
        proof {
            assert(h.keys =~= g.keys);
            assert(h.labels =~= g.labels);
            assert(h.roots =~= g.roots);
            assert(h.noted =~= g.noted);
            assert(h.attempted =~= g.attempted);
            assert(h.inputs =~= g.inputs.update(to as int, g.inputs[to as int].push(from)));
            assert forall|i: int, m: int|
                0 <= i < h.inputs.len() && 0 <= m < h.inputs[i].len() implies #[trigger] h.inputs[i][m]
                    < h.keys.len() by {
                if i == to && m == g.inputs[i].len() {
                } else {
                    assert(h.inputs[i][m] == g.inputs[i][m]);
                }
            }
            assert(h.wf());
            assert forall|k: Seq<char>| h.label_of(k) == g.label_of(k) by {
                if g.has_node(k) {
                    let q = g.index_of(k);
                    lemma_index_of(g, q);
                    lemma_index_of(h, q);
                }
            }
            assert forall|a: Seq<char>, b: Seq<char>|
                h.has_edge(a, b) == (g.has_edge(a, b) || (a == g.keys[from as int] && b == g.keys[
                    to as int])) by {
                if g.has_edge(a, b) {
                    let (i, m) = choose|i: int, m: int|
                        #![trigger g.keys[i], g.inputs[i][m]]
                        0 <= i < g.keys.len() && 0 <= m < g.inputs[i].len() && g.keys[i] == b
                            && g.keys[g.inputs[i][m] as int] == a;
                    assert(h.inputs[i][m] == g.inputs[i][m]);
                    assert(h.keys[i] == b && h.keys[h.inputs[i][m] as int] == a);
                }
                if a == g.keys[from as int] && b == g.keys[to as int] {
                    let m = g.inputs[to as int].len() as int;
                    assert(h.inputs[to as int][m] == from);
                    assert(h.keys[to as int] == b && h.keys[h.inputs[to as int][m] as int] == a);
                }
                if h.has_edge(a, b) {
                    let (i, m) = choose|i: int, m: int|
                        #![trigger h.keys[i], h.inputs[i][m]]
                        0 <= i < h.keys.len() && 0 <= m < h.inputs[i].len() && h.keys[i] == b
                            && h.keys[h.inputs[i][m] as int] == a;
                    if i == to && m == g.inputs[i].len() {
                    } else {
                        assert(h.inputs[i][m] == g.inputs[i][m]);
                        assert(g.keys[i] == b && g.keys[g.inputs[i][m] as int] == a);
                    }
                }
            }
        }
    }

    fn apply_entry(&mut self, e: DotEntry)
        requires
            old(self)@.wf(),
        ensures
            final(self)@.wf(),
            forall|k: Seq<char>|
                final(self)@.has_node(k) == (old(self)@.has_node(k) || item_mentions(e.item(), k)),
            forall|a: Seq<char>, b: Seq<char>|
                final(self)@.has_edge(a, b) == (old(self)@.has_edge(a, b) || e.item() == DotItem::Edge(
                    a,
                    b,
                )),
            forall|k: Seq<char>|
                final(self)@.has_node(k) ==> final(self)@.label_of(k) == match item_label(e.item(), k) {
                    Some(l) => l,
                    None => old(self)@.label_of(k),
                },
            forall|k: Seq<char>| final(self)@.is_root(k) == old(self)@.is_root(k),
            final(self)@.noted == old(self)@.noted,
            final(self)@.attempted == old(self)@.attempted,
    {
        let ghost it = e.item();
        match e {
            DotEntry::Node(a, l) => {
                let ghost av = a@;
                let i = self.ensure_node(a);
                match l {
                    Some(v) => {
                        self.set_label(i, v);
                    },
                    None => {},
                }
                assert forall|x: Seq<char>, y: Seq<char>| it != DotItem::Edge(x, y) by {}
            },
            DotEntry::Edge(a, b) => {
                let ghost av = a@;
                let ghost bv = b@;
                let i = self.ensure_node(a);
                let j = self.ensure_node(b);
                assert(self@.keys[i as int] == av);
                self.add_edge(i, j);
                assert forall|x: Seq<char>, y: Seq<char>|
                    (it == DotItem::Edge(x, y)) == (x == av && y == bv) by {}
            },
            DotEntry::Skip => {
                assert forall|x: Seq<char>, y: Seq<char>| it != DotItem::Edge(x, y) by {}
            },
        }
    }

    /// Adds what `nix-store --query --graph` printed for the derivation
    /// `root`: each node with its label, each edge from a dependency to the
    /// derivation that uses it; `root` itself becomes a loaded root.
    pub fn note_dot_graph(&mut self, root: &str, dot: &str)
        requires
            old(self)@.wf(),
        ensures
            final(self)@.wf(),
            forall|k: Seq<char>|
                final(self)@.has_node(k) == (old(self)@.has_node(k) || mentions(dot_items(dot@), k)
                    || k == store_key(root@)),
            forall|a: Seq<char>, b: Seq<char>|
                final(self)@.has_edge(a, b) == (old(self)@.has_edge(a, b) || dot_items(dot@).contains(
                    DotItem::Edge(a, b),
                )),
            forall|k: Seq<char>|
                final(self)@.has_node(k) ==> final(self)@.label_of(k) == match last_label(
                    dot_items(dot@),
                    k,
                ) {
                    Some(l) => l,
                    None => old(self)@.label_of(k),
                },
            forall|k: Seq<char>|
                final(self)@.is_root(k) == (old(self)@.is_root(k) || k == store_key(root@)),
            final(self)@.noted == old(self)@.noted,
            final(self)@.attempted == old(self)@.attempted,
    {
        let ls = lines(dot);
        let ghost items = dot_items(dot@);
        let ghost g0 = self@;
        let mut m: usize = 0;
        assert(items.take(0) =~= Seq::<DotItem>::empty());
        while m < ls.len()
            invariant
                strs(ls@) == lines_of(dot@),
                items == dot_items(dot@),
                items.len() == ls.len(),
                self@.wf(),
                m <= ls.len(),
                forall|k: Seq<char>|
                    self@.has_node(k) == (g0.has_node(k) || mentions(items.take(m as int), k)),
                forall|a: Seq<char>, b: Seq<char>|
                    self@.has_edge(a, b) == (g0.has_edge(a, b) || items.take(m as int).contains(
                        DotItem::Edge(a, b),
                    )),
                forall|k: Seq<char>|
                    self@.has_node(k) ==> self@.label_of(k) == match last_label(items.take(m as int), k) {
                        Some(l) => l,
                        None => g0.label_of(k),
                    },
                forall|k: Seq<char>| self@.is_root(k) == g0.is_root(k),
                self@.noted == g0.noted,
                self@.attempted == g0.attempted,
            decreases ls.len() - m,
        {
            let e = parse_dot_line(ls[m].as_str());
            let ghost before = self@;
            let ghost prev = items.take(m as int);
            proof {
                assert(strs(ls@)[m as int] == ls@[m as int]@);
                assert(e.item() == items[m as int]);
                lemma_items_push(prev, items[m as int]);
                assert(items.take(m + 1) =~= prev.push(items[m as int]));
            }
            self.apply_entry(e);
            let ghost s1 = items.take(m + 1);
            proof {
                assert(s1 == prev.push(items[m as int]));
                assert forall|k: Seq<char>|
                    self@.has_node(k) == (g0.has_node(k) || mentions(s1, k)) by {
                    assert(before.has_node(k) == (g0.has_node(k) || mentions(prev, k)));
                    assert(mentions(prev.push(items[m as int]), k) == (mentions(prev, k) || item_mentions(items[m as int], k)));
                }
                assert forall|a: Seq<char>, b: Seq<char>|
                    #![trigger self@.has_edge(a, b)]
                    self@.has_edge(a, b) == (g0.has_edge(a, b) || s1.contains(DotItem::Edge(a, b))) by {
                    assert(before.has_edge(a, b) == (g0.has_edge(a, b) || prev.contains(DotItem::Edge(a, b))));
                    assert(prev.push(items[m as int]).contains(DotItem::Edge(a, b)) == (prev.contains(
                        DotItem::Edge(a, b),
                    ) || items[m as int] == DotItem::Edge(a, b)));
                }
                assert forall|k: Seq<char>| self@.has_node(k) implies self@.label_of(k) == match last_label(s1, k) {
                    Some(l) => l,
                    None => g0.label_of(k),
                } by {
                    lemma_last_label_push(prev, items[m as int], k);
                    if !before.has_node(k) {
                        assert(before.has_node(k) == (g0.has_node(k) || mentions(prev, k)));
                        assert(!mentions(prev, k));
                        lemma_last_label_mentions(prev, k);
                    }
                }
            }
            m = m + 1;
            assert(items.take(m as int) == s1);
        }
        assert(items.take(m as int) =~= items);
        let rk = store_key_of(root);
        let ghost before = self@;
        proof {
            assert forall|k: Seq<char>| !before.has_node(k) implies last_label(items, k) is None
                && !g0.has_node(k) && before.label_of(k) == Seq::<char>::empty() by {
                assert(before.has_node(k) == (g0.has_node(k) || mentions(items, k)));
                assert(!mentions(items, k));
                lemma_last_label_mentions(items, k);
            }
        }
        let i = self.ensure_node(rk);
        self.add_root(i);
        proof {
            assert forall|a: Seq<char>, b: Seq<char>|
                #![trigger self@.has_edge(a, b)]
                self@.has_edge(a, b) == (g0.has_edge(a, b) || items.contains(DotItem::Edge(a, b))) by {
                assert(before.has_edge(a, b) == (g0.has_edge(a, b) || items.take(m as int).contains(
                    DotItem::Edge(a, b),
                )));
            }
        }
    }

    fn lookup(&self, key: &String) -> (r: Option<usize>)
        requires
            self@.wf(),
        ensures
            match r {
                Some(i) => i < self@.keys.len() && self@.keys[i as int] == key@ && self@.index_of(key@)
                    == i && self@.has_node(key@),
                None => !self@.has_node(key@),
            },
    {
        let ghost g = self@;
        let mut j: usize = 0;
        while j < self.keys.len()
            invariant
                self@ == g,
                g.wf(),
                j <= self.keys.len(),
                forall|q: int| 0 <= q < j ==> g.keys[q] != key@,
            decreases self.keys.len() - j,
        {
            if self.keys[j] == *key {
                proof {
                    lemma_index_of(g, j as int);
                }
                return Some(j);
            }
            j = j + 1;
        }
        None
    }

    /// How derivation `key` (a key or a full store path) is shown.
    pub fn label(&self, key: &str) -> (r: String)
        requires
            self@.wf(),
        ensures
            r@ == self@.display_label(store_key(key@)),
    {
        let k = store_key_of(key);
        let stored: Option<String> = match self.lookup(&k) {
            Some(i) => {
                proof {
                    lemma_index_of(self@, i as int);
                }
                Some(self.labels[i].clone())
            },
            None => None,
        };
        match stored {
            Some(l) => {
                if l.as_str().is_empty() == false {
                    return l;
                }
            },
            None => {},
        }
        derivation_name_of(k.as_str())
    }

    /// Whether some derivation graph was loaded.
    pub fn roots_loaded(&self) -> (r: bool)
        ensures
            r == (self@.roots.len() > 0),
    {
        self.roots.len() > 0
    }

    /// Remembers a derivation path seen in the build output.
    pub fn note_path(&mut self, path: &str)
        requires
            old(self)@.wf(),
        ensures
            final(self)@.wf(),
            final(self)@.noted == add_once(old(self)@.noted, path@),
            final(self)@.attempted == old(self)@.attempted,
            final(self)@.same_graph(old(self)@),
    {
        let ghost g = self@;
        push_once(&mut self.noted, path.to_owned());
        proof {
            let h = self@;
            assert(h.keys =~= g.keys);
            assert(h.labels =~= g.labels);
            assert(h.inputs =~= g.inputs);
            assert(h.roots =~= g.roots);
        }
    }

    /// Remembers every derivation path named in `text`.
    pub fn note_paths_from_text(&mut self, text: &str)
        requires
            old(self)@.wf(),
        ensures
            final(self)@.wf(),
            final(self)@.noted == add_all(old(self)@.noted, drv_paths(text@)),
            final(self)@.attempted == old(self)@.attempted,
            final(self)@.same_graph(old(self)@),
    {
        let paths = extract_derivation_paths(text);
        let ghost g = self@;
        let ghost ps = drv_paths(text@);
        let mut j: usize = 0;
        assert(ps.take(0) =~= Seq::<Seq<char>>::empty());
        while j < paths.len()
            invariant
                strs(paths@) == ps,
                j <= paths.len(),
                self@.wf(),
                self@.noted == add_all(g.noted, ps.take(j as int)),
                self@.attempted == g.attempted,
                self@.same_graph(g),
            decreases paths.len() - j,
        {
            self.note_path(paths[j].as_str());
            proof {
                assert(ps.take(j + 1).drop_last() =~= ps.take(j as int));
                assert(strs(paths@)[j as int] == paths@[j as int]@);
            }
            j = j + 1;
        }
        assert(ps.take(j as int) =~= ps);
    }

    /// The system derivations seen whose graph has not been asked for.
    pub fn roots_to_load(&self) -> (r: Vec<String>)
        ensures
            strs(r@) == pending_roots(self@.noted, self@.attempted),
    {
        let ghost g = self@;
        let mut out: Vec<String> = Vec::new();
        let mut j: usize = 0;
        assert(g.noted.take(0) =~= Seq::<Seq<char>>::empty());
        assert(strs(out@) =~= Seq::<Seq<char>>::empty());
        while j < self.noted.len()
            invariant
                self@ == g,
                j <= self.noted.len(),
                g.noted == strs(self.noted@),
                strs(out@) == pending_roots(g.noted.take(j as int), g.attempted),
            decreases self.noted.len() - j,
        {
            let p = &self.noted[j];
            assert(g.noted.take(j + 1).drop_last() =~= g.noted.take(j as int));
            assert(g.noted.take(j + 1).last() == p@);
            let k = store_key_of(p.as_str());
            if crate::text::contains_str(k.as_str(), "-nixos-system-") {
                let mut asked = false;
                let mut q: usize = 0;
                while q < self.attempted.len()
                    invariant
                        self@ == g,
                        q <= self.attempted.len(),
                        g.attempted == strs(self.attempted@),
                        asked == (exists|x: int| 0 <= x < q && g.attempted[x] == p@),
                    decreases self.attempted.len() - q,
                {
                    if self.attempted[q] == *p {
                        assert(g.attempted[q as int] == p@);
                        asked = true;
                    }
                    q = q + 1;
                }
                if !asked {
                    let ghost before = out@;
                    let c = p.clone();
                    out.push(c);
                    proof {
                        lemma_strs_push(before, c);
                    }
                }
            }
            j = j + 1;
        }
        assert(g.noted.take(j as int) =~= g.noted);
        out
    }

    /// Records that the graph of `root` was asked for.
    pub fn mark_attempted(&mut self, root: &str)
        requires
            old(self)@.wf(),
        ensures
            final(self)@.wf(),
            final(self)@.attempted == add_once(old(self)@.attempted, root@),
            final(self)@.noted == old(self)@.noted,
            final(self)@.same_graph(old(self)@),
    {
        let ghost g = self@;
        push_once(&mut self.attempted, root.to_owned());
        proof {
            let h = self@;
            assert(h.keys =~= g.keys);
            assert(h.labels =~= g.labels);
            assert(h.inputs =~= g.inputs);
            assert(h.roots =~= g.roots);
        }
    }

    /// A route from a loaded root down to the first derivation of `active`
    /// that some route reaches; `None` when none is reached.
    pub fn active_path(&self, active: &[String]) -> (r: Option<Vec<String>>)
        requires
            self@.wf(),
        ensures
            self@.is_active_route(
                strs(active@),
                match r {
                    Some(p) => Some(strs(p@)),
                    None => None,
                },
            ),
    {
        let ghost g = self@;
        let n = self.keys.len();
        let mut seen: Vec<bool> = Vec::new();
        let mut routes: Vec<Vec<usize>> = Vec::new();
        let mut k: usize = 0;
        while k < n
            invariant
                k <= n,
                n == g.keys.len(),
                seen@.len() == k,
                routes@.len() == k,
                forall|x: int| 0 <= x < k ==> !seen@[x],
            decreases n - k,
        {
            seen.push(false);
            routes.push(Vec::new());
            k = k + 1;
        }
        assert(count_true(seen@) == 0) by {
            assert forall|s: Seq<bool>| (forall|x: int| 0 <= x < s.len() ==> !s[x]) implies count_true(s) == 0 by {
                lemma_all_false(s);
            }
        }
        let mut order: Vec<usize> = Vec::new();
        let mut r: usize = 0;
        while r < self.roots.len()
            invariant
                self@ == g,
                g.wf(),
                n == g.keys.len(),
                r <= g.roots.len(),
                seen@.len() == n,
                routes@.len() == n,
                order@.len() == count_true(seen@),
                forall|q: int| 0 <= q < order@.len() ==> (#[trigger] order@[q]) < n && seen@[order@[q] as int],
                forall|x: int| 0 <= x < n && seen@[x] ==> exists|q: int| 0 <= q < order@.len() && order@[q] == x,
                forall|x: int|
                    0 <= x < n && seen@[x] ==> g.is_index_route(#[trigger] routes@[x]@) && routes@[x]@.last()
                        == x,
                forall|s: int| 0 <= s < r ==> seen@[#[trigger] g.roots[s] as int],
                forall|x: int| 0 <= x < n && seen@[x] ==> (#[trigger] routes@[x])@.len() == 1,
            decreases g.roots.len() - r,
        {
            let x = self.roots[r];
            if !seen[x] {
                proof {
                    lemma_count_true_set(seen@, x as int);
                }
                let ghost old_seen = seen@;
                let ghost old_order = order@;
                seen.set(x, true);
                let mut single: Vec<usize> = Vec::new();
                single.push(x);
                proof {
                    assert(g.roots[r as int] == x);
                    assert(g.roots.contains(x));
                    assert(single@[0] == x);
                }
                routes.set(x, single);
                order.push(x);
                proof {
                    assert(order@[order@.len() - 1] == x);
                    assert forall|z: int| 0 <= z < n && seen@[z] implies exists|q: int| 0 <= q < order@.len() && order@[q] == z by {
                        if z != x {
                            assert(old_seen[z]);
                            let q = choose|q: int| 0 <= q < old_order.len() && old_order[q] == z;
                            assert(order@[q] == old_order[q]);
                        } else {
                            assert(order@[order@.len() - 1] == z);
                        }
                    }
                }
            }
            r = r + 1;
        }
        assert forall|s: int| 0 <= s < g.roots.len() implies (#[trigger] routes@[g.roots[s] as int])@.len() == 1 by {
            assert(seen@[g.roots[s] as int]);
        }
        let mut head: usize = 0;
        while head < order.len()
            invariant
                forall|s: int| 0 <= s < g.roots.len() ==> (#[trigger] routes@[g.roots[s] as int])@.len() == 1,
                forall|q1: int, q2: int|
                    #![trigger order@[q1], order@[q2]]
                    0 <= q1 <= q2 < order@.len() ==> routes@[order@[q1] as int]@.len() <= routes@[order@[q2] as int]@.len(),
                forall|q1: int, q2: int|
                    #![trigger order@[q1], order@[q2]]
                    head <= q1 < order@.len() && 0 <= q2 < order@.len() ==> routes@[order@[q2] as int]@.len()
                        <= routes@[order@[q1] as int]@.len() + 1,
                forall|q: int, w: int|
                    0 <= q < head && 0 <= w < g.inputs[order@[q] as int].len() ==> routes@[#[trigger] g.inputs[order@[q] as int][w] as int]@.len()
                        <= routes@[order@[q] as int]@.len() + 1,
                self@ == g,
                g.wf(),
                n == g.keys.len(),
                head <= order@.len(),
                seen@.len() == n,
                routes@.len() == n,
                order@.len() == count_true(seen@),
                forall|q: int| 0 <= q < order@.len() ==> (#[trigger] order@[q]) < n && seen@[order@[q] as int],
                forall|x: int| 0 <= x < n && seen@[x] ==> exists|q: int| 0 <= q < order@.len() && order@[q] == x,
                forall|x: int|
                    0 <= x < n && seen@[x] ==> g.is_index_route(#[trigger] routes@[x]@) && routes@[x]@.last()
                        == x,
                forall|s: int| 0 <= s < g.roots.len() ==> seen@[#[trigger] g.roots[s] as int],
                forall|q: int, m: int|
                    0 <= q < head && 0 <= m < g.inputs[order@[q] as int].len() ==> seen@[#[trigger] g.inputs[order@[q] as int][m] as int],
            decreases n - head,
        {
            proof {
                lemma_count_true_le(seen@);
            }
            let x = order[head];
            let ghost lx = routes@[x as int]@.len();
            let mut m: usize = 0;
            while m < self.inputs[x].len()
                invariant
                    lx == routes@[x as int]@.len(),
                    forall|s: int| 0 <= s < g.roots.len() ==> (#[trigger] routes@[g.roots[s] as int])@.len() == 1,
                    forall|q1: int, q2: int|
                        #![trigger order@[q1], order@[q2]]
                        0 <= q1 <= q2 < order@.len() ==> routes@[order@[q1] as int]@.len() <= routes@[order@[q2] as int]@.len(),
                    forall|q1: int, q2: int|
                        #![trigger order@[q1], order@[q2]]
                        head <= q1 < order@.len() && 0 <= q2 < order@.len() ==> routes@[order@[q2] as int]@.len()
                            <= routes@[order@[q1] as int]@.len() + 1,
                    forall|q: int, w: int|
                        0 <= q < head && 0 <= w < g.inputs[order@[q] as int].len() ==> routes@[#[trigger] g.inputs[order@[q] as int][w] as int]@.len()
                            <= routes@[order@[q] as int]@.len() + 1,
                    forall|w: int| 0 <= w < m ==> routes@[#[trigger] g.inputs[x as int][w] as int]@.len() <= lx + 1,
                    self@ == g,
                    g.wf(),
                    n == g.keys.len(),
                    x < n,
                    head < order@.len(),
                    order@[head as int] == x,
                    seen@[x as int],
                    m <= g.inputs[x as int].len(),
                    self.inputs@[x as int]@ == g.inputs[x as int],
                    seen@.len() == n,
                    routes@.len() == n,
                    order@.len() == count_true(seen@),
                    forall|q: int| 0 <= q < order@.len() ==> (#[trigger] order@[q]) < n && seen@[order@[q] as int],
                    forall|z: int| 0 <= z < n && seen@[z] ==> exists|q: int| 0 <= q < order@.len() && order@[q] == z,
                    forall|z: int|
                        0 <= z < n && seen@[z] ==> g.is_index_route(#[trigger] routes@[z]@) && routes@[z]@.last()
                            == z,
                    forall|s: int| 0 <= s < g.roots.len() ==> seen@[#[trigger] g.roots[s] as int],
                    forall|q: int, w: int|
                        0 <= q < head && 0 <= w < g.inputs[order@[q] as int].len() ==> seen@[#[trigger] g.inputs[order@[q] as int][w] as int],
                    forall|w: int| 0 <= w < m ==> seen@[#[trigger] g.inputs[x as int][w] as int],
                decreases g.inputs[x as int].len() - m,
            {
                let y = self.inputs[x][m];
                if seen[y] {
                    proof {
                        let q2 = choose|q: int| 0 <= q < order@.len() && order@[q] == y as int;
                        assert(routes@[order@[q2] as int]@.len() <= routes@[order@[head as int] as int]@.len() + 1);
                        assert(routes@[g.inputs[x as int][m as int] as int]@.len() <= lx + 1);
                    }
                } else {
                    proof {
                        lemma_count_true_set(seen@, y as int);
                        lemma_count_true_le(seen@.update(y as int, true));
                    }
                    let mut p: Vec<usize> = Vec::new();
                    let mut c: usize = 0;
                    while c < routes[x].len()
                        invariant
                            x < routes@.len(),
                            c <= routes@[x as int]@.len(),
                            p@ == routes@[x as int]@.take(c as int),
                        decreases routes@[x as int]@.len() - c,
                    {
                        p.push(routes[x][c]);
                        c = c + 1;
                        assert(p@ =~= routes@[x as int]@.take(c as int));
                    }
                    let ghost rx = routes@[x as int]@;
                    assert(p@ =~= rx);
                    p.push(y);
                    proof {
                        let q = p@;
                        assert(q =~= rx.push(y));
                        assert(g.inputs[x as int].contains(y));
                        assert forall|i: int, j: int|
                            #![trigger q[i], q[j]]
                            0 <= i && j == i + 1 && j < q.len() implies g.inputs[q[i] as int].contains(q[j]) by {
                            if j < rx.len() {
                                assert(rx[i] == q[i] && rx[j] == q[j]);
                            } else {
                                assert(q[i] == rx.last());
                            }
                        }
                        assert forall|i: int| 0 <= i < q.len() implies (#[trigger] q[i]) < g.keys.len() by {
                            if i < rx.len() {
                                assert(rx[i] == q[i]);
                            }
                        }
                        assert(q[0] == rx[0]);
                        assert(g.is_index_route(q));
                    }
                    let ghost old_seen = seen@;
                    let ghost old_order = order@;
                    let ghost old_routes = routes@;
                    let ghost ly = p@.len();
                    assert(ly == lx + 1);
                    seen.set(y, true);
                    routes.set(y, p);
                    order.push(y);
                    proof {
                        assert(order@[order@.len() - 1] == y);
                        assert forall|q: int| 0 <= q < old_order.len() implies #[trigger] routes@[old_order[q] as int] == old_routes[old_order[q] as int] by {
                            assert(old_seen[old_order[q] as int]);
                        }
                        assert forall|q: int| 0 <= q < old_order.len() implies #[trigger] order@[q] == old_order[q] by {}
                        assert(routes@[y as int]@.len() == ly);
                        assert forall|q1: int, q2: int|
                            #![trigger order@[q1], order@[q2]]
                            0 <= q1 <= q2 < order@.len() implies routes@[order@[q1] as int]@.len() <= routes@[order@[q2] as int]@.len() by {
                            if q2 == old_order.len() {
                                if q1 < old_order.len() {
                                    assert(old_routes[old_order[q1] as int]@.len() <= old_routes[old_order[head as int] as int]@.len() + 1);
                                }
                            } else {
                                assert(old_routes[old_order[q1] as int]@.len() <= old_routes[old_order[q2] as int]@.len());
                            }
                        }
                        assert forall|q1: int, q2: int|
                            #![trigger order@[q1], order@[q2]]
                            head <= q1 < order@.len() && 0 <= q2 < order@.len() implies routes@[order@[q2] as int]@.len()
                                <= routes@[order@[q1] as int]@.len() + 1 by {
                            if q1 < old_order.len() {
                                assert(old_routes[old_order[head as int] as int]@.len() <= old_routes[old_order[q1] as int]@.len());
                                if q2 < old_order.len() {
                                    assert(old_routes[old_order[q2] as int]@.len() <= old_routes[old_order[q1] as int]@.len() + 1);
                                }
                            } else if q2 < old_order.len() {
                                assert(old_routes[old_order[q2] as int]@.len() <= old_routes[old_order[head as int] as int]@.len() + 1);
                            }
                        }
                        assert forall|q: int, w: int|
                            0 <= q < head && 0 <= w < g.inputs[order@[q] as int].len() implies routes@[#[trigger] g.inputs[order@[q] as int][w] as int]@.len()
                                <= routes@[order@[q] as int]@.len() + 1 by {
                            assert(old_seen[g.inputs[old_order[q] as int][w] as int]);
                        }
                        assert forall|w: int| 0 <= w < m + 1 implies routes@[#[trigger] g.inputs[x as int][w] as int]@.len() <= lx + 1 by {
                            if w < m {
                                assert(old_seen[g.inputs[x as int][w] as int]);
                            }
                        }
                        assert forall|s: int| 0 <= s < g.roots.len() implies (#[trigger] routes@[g.roots[s] as int])@.len() == 1 by {
                            assert(old_seen[g.roots[s] as int]);
                        }
                        assert forall|z: int| 0 <= z < n && seen@[z] implies exists|q: int| 0 <= q < order@.len() && order@[q] == z by {
                            if z != y {
                                assert(old_seen[z]);
                                let q = choose|q: int| 0 <= q < old_order.len() && old_order[q] == z;
                                assert(order@[q] == old_order[q]);
                            } else {
                                assert(order@[order@.len() - 1] == z);
                            }
                        }
                    }
                }
                m = m + 1;
            }
            proof {
                assert forall|q: int, w: int|
                    0 <= q < head + 1 && 0 <= w < g.inputs[order@[q] as int].len() implies routes@[#[trigger] g.inputs[order@[q] as int][w] as int]@.len()
                        <= routes@[order@[q] as int]@.len() + 1 by {
                    if q == head {
                        assert(routes@[g.inputs[x as int][w] as int]@.len() <= lx + 1);
                    }
                }
                assert forall|q1: int, q2: int|
                    #![trigger order@[q1], order@[q2]]
                    head + 1 <= q1 < order@.len() && 0 <= q2 < order@.len() implies routes@[order@[q2] as int]@.len()
                        <= routes@[order@[q1] as int]@.len() + 1 by {
                    assert(routes@[order@[q2] as int]@.len() <= routes@[order@[head as int] as int]@.len() + 1);
                    assert(routes@[order@[head as int] as int]@.len() <= routes@[order@[q1] as int]@.len());
                }
            }
            head = head + 1;
        }
        proof {
            assert forall|z: int, w: int|
                0 <= z < n && seen@[z] && 0 <= w < g.inputs[z].len() implies seen@[#[trigger] g.inputs[z][w] as int] by {
                let q = choose|q: int| 0 <= q < order@.len() && order@[q] == z;
                assert(seen@[g.inputs[order@[q] as int][w] as int]);
            }
            assert forall|z: int, w: int|
                0 <= z < n && seen@[z] && 0 <= w < g.inputs[z].len() implies routes@[#[trigger] g.inputs[z][w] as int]@.len()
                    <= routes@[z]@.len() + 1 by {
                let q = choose|q: int| 0 <= q < order@.len() && order@[q] == z;
                assert(routes@[g.inputs[order@[q] as int][w] as int]@.len() <= routes@[order@[q] as int]@.len() + 1);
            }
        }
        let mut j: usize = 0;
        while j < active.len()
            invariant
                self@ == g,
                g.wf(),
                n == g.keys.len(),
                j <= active@.len(),
                seen@.len() == n,
                routes@.len() == n,
                forall|z: int|
                    0 <= z < n && seen@[z] ==> g.is_index_route(#[trigger] routes@[z]@) && routes@[z]@.last()
                        == z,
                forall|s: int| 0 <= s < g.roots.len() ==> seen@[#[trigger] g.roots[s] as int],
                forall|z: int, w: int|
                    0 <= z < n && seen@[z] && 0 <= w < g.inputs[z].len() ==> seen@[#[trigger] g.inputs[z][w] as int],
                forall|i: int| 0 <= i < j ==> !g.reaches(store_key(#[trigger] strs(active@)[i])),
                forall|s: int| 0 <= s < g.roots.len() ==> (#[trigger] routes@[g.roots[s] as int])@.len() == 1,
                forall|z: int, w: int|
                    0 <= z < n && seen@[z] && 0 <= w < g.inputs[z].len() ==> routes@[#[trigger] g.inputs[z][w] as int]@.len()
                        <= routes@[z]@.len() + 1,
            decreases active@.len() - j,
        {
            let key = store_key_of(active[j].as_str());
            assert(strs(active@)[j as int] == active@[j as int]@);
            match self.lookup(&key) {
                Some(i) => {
                    if seen[i] {
                        let rt = &routes[i];
                        let mut out: Vec<String> = Vec::new();
                        let mut c: usize = 0;
                        while c < rt.len()
                            invariant
                                self@ == g,
                                g.wf(),
                                g.is_index_route(rt@),
                                c <= rt@.len(),
                                strs(out@) == g.keys_of(rt@).take(c as int),
                            decreases rt@.len() - c,
                        {
                            let ghost before = out@;
                            let s = self.keys[rt[c]].clone();
                            out.push(s);
                            proof {
                                lemma_strs_push(before, s);
                                assert(g.keys_of(rt@).take(c + 1) =~= g.keys_of(rt@).take(c as int).push(g.keys[rt@[c as int] as int]));
                            }
                            c = c + 1;
                        }
                        proof {
                            assert(g.keys_of(rt@).take(c as int) =~= g.keys_of(rt@));
                            lemma_index_route_is_route(g, rt@);
                            assert(strs(out@).last() == store_key(strs(active@)[j as int]));
                            assert(strs(out@).last() == g.keys[i as int]);
                            assert forall|q: Seq<Seq<char>>|
                                #[trigger] g.is_route(q) && q.last() == strs(out@).last() implies strs(out@).len() <= q.len() by {
                                lemma_route_level(g, seen@, routes@, q, q.len() - 1);
                                lemma_index_of(g, i as int);
                            }
                        }
                        return Some(out);
                    } else {
                        proof {
                            if g.reaches(key@) {
                                let p = choose|p: Seq<Seq<char>>| g.is_route(p) && p.last() == key@;
                                lemma_route_marked(g, seen@, p, p.len() - 1);
                            }
                        }
                    }
                },
                None => {
                    proof {
                        if g.reaches(key@) {
                            lemma_reaches_has_node(g, key@);
                        }
                    }
                },
            }
            j = j + 1;
        }
        None
    }

    fn add_root(&mut self, i: usize)
        requires
            old(self)@.wf(),
            i < old(self)@.keys.len(),
        ensures
            final(self)@.wf(),
            final(self)@.keys == old(self)@.keys,
            forall|k: Seq<char>| final(self)@.has_node(k) == old(self)@.has_node(k),
            forall|k: Seq<char>| final(self)@.label_of(k) == old(self)@.label_of(k),
            forall|a: Seq<char>, b: Seq<char>| final(self)@.has_edge(a, b) == old(self)@.has_edge(a, b),
            forall|k: Seq<char>|
                final(self)@.is_root(k) == (old(self)@.is_root(k) || k == old(self)@.keys[i as int]),
            final(self)@.noted == old(self)@.noted,
            final(self)@.attempted == old(self)@.attempted,
    {
        let ghost g = self@;
        self.roots.push(i);
        let ghost h = self@;
        proof {
            assert(h.keys =~= g.keys);
            assert(h.labels =~= g.labels);
            assert(h.inputs =~= g.inputs);
            assert(h.noted =~= g.noted);
            assert(h.attempted =~= g.attempted);
            assert(h.roots =~= g.roots.push(i));
            assert forall|k: Seq<char>| h.is_root(k) == (g.is_root(k) || k == g.keys[i as int]) by {
                if g.is_root(k) {
                    let r = choose|r: int| 0 <= r < g.roots.len() && g.keys[#[trigger] g.roots[r] as int] == k;
                    assert(h.roots[r] == g.roots[r]);
                }
                if k == g.keys[i as int] {
                    assert(h.roots[g.roots.len() as int] == i);
                }
                if h.is_root(k) {
                    let r = choose|r: int| 0 <= r < h.roots.len() && h.keys[#[trigger] h.roots[r] as int] == k;
                    if r < g.roots.len() {
                        assert(h.roots[r] == g.roots[r]);
                    }
                }
            }
        }
    }
}

} // verus!
