use vstd::prelude::*;

use crate::json::{
    entry_views, json_string, json_to_string, json_view, json_views, lemma_entry_views,
    lemma_json_views, JsonValue, JsonView,
};
use crate::text::{
    chars_of, eq_str, find_char_from, find_char_from_exec, lemma_find_char_from, lemma_strs_push,
    string_of_range, strs, concat, concat3, join, join_strings, decimal, push_decimal,
};

verus! {

/// A JSON value inside `flake.lock` as the focused diff reads it: whether
/// it is a string, and its text (the string itself, or the JSON text of
/// anything else).
#[derive(Clone, Debug)]
pub struct FieldValue {
    pub is_string: bool,
    pub text: String,
}

/// A node's `locked` value: its whole JSON text, and its entries when it
/// is an object (sorted by key, as `serde_json` keeps them).
#[derive(Clone, Debug)]
pub struct Locked {
    pub text: String,
    pub fields: Vec<(String, FieldValue)>,
}

/// Where a flake input points: a node by name, a `follows` path, or
/// something else.
#[derive(Clone, Debug)]
pub enum InputRef {
    Node(String),
    Follows(Vec<FieldValue>),
    Other,
}

/// One node of `flake.lock`.
#[derive(Clone, Debug)]
pub struct LockNode {
    pub name: String,
    pub inputs: Vec<(String, InputRef)>,
    pub locked: Option<Locked>,
}

/// The parts of `flake.lock` that the focused diff reads: the root node's
/// name when it is a string, and the nodes when they form an object.
#[derive(Clone, Debug)]
pub struct LockFile {
    pub root: Option<String>,
    pub nodes: Option<Vec<LockNode>>,
}

/// A changed field of a requested input's lock.
#[derive(Clone, Debug)]
pub struct FocusedFieldChange {
    pub name: String,
    pub before: String,
    pub after: String,
}

/// A requested input whose lock changed.
#[derive(Clone, Debug)]
pub struct FocusedInputChange {
    pub input: String,
    pub fields: Vec<FocusedFieldChange>,
}

/// What an update did to the requested inputs, and how many other nodes
/// changed.
#[derive(Clone, Debug)]
pub struct FocusedLockDiff {
    pub requested: Vec<FocusedInputChange>,
    pub other_changed: usize,
}

/// The model of a lock field value.
pub struct FieldV {
    pub is_string: bool,
    pub text: Seq<char>,
}

pub enum InputRefV {
    Node(Seq<char>),
    Follows(Seq<FieldV>),
    Other,
}

pub struct LockedV {
    pub text: Seq<char>,
    pub fields: Seq<(Seq<char>, FieldV)>,
}

pub struct NodeV {
    pub name: Seq<char>,
    pub inputs: Seq<(Seq<char>, InputRefV)>,
    pub locked: Option<LockedV>,
}

/// The model of the parts of `flake.lock` the focused diff reads.
pub struct LockV {
    pub root: Option<Seq<char>>,
    pub nodes: Option<Seq<NodeV>>,
}

pub open spec fn field_v(f: FieldValue) -> FieldV {
    FieldV { is_string: f.is_string, text: f.text@ }
}

pub open spec fn input_ref_v(r: InputRef) -> InputRefV {
    match r {
        InputRef::Node(n) => InputRefV::Node(n@),
        InputRef::Follows(p) => InputRefV::Follows(p@.map_values(|f: FieldValue| field_v(f))),
        InputRef::Other => InputRefV::Other,
    }
}

pub open spec fn locked_v(l: Locked) -> LockedV {
    LockedV {
        text: l.text@,
        fields: l.fields@.map_values(|e: (String, FieldValue)| (e.0@, field_v(e.1))),
    }
}

pub open spec fn locked_opt_v(l: Option<Locked>) -> Option<LockedV> {
    match l {
        Some(x) => Some(locked_v(x)),
        None => None,
    }
}

pub open spec fn node_v(n: LockNode) -> NodeV {
    NodeV {
        name: n.name@,
        inputs: n.inputs@.map_values(|e: (String, InputRef)| (e.0@, input_ref_v(e.1))),
        locked: locked_opt_v(n.locked),
    }
}

pub open spec fn node_vs(s: Seq<LockNode>) -> Seq<NodeV> {
    s.map_values(|x: LockNode| node_v(x))
}

pub open spec fn lock_v(l: LockFile) -> LockV {
    LockV {
        root: match l.root {
            Some(r) => Some(r@),
            None => None,
        },
        nodes: match l.nodes {
            Some(n) => Some(node_vs(n@)),
            None => None,
        },
    }
}

/// The value of the first entry with the given key.
pub open spec fn json_get(es: Seq<(Seq<char>, JsonView)>, key: Seq<char>) -> Option<JsonView>
    decreases es.len(),
{
    if es.len() == 0 {
        None
    } else {
        match json_get(es.drop_last(), key) {
            Some(x) => Some(x),
            None => if es.last().0 == key {
                Some(es.last().1)
            } else {
                None
            },
        }
    }
}

/// The member `key` of an object; `None` for anything else.
pub open spec fn member(j: JsonView, key: Seq<char>) -> Option<JsonView> {
    match j {
        JsonView::Object(es) => json_get(es, key),
        _ => None,
    }
}

/// A field value: whether it is a string, and the string or the JSON text.
pub open spec fn field_of_json(j: JsonView) -> FieldV {
    FieldV {
        is_string: j is Str,
        text: match j {
            JsonView::Str(s) => s,
            _ => json_string(j),
        },
    }
}

/// An input entry: a node name, a `follows` path, or something else.
pub open spec fn input_ref_of_json(j: JsonView) -> InputRefV {
    match j {
        JsonView::Str(s) => InputRefV::Node(s),
        JsonView::Array(items) => InputRefV::Follows(items.map_values(|x: JsonView| field_of_json(x))),
        _ => InputRefV::Other,
    }
}

pub open spec fn fields_of_json(j: JsonView) -> Seq<(Seq<char>, FieldV)> {
    match j {
        JsonView::Object(es) => es.map_values(|e: (Seq<char>, JsonView)| (e.0, field_of_json(e.1))),
        _ => Seq::empty(),
    }
}

/// A `locked` value: its JSON text and, for an object, its fields.
pub open spec fn locked_of_json(j: JsonView) -> LockedV {
    LockedV { text: json_string(j), fields: fields_of_json(j) }
}

pub open spec fn inputs_of_json(j: Option<JsonView>) -> Seq<(Seq<char>, InputRefV)> {
    match j {
        Some(JsonView::Object(es)) => es.map_values(
            |e: (Seq<char>, JsonView)| (e.0, input_ref_of_json(e.1)),
        ),
        _ => Seq::empty(),
    }
}

/// A node: its `inputs` when they form an object, its `locked` value.
pub open spec fn node_of_json(name: Seq<char>, j: JsonView) -> NodeV {
    NodeV {
        name,
        inputs: inputs_of_json(member(j, "inputs"@)),
        locked: match member(j, "locked"@) {
            Some(l) => Some(locked_of_json(l)),
            None => None,
        },
    }
}

/// What the focused diff reads of a parsed `flake.lock`: `root` when it
/// is a string, `nodes` when it is an object.
pub open spec fn lock_of_json_spec(j: JsonView) -> LockV {
    LockV {
        root: match member(j, "root"@) {
            Some(JsonView::Str(s)) => Some(s),
            _ => None,
        },
        nodes: match member(j, "nodes"@) {
            Some(JsonView::Object(ns)) => Some(
                ns.map_values(|e: (Seq<char>, JsonView)| node_of_json(e.0, e.1)),
            ),
            _ => None,
        },
    }
}

proof fn lemma_json_get_extend(s: Seq<(Seq<char>, JsonView)>, k: int, key: Seq<char>)
    requires
        0 <= k <= s.len(),
        json_get(s.take(k), key) is Some,
    ensures
        json_get(s, key) == json_get(s.take(k), key),
    decreases s.len() - k,
{
    if k < s.len() {
        assert(s.take(k + 1).drop_last() =~= s.take(k));
        lemma_json_get_extend(s, k + 1, key);
    } else {
        assert(s.take(k) =~= s);
    }
}

fn get_member<'a>(v: &'a JsonValue, key: &str) -> (r: Option<&'a JsonValue>)
    ensures
        match member(json_view(*v), key@) {
            Some(j) => r matches Some(x) && json_view(*x) == j,
            None => r is None,
        },
{
    match v {
        JsonValue::Object(entries) => {
            let ghost ev = entry_views(entries@);
            proof {
                lemma_entry_views(entries@);
            }
            let mut i: usize = 0;
            assert(ev.take(0) =~= Seq::<(Seq<char>, JsonView)>::empty());
            while i < entries.len()
                invariant
                    *v == JsonValue::Object(*entries),
                    ev == entry_views(entries@),
                    ev.len() == entries@.len(),
                    forall|k: int| 0 <= k < entries@.len() ==> #[trigger] ev[k] == (entries@[k].0@, json_view(entries@[k].1)),
                    i <= entries.len(),
                    json_get(ev.take(i as int), key@) is None,
                decreases entries.len() - i,
            {
                assert(ev.take(i + 1).drop_last() =~= ev.take(i as int));
                assert(ev.take(i + 1).last() == ev[i as int]);
                if crate::text::eq_str(entries[i].0.as_str(), key) {
                    proof {
                        lemma_json_get_extend(ev, i + 1, key@);
                    }
                    return Some(&entries[i].1);
                }
                i = i + 1;
            }
            assert(ev.take(i as int) =~= ev);
            None
        },
        _ => None,
    }
}

fn field_value_of(x: &JsonValue) -> (r: FieldValue)
    ensures
        field_v(r) == field_of_json(json_view(*x)),
{
    match x {
        JsonValue::Str(s) => FieldValue { is_string: true, text: s.clone() },
        _ => FieldValue { is_string: false, text: json_to_string(x) },
    }
}

fn input_ref_of(x: &JsonValue) -> (r: InputRef)
    ensures
        input_ref_v(r) == input_ref_of_json(json_view(*x)),
{
    match x {
        JsonValue::Str(s) => InputRef::Node(s.clone()),
        JsonValue::Array(items) => {
            proof {
                lemma_json_views(items@);
            }
            let ghost jv = json_views(items@);
            let mut out: Vec<FieldValue> = Vec::new();
            let mut i: usize = 0;
            while i < items.len()
                invariant
                    jv == json_views(items@),
                    jv.len() == items@.len(),
                    forall|k: int| 0 <= k < items@.len() ==> #[trigger] jv[k] == json_view(items@[k]),
                    i <= items.len(),
                    out@.map_values(|f: FieldValue| field_v(f)) == jv.take(i as int).map_values(
                        |y: JsonView| field_of_json(y),
                    ),
                decreases items.len() - i,
            {
                let f = field_value_of(&items[i]);
                let ghost before = out@;
                out.push(f);
                assert(out@.map_values(|f: FieldValue| field_v(f)) =~= jv.take(i + 1).map_values(
                    |y: JsonView| field_of_json(y),
                )) by {
                    assert(out@ == before.push(f));
                    assert(out@.map_values(|f: FieldValue| field_v(f)) =~= before.map_values(|f: FieldValue| field_v(f)).push(field_v(f)));
                    assert(jv.take(i + 1) =~= jv.take(i as int).push(jv[i as int]));
                    assert(jv.take(i + 1).map_values(|y: JsonView| field_of_json(y)) =~= jv.take(i as int).map_values(|y: JsonView| field_of_json(y)).push(field_of_json(jv[i as int])));
                }
                i = i + 1;
            }
            assert(jv.take(i as int) =~= jv);
            InputRef::Follows(out)
        },
        _ => InputRef::Other,
    }
}

fn fields_of(x: &JsonValue) -> (r: Vec<(String, FieldValue)>)
    ensures
        r@.map_values(|e: (String, FieldValue)| (e.0@, field_v(e.1))) == fields_of_json(json_view(*x)),
{
    let mut out: Vec<(String, FieldValue)> = Vec::new();
    match x {
        JsonValue::Object(entries) => {
            proof {
                lemma_entry_views(entries@);
            }
            let ghost ev = entry_views(entries@);
            let mut i: usize = 0;
            while i < entries.len()
                invariant
                    ev == entry_views(entries@),
                    ev.len() == entries@.len(),
                    forall|k: int| 0 <= k < entries@.len() ==> #[trigger] ev[k] == (entries@[k].0@, json_view(entries@[k].1)),
                    i <= entries.len(),
                    out@.map_values(|e: (String, FieldValue)| (e.0@, field_v(e.1))) == ev.take(
                        i as int,
                    ).map_values(|e: (Seq<char>, JsonView)| (e.0, field_of_json(e.1))),
                decreases entries.len() - i,
            {
                let f = field_value_of(&entries[i].1);
                let k = entries[i].0.clone();
                let ghost before = out@;
                out.push((k, f));
                assert(out@.map_values(|e: (String, FieldValue)| (e.0@, field_v(e.1))) =~= ev.take(
                    i + 1,
                ).map_values(|e: (Seq<char>, JsonView)| (e.0, field_of_json(e.1)))) by {
                    assert(out@ == before.push((k, f)));
                    assert(out@.map_values(|e: (String, FieldValue)| (e.0@, field_v(e.1))) =~= before.map_values(|e: (String, FieldValue)| (e.0@, field_v(e.1))).push((k@, field_v(f))));
                    assert(ev.take(i + 1) =~= ev.take(i as int).push(ev[i as int]));
                    assert(ev.take(i + 1).map_values(|e: (Seq<char>, JsonView)| (e.0, field_of_json(e.1))) =~= ev.take(i as int).map_values(|e: (Seq<char>, JsonView)| (e.0, field_of_json(e.1))).push((ev[i as int].0, field_of_json(ev[i as int].1))));
                }
                i = i + 1;
            }
            assert(ev.take(i as int) =~= ev);
            out
        },
        _ => {
            assert(out@.map_values(|e: (String, FieldValue)| (e.0@, field_v(e.1))) =~= Seq::<
                (Seq<char>, FieldV),
            >::empty());
            out
        },
    }
}

fn inputs_of(x: Option<&JsonValue>) -> (r: Vec<(String, InputRef)>)
    ensures
        r@.map_values(|e: (String, InputRef)| (e.0@, input_ref_v(e.1))) == inputs_of_json(
            match x {
                Some(v) => Some(json_view(*v)),
                None => None,
            },
        ),
{
    let mut out: Vec<(String, InputRef)> = Vec::new();
    match x {
        Some(JsonValue::Object(entries)) => {
            proof {
                lemma_entry_views(entries@);
            }
            let ghost ev = entry_views(entries@);
            let mut i: usize = 0;
            while i < entries.len()
                invariant
                    ev == entry_views(entries@),
                    ev.len() == entries@.len(),
                    forall|k: int| 0 <= k < entries@.len() ==> #[trigger] ev[k] == (entries@[k].0@, json_view(entries@[k].1)),
                    i <= entries.len(),
                    out@.map_values(|e: (String, InputRef)| (e.0@, input_ref_v(e.1))) == ev.take(
                        i as int,
                    ).map_values(|e: (Seq<char>, JsonView)| (e.0, input_ref_of_json(e.1))),
                decreases entries.len() - i,
            {
                let f = input_ref_of(&entries[i].1);
                let k = entries[i].0.clone();
                let ghost before = out@;
                out.push((k, f));
                assert(out@.map_values(|e: (String, InputRef)| (e.0@, input_ref_v(e.1))) =~= ev.take(
                    i + 1,
                ).map_values(|e: (Seq<char>, JsonView)| (e.0, input_ref_of_json(e.1)))) by {
                    assert(out@ == before.push((k, f)));
                    assert(out@.map_values(|e: (String, InputRef)| (e.0@, input_ref_v(e.1))) =~= before.map_values(|e: (String, InputRef)| (e.0@, input_ref_v(e.1))).push((k@, input_ref_v(f))));
                    assert(ev.take(i + 1) =~= ev.take(i as int).push(ev[i as int]));
                    assert(ev.take(i + 1).map_values(|e: (Seq<char>, JsonView)| (e.0, input_ref_of_json(e.1))) =~= ev.take(i as int).map_values(|e: (Seq<char>, JsonView)| (e.0, input_ref_of_json(e.1))).push((ev[i as int].0, input_ref_of_json(ev[i as int].1))));
                }
                i = i + 1;
            }
            assert(ev.take(i as int) =~= ev);
            out
        },
        _ => {
            assert(out@.map_values(|e: (String, InputRef)| (e.0@, input_ref_v(e.1))) =~= Seq::<
                (Seq<char>, InputRefV),
            >::empty());
            out
        },
    }
}

fn node_of(name: &String, x: &JsonValue) -> (r: LockNode)
    ensures
        node_v(r) == node_of_json(name@, json_view(*x)),
{
    proof {
        reveal_strlit("inputs");
        reveal_strlit("locked");
    }
    let inputs = inputs_of(get_member(x, "inputs"));
    let locked = match get_member(x, "locked") {
        Some(l) => Some(Locked { text: json_to_string(l), fields: fields_of(l) }),
        None => None,
    };
    LockNode { name: name.clone(), inputs, locked }
}

/// What the focused diff reads of a parsed `flake.lock`.
pub fn lock_of_json(v: &JsonValue) -> (r: LockFile)
    ensures
        lock_v(r) == lock_of_json_spec(json_view(*v)),
{
    let root = match get_member(v, "root") {
        Some(JsonValue::Str(s)) => Some(s.clone()),
        _ => None,
    };
    let nodes = match get_member(v, "nodes") {
        Some(JsonValue::Object(entries)) => {
            proof {
                lemma_entry_views(entries@);
            }
            let ghost ev = entry_views(entries@);
            let mut out: Vec<LockNode> = Vec::new();
            let mut i: usize = 0;
            while i < entries.len()
                invariant
                    ev == entry_views(entries@),
                    ev.len() == entries@.len(),
                    forall|k: int| 0 <= k < entries@.len() ==> #[trigger] ev[k] == (entries@[k].0@, json_view(entries@[k].1)),
                    i <= entries.len(),
                    node_vs(out@) == ev.take(i as int).map_values(
                        |e: (Seq<char>, JsonView)| node_of_json(e.0, e.1),
                    ),
                decreases entries.len() - i,
            {
                let n = node_of(&entries[i].0, &entries[i].1);
                let ghost before = out@;
                out.push(n);
                assert(node_vs(out@) =~= ev.take(i + 1).map_values(
                    |e: (Seq<char>, JsonView)| node_of_json(e.0, e.1),
                )) by {
                    assert(out@ == before.push(n));
                    assert(node_vs(out@) =~= node_vs(before).push(node_v(n)));
                    assert(ev.take(i + 1) =~= ev.take(i as int).push(ev[i as int]));
                    assert(ev.take(i + 1).map_values(|e: (Seq<char>, JsonView)| node_of_json(e.0, e.1)) =~= ev.take(i as int).map_values(|e: (Seq<char>, JsonView)| node_of_json(e.0, e.1)).push(node_of_json(ev[i as int].0, ev[i as int].1)));
                }
                i = i + 1;
            }
            assert(ev.take(i as int) =~= ev);
            Some(out)
        },
        _ => None,
    };
    proof {
        reveal_strlit("root");
        reveal_strlit("nodes");
    }
    LockFile { root, nodes }
}

/// The first node with the given name.
pub open spec fn node_index(nodes: Seq<LockNode>, name: Seq<char>) -> Option<int>
    decreases nodes.len(),
{
    if nodes.len() == 0 {
        None
    } else {
        match node_index(nodes.drop_last(), name) {
            Some(i) => Some(i),
            None => if nodes.last().name@ == name {
                Some(nodes.len() - 1)
            } else {
                None
            },
        }
    }
}

pub proof fn lemma_node_index(nodes: Seq<LockNode>, name: Seq<char>)
    ensures
        node_index(nodes, name) matches Some(i) ==> 0 <= i < nodes.len() && nodes[i].name@ == name
            && forall|j: int| 0 <= j < i ==> nodes[j].name@ != name,
        node_index(nodes, name) is None ==> forall|j: int| 0 <= j < nodes.len() ==> nodes[j].name@ != name,
    decreases nodes.len(),
{
    if nodes.len() > 0 {
        lemma_node_index(nodes.drop_last(), name);
        assert forall|j: int| 0 <= j < nodes.len() - 1 implies nodes.drop_last()[j] == nodes[j] by {}
    }
}

fn find_node(nodes: &Vec<LockNode>, name: &str) -> (r: Option<usize>)
    ensures
        match r {
            Some(k) => k < nodes@.len() && node_index(nodes@, name@) == Some(k as int),
            None => node_index(nodes@, name@) is None,
        },
{
    proof {
        lemma_node_index(nodes@, name@);
    }
    let mut i: usize = 0;
    while i < nodes.len()
        invariant
            i <= nodes.len(),
            forall|j: int| 0 <= j < i ==> nodes@[j].name@ != name@,
            node_index(nodes@, name@) matches Some(k) ==> 0 <= k < nodes@.len() && nodes@[k].name@
                == name@ && forall|j: int| 0 <= j < k ==> nodes@[j].name@ != name@,
            node_index(nodes@, name@) is None ==> forall|j: int|
                0 <= j < nodes@.len() ==> nodes@[j].name@ != name@,
        decreases nodes.len() - i,
    {
        if eq_str(nodes[i].name.as_str(), name) {
            assert(node_index(nodes@, name@) == Some(i as int));
            return Some(i);
        }
        i = i + 1;
    }
    None
}

/// The text of a node's `locked` value, `None` when the node or its lock
/// is missing.
pub open spec fn locked_text(nodes: Seq<LockNode>, name: Seq<char>) -> Option<Seq<char>> {
    match node_index(nodes, name) {
        Some(i) => match nodes[i].locked {
            Some(l) => Some(l.text@),
            None => None,
        },
        None => None,
    }
}

fn locked_text_of(nodes: &Vec<LockNode>, name: &str) -> (r: Option<String>)
    ensures
        match locked_text(nodes@, name@) {
            Some(t) => r matches Some(s) && s@ == t,
            None => r is None,
        },
{
    match find_node(nodes, name) {
        Some(i) => match &nodes[i].locked {
            Some(l) => Some(l.text.clone()),
            None => None,
        },
        None => None,
    }
}

fn same_text(a: &Option<String>, b: &Option<String>) -> (r: bool)
    ensures
        r == (match (a, b) {
            (Some(x), Some(y)) => x@ == y@,
            (None, None) => true,
            _ => false,
        }),
{
    match (a, b) {
        (Some(x), Some(y)) => eq_str(x.as_str(), y.as_str()),
        (None, None) => true,
        _ => false,
    }
}

/// The first path segment of an input name, when not empty.
pub open spec fn first_segment(input: Seq<char>) -> Option<Seq<char>> {
    let first = match find_char_from(input, '/', 0) {
        Some(i) => input.take(i),
        None => input,
    };
    if first.len() == 0 {
        None
    } else {
        Some(first)
    }
}

/// The node an input entry points to: a name, or the last element of a
/// `follows` path when that is a string.
pub open spec fn ref_target(r: InputRef) -> Option<Seq<char>> {
    match r {
        InputRef::Node(n) => Some(n@),
        InputRef::Follows(path) => if path@.len() > 0 && path@.last().is_string {
            Some(path@.last().text@)
        } else {
            None
        },
        InputRef::Other => None,
    }
}

pub open spec fn input_index(inputs: Seq<(String, InputRef)>, key: Seq<char>) -> Option<int>
    decreases inputs.len(),
{
    if inputs.len() == 0 {
        None
    } else {
        match input_index(inputs.drop_last(), key) {
            Some(i) => Some(i),
            None => if inputs.last().0@ == key {
                Some(inputs.len() - 1)
            } else {
                None
            },
        }
    }
}

proof fn lemma_input_index(inputs: Seq<(String, InputRef)>, key: Seq<char>)
    ensures
        input_index(inputs, key) matches Some(i) ==> 0 <= i < inputs.len() && inputs[i].0@ == key
            && forall|j: int| 0 <= j < i ==> inputs[j].0@ != key,
        input_index(inputs, key) is None ==> forall|j: int| 0 <= j < inputs.len() ==> inputs[j].0@ != key,
    decreases inputs.len(),
{
    if inputs.len() > 0 {
        lemma_input_index(inputs.drop_last(), key);
        assert forall|j: int| 0 <= j < inputs.len() - 1 implies inputs.drop_last()[j] == inputs[j] by {}
    }
}

/// The lock node that a requested input names: the root's input entry for
/// the input's first path segment.
pub open spec fn node_for_input(lock: LockFile, input: Seq<char>) -> Option<Seq<char>> {
    match first_segment(input) {
        None => None,
        Some(first) => {
            let root = match lock.root {
                Some(r) => r@,
                None => "root"@,
            };
            match lock.nodes {
                None => None,
                Some(nodes) => match node_index(nodes@, root) {
                    None => None,
                    Some(ri) => match input_index(nodes@[ri].inputs@, first) {
                        None => None,
                        Some(ii) => ref_target(nodes@[ri].inputs@[ii].1),
                    },
                },
            }
        },
    }
}

pub fn lock_node_for_input(lock: &LockFile, input: &str) -> (r: Option<String>)
    ensures
        match node_for_input(*lock, input@) {
            Some(n) => r matches Some(s) && s@ == n,
            None => r is None,
        },
{
    proof {
        reveal_strlit("root");
    }
    let v = chars_of(input);
    proof {
        lemma_find_char_from(v@, '/', 0);
    }
    let first = match find_char_from_exec(v.as_slice(), '/', 0) {
        Some(i) => string_of_range(v.as_slice(), 0, i),
        None => string_of_range(v.as_slice(), 0, v.len()),
    };
    assert(first@ =~= match find_char_from(input@, '/', 0) {
        Some(i) => input@.take(i),
        None => input@,
    });
    if first.as_str().is_empty() {
        return None;
    }
    let root: String = match &lock.root {
        Some(r) => r.clone(),
        None => "root".to_owned(),
    };
    let nodes = match &lock.nodes {
        Some(n) => n,
        None => return None,
    };
    let ri = match find_node(nodes, root.as_str()) {
        Some(i) => i,
        None => return None,
    };
    input_target(&nodes[ri].inputs, first.as_str())
}

fn input_target(inputs: &Vec<(String, InputRef)>, key: &str) -> (r: Option<String>)
    ensures
        match input_index(inputs@, key@) {
            Some(ii) => match ref_target(inputs@[ii].1) {
                Some(n) => r matches Some(s) && s@ == n,
                None => r is None,
            },
            None => r is None,
        },
{
    proof {
        lemma_input_index(inputs@, key@);
    }
    let mut k: usize = 0;
    while k < inputs.len()
        invariant
            k <= inputs.len(),
            forall|j: int| 0 <= j < k ==> inputs@[j].0@ != key@,
            input_index(inputs@, key@) matches Some(i) ==> 0 <= i < inputs@.len() && inputs@[i].0@
                == key@ && forall|j: int| 0 <= j < i ==> inputs@[j].0@ != key@,
            input_index(inputs@, key@) is None ==> forall|j: int|
                0 <= j < inputs@.len() ==> inputs@[j].0@ != key@,
        decreases inputs.len() - k,
    {
        if eq_str(inputs[k].0.as_str(), key) {
            assert(input_index(inputs@, key@) == Some(k as int));
            return match &inputs[k].1 {
                InputRef::Node(n) => Some(n.clone()),
                InputRef::Follows(path) => {
                    if path.len() > 0 && path[path.len() - 1].is_string {
                        Some(path[path.len() - 1].text.clone())
                    } else {
                        None
                    }
                },
                InputRef::Other => None,
            };
        }
        k = k + 1;
    }
    None
}

/// The lock fields the focused diff compares.
pub open spec fn compared_fields() -> Seq<Seq<char>> {
    seq!["rev"@, "narHash"@, "lastModified"@, "ref"@, "owner"@, "repo"@, "type"@]
}

pub open spec fn field_index(fields: Seq<(String, FieldValue)>, name: Seq<char>) -> Option<int>
    decreases fields.len(),
{
    if fields.len() == 0 {
        None
    } else {
        match field_index(fields.drop_last(), name) {
            Some(i) => Some(i),
            None => if fields.last().0@ == name {
                Some(fields.len() - 1)
            } else {
                None
            },
        }
    }
}

proof fn lemma_field_index(fields: Seq<(String, FieldValue)>, name: Seq<char>)
    ensures
        field_index(fields, name) matches Some(i) ==> 0 <= i < fields.len() && fields[i].0@ == name
            && forall|j: int| 0 <= j < i ==> fields[j].0@ != name,
        field_index(fields, name) is None ==> forall|j: int| 0 <= j < fields.len() ==> fields[j].0@ != name,
    decreases fields.len(),
{
    if fields.len() > 0 {
        lemma_field_index(fields.drop_last(), name);
        assert forall|j: int| 0 <= j < fields.len() - 1 implies fields.drop_last()[j] == fields[j] by {}
    }
}

/// A field of a lock: whether it is a string, and its text.
pub open spec fn field_of(locked: Option<Locked>, name: Seq<char>) -> Option<(bool, Seq<char>)> {
    match locked {
        None => None,
        Some(l) => match field_index(l.fields@, name) {
            None => None,
            Some(i) => Some((l.fields@[i].1.is_string, l.fields@[i].1.text@)),
        },
    }
}

/// How a field is shown: its text, or `<missing>`.
pub open spec fn field_text(f: Option<(bool, Seq<char>)>) -> Seq<char> {
    match f {
        Some((_, t)) => t,
        None => "<missing>"@,
    }
}

fn field_lookup(locked: &Option<Locked>, name: &str) -> (r: Option<(bool, String)>)
    ensures
        match field_of(*locked, name@) {
            Some((b, t)) => r matches Some((rb, rt)) && rb == b && rt@ == t,
            None => r is None,
        },
{
    let l = match locked {
        Some(l) => l,
        None => return None,
    };
    proof {
        lemma_field_index(l.fields@, name@);
    }
    let mut i: usize = 0;
    while i < l.fields.len()
        invariant
            i <= l.fields.len(),
            *locked == Some(*l),
            forall|j: int| 0 <= j < i ==> l.fields@[j].0@ != name@,
            field_index(l.fields@, name@) matches Some(k) ==> 0 <= k < l.fields@.len() && l.fields@[k].0@
                == name@ && forall|j: int| 0 <= j < k ==> l.fields@[j].0@ != name@,
            field_index(l.fields@, name@) is None ==> forall|j: int|
                0 <= j < l.fields@.len() ==> l.fields@[j].0@ != name@,
        decreases l.fields.len() - i,
    {
        if eq_str(l.fields[i].0.as_str(), name) {
            assert(field_index(l.fields@, name@) == Some(i as int));
            return Some((l.fields[i].1.is_string, l.fields[i].1.text.clone()));
        }
        i = i + 1;
    }
    None
}

pub open spec fn field_change_views(v: Seq<FocusedFieldChange>) -> Seq<(Seq<char>, Seq<char>, Seq<char>)> {
    v.map_values(|c: FocusedFieldChange| (c.name@, c.before@, c.after@))
}

/// The compared fields, among the first `n`, that differ between two locks.
pub open spec fn changed_fields(before: Option<Locked>, after: Option<Locked>, n: int) -> Seq<
    (Seq<char>, Seq<char>, Seq<char>),
>
    decreases n,
{
    if n <= 0 {
        Seq::empty()
    } else {
        let name = compared_fields()[n - 1];
        let b = field_of(before, name);
        let a = field_of(after, name);
        if b != a {
            changed_fields(before, after, n - 1).push((name, field_text(b), field_text(a)))
        } else {
            changed_fields(before, after, n - 1)
        }
    }
}

pub fn focused_field_changes(before: &Option<Locked>, after: &Option<Locked>) -> (r: Vec<FocusedFieldChange>)
    ensures
        field_change_views(r@) == changed_fields(*before, *after, 7),
{
    proof {
        reveal_strlit("<missing>");
    }
    let names = ["rev", "narHash", "lastModified", "ref", "owner", "repo", "type"];
    assert(names@.map_values(|s: &str| s@) =~= compared_fields());
    let mut fields: Vec<FocusedFieldChange> = Vec::new();
    let mut i: usize = 0;
    while i < 7
        invariant
            i <= 7,
            names@.len() == 7,
            names@.map_values(|s: &str| s@) == compared_fields(),
            field_change_views(fields@) == changed_fields(*before, *after, i as int),
        decreases 7 - i,
    {
        let name = names[i];
        assert(name@ == compared_fields()[i as int]);
        let b = field_lookup(before, name);
        let a = field_lookup(after, name);
        let differ = match (&b, &a) {
            (Some((bs, bt)), Some((as_, at))) => *bs != *as_ || !eq_str(bt.as_str(), at.as_str()),
            (None, None) => false,
            _ => true,
        };
        if differ {
            let before_text = match &b {
                Some((_, t)) => t.clone(),
                None => "<missing>".to_owned(),
            };
            let after_text = match &a {
                Some((_, t)) => t.clone(),
                None => "<missing>".to_owned(),
            };
            let ghost old_fields = fields@;
            let change = FocusedFieldChange { name: name.to_owned(), before: before_text, after: after_text };
            let ghost cv = (change.name@, change.before@, change.after@);
            fields.push(change);
            assert(field_change_views(fields@) =~= field_change_views(old_fields).push(cv));
        }
        i = i + 1;
    }
    fields
}

/// The lock a node carries, `None` when the node or its lock is missing.
pub open spec fn locked_of(nodes: Seq<LockNode>, name: Seq<char>) -> Option<Locked> {
    match node_index(nodes, name) {
        Some(i) => nodes[i].locked,
        None => None,
    }
}

/// Whether a node's lock differs between two lock files.
pub open spec fn lock_changed(before: Seq<LockNode>, after: Seq<LockNode>, name: Seq<char>) -> bool {
    locked_text(before, name) != locked_text(after, name)
}

/// The node whose lock a requested input is judged by: the one the root's
/// entry names, or else a node of the input's own name.
pub open spec fn requested_node(after: LockFile, input: Seq<char>) -> Seq<char> {
    match node_for_input(after, input) {
        Some(n) => n,
        None => input,
    }
}

pub open spec fn nodes_of(lock: LockFile) -> Seq<LockNode> {
    match lock.nodes {
        Some(n) => n@,
        None => Seq::empty(),
    }
}

pub open spec fn node_names(nodes: Seq<LockNode>) -> Seq<Seq<char>> {
    nodes.map_values(|n: LockNode| n.name@)
}

pub open spec fn input_change_views(v: Seq<FocusedInputChange>) -> Seq<
    (Seq<char>, Seq<(Seq<char>, Seq<char>, Seq<char>)>),
> {
    v.map_values(|c: FocusedInputChange| (c.input@, field_change_views(c.fields@)))
}

/// The changes of the first `n` requested inputs whose lock changed, in
/// the order they were requested.
pub open spec fn requested_changes(before: LockFile, after: LockFile, inputs: Seq<Seq<char>>, n: int) -> Seq<
    (Seq<char>, Seq<(Seq<char>, Seq<char>, Seq<char>)>),
>
    decreases n,
{
    if n <= 0 {
        Seq::empty()
    } else {
        let input = inputs[n - 1];
        let node = requested_node(after, input);
        let rest = requested_changes(before, after, inputs, n - 1);
        if lock_changed(nodes_of(before), nodes_of(after), node) {
            rest.push(
                (
                    input,
                    changed_fields(
                        locked_of(nodes_of(before), node),
                        locked_of(nodes_of(after), node),
                        7,
                    ),
                ),
            )
        } else {
            rest
        }
    }
}

/// Whether the `k`-th of `names` is counted as another changed node: its
/// first occurrence, its lock changed, and no requested input is judged by it.
pub open spec fn counted_other(
    before: Seq<LockNode>,
    after: Seq<LockNode>,
    requested: Seq<Seq<char>>,
    names: Seq<Seq<char>>,
    k: int,
) -> bool {
    &&& !names.take(k).contains(names[k])
    &&& lock_changed(before, after, names[k])
    &&& !requested.contains(names[k])
}

/// How many of the first `n` of `names` are counted as other changed nodes.
pub open spec fn other_count(
    before: Seq<LockNode>,
    after: Seq<LockNode>,
    requested: Seq<Seq<char>>,
    names: Seq<Seq<char>>,
    n: int,
) -> nat
    decreases n,
{
    if n <= 0 {
        0
    } else {
        other_count(before, after, requested, names, n - 1) + if counted_other(
            before,
            after,
            requested,
            names,
            n - 1,
        ) {
            1nat
        } else {
            0nat
        }
    }
}

proof fn lemma_other_count_bound(
    before: Seq<LockNode>,
    after: Seq<LockNode>,
    requested: Seq<Seq<char>>,
    names: Seq<Seq<char>>,
    n: int,
)
    requires
        n >= 0,
    ensures
        other_count(before, after, requested, names, n) <= n,
    decreases n,
{
    if n > 0 {
        lemma_other_count_bound(before, after, requested, names, n - 1);
    }
}

fn requested_node_exec(after: &LockFile, input: &str) -> (r: String)
    ensures
        r@ == requested_node(*after, input@),
{
    match lock_node_for_input(after, input) {
        Some(n) => n,
        None => input.to_owned(),
    }
}

fn contains_upto(v: &Vec<String>, upto: usize, s: &str) -> (r: bool)
    requires
        upto <= v.len(),
    ensures
        r == strs(v@).take(upto as int).contains(s@),
{
    let mut i: usize = 0;
    while i < upto
        invariant
            i <= upto <= v.len(),
            forall|j: int| 0 <= j < i ==> v@[j]@ != s@,
        decreases upto - i,
    {
        if eq_str(v[i].as_str(), s) {
            assert(strs(v@).take(upto as int)[i as int] == s@);
            return true;
        }
        i = i + 1;
    }
    assert forall|j: int| 0 <= j < upto implies strs(v@).take(upto as int)[j] != s@ by {
        assert(strs(v@).take(upto as int)[j] == v@[j]@);
    }
    false
}

fn locked_text_differs(before: &Vec<LockNode>, after: &Vec<LockNode>, name: &str) -> (r: bool)
    ensures
        r == lock_changed(before@, after@, name@),
{
    let b = locked_text_of(before, name);
    let a = locked_text_of(after, name);
    !same_text(&b, &a)
}

fn node_field_changes(before: &Vec<LockNode>, after: &Vec<LockNode>, name: &str) -> (r: Vec<FocusedFieldChange>)
    ensures
        field_change_views(r@) == changed_fields(locked_of(before@, name@), locked_of(after@, name@), 7),
{
    let none: Option<Locked> = None;
    let bi = find_node(before, name);
    let ai = find_node(after, name);
    let bl = match bi {
        Some(i) => &before[i].locked,
        None => &none,
    };
    let al = match ai {
        Some(i) => &after[i].locked,
        None => &none,
    };
    focused_field_changes(bl, al)
}

fn names_of(nodes: &Vec<LockNode>, out: &mut Vec<String>)
    ensures
        strs(final(out)@) == strs(old(out)@) + node_names(nodes@),
{
    let ghost start = strs(out@);
    let mut i: usize = 0;
    while i < nodes.len()
        invariant
            i <= nodes.len(),
            strs(out@) == start + node_names(nodes@).take(i as int),
        decreases nodes.len() - i,
    {
        let ghost prev = out@;
        out.push(nodes[i].name.clone());
        proof {
            lemma_strs_push(prev, nodes@[i as int].name);
            assert(node_names(nodes@).take(i + 1) =~= node_names(nodes@).take(i as int).push(
                nodes@[i as int].name@,
            ));
        }
        i = i + 1;
    }
    assert(node_names(nodes@).take(nodes@.len() as int) =~= node_names(nodes@));
}

/// Compares the locks of the requested inputs before and after an update.
/// `None` when either file has no `nodes` object. Each requested input is
/// judged by the node the new lock's root names for its first path segment
/// (or, failing that, by a node of its own name); those whose lock changed
/// are listed with the compared fields that changed. Every other node whose
/// lock changed is counted once.
pub fn focused_lockfile_diff(before: &LockFile, after: &LockFile, requested_inputs: &Vec<String>) -> (r:
    Option<FocusedLockDiff>)
    ensures
        r is None <==> (before.nodes is None || after.nodes is None),
        r matches Some(d) ==> input_change_views(d.requested@) == requested_changes(
            *before,
            *after,
            strs(requested_inputs@),
            requested_inputs@.len() as int,
        ) && d.other_changed == other_count(
            nodes_of(*before),
            nodes_of(*after),
            strs(requested_inputs@).map_values(|i: Seq<char>| requested_node(*after, i)),
            node_names(nodes_of(*before)) + node_names(nodes_of(*after)),
            (nodes_of(*before).len() + nodes_of(*after).len()) as int,
        ),
{
    let bn = match &before.nodes {
        Some(n) => n,
        None => return None,
    };
    let an = match &after.nodes {
        Some(n) => n,
        None => return None,
    };
    let ghost inputs = strs(requested_inputs@);
    let ghost req_spec = inputs.map_values(|i: Seq<char>| requested_node(*after, i));
    let mut requested: Vec<FocusedInputChange> = Vec::new();
    let mut req_nodes: Vec<String> = Vec::new();
    let mut i: usize = 0;
    while i < requested_inputs.len()
        invariant
            i <= requested_inputs.len(),
            inputs == strs(requested_inputs@),
            req_spec == inputs.map_values(|i: Seq<char>| requested_node(*after, i)),
            before.nodes == Some(*bn),
            after.nodes == Some(*an),
            input_change_views(requested@) == requested_changes(*before, *after, inputs, i as int),
            strs(req_nodes@) == req_spec.take(i as int),
        decreases requested_inputs.len() - i,
    {
        let input = &requested_inputs[i];
        let node = requested_node_exec(after, input.as_str());
        let ghost prev_nodes = req_nodes@;
        req_nodes.push(node.clone());
        proof {
            lemma_strs_push(prev_nodes, node);
            assert(req_spec.take(i + 1) =~= req_spec.take(i as int).push(node@));
        }
        if locked_text_differs(bn, an, node.as_str()) {
            let fields = node_field_changes(bn, an, node.as_str());
            let ghost prev = requested@;
            let change = FocusedInputChange { input: input.clone(), fields };
            requested.push(change);
            assert(input_change_views(requested@) =~= input_change_views(prev).push(
                (change.input@, field_change_views(change.fields@)),
            ));
        }
        i = i + 1;
    }
    assert(req_spec.take(requested_inputs@.len() as int) =~= req_spec);
    let mut names: Vec<String> = Vec::new();
    names_of(bn, &mut names);
    names_of(an, &mut names);
    let ghost all = node_names(bn@) + node_names(an@);
    assert(strs(names@) =~= all);
    let mut other: usize = 0;
    let mut k: usize = 0;
    while k < names.len()
        invariant
            k <= names.len(),
            strs(names@) == all,
            strs(req_nodes@) == req_spec,
            other == other_count(bn@, an@, req_spec, all, k as int),
            other <= k,
        decreases names.len() - k,
    {
        let name = names[k].as_str();
        let first = !contains_upto(&names, k, name);
        let changed = locked_text_differs(bn, an, name);
        let requested_here = contains_upto(&req_nodes, req_nodes.len(), name);
        assert(strs(req_nodes@).take(req_nodes@.len() as int) =~= strs(req_nodes@));
        assert(all[k as int] == name@);
        if first && changed && !requested_here {
            other = other + 1;
        }
        k = k + 1;
    }
    Some(FocusedLockDiff { requested, other_changed: other })
}

pub open spec fn v_node_index(ns: Seq<NodeV>, name: Seq<char>) -> Option<int>
    decreases ns.len(),
{
    if ns.len() == 0 {
        None
    } else {
        match v_node_index(ns.drop_last(), name) {
            Some(i) => Some(i),
            None => if ns.last().name == name {
                Some(ns.len() - 1)
            } else {
                None
            },
        }
    }
}

pub open spec fn v_locked_of(ns: Seq<NodeV>, name: Seq<char>) -> Option<LockedV> {
    match v_node_index(ns, name) {
        Some(i) => ns[i].locked,
        None => None,
    }
}

pub open spec fn v_locked_text(ns: Seq<NodeV>, name: Seq<char>) -> Option<Seq<char>> {
    match v_locked_of(ns, name) {
        Some(l) => Some(l.text),
        None => None,
    }
}

pub open spec fn v_ref_target(r: InputRefV) -> Option<Seq<char>> {
    match r {
        InputRefV::Node(n) => Some(n),
        InputRefV::Follows(p) => if p.len() > 0 && p.last().is_string {
            Some(p.last().text)
        } else {
            None
        },
        InputRefV::Other => None,
    }
}

pub open spec fn v_input_index(inputs: Seq<(Seq<char>, InputRefV)>, key: Seq<char>) -> Option<int>
    decreases inputs.len(),
{
    if inputs.len() == 0 {
        None
    } else {
        match v_input_index(inputs.drop_last(), key) {
            Some(i) => Some(i),
            None => if inputs.last().0 == key {
                Some(inputs.len() - 1)
            } else {
                None
            },
        }
    }
}

/// The lock node a requested input names, over the model.
pub open spec fn v_node_for_input(lock: LockV, input: Seq<char>) -> Option<Seq<char>> {
    match first_segment(input) {
        None => None,
        Some(first) => {
            let root = match lock.root {
                Some(r) => r,
                None => "root"@,
            };
            match lock.nodes {
                None => None,
                Some(ns) => match v_node_index(ns, root) {
                    None => None,
                    Some(ri) => match v_input_index(ns[ri].inputs, first) {
                        None => None,
                        Some(ii) => v_ref_target(ns[ri].inputs[ii].1),
                    },
                },
            }
        },
    }
}

pub open spec fn v_field_index(fields: Seq<(Seq<char>, FieldV)>, name: Seq<char>) -> Option<int>
    decreases fields.len(),
{
    if fields.len() == 0 {
        None
    } else {
        match v_field_index(fields.drop_last(), name) {
            Some(i) => Some(i),
            None => if fields.last().0 == name {
                Some(fields.len() - 1)
            } else {
                None
            },
        }
    }
}

pub open spec fn v_field_of(locked: Option<LockedV>, name: Seq<char>) -> Option<(bool, Seq<char>)> {
    match locked {
        None => None,
        Some(l) => match v_field_index(l.fields, name) {
            None => None,
            Some(i) => Some((l.fields[i].1.is_string, l.fields[i].1.text)),
        },
    }
}

pub open spec fn v_changed_fields(before: Option<LockedV>, after: Option<LockedV>, n: int) -> Seq<
    (Seq<char>, Seq<char>, Seq<char>),
>
    decreases n,
{
    if n <= 0 {
        Seq::empty()
    } else {
        let name = compared_fields()[n - 1];
        let b = v_field_of(before, name);
        let a = v_field_of(after, name);
        if b != a {
            v_changed_fields(before, after, n - 1).push((name, field_text(b), field_text(a)))
        } else {
            v_changed_fields(before, after, n - 1)
        }
    }
}

pub open spec fn v_lock_changed(before: Seq<NodeV>, after: Seq<NodeV>, name: Seq<char>) -> bool {
    v_locked_text(before, name) != v_locked_text(after, name)
}

pub open spec fn v_requested_node(after: LockV, input: Seq<char>) -> Seq<char> {
    match v_node_for_input(after, input) {
        Some(n) => n,
        None => input,
    }
}

pub open spec fn v_nodes_of(lock: LockV) -> Seq<NodeV> {
    match lock.nodes {
        Some(n) => n,
        None => Seq::empty(),
    }
}

pub open spec fn v_node_names(ns: Seq<NodeV>) -> Seq<Seq<char>> {
    ns.map_values(|n: NodeV| n.name)
}

/// The changes of the first `n` requested inputs whose lock changed, over
/// the model.
pub open spec fn v_requested_changes(before: LockV, after: LockV, inputs: Seq<Seq<char>>, n: int) -> Seq<
    (Seq<char>, Seq<(Seq<char>, Seq<char>, Seq<char>)>),
>
    decreases n,
{
    if n <= 0 {
        Seq::empty()
    } else {
        let input = inputs[n - 1];
        let node = v_requested_node(after, input);
        let rest = v_requested_changes(before, after, inputs, n - 1);
        if v_lock_changed(v_nodes_of(before), v_nodes_of(after), node) {
            rest.push(
                (
                    input,
                    v_changed_fields(
                        v_locked_of(v_nodes_of(before), node),
                        v_locked_of(v_nodes_of(after), node),
                        7,
                    ),
                ),
            )
        } else {
            rest
        }
    }
}

pub open spec fn v_counted_other(
    before: Seq<NodeV>,
    after: Seq<NodeV>,
    requested: Seq<Seq<char>>,
    names: Seq<Seq<char>>,
    k: int,
) -> bool {
    &&& !names.take(k).contains(names[k])
    &&& v_lock_changed(before, after, names[k])
    &&& !requested.contains(names[k])
}

pub open spec fn v_other_count(
    before: Seq<NodeV>,
    after: Seq<NodeV>,
    requested: Seq<Seq<char>>,
    names: Seq<Seq<char>>,
    n: int,
) -> nat
    decreases n,
{
    if n <= 0 {
        0
    } else {
        v_other_count(before, after, requested, names, n - 1) + if v_counted_other(
            before,
            after,
            requested,
            names,
            n - 1,
        ) {
            1nat
        } else {
            0nat
        }
    }
}

/// The focused diff of two lock files, given by their models: `None`
/// exactly when either has no `nodes` object; otherwise the changed
/// requested inputs and the count of other changed nodes.
pub open spec fn focused_diff_of(r: Option<FocusedLockDiff>, b: LockV, a: LockV, inputs: Seq<Seq<char>>) -> bool {
    &&& (r is None <==> (b.nodes is None || a.nodes is None))
    &&& (r matches Some(d) ==> input_change_views(d.requested@) == v_requested_changes(
        b,
        a,
        inputs,
        inputs.len() as int,
    ) && d.other_changed == v_other_count(
        v_nodes_of(b),
        v_nodes_of(a),
        inputs.map_values(|i: Seq<char>| v_requested_node(a, i)),
        v_node_names(v_nodes_of(b)) + v_node_names(v_nodes_of(a)),
        (v_nodes_of(b).len() + v_nodes_of(a).len()) as int,
    ))
}

proof fn lemma_node_index_v(ns: Seq<LockNode>, name: Seq<char>)
    ensures
        node_index(ns, name) == v_node_index(node_vs(ns), name),
        node_vs(ns).len() == ns.len(),
        forall|k: int| 0 <= k < ns.len() ==> #[trigger] node_vs(ns)[k] == node_v(ns[k]),
    decreases ns.len(),
{
    if ns.len() > 0 {
        assert(node_vs(ns).drop_last() =~= node_vs(ns.drop_last()));
        lemma_node_index_v(ns.drop_last(), name);
    }
}

proof fn lemma_input_index_v(inputs: Seq<(String, InputRef)>, key: Seq<char>)
    ensures
        input_index(inputs, key) == v_input_index(
            inputs.map_values(|e: (String, InputRef)| (e.0@, input_ref_v(e.1))),
            key,
        ),
    decreases inputs.len(),
{
    if inputs.len() > 0 {
        assert(inputs.map_values(|e: (String, InputRef)| (e.0@, input_ref_v(e.1))).drop_last()
            =~= inputs.drop_last().map_values(|e: (String, InputRef)| (e.0@, input_ref_v(e.1))));
        lemma_input_index_v(inputs.drop_last(), key);
    }
}

proof fn lemma_field_index_v(fields: Seq<(String, FieldValue)>, name: Seq<char>)
    ensures
        field_index(fields, name) == v_field_index(
            fields.map_values(|e: (String, FieldValue)| (e.0@, field_v(e.1))),
            name,
        ),
    decreases fields.len(),
{
    if fields.len() > 0 {
        assert(fields.map_values(|e: (String, FieldValue)| (e.0@, field_v(e.1))).drop_last()
            =~= fields.drop_last().map_values(|e: (String, FieldValue)| (e.0@, field_v(e.1))));
        lemma_field_index_v(fields.drop_last(), name);
    }
}

proof fn lemma_node_for_input_v(lock: LockFile, input: Seq<char>)
    ensures
        node_for_input(lock, input) == v_node_for_input(lock_v(lock), input),
{
    if let Some(ns) = lock.nodes {
        let root = match lock.root {
            Some(r) => r@,
            None => "root"@,
        };
        lemma_node_index_v(ns@, root);
        if let Some(ri) = node_index(ns@, root) {
            lemma_node_index(ns@, root);
            if let Some(first) = first_segment(input) {
                let inputs = ns@[ri].inputs@;
                lemma_input_index_v(inputs, first);
                if let Some(ii) = input_index(inputs, first) {
                    lemma_input_index(inputs, first);
                    let r = inputs[ii].1;
                    if let InputRef::Follows(p) = r {
                        assert(p@.map_values(|f: FieldValue| field_v(f)).len() == p@.len());
                        if p@.len() > 0 {
                            assert(p@.map_values(|f: FieldValue| field_v(f)).last() == field_v(p@.last()));
                        }
                    }
                }
            }
        }
    }
}

proof fn lemma_field_of_v(locked: Option<Locked>, name: Seq<char>)
    ensures
        field_of(locked, name) == v_field_of(locked_opt_v(locked), name),
{
    if let Some(l) = locked {
        lemma_field_index_v(l.fields@, name);
        lemma_field_index(l.fields@, name);
    }
}

proof fn lemma_changed_fields_v(before: Option<Locked>, after: Option<Locked>, n: int)
    ensures
        changed_fields(before, after, n) == v_changed_fields(locked_opt_v(before), locked_opt_v(after), n),
    decreases n,
{
    if n > 0 {
        lemma_changed_fields_v(before, after, n - 1);
        lemma_field_of_v(before, compared_fields()[n - 1]);
        lemma_field_of_v(after, compared_fields()[n - 1]);
    }
}

proof fn lemma_locked_of_v(ns: Seq<LockNode>, name: Seq<char>)
    ensures
        locked_opt_v(locked_of(ns, name)) == v_locked_of(node_vs(ns), name),
        locked_text(ns, name) == v_locked_text(node_vs(ns), name),
{
    lemma_node_index_v(ns, name);
    lemma_node_index(ns, name);
}

proof fn lemma_requested_changes_v(before: LockFile, after: LockFile, inputs: Seq<Seq<char>>, n: int)
    ensures
        requested_changes(before, after, inputs, n) == v_requested_changes(
            lock_v(before),
            lock_v(after),
            inputs,
            n,
        ),
    decreases n,
{
    if n > 0 {
        lemma_requested_changes_v(before, after, inputs, n - 1);
        let input = inputs[n - 1];
        lemma_node_for_input_v(after, input);
        let node = requested_node(after, input);
        assert(node_vs(nodes_of(before)) == v_nodes_of(lock_v(before)));
        assert(node_vs(nodes_of(after)) == v_nodes_of(lock_v(after)));
        lemma_locked_of_v(nodes_of(before), node);
        lemma_locked_of_v(nodes_of(after), node);
        lemma_changed_fields_v(locked_of(nodes_of(before), node), locked_of(nodes_of(after), node), 7);
    }
}

proof fn lemma_other_count_v(
    before: Seq<LockNode>,
    after: Seq<LockNode>,
    requested: Seq<Seq<char>>,
    names: Seq<Seq<char>>,
    n: int,
)
    ensures
        other_count(before, after, requested, names, n) == v_other_count(
            node_vs(before),
            node_vs(after),
            requested,
            names,
            n,
        ),
    decreases n,
{
    if n > 0 {
        lemma_other_count_v(before, after, requested, names, n - 1);
        lemma_locked_of_v(before, names[n - 1]);
        lemma_locked_of_v(after, names[n - 1]);
    }
}

/// Compares the requested inputs' locks in two `flake.lock` files given as
/// bytes: `None` when either does not parse as JSON, and otherwise the
/// focused diff of what the two files hold.
pub fn focused_lockfile_diff_bytes(before: &[u8], after: &[u8], requested_inputs: &Vec<String>) -> (r:
    Option<FocusedLockDiff>)
    ensures
        match (crate::json::json_of(before@), crate::json::json_of(after@)) {
            (Some(jb), Some(ja)) => focused_diff_of(
                r,
                lock_of_json_spec(jb),
                lock_of_json_spec(ja),
                strs(requested_inputs@),
            ),
            _ => r is None,
        },
{
    let vb = match crate::json::parse_json(before) {
        Some(v) => v,
        None => return None,
    };
    let va = match crate::json::parse_json(after) {
        Some(v) => v,
        None => return None,
    };
    let lb = lock_of_json(&vb);
    let la = lock_of_json(&va);
    let r = focused_lockfile_diff(&lb, &la, requested_inputs);
    proof {
        let inputs = strs(requested_inputs@);
        lemma_requested_changes_v(lb, la, inputs, inputs.len() as int);
        assert(node_vs(nodes_of(lb)) == v_nodes_of(lock_v(lb)));
        assert(node_vs(nodes_of(la)) == v_nodes_of(lock_v(la)));
        let req = inputs.map_values(|i: Seq<char>| requested_node(la, i));
        assert forall|k: int| 0 <= k < inputs.len() implies req[k] == inputs.map_values(
            |i: Seq<char>| v_requested_node(lock_v(la), i),
        )[k] by {
            lemma_node_for_input_v(la, inputs[k]);
        }
        assert(req =~= inputs.map_values(|i: Seq<char>| v_requested_node(lock_v(la), i)));
        let names = node_names(nodes_of(lb)) + node_names(nodes_of(la));
        assert(names =~= v_node_names(v_nodes_of(lock_v(lb))) + v_node_names(v_nodes_of(lock_v(la))));
        lemma_other_count_v(nodes_of(lb), nodes_of(la), req, names, (nodes_of(lb).len() + nodes_of(la).len()) as int);
    }
    r
}


/// The lines printed for one requested input's change.
pub open spec fn change_lines(change: (Seq<char>, Seq<(Seq<char>, Seq<char>, Seq<char>)>)) -> Seq<Seq<char>> {
    let head = seq!["    "@ + change.0 + ":"@];
    if change.1.len() == 0 {
        head.push("      locked: changed"@)
    } else {
        head + change.1.map_values(
            |f: (Seq<char>, Seq<char>, Seq<char>)| "      "@ + f.0 + ": "@ + f.1 + " -> "@ + f.2,
        )
    }
}

/// The lines printed for the first `n` requested changes.
pub open spec fn changes_lines(changes: Seq<(Seq<char>, Seq<(Seq<char>, Seq<char>, Seq<char>)>)>, n: int) -> Seq<
    Seq<char>,
>
    decreases n,
{
    if n <= 0 {
        Seq::empty()
    } else {
        changes_lines(changes, n - 1) + change_lines(changes[n - 1])
    }
}

/// What the focused diff prints on standard output.
pub open spec fn focused_report_lines(
    changes: Seq<(Seq<char>, Seq<(Seq<char>, Seq<char>, Seq<char>)>)>,
    inputs: Seq<Seq<char>>,
) -> Seq<Seq<char>> {
    if changes.len() == 0 {
        seq!["flake.lock changed:"@, "  requested inputs unchanged: "@ + join(inputs, ", "@)]
    } else {
        seq!["flake.lock changed:"@, "  requested input changes:"@] + changes_lines(
            changes,
            changes.len() as int,
        )
    }
}

/// The warning about other changed nodes, when there are any.
pub open spec fn other_nodes_warning(other: nat, flake_path: Seq<char>) -> Option<Seq<char>> {
    if other == 0 {
        None
    } else {
        Some(
            "warning: "@ + decimal(other) + " other lock node(s) changed; run `git -C "@ + flake_path
                + " diff -- flake.lock` to inspect them"@,
        )
    }
}

fn push_change_lines(out: &mut Vec<String>, change: &FocusedInputChange)
    ensures
        strs(final(out)@) == strs(old(out)@) + change_lines(
            (change.input@, field_change_views(change.fields@)),
        ),
{
    proof {
        reveal_strlit("    ");
        reveal_strlit(":");
        reveal_strlit("      locked: changed");
        reveal_strlit("      ");
        reveal_strlit(": ");
        reveal_strlit(" -> ");
    }
    let ghost start = strs(out@);
    let ghost fv = field_change_views(change.fields@);
    let head = concat3("    ", change.input.as_str(), ":");
    let ghost p0 = out@;
    out.push(head);
    proof {
        lemma_strs_push(p0, head);
    }
    if change.fields.len() == 0 {
        let ghost p1 = out@;
        let l = "      locked: changed".to_owned();
        out.push(l);
        proof {
            lemma_strs_push(p1, l);
            assert(strs(out@) =~= start + change_lines((change.input@, fv)));
        }
        return;
    }
    let ghost mapped = fv.map_values(
        |f: (Seq<char>, Seq<char>, Seq<char>)| "      "@ + f.0 + ": "@ + f.1 + " -> "@ + f.2,
    );
    let mut i: usize = 0;
    while i < change.fields.len()
        invariant
            i <= change.fields.len(),
            fv == field_change_views(change.fields@),
            strs(out@) == start + seq!["    "@ + change.input@ + ":"@] + mapped.take(i as int),
            mapped == fv.map_values(
                |f: (Seq<char>, Seq<char>, Seq<char>)| "      "@ + f.0 + ": "@ + f.1 + " -> "@ + f.2,
            ),
        decreases change.fields.len() - i,
    {
        let f = &change.fields[i];
        let mut l = concat3("      ", f.name.as_str(), ": ");
        l.append(f.before.as_str());
        l.append(" -> ");
        l.append(f.after.as_str());
        let ghost p = out@;
        out.push(l);
        proof {
            lemma_strs_push(p, l);
            assert(mapped[i as int] == l@);
            assert(mapped.take(i + 1) =~= mapped.take(i as int).push(l@));
        }
        i = i + 1;
    }
    assert(mapped.take(fv.len() as int) =~= mapped);
    assert(strs(out@) =~= start + change_lines((change.input@, fv)));
}

/// The lines the focused diff prints, and the warning it gives on standard
/// error when other nodes changed.
pub fn focused_report(diff: &FocusedLockDiff, requested_inputs: &Vec<String>, flake_path: &str) -> (r: (
    Vec<String>,
    Option<String>,
))
    ensures
        strs(r.0@) == focused_report_lines(input_change_views(diff.requested@), strs(requested_inputs@)),
        match other_nodes_warning(diff.other_changed as nat, flake_path@) {
            Some(w) => r.1 matches Some(s) && s@ == w,
            None => r.1 is None,
        },
{
    proof {
        reveal_strlit("flake.lock changed:");
        reveal_strlit("  requested inputs unchanged: ");
        reveal_strlit(", ");
        reveal_strlit("  requested input changes:");
        reveal_strlit("warning: ");
        reveal_strlit(" other lock node(s) changed; run `git -C ");
        reveal_strlit(" diff -- flake.lock` to inspect them");
    }
    let ghost changes = input_change_views(diff.requested@);
    let mut out: Vec<String> = Vec::new();
    out.push("flake.lock changed:".to_owned());
    if diff.requested.len() == 0 {
        let joined = join_strings(requested_inputs.as_slice(), ", ");
        out.push(concat("  requested inputs unchanged: ", joined.as_str()));
        assert(strs(out@) =~= focused_report_lines(changes, strs(requested_inputs@)));
    } else {
        out.push("  requested input changes:".to_owned());
        let ghost head = strs(out@);
        assert(head =~= seq!["flake.lock changed:"@, "  requested input changes:"@]);
        let mut i: usize = 0;
        while i < diff.requested.len()
            invariant
                i <= diff.requested.len(),
                changes == input_change_views(diff.requested@),
                strs(out@) == head + changes_lines(changes, i as int),
            decreases diff.requested.len() - i,
        {
            push_change_lines(&mut out, &diff.requested[i]);
            assert(changes[i as int] == (diff.requested@[i as int].input@, field_change_views(
                diff.requested@[i as int].fields@,
            )));
            assert(head + changes_lines(changes, i + 1) =~= head + changes_lines(changes, i as int)
                + change_lines(changes[i as int]));
            i = i + 1;
        }
    }
    let warning = if diff.other_changed == 0 {
        None
    } else {
        let mut w = "warning: ".to_owned();
        push_decimal(&mut w, diff.other_changed as u64);
        w.append(" other lock node(s) changed; run `git -C ");
        w.append(flake_path);
        w.append(" diff -- flake.lock` to inspect them");
        Some(w)
    };
    (out, warning)
}

/// How an input's locked revision is shown: the first eight characters
/// of its `rev` when that is a string, else `unlocked`.
pub open spec fn revision_text(locked: Option<Locked>) -> Seq<char> {
    match field_of(locked, "rev"@) {
        Some((true, t)) => crate::snapshot::truncated_revision(t),
        _ => "unlocked"@,
    }
}

pub open spec fn root_inputs(lock: LockFile) -> Seq<(String, InputRef)> {
    let root = match lock.root {
        Some(r) => r@,
        None => "root"@,
    };
    match node_index(nodes_of(lock), root) {
        Some(ri) => nodes_of(lock)[ri].inputs@,
        None => Seq::empty(),
    }
}

/// The root's inputs that name a node, with their revisions, in the
/// order of the first `n` inputs.
pub open spec fn input_revisions(lock: LockFile, inputs: Seq<(String, InputRef)>, n: int) -> Seq<
    (Seq<char>, Seq<char>),
>
    decreases n,
{
    if n <= 0 {
        Seq::empty()
    } else {
        let rest = input_revisions(lock, inputs, n - 1);
        match ref_target(inputs[n - 1].1) {
            Some(node) => rest.push((inputs[n - 1].0@, revision_text(locked_of(nodes_of(lock), node)))),
            None => rest,
        }
    }
}

/// Inserts after every entry whose name is not greater.
pub open spec fn insert_by_name(s: Seq<(Seq<char>, Seq<char>)>, x: (Seq<char>, Seq<char>)) -> Seq<
    (Seq<char>, Seq<char>),
>
    decreases s.len(),
{
    if s.len() == 0 {
        seq![x]
    } else if !crate::text::chars_less(x.0, s.last().0) {
        s.push(x)
    } else {
        insert_by_name(s.drop_last(), x).push(s.last())
    }
}

/// The entries ordered by name, equal names in their first order.
pub open spec fn sorted_by_name(s: Seq<(Seq<char>, Seq<char>)>) -> Seq<(Seq<char>, Seq<char>)>
    decreases s.len(),
{
    if s.len() == 0 {
        Seq::empty()
    } else {
        insert_by_name(sorted_by_name(s.drop_last()), s.last())
    }
}

pub open spec fn pair_views(v: Seq<(String, String)>) -> Seq<(Seq<char>, Seq<char>)> {
    v.map_values(|p: (String, String)| (p.0@, p.1@))
}

fn revision_of(nodes: &Vec<LockNode>, node: &str) -> (r: String)
    ensures
        r@ == revision_text(locked_of(nodes@, node@)),
{
    proof {
        reveal_strlit("unlocked");
    }
    let none: Option<Locked> = None;
    let l = match find_node(nodes, node) {
        Some(i) => &nodes[i].locked,
        None => &none,
    };
    match field_lookup(l, "rev") {
        Some((true, t)) => crate::snapshot::truncate_revision(t.as_str()),
        _ => "unlocked".to_owned(),
    }
}

fn insert_sorted(sorted: &mut Vec<(String, String)>, x: (String, String))
    ensures
        pair_views(final(sorted)@) == insert_by_name(pair_views(old(sorted)@), (x.0@, x.1@)),
{
    let ghost before = pair_views(sorted@);
    let ghost xv = (x.0@, x.1@);
    let mut pos: usize = sorted.len();
    assert(before.take(pos as int) =~= before);
    assert(before.skip(pos as int) =~= Seq::<(Seq<char>, Seq<char>)>::empty());
    assert(insert_by_name(before, xv) + Seq::<(Seq<char>, Seq<char>)>::empty() =~= insert_by_name(before, xv));
    while pos > 0 && crate::text::str_less(x.0.as_str(), sorted[pos - 1].0.as_str())
        invariant
            pos <= sorted.len(),
            before == pair_views(sorted@),
            xv == (x.0@, x.1@),
            insert_by_name(before, xv) == insert_by_name(before.take(pos as int), xv) + before.skip(pos as int),
        decreases pos,
    {
        proof {
            let t = before.take(pos as int);
            assert(t.drop_last() =~= before.take(pos - 1));
            assert(t.last() == before[pos - 1]);
            assert(insert_by_name(t, xv) == insert_by_name(before.take(pos - 1), xv).push(before[pos - 1]));
            assert(before.skip(pos - 1) =~= seq![before[pos - 1]] + before.skip(pos as int));
            assert(insert_by_name(before.take(pos - 1), xv).push(before[pos - 1]) + before.skip(pos as int)
                =~= insert_by_name(before.take(pos - 1), xv) + before.skip(pos - 1));
        }
        pos = pos - 1;
    }
    proof {
        let t = before.take(pos as int);
        if pos > 0 {
            assert(t.last() == before[pos - 1]);
            assert(insert_by_name(t, xv) == t.push(xv));
        } else {
            assert(insert_by_name(t, xv) == seq![xv]);
        }
    }
    sorted.insert(pos, x);
    assert(pair_views(sorted@) =~= before.take(pos as int).push(xv) + before.skip(pos as int));
}

/// The root's inputs with the revision each is locked at, sorted by name.
pub fn flake_inputs(lock: &LockFile) -> (r: Vec<(String, String)>)
    ensures
        pair_views(r@) == sorted_by_name(input_revisions(*lock, root_inputs(*lock), root_inputs(*lock).len() as int)),
{
    proof {
        reveal_strlit("root");
    }
    let mut sorted: Vec<(String, String)> = Vec::new();
    let nodes = match &lock.nodes {
        Some(n) => n,
        None => {
            assert(root_inputs(*lock) =~= Seq::<(String, InputRef)>::empty());
            return sorted;
        },
    };
    let root: String = match &lock.root {
        Some(r) => r.clone(),
        None => "root".to_owned(),
    };
    let ri = match find_node(nodes, root.as_str()) {
        Some(i) => i,
        None => {
            return sorted;
        },
    };
    let inputs = &nodes[ri].inputs;
    assert(inputs@ == root_inputs(*lock));
    let ghost all = input_revisions(*lock, inputs@, inputs@.len() as int);
    let mut i: usize = 0;
    while i < inputs.len()
        invariant
            i <= inputs.len(),
            lock.nodes == Some(*nodes),
            pair_views(sorted@) == sorted_by_name(input_revisions(*lock, inputs@, i as int)),
        decreases inputs.len() - i,
    {
        let target = match &inputs[i].1 {
            InputRef::Node(n) => Some(n.clone()),
            InputRef::Follows(path) => {
                if path.len() > 0 && path[path.len() - 1].is_string {
                    Some(path[path.len() - 1].text.clone())
                } else {
                    None
                }
            },
            InputRef::Other => None,
        };
        match target {
            Some(node) => {
                let rev = revision_of(nodes, node.as_str());
                let name = inputs[i].0.clone();
                let ghost xv = (name@, rev@);
                insert_sorted(&mut sorted, (name, rev));
                assert(input_revisions(*lock, inputs@, i + 1) == input_revisions(*lock, inputs@, i as int).push(xv));
                assert(input_revisions(*lock, inputs@, i + 1).drop_last() =~= input_revisions(*lock, inputs@, i as int));
            },
            None => {
                assert(input_revisions(*lock, inputs@, i + 1) == input_revisions(*lock, inputs@, i as int));
            },
        }
        i = i + 1;
    }
    sorted
}

} // verus!
