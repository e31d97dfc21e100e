use vstd::prelude::*;
use vstd::string::*;

use crate::text::{
    contains, contains_str as includes, eq_str, to_lowercase,
    chars_of, find_char_from, find_char_from_exec, find_from, find_from_exec, lemma_find_char_from,
    lemma_strs_push, parse_u64, parse_u64_spec, push_char, push_str, string_of, string_of_range, strs,
};

verus! {

/// JSON's insignificant whitespace.
pub open spec fn json_ws(c: char) -> bool {
    c == ' ' || c == '\n' || c == '\r' || c == '\t'
}

/// The first position at or after `i` that is not JSON whitespace.
pub open spec fn skip_json_ws(s: Seq<char>, i: int) -> int
    decreases s.len() - i,
{
    if 0 <= i < s.len() && json_ws(s[i]) {
        skip_json_ws(s, i + 1)
    } else {
        i
    }
}

/// `"key"` as the needle the field lookup searches for.
pub open spec fn quoted_key(key: Seq<char>) -> Seq<char> {
    seq!['"'] + key + seq!['"']
}

/// Where the value of `key` starts: after the first `"key"`, the first `:`
/// that follows, and any whitespace.
pub open spec fn json_value_start(json: Seq<char>, key: Seq<char>) -> Option<int> {
    match find_from(json, quoted_key(key), 0) {
        None => None,
        Some(k) => match find_char_from(json, ':', k + quoted_key(key).len()) {
            None => None,
            Some(c) => Some(skip_json_ws(json, c + 1)),
        },
    }
}

/// The character that an escape sequence `\c` stands for.
pub open spec fn unescape(c: char) -> char {
    if c == 'n' {
        '\n'
    } else if c == 't' {
        '\t'
    } else if c == 'r' {
        '\r'
    } else {
        c
    }
}

/// Reads a JSON string body from position `i`: the characters up to the first
/// unescaped `"`, with escapes resolved, and the position after that quote.
pub open spec fn string_body(s: Seq<char>, i: int, escaped: bool, out: Seq<char>) -> Option<
    (Seq<char>, int),
>
    decreases s.len() - i,
{
    if i < 0 || i >= s.len() {
        None
    } else if escaped {
        string_body(s, i + 1, false, out.push(unescape(s[i])))
    } else if s[i] == '\\' {
        string_body(s, i + 1, true, out)
    } else if s[i] == '"' {
        Some((out, i + 1))
    } else {
        string_body(s, i + 1, false, out.push(s[i]))
    }
}

/// The JSON string whose opening quote stands at `start`.
pub open spec fn json_string_at(s: Seq<char>, start: int) -> Option<(Seq<char>, int)> {
    string_body(s, start + 1, false, Seq::empty())
}

pub open spec fn json_string_field(json: Seq<char>, key: Seq<char>) -> Option<Seq<char>> {
    match json_value_start(json, key) {
        None => None,
        Some(v) => if 0 <= v < json.len() && json[v] == '"' {
            match json_string_at(json, v) {
                Some((value, _)) => Some(value),
                None => None,
            }
        } else {
            None
        },
    }
}

/// The first position at or after `i` that is not an ASCII digit.
pub open spec fn digits_end(s: Seq<char>, i: int) -> int
    decreases s.len() - i,
{
    if 0 <= i < s.len() && '0' <= s[i] && s[i] <= '9' {
        digits_end(s, i + 1)
    } else {
        i
    }
}

pub open spec fn json_u64_field(json: Seq<char>, key: Seq<char>) -> Option<u64> {
    match json_value_start(json, key) {
        None => None,
        Some(v) => {
            let start = skip_json_ws(json, v);
            let end = digits_end(json, start);
            if start == end {
                None
            } else {
                parse_u64_spec(json.subrange(start, end))
            }
        },
    }
}

/// Separators between array items.
pub open spec fn array_sep(c: char) -> bool {
    json_ws(c) || c == ','
}

pub open spec fn skip_array_sep(s: Seq<char>, i: int) -> int
    decreases s.len() - i,
{
    if 0 <= i < s.len() && array_sep(s[i]) {
        skip_array_sep(s, i + 1)
    } else {
        i
    }
}

/// The first `,` or `]` at or after `i`.
pub open spec fn skip_item(s: Seq<char>, i: int) -> int
    decreases s.len() - i,
{
    if 0 <= i < s.len() && s[i] != ',' && s[i] != ']' {
        skip_item(s, i + 1)
    } else {
        i
    }
}

/// The string items of an array, read from position `i`; other items are skipped.
pub open spec fn array_items(s: Seq<char>, i: int, acc: Seq<Seq<char>>) -> Seq<Seq<char>>
    decreases s.len() - i,
{
    if i < 0 || i >= s.len() {
        acc
    } else {
        let j = skip_array_sep(s, i);
        if j >= s.len() {
            acc
        } else if s[j] == '"' {
            match json_string_at(s, j) {
                Some((v, next)) => if i < next <= s.len() {
                    array_items(s, next, acc.push(v))
                } else {
                    acc
                },
                None => acc,
            }
        } else if s[j] == ']' {
            acc
        } else {
            let k = skip_item(s, j);
            if i < k <= s.len() {
                array_items(s, k, acc)
            } else {
                acc
            }
        }
    }
}

pub open spec fn json_string_array_field(json: Seq<char>, key: Seq<char>) -> Seq<Seq<char>> {
    match json_value_start(json, key) {
        None => Seq::empty(),
        Some(v) => if 0 <= v < json.len() && json[v] == '[' {
            array_items(json, v + 1, Seq::empty())
        } else {
            Seq::empty()
        },
    }
}

proof fn occurs_at_spec_helper(s: Seq<char>, n: Seq<char>, i: int) -> (b: bool)
    requires
        crate::text::occurs_at(s, n, i),
    ensures
        b,
        i + n.len() <= s.len(),
{
    true
}

proof fn lemma_skip_array_sep(s: Seq<char>, i: int)
    requires
        0 <= i,
    ensures
        i <= skip_array_sep(s, i),
    decreases s.len() - i,
{
    if 0 <= i < s.len() && array_sep(s[i]) {
        lemma_skip_array_sep(s, i + 1);
    }
}

proof fn lemma_skip_json_ws(s: Seq<char>, i: int)
    requires
        0 <= i,
    ensures
        i <= skip_json_ws(s, i),
        skip_json_ws(s, i) <= s.len() || skip_json_ws(s, i) == i,
    decreases s.len() - i,
{
    if 0 <= i < s.len() && json_ws(s[i]) {
        lemma_skip_json_ws(s, i + 1);
    }
}

proof fn lemma_string_body_advances(s: Seq<char>, i: int, escaped: bool, out: Seq<char>)
    ensures
        string_body(s, i, escaped, out) matches Some((_, next)) ==> i < next <= s.len(),
    decreases s.len() - i,
{
    if i < 0 || i >= s.len() {
    } else if escaped {
        lemma_string_body_advances(s, i + 1, false, out.push(unescape(s[i])));
    } else if s[i] == '\\' {
        lemma_string_body_advances(s, i + 1, true, out);
    } else if s[i] == '"' {
    } else {
        lemma_string_body_advances(s, i + 1, false, out.push(s[i]));
    }
}

fn is_json_ws(c: char) -> (r: bool)
    ensures
        r == json_ws(c),
{
    c == ' ' || c == '\n' || c == '\r' || c == '\t'
}

fn skip_json_ws_exec(s: &[char], i: usize) -> (r: usize)
    ensures
        r as int == skip_json_ws(s@, i as int),
        i <= r,
{
    let mut j = i;
    while j < s.len() && is_json_ws(s[j])
        invariant
            i <= j,
            skip_json_ws(s@, i as int) == skip_json_ws(s@, j as int),
        decreases s.len() - j,
    {
        j = j + 1;
    }
    j
}

fn json_value_start_exec(json: &[char], key: &str) -> (r: Option<usize>)
    ensures
        match r {
            Some(v) => json_value_start(json@, key@) == Some(v as int),
            None => json_value_start(json@, key@) is None,
        },
{
    let mut needle: Vec<char> = Vec::new();
    needle.push('"');
    let k = chars_of(key);
    let mut i: usize = 0;
    while i < k.len()
        invariant
            i <= k.len(),
            k@ == key@,
            needle@ == seq!['"'] + k@.take(i as int),
        decreases k.len() - i,
    {
        needle.push(k[i]);
        i = i + 1;
        assert(needle@ =~= seq!['"'] + k@.take(i as int));
    }
    needle.push('"');
    assert(k@.take(k.len() as int) =~= k@);
    assert(needle@ =~= quoted_key(key@));
    match find_from_exec(json, needle.as_slice(), 0) {
        None => None,
        Some(ki) => {
            proof {
                crate::text::lemma_find_from_some(json@, needle@, 0);
                let _b = occurs_at_spec_helper(json@, needle@, ki as int);
            }
            assert(ki + needle.len() <= json.len());
            let after = ki + needle.len();
            match find_char_from_exec(json, ':', after) {
                None => None,
                Some(ci) => {
                    proof {
                        lemma_find_char_from(json@, ':', after as int);
                    }
                    assert(ci < json.len());
                    Some(skip_json_ws_exec(json, ci + 1))
                },
            }
        },
    }
}

fn unescape_exec(c: char) -> (r: char)
    ensures
        r == unescape(c),
{
    if c == 'n' {
        '\n'
    } else if c == 't' {
        '\t'
    } else if c == 'r' {
        '\r'
    } else {
        c
    }
}

/// Reads the JSON string whose opening quote is at `start`.
fn parse_json_string(s: &[char], start: usize) -> (r: Option<(String, usize)>)
    ensures
        match json_string_at(s@, start as int) {
            Some((v, next)) => r matches Some((rv, rn)) && rv@ == v && rn as int == next,
            None => r is None,
        },
{
    if start >= s.len() {
        return None;
    }
    let mut out: Vec<char> = Vec::new();
    let mut escaped = false;
    let mut i: usize = start + 1;
    while i < s.len()
        invariant
            start < i,
            json_string_at(s@, start as int) == string_body(s@, i as int, escaped, out@),
        decreases s.len() - i,
    {
        let c = s[i];
        if escaped {
            out.push(unescape_exec(c));
            escaped = false;
        } else if c == '\\' {
            escaped = true;
        } else if c == '"' {
            return Some((string_of(out.as_slice()), i + 1));
        } else {
            out.push(c);
        }
        i = i + 1;
    }
    None
}

fn json_string_field_exec(json: &[char], key: &str) -> (r: Option<String>)
    ensures
        match json_string_field(json@, key@) {
            Some(v) => r matches Some(rv) && rv@ == v,
            None => r is None,
        },
{
    match json_value_start_exec(json, key) {
        None => None,
        Some(v) => {
            if v < json.len() && json[v] == '"' {
                match parse_json_string(json, v) {
                    Some((value, _)) => Some(value),
                    None => None,
                }
            } else {
                None
            }
        },
    }
}

fn json_u64_field_exec(json: &[char], key: &str) -> (r: Option<u64>)
    ensures
        r == json_u64_field(json@, key@),
{
    match json_value_start_exec(json, key) {
        None => None,
        Some(v) => {
            let start = skip_json_ws_exec(json, v);
            let mut end = start;
            while end < json.len() && '0' <= json[end] && json[end] <= '9'
                invariant
                    start <= end,
                    digits_end(json@, start as int) == digits_end(json@, end as int),
                decreases json.len() - end,
            {
                end = end + 1;
            }
            if start == end {
                None
            } else {
                proof {
                    lemma_digits_end(json@, start as int);
                }
                let mut digits: Vec<char> = Vec::new();
                let mut k = start;
                while k < end
                    invariant
                        start <= k <= end <= json.len(),
                        digits@ == json@.subrange(start as int, k as int),
                    decreases end - k,
                {
                    digits.push(json[k]);
                    k = k + 1;
                    assert(digits@ =~= json@.subrange(start as int, k as int));
                }
                parse_u64(digits.as_slice())
            }
        },
    }
}

proof fn lemma_digits_end(s: Seq<char>, i: int)
    requires
        0 <= i,
    ensures
        i <= digits_end(s, i),
        digits_end(s, i) > i ==> digits_end(s, i) <= s.len(),
    decreases s.len() - i,
{
    if 0 <= i < s.len() && '0' <= s[i] && s[i] <= '9' {
        lemma_digits_end(s, i + 1);
    }
}

fn is_array_sep(c: char) -> (r: bool)
    ensures
        r == array_sep(c),
{
    c == ' ' || c == '\n' || c == '\r' || c == '\t' || c == ','
}

fn json_string_array_field_exec(json: &[char], key: &str) -> (r: Vec<String>)
    ensures
        strs(r@) == json_string_array_field(json@, key@),
{
    let mut values: Vec<String> = Vec::new();
    let start = match json_value_start_exec(json, key) {
        None => {
            return values;
        },
        Some(v) => v,
    };
    if !(start < json.len() && json[start] == '[') {
        return values;
    }
    let mut index = start + 1;
    assert(strs(values@) =~= Seq::<Seq<char>>::empty());
    while index < json.len()
        invariant
            json_string_array_field(json@, key@) == array_items(json@, index as int, strs(values@)),
        decreases json.len() - index,
    {
        let mut j = index;
        while j < json.len() && is_array_sep(json[j])
            invariant
                index <= j,
                skip_array_sep(json@, index as int) == skip_array_sep(json@, j as int),
            decreases json.len() - j,
        {
            j = j + 1;
        }
        if j >= json.len() {
            return values;
        }
        if json[j] == '"' {
            match parse_json_string(json, j) {
                Some((value, next)) => {
                    proof {
                        lemma_string_body_advances(json@, j + 1, false, Seq::empty());
                        lemma_skip_array_sep(json@, index as int);
                    }
                    assert(next > j);
                    assert(next <= json.len());
                    let ghost before = values@;
                    values.push(value);
                    proof {
                        lemma_strs_push(before, value);
                    }
                    index = next;
                },
                None => {
                    return values;
                },
            }
        } else if json[j] == ']' {
            return values;
        } else {
            let mut k = j;
            while k < json.len() && json[k] != ',' && json[k] != ']'
                invariant
                    j <= k <= json.len(),
                    skip_item(json@, j as int) == skip_item(json@, k as int),
                decreases json.len() - k,
            {
                k = k + 1;
            }
            proof {
                lemma_skip_array_sep(json@, index as int);
            }
            assert(k > j);
            index = k;
        }
    }
    values
}


/// One Nix internal-JSON log event; unknown fields are ignored.
#[derive(Clone, Debug)]
pub struct NixEvent {
    pub action: String,
    pub id: Option<u64>,
    pub parent: Option<u64>,
    pub activity_type: Option<u64>,
    pub level: Option<u64>,
    pub text: String,
    pub fields: Vec<String>,
    pub raw: String,
}

/// How one line of backend output reads.
#[derive(Clone, Debug)]
pub enum ParsedLine {
    Event(NixEvent),
    Plain(String),
    BrokenInternalJson(String),
}

/// The shape of a line before its fields are read.
pub enum LineShape {
    Plain,
    Broken,
    Json(Seq<char>),
}

/// A line is JSON when, after leading whitespace, it starts with `{` (or with
/// `@nix ` and then, after more whitespace, `{`) and ends with `}`; an `@nix `
/// line that is not such an object is broken internal JSON.
pub open spec fn line_shape(line: Seq<char>) -> LineShape {
    let t = crate::text::trim_start(line);
    if crate::text::starts_with(t, "@nix "@) {
        let j = crate::text::trim_start(t.skip("@nix "@.len() as int));
        if j.len() > 0 && j[0] == '{' && j.last() == '}' {
            LineShape::Json(j)
        } else {
            LineShape::Broken
        }
    } else if t.len() > 0 && t[0] == '{' {
        if t.last() == '}' {
            LineShape::Json(t)
        } else {
            LineShape::Plain
        }
    } else {
        LineShape::Plain
    }
}

pub open spec fn event_action(json: Seq<char>) -> Seq<char> {
    match json_string_field(json, "action"@) {
        Some(a) => a,
        None => "unknown"@,
    }
}

/// `text`, else `msg`, else the first string of `fields`, else empty.
pub open spec fn event_text_field(json: Seq<char>) -> Seq<char> {
    match json_string_field(json, "text"@) {
        Some(t) => t,
        None => match json_string_field(json, "msg"@) {
            Some(m) => m,
            None => if json_string_array_field(json, "fields"@).len() > 0 {
                json_string_array_field(json, "fields"@)[0]
            } else {
                Seq::empty()
            },
        },
    }
}

/// The event that a JSON object line describes.
pub open spec fn is_event_of(e: NixEvent, json: Seq<char>) -> bool {
    &&& e.action@ == event_action(json)
    &&& e.id == json_u64_field(json, "id"@)
    &&& e.parent == json_u64_field(json, "parent"@)
    &&& e.activity_type == json_u64_field(json, "type"@)
    &&& e.level == json_u64_field(json, "level"@)
    &&& e.text@ == event_text_field(json)
    &&& strs(e.fields@) == json_string_array_field(json, "fields"@)
    &&& e.raw@ == json
}

pub open spec fn parsed_as(r: ParsedLine, line: Seq<char>) -> bool {
    match line_shape(line) {
        LineShape::Plain => r matches ParsedLine::Plain(p) && p@ == line,
        LineShape::Broken => r matches ParsedLine::BrokenInternalJson(p) && p@ == line,
        LineShape::Json(j) => r matches ParsedLine::Event(e) && is_event_of(e, j),
    }
}

fn parse_event(j: &[char]) -> (e: NixEvent)
    ensures
        is_event_of(e, j@),
{
    let action = match json_string_field_exec(j, "action") {
        Some(a) => a,
        None => "unknown".to_owned(),
    };
    let fields = json_string_array_field_exec(j, "fields");
    let text = match json_string_field_exec(j, "text") {
        Some(t) => t,
        None => match json_string_field_exec(j, "msg") {
            Some(m) => m,
            None => if fields.len() > 0 {
                assert(fields@[0]@ == strs(fields@)[0]);
                fields[0].clone()
            } else {
                String::new()
            },
        },
    };
    NixEvent {
        action,
        id: json_u64_field_exec(j, "id"),
        parent: json_u64_field_exec(j, "parent"),
        activity_type: json_u64_field_exec(j, "type"),
        level: json_u64_field_exec(j, "level"),
        text,
        fields,
        raw: string_of(j),
    }
}

/// Reads one line of backend output: an internal-JSON event, broken
/// internal JSON, or plain text.
pub fn parse_line(line: &str) -> (r: ParsedLine)
    ensures
        parsed_as(r, line@),
{
    let v = chars_of(line);
    let a = crate::text::trim_start_chars(v.as_slice());
    let t = string_of_range(v.as_slice(), a, v.len());
    match crate::text::strip_prefix_str(t.as_str(), "@nix ") {
        Some(rest) => {
            let w = chars_of(rest.as_str());
            let b = crate::text::trim_start_chars(w.as_slice());
            let mut j: Vec<char> = Vec::new();
            let mut k = b;
            while k < w.len()
                invariant
                    b <= k <= w.len(),
                    j@ == w@.subrange(b as int, k as int),
                decreases w.len() - k,
            {
                j.push(w[k]);
                k = k + 1;
                assert(j@ =~= w@.subrange(b as int, k as int));
            }
            if j.len() > 0 && j[0] == '{' && j[j.len() - 1] == '}' {
                ParsedLine::Event(parse_event(j.as_slice()))
            } else {
                ParsedLine::BrokenInternalJson(line.to_owned())
            }
        },
        None => {
            let tv = chars_of(t.as_str());
            if tv.len() > 0 && tv[0] == '{' {
                if tv[tv.len() - 1] == '}' {
                    ParsedLine::Event(parse_event(tv.as_slice()))
                } else {
                    ParsedLine::Plain(line.to_owned())
                }
            } else {
                ParsedLine::Plain(line.to_owned())
            }
        },
    }
}


/// Broad groups that builds are sorted into.
#[derive(Clone, Copy, Debug, PartialEq, Eq, Structural, PartialOrd, Ord)]
pub enum BuildCategory {
    KernelBoot,
    DesktopStack,
    Services,
    Libraries,
    DevTools,
    Other,
}

impl BuildCategory {
    pub open spec fn rank(self) -> nat {
        match self {
            BuildCategory::KernelBoot => 0,
            BuildCategory::DesktopStack => 1,
            BuildCategory::Services => 2,
            BuildCategory::Libraries => 3,
            BuildCategory::DevTools => 4,
            BuildCategory::Other => 5,
        }
    }

    pub open spec fn label_spec(self) -> Seq<char> {
        match self {
            BuildCategory::KernelBoot => "kernel/boot"@,
            BuildCategory::DesktopStack => "desktop stack"@,
            BuildCategory::Services => "services"@,
            BuildCategory::Libraries => "libraries"@,
            BuildCategory::DevTools => "dev tools"@,
            BuildCategory::Other => "other"@,
        }
    }

    /// A short human label.
    pub fn label(self) -> (r: &'static str)
        ensures
            r@ == self.label_spec(),
    {
        match self {
            BuildCategory::KernelBoot => "kernel/boot",
            BuildCategory::DesktopStack => "desktop stack",
            BuildCategory::Services => "services",
            BuildCategory::Libraries => "libraries",
            BuildCategory::DevTools => "dev tools",
            BuildCategory::Other => "other",
        }
    }
}


/// The category of already lowercased build text: the first group with a
/// keyword that occurs in it.
pub open spec fn category_of(lower: Seq<char>) -> BuildCategory {
    if contains(lower, "linux"@) || contains(lower, "kernel"@) || contains(lower, "initrd"@)
        || contains(lower, "boot"@) || contains(lower, "grub"@) || contains(lower, "systemd-boot"@) {
        BuildCategory::KernelBoot
    } else if contains(lower, "gnome"@) || contains(lower, "kde"@) || contains(lower, "plasma"@)
        || contains(lower, "xorg"@) || contains(lower, "wayland"@) || contains(lower, "sddm"@)
        || contains(lower, "gdm"@) || contains(lower, "mesa"@) || contains(lower, "nvidia"@)
        || contains(lower, "niri"@) || contains(lower, "hyprland"@) || contains(
        lower,
        "quickshell"@,
    ) {
        BuildCategory::DesktopStack
    } else if contains(lower, "service"@) || contains(lower, "unit"@) || contains(lower, "daemon"@)
        || contains(lower, "networkmanager"@) || contains(lower, "dbus"@) {
        BuildCategory::Services
    } else if contains(lower, "gcc"@) || contains(lower, "rustc"@) || contains(lower, "cargo"@)
        || contains(lower, "clang"@) || contains(lower, "go-"@) || contains(lower, "python"@) {
        BuildCategory::DevTools
    } else if contains(lower, "lib"@) || contains(lower, "openssl"@) || contains(lower, "glibc"@)
        || contains(lower, "zlib"@) {
        BuildCategory::Libraries
    } else {
        BuildCategory::Other
    }
}

/// Categorises already lowercased build text.
pub fn categorize_lowercase(lower: &str) -> (r: BuildCategory)
    ensures
        r == category_of(lower@),
{
    if includes(lower, "linux") || includes(lower, "kernel") || includes(lower, "initrd") || includes(lower, "boot")
        || includes(lower, "grub") || includes(lower, "systemd-boot") {
        BuildCategory::KernelBoot
    } else if includes(lower, "gnome") || includes(lower, "kde") || includes(lower, "plasma") || includes(lower, "xorg")
        || includes(lower, "wayland") || includes(lower, "sddm") || includes(lower, "gdm") || includes(lower, "mesa")
        || includes(lower, "nvidia") || includes(lower, "niri") || includes(lower, "hyprland") || includes(
        lower,
        "quickshell",
    ) {
        BuildCategory::DesktopStack
    } else if includes(lower, "service") || includes(lower, "unit") || includes(lower, "daemon") || includes(
        lower,
        "networkmanager",
    ) || includes(lower, "dbus") {
        BuildCategory::Services
    } else if includes(lower, "gcc") || includes(lower, "rustc") || includes(lower, "cargo") || includes(lower, "clang")
        || includes(lower, "go-") || includes(lower, "python") {
        BuildCategory::DevTools
    } else if includes(lower, "lib") || includes(lower, "openssl") || includes(lower, "glibc") || includes(lower, "zlib") {
        BuildCategory::Libraries
    } else {
        BuildCategory::Other
    }
}

/// Categorises build text by keywords, ignoring case.
pub fn categorize(text: &str) -> (r: BuildCategory)
    ensures
        r == category_of(crate::text::lowercase(text@)),
{
    let lower = crate::text::to_lowercase(text);
    categorize_lowercase(lower.as_str())
}


/// A build activity that has started and not yet stopped.
#[derive(Clone, Debug)]
pub struct Activity {
    pub id: u64,
    pub parent: Option<u64>,
    pub text: String,
    pub category: BuildCategory,
    pub source_build: bool,
    pub substitute: bool,
    /// When the activity started, in milliseconds of a monotonic clock.
    pub started_at: u64,
    /// The derivation it builds: the first derivation path in its text.
    pub drv_path: Option<String>,
}

pub struct ActivityView {
    pub id: u64,
    pub parent: Option<u64>,
    pub text: Seq<char>,
    pub category: BuildCategory,
    pub source_build: bool,
    pub substitute: bool,
    pub started_at: u64,
    pub drv_path: Option<Seq<char>>,
}

impl View for Activity {
    type V = ActivityView;

    open spec fn view(&self) -> ActivityView {
        ActivityView {
            id: self.id,
            parent: self.parent,
            text: self.text@,
            category: self.category,
            source_build: self.source_build,
            substitute: self.substitute,
            started_at: self.started_at,
            drv_path: match &self.drv_path {
                Some(p) => Some(p@),
                None => None,
            },
        }
    }
}

/// What the build has shown so far.
#[derive(Clone, Debug)]
pub struct BuildState {
    pub phase: String,
    pub running: Vec<Activity>,
    pub completed: usize,
    pub failed: usize,
    pub downloads: usize,
    pub source_builds: usize,
    pub binary_substitutes: usize,
    pub warnings: Vec<String>,
    pub errors: Vec<String>,
    pub unknown_events: usize,
    pub parser_fallback: bool,
    /// The derivation graph of the build, as far as it was loaded.
    pub dependency_graph: DependencyGraph,
}

#[verifier::ext_equal]
pub struct BuildView {
    pub phase: Seq<char>,
    pub running: Seq<ActivityView>,
    pub completed: nat,
    pub failed: nat,
    pub downloads: nat,
    pub source_builds: nat,
    pub binary_substitutes: nat,
    pub warnings: Seq<Seq<char>>,
    pub errors: Seq<Seq<char>>,
    pub unknown_events: nat,
    pub parser_fallback: bool,
    pub graph: GraphView,
}

pub open spec fn activity_views(v: Seq<Activity>) -> Seq<ActivityView> {
    v.map_values(|a: Activity| a@)
}

impl View for BuildState {
    type V = BuildView;

    open spec fn view(&self) -> BuildView {
        BuildView {
            phase: self.phase@,
            running: activity_views(self.running@),
            completed: self.completed as nat,
            failed: self.failed as nat,
            downloads: self.downloads as nat,
            source_builds: self.source_builds as nat,
            binary_substitutes: self.binary_substitutes as nat,
            warnings: strs(self.warnings@),
            errors: strs(self.errors@),
            unknown_events: self.unknown_events as nat,
            parser_fallback: self.parser_fallback,
            graph: self.dependency_graph@,
        }
    }
}

impl Default for BuildState {
    fn default() -> (r: BuildState)
        ensures
            r@.phase.len() == 0,
            r@.running.len() == 0,
            r@.completed == 0 && r@.failed == 0 && r@.downloads == 0,
            r@.source_builds == 0 && r@.binary_substitutes == 0,
            r@.warnings.len() == 0 && r@.errors.len() == 0,
            r@.unknown_events == 0,
            !r@.parser_fallback,
            r@.graph.wf(),
            r@.graph.keys.len() == 0,
            r@.graph.roots.len() == 0,
            r@.graph.noted.len() == 0,
            r@.graph.attempted.len() == 0,
    {
        BuildState {
            phase: String::new(),
            running: Vec::new(),
            completed: 0,
            failed: 0,
            downloads: 0,
            source_builds: 0,
            binary_substitutes: 0,
            warnings: Vec::new(),
            errors: Vec::new(),
            unknown_events: 0,
            parser_fallback: false,
            dependency_graph: DependencyGraph::new(),
        }
    }
}

/// Running activities are kept in increasing order of id, each id once.
pub open spec fn sorted_by_id(s: Seq<ActivityView>) -> bool {
    forall|i: int, j: int| 0 <= i < j < s.len() ==> s[i].id < s[j].id
}

/// The activities with `a` put in place of the one with its id, or inserted
/// before the first with a larger id.
pub open spec fn insert_sorted(s: Seq<ActivityView>, a: ActivityView) -> Seq<ActivityView>
    decreases s.len(),
{
    if s.len() == 0 {
        seq![a]
    } else if s[0].id == a.id {
        seq![a] + s.drop_first()
    } else if s[0].id > a.id {
        seq![a] + s
    } else {
        seq![s[0]] + insert_sorted(s.drop_first(), a)
    }
}

/// The activities without the first one with `id`.
pub open spec fn remove_id(s: Seq<ActivityView>, id: u64) -> Seq<ActivityView>
    decreases s.len(),
{
    if s.len() == 0 {
        s
    } else if s[0].id == id {
        s.drop_first()
    } else {
        seq![s[0]] + remove_id(s.drop_first(), id)
    }
}

pub open spec fn has_id(s: Seq<ActivityView>, id: u64) -> bool {
    exists|i: int| 0 <= i < s.len() && s[i].id == id
}

proof fn lemma_insert_sorted_at(s: Seq<ActivityView>, a: ActivityView, p: int)
    requires
        0 <= p <= s.len(),
        forall|k: int| 0 <= k < p ==> s[k].id < a.id,
        p == s.len() || s[p].id >= a.id,
    ensures
        insert_sorted(s, a) == if p < s.len() && s[p].id == a.id {
            s.take(p) + seq![a] + s.skip(p + 1)
        } else {
            s.take(p) + seq![a] + s.skip(p)
        },
    decreases p,
{
    if p == 0 {
        assert(s.take(0) =~= Seq::<ActivityView>::empty());
        if s.len() > 0 && s[0].id == a.id {
            assert(s.skip(1) =~= s.drop_first());
            assert(seq![a] + s.drop_first() =~= s.take(0) + seq![a] + s.skip(1));
        } else {
            assert(s.skip(0) =~= s);
            assert(s.take(0) + seq![a] + s.skip(0) =~= seq![a] + s);
        }
    } else {
        let t = s.drop_first();
        lemma_insert_sorted_at(t, a, p - 1);
        if p - 1 < t.len() && t[p - 1].id == a.id {
            assert(seq![s[0]] + (t.take(p - 1) + seq![a] + t.skip(p)) =~= s.take(p) + seq![a]
                + s.skip(p + 1));
        } else {
            assert(seq![s[0]] + (t.take(p - 1) + seq![a] + t.skip(p - 1)) =~= s.take(p) + seq![a]
                + s.skip(p));
        }
    }
}

proof fn lemma_remove_id_at(s: Seq<ActivityView>, id: u64, p: int)
    requires
        0 <= p <= s.len(),
        forall|k: int| 0 <= k < p ==> s[k].id != id,
        p == s.len() || s[p].id == id,
    ensures
        remove_id(s, id) == if p < s.len() {
            s.take(p) + s.skip(p + 1)
        } else {
            s
        },
    decreases p,
{
    if p == 0 {
        if s.len() > 0 {
            assert(s.take(0) + s.skip(1) =~= s.drop_first());
        }
    } else {
        let t = s.drop_first();
        lemma_remove_id_at(t, id, p - 1);
        if p < s.len() {
            assert(seq![s[0]] + (t.take(p - 1) + t.skip(p)) =~= s.take(p) + s.skip(p + 1));
        } else {
            assert(seq![s[0]] + t =~= s);
        }
    }
}

/// Inserting keeps the order and the uniqueness of ids.
pub proof fn lemma_insert_sorted_keeps_order(s: Seq<ActivityView>, a: ActivityView)
    requires
        sorted_by_id(s),
    ensures
        sorted_by_id(insert_sorted(s, a)),
        forall|i: int|
            0 <= i < insert_sorted(s, a).len() ==> #[trigger] insert_sorted(s, a)[i].id == a.id
                || has_id(s, insert_sorted(s, a)[i].id),
    decreases s.len(),
{
    if s.len() == 0 {
    } else if s[0].id == a.id {
        let r = insert_sorted(s, a);
        assert forall|i: int| 0 <= i < r.len() implies r[i].id == a.id || has_id(s, r[i].id) by {
            if i > 0 {
                assert(r[i] == s[i]);
            }
        }
    } else if s[0].id > a.id {
        let r = insert_sorted(s, a);
        assert forall|i: int| 0 <= i < r.len() implies r[i].id == a.id || has_id(s, r[i].id) by {
            if i > 0 {
                assert(r[i] == s[i - 1]);
            }
        }
    } else {
        let t = s.drop_first();
        lemma_insert_sorted_keeps_order(t, a);
        let r = insert_sorted(s, a);
        let rt = insert_sorted(t, a);
        assert(r =~= seq![s[0]] + rt);
        assert forall|i: int| 0 <= i < r.len() implies r[i].id == a.id || has_id(s, r[i].id) by {
            if i > 0 {
                assert(r[i] == rt[i - 1]);
                if rt[i - 1].id != a.id {
                    let k = choose|k: int| 0 <= k < t.len() && t[k].id == rt[i - 1].id;
                    assert(s[k + 1].id == r[i].id);
                }
            }
        }
        assert forall|i: int, j: int| 0 <= i < j < r.len() implies r[i].id < r[j].id by {
            if i == 0 {
                assert(r[j] == rt[j - 1]);
                if rt[j - 1].id != a.id {
                    let k = choose|k: int| 0 <= k < t.len() && t[k].id == rt[j - 1].id;
                    assert(s[k + 1].id == rt[j - 1].id);
                }
            } else {
                assert(r[i] == rt[i - 1]);
                assert(r[j] == rt[j - 1]);
            }
        }
    }
}

/// Removing keeps the order.
pub proof fn lemma_remove_id_keeps_order(s: Seq<ActivityView>, id: u64)
    requires
        sorted_by_id(s),
    ensures
        sorted_by_id(remove_id(s, id)),
        forall|i: int|
            0 <= i < remove_id(s, id).len() ==> has_id(s, #[trigger] remove_id(s, id)[i].id),
    decreases s.len(),
{
    if s.len() == 0 {
    } else if s[0].id == id {
        let r = remove_id(s, id);
        assert forall|i: int| 0 <= i < r.len() implies has_id(s, #[trigger] r[i].id) by {
            assert(r[i] == s[i + 1]);
        }
    } else {
        let t = s.drop_first();
        lemma_remove_id_keeps_order(t, id);
        let r = remove_id(s, id);
        let rt = remove_id(t, id);
        assert(r =~= seq![s[0]] + rt);
        assert forall|i: int| 0 <= i < r.len() implies has_id(s, #[trigger] r[i].id) by {
            if i > 0 {
                assert(r[i] == rt[i - 1]);
                let k = choose|k: int| 0 <= k < t.len() && t[k].id == rt[i - 1].id;
                assert(s[k + 1].id == r[i].id);
            } else {
                assert(s[0].id == r[0].id);
            }
        }
        assert forall|i: int, j: int| 0 <= i < j < r.len() implies r[i].id < r[j].id by {
            if i == 0 {
                assert(r[j] == rt[j - 1]);
                let k = choose|k: int| 0 <= k < t.len() && t[k].id == rt[j - 1].id;
                assert(s[k + 1].id == rt[j - 1].id);
            } else {
                assert(r[i] == rt[i - 1]);
                assert(r[j] == rt[j - 1]);
            }
        }
    }
}

/// Puts `a` among the running activities, replacing one with the same id.
fn insert_running(running: &mut Vec<Activity>, a: Activity)
    ensures
        activity_views(final(running)@) == insert_sorted(activity_views(old(running)@), a@),
{
    let mut p: usize = 0;
    while p < running.len() && running[p].id < a.id
        invariant
            p <= running.len(),
            forall|k: int| 0 <= k < p ==> running@[k].id < a.id,
        decreases running.len() - p,
    {
        p = p + 1;
    }
    let ghost s = activity_views(running@);
    proof {
        lemma_insert_sorted_at(s, a@, p as int);
    }
    if p < running.len() && running[p].id == a.id {
        let ghost av = a@;
        running.set(p, a);
        assert(activity_views(running@) =~= s.take(p as int) + seq![av] + s.skip(p + 1));
    } else {
        let ghost av = a@;
        running.insert(p, a);
        assert(activity_views(running@) =~= s.take(p as int) + seq![av] + s.skip(p as int));
    }
}

/// Removes the running activity with `id`; says whether there was one.
fn remove_running(running: &mut Vec<Activity>, id: u64) -> (r: bool)
    ensures
        activity_views(final(running)@) == remove_id(activity_views(old(running)@), id),
        r == has_id(activity_views(old(running)@), id),
{
    let mut p: usize = 0;
    while p < running.len() && running[p].id != id
        invariant
            p <= running.len(),
            forall|k: int| 0 <= k < p ==> running@[k].id != id,
        decreases running.len() - p,
    {
        p = p + 1;
    }
    let ghost s = activity_views(running@);
    proof {
        lemma_remove_id_at(s, id, p as int);
    }
    if p < running.len() {
        running.remove(p);
        assert(activity_views(running@) =~= s.take(p as int) + s.skip(p + 1));
        assert(s[p as int].id == id);
        true
    } else {
        assert(!has_id(s, id));
        false
    }
}


use crate::text::lowercase;
use crate::graph::{
    add_all, add_once, dot_items, drv_paths, extract_derivation_paths, last_label, mentions,
    pending_roots, store_key, DependencyGraph, DotItem, GraphView,
};

/// The text an event describes: its `text`, else its first field.
pub open spec fn event_text_of(text: Seq<char>, fields: Seq<Seq<char>>) -> Seq<char> {
    if text.len() > 0 {
        text
    } else if fields.len() > 0 {
        fields[0]
    } else {
        Seq::empty()
    }
}

pub open spec fn is_download_text(lower: Seq<char>) -> bool {
    contains(lower, "download"@) || contains(lower, "copying path"@)
}

pub open spec fn is_substitute_text(lower: Seq<char>) -> bool {
    contains(lower, "copying path"@) || contains(lower, "substitut"@) || contains(lower, "download"@)
}

pub open spec fn is_source_build_text(lower: Seq<char>) -> bool {
    contains(lower, "building"@) || contains(lower, ".drv"@)
}

/// The phase that lowercased activity text `lower` announces; `lower2` is
/// that text lowercased once more, which the download test reads.
pub open spec fn phase_of(lower: Seq<char>, lower2: Seq<char>) -> Seq<char> {
    if is_download_text(lower2) {
        "downloading"@
    } else if contains(lower, "fetch"@) {
        "fetching"@
    } else if contains(lower, "evaluat"@) {
        "evaluating"@
    } else {
        "building"@
    }
}

pub open spec fn count_if(b: bool) -> nat {
    if b { 1 } else { 0 }
}

/// The state after one event, given the event's text lowercased (`l`) and
/// that lowercased once more (`l2`).
pub open spec fn ingest_lowered_spec(
    s: BuildView,
    action: Seq<char>,
    id: Option<u64>,
    parent: Option<u64>,
    text: Seq<char>,
    fields: Seq<Seq<char>>,
    now: u64,
    l: Seq<char>,
    l2: Seq<char>,
) -> BuildView {
    let t = event_text_of(text, fields);
    if action == "start"@ {
        match id {
            Some(i) => BuildView {
                phase: phase_of(l, l2),
                running: insert_sorted(
                    s.running,
                    ActivityView {
                        id: i,
                        parent,
                        text: t,
                        category: category_of(l),
                        source_build: is_source_build_text(l),
                        substitute: is_substitute_text(l),
                        started_at: now,
                        drv_path: first_drv(t),
                    },
                ),
                binary_substitutes: s.binary_substitutes + count_if(is_substitute_text(l)),
                source_builds: s.source_builds + count_if(is_source_build_text(l)),
                downloads: s.downloads + count_if(is_download_text(l)),
                ..s
            },
            None => BuildView { phase: phase_of(l, l2), ..s },
        }
    } else if action == "stop"@ {
        match id {
            Some(i) => if has_id(s.running, i) {
                BuildView { running: remove_id(s.running, i), completed: s.completed + 1, ..s }
            } else {
                s
            },
            None => s,
        }
    } else if action == "result"@ {
        if contains(l, "failed"@) || contains(l, "error"@) {
            BuildView { failed: s.failed + 1, errors: s.errors.push(t), ..s }
        } else {
            s
        }
    } else if action == "msg"@ || action == "message"@ {
        if contains(l, "warning"@) {
            BuildView { warnings: s.warnings.push(t), ..s }
        } else if contains(l, "error"@) || contains(l, "failed"@) {
            BuildView { errors: s.errors.push(t), ..s }
        } else {
            s
        }
    } else {
        BuildView { unknown_events: s.unknown_events + 1, ..s }
    }
}

/// The state after one event.
pub open spec fn ingest_spec(
    s: BuildView,
    action: Seq<char>,
    id: Option<u64>,
    parent: Option<u64>,
    text: Seq<char>,
    fields: Seq<Seq<char>>,
    now: u64,
) -> BuildView {
    let l = lowercase(event_text_of(text, fields));
    ingest_lowered_spec(s, action, id, parent, text, fields, now, l, lowercase(l))
}

/// The derivations of the activities that name one, in order.
pub open spec fn active_drvs(s: Seq<ActivityView>) -> Seq<Seq<char>>
    decreases s.len(),
{
    if s.len() == 0 {
        Seq::empty()
    } else {
        let rest = active_drvs(s.drop_last());
        match s.last().drv_path {
            Some(p) => rest.push(p),
            None => rest,
        }
    }
}

/// The first derivation path named in `t`.
pub open spec fn first_drv(t: Seq<char>) -> Option<Seq<char>> {
    if drv_paths(t).len() > 0 {
        Some(drv_paths(t)[0])
    } else {
        None
    }
}

/// Counters have room to grow.
pub open spec fn counters_below_max(s: BuildState) -> bool {
    s.completed < usize::MAX && s.failed < usize::MAX && s.downloads < usize::MAX
        && s.source_builds < usize::MAX && s.binary_substitutes < usize::MAX && s.unknown_events
        < usize::MAX
}

fn event_text(event: &NixEvent) -> (r: String)
    ensures
        r@ == event_text_of(event.text@, strs(event.fields@)),
{
    if event.text.as_str().is_empty() == false {
        return event.text.clone();
    }
    if event.fields.len() > 0 {
        assert(event.fields@[0]@ == strs(event.fields@)[0]);
        event.fields[0].clone()
    } else {
        String::new()
    }
}

fn push_string(v: &mut Vec<String>, s: String)
    ensures
        strs(final(v)@) == strs(old(v)@).push(s@),
{
    let ghost before = v@;
    let ghost sv = s@;
    v.push(s);
    assert(strs(v@) =~= strs(before).push(sv));
}

impl BuildState {
    /// Applies one event: `start` opens an activity, `stop` closes it,
    /// `result` and `msg` record failures, errors and warnings; anything else
    /// is counted as unknown.
    pub fn ingest(&mut self, event: &NixEvent)
        requires
            counters_below_max(*old(self)),
        ensures
            final(self)@ == ingest_spec(
                old(self)@,
                event.action@,
                event.id,
                event.parent,
                event.text@,
                strs(event.fields@),
                0,
            ),
    {
        self.ingest_at(event, 0);
    }

    /// Applies one event that arrived at time `now` (milliseconds of a
    /// monotonic clock); an activity it starts records that time.
    pub fn ingest_at(&mut self, event: &NixEvent, now: u64)
        requires
            counters_below_max(*old(self)),
        ensures
            final(self)@ == ingest_spec(
                old(self)@,
                event.action@,
                event.id,
                event.parent,
                event.text@,
                strs(event.fields@),
                now,
            ),
    {
        let text = event_text(event);
        let lower = to_lowercase(text.as_str());
        let lower2 = to_lowercase(lower.as_str());
        self.ingest_lowered(event, now, lower.as_str(), lower2.as_str());
    }

    /// Applies one event as `ingest_at` does, with the lowercasing done by
    /// the caller: `lower` is the event's text (its `text`, else its first
    /// field) lowercased, and `lower2` that lowercased once more.
    pub fn ingest_lowered(&mut self, event: &NixEvent, now: u64, lower: &str, lower2: &str)
        requires
            counters_below_max(*old(self)),
        ensures
            final(self)@ == ingest_lowered_spec(
                old(self)@,
                event.action@,
                event.id,
                event.parent,
                event.text@,
                strs(event.fields@),
                now,
                lower@,
                lower2@,
            ),
    {
        let action = event.action.as_str();
        if eq_str(action, "start") {
            self.start(event, now, lower, lower2);
        } else if eq_str(action, "stop") {
            self.stop(event, lower, lower2);
        } else if eq_str(action, "result") {
            self.result(event, lower, lower2);
        } else if eq_str(action, "msg") || eq_str(action, "message") {
            self.message(event, lower, lower2);
        } else {
            self.unknown_events = self.unknown_events + 1;
        }
    }

    fn start(&mut self, event: &NixEvent, now: u64, l: &str, lower2: &str)
        requires
            counters_below_max(*old(self)),
            event.action@ == "start"@,
        ensures
            final(self)@ == ingest_lowered_spec(
                old(self)@,
                event.action@,
                event.id,
                event.parent,
                event.text@,
                strs(event.fields@),
                now,
                l@,
                lower2@,
            ),
    {
        let text = event_text(event);
        let download2 = includes(lower2, "download") || includes(lower2, "copying path");
        self.phase = if download2 {
            "downloading".to_owned()
        } else if includes(l, "fetch") {
            "fetching".to_owned()
        } else if includes(l, "evaluat") {
            "evaluating".to_owned()
        } else {
            "building".to_owned()
        };
        if let Some(id) = event.id {
            let substitute = includes(l, "copying path") || includes(l, "substitut") || includes(l, "download");
            let source_build = includes(l, "building") || includes(l, ".drv");
            if substitute {
                self.binary_substitutes = self.binary_substitutes + 1;
            }
            if source_build {
                self.source_builds = self.source_builds + 1;
            }
            if includes(l, "download") || includes(l, "copying path") {
                self.downloads = self.downloads + 1;
            }
            let category = categorize_lowercase(l);
            let paths = extract_derivation_paths(text.as_str());
            let drv_path = if paths.len() > 0 {
                assert(strs(paths@)[0] == paths@[0]@);
                Some(paths[0].clone())
            } else {
                None
            };
            insert_running(
                &mut self.running,
                Activity { id, parent: event.parent, category, text, source_build, substitute, started_at: now, drv_path },
            );
        }
    }

    fn stop(&mut self, event: &NixEvent, l: &str, l2: &str)
        requires
            counters_below_max(*old(self)),
            event.action@ == "stop"@,
        ensures
            final(self)@ == ingest_lowered_spec(
                old(self)@,
                event.action@,
                event.id,
                event.parent,
                event.text@,
                strs(event.fields@),
                0,
                l@,
                l2@,
            ),
    {
        proof {
            lemma_actions_distinct();
        }
        if let Some(id) = event.id {
            let ghost before = self@;
            if remove_running(&mut self.running, id) {
                self.completed = self.completed + 1;
            } else {
                assert(remove_id(before.running, id) == before.running) by {
                    lemma_remove_absent(before.running, id);
                }
            }
        }
    }

    fn result(&mut self, event: &NixEvent, l: &str, l2: &str)
        requires
            counters_below_max(*old(self)),
            event.action@ == "result"@,
        ensures
            final(self)@ == ingest_lowered_spec(
                old(self)@,
                event.action@,
                event.id,
                event.parent,
                event.text@,
                strs(event.fields@),
                0,
                l@,
                l2@,
            ),
    {
        proof {
            lemma_actions_distinct();
        }
        let text = event_text(event);
        if includes(l, "failed") || includes(l, "error") {
            self.failed = self.failed + 1;
            push_string(&mut self.errors, text);
        }
    }

    fn message(&mut self, event: &NixEvent, l: &str, l2: &str)
        requires
            event.action@ == "msg"@ || event.action@ == "message"@,
        ensures
            final(self)@ == ingest_lowered_spec(
                old(self)@,
                event.action@,
                event.id,
                event.parent,
                event.text@,
                strs(event.fields@),
                0,
                l@,
                l2@,
            ),
    {
        proof {
            lemma_actions_distinct();
        }
        let text = event_text(event);
        if includes(l, "warning") {
            push_string(&mut self.warnings, text);
        } else if includes(l, "error") || includes(l, "failed") {
            push_string(&mut self.errors, text);
        }
    }
}

/// The number of activities in category `c`.
pub open spec fn count_category(s: Seq<ActivityView>, c: BuildCategory) -> nat
    decreases s.len(),
{
    if s.len() == 0 {
        0
    } else {
        count_category(s.drop_last(), c) + count_if(s.last().category == c)
    }
}

pub open spec fn category_at(rank: nat) -> BuildCategory {
    if rank == 0 {
        BuildCategory::KernelBoot
    } else if rank == 1 {
        BuildCategory::DesktopStack
    } else if rank == 2 {
        BuildCategory::Services
    } else if rank == 3 {
        BuildCategory::Libraries
    } else if rank == 4 {
        BuildCategory::DevTools
    } else {
        BuildCategory::Other
    }
}

/// Categories of rank `k` and above that have running activities, in
/// category order, with their counts.
pub open spec fn counts_from(s: Seq<ActivityView>, k: nat) -> Seq<(BuildCategory, nat)>
    decreases 6 - k,
{
    if k >= 6 {
        Seq::empty()
    } else {
        (if count_category(s, category_at(k)) > 0 {
            seq![(category_at(k), count_category(s, category_at(k)))]
        } else {
            Seq::empty()
        }) + counts_from(s, k + 1)
    }
}

/// The first activity (in order) with `id`.
pub open spec fn find_id(s: Seq<ActivityView>, id: u64) -> Option<ActivityView>
    decreases s.len(),
{
    if s.len() == 0 {
        None
    } else if s[0].id == id {
        Some(s[0])
    } else {
        find_id(s.drop_first(), id)
    }
}

/// The texts of the ancestors of an activity, outermost first, put before
/// `acc`; `None` when the chain of parents is longer than `fuel` allows.
pub open spec fn ancestor_texts(
    s: Seq<ActivityView>,
    parent: Option<u64>,
    fuel: nat,
    acc: Seq<Seq<char>>,
) -> Option<Seq<Seq<char>>>
    decreases fuel,
{
    match parent {
        None => Some(acc),
        Some(pid) => match find_id(s, pid) {
            None => Some(acc),
            Some(a) => if fuel == 0 {
                None
            } else {
                ancestor_texts(s, a.parent, (fuel - 1) as nat, seq![a.text] + acc)
            },
        },
    }
}

/// The chain of running parents of an activity ends (it has no cycle).
pub open spec fn parent_chain_ends(state: BuildView, activity: ActivityView) -> bool {
    ancestor_texts(state.running, activity.parent, state.running.len(), Seq::empty()) is Some
}

pub open spec fn why_building_spec(state: BuildView, activity: ActivityView) -> Option<Seq<char>> {
    let chain = ancestor_texts(state.running, activity.parent, state.running.len(), Seq::empty())
        ->0;
    if chain.len() == 0 {
        None
    } else {
        Some("dependency of "@ + crate::text::join(chain, " -> "@))
    }
}

fn count_in(running: &Vec<Activity>, c: BuildCategory) -> (r: usize)
    ensures
        r == count_category(activity_views(running@), c),
{
    let mut n: usize = 0;
    let mut i: usize = 0;
    while i < running.len()
        invariant
            i <= running.len(),
            n == count_category(activity_views(running@).take(i as int), c),
            n <= i,
        decreases running.len() - i,
    {
        assert(activity_views(running@).take(i + 1).drop_last() =~= activity_views(running@).take(
            i as int,
        ));
        if running[i].category == c {
            n = n + 1;
        }
        i = i + 1;
    }
    assert(activity_views(running@).take(running.len() as int) =~= activity_views(running@));
    n
}

pub open spec fn count_views(v: Seq<(BuildCategory, usize)>) -> Seq<(BuildCategory, nat)> {
    v.map_values(|p: (BuildCategory, usize)| (p.0, p.1 as nat))
}

fn category_of_rank(k: usize) -> (r: BuildCategory)
    requires
        k < 6,
    ensures
        r == category_at(k as nat),
{
    if k == 0 {
        BuildCategory::KernelBoot
    } else if k == 1 {
        BuildCategory::DesktopStack
    } else if k == 2 {
        BuildCategory::Services
    } else if k == 3 {
        BuildCategory::Libraries
    } else if k == 4 {
        BuildCategory::DevTools
    } else {
        BuildCategory::Other
    }
}

impl BuildState {
    /// How many running activities each category has, in category order,
    /// leaving out categories with none.
    pub fn running_by_category(&self) -> (r: Vec<(BuildCategory, usize)>)
        ensures
            count_views(r@) == counts_from(self@.running, 0),
    {
        let mut r: Vec<(BuildCategory, usize)> = Vec::new();
        let mut k: usize = 0;
        while k < 6
            invariant
                k <= 6,
                count_views(r@) + counts_from(self@.running, k as nat) == counts_from(
                    self@.running,
                    0,
                ),
            decreases 6 - k,
        {
            let c = category_of_rank(k);
            let n = count_in(&self.running, c);
            let ghost before = r@;
            if n > 0 {
                r.push((c, n));
                assert(count_views(r@) =~= count_views(before) + seq![(c, n as nat)]);
            }
            assert(counts_from(self@.running, k as nat) == (if n > 0 {
                seq![(c, n as nat)]
            } else {
                Seq::empty()
            }) + counts_from(self@.running, (k + 1) as nat));
            k = k + 1;
            assert(count_views(r@) + counts_from(self@.running, k as nat) =~= counts_from(
                self@.running,
                0,
            ));
        }
        assert(counts_from(self@.running, 6) =~= Seq::<(BuildCategory, nat)>::empty());
        assert(count_views(r@) + counts_from(self@.running, 6) =~= count_views(r@));
        r
    }

    /// The running activity that has run longest: the earliest start, the
    /// lowest id among equal starts.
    pub fn slowest_active(&self) -> (r: Option<&Activity>)
        ensures
            match r {
                Some(a) => exists|k: int|
                    #![trigger activity_views(self.running@)[k]]
                    is_earliest(activity_views(self.running@), k) && a@ == activity_views(
                        self.running@,
                    )[k],
                None => self.running@.len() == 0,
            },
    {
        if self.running.len() == 0 {
            return None;
        }
        let best = earliest_start(&self.running);
        proof {
            let v = activity_views(self.running@);
            assert forall|j: int| 0 <= j < v.len() implies v[j].started_at == (
            #[trigger] self.running@[j]).started_at by {}
            assert(is_earliest(v, best as int));
            assert(v[best as int] == self.running@[best as int]@);
        }
        Some(&self.running[best])
    }

    /// The derivations of the running activities, in the order they are
    /// kept.
    pub fn active_derivation_paths(&self) -> (r: Vec<String>)
        ensures
            strs(r@) == active_drvs(self@.running),
    {
        let ghost v = self@.running;
        let mut out: Vec<String> = Vec::new();
        let mut i: usize = 0;
        assert(v.take(0) =~= Seq::<ActivityView>::empty());
        assert(strs(out@) =~= Seq::<Seq<char>>::empty());
        while i < self.running.len()
            invariant
                v == self@.running,
                v.len() == self.running@.len(),
                i <= self.running.len(),
                strs(out@) == active_drvs(v.take(i as int)),
            decreases self.running.len() - i,
        {
            assert(v.take(i + 1).drop_last() =~= v.take(i as int));
            assert(v.take(i + 1).last() == self.running@[i as int]@);
            match &self.running[i].drv_path {
                Some(p) => {
                    let ghost before = out@;
                    let c = p.clone();
                    out.push(c);
                    proof {
                        lemma_strs_push(before, c);
                    }
                },
                None => {},
            }
            i = i + 1;
        }
        assert(v.take(i as int) =~= v);
        out
    }

    /// Remembers the derivation paths named in a line of build output.
    pub fn note_derivation_paths_from_text(&mut self, text: &str)
        requires
            old(self)@.graph.wf(),
        ensures
            final(self)@ == (BuildView { graph: final(self)@.graph, ..old(self)@ }),
            final(self)@.graph.wf(),
            final(self)@.graph.noted == add_all(old(self)@.graph.noted, drv_paths(text@)),
            final(self)@.graph.attempted == old(self)@.graph.attempted,
            final(self)@.graph.same_graph(old(self)@.graph),
    {
        self.dependency_graph.note_paths_from_text(text);
    }

    /// Adds the loaded derivation graph of `root`.
    pub fn note_derivation_graph(&mut self, root: &str, dot: &str)
        requires
            old(self)@.graph.wf(),
        ensures
            final(self)@ == (BuildView { graph: final(self)@.graph, ..old(self)@ }),
            final(self)@.graph.wf(),
            forall|k: Seq<char>|
                final(self)@.graph.has_node(k) == (old(self)@.graph.has_node(k) || mentions(
                    dot_items(dot@),
                    k,
                ) || k == store_key(root@)),
            forall|a: Seq<char>, b: Seq<char>|
                final(self)@.graph.has_edge(a, b) == (old(self)@.graph.has_edge(a, b) || dot_items(
                    dot@,
                ).contains(DotItem::Edge(a, b))),
            forall|k: Seq<char>|
                final(self)@.graph.has_node(k) ==> final(self)@.graph.label_of(k) == match last_label(
                    dot_items(dot@),
                    k,
                ) {
                    Some(l) => l,
                    None => old(self)@.graph.label_of(k),
                },
            forall|k: Seq<char>|
                final(self)@.graph.is_root(k) == (old(self)@.graph.is_root(k) || k == store_key(root@)),
            final(self)@.graph.noted == old(self)@.graph.noted,
            final(self)@.graph.attempted == old(self)@.graph.attempted,
    {
        self.dependency_graph.note_dot_graph(root, dot);
    }

    /// The system derivations whose graph is still to be asked for.
    pub fn dependency_graph_roots_to_load(&self) -> (r: Vec<String>)
        ensures
            strs(r@) == pending_roots(self@.graph.noted, self@.graph.attempted),
    {
        self.dependency_graph.roots_to_load()
    }

    /// Records that the graph of `root` was asked for.
    pub fn mark_derivation_graph_attempted(&mut self, root: &str)
        requires
            old(self)@.graph.wf(),
        ensures
            final(self)@ == (BuildView { graph: final(self)@.graph, ..old(self)@ }),
            final(self)@.graph.wf(),
            final(self)@.graph.attempted == add_once(old(self)@.graph.attempted, root@),
            final(self)@.graph.noted == old(self)@.graph.noted,
            final(self)@.graph.same_graph(old(self)@.graph),
    {
        self.dependency_graph.mark_attempted(root);
    }

    /// Why an activity is being built: the chain of running activities it
    /// is a dependency of, outermost first.
    pub fn why_building(&self, activity: &Activity) -> (r: Option<String>)
        requires
            parent_chain_ends(self@, activity@),
        ensures
            match why_building_spec(self@, activity@) {
                Some(t) => r matches Some(x) && x@ == t,
                None => r is None,
            },
    {
        let ghost s = self@.running;
        let mut parent = activity.parent;
        let mut fuel: usize = self.running.len();
        let mut chain: Vec<String> = Vec::new();
        assert(strs(chain@) =~= Seq::<Seq<char>>::empty());
        loop
            invariant
                s == self@.running,
                ancestor_texts(s, activity.parent, s.len(), Seq::empty()) == ancestor_texts(
                    s,
                    parent,
                    fuel as nat,
                    strs(chain@),
                ),
                ancestor_texts(s, parent, fuel as nat, strs(chain@)) is Some,
            ensures
                ancestor_texts(s, activity.parent, s.len(), Seq::empty()) == Some(strs(chain@)),
            decreases fuel,
        {
            let pid = match parent {
                None => break,
                Some(p) => p,
            };
            match self.find_running(pid) {
                None => break,
                Some(i) => {
                    let a = &self.running[i];
                    assert(fuel > 0);
                    let ghost before = chain@;
                    chain.insert(0, a.text.clone());
                    assert(strs(chain@) =~= seq![a.text@] + strs(before));
                    parent = a.parent;
                    fuel = fuel - 1;
                },
            }
        }
        if chain.len() == 0 {
            None
        } else {
            let mut out = "dependency of ".to_owned();
            let joined = crate::text::join_strings(chain.as_slice(), " -> ");
            out.append(joined.as_str());
            Some(out)
        }
    }

    /// The index of the first running activity with `id`.
    fn find_running(&self, id: u64) -> (r: Option<usize>)
        ensures
            match r {
                Some(i) => i < self.running.len() && find_id(self@.running, id) == Some(
                    self@.running[i as int],
                ),
                None => find_id(self@.running, id) is None,
            },
    {
        let mut i: usize = 0;
        assert(self@.running.skip(0) =~= self@.running);
        while i < self.running.len()
            invariant
                i <= self.running.len(),
                find_id(self@.running, id) == find_id(self@.running.skip(i as int), id),
            decreases self.running.len() - i,
        {
            assert(self@.running.skip(i as int).drop_first() =~= self@.running.skip(i + 1));
            if self.running[i].id == id {
                return Some(i);
            }
            i = i + 1;
        }
        None
    }
}

/// Every event keeps the running activities in increasing order of id,
/// each id once.
pub proof fn lemma_ingest_keeps_running_sorted(
    s: BuildView,
    action: Seq<char>,
    id: Option<u64>,
    parent: Option<u64>,
    text: Seq<char>,
    fields: Seq<Seq<char>>,
    now: u64,
)
    requires
        sorted_by_id(s.running),
    ensures
        sorted_by_id(ingest_spec(s, action, id, parent, text, fields, now).running),
{
    let t = event_text_of(text, fields);
    let l = lowercase(t);
    if action == "start"@ {
        if let Some(i) = id {
            lemma_insert_sorted_keeps_order(
                s.running,
                ActivityView {
                    id: i,
                    parent,
                    text: t,
                    category: category_of(l),
                    source_build: is_source_build_text(l),
                    substitute: is_substitute_text(l),
                    started_at: now,
                    drv_path: first_drv(t),
                },
            );
        }
    } else if action == "stop"@ {
        if let Some(i) = id {
            lemma_remove_id_keeps_order(s.running, i);
        }
    }
}

/// A `stop` for an activity that a `start` just opened (with an id that was
/// not running) leaves the running activities as they were before the start.
pub proof fn lemma_start_then_stop_restores_running(
    s: BuildView,
    id: u64,
    parent: Option<u64>,
    text: Seq<char>,
    fields: Seq<Seq<char>>,
    started: u64,
    stopped: u64,
)
    requires
        !has_id(s.running, id),
    ensures
        ingest_spec(
            ingest_spec(s, "start"@, Some(id), parent, text, fields, started),
            "stop"@,
            Some(id),
            None,
            Seq::empty(),
            Seq::empty(),
            stopped,
        ).running == s.running,
{
    lemma_actions_distinct();
    let t = event_text_of(text, fields);
    let l = lowercase(t);
    let a = ActivityView {
        id,
        parent,
        text: t,
        category: category_of(l),
        source_build: is_source_build_text(l),
        substitute: is_substitute_text(l),
        started_at: started,
        drv_path: first_drv(t),
    };
    lemma_insert_then_remove(s.running, a);
    let ins = insert_sorted(s.running, a);
    assert(has_id(ins, id)) by {
        lemma_insert_has(s.running, a);
    }
}

proof fn lemma_insert_has(s: Seq<ActivityView>, a: ActivityView)
    ensures
        has_id(insert_sorted(s, a), a.id),
    decreases s.len(),
{
    let r = insert_sorted(s, a);
    if s.len() == 0 || s[0].id == a.id || s[0].id > a.id {
        assert(r[0] == a);
    } else {
        lemma_insert_has(s.drop_first(), a);
        let rt = insert_sorted(s.drop_first(), a);
        let k = choose|k: int| 0 <= k < rt.len() && rt[k].id == a.id;
        assert(r[k + 1] == rt[k]);
    }
}

proof fn lemma_insert_then_remove(s: Seq<ActivityView>, a: ActivityView)
    requires
        !has_id(s, a.id),
    ensures
        remove_id(insert_sorted(s, a), a.id) == s,
    decreases s.len(),
{
    if s.len() == 0 {
    } else {
        assert(s[0].id != a.id);
        if s[0].id > a.id {
            assert((seq![a] + s).drop_first() =~= s);
        } else {
            let t = s.drop_first();
            assert(!has_id(t, a.id)) by {
                if has_id(t, a.id) {
                    let k = choose|k: int| 0 <= k < t.len() && t[k].id == a.id;
                    assert(s[k + 1].id == a.id);
                }
            }
            lemma_insert_then_remove(t, a);
            let r = seq![s[0]] + insert_sorted(t, a);
            assert(r.drop_first() =~= insert_sorted(t, a));
            assert(seq![s[0]] + t =~= s);
        }
    }
}

proof fn lemma_actions_distinct()
    ensures
        "stop"@ != "start"@,
        "result"@ != "start"@,
        "result"@ != "stop"@,
        "msg"@ != "start"@,
        "msg"@ != "stop"@,
        "msg"@ != "result"@,
        "message"@ != "start"@,
        "message"@ != "stop"@,
        "message"@ != "result"@,
{
    reveal_strlit("start");
    reveal_strlit("stop");
    reveal_strlit("result");
    reveal_strlit("msg");
    reveal_strlit("message");
    assert("stop"@.len() != "start"@.len());
    assert("result"@.len() != "start"@.len());
    assert("result"@.len() != "stop"@.len());
    assert("msg"@.len() != "start"@.len());
    assert("msg"@.len() != "stop"@.len());
    assert("msg"@.len() != "result"@.len());
    assert("message"@.len() != "start"@.len());
    assert("message"@.len() != "stop"@.len());
    assert("message"@.len() != "result"@.len());
}

proof fn lemma_remove_absent(s: Seq<ActivityView>, id: u64)
    requires
        !has_id(s, id),
    ensures
        remove_id(s, id) == s,
    decreases s.len(),
{
    if s.len() > 0 {
        assert(!has_id(s.drop_first(), id)) by {
            if has_id(s.drop_first(), id) {
                let k = choose|k: int| 0 <= k < s.drop_first().len() && s.drop_first()[k].id == id;
                assert(s[k + 1].id == id);
            }
        }
        lemma_remove_absent(s.drop_first(), id);
        assert(seq![s[0]] + s.drop_first() =~= s);
    }
}


/// Position `k` holds the earliest start, and no earlier position holds
/// one as early.
pub open spec fn is_earliest(v: Seq<ActivityView>, k: int) -> bool {
    &&& 0 <= k < v.len()
    &&& forall|j: int| 0 <= j < v.len() ==> v[k].started_at <= (#[trigger] v[j]).started_at
    &&& forall|j: int| 0 <= j < k ==> (#[trigger] v[j]).started_at > v[k].started_at
}

/// The running activity that has run longest, when any runs.
pub open spec fn earliest_index(v: Seq<ActivityView>) -> int {
    choose|k: int| is_earliest(v, k)
}

/// At most one position is the earliest.
pub proof fn lemma_earliest_unique(v: Seq<ActivityView>, k: int)
    requires
        is_earliest(v, k),
    ensures
        earliest_index(v) == k,
{
    let c = earliest_index(v);
    assert(is_earliest(v, c));
    if c < k {
        assert(v[c].started_at > v[k].started_at);
    } else if c > k {
        assert(v[k].started_at > v[c].started_at);
    }
}

/// The position of the first activity with the earliest start.
fn earliest_start(running: &Vec<Activity>) -> (best: usize)
    requires
        running@.len() > 0,
    ensures
        best < running@.len(),
        forall|j: int| 0 <= j < running@.len() ==> running@[best as int].started_at <= (
        #[trigger] running@[j]).started_at,
        forall|j: int| 0 <= j < best ==> (#[trigger] running@[j]).started_at
            > running@[best as int].started_at,
{
    let mut best: usize = 0;
    let mut i: usize = 1;
    while i < running.len()
        invariant
            1 <= i <= running.len(),
            best < i,
            forall|j: int| 0 <= j < i ==> running@[best as int].started_at <= (
            #[trigger] running@[j]).started_at,
            forall|j: int| 0 <= j < best ==> (#[trigger] running@[j]).started_at
                > running@[best as int].started_at,
        decreases running.len() - i,
    {
        if running[i].started_at < running[best].started_at {
            best = i;
        }
        i = i + 1;
    }
    best
}

/// A `msg` or `message` event whose lowercased text mentions an error or a
/// failure, and no warning, adds its text to the errors and changes nothing
/// else; one that mentions a warning adds it to the warnings instead.
pub proof fn lemma_message_events_recorded(
    s: BuildView,
    action: Seq<char>,
    id: Option<u64>,
    parent: Option<u64>,
    text: Seq<char>,
    fields: Seq<Seq<char>>,
    now: u64,
    l: Seq<char>,
    l2: Seq<char>,
)
    requires
        action == "msg"@ || action == "message"@,
    ensures
        !contains(l, "warning"@) && (contains(l, "error"@) || contains(l, "failed"@))
            ==> ingest_lowered_spec(s, action, id, parent, text, fields, now, l, l2) == (BuildView {
            errors: s.errors.push(event_text_of(text, fields)),
            ..s
        }),
        contains(l, "warning"@) ==> ingest_lowered_spec(s, action, id, parent, text, fields, now, l, l2)
            == (BuildView { warnings: s.warnings.push(event_text_of(text, fields)), ..s }),
{
    lemma_actions_distinct();
}

/// The same for `ingest`, which lowercases the event's text itself.
pub proof fn lemma_ingested_messages_recorded(
    s: BuildView,
    action: Seq<char>,
    id: Option<u64>,
    parent: Option<u64>,
    text: Seq<char>,
    fields: Seq<Seq<char>>,
    now: u64,
)
    requires
        action == "msg"@ || action == "message"@,
    ensures
        ({
            let l = lowercase(event_text_of(text, fields));
            !contains(l, "warning"@) && (contains(l, "error"@) || contains(l, "failed"@))
                ==> ingest_spec(s, action, id, parent, text, fields, now) == (BuildView {
                errors: s.errors.push(event_text_of(text, fields)),
                ..s
            })
        }),
{
    let l = lowercase(event_text_of(text, fields));
    lemma_message_events_recorded(s, action, id, parent, text, fields, now, l, lowercase(l));
}

/// The text of a parsed JSON event is its `text` string when it has one,
/// else its `msg` string, else the first string of its `fields`.
pub proof fn lemma_event_text_from_fields(r: ParsedLine, line: Seq<char>, j: Seq<char>)
    requires
        parsed_as(r, line),
        line_shape(line) == LineShape::Json(j),
    ensures
        r is Event,
        r matches ParsedLine::Event(e) && (json_string_field(j, "text"@) matches Some(t) ==> e.text@
            == t),
        r matches ParsedLine::Event(e) && (json_string_field(j, "text"@) is None ==> (
        json_string_field(j, "msg"@) matches Some(m) ==> e.text@ == m)),
        r matches ParsedLine::Event(e) && (json_string_field(j, "text"@) is None
            && json_string_field(j, "msg"@) is None && json_string_array_field(j, "fields"@).len()
            > 0 ==> e.text@ == json_string_array_field(j, "fields"@)[0]),
{
}

} // verus!
