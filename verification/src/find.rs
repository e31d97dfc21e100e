use vstd::prelude::*;

use crate::text::{
    chars_of, contains, contains_chars, contains_str, eq_str, lemma_strs_push, lines, lines_of,
    lowercase, starts_with, starts_with_str, strs, to_lowercase,
};

verus! {

/// What a search query is taken to be.
#[derive(Clone, Copy, Debug, PartialEq, Eq, Structural)]
pub enum FindType {
    AutoDetect,
    Package,
    Option,
    String,
}

/// One matching line with the lines around it.
#[derive(Clone, Debug)]
pub struct MatchResult {
    pub line: usize,
    pub text: String,
    pub context_before: Vec<String>,
    pub context_after: Vec<String>,
}

pub open spec fn query_in(line: Seq<char>, query: Seq<char>, case_sensitive: bool) -> bool {
    if case_sensitive {
        contains(line, query)
    } else {
        contains(lowercase(line), lowercase(query))
    }
}

/// Whether the line holds the query, ignoring case unless asked not to.
pub fn contains_query(line: &str, query: &str, case_sensitive: bool) -> (r: bool)
    ensures
        r == query_in(line@, query@, case_sensitive),
{
    if case_sensitive {
        contains_str(line, query)
    } else {
        let l = to_lowercase(line);
        let q = to_lowercase(query);
        contains_str(l.as_str(), q.as_str())
    }
}

pub open spec fn match_view(m: MatchResult) -> (nat, Seq<char>, Seq<Seq<char>>, Seq<Seq<char>>) {
    (m.line as nat, m.text@, strs(m.context_before@), strs(m.context_after@))
}

/// The match at line `i` (counting from zero) with `context` lines each side.
pub open spec fn match_at(ls: Seq<Seq<char>>, i: int, context: nat) -> (nat, Seq<char>, Seq<Seq<char>>, Seq<Seq<char>>) {
    let start = if i < context { 0 } else { i - context };
    let after_end = if i + context + 1 < ls.len() { i + context + 1 } else { ls.len() as int };
    ((i + 1) as nat, ls[i], ls.subrange(start, i), ls.subrange(i + 1, after_end))
}

/// The matches among the first `n` lines, in order.
pub open spec fn matches_upto(ls: Seq<Seq<char>>, n: int, query: Seq<char>, cs: bool, context: nat) -> Seq<
    (nat, Seq<char>, Seq<Seq<char>>, Seq<Seq<char>>),
>
    decreases n,
{
    if n <= 0 {
        Seq::empty()
    } else if query_in(ls[n - 1], query, cs) {
        matches_upto(ls, n - 1, query, cs, context).push(match_at(ls, n - 1, context))
    } else {
        matches_upto(ls, n - 1, query, cs, context)
    }
}

fn copy_range(v: &Vec<String>, start: usize, end: usize) -> (r: Vec<String>)
    requires
        start <= end <= v.len(),
    ensures
        strs(r@) == strs(v@).subrange(start as int, end as int),
{
    let mut r: Vec<String> = Vec::new();
    let mut i = start;
    while i < end
        invariant
            start <= i <= end <= v.len(),
            strs(r@) == strs(v@).subrange(start as int, i as int),
        decreases end - i,
    {
        let ghost before = r@;
        r.push(v[i].clone());
        proof {
            lemma_strs_push(before, v@[i as int]);
        }
        i = i + 1;
        assert(strs(r@) =~= strs(v@).subrange(start as int, i as int));
    }
    r
}

/// The lines of `text` that hold the query, each with up to `context`
/// lines before and after it.
pub fn file_matches(text: &str, query: &str, case_sensitive: bool, context: usize) -> (r: Vec<
    MatchResult,
>)
    ensures
        r@.map_values(|m: MatchResult| match_view(m)) == matches_upto(
            lines_of(text@),
            lines_of(text@).len() as int,
            query@,
            case_sensitive,
            context as nat,
        ),
{
    let ls = lines(text);
    let ghost lv = lines_of(text@);
    let mut results: Vec<MatchResult> = Vec::new();
    let mut index: usize = 0;
    while index < ls.len()
        invariant
            index <= ls.len(),
            strs(ls@) == lv,
            results@.map_values(|m: MatchResult| match_view(m)) == matches_upto(
                lv,
                index as int,
                query@,
                case_sensitive,
                context as nat,
            ),
        decreases ls.len() - index,
    {
        if contains_query(ls[index].as_str(), query, case_sensitive) {
            let start: usize = if index < context { 0 } else { index - context };
            let after_end: usize = if context < ls.len() - index - 1 {
                index + context + 1
            } else {
                ls.len()
            };
            let m = MatchResult {
                line: index + 1,
                text: ls[index].clone(),
                context_before: copy_range(&ls, start, index),
                context_after: copy_range(&ls, index + 1, after_end),
            };
            let ghost before = results@;
            let ghost mv = match_view(m);
            results.push(m);
            proof {
                assert(mv == match_at(lv, index as int, context as nat));
                assert(results@.map_values(|m: MatchResult| match_view(m)) =~= before.map_values(
                    |m: MatchResult| match_view(m),
                ).push(mv));
            }
        }
        index = index + 1;
    }
    results
}

/// What an `auto` query looks like: a dotted name is an option, a dashed
/// lowercase name a package, anything else a string.
pub open spec fn option_like(q: Seq<char>) -> bool {
    q.contains('.') || starts_with(q, "programs."@) || starts_with(q, "services."@) || starts_with(
        q,
        "home."@,
    ) || starts_with(q, "boot."@) || starts_with(q, "environment."@)
}

pub open spec fn package_char(c: char) -> bool {
    ('a' <= c && c <= 'z') || ('0' <= c && c <= '9') || c == '-'
}

pub open spec fn package_like(q: Seq<char>) -> bool {
    !q.contains('.') && q.contains('-') && forall|i: int| 0 <= i < q.len() ==> package_char(#[trigger] q[i])
}

fn has_char(v: &Vec<char>, c: char) -> (r: bool)
    ensures
        r == v@.contains(c),
{
    let mut i: usize = 0;
    while i < v.len()
        invariant
            i <= v.len(),
            forall|k: int| 0 <= k < i ==> v@[k] != c,
        decreases v.len() - i,
    {
        if v[i] == c {
            return true;
        }
        i = i + 1;
    }
    false
}

pub fn looks_like_option(query: &str) -> (r: bool)
    ensures
        r == option_like(query@),
{
    let v = chars_of(query);
    has_char(&v, '.') || starts_with_str(query, "programs.") || starts_with_str(query, "services.")
        || starts_with_str(query, "home.") || starts_with_str(query, "boot.") || starts_with_str(
        query,
        "environment.",
    )
}

pub fn looks_like_package(query: &str) -> (r: bool)
    ensures
        r == package_like(query@),
{
    let v = chars_of(query);
    if has_char(&v, '.') || !has_char(&v, '-') {
        return false;
    }
    let mut i: usize = 0;
    while i < v.len()
        invariant
            i <= v.len(),
            v@ == query@,
            forall|k: int| 0 <= k < i ==> package_char(#[trigger] v@[k]),
        decreases v.len() - i,
    {
        let c = v[i];
        if !(('a' <= c && c <= 'z') || ('0' <= c && c <= '9') || c == '-') {
            return false;
        }
        i = i + 1;
    }
    true
}

pub open spec fn type_hint_text(query: Seq<char>, requested: FindType) -> Seq<char> {
    match requested {
        FindType::Package => "package"@,
        FindType::Option => "option"@,
        FindType::String => "string"@,
        FindType::AutoDetect => if option_like(query) {
            "option"@
        } else if package_like(query) {
            "package"@
        } else {
            "string"@
        },
    }
}

/// The kind of thing searched for, as requested or as the query looks.
pub fn type_hint(query: &str, requested: FindType) -> (r: &'static str)
    ensures
        r@ == type_hint_text(query@, requested),
{
    match requested {
        FindType::Package => "package",
        FindType::Option => "option",
        FindType::String => "string",
        FindType::AutoDetect => {
            if looks_like_option(query) {
                "option"
            } else if looks_like_package(query) {
                "package"
            } else {
                "string"
            }
        },
    }
}

/// The directory names that a search skips.
pub open spec fn skipped_component(c: Seq<char>) -> bool {
    c == ".git"@ || c == "target"@ || c == ".direnv"@ || c == "__pycache__"@ || c == "node_modules"@
}

pub fn is_skipped_component(name: &str) -> (r: bool)
    ensures
        r == skipped_component(name@),
{
    eq_str(name, ".git") || eq_str(name, "target") || eq_str(name, ".direnv") || eq_str(
        name,
        "__pycache__",
    ) || eq_str(name, "node_modules")
}

/// Whether `needle` occurs in `hay` at byte `i`.
pub open spec fn occurs_bytes(hay: Seq<u8>, needle: Seq<u8>, i: int) -> bool {
    0 <= i && i + needle.len() <= hay.len() && hay.subrange(i, i + needle.len()) == needle
}

/// The first byte position at or after `from` where `needle` occurs.
pub open spec fn first_occurrence(hay: Seq<u8>, needle: Seq<u8>, from: int) -> Option<int>
    decreases hay.len() + 1 - from,
{
    if from < 0 || from + needle.len() > hay.len() {
        None
    } else if occurs_bytes(hay, needle, from) {
        Some(from)
    } else {
        first_occurrence(hay, needle, from + 1)
    }
}

pub proof fn lemma_first_occurrence(hay: Seq<u8>, needle: Seq<u8>, from: int)
    ensures
        first_occurrence(hay, needle, from) matches Some(i) ==> from <= i && occurs_bytes(hay, needle, i),
    decreases hay.len() + 1 - from,
{
    if !(from < 0 || from + needle.len() > hay.len()) && !occurs_bytes(hay, needle, from) {
        lemma_first_occurrence(hay, needle, from + 1);
    }
}

/// The successive non-overlapping occurrences of a non-empty `needle` in
/// `hay` from byte `offset` on, as `(start, end)` byte ranges.
pub open spec fn ranges_from(hay: Seq<u8>, needle: Seq<u8>, offset: int) -> Seq<(int, int)>
    decreases hay.len() - offset,
{
    if needle.len() == 0 || offset < 0 {
        Seq::empty()
    } else {
        match first_occurrence(hay, needle, offset) {
            None => Seq::empty(),
            Some(s) => {
                proof {
                    lemma_first_occurrence(hay, needle, offset);
                }
                let e = s + needle.len();
                if e >= hay.len() {
                    seq![(s, e)]
                } else {
                    seq![(s, e)] + ranges_from(hay, needle, e)
                }
            },
        }
    }
}

/// The text searched in, and the text searched for.
pub open spec fn searched(text: Seq<char>, case_sensitive: bool) -> Seq<char> {
    if case_sensitive {
        text
    } else {
        lowercase(text)
    }
}

pub open spec fn range_views(v: Seq<(usize, usize)>) -> Seq<(int, int)> {
    v.map_values(|p: (usize, usize)| (p.0 as int, p.1 as int))
}

fn first_occurrence_exec(hay: &[u8], needle: &[u8], from: usize) -> (r: Option<usize>)
    ensures
        match first_occurrence(hay@, needle@, from as int) {
            Some(i) => r == Some(i as usize),
            None => r is None,
        },
{
    let mut i = from;
    while i <= hay.len() && needle.len() <= hay.len() - i
        invariant
            from <= i,
            first_occurrence(hay@, needle@, from as int) == first_occurrence(hay@, needle@, i as int),
        decreases hay.len() + 1 - i,
    {
        let mut k: usize = 0;
        while k < needle.len() && hay[i + k] == needle[k]
            invariant
                k <= needle.len(),
                i + needle.len() <= hay.len(),
                forall|j: int| 0 <= j < k ==> hay@[i + j] == needle@[j],
            decreases needle.len() - k,
        {
            k = k + 1;
        }
        if k == needle.len() {
            assert(hay@.subrange(i as int, i + needle.len()) =~= needle@);
            return Some(i);
        }
        assert(!occurs_bytes(hay@, needle@, i as int)) by {
            assert(hay@.subrange(i as int, i + needle.len())[k as int] != needle@[k as int]);
        }
        i = i + 1;
    }
    None
}

/// The byte ranges of `line` where the query matches, compared in lower
/// case unless the search is case-sensitive. The ranges are positions in
/// the searched text, which is the line itself when case-sensitive.
pub fn match_ranges(line: &str, query: &str, case_sensitive: bool) -> (r: Vec<(usize, usize)>)
    ensures
        range_views(r@) == ranges_from(
            vstd::utf8::encode_utf8(searched(line@, case_sensitive)),
            vstd::utf8::encode_utf8(searched(query@, case_sensitive)),
            0,
        ),
{
    let hay_s: String = if case_sensitive { line.to_owned() } else { to_lowercase(line) };
    let needle_s: String = if case_sensitive { query.to_owned() } else { to_lowercase(query) };
    let hay = hay_s.as_str().as_bytes();
    let needle = needle_s.as_str().as_bytes();
    let ghost h = hay@;
    let ghost n = needle@;
    assert(h == vstd::utf8::encode_utf8(searched(line@, case_sensitive)));
    assert(n == vstd::utf8::encode_utf8(searched(query@, case_sensitive)));
    let mut r: Vec<(usize, usize)> = Vec::new();
    if needle.len() == 0 {
        assert(range_views(r@) =~= Seq::<(int, int)>::empty());
        return r;
    }
    let mut offset: usize = 0;
    loop
        invariant
            h == hay@,
            n == needle@,
            h == vstd::utf8::encode_utf8(searched(line@, case_sensitive)),
            n == vstd::utf8::encode_utf8(searched(query@, case_sensitive)),
            n.len() > 0,
            offset <= hay.len(),
            range_views(r@) + ranges_from(h, n, offset as int) == ranges_from(h, n, 0),
        decreases hay.len() - offset,
    {
        proof {
            lemma_first_occurrence(h, n, offset as int);
        }
        match first_occurrence_exec(hay, needle, offset) {
            None => {
                assert(range_views(r@) =~= ranges_from(h, n, 0));
                return r;
            },
            Some(start) => {
                let end = start + needle.len();
                let ghost prev = r@;
                r.push((start, end));
                assert(range_views(r@) =~= range_views(prev).push((start as int, end as int)));
                if end >= hay.len() {
                    assert(range_views(r@) =~= ranges_from(h, n, 0));
                    return r;
                }
                assert(range_views(r@) + ranges_from(h, n, end as int) =~= range_views(prev)
                    + ranges_from(h, n, offset as int));
                offset = end;
            },
        }
    }
}

pub open spec fn esc_bold() -> Seq<u8> {
    seq![0x1bu8, 0x5bu8, 0x31u8, 0x6du8]
}

pub open spec fn esc_reset() -> Seq<u8> {
    seq![0x1bu8, 0x5bu8, 0x30u8, 0x6du8]
}

/// The bytes of a line with the ranges from the `k`-th on made bold, the
/// text before the first of them starting at `cursor`; `None` when a range
/// does not fall on character boundaries of the line.
pub open spec fn bolded_from(line: Seq<u8>, ranges: Seq<(int, int)>, k: int, cursor: int) -> Option<Seq<u8>>
    decreases ranges.len() - k,
{
    if k < 0 || k >= ranges.len() {
        Some(
            if vstd::utf8::is_char_boundary(line, cursor) {
                line.subrange(cursor, line.len() as int)
            } else {
                Seq::empty()
            },
        )
    } else {
        let s = ranges[k].0;
        let e = ranges[k].1;
        if cursor <= s && s <= e && vstd::utf8::is_char_boundary(line, cursor) && vstd::utf8::is_char_boundary(
            line,
            s,
        ) && vstd::utf8::is_char_boundary(line, e) {
            match bolded_from(line, ranges, k + 1, e) {
                Some(rest) => Some(
                    line.subrange(cursor, s) + esc_bold() + line.subrange(s, e) + esc_reset() + rest,
                ),
                None => None,
            }
        } else {
            None
        }
    }
}

/// What `bold_matches` shows: the line with each match in bold when color
/// is on, the line as it is otherwise.
pub open spec fn bold_matches_spec(line: Seq<char>, query: Seq<char>, case_sensitive: bool, enabled: bool) -> Seq<
    char,
> {
    let ranges = ranges_from(
        vstd::utf8::encode_utf8(searched(line, case_sensitive)),
        vstd::utf8::encode_utf8(searched(query, case_sensitive)),
        0,
    );
    if query.len() == 0 || !enabled || ranges.len() == 0 {
        line
    } else {
        match bolded_from(vstd::utf8::encode_utf8(line), ranges, 0, 0) {
            Some(b) => if vstd::utf8::valid_utf8(b) {
                vstd::utf8::decode_utf8(b)
            } else {
                line
            },
            None => line,
        }
    }
}

fn push_bytes(out: &mut Vec<u8>, src: &[u8], from: usize, to: usize)
    requires
        from <= to <= src@.len(),
    ensures
        final(out)@ == old(out)@ + src@.subrange(from as int, to as int),
{
    let ghost start = out@;
    let mut i = from;
    while i < to
        invariant
            from <= i <= to <= src@.len(),
            out@ == start + src@.subrange(from as int, i as int),
        decreases to - i,
    {
        out.push(src[i]);
        assert(src@.subrange(from as int, i + 1) =~= src@.subrange(from as int, i as int).push(src@[i as int]));
        i = i + 1;
    }
}

fn push_escape(out: &mut Vec<u8>, bold: bool)
    ensures
        final(out)@ == old(out)@ + if bold { esc_bold() } else { esc_reset() },
{
    out.push(0x1b);
    out.push(0x5b);
    out.push(if bold { 0x31 } else { 0x30 });
    out.push(0x6d);
    assert(out@ =~= old(out)@ + if bold { esc_bold() } else { esc_reset() });
}

/// Shows each match of the query in bold, when color is on.
pub fn bold_matches(line: &str, query: &str, case_sensitive: bool, color: crate::color::ColorChoice) -> (r: String)
    ensures
        r@ == bold_matches_spec(line@, query@, case_sensitive, color.is_enabled()),
{
    if query.is_empty() || !color.enabled() {
        return line.to_owned();
    }
    let ranges = match_ranges(line, query, case_sensitive);
    if ranges.len() == 0 {
        return line.to_owned();
    }
    let bytes = line.as_bytes();
    let ghost lb = bytes@;
    let ghost rv = range_views(ranges@);
    let mut out: Vec<u8> = Vec::new();
    let mut cursor: usize = 0;
    let mut k: usize = 0;
    while k < ranges.len()
        invariant
            k <= ranges.len(),
            lb == bytes@,
            lb == vstd::utf8::encode_utf8(line@),
            rv == range_views(ranges@),
            rv == ranges_from(
                vstd::utf8::encode_utf8(searched(line@, case_sensitive)),
                vstd::utf8::encode_utf8(searched(query@, case_sensitive)),
                0,
            ),
            rv.len() > 0,
            query@.len() > 0,
            color.is_enabled(),
            bolded_from(lb, rv, 0, 0) == match bolded_from(lb, rv, k as int, cursor as int) {
                Some(rest) => Some(out@ + rest),
                None => None,
            },
        decreases ranges.len() - k,
    {
        let (s, e) = ranges[k];
        if !(cursor <= s && s <= e && line.is_char_boundary(cursor) && line.is_char_boundary(s)
            && line.is_char_boundary(e)) {
            return line.to_owned();
        }
        proof {
            vstd::utf8::encode_utf8_valid_utf8(line@);
        }
        let ghost prev = out@;
        push_bytes(&mut out, bytes, cursor, s);
        push_escape(&mut out, true);
        push_bytes(&mut out, bytes, s, e);
        push_escape(&mut out, false);
        proof {
            match bolded_from(lb, rv, k + 1, e as int) {
                Some(rest) => {
                    assert(out@ + rest =~= prev + (lb.subrange(cursor as int, s as int) + esc_bold()
                        + lb.subrange(s as int, e as int) + esc_reset() + rest));
                },
                None => {},
            }
        }
        cursor = e;
        k = k + 1;
    }
    if line.is_char_boundary(cursor) {
        proof {
            vstd::utf8::encode_utf8_valid_utf8(line@);
        }
        push_bytes(&mut out, bytes, cursor, bytes.len());
    }
    proof {
        if !vstd::utf8::is_char_boundary(lb, cursor as int) {
            assert(out@ + Seq::<u8>::empty() =~= out@);
        }
    }
    match crate::text::string_from_utf8(out) {
        Some(s) => s,
        None => line.to_owned(),
    }
}

/// The matches in one file.
#[derive(Clone, Debug)]
pub struct FileResult {
    pub path: String,
    pub match_count: usize,
    pub matches: Vec<MatchResult>,
}

/// The lines shown for one match: its context, and the line itself after
/// its number.
pub open spec fn match_block(m: MatchResult, query: Seq<char>, case_sensitive: bool, enabled: bool) -> Seq<
    Seq<char>,
> {
    strs(m.context_before@).map_values(|c: Seq<char>| "  | "@ + c) + seq![
        crate::text::padded_left(crate::text::decimal(m.line as nat), 4) + ": "@ + bold_matches_spec(
            m.text@,
            query,
            case_sensitive,
            enabled,
        ),
    ] + strs(m.context_after@).map_values(|c: Seq<char>| "  | "@ + c)
}

pub open spec fn matches_block(
    ms: Seq<MatchResult>,
    n: int,
    query: Seq<char>,
    case_sensitive: bool,
    enabled: bool,
) -> Seq<Seq<char>>
    decreases n,
{
    if n <= 0 {
        Seq::empty()
    } else {
        matches_block(ms, n - 1, query, case_sensitive, enabled) + match_block(
            ms[n - 1],
            query,
            case_sensitive,
            enabled,
        )
    }
}

pub open spec fn file_block(f: FileResult, query: Seq<char>, case_sensitive: bool, enabled: bool) -> Seq<
    Seq<char>,
> {
    seq![crate::text::decimal(f.match_count as nat) + " matches in "@ + f.path@] + matches_block(
        f.matches@,
        f.matches@.len() as int,
        query,
        case_sensitive,
        enabled,
    )
}

pub open spec fn files_block(
    fs: Seq<FileResult>,
    n: int,
    query: Seq<char>,
    case_sensitive: bool,
    enabled: bool,
) -> Seq<Seq<char>>
    decreases n,
{
    if n <= 0 {
        Seq::empty()
    } else {
        files_block(fs, n - 1, query, case_sensitive, enabled) + file_block(
            fs[n - 1],
            query,
            case_sensitive,
            enabled,
        )
    }
}

/// What `nr find` prints as text.
pub open spec fn text_results(
    query: Seq<char>,
    hint: Seq<char>,
    results: Seq<FileResult>,
    total: nat,
    case_sensitive: bool,
    enabled: bool,
) -> Seq<Seq<char>> {
    seq!["Detected type hint: "@ + hint] + files_block(
        results,
        results.len() as int,
        query,
        case_sensitive,
        enabled,
    ) + seq![
        "Found "@ + crate::text::decimal(total) + " matches across "@ + crate::text::decimal(
            results.len(),
        ) + " files"@,
    ]
}

fn push_line(out: &mut Vec<String>, line: String)
    ensures
        strs(final(out)@) == strs(old(out)@).push(line@),
{
    let ghost prev = out@;
    out.push(line);
    proof {
        lemma_strs_push(prev, line);
    }
}

fn push_context(out: &mut Vec<String>, context: &Vec<String>)
    ensures
        strs(final(out)@) == strs(old(out)@) + strs(context@).map_values(|c: Seq<char>| "  | "@ + c),
{
    let ghost start = strs(out@);
    let ghost want = strs(context@).map_values(|c: Seq<char>| "  | "@ + c);
    let mut i: usize = 0;
    while i < context.len()
        invariant
            i <= context.len(),
            want == strs(context@).map_values(|c: Seq<char>| "  | "@ + c),
            strs(out@) == start + want.take(i as int),
        decreases context.len() - i,
    {
        let mut l = "  | ".to_owned();
        l.append(context[i].as_str());
        push_line(out, l);
        assert(want.take(i + 1) =~= want.take(i as int).push(l@));
        i = i + 1;
    }
    assert(want.take(context@.len() as int) =~= want);
}

fn push_match(out: &mut Vec<String>, m: &MatchResult, query: &str, case_sensitive: bool, color: crate::color::ColorChoice)
    ensures
        strs(final(out)@) == strs(old(out)@) + match_block(*m, query@, case_sensitive, color.is_enabled()),
{
    let ghost start = strs(out@);
    push_context(out, &m.context_before);
    let mut l = crate::text::pad_left(crate::text::u64_to_string(m.line as u64).as_str(), 4);
    l.append(": ");
    l.append(bold_matches(m.text.as_str(), query, case_sensitive, color).as_str());
    push_line(out, l);
    push_context(out, &m.context_after);
    assert(strs(out@) =~= start + match_block(*m, query@, case_sensitive, color.is_enabled()));
}

fn push_file(out: &mut Vec<String>, f: &FileResult, query: &str, case_sensitive: bool, color: crate::color::ColorChoice)
    ensures
        strs(final(out)@) == strs(old(out)@) + file_block(*f, query@, case_sensitive, color.is_enabled()),
{
    let ghost start = strs(out@);
    let mut head = crate::text::u64_to_string(f.match_count as u64);
    head.append(" matches in ");
    head.append(f.path.as_str());
    push_line(out, head);
    let ghost mid = strs(out@);
    let mut i: usize = 0;
    while i < f.matches.len()
        invariant
            i <= f.matches.len(),
            strs(out@) == mid + matches_block(f.matches@, i as int, query@, case_sensitive, color.is_enabled()),
        decreases f.matches.len() - i,
    {
        push_match(out, &f.matches[i], query, case_sensitive, color);
        assert(mid + matches_block(f.matches@, i + 1, query@, case_sensitive, color.is_enabled()) =~= mid
            + matches_block(f.matches@, i as int, query@, case_sensitive, color.is_enabled()) + match_block(
            f.matches@[i as int],
            query@,
            case_sensitive,
            color.is_enabled(),
        ));
        i = i + 1;
    }
    assert(strs(out@) =~= start + file_block(*f, query@, case_sensitive, color.is_enabled()));
}

/// The text report of `nr find`.
pub fn text_result_lines(
    query: &str,
    hint: &str,
    results: &Vec<FileResult>,
    total_matches: usize,
    color: crate::color::ColorChoice,
    case_sensitive: bool,
) -> (r: Vec<String>)
    ensures
        strs(r@) == text_results(query@, hint@, results@, total_matches as nat, case_sensitive, color.is_enabled()),
{
    let mut out: Vec<String> = Vec::new();
    let mut head = "Detected type hint: ".to_owned();
    head.append(hint);
    push_line(&mut out, head);
    let ghost mid = strs(out@);
    let mut i: usize = 0;
    while i < results.len()
        invariant
            i <= results.len(),
            strs(out@) == mid + files_block(results@, i as int, query@, case_sensitive, color.is_enabled()),
        decreases results.len() - i,
    {
        push_file(&mut out, &results[i], query, case_sensitive, color);
        assert(mid + files_block(results@, i + 1, query@, case_sensitive, color.is_enabled()) =~= mid
            + files_block(results@, i as int, query@, case_sensitive, color.is_enabled()) + file_block(
            results@[i as int],
            query@,
            case_sensitive,
            color.is_enabled(),
        ));
        i = i + 1;
    }
    let mut foot = "Found ".to_owned();
    crate::text::push_decimal(&mut foot, total_matches as u64);
    foot.append(" matches across ");
    crate::text::push_decimal(&mut foot, results.len() as u64);
    foot.append(" files");
    push_line(&mut out, foot);
    assert(strs(out@) =~= text_results(query@, hint@, results@, total_matches as nat, case_sensitive, color.is_enabled()));
    out
}

pub open spec fn match_total(results: Seq<FileResult>, n: int) -> nat
    decreases n,
{
    if n <= 0 {
        0
    } else {
        match_total(results, n - 1) + (results[n - 1].match_count as nat)
    }
}

/// The number of matches over all files.
pub fn total_matches(results: &Vec<FileResult>) -> (r: usize)
    requires
        match_total(results@, results@.len() as int) <= usize::MAX,
    ensures
        r == match_total(results@, results@.len() as int),
{
    let mut t: usize = 0;
    let mut i: usize = 0;
    while i < results.len()
        invariant
            i <= results.len(),
            t == match_total(results@, i as int),
            match_total(results@, results@.len() as int) <= usize::MAX,
        decreases results.len() - i,
    {
        proof {
            lemma_match_total_monotone(results@, i + 1, results@.len() as int);
        }
        t = t + results[i].match_count;
        i = i + 1;
    }
    t
}

proof fn lemma_match_total_monotone(results: Seq<FileResult>, a: int, b: int)
    requires
        a <= b,
    ensures
        match_total(results, a) <= match_total(results, b),
    decreases b - a,
{
    if a < b {
        lemma_match_total_monotone(results, a, b - 1);
    }
}

} // verus!
