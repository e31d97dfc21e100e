use vstd::prelude::*;

use crate::text::{chars_of, occurs_at, push_char, string_of, string_of_range};

verus! {

/// `str::trim_start_matches` with one character.
pub open spec fn trim_start_char(s: Seq<char>, c: char) -> Seq<char>
    decreases s.len(),
{
    if s.len() > 0 && s[0] == c {
        trim_start_char(s.drop_first(), c)
    } else {
        s
    }
}

/// `str::trim_end_matches` with one character.
pub open spec fn trim_end_char(s: Seq<char>, c: char) -> Seq<char>
    decreases s.len(),
{
    if s.len() > 0 && s.last() == c {
        trim_end_char(s.drop_last(), c)
    } else {
        s
    }
}

/// `str::trim_matches` with one character.
pub open spec fn trim_char(s: Seq<char>, c: char) -> Seq<char> {
    trim_end_char(trim_start_char(s, c), c)
}

pub fn trim_char_exec(s: &str, c: char) -> (r: String)
    ensures
        r@ == trim_char(s@, c),
{
    let v = chars_of(s);
    let mut start: usize = 0;
    assert(v@.skip(0) =~= v@);
    while start < v.len() && v[start] == c
        invariant
            start <= v.len(),
            trim_start_char(v@, c) == trim_start_char(v@.skip(start as int), c),
        decreases v.len() - start,
    {
        assert(v@.skip(start as int).drop_first() =~= v@.skip(start + 1));
        start = start + 1;
    }
    assert(trim_start_char(v@.skip(start as int), c) == v@.skip(start as int));
    let mut end: usize = v.len();
    assert(v@.subrange(start as int, end as int) =~= v@.skip(start as int));
    while end > start && v[end - 1] == c
        invariant
            start <= end <= v.len(),
            trim_end_char(trim_start_char(v@, c), c) == trim_end_char(
                v@.subrange(start as int, end as int),
                c,
            ),
        decreases end - start,
    {
        assert(v@.subrange(start as int, end as int).drop_last() =~= v@.subrange(
            start as int,
            end - 1,
        ));
        end = end - 1;
    }
    string_of_range(v.as_slice(), start, end)
}

/// `str::trim_end_matches` with a non-empty string pattern.
pub open spec fn trim_end_str(s: Seq<char>, p: Seq<char>) -> Seq<char>
    recommends
        p.len() > 0,
    decreases s.len(),
{
    if p.len() > 0 && p.len() <= s.len() && s.subrange(s.len() - p.len(), s.len() as int) == p {
        trim_end_str(s.subrange(0, s.len() - p.len()), p)
    } else {
        s
    }
}

pub fn trim_end_str_exec(s: &[char], p: &[char]) -> (r: Vec<char>)
    requires
        p.len() > 0,
    ensures
        r@ == trim_end_str(s@, p@),
{
    let mut end: usize = s.len();
    assert(s@.subrange(0, end as int) =~= s@);
    loop
        invariant
            end <= s.len(),
            p.len() > 0,
            trim_end_str(s@, p@) == trim_end_str(s@.subrange(0, end as int), p@),
        decreases end,
    {
        if p.len() <= end && ends_at(s, end, p) {
            assert(s@.subrange(0, end as int).subrange(end - p.len(), end as int) =~= s@.subrange(
                end - p.len(),
                end as int,
            ));
            assert(s@.subrange(0, end as int).subrange(0, end - p.len()) =~= s@.subrange(
                0,
                end - p.len(),
            ));
            end = end - p.len();
        } else {
            assert(!(p@.len() <= end && s@.subrange(0, end as int).subrange(end - p.len(), end as int)
                == p@)) by {
                if p@.len() <= end {
                    assert(s@.subrange(0, end as int).subrange(end - p.len(), end as int)
                        =~= s@.subrange(end - p.len(), end as int));
                }
            }
            let mut r: Vec<char> = Vec::new();
            let mut i: usize = 0;
            while i < end
                invariant
                    i <= end <= s.len(),
                    r@ == s@.subrange(0, i as int),
                decreases end - i,
            {
                r.push(s[i]);
                i = i + 1;
                assert(r@ =~= s@.subrange(0, i as int));
            }
            return r;
        }
    }
}

/// Whether `p` ends at position `end` of `s`.
fn ends_at(s: &[char], end: usize, p: &[char]) -> (r: bool)
    requires
        p.len() <= end <= s.len(),
    ensures
        r == (s@.subrange(end - p.len(), end as int) == p@),
{
    let start = end - p.len();
    let mut k: usize = 0;
    while k < p.len()
        invariant
            start + p.len() == end <= s.len(),
            k <= p.len(),
            forall|j: int| 0 <= j < k ==> s@[start + j] == p@[j],
        decreases p.len() - k,
    {
        if s[start + k] != p[k] {
            assert(s@.subrange(start as int, end as int)[k as int] != p@[k as int]);
            return false;
        }
        k = k + 1;
    }
    assert(s@.subrange(start as int, end as int) =~= p@);
    true
}

/// `str::replace`: every non-overlapping occurrence of `from`, left to
/// right, replaced by `to`.
pub open spec fn replace_all(s: Seq<char>, from: Seq<char>, to: Seq<char>) -> Seq<char>
    recommends
        from.len() > 0,
    decreases s.len(),
{
    if s.len() == 0 || from.len() == 0 {
        s
    } else if occurs_at(s, from, 0) {
        to + replace_all(s.skip(from.len() as int), from, to)
    } else {
        seq![s[0]] + replace_all(s.drop_first(), from, to)
    }
}

pub fn replace_all_exec(s: &str, from: &str, to: &str) -> (r: String)
    requires
        from@.len() > 0,
    ensures
        r@ == replace_all(s@, from@, to@),
{
    let v = chars_of(s);
    let f = chars_of(from);
    let t = chars_of(to);
    let mut out = String::new();
    let mut i: usize = 0;
    assert(v@.skip(0) =~= v@);
    while i < v.len()
        invariant
            i <= v.len(),
            f@ == from@,
            t@ == to@,
            f@.len() > 0,
            replace_all(v@, f@, t@) == out@ + replace_all(v@.skip(i as int), f@, t@),
        decreases v.len() - i,
    {
        let ghost rest = v@.skip(i as int);
        if f.len() <= v.len() - i && crate::text::occurs_at_exec(v.as_slice(), f.as_slice(), i) {
            assert(occurs_at(rest, f@, 0)) by {
                assert(rest.subrange(0, f@.len() as int) =~= v@.subrange(i as int, i + f@.len()));
            }
            assert(rest.skip(f@.len() as int) =~= v@.skip(i + f@.len()));
            let mut k: usize = 0;
            let ghost before = out@;
            while k < t.len()
                invariant
                    k <= t.len(),
                    out@ == before + t@.take(k as int),
                decreases t.len() - k,
            {
                push_char(&mut out, t[k]);
                k = k + 1;
                assert(out@ =~= before + t@.take(k as int));
            }
            assert(t@.take(t@.len() as int) =~= t@);
            i = i + f.len();
            assert(before + (t@ + replace_all(v@.skip(i as int), f@, t@)) =~= out@ + replace_all(
                v@.skip(i as int),
                f@,
                t@,
            ));
        } else {
            assert(!occurs_at(rest, f@, 0)) by {
                if occurs_at(rest, f@, 0) {
                    assert(rest.subrange(0, f@.len() as int) =~= v@.subrange(i as int, i + f@.len()));
                }
            }
            let ghost before = out@;
            push_char(&mut out, v[i]);
            assert(rest.drop_first() =~= v@.skip(i + 1));
            i = i + 1;
            assert(before + (seq![rest[0]] + replace_all(v@.skip(i as int), f@, t@)) =~= out@
                + replace_all(v@.skip(i as int), f@, t@));
        }
    }
    assert(v@.skip(i as int) =~= Seq::<char>::empty());
    assert(out@ + Seq::<char>::empty() =~= out@);
    out
}

/// The line shortened to `max_width` characters by an ellipsis in the
/// middle; a width of three or less leaves only dots.
pub open spec fn truncated(line: Seq<char>, max_width: nat) -> Seq<char> {
    if line.len() <= max_width {
        line
    } else if max_width <= 3 {
        Seq::new(max_width, |i: int| '.')
    } else {
        let keep = (max_width - 3) as nat;
        let head = keep / 2;
        let tail = (keep - head) as nat;
        line.take(head as int) + "..."@ + line.skip(line.len() - tail)
    }
}

/// Shortens a line to at most `max_width` characters.
pub fn truncate_line(line: &str, max_width: usize) -> (r: String)
    ensures
        r@ == truncated(line@, max_width as nat),
        r@.len() <= max_width,
{
    let v = chars_of(line);
    if v.len() <= max_width {
        return string_of(v.as_slice());
    }
    if max_width <= 3 {
        let mut r = String::new();
        let mut i: usize = 0;
        while i < max_width
            invariant
                i <= max_width,
                r@ == Seq::new(i as nat, |j: int| '.'),
            decreases max_width - i,
        {
            push_char(&mut r, '.');
            i = i + 1;
            assert(r@ =~= Seq::new(i as nat, |j: int| '.'));
        }
        return r;
    }
    let keep = max_width - 3;
    let head = keep / 2;
    let tail = keep - head;
    let mut r = string_of_range(v.as_slice(), 0, head);
    push_char(&mut r, '.');
    push_char(&mut r, '.');
    push_char(&mut r, '.');
    let ghost mid = r@;
    let suffix = string_of_range(v.as_slice(), v.len() - tail, v.len());
    let mut k: usize = 0;
    let sv = chars_of(suffix.as_str());
    while k < sv.len()
        invariant
            k <= sv.len(),
            r@ == mid + sv@.take(k as int),
        decreases sv.len() - k,
    {
        push_char(&mut r, sv[k]);
        k = k + 1;
        assert(r@ =~= mid + sv@.take(k as int));
    }
    proof {
        reveal_strlit("...");
        assert(sv@.take(sv@.len() as int) =~= sv@);
        assert(v@.subrange(v.len() - tail, v.len() as int) =~= v@.skip(v.len() - tail));
        assert(v@.subrange(0, head as int) =~= v@.take(head as int));
        assert(r@ =~= v@.take(head as int) + "..."@ + v@.skip(v.len() - tail));
    }
    r
}

/// `s.chars().count()`.
pub fn char_count(s: &str) -> (r: usize)
    ensures
        r == s@.len(),
{
    chars_of(s).len()
}

} // verus!
