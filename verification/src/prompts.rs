use vstd::prelude::*;

use crate::text::{
    chars_of, concat, decimal, eq_str, lowercase, parse_u64, parse_u64_spec, to_lowercase, trim,
    trim_str, u64_to_string,
};

verus! {

/// The prompt suffix of a yes/no question, showing its default.
pub fn confirm_suffix(default: bool) -> (r: &'static str)
    ensures
        r@ == (if default { " [Y/n] "@ } else { " [y/N] "@ }),
{
    if default {
        " [Y/n] "
    } else {
        " [y/N] "
    }
}

/// A yes/no answer: empty takes the default, `y`/`yes` and `n`/`no` in any
/// case decide, anything else asks again (`None`).
pub open spec fn confirm_reply(answer: Seq<char>, default: bool) -> Option<bool> {
    let a = lowercase(trim(answer));
    if a.len() == 0 {
        Some(default)
    } else if a == "y"@ || a == "yes"@ {
        Some(true)
    } else if a == "n"@ || a == "no"@ {
        Some(false)
    } else {
        None
    }
}

pub fn confirm_answer(answer: &str, default: bool) -> (r: Option<bool>)
    ensures
        r == confirm_reply(answer@, default),
{
    let trimmed = trim_str(answer);
    let a = to_lowercase(trimmed.as_str());
    if chars_of(a.as_str()).len() == 0 {
        Some(default)
    } else if eq_str(a.as_str(), "y") || eq_str(a.as_str(), "yes") {
        Some(true)
    } else if eq_str(a.as_str(), "n") || eq_str(a.as_str(), "no") {
        Some(false)
    } else {
        None
    }
}

/// The suffix of a free-text prompt, showing its default.
pub fn default_suffix(default: Option<&str>) -> (r: String)
    ensures
        r@ == (match default {
            Some(d) => " ["@ + d@ + "] "@,
            None => " "@,
        }),
{
    match default {
        Some(d) => {
            let mut r = " [".to_owned();
            r.append(d);
            r.append("] ");
            r
        },
        None => " ".to_owned(),
    }
}

/// A free-text answer, trimmed; an empty one takes the default.
pub fn line_answer(answer: &str, default: Option<&str>) -> (r: Option<String>)
    ensures
        trim(answer@).len() > 0 ==> (r matches Some(s) && s@ == trim(answer@)),
        trim(answer@).len() == 0 ==> match default {
            Some(d) => r matches Some(s) && s@ == d@,
            None => r is None,
        },
{
    let t = trim_str(answer);
    if chars_of(t.as_str()).len() == 0 {
        match default {
            Some(d) => Some(d.to_owned()),
            None => None,
        }
    } else {
        Some(t)
    }
}

/// How a choice is listed: its number, key and label, and whether it is
/// the default.
pub fn choice_line(index: usize, key: &str, label: &str, is_default: bool) -> (r: String)
    requires
        index < usize::MAX,
    ensures
        r@ == "  "@ + decimal((index + 1) as nat) + ". "@ + key@ + ": "@ + label@ + (if is_default {
            " (default)"@
        } else {
            ""@
        }),
{
    let mut r = "  ".to_owned();
    crate::text::push_decimal(&mut r, (index + 1) as u64);
    r.append(". ");
    r.append(key);
    r.append(": ");
    r.append(label);
    if is_default {
        r.append(" (default)");
    }
    proof {
        reveal_strlit("");
        assert(r@ + ""@ =~= r@);
    }
    r
}

/// What a choice answer selects: empty takes the default, a key selects
/// itself, a number from one selects by position; `None` asks again.
pub open spec fn chosen(answer: Seq<char>, keys: Seq<Seq<char>>, default: Option<Seq<char>>) -> Option<
    Option<Seq<char>>,
> {
    let a = trim(answer);
    if a.len() == 0 {
        Some(default)
    } else if keys.contains(a) {
        Some(Some(a))
    } else if parse_u64_spec(a) matches Some(n) && 1 <= n <= keys.len() {
        Some(Some(keys[parse_u64_spec(a)->0 - 1]))
    } else {
        None
    }
}

pub fn choose_answer(answer: &str, keys: &[&str], default: Option<&str>) -> (r: Option<Option<String>>)
    ensures
        match chosen(
            answer@,
            keys@.map_values(|k: &str| k@),
            match default {
                Some(d) => Some(d@),
                None => None,
            },
        ) {
            Some(Some(k)) => r matches Some(Some(s)) && s@ == k,
            Some(None) => r == Some(None::<String>),
            None => r is None,
        },
{
    let ghost kv = keys@.map_values(|k: &str| k@);
    let t = trim_str(answer);
    let tc = chars_of(t.as_str());
    if tc.len() == 0 {
        return Some(
            match default {
                Some(d) => Some(d.to_owned()),
                None => None,
            },
        );
    }
    let mut i: usize = 0;
    while i < keys.len()
        invariant
            i <= keys.len(),
            kv == keys@.map_values(|k: &str| k@),
            t@ == trim(answer@),
            t@.len() > 0,
            forall|j: int| 0 <= j < i ==> kv[j] != t@,
        decreases keys.len() - i,
    {
        if eq_str(keys[i], t.as_str()) {
            assert(kv[i as int] == t@);
            assert(kv.contains(t@));
            return Some(Some(t));
        }
        i = i + 1;
    }
    assert(!kv.contains(t@)) by {
        if kv.contains(t@) {
            let j = choose|j: int| 0 <= j < kv.len() && kv[j] == t@;
            assert(kv[j] != t@);
        }
    }
    match parse_u64(tc.as_slice()) {
        Some(n) => {
            if 1 <= n && n <= keys.len() as u64 {
                let k = keys[(n - 1) as usize];
                assert(kv[n - 1] == k@);
                Some(Some(k.to_owned()))
            } else {
                None
            }
        },
        None => None,
    }
}

/// The line shown when an answer matches no choice.
pub fn choose_retry_message(keys: &[&str]) -> (r: String)
    ensures
        r@ == "Please choose one of: "@ + crate::text::join(keys@.map_values(|k: &str| k@), ", "@) + "."@,
{
    let mut owned: Vec<String> = Vec::new();
    let mut i: usize = 0;
    while i < keys.len()
        invariant
            i <= keys.len(),
            crate::text::strs(owned@) == keys@.map_values(|k: &str| k@).take(i as int),
        decreases keys.len() - i,
    {
        let ghost before = owned@;
        let k = keys[i].to_owned();
        owned.push(k);
        proof {
            crate::text::lemma_strs_push(before, k);
        }
        i = i + 1;
        assert(crate::text::strs(owned@) =~= keys@.map_values(|k: &str| k@).take(i as int));
    }
    assert(keys@.map_values(|k: &str| k@).take(i as int) =~= keys@.map_values(|k: &str| k@));
    let mut r = "Please choose one of: ".to_owned();
    r.append(crate::text::join_strings(owned.as_slice(), ", ").as_str());
    r.append(".");
    r
}

} // verus!
