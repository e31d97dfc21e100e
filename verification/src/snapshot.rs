use vstd::prelude::*;
use vstd::utf8::encode_utf8;

use crate::errors::NrError;
use crate::text::{chars_of, push_char, string_of_range, trim, trim_str};

verus! {

/// The bytes kept as they are in a snapshot file name.
pub open spec fn label_byte_safe(b: u8) -> bool {
    (48 <= b && b <= 57) || (65 <= b && b <= 90) || (97 <= b && b <= 122) || b == 45 || b == 95 || b
        == 46
}

pub open spec fn hex_digit_upper(d: u8) -> char {
    if d < 10 {
        ((48 + d) as u8) as char
    } else {
        ((55 + d) as u8) as char
    }
}

/// One byte of a label as it appears in a file name: itself, or `%XX`.
pub open spec fn escaped_byte(b: u8) -> Seq<char> {
    if label_byte_safe(b) {
        seq![b as char]
    } else {
        seq!['%', hex_digit_upper(b / 16), hex_digit_upper(b % 16)]
    }
}

pub open spec fn escaped_bytes(bs: Seq<u8>) -> Seq<char>
    decreases bs.len(),
{
    if bs.len() == 0 {
        Seq::empty()
    } else {
        escaped_bytes(bs.drop_last()) + escaped_byte(bs.last())
    }
}

/// A label made safe as a file name: the trimmed label's UTF-8 bytes,
/// letters, digits, `-`, `_` and `.` kept, others percent-escaped in upper
/// case; `_empty` for an empty label.
pub open spec fn safe_label_spec(label: Seq<char>) -> Seq<char> {
    let e = escaped_bytes(encode_utf8(trim(label)));
    if e.len() == 0 {
        "_empty"@
    } else {
        e
    }
}

fn hex_upper(d: u8) -> (c: char)
    requires
        d < 16,
    ensures
        c == hex_digit_upper(d),
{
    if d < 10 {
        (48 + d) as char
    } else {
        (55 + d) as char
    }
}

pub fn safe_label(label: &str) -> (r: String)
    ensures
        r@ == safe_label_spec(label@),
{
    proof {
        reveal_strlit("_empty");
    }
    let t = trim_str(label);
    let bytes = t.as_str().as_bytes();
    let mut out = String::new();
    let mut i: usize = 0;
    while i < bytes.len()
        invariant
            i <= bytes.len(),
            bytes@ == encode_utf8(trim(label@)),
            out@ == escaped_bytes(bytes@.take(i as int)),
        decreases bytes.len() - i,
    {
        let b = bytes[i];
        let ghost before = out@;
        if (48 <= b && b <= 57) || (65 <= b && b <= 90) || (97 <= b && b <= 122) || b == 45 || b
            == 95 || b == 46 {
            push_char(&mut out, b as char);
        } else {
            push_char(&mut out, '%');
            push_char(&mut out, hex_upper(b / 16));
            push_char(&mut out, hex_upper(b % 16));
        }
        assert(bytes@.take(i + 1).drop_last() =~= bytes@.take(i as int));
        i = i + 1;
        assert(out@ =~= escaped_bytes(bytes@.take(i as int)));
    }
    assert(bytes@.take(i as int) =~= bytes@);
    if out.as_str().is_empty() {
        "_empty".to_owned()
    } else {
        out
    }
}

/// The first eight characters of a revision.
pub open spec fn truncated_revision(value: Seq<char>) -> Seq<char> {
    value.take(if value.len() < 8 { value.len() as int } else { 8 })
}

pub fn truncate_revision(value: &str) -> (r: String)
    ensures
        r@ == truncated_revision(value@),
{
    let v = chars_of(value);
    let end: usize = if v.len() < 8 { v.len() } else { 8 };
    let r = string_of_range(v.as_slice(), 0, end);
    assert(v@.subrange(0, end as int) =~= v@.take(end as int));
    r
}

/// What `nr snapshot` was asked to do.
#[derive(Clone, Debug)]
pub enum SnapshotAction {
    List,
    Restore(String),
    Create(String),
}

/// Exactly one of `--name`, `--list` and `--restore` must be given.
pub fn snapshot_action(list: bool, restore: Option<&str>, name: Option<&str>) -> (r: Result<
    SnapshotAction,
    NrError,
>)
    ensures
        ((list as int) + (restore is Some) as int + (name is Some) as int != 1) ==> (r matches Err(
            NrError::Message(m),
        ) && m@ == "Use exactly one of --name LABEL, --list, or --restore LABEL."@),
        ((list as int) + (restore is Some) as int + (name is Some) as int == 1) ==> (if list {
            r matches Ok(SnapshotAction::List)
        } else if restore is Some {
            r matches Ok(SnapshotAction::Restore(l)) && l@ == restore->0@
        } else {
            r matches Ok(SnapshotAction::Create(l)) && l@ == name->0@
        }),
{
    let count: u8 = (if list { 1u8 } else { 0u8 }) + (if restore.is_some() { 1u8 } else { 0u8 }) + (
    if name.is_some() {
        1u8
    } else {
        0u8
    });
    if count != 1 {
        return Err(NrError::message("Use exactly one of --name LABEL, --list, or --restore LABEL."));
    }
    if list {
        return Ok(SnapshotAction::List);
    }
    match restore {
        Some(l) => Ok(SnapshotAction::Restore(l.to_owned())),
        None => match name {
            Some(l) => Ok(SnapshotAction::Create(l.to_owned())),
            None => Err(NrError::message("--name LABEL is required to create a snapshot.")),
        },
    }
}

/// A snapshot label, trimmed; an empty one is refused.
pub fn snapshot_label(label: &str) -> (r: Result<String, NrError>)
    ensures
        trim(label@).len() == 0 ==> (r matches Err(NrError::Message(m)) && m@
            == "snapshot label cannot be empty."@),
        trim(label@).len() > 0 ==> (r matches Ok(s) && s@ == trim(label@)),
{
    let t = trim_str(label);
    if t.as_str().is_empty() {
        return Err(NrError::message("snapshot label cannot be empty."));
    }
    Ok(t)
}

/// `n` spaces.
pub open spec fn spaces(n: nat) -> Seq<char> {
    Seq::new(n, |i: int| ' ')
}

/// Text padded on the right with spaces to `width` characters, as `{:<W}`
/// formats it.
pub open spec fn padded(text: Seq<char>, width: nat) -> Seq<char> {
    if text.len() < width {
        text + spaces((width - text.len()) as nat)
    } else {
        text
    }
}

pub fn pad_right(text: &str, width: usize) -> (r: String)
    ensures
        r@ == padded(text@, width as nat),
{
    let n = crate::edit::char_count(text);
    let mut r = text.to_owned();
    if n < width {
        let mut k: usize = n;
        while k < width
            invariant
                n <= k <= width,
                n == text@.len(),
                r@ == text@ + spaces((k - n) as nat),
            decreases width - k,
        {
            push_char(&mut r, ' ');
            assert(r@ =~= text@ + spaces((k + 1 - n) as nat));
            k = k + 1;
        }
    }
    r
}

/// The heading of `nr snapshot --list`.
pub fn snapshot_header() -> (r: String)
    ensures
        r@ == padded("LABEL"@, 24) + "  "@ + padded("DATE"@, 12) + "  "@ + padded("GENERATION"@, 10) + "  GIT"@,
{
    let mut r = pad_right("LABEL", 24);
    r.append("  ");
    r.append(pad_right("DATE", 12).as_str());
    r.append("  ");
    r.append(pad_right("GENERATION", 10).as_str());
    r.append("  GIT");
    r
}

/// One row of `nr snapshot --list`.
pub fn snapshot_row(label: &str, created_at: u64, generation: u64, git_revision: &str) -> (r: String)
    ensures
        r@ == padded(label@, 24) + "  "@ + padded(crate::text::decimal(created_at as nat), 12) + "  "@
            + padded(crate::text::decimal(generation as nat), 10) + "  "@ + truncated_revision(git_revision@),
{
    let mut r = pad_right(label, 24);
    r.append("  ");
    r.append(pad_right(crate::text::u64_to_string(created_at).as_str(), 12).as_str());
    r.append("  ");
    r.append(pad_right(crate::text::u64_to_string(generation).as_str(), 10).as_str());
    r.append("  ");
    r.append(truncate_revision(git_revision).as_str());
    r
}

/// The line after a snapshot was restored.
pub fn restored_line(label: &str, generation: u64) -> (r: String)
    ensures
        r@ == "restored snapshot "@ + label@ + " at generation "@ + crate::text::decimal(generation as nat),
{
    let mut r = "restored snapshot ".to_owned();
    r.append(label);
    r.append(" at generation ");
    crate::text::push_decimal(&mut r, generation);
    r
}

} // verus!
