use vstd::prelude::*;

use crate::errors::NrError;
use crate::text::{chars_of, contains, contains_str, eq_str, split_on, starts_with, starts_with_str, trim, trim_str};

verus! {

/// A requested file must be relative and may not climb out of the flake
/// with `..`.
pub open spec fn escapes_flake(input: Seq<char>) -> bool {
    starts_with(input, "/"@) || split_on(input, crate::text::sep3('/', '/', '/')).contains(".."@)
}

/// Checks the path given to `nr open`.
pub fn check_requested_path(input: &str) -> (r: Result<(), NrError>)
    ensures
        escapes_flake(input@) ==> (r matches Err(NrError::Message(m)) && m@
            == "FILE must be a relative path inside the flake."@),
        !escapes_flake(input@) ==> r is Ok,
{
    if starts_with_str(input, "/") {
        return Err(NrError::message("FILE must be a relative path inside the flake."));
    }
    let v = chars_of(input);
    let pieces = crate::text::split3(v.as_slice(), '/', '/', '/');
    let mut i: usize = 0;
    while i < pieces.len()
        invariant
            i <= pieces.len(),
            crate::text::strs(pieces@) == split_on(input@, crate::text::sep3('/', '/', '/')),
            forall|k: int| 0 <= k < i ==> crate::text::strs(pieces@)[k] != ".."@,
        decreases pieces.len() - i,
    {
        if eq_str(pieces[i].as_str(), "..") {
            assert(crate::text::strs(pieces@)[i as int] == ".."@);
            return Err(NrError::message("FILE must be a relative path inside the flake."));
        }
        i = i + 1;
    }
    assert(!split_on(input@, crate::text::sep3('/', '/', '/')).contains(".."@)) by {
        let s = split_on(input@, crate::text::sep3('/', '/', '/'));
        if s.contains(".."@) {
            let k = choose|k: int| 0 <= k < s.len() && s[k] == ".."@;
            assert(crate::text::strs(pieces@)[k] != ".."@);
        }
    }
    Ok(())
}

/// The editor to open: `EDITOR`, else `VISUAL`, else `vi`; blank values
/// do not count.
pub open spec fn editor_choice(editor: Option<Seq<char>>, visual: Option<Seq<char>>) -> Seq<char> {
    if editor matches Some(e) && trim(e).len() > 0 {
        editor->0
    } else if visual matches Some(v) && trim(v).len() > 0 {
        visual->0
    } else {
        "vi"@
    }
}

pub fn editor(editor_env: Option<&str>, visual_env: Option<&str>) -> (r: String)
    ensures
        r@ == editor_choice(
            match editor_env {
                Some(e) => Some(e@),
                None => None,
            },
            match visual_env {
                Some(v) => Some(v@),
                None => None,
            },
        ),
{
    if let Some(e) = editor_env {
        if !trim_str(e).as_str().is_empty() {
            return e.to_owned();
        }
    }
    if let Some(v) = visual_env {
        if !trim_str(v).as_str().is_empty() {
            return v.to_owned();
        }
    }
    "vi".to_owned()
}

/// The error when no `.nix` file matches a query.
pub fn no_match_error(input: &str) -> (r: NrError)
    ensures
        r matches NrError::Message(m) && m@ == "No .nix file matches: "@ + input@,
{
    NrError::Message(crate::text::concat("No .nix file matches: ", input))
}

/// Whether a file's path inside the flake matches the query.
pub fn label_matches(label: &str, query: &str) -> (r: bool)
    ensures
        r == contains(label@, query@),
{
    contains_str(label, query)
}

} // verus!
