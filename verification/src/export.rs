use vstd::prelude::*;

use crate::text::{
    chars_of, concat, contains, contains_str, ends_with, ends_with_str, eq_str, lemma_strs_push,
    push_char, starts_with, starts_with_str, string_of, strip_prefix_str, strs, trim, trim_str,
    u64_to_string,
};

verus! {

/// A `"..."` string from position `i` on: its text with backslash escapes
/// resolved, and where scanning resumes.
pub open spec fn quoted_literal(s: Seq<char>, i: int, escaped: bool, acc: Seq<char>) -> (Seq<char>, int)
    decreases s.len() - i,
{
    if i < 0 || i >= s.len() {
        (acc, s.len() as int)
    } else if escaped {
        quoted_literal(s, i + 1, false, acc.push(s[i]))
    } else if s[i] == '\\' {
        quoted_literal(s, i + 1, true, acc)
    } else if s[i] == '"' {
        (acc, i + 1)
    } else {
        quoted_literal(s, i + 1, false, acc.push(s[i]))
    }
}

pub open spec fn two_quotes_at(s: Seq<char>, i: int) -> bool {
    0 <= i && i + 1 < s.len() && s[i] == '\'' && s[i + 1] == '\''
}

/// A `''...''` string from position `i` on, and where scanning resumes.
pub open spec fn indented_literal(s: Seq<char>, i: int, acc: Seq<char>) -> (Seq<char>, int)
    decreases s.len() - i,
{
    if i < 0 || i >= s.len() {
        (acc, s.len() as int)
    } else if two_quotes_at(s, i) {
        (acc, i + 2)
    } else {
        indented_literal(s, i + 1, acc.push(s[i]))
    }
}

proof fn lemma_quoted_advances(s: Seq<char>, i: int, escaped: bool, acc: Seq<char>)
    requires
        0 <= i <= s.len(),
    ensures
        quoted_literal(s, i, escaped, acc).1 >= i,
        quoted_literal(s, i, escaped, acc).1 <= s.len(),
    decreases s.len() - i,
{
    if i < s.len() {
        if escaped || s[i] != '"' {
            lemma_quoted_advances(s, i + 1, if escaped { false } else { s[i] == '\\' }, if escaped {
                acc.push(s[i])
            } else if s[i] == '\\' {
                acc
            } else {
                acc.push(s[i])
            });
        }
    }
}

proof fn lemma_indented_advances(s: Seq<char>, i: int, acc: Seq<char>)
    requires
        0 <= i <= s.len(),
    ensures
        indented_literal(s, i, acc).1 >= i,
        indented_literal(s, i, acc).1 <= s.len(),
    decreases s.len() - i,
{
    if i < s.len() && !two_quotes_at(s, i) {
        lemma_indented_advances(s, i + 1, acc.push(s[i]));
    }
}

/// The string literals of a Nix file from position `i` on, in order.
pub open spec fn literals_from(s: Seq<char>, i: int) -> Seq<Seq<char>>
    decreases s.len() - i,
{
    if i < 0 || i >= s.len() {
        Seq::empty()
    } else if s[i] == '"' {
        let (v, next) = quoted_literal(s, i + 1, false, Seq::empty());
        if next > i && next <= s.len() {
            seq![v] + literals_from(s, next)
        } else {
            seq![v]
        }
    } else if two_quotes_at(s, i) {
        let (v, next) = indented_literal(s, i + 2, Seq::empty());
        if next > i && next <= s.len() {
            seq![v] + literals_from(s, next)
        } else {
            seq![v]
        }
    } else {
        literals_from(s, i + 1)
    }
}

fn scan_quoted(s: &Vec<char>, start: usize) -> (r: (String, usize))
    requires
        start <= s.len(),
    ensures
        (r.0@, r.1 as int) == quoted_literal(s@, start as int, false, Seq::empty()),
{
    let mut value = String::new();
    let mut i = start;
    let mut escaped = false;
    while i < s.len()
        invariant
            start <= i <= s.len(),
            quoted_literal(s@, start as int, false, Seq::empty()) == quoted_literal(
                s@,
                i as int,
                escaped,
                value@,
            ),
        decreases s.len() - i,
    {
        let c = s[i];
        i = i + 1;
        if escaped {
            push_char(&mut value, c);
            escaped = false;
        } else if c == '\\' {
            escaped = true;
        } else if c == '"' {
            return (value, i);
        } else {
            push_char(&mut value, c);
        }
    }
    (value, i)
}

fn scan_indented(s: &Vec<char>, start: usize) -> (r: (String, usize))
    requires
        start <= s.len(),
    ensures
        (r.0@, r.1 as int) == indented_literal(s@, start as int, Seq::empty()),
{
    let mut value = String::new();
    let mut i = start;
    while i < s.len()
        invariant
            start <= i <= s.len(),
            indented_literal(s@, start as int, Seq::empty()) == indented_literal(s@, i as int, value@),
        decreases s.len() - i,
    {
        if i + 1 < s.len() && s[i] == '\'' && s[i + 1] == '\'' {
            return (value, i + 2);
        }
        push_char(&mut value, s[i]);
        i = i + 1;
    }
    (value, i)
}

/// The text of every `"..."` and `''...''` string literal in a Nix file.
pub fn string_literals(text: &str) -> (r: Vec<String>)
    ensures
        strs(r@) == literals_from(text@, 0),
{
    let s = chars_of(text);
    let mut values: Vec<String> = Vec::new();
    let mut index: usize = 0;
    while index < s.len()
        invariant
            index <= s.len(),
            s@ == text@,
            literals_from(text@, 0) == strs(values@) + literals_from(text@, index as int),
        decreases s.len() - index,
    {
        if s[index] == '"' {
            let (v, next) = scan_quoted(&s, index + 1);
            proof {
                lemma_quoted_advances(s@, index + 1, false, Seq::empty());
            }
            let ghost before = values@;
            values.push(v);
            proof {
                lemma_strs_push(before, v);
            }
            assert(literals_from(text@, index as int) == seq![v@] + literals_from(text@, next as int));
            index = next;
            assert(strs(before) + (seq![v@] + literals_from(text@, index as int)) =~= strs(values@)
                + literals_from(text@, index as int));
        } else if index + 1 < s.len() && s[index] == '\'' && s[index + 1] == '\'' {
            let (v, next) = scan_indented(&s, index + 2);
            proof {
                lemma_indented_advances(s@, index + 2, Seq::empty());
                assert(two_quotes_at(text@, index as int));
            }
            let ghost before = values@;
            values.push(v);
            proof {
                lemma_strs_push(before, v);
            }
            assert(literals_from(text@, index as int) == seq![v@] + literals_from(text@, next as int));
            index = next;
            assert(strs(before) + (seq![v@] + literals_from(text@, index as int)) =~= strs(values@)
                + literals_from(text@, index as int));
        } else {
            index = index + 1;
        }
    }
    assert(strs(values@) + Seq::<Seq<char>>::empty() =~= strs(values@));
    values
}

/// `char::to_ascii_lowercase` over a string.
pub open spec fn ascii_lower(s: Seq<char>) -> Seq<char> {
    s.map_values(|c: char| if 'A' <= c && c <= 'Z' { ((c as u8) + 32) as char } else { c })
}

pub fn to_ascii_lowercase(s: &str) -> (r: String)
    ensures
        r@ == ascii_lower(s@),
{
    let v = chars_of(s);
    let mut r = String::new();
    let mut i: usize = 0;
    while i < v.len()
        invariant
            i <= v.len(),
            v@ == s@,
            r@ == ascii_lower(v@.take(i as int)),
        decreases v.len() - i,
    {
        let c = v[i];
        let l = if 'A' <= c && c <= 'Z' {
            ((c as u8) + 32) as char
        } else {
            c
        };
        push_char(&mut r, l);
        i = i + 1;
        assert(r@ =~= ascii_lower(v@.take(i as int)));
    }
    assert(v@.take(i as int) =~= v@);
    r
}

/// File names that look like keys, certificates or secrets.
pub open spec fn secret_name(name: Seq<char>) -> bool {
    let lower = ascii_lower(name);
    lower == ".env"@ || ends_with(lower, ".key"@) || ends_with(lower, ".pem"@) || ends_with(
        lower,
        ".cert"@,
    ) || ends_with(lower, ".secret"@) || starts_with(lower, "id_rsa"@) || starts_with(
        lower,
        "id_ed25519"@,
    ) || starts_with(lower, "secrets."@)
}

/// Whether a file, by its name, looks like a secret and is left out of an
/// export unless secrets are asked for.
pub fn looks_like_secret(name: &str) -> (r: bool)
    ensures
        r == secret_name(name@),
{
    let lower_s = to_ascii_lowercase(name);
    let lower = lower_s.as_str();
    eq_str(lower, ".env") || ends_with_str(lower, ".key") || ends_with_str(lower, ".pem")
        || ends_with_str(lower, ".cert") || ends_with_str(lower, ".secret") || starts_with_str(
        lower,
        "id_rsa",
    ) || starts_with_str(lower, "id_ed25519") || starts_with_str(lower, "secrets.")
}

/// The path components that are never exported.
pub open spec fn forbidden_name(name: Seq<char>) -> bool {
    name == ".git"@ || name == "node_modules"@ || name == "target"@ || name == ".direnv"@ || name
        == "__pycache__"@
}

pub fn forbidden_component(name: &str) -> (r: bool)
    ensures
        r == forbidden_name(name@),
{
    eq_str(name, ".git") || eq_str(name, "node_modules") || eq_str(name, "target") || eq_str(
        name,
        ".direnv",
    ) || eq_str(name, "__pycache__")
}

/// A literal that may name a file inside the flake: not empty, not
/// absolute, not a URL, not interpolated; a leading `./` is dropped.
pub open spec fn asset_candidate(literal: Seq<char>) -> Option<Seq<char>> {
    let t = trim(literal);
    if t.len() == 0 || starts_with(t, "/"@) || starts_with(t, "http://"@) || starts_with(
        t,
        "https://"@,
    ) || starts_with(t, "git+"@) || contains(t, "${"@) {
        None
    } else if starts_with(t, "./"@) {
        Some(t.skip(2))
    } else {
        Some(t)
    }
}

pub fn asset_reference_candidate(literal: &str) -> (r: Option<String>)
    ensures
        match asset_candidate(literal@) {
            Some(c) => r matches Some(s) && s@ == c,
            None => r is None,
        },
{
    proof {
        reveal_strlit("./");
    }
    let t = trim_str(literal);
    let ts = t.as_str();
    if chars_of(ts).len() == 0 || starts_with_str(ts, "/") || starts_with_str(ts, "http://")
        || starts_with_str(ts, "https://") || starts_with_str(ts, "git+") || contains_str(ts, "${") {
        return None;
    }
    match strip_prefix_str(ts, "./") {
        Some(rest) => Some(rest),
        None => Some(t),
    }
}

/// The restore notes written into an export.
pub open spec fn restore_text(host: Seq<char>) -> Seq<char> {
    "# Restore nr export\n\n1. Copy this archive to the fresh NixOS machine.\n2. Unpack it into the directory that will hold your flake.\n3. Review `MANIFEST.md` and inspect the included files.\n4. If needed, copy the unpacked files into `/etc/nixos` or your chosen flake directory.\n5. Run `nix flake check` from the restored directory.\n6. Run `sudo nixos-rebuild switch --flake .#"@
        + host + "`.\n7. Install `nr`, then use `nr --flake .#"@ + host + " doctor` and `nr --flake .#"@
        + host + " switch` for future changes.\n"@
}

pub fn restore_doc(host: &str) -> (r: String)
    ensures
        r@ == restore_text(host@),
{
    let mut r = "# Restore nr export\n\n1. Copy this archive to the fresh NixOS machine.\n2. Unpack it into the directory that will hold your flake.\n3. Review `MANIFEST.md` and inspect the included files.\n4. If needed, copy the unpacked files into `/etc/nixos` or your chosen flake directory.\n5. Run `nix flake check` from the restored directory.\n6. Run `sudo nixos-rebuild switch --flake .#".to_owned();
    r.append(host);
    r.append("`.\n7. Install `nr`, then use `nr --flake .#");
    r.append(host);
    r.append(" doctor` and `nr --flake .#");
    r.append(host);
    r.append(" switch` for future changes.\n");
    r
}

/// The manifest written into an export: host, NixOS version (`unknown`
/// when blank), time, tool version and the files.
pub fn manifest(host: &str, nixos_version: Option<&str>, exported_at: u64, version: &str, files: &[String]) -> (r: String)
    ensures
        r@ == crate::text::join(
            seq![
                "# nr export manifest"@,
                ""@,
                "- flake host: "@ + host@,
                "- NixOS version: "@ + (match nixos_version {
                    Some(v) => if trim(v@).len() == 0 { "unknown"@ } else { v@ },
                    None => "unknown"@,
                }),
                "- exported at: "@ + crate::text::decimal(exported_at as nat),
                "- nr version: "@ + version@,
                ""@,
                "## Files"@,
            ] + strs(files@).map_values(|f: Seq<char>| "- "@ + f) + seq![
                "- MANIFEST.md"@,
                "- RESTORE.md"@,
                ""@,
            ],
            "\n"@,
        ),
{
    let mut lines: Vec<String> = Vec::new();
    lines.push("# nr export manifest".to_owned());
    lines.push("".to_owned());
    lines.push(concat("- flake host: ", host));
    let nixos: String = match nixos_version {
        Some(v) => if chars_of(trim_str(v).as_str()).len() == 0 {
            "unknown".to_owned()
        } else {
            v.to_owned()
        },
        None => "unknown".to_owned(),
    };
    lines.push(concat("- NixOS version: ", nixos.as_str()));
    lines.push(concat("- exported at: ", u64_to_string(exported_at).as_str()));
    lines.push(concat("- nr version: ", version));
    lines.push("".to_owned());
    lines.push("## Files".to_owned());
    assert(strs(lines@) =~= seq![
        "# nr export manifest"@,
        ""@,
        "- flake host: "@ + host@,
        "- NixOS version: "@ + (match nixos_version {
            Some(v) => if trim(v@).len() == 0 { "unknown"@ } else { v@ },
            None => "unknown"@,
        }),
        "- exported at: "@ + crate::text::decimal(exported_at as nat),
        "- nr version: "@ + version@,
        ""@,
        "## Files"@,
    ]);
    let ghost head = strs(lines@);
    let mut i: usize = 0;
    while i < files.len()
        invariant
            i <= files.len(),
            strs(lines@) == head + strs(files@).take(i as int).map_values(|f: Seq<char>| "- "@ + f),
        decreases files.len() - i,
    {
        let ghost before = lines@;
        let l = concat("- ", files[i].as_str());
        lines.push(l);
        proof {
            lemma_strs_push(before, l);
            assert(strs(files@).take(i + 1) =~= strs(files@).take(i as int).push(strs(files@)[i as int]));
        }
        i = i + 1;
        assert(strs(lines@) =~= head + strs(files@).take(i as int).map_values(|f: Seq<char>| "- "@ + f));
    }
    assert(strs(files@).take(i as int) =~= strs(files@));
    let ghost mid = strs(lines@);
    lines.push("- MANIFEST.md".to_owned());
    lines.push("- RESTORE.md".to_owned());
    lines.push("".to_owned());
    assert(strs(lines@) =~= mid + seq!["- MANIFEST.md"@, "- RESTORE.md"@, ""@]);
    let r = crate::text::join_strings(lines.as_slice(), "\n");
    assert(strs(lines@) =~= seq![
        "# nr export manifest"@,
        ""@,
        "- flake host: "@ + host@,
        "- NixOS version: "@ + (match nixos_version {
            Some(v) => if trim(v@).len() == 0 { "unknown"@ } else { v@ },
            None => "unknown"@,
        }),
        "- exported at: "@ + crate::text::decimal(exported_at as nat),
        "- nr version: "@ + version@,
        ""@,
        "## Files"@,
    ] + strs(files@).map_values(|f: Seq<char>| "- "@ + f) + seq!["- MANIFEST.md"@, "- RESTORE.md"@, ""@]);
    r
}

/// The components of a relative path, split at `/`.
pub open spec fn path_pieces(relative: Seq<char>) -> Seq<Seq<char>> {
    crate::text::split_on(relative, crate::text::sep3('/', '/', '/'))
}

pub open spec fn has_forbidden(relative: Seq<char>) -> bool {
    exists|i: int| 0 <= i < path_pieces(relative).len() && forbidden_name(#[trigger] path_pieces(relative)[i])
}

/// Whether a component of a relative path is one that is never exported.
pub fn has_forbidden_component(relative: &str) -> (r: bool)
    ensures
        r == has_forbidden(relative@),
{
    let v = chars_of(relative);
    let pieces = crate::text::split3(v.as_slice(), '/', '/', '/');
    let mut i: usize = 0;
    while i < pieces.len()
        invariant
            i <= pieces.len(),
            strs(pieces@) == path_pieces(relative@),
            v@ == relative@,
            forall|j: int| 0 <= j < i ==> !forbidden_name(#[trigger] path_pieces(relative@)[j]),
        decreases pieces.len() - i,
    {
        assert(path_pieces(relative@)[i as int] == pieces@[i as int]@);
        if forbidden_component(pieces[i].as_str()) {
            return true;
        }
        i = i + 1;
    }
    false
}

/// Paths inside the Nix store, by their text.
pub open spec fn in_nix_store(path: Seq<char>) -> bool {
    path == "/nix/store"@ || starts_with(path, "/nix/store/"@)
}

pub fn is_under_nix_store(path: &str) -> (r: bool)
    ensures
        r == in_nix_store(path@),
{
    eq_str(path, "/nix/store") || starts_with_str(path, "/nix/store/")
}

/// A name such as `result` or `result-1`, the links `nix build` leaves.
pub open spec fn result_named(relative: Seq<char>) -> bool {
    crate::impact::file_name_spec(relative) matches Some(n) && starts_with(n, "result"@)
}

pub open spec fn secret_path(relative: Seq<char>) -> bool {
    crate::impact::file_name_spec(relative) matches Some(n) && secret_name(n)
}

fn is_result_named(relative: &str) -> (r: bool)
    ensures
        r == result_named(relative@),
{
    match crate::impact::file_name(relative) {
        Some(n) => starts_with_str(n.as_str(), "result"),
        None => false,
    }
}

/// Whether a file goes into an export, given what the file system says of
/// it: it is present and is a file, is not in (or linked into) the Nix store,
/// has no never-exported component, is not a `result` link, and does not
/// look like a secret unless secrets are included.
pub fn include_file(
    relative: &str,
    present: bool,
    under_store: bool,
    links_to_store: bool,
    is_symlink: bool,
    is_file: bool,
    include_secrets: bool,
) -> (r: bool)
    ensures
        r == (present && !under_store && !links_to_store && !has_forbidden(relative@) && !(result_named(
            relative@,
        ) && is_symlink) && (include_secrets || !secret_path(relative@)) && is_file),
{
    if !present || under_store || links_to_store || has_forbidden_component(relative) {
        return false;
    }
    if is_result_named(relative) && is_symlink {
        return false;
    }
    if !include_secrets {
        let secret = match crate::impact::file_name(relative) {
            Some(n) => looks_like_secret(n.as_str()),
            None => false,
        };
        if secret {
            return false;
        }
    }
    is_file
}

/// Whether a directory walk skips an entry altogether.
pub fn should_skip_entry(relative: &str, under_store: bool, is_symlink: bool) -> (r: bool)
    ensures
        r == (has_forbidden(relative@) || under_store || (result_named(relative@) && is_symlink)),
{
    has_forbidden_component(relative) || under_store || (is_result_named(relative) && is_symlink)
}

/// What `nr export --dry-run` prints.
pub fn dry_run_lines(files: &[String]) -> (r: Vec<String>)
    requires
        files@.len() + 2 <= u64::MAX,
    ensures
        strs(r@) == seq!["dry run: files that would be included"@] + strs(files@) + seq![
            "MANIFEST.md"@,
            "RESTORE.md"@,
            crate::text::decimal((files@.len() + 2) as nat) + " files"@,
        ],
{
    let mut r: Vec<String> = Vec::new();
    r.push("dry run: files that would be included".to_owned());
    assert(strs(r@) =~= seq!["dry run: files that would be included"@]);
    crate::text::extend_strings(&mut r, files);
    let ghost mid = strs(r@);
    r.push("MANIFEST.md".to_owned());
    r.push("RESTORE.md".to_owned());
    let n: u64 = files.len() as u64 + 2;
    assert(n as nat == (files@.len() + 2) as nat);
    let mut count = u64_to_string(n);
    count.append(" files");
    let ghost before = r@;
    r.push(count);
    proof {
        lemma_strs_push(before, count);
        assert(strs(r@) =~= mid + seq!["MANIFEST.md"@, "RESTORE.md"@, count@]);
    }
    assert(strs(r@) =~= seq!["dry run: files that would be included"@] + strs(files@) + seq![
        "MANIFEST.md"@,
        "RESTORE.md"@,
        crate::text::decimal((files@.len() + 2) as nat) + " files"@,
    ]);
    r
}

/// The last line of an export.
pub fn exported_line(files: usize, size: u64, output: &str) -> (r: String)
    requires
        files + 2 <= u64::MAX,
    ensures
        r@ == "exported "@ + crate::text::decimal((files + 2) as nat) + " files, "@ + crate::text::decimal(
            size as nat,
        ) + " bytes: "@ + output@,
{
    let mut r = "exported ".to_owned();
    crate::text::push_decimal(&mut r, files as u64 + 2);
    r.append(" files, ");
    crate::text::push_decimal(&mut r, size);
    r.append(" bytes: ");
    r.append(output);
    r
}

} // verus!
