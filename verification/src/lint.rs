use vstd::prelude::*;

use crate::text::concat;

verus! {

/// The line shown for a linted file.
pub fn lint_line(passed: bool, file: &str) -> (r: String)
    ensures
        r@ == (if passed { "✓ "@ } else { "✗ "@ }) + file@,
{
    if passed {
        concat("✓ ", file)
    } else {
        concat("✗ ", file)
    }
}

/// `nr lint` fails when any file failed.
pub fn lint_exit_code(failed: bool) -> (r: i32)
    ensures
        r == (if failed { 1i32 } else { 0i32 }),
{
    if failed {
        1
    } else {
        0
    }
}

} // verus!
