//! The platform value and the separator conversion that file paths go
//! through before the operating system sees them.

use vstd::prelude::*;

verus! {

/// The platform the program runs on.
#[derive(Debug, Clone, Copy, PartialEq, Eq, Structural)]
pub struct Platform;

impl Platform {
    /// The platform.
    pub fn new() -> (r: Self)
        ensures
            r == Platform,
    {
        Platform
    }
}

impl Default for Platform {
    fn default() -> (r: Self)
        ensures
            r == Platform,
    {
        Platform::new()
    }
}

/// A path with every separator of the other convention replaced: on
/// Windows '/' becomes '\\', elsewhere '\\' becomes '/'.
pub open spec fn normalized(path: Seq<char>, windows: bool) -> Seq<char> {
    path.map_values(|c: char| if windows && c == '/' { '\\' } else if !windows && c == '\\' { '/' } else { c })
}

/// Convert the separators of a path (see `normalized`).
pub fn normalize_separators(path: &str, windows: bool) -> (r: String)
    ensures
        r@ == normalized(path@, windows),
{
    let n = path.unicode_len();
    let mut out = String::new();
    let mut i: usize = 0;
    while i < n
        invariant
            n == path@.len(),
            i <= n,
            out@ == normalized(path@.take(i as int), windows),
        decreases n - i,
    {
        let c = path.get_char(i);
        let d = if windows && c == '/' {
            '\\'
        } else if !windows && c == '\\' {
            '/'
        } else {
            c
        };
        crate::text::string_push(&mut out, d);
        proof {
            assert(path@.take(i + 1) =~= path@.take(i as int).push(c));
            assert(out@ =~= normalized(path@.take(i + 1), windows));
        }
        i = i + 1;
    }
    assert(path@.take(n as int) =~= path@);
    out
}

} // verus!
