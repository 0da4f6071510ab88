//! The version of the program, read from its manifest.

use vstd::prelude::*;
use crate::text::{split, split_spec, starts_with, copy_str, views};

verus! {

/// Whether `s` begins with `prefix`.
pub open spec fn starts_with_spec(s: Seq<char>, prefix: Seq<char>) -> bool {
    prefix.len() <= s.len() && s.take(prefix.len() as int) == prefix
}

/// The version given by the first of `lines` that begins with `version`:
/// what stands between its first and second `"`, or `0.1.0` when it has no
/// `"`; `0.1.0` when no line begins with `version`.
pub open spec fn version_in_lines(lines: Seq<Seq<char>>) -> Seq<char>
    decreases lines.len(),
{
    if lines.len() == 0 {
        "0.1.0"@
    } else if starts_with_spec(lines[0], "version"@) {
        let pieces = split_spec(lines[0], '"');
        if pieces.len() > 1 {
            pieces[1]
        } else {
            "0.1.0"@
        }
    } else {
        version_in_lines(lines.drop_first())
    }
}

/// The version that a Cargo manifest's text declares.
pub open spec fn version_spec(toml: Seq<char>) -> Seq<char> {
    version_in_lines(split_spec(toml, '\n'))
}

/// Helpers about the program itself.
pub struct KyaniteUtility;

impl KyaniteUtility {
    /// The version declared in `toml`, the text of a Cargo manifest: from
    /// the first line that begins with `version`, the text between its first
    /// two `"`; `0.1.0` when there is none.
    pub fn version(toml: &str) -> (r: String)
        ensures
            r@ == version_spec(toml@),
    {
        let lines = split(toml, '\n');
        let ghost all = views(lines@);
        let n = lines.len();
        let mut i: usize = 0;
        assert(all.skip(0) =~= all);
        while i < n
            invariant
                n == lines@.len(),
                all == views(lines@),
                all == split_spec(toml@, '\n'),
                i <= n,
                version_in_lines(all.skip(i as int)) == version_spec(toml@),
            decreases n - i,
        {
            let line = lines[i].as_str();
            assert(all.skip(i as int)[0] == line@);
            if starts_with(line, "version") {
                let pieces = split(line, '"');
                if pieces.len() > 1 {
                    return pieces[1].clone();
                } else {
                    return copy_str("0.1.0");
                }
            }
            assert(all.skip(i as int).drop_first() =~= all.skip(i + 1));
            i = i + 1;
        }
        copy_str("0.1.0")
    }
}

} // verus!
