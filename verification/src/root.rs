//! Root resolution: decides which directory a run scans. A given path wins;
//! otherwise the root locator's captured output, trimmed of trailing
//! whitespace, is the root; with neither, the current directory stands in.

use vstd::prelude::*;

verus! {

/// Whether a byte is whitespace at the end of a captured line: space,
/// horizontal tab, line feed, vertical tab, form feed or carriage return.
pub open spec fn is_space(b: u8) -> bool {
    b == 32 || b == 9 || b == 10 || b == 11 || b == 12 || b == 13
}

/// `s` with every trailing whitespace byte removed.
pub open spec fn trimmed_end(s: Seq<u8>) -> Seq<u8>
    decreases s.len(),
{
    if s.len() > 0 && is_space(s.last()) {
        trimmed_end(s.drop_last())
    } else {
        s
    }
}

/// Removes the trailing whitespace bytes of `s`.
pub fn trim_end_spaces(s: Vec<u8>) -> (r: Vec<u8>)
    ensures
        r@ == trimmed_end(s@),
{
    let mut r = s;
    loop
        invariant
            trimmed_end(r@) == trimmed_end(s@),
        decreases r@.len(),
    {
        if r.len() == 0 {
            return r;
        }
        let b = r[r.len() - 1];
        if b == 32 || b == 9 || b == 10 || b == 11 || b == 12 || b == 13 {
            r.pop();
        } else {
            return r;
        }
    }
}

/// The root a run scans: the given path if there is one, else the locator's
/// output trimmed of trailing whitespace, else the current directory.
pub fn resolve_root(input: Option<Vec<u8>>, locator_output: Option<Vec<u8>>) -> (r: Vec<u8>)
    ensures
        match input {
            Some(p) => r@ == p@,
            None => match locator_output {
                Some(out) => r@ == trimmed_end(out@),
                None => r@ == seq![46u8],
            },
        },
{
    match input {
        Some(p) => p,
        None => match locator_output {
            Some(out) => trim_end_spaces(out),
            None => {
                let mut dot: Vec<u8> = Vec::new();
                dot.push(46u8);
                proof {
                    assert(dot@ =~= seq![46u8]);
                }
                dot
            },
        },
    }
}

} // verus!
