//! Status interpreter: decides the `ahead` / `behind` flags from the raw
//! status text by looking for a marker word inside a bracketed tracking
//! annotation, all on one line (for instance a line holding `[ahead 2]`).

use vstd::prelude::*;

verus! {

/// Line feed, the byte that ends a line of status output.
pub const NEWLINE: u8 = 10;

/// The byte `[`, opening a tracking annotation.
pub const OPEN_BRACKET: u8 = 91;

/// The byte `]`, closing a tracking annotation.
pub const CLOSE_BRACKET: u8 = 93;

/// The marker word `ahead`, as bytes.
pub open spec fn ahead_marker() -> Seq<u8> {
    seq![97u8, 104u8, 101u8, 97u8, 100u8]
}

/// The marker word `behind`, as bytes.
pub open spec fn behind_marker() -> Seq<u8> {
    seq![98u8, 101u8, 104u8, 105u8, 110u8, 100u8]
}

/// `pat` occurs in `s` starting at index `j`.
pub open spec fn occurs_at(s: Seq<u8>, pat: Seq<u8>, j: int) -> bool {
    0 <= j && j + pat.len() <= s.len() && s.subrange(j, j + pat.len() as int) == pat
}

/// No line break anywhere in `s[lo ..= hi]`.
pub open spec fn no_newline_between(s: Seq<u8>, lo: int, hi: int) -> bool {
    forall|t: int| lo <= t <= hi ==> s[t] != NEWLINE
}

/// Indices `i < j <= k` witness a bracketed occurrence of `pat`: an opening
/// bracket at `i`, the marker at `j`, a closing bracket at `k`, all on one line.
pub open spec fn witness_at(s: Seq<u8>, pat: Seq<u8>, i: int, j: int, k: int) -> bool {
    &&& 0 <= i < j
    &&& j + pat.len() <= k < s.len()
    &&& s[i] == OPEN_BRACKET
    &&& s[k] == CLOSE_BRACKET
    &&& occurs_at(s, pat, j)
    &&& no_newline_between(s, i, k)
}

/// Some bracketed occurrence of `pat` starts at index `lo` or later.
pub open spec fn bracketed_from(s: Seq<u8>, pat: Seq<u8>, lo: int) -> bool {
    exists|i: int, j: int, k: int| lo <= i && #[trigger] witness_at(s, pat, i, j, k)
}

/// The text `s` holds `pat` inside a bracketed annotation on one line.
pub open spec fn bracketed(s: Seq<u8>, pat: Seq<u8>) -> bool {
    bracketed_from(s, pat, 0)
}

/// Some bracketed occurrence of `pat` lies wholly inside `s[lo .. hi]`.
pub open spec fn witness_within(s: Seq<u8>, pat: Seq<u8>, lo: int, hi: int) -> bool {
    exists|i: int, j: int, k: int|
        lo <= i && k < hi && #[trigger] witness_at(s, pat, i, j, k)
}

/// First index of byte `b` in `s[from .. to]`, if any.
fn find_byte(s: &Vec<u8>, b: u8, from: usize, to: usize) -> (r: Option<usize>)
    requires
        from <= to <= s@.len(),
    ensures
        match r {
            Some(x) => {
                &&& from <= x < to
                &&& s@[x as int] == b
                &&& forall|t: int| from <= t < x ==> s@[t] != b
            },
            None => forall|t: int| from <= t < to ==> s@[t] != b,
        },
{
    let mut x = from;
    while x < to
        invariant
            from <= x <= to <= s@.len(),
            forall|t: int| from <= t < x ==> s@[t] != b,
        decreases to - x,
    {
        if s[x] == b {
            return Some(x);
        }
        x = x + 1;
    }
    None
}

/// Whether `pat` occurs in `s` starting exactly at `j`.
fn occurs_here(s: &Vec<u8>, pat: &Vec<u8>, j: usize) -> (r: bool)
    requires
        j + pat@.len() <= s@.len(),
    ensures
        r == occurs_at(s@, pat@, j as int),
{
    let slen: usize = s.len();
    let mut n: usize = 0;
    while n < pat.len()
        invariant
            n <= pat@.len(),
            j + pat@.len() <= s@.len(),
            s@.len() == slen,
            forall|t: int| 0 <= t < n ==> s@[j + t] == pat@[t],
        decreases pat@.len() - n,
    {
        if s[j + n] != pat[n] {
            assert(s@.subrange(j as int, j + pat@.len() as int)[n as int] != pat@[n as int]);
            return false;
        }
        n = n + 1;
    }
    assert(s@.subrange(j as int, j + pat@.len() as int) =~= pat@);
    true
}

/// First index `j` at `from` or later with `j + pat.len() <= to` where `pat`
/// occurs, if any.
fn find_pat(s: &Vec<u8>, pat: &Vec<u8>, from: usize, to: usize) -> (r: Option<usize>)
    requires
        from <= to <= s@.len(),
        pat@.len() >= 1,
    ensures
        match r {
            Some(j) => {
                &&& from <= j && j + pat@.len() <= to
                &&& occurs_at(s@, pat@, j as int)
                &&& forall|t: int|
                    from <= t < j && t + pat@.len() <= to ==> !occurs_at(s@, pat@, t)
            },
            None => forall|t: int|
                from <= t && t + pat@.len() <= to ==> !occurs_at(s@, pat@, t),
        },
{
    if pat.len() > to {
        return None;
    }
    let mut j = from;
    while j <= to - pat.len()
        invariant
            from <= j,
            from <= to <= s@.len(),
            1 <= pat@.len() <= to,
            forall|t: int| from <= t < j && t + pat@.len() <= to ==> !occurs_at(s@, pat@, t),
        decreases to - j,
    {
        if occurs_here(s, pat, j) {
            return Some(j);
        }
        j = j + 1;
    }
    None
}

/// Whether a bracketed occurrence of `pat` lies wholly inside the single line
/// `s[lo .. hi]`.
fn line_bracketed(s: &Vec<u8>, pat: &Vec<u8>, lo: usize, hi: usize) -> (r: bool)
    requires
        lo <= hi <= s@.len(),
        pat@.len() >= 1,
        forall|t: int| lo <= t < hi ==> s@[t] != NEWLINE,
    ensures
        r == witness_within(s@, pat@, lo as int, hi as int),
{
    let i = match find_byte(s, OPEN_BRACKET, lo, hi) {
        Some(i) => i,
        None => {
            proof {
                assert forall|i: int, j: int, k: int|
                    lo <= i && k < hi && #[trigger] witness_at(s@, pat@, i, j, k)
                    implies false by {
                    assert(lo <= i < hi && s@[i] == OPEN_BRACKET);
                }
            }
            return false;
        },
    };
    let j = match find_pat(s, pat, i + 1, hi) {
        Some(j) => j,
        None => {
            proof {
                assert forall|iw: int, jw: int, kw: int|
                    lo <= iw && kw < hi && #[trigger] witness_at(s@, pat@, iw, jw, kw)
                    implies false by {
                    // The first opening bracket on the line sits at or before iw,
                    // so the marker occurrence jw lies in the searched window.
                    assert(lo <= iw < hi && s@[iw] == OPEN_BRACKET);
                    assert(i <= iw);
                    assert(i + 1 <= jw && jw + pat@.len() <= hi);
                    assert(occurs_at(s@, pat@, jw));
                }
            }
            return false;
        },
    };
    match find_byte(s, CLOSE_BRACKET, j + pat.len(), hi) {
        Some(k) => {
            proof {
                assert(witness_at(s@, pat@, i as int, j as int, k as int));
            }
            true
        },
        None => {
            proof {
                assert forall|iw: int, jw: int, kw: int|
                    lo <= iw && kw < hi && #[trigger] witness_at(s@, pat@, iw, jw, kw)
                    implies false by {
                    // The closing bracket kw would lie in the searched window,
                    // since the found marker at j is the earliest possible one.
                    assert(lo <= iw < hi && s@[iw] == OPEN_BRACKET);
                    assert(i <= iw);
                    assert(i + 1 <= jw && jw + pat@.len() <= hi);
                    assert(occurs_at(s@, pat@, jw));
                    assert(j <= jw);
                    assert(j + pat@.len() <= kw < hi && s@[kw] == CLOSE_BRACKET);
                }
            }
            false
        },
    }
}

/// Whether some line of `s` holds `pat` between an opening and a closing
/// bracket. This is the grammar of the tracking annotation: the whole
/// bracketed group, marker included, must sit on a single line.
pub fn contains_bracketed(s: &Vec<u8>, pat: &Vec<u8>) -> (r: bool)
    requires
        pat@.len() >= 1,
        forall|t: int| 0 <= t < pat@.len() ==> pat@[t] != NEWLINE,
    ensures
        r == bracketed(s@, pat@),
{
    let mut lo: usize = 0;
    loop
        invariant
            lo <= s@.len(),
            pat@.len() >= 1,
            bracketed(s@, pat@) == bracketed_from(s@, pat@, lo as int),
        decreases s@.len() - lo,
    {
        if lo >= s.len() {
            proof {
                assert forall|i: int, j: int, k: int|
                    lo <= i implies !(#[trigger] witness_at(s@, pat@, i, j, k)) by {}
            }
            return false;
        }
        let hi = match find_byte(s, NEWLINE, lo, s.len()) {
            Some(h) => h,
            None => s.len(),
        };
        // The current line is s[lo .. hi].
        if line_bracketed(s, pat, lo, hi) {
            proof {
                let (i, j, k) = choose|i: int, j: int, k: int|
                    lo <= i && k < hi && #[trigger] witness_at(s@, pat@, i, j, k);
                assert(witness_at(s@, pat@, i, j, k));
            }
            return true;
        }
        // No occurrence starts on this line: any witness starts past hi.
        proof {
            assert forall|i: int, j: int, k: int|
                lo <= i && #[trigger] witness_at(s@, pat@, i, j, k)
                implies hi + 1 <= i by {
                if k < hi {
                    assert(witness_within(s@, pat@, lo as int, hi as int));
                    assert(false);
                } else if i <= hi {
                    // The annotation would cross the line break at hi.
                    assert(hi < s@.len() && s@[hi as int] == NEWLINE);
                    assert(i <= hi <= k);
                    assert(false);
                }
            }
            assert(bracketed_from(s@, pat@, lo as int) ==> bracketed_from(s@, pat@, hi + 1)) by {
                if bracketed_from(s@, pat@, lo as int) {
                    let (i, j, k) = choose|i: int, j: int, k: int|
                        lo <= i && #[trigger] witness_at(s@, pat@, i, j, k);
                    assert(witness_at(s@, pat@, i, j, k));
                    assert(hi + 1 <= i);
                }
            }
            assert(bracketed_from(s@, pat@, hi + 1) ==> bracketed_from(s@, pat@, lo as int)) by {
                if bracketed_from(s@, pat@, hi + 1) {
                    let (i, j, k) = choose|i: int, j: int, k: int|
                        hi + 1 <= i && #[trigger] witness_at(s@, pat@, i, j, k);
                    assert(witness_at(s@, pat@, i, j, k));
                    assert(lo as int <= i);
                }
            }
        }
        if hi >= s.len() {
            proof {
                assert forall|i: int, j: int, k: int|
                    hi + 1 <= i implies !(#[trigger] witness_at(s@, pat@, i, j, k)) by {}
            }
            return false;
        }
        lo = hi + 1;
    }
}

/// The marker word `ahead` as a byte vector.
pub fn ahead_pattern() -> (p: Vec<u8>)
    ensures
        p@ == ahead_marker(),
{
    let mut p: Vec<u8> = Vec::new();
    p.push(97u8);
    p.push(104u8);
    p.push(101u8);
    p.push(97u8);
    p.push(100u8);
    proof {
        assert(p@ =~= ahead_marker());
    }
    p
}

/// The marker word `behind` as a byte vector.
pub fn behind_pattern() -> (p: Vec<u8>)
    ensures
        p@ == behind_marker(),
{
    let mut p: Vec<u8> = Vec::new();
    p.push(98u8);
    p.push(101u8);
    p.push(104u8);
    p.push(105u8);
    p.push(110u8);
    p.push(100u8);
    proof {
        assert(p@ =~= behind_marker());
    }
    p
}

} // verus!
