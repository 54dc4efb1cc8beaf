//! A scanner for version-control working directories: it walks a tree to
//! find repository roots, queries each one's synchronization state, and
//! reports the paths matching the user's selection (dirty, ahead, behind, or
//! all). This crate holds the verified pipeline logic — discovery
//! classification, status interpretation, worker-pool admission, selection
//! and emission — while the thin unverified shell around it does the
//! filesystem walk, spawns the external tool, and prints.

pub mod filter;
pub mod interpret;
pub mod pool;
pub mod record;
pub mod root;
pub mod walker;

use vstd::prelude::*;

verus! {

/// Default number of concurrent worker slots in the dispatcher pool.
pub const WORKERS: usize = 8;

/// Over a whole run the collector emits at most one line per completed
/// record, and no path that the walk did not discover, whatever order the
/// workers completed in.
pub proof fn lemma_collector_respects_walker(
    sel: filter::Selection,
    evs: Seq<walker::WalkEvent>,
    rs: Seq<record::Gsr>,
)
    requires
        forall|i: int| 0 <= i < rs.len()
            ==> walker::discovered(evs).contains(#[trigger] rs[i].pb@),
    ensures
        filter::emitted(sel, rs).len() <= rs.len(),
        forall|x: Seq<u8>| #[trigger] filter::emitted(sel, rs).contains(x)
            ==> walker::discovered(evs).contains(x),
{
    filter::lemma_emitted_bounded(sel, rs);
    assert forall|x: Seq<u8>| #[trigger] filter::emitted(sel, rs).contains(x)
        implies walker::discovered(evs).contains(x) by {
        let n = choose|n: int|
            0 <= n < filter::emitted(sel, rs).len() && filter::emitted(sel, rs)[n] == x;
        let i = choose|i: int| 0 <= i < rs.len() && filter::emitted(sel, rs)[n] == rs[i].pb@;
        assert(walker::discovered(evs).contains(rs[i].pb@));
    }
}

} // verus!
