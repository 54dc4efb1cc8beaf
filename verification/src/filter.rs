//! Result collector and filter: applies the user's selection predicate to
//! each completed record and emits the matching paths in arrival order.

use vstd::prelude::*;
use crate::record::Gsr;

verus! {

/// The user's selection, fixed once for a whole run.
#[derive(Debug, Clone, Copy)]
pub struct Selection {
    /// Print every repository regardless of status.
    pub all: bool,
    /// Also include repositories ahead of their remote.
    pub ahead: bool,
    /// Also include repositories behind their remote.
    pub behind: bool,
}

/// Whether a record matches the selection. The branches mirror the run's
/// decision order: `all` first, then dirty, then each requested flag.
pub open spec fn selected(sel: Selection, g: Gsr) -> bool {
    if sel.all {
        true
    } else if g.df {
        true
    } else if sel.ahead && g.ahead {
        true
    } else if sel.behind && g.behind {
        true
    } else {
        false
    }
}

/// The paths emitted for a run: one per matching record, in arrival order.
pub open spec fn emitted(sel: Selection, rs: Seq<Gsr>) -> Seq<Seq<u8>>
    decreases rs.len(),
{
    if rs.len() == 0 {
        Seq::empty()
    } else {
        let rest = emitted(sel, rs.drop_last());
        if selected(sel, rs.last()) {
            rest.push(rs.last().pb@)
        } else {
            rest
        }
    }
}

/// Whether one record matches the selection.
pub fn matches_selection(sel: &Selection, g: &Gsr) -> (r: bool)
    ensures
        r == selected(*sel, *g),
{
    if sel.all {
        true
    } else if g.df {
        true
    } else if sel.ahead && g.ahead {
        true
    } else if sel.behind && g.behind {
        true
    } else {
        false
    }
}

/// Collects the paths of the matching records, in arrival order.
pub fn collect_matching(sel: &Selection, records: Vec<Gsr>) -> (out: Vec<Vec<u8>>)
    ensures
        out@.map_values(|p: Vec<u8>| p@) == emitted(*sel, records@),
{
    let mut out: Vec<Vec<u8>> = Vec::new();
    let mut n: usize = 0;
    while n < records.len()
        invariant
            n <= records@.len(),
            out@.map_values(|p: Vec<u8>| p@) == emitted(*sel, records@.take(n as int)),
        decreases records@.len() - n,
    {
        proof {
            assert(records@.take(n + 1).drop_last() =~= records@.take(n as int));
            assert(records@.take(n + 1).last() == records@[n as int]);
        }
        let g = &records[n];
        if matches_selection(sel, g) {
            let p = g.pb.clone();
            out.push(p);
            proof {
                assert(out@.map_values(|p: Vec<u8>| p@)
                    =~= emitted(*sel, records@.take(n + 1)));
            }
        }
        n = n + 1;
    }
    proof {
        assert(records@.take(records@.len() as int) =~= records@);
    }
    out
}

/// The collector emits at most one line per record, and emits no path that
/// did not come in as the path of some record.
pub proof fn lemma_emitted_bounded(sel: Selection, rs: Seq<Gsr>)
    ensures
        emitted(sel, rs).len() <= rs.len(),
        forall|x: int| 0 <= x < emitted(sel, rs).len()
            ==> exists|i: int| 0 <= i < rs.len() && #[trigger] emitted(sel, rs)[x] == rs[i].pb@,
    decreases rs.len(),
{
    if rs.len() > 0 {
        lemma_emitted_bounded(sel, rs.drop_last());
        let rest = emitted(sel, rs.drop_last());
        assert forall|x: int| 0 <= x < emitted(sel, rs).len()
            implies exists|i: int|
                0 <= i < rs.len() && #[trigger] emitted(sel, rs)[x] == rs[i].pb@ by {
            if x < rest.len() {
                let i = choose|i: int|
                    0 <= i < rs.drop_last().len() && rest[x] == rs.drop_last()[i].pb@;
                assert(rs[i] == rs.drop_last()[i]);
                assert(emitted(sel, rs)[x] == rs[i].pb@);
            } else {
                assert(selected(sel, rs.last()));
                assert(emitted(sel, rs)[x] == rs[rs.len() - 1].pb@);
            }
        }
    }
}

/// A path is emitted exactly when some record carries it and matches the
/// selection.
pub proof fn lemma_emitted_characterization(sel: Selection, rs: Seq<Gsr>, p: Seq<u8>)
    ensures
        emitted(sel, rs).contains(p)
            <==> exists|i: int|
                0 <= i < rs.len() && #[trigger] selected(sel, rs[i]) && rs[i].pb@ == p,
    decreases rs.len(),
{
    if rs.len() > 0 {
        lemma_emitted_characterization(sel, rs.drop_last(), p);
        let rest = emitted(sel, rs.drop_last());
        if emitted(sel, rs).contains(p) {
            let x = choose|x: int| 0 <= x < emitted(sel, rs).len() && emitted(sel, rs)[x] == p;
            if x < rest.len() {
                assert(rest.contains(p));
                let i = choose|i: int|
                    0 <= i < rs.drop_last().len() && #[trigger] selected(sel, rs.drop_last()[i])
                        && rs.drop_last()[i].pb@ == p;
                assert(rs[i] == rs.drop_last()[i]);
                assert(selected(sel, rs[i]) && rs[i].pb@ == p);
            } else {
                assert(selected(sel, rs[rs.len() - 1]) && rs[rs.len() - 1].pb@ == p);
            }
        }
        if exists|i: int|
            0 <= i < rs.len() && #[trigger] selected(sel, rs[i]) && rs[i].pb@ == p {
            let i = choose|i: int|
                0 <= i < rs.len() && #[trigger] selected(sel, rs[i]) && rs[i].pb@ == p;
            if i < rs.len() - 1 {
                assert(rs.drop_last()[i] == rs[i]);
                assert(selected(sel, rs.drop_last()[i]) && rs.drop_last()[i].pb@ == p);
                assert(rest.contains(p));
                let x = choose|x: int| 0 <= x < rest.len() && rest[x] == p;
                assert(emitted(sel, rs)[x] == p);
            } else {
                assert(emitted(sel, rs).last() == p);
            }
        }
    }
}

/// With `all` set, the output is the full list of discovered paths,
/// independent of any status flag.
pub proof fn lemma_all_emits_every_path(sel: Selection, rs: Seq<Gsr>)
    requires
        sel.all,
    ensures
        emitted(sel, rs) == rs.map_values(|g: Gsr| g.pb@),
    decreases rs.len(),
{
    if rs.len() == 0 {
        assert(emitted(sel, rs) =~= rs.map_values(|g: Gsr| g.pb@));
    } else {
        lemma_all_emits_every_path(sel, rs.drop_last());
        assert(emitted(sel, rs) =~= rs.map_values(|g: Gsr| g.pb@));
    }
}

/// With no flag set, a record matches exactly when its working tree is dirty.
pub proof fn lemma_default_selects_dirty(sel: Selection, g: Gsr)
    requires
        !sel.all,
        !sel.ahead,
        !sel.behind,
    ensures
        selected(sel, g) == g.df,
{
}

/// With only the ahead flag added to the default, a record matches exactly
/// when it is dirty or ahead: the branches are additive.
pub proof fn lemma_ahead_is_additive(sel: Selection, g: Gsr)
    requires
        !sel.all,
        sel.ahead,
        !sel.behind,
    ensures
        selected(sel, g) == (g.df || g.ahead),
{
}

/// With no flag set, the output is exactly the set of paths of the dirty
/// records.
pub proof fn lemma_default_output_is_dirty_set(sel: Selection, rs: Seq<Gsr>, p: Seq<u8>)
    requires
        !sel.all,
        !sel.ahead,
        !sel.behind,
    ensures
        emitted(sel, rs).contains(p)
            <==> exists|i: int| 0 <= i < rs.len() && (#[trigger] rs[i].pb@) == p && rs[i].df,
{
    lemma_emitted_characterization(sel, rs, p);
    if emitted(sel, rs).contains(p) {
        let i = choose|i: int|
            0 <= i < rs.len() && #[trigger] selected(sel, rs[i]) && rs[i].pb@ == p;
        assert(rs[i].pb@ == p && rs[i].df);
    }
    if exists|i: int| 0 <= i < rs.len() && (#[trigger] rs[i].pb@) == p && rs[i].df {
        let i = choose|i: int| 0 <= i < rs.len() && (#[trigger] rs[i].pb@) == p && rs[i].df;
        assert(selected(sel, rs[i]));
    }
}

/// With only the ahead flag added to the default, the output is exactly the
/// set of paths of the records that are dirty or ahead.
pub proof fn lemma_ahead_output_is_dirty_or_ahead_set(sel: Selection, rs: Seq<Gsr>, p: Seq<u8>)
    requires
        !sel.all,
        sel.ahead,
        !sel.behind,
    ensures
        emitted(sel, rs).contains(p)
            <==> exists|i: int|
                0 <= i < rs.len() && (#[trigger] rs[i].pb@) == p && (rs[i].df || rs[i].ahead),
{
    lemma_emitted_characterization(sel, rs, p);
    if emitted(sel, rs).contains(p) {
        let i = choose|i: int|
            0 <= i < rs.len() && #[trigger] selected(sel, rs[i]) && rs[i].pb@ == p;
        assert(rs[i].pb@ == p && (rs[i].df || rs[i].ahead));
    }
    if exists|i: int|
        0 <= i < rs.len() && (#[trigger] rs[i].pb@) == p && (rs[i].df || rs[i].ahead) {
        let i = choose|i: int|
            0 <= i < rs.len() && (#[trigger] rs[i].pb@) == p && (rs[i].df || rs[i].ahead);
        assert(selected(sel, rs[i]));
    }
}

/// Two runs over the same records, however reordered by completion, emit the
/// same set of paths under the same selection.
pub proof fn lemma_same_records_same_output_set(sel: Selection, rs1: Seq<Gsr>, rs2: Seq<Gsr>)
    requires
        rs1.to_multiset() == rs2.to_multiset(),
    ensures
        emitted(sel, rs1).to_set() == emitted(sel, rs2).to_set(),
{
    rs1.to_multiset_ensures();
    rs2.to_multiset_ensures();
    assert forall|p: Seq<u8>| #[trigger] emitted(sel, rs1).to_set().contains(p)
        implies emitted(sel, rs2).to_set().contains(p) by {
        lemma_emitted_characterization(sel, rs1, p);
        lemma_emitted_characterization(sel, rs2, p);
        let i = choose|i: int|
            0 <= i < rs1.len() && #[trigger] selected(sel, rs1[i]) && rs1[i].pb@ == p;
        assert(rs1.contains(rs1[i]));
        assert(rs2.to_multiset().count(rs1[i]) > 0);
        assert(rs2.contains(rs1[i]));
        let j = choose|j: int| 0 <= j < rs2.len() && rs2[j] == rs1[i];
        assert(selected(sel, rs2[j]) && rs2[j].pb@ == p);
        assert(emitted(sel, rs2).contains(p));
    }
    assert forall|p: Seq<u8>| #[trigger] emitted(sel, rs2).to_set().contains(p)
        implies emitted(sel, rs1).to_set().contains(p) by {
        lemma_emitted_characterization(sel, rs1, p);
        lemma_emitted_characterization(sel, rs2, p);
        let i = choose|i: int|
            0 <= i < rs2.len() && #[trigger] selected(sel, rs2[i]) && rs2[i].pb@ == p;
        assert(rs2.contains(rs2[i]));
        assert(rs1.to_multiset().count(rs2[i]) > 0);
        assert(rs1.contains(rs2[i]));
        let j = choose|j: int| 0 <= j < rs1.len() && rs1[j] == rs2[i];
        assert(selected(sel, rs1[j]) && rs1[j].pb@ == p);
        assert(emitted(sel, rs1).contains(p));
    }
    assert(emitted(sel, rs1).to_set() =~= emitted(sel, rs2).to_set());
}

} // verus!
