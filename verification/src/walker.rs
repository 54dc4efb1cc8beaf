//! Tree walker classification: decides, for each entry the filesystem walk
//! yields, whether it marks a repository root. An entry marks one when it is
//! a directory whose name is exactly the reserved marker name; the root is
//! that entry's parent. An unreadable entry is reported and skipped; it never
//! stops the walk.

use vstd::prelude::*;
use crate::record::Gsr;

verus! {

/// The reserved marker name `.git`, as bytes.
pub open spec fn marker_name() -> Seq<u8> {
    seq![46u8, 103u8, 105u8, 116u8]
}

/// One entry the walk yielded: either a readable entry with its name and the
/// path of its parent directory, or one the walk could not read.
#[derive(Debug, Clone)]
pub enum WalkEvent {
    /// A readable directory entry.
    Entry { name: Vec<u8>, parent: Vec<u8>, is_dir: bool },
    /// An entry the walk failed to read; it is reported and skipped.
    Failure,
}

/// The repository root an event discovers, if any: the parent of a directory
/// entry named like the marker.
pub open spec fn event_discovers(ev: WalkEvent) -> Option<Seq<u8>> {
    match ev {
        WalkEvent::Entry { name, parent, is_dir } => {
            if is_dir && name@ == marker_name() {
                Some(parent@)
            } else {
                None
            }
        },
        WalkEvent::Failure => None,
    }
}

/// The repository roots a stream of events discovers, in stream order.
pub open spec fn discovered(evs: Seq<WalkEvent>) -> Seq<Seq<u8>>
    decreases evs.len(),
{
    if evs.len() == 0 {
        Seq::empty()
    } else {
        let rest = discovered(evs.drop_last());
        match event_discovers(evs.last()) {
            Some(p) => rest.push(p),
            None => rest,
        }
    }
}

/// Whether an entry marks a repository root.
pub fn is_marker(name: &Vec<u8>, is_dir: bool) -> (r: bool)
    ensures
        r == (is_dir && name@ == marker_name()),
{
    if !is_dir {
        return false;
    }
    if name.len() != 4 {
        proof {
            assert(name@ != marker_name());
        }
        return false;
    }
    let r = name[0] == 46u8 && name[1] == 103u8 && name[2] == 105u8 && name[3] == 116u8;
    proof {
        if r {
            assert(name@ =~= marker_name());
        } else {
            assert(name@ != marker_name());
        }
    }
    r
}

/// The fresh record one event gives rise to, if it discovers a repository.
pub fn classify(ev: &WalkEvent) -> (r: Option<Gsr>)
    ensures
        match r {
            Some(g) => {
                &&& event_discovers(*ev) == Some(g.pb@)
                &&& g.df == false
                &&& g.st is None
                &&& g.ahead == false
                &&& g.behind == false
            },
            None => event_discovers(*ev) is None,
        },
{
    match ev {
        WalkEvent::Entry { name, parent, is_dir } => {
            if is_marker(name, *is_dir) {
                Some(Gsr::new(parent.clone()))
            } else {
                None
            }
        },
        WalkEvent::Failure => None,
    }
}

/// The fresh records for every repository a stream of events discovers, in
/// stream order; unreadable entries are skipped, never fatal.
pub fn discover(evs: &Vec<WalkEvent>) -> (rs: Vec<Gsr>)
    ensures
        rs@.map_values(|g: Gsr| g.pb@) == discovered(evs@),
        forall|i: int| 0 <= i < rs@.len() ==> {
            &&& (#[trigger] rs@[i]).df == false
            &&& rs@[i].st is None
            &&& rs@[i].ahead == false
            &&& rs@[i].behind == false
        },
{
    let mut rs: Vec<Gsr> = Vec::new();
    let mut n: usize = 0;
    while n < evs.len()
        invariant
            n <= evs@.len(),
            rs@.map_values(|g: Gsr| g.pb@) == discovered(evs@.take(n as int)),
            forall|i: int| 0 <= i < rs@.len() ==> {
                &&& (#[trigger] rs@[i]).df == false
                &&& rs@[i].st is None
                &&& rs@[i].ahead == false
                &&& rs@[i].behind == false
            },
        decreases evs@.len() - n,
    {
        proof {
            assert(evs@.take(n + 1).drop_last() =~= evs@.take(n as int));
            assert(evs@.take(n + 1).last() == evs@[n as int]);
        }
        if let Some(g) = classify(&evs[n]) {
            rs.push(g);
            proof {
                assert(rs@.map_values(|g: Gsr| g.pb@)
                    =~= discovered(evs@.take(n + 1)));
            }
        }
        n = n + 1;
    }
    proof {
        assert(evs@.take(evs@.len() as int) =~= evs@);
    }
    rs
}

/// Discovery distributes over splitting the event stream: what two stretches
/// of the walk find together is what each finds alone, in order.
pub proof fn lemma_discovered_append(a: Seq<WalkEvent>, b: Seq<WalkEvent>)
    ensures
        discovered(a + b) == discovered(a) + discovered(b),
    decreases b.len(),
{
    if b.len() == 0 {
        assert(a + b =~= a);
        assert(discovered(a) + discovered(b) =~= discovered(a));
    } else {
        lemma_discovered_append(a, b.drop_last());
        assert((a + b).drop_last() =~= a + b.drop_last());
        assert((a + b).last() == b.last());
        match event_discovers(b.last()) {
            Some(p) => {
                assert(discovered(a) + discovered(b)
                    =~= (discovered(a) + discovered(b.drop_last())).push(p));
            },
            None => {},
        }
    }
}

/// A traversal failure on one entry blocks nothing: the repositories found
/// before and after it are exactly those found without it.
pub proof fn lemma_failure_skipped(before: Seq<WalkEvent>, after: Seq<WalkEvent>)
    ensures
        discovered(before + seq![WalkEvent::Failure] + after)
            == discovered(before) + discovered(after),
{
    lemma_discovered_append(before + seq![WalkEvent::Failure], after);
    lemma_discovered_append(before, seq![WalkEvent::Failure]);
    let f = seq![WalkEvent::Failure];
    assert(f.last() == WalkEvent::Failure);
    assert(f.drop_last() =~= Seq::<WalkEvent>::empty());
    assert(discovered(Seq::<WalkEvent>::empty()) =~= Seq::<Seq<u8>>::empty());
    assert(discovered(f) =~= Seq::<Seq<u8>>::empty());
    assert(discovered(before) + discovered(seq![WalkEvent::Failure]) =~= discovered(before));
}

} // verus!
