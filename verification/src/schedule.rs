//! The order of work: regions grouped by their x coordinate, each group
//! walked from north to south.
//!
//! The groups are a `HashMap` from x to the `BTreeSet` of zs: groups come
//! in no order, as no order is needed between them, while within a group
//! the set gives the zs from north to south.

use std::collections::{BTreeSet, HashMap};
use vstd::prelude::*;
use vstd::std_specs::iter::IteratorSpec;
use crate::block::ColorTable;
use crate::canvas::TileCanvas;
use crate::errors::RunErrors;
use crate::region::{entry_fault, first_fault, region_pixel, Region, RegionOutcome, RegionView};

verus! {

/// Whether a sequence ascends strictly, so that it is sorted and holds
/// nothing twice.
pub open spec fn ascending(s: Seq<i32>) -> bool {
    forall|i: int, j: int| 0 <= i < j < s.len() ==> s[i] < s[j]
}

/// Whether the groups hold the region `(x, z)`: there is a group for `x`,
/// and `z` is in it.
pub open spec fn grouped(groups: Map<i32, BTreeSet<i32>>, x: i32, z: i32) -> bool {
    groups.contains_key(x) && groups[x]@.contains(z)
}

/// Whether a list of region coordinates names the region `(x, z)`.
pub open spec fn listed(coords: Seq<(i32, i32)>, x: i32, z: i32) -> bool {
    coords.contains((x, z))
}

/// Adds `z` to a set.
fn add_z(zs: &mut BTreeSet<i32>, z: i32)
    ensures
        final(zs)@ == old(zs)@.insert(z),
{
    broadcast use vstd::laws_cmp::group_laws_cmp;

    zs.insert(z);
}

/// The items of a set from the least to the greatest.
fn in_order(zs: &BTreeSet<i32>) -> (out: Vec<i32>)
    ensures
        ascending(out@),
        forall|z: i32| out@.contains(z) <==> zs@.contains(z),
{
    broadcast use vstd::std_specs::btree::group_btree_axioms;
    broadcast use vstd::laws_cmp::group_laws_cmp;

    let mut out: Vec<i32> = Vec::new();
    let ghost all: Seq<&i32> = zs.iter().remaining();
    for z in it: zs.iter()
        invariant
            out@.len() == it.index(),
            it.seq() == all,
            forall|k: int| 0 <= k < out@.len() ==> out@[k] == *it.seq()[k],
    {
        out.push(*z);
    }
    proof {
        assert(out@ =~= all.unref());
        assert(all.unref().to_set() == zs@);
        assert forall|z: i32| out@.contains(z) <==> zs@.contains(z) by {
            assert(out@.contains(z) <==> out@.to_set().contains(z));
        }
        vstd::std_specs::btree::axiom_increasing_seq_meaning::<&i32>(all);
        assert forall|i: int, j: int| 0 <= i < j < out@.len() implies out@[i] < out@[j] by {
            assert(vstd::std_specs::cmp::OrdSpec::cmp_spec(&all[i], &all[j]) is Less);
            assert(vstd::std_specs::cmp::OrdSpec::cmp_spec(all[i], all[j]) is Less);
        }
    }
    out
}

/// Groups region coordinates `(x, z)` by x: the regions that share an x
/// form one group, the set of their zs. A coordinate that is listed
/// twice is grouped once, nothing is grouped that was not listed, and no
/// group is empty.
pub fn group_regions(coords: &Vec<(i32, i32)>) -> (groups: HashMap<i32, BTreeSet<i32>>)
    ensures
        forall|x: i32, z: i32| grouped(groups@, x, z) <==> listed(coords@, x, z),
        forall|x: i32| #[trigger] groups@.contains_key(x) ==> exists|z: i32| listed(coords@, x, z),
{
    broadcast use vstd::std_specs::hash::group_hash_axioms;

    let mut groups: HashMap<i32, BTreeSet<i32>> = HashMap::new();
    let mut n: usize = 0;
    while n < coords.len()
        invariant
            n <= coords@.len(),
            forall|x: i32, z: i32| grouped(groups@, x, z) <==> listed(coords@.take(n as int), x, z),
            forall|x: i32| #[trigger] groups@.contains_key(x) ==> exists|z: i32| grouped(groups@, x, z),
        decreases coords@.len() - n,
    {
        let (x, z) = coords[n];
        let ghost before = groups@;
        let mut zs = match groups.remove(&x) {
            Some(found) => found,
            None => BTreeSet::new(),
        };
        let ghost had = zs@;
        add_z(&mut zs, z);
        groups.insert(x, zs);
        proof {
            let shorter = coords@.take(n as int);
            let longer = coords@.take(n + 1);
            assert(longer =~= shorter.push((x, z)));
            assert(groups@[x]@ == had.insert(z));
            assert forall|a: i32, b: i32| grouped(groups@, a, b) <==> listed(longer, a, b) by {
                if a != x {
                    assert(groups@.contains_key(a) == before.contains_key(a));
                    if before.contains_key(a) {
                        assert(groups@[a] == before[a]);
                    }
                } else {
                    assert(grouped(groups@, a, b) <==> (had.contains(b) || b == z));
                    assert(had.contains(b) <==> grouped(before, a, b));
                }
                assert(grouped(before, a, b) <==> listed(shorter, a, b));
                if listed(longer, a, b) {
                    let i = choose|i: int| 0 <= i < longer.len() && longer[i] == (a, b);
                    if i < n {
                        assert(shorter[i] == (a, b));
                    }
                }
                if listed(shorter, a, b) {
                    let i = choose|i: int| 0 <= i < shorter.len() && shorter[i] == (a, b);
                    assert(longer[i] == (a, b));
                }
                if a == x && b == z {
                    assert(longer[n as int] == (a, b));
                }
            }
            assert forall|a: i32| #[trigger] groups@.contains_key(a) implies exists|b: i32| grouped(groups@, a, b) by {
                if a == x {
                    assert(grouped(groups@, x, z));
                } else {
                    assert(before.contains_key(a));
                    let b = choose|b: i32| grouped(before, a, b);
                    assert(groups@[a] == before[a]);
                    assert(grouped(groups@, a, b));
                }
            }
        }
        n += 1;
    }
    proof {
        assert(coords@.take(n as int) =~= coords@);
        assert forall|x: i32| #[trigger] groups@.contains_key(x) implies exists|z: i32| listed(coords@, x, z) by {
            let z = choose|z: i32| grouped(groups@, x, z);
            assert(listed(coords@, x, z));
        }
    }
    groups
}

/// What came of opening the region that a walk asked for.
pub enum Lookup {
    /// The region was found and decoded.
    Found(Region),
    /// The region was listed but is no longer there.
    Missing,
    /// The region is there but could not be decoded.
    Undecodable(String),
}

/// What a step of a walk came to.
pub enum Step {
    /// The region was drawn.
    Drawn(TileCanvas),
    /// A column of the region failed to decode, with this message.
    ColumnFailed(String),
    /// The region failed to decode, with this message.
    RegionFailed(String),
    /// The region was listed but is no longer there.
    RegionMissing,
    /// The walk had no region pending; the lookup was ignored.
    Idle,
}

/// What the caller of a walk is to do after a step.
pub enum Action {
    /// Save this tile, then go on with the walk.
    Save(TileCanvas),
    /// Nothing to save; go on with the walk.
    GoOn,
    /// This walk is over; other walks are not affected.
    EndGroup,
    /// The whole run is to stop at once.
    AbortRun,
}

/// What a walk is, mathematically.
pub struct WalkView {
    pub x: int,
    pub zs: Seq<i32>,
    /// How many regions of the group have been handed on.
    pub next: nat,
    /// Whether the walk was stopped before its end.
    pub halted: bool,
    /// The region that was found last, the northern neighbor of the next.
    pub prev: Option<RegionView>,
}

impl WalkView {
    /// The region that the walk asks for next.
    pub open spec fn pending(self) -> Option<(int, int)> {
        if !self.halted && self.next < self.zs.len() {
            Some((self.x, self.zs[self.next as int] as int))
        } else {
            None
        }
    }
}

/// The walk through one group of regions, from north to south. The
/// caller opens the region that [`GroupWalk::next_region`] names and
/// hands what it got to [`GroupWalk::advance`], until no region is
/// pending.
pub struct GroupWalk {
    x: i32,
    zs: Vec<i32>,
    next: usize,
    halted: bool,
    prev: Option<Region>,
}

impl View for GroupWalk {
    type V = WalkView;

    closed spec fn view(&self) -> WalkView {
        WalkView {
            x: self.x as int,
            zs: self.zs@,
            next: self.next as nat,
            halted: self.halted,
            prev: match self.prev {
                Some(region) => Some(region@),
                None => None,
            },
        }
    }
}

impl GroupWalk {
    /// A walk at the start of the group of `x`, with no region to its
    /// north. It visits the regions of `zs` once each, from the least z to
    /// the greatest.
    pub fn new(x: i32, zs: &BTreeSet<i32>) -> (walk: GroupWalk)
        ensures
            walk@.x == x,
            ascending(walk@.zs),
            forall|z: i32| walk@.zs.contains(z) <==> zs@.contains(z),
            walk@.next == 0,
            !walk@.halted,
            walk@.prev is None,
    {
        GroupWalk { x, zs: in_order(zs), next: 0, halted: false, prev: None }
    }

    /// The coordinates `(x, z)` of the region to open next, or `None`
    /// when the walk is over.
    pub fn next_region(&self) -> (at: Option<(i32, i32)>)
        ensures
            at.is_some() == self@.pending().is_some(),
            at matches Some(c) ==> self@.pending() == Some((c.0 as int, c.1 as int)),
    {
        if !self.halted && self.next < self.zs.len() {
            Some((self.x, self.zs[self.next]))
        } else {
            None
        }
    }

    /// Takes what opening the pending region gave and moves the walk on.
    ///
    /// A region that was found is drawn against the region found before
    /// it and becomes the northern neighbor of the next one, whether or
    /// not all its columns decoded. A region that could not be decoded,
    /// or that is missing, ends the walk.
    #[verifier::rlimit(50)]
    pub fn advance(&mut self, lookup: Lookup, table: &ColorTable) -> (step: Step)
        ensures
            final(self)@.x == old(self)@.x,
            final(self)@.zs == old(self)@.zs,
            old(self)@.pending() is None ==> step is Idle && final(self)@ == old(self)@,
            old(self)@.pending() is Some ==> match lookup {
                Lookup::Found(region) => {
                    &&& final(self)@.next == old(self)@.next + 1
                    &&& !final(self)@.halted
                    &&& final(self)@.prev == Some(region@)
                    &&& match first_fault(region@, region@.entries.len() as int) {
                        None => {
                            &&& step matches Step::Drawn(tile)
                            &&& tile.wf()
                            &&& forall|px: int, pz: int|
                                0 <= px < 512 && 0 <= pz < 512 ==> #[trigger] tile@[(px, pz)] == region_pixel(
                                    region@,
                                    old(self)@.prev,
                                    table@,
                                    px,
                                    pz,
                                    region@.entries.len() as int,
                                )
                        },
                        Some(i) => {
                            &&& step matches Step::ColumnFailed(message)
                            &&& entry_fault(region@, i) == Some(message@)
                        },
                    }
                },
                Lookup::Missing => {
                    &&& step is RegionMissing
                    &&& final(self)@.halted
                    &&& final(self)@.next == old(self)@.next
                    &&& final(self)@.prev == old(self)@.prev
                },
                Lookup::Undecodable(message) => {
                    &&& step == Step::RegionFailed(message)
                    &&& final(self)@.halted
                    &&& final(self)@.next == old(self)@.next
                    &&& final(self)@.prev == old(self)@.prev
                },
            },
    {
        if self.halted || self.next >= self.zs.len() {
            return Step::Idle;
        }
        match lookup {
            Lookup::Found(region) => {
                let outcome = region.render(self.prev.as_ref(), table);
                self.prev = Some(region);
                self.next = self.next + 1;
                match outcome {
                    RegionOutcome::Drawn(tile) => Step::Drawn(tile),
                    RegionOutcome::ColumnFailed(message) => Step::ColumnFailed(message),
                }
            },
            Lookup::Missing => {
                self.halted = true;
                Step::RegionMissing
            },
            Lookup::Undecodable(message) => {
                self.halted = true;
                Step::RegionFailed(message)
            },
        }
    }
}

impl Step {
    /// Files what a step on the region `(x, z)` came to and says what is
    /// to be done next. A column failure is recorded with the column
    /// failures and the walk goes on; a region failure is recorded with
    /// the region failures and ends the walk; neither stops other walks.
    /// Only a missing region stops the run, and it is not recorded.
    pub fn file(self, x: i32, z: i32, errors: &mut RunErrors) -> (action: Action)
        ensures
            match self {
                Step::Drawn(tile) => action == Action::Save(tile) && *final(errors) == *old(errors),
                Step::ColumnFailed(message) => {
                    &&& action is GoOn
                    &&& final(errors).columns@ == old(errors).columns@.insert((x as int, z as int), message@)
                    &&& final(errors).regions == old(errors).regions
                },
                Step::RegionFailed(message) => {
                    &&& action is EndGroup
                    &&& final(errors).regions@ == old(errors).regions@.insert((x as int, z as int), message@)
                    &&& final(errors).columns == old(errors).columns
                },
                Step::RegionMissing => action is AbortRun && *final(errors) == *old(errors),
                Step::Idle => action is EndGroup && *final(errors) == *old(errors),
            },
    {
        match self {
            Step::Drawn(tile) => Action::Save(tile),
            Step::ColumnFailed(message) => {
                errors.columns.record(x, z, message);
                Action::GoOn
            },
            Step::RegionFailed(message) => {
                errors.regions.record(x, z, message);
                Action::EndGroup
            },
            Step::RegionMissing => Action::AbortRun,
            Step::Idle => Action::EndGroup,
        }
    }
}

/// A walk through ordered regions goes strictly south: each region that
/// becomes pending lies south of the one handed on before it.
pub proof fn lemma_walk_goes_south(walk: WalkView, earlier: int, later: int)
    requires
        ascending(walk.zs),
        0 <= earlier < later < walk.zs.len(),
    ensures
        walk.zs[earlier] < walk.zs[later],
{
}

} // verus!
