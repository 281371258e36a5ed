//! Where the items are: a model of the two locations.

use vstd::prelude::*;
use vstd::set_lib::lemma_set_disjoint_lens;
use crate::classification::ItemId;

verus! {

/// One of the two places an item can be.
#[derive(Debug, Clone, Copy, PartialEq, Eq, Structural)]
pub enum Location {
    /// Where the program under test looks for its mods.
    Active,
    /// Where items wait while they are not under test.
    Staging,
}

impl Location {
    /// The place a move towards `self` takes its items from.
    pub open spec fn other(self) -> Location {
        match self {
            Location::Active => Location::Staging,
            Location::Staging => Location::Active,
        }
    }

    /// The place a move towards `self` takes its items from.
    pub fn opposite(self) -> (source: Location)
        ensures
            source == self.other(),
    {
        match self {
            Location::Active => Location::Staging,
            Location::Staging => Location::Active,
        }
    }
}

/// What a batch move does to a source and a destination: each named item
/// that is at the source leaves it and arrives at the destination; nothing
/// else changes.
pub open spec fn transfer(source: Set<ItemId>, destination: Set<ItemId>, items: Set<ItemId>) -> (
    Set<ItemId>,
    Set<ItemId>,
) {
    (source.difference(items), destination.union(source.intersect(items)))
}

/// The items at each of the two locations.
pub struct Placement {
    pub active: Set<ItemId>,
    pub staging: Set<ItemId>,
}

impl Placement {
    /// Every one of `items` is active and nothing is staged.
    pub open spec fn all_active(items: Seq<ItemId>) -> Placement {
        Placement { active: items.to_set(), staging: Set::empty() }
    }

    /// The placement after a successful move of `items` towards `to`.
    pub open spec fn relocate(self, items: Set<ItemId>, to: Location) -> Placement {
        match to {
            Location::Staging => {
                let (source, destination) = transfer(self.active, self.staging, items);
                Placement { active: source, staging: destination }
            },
            Location::Active => {
                let (source, destination) = transfer(self.staging, self.active, items);
                Placement { active: destination, staging: source }
            },
        }
    }

    /// The placement after `items` were moved out of the active location.
    pub open spec fn park(self, items: Seq<ItemId>) -> Placement {
        self.relocate(items.to_set(), Location::Staging)
    }

    /// The placement after `items` were moved back into the active location.
    pub open spec fn restore(self, items: Seq<ItemId>) -> Placement {
        self.relocate(items.to_set(), Location::Active)
    }

    /// Every item of `all` is at exactly one of the two locations, and
    /// nothing else is at either.
    pub open spec fn partitions(self, all: Set<ItemId>) -> bool {
        &&& self.active.disjoint(self.staging)
        &&& self.active.union(self.staging) == all
    }

    /// A move neither loses nor duplicates an item, whatever it is asked to
    /// move and in whichever direction.
    pub proof fn relocate_keeps_partition(self, all: Set<ItemId>, items: Set<ItemId>, to: Location)
        requires
            self.partitions(all),
        ensures
            self.relocate(items, to).partitions(all),
    {
        let after = self.relocate(items, to);
        assert(after.active.union(after.staging) =~= all);
    }

    /// In a partition the two locations together hold as many items as there
    /// are.
    pub proof fn partition_counts(self, all: Set<ItemId>)
        requires
            self.partitions(all),
            all.finite(),
        ensures
            self.active.finite(),
            self.staging.finite(),
            self.active.len() + self.staging.len() == all.len(),
    {
        vstd::set_lib::lemma_set_union_finite_implies_sets_finite(self.active, self.staging);
        lemma_set_disjoint_lens(self.active, self.staging);
    }
}

} // verus!
