//! What a whole search concludes, told as one recursive definition.
//!
//! The verdicts come from an oracle: a function from the set of active items
//! to "the program ran well". A search starts with its items active, asks
//! the oracle, and halves the items for as long as the trial fails.

use vstd::prelude::*;
use vstd::seq_lib::seq_to_set_distributes_over_add;
use crate::classification::{Classification, ItemId};
use crate::placement::Placement;

verus! {

/// The judge of a trial: whether the program runs well with exactly these
/// items active.
pub type Oracle = spec_fn(Set<ItemId>) -> bool;

/// The first half of `items`, the smaller one where their number is odd.
pub open spec fn lower_half(items: Seq<ItemId>) -> Seq<ItemId> {
    items.subrange(0, (items.len() / 2) as int)
}

/// The second half of `items`.
pub open spec fn upper_half(items: Seq<ItemId>) -> Seq<ItemId> {
    items.subrange((items.len() / 2) as int, items.len() as int)
}

/// What a search leaves behind: its findings in the order they were made,
/// and where the items are.
pub struct Exploration {
    pub found: Seq<Classification<ItemId>>,
    pub placement: Placement,
}

/// The search of `items`, which are active in `start`.
///
/// A trial that passes clears the items. A single item that fails is an
/// offender. Otherwise the second half is parked and the first searched;
/// then the second is brought back and searched, unless the search is not
/// exhaustive and the first half gave a finding. Where both halves give
/// nothing, the items fail only together. Every branch ends with its items
/// parked.
pub open spec fn explore(
    items: Seq<ItemId>,
    start: Placement,
    oracle: Oracle,
    exhaustive: bool,
) -> Exploration
    recommends
        items.len() > 0,
    decreases items.len(),
{
    if oracle(start.active) {
        Exploration { found: Seq::empty(), placement: start.park(items) }
    } else if items.len() <= 1 {
        Exploration {
            found: seq![Classification::SingleMod(items[0])],
            placement: start.park(items),
        }
    } else {
        let below = explore(lower_half(items), start.park(upper_half(items)), oracle, exhaustive);
        if !exhaustive && below.found.len() > 0 {
            below
        } else {
            let above = explore(
                upper_half(items),
                below.placement.restore(upper_half(items)),
                oracle,
                exhaustive,
            );
            let found = below.found + above.found;
            Exploration {
                found: if found.len() == 0 {
                    seq![Classification::ModCombo(items)]
                } else {
                    found
                },
                placement: above.placement,
            }
        }
    }
}

/// The first of `found`, or `Clear` where there is none.
pub open spec fn first_cause(found: Seq<Classification<ItemId>>) -> Classification<ItemId> {
    if found.len() == 0 {
        Classification::Clear
    } else {
        found[0]
    }
}

/// The search that stops at the first cause: what it returns, and where it
/// leaves the items.
pub open spec fn search_for_broken_mod(items: Seq<ItemId>, start: Placement, oracle: Oracle) -> (
    Classification<ItemId>,
    Placement,
) {
    let run = explore(items, start, oracle, false);
    (first_cause(run.found), run.placement)
}

/// The search that looks into both halves whatever the first gave: all it
/// finds, and where it leaves the items.
pub open spec fn exhaustive_search_for_broken_mod(
    items: Seq<ItemId>,
    start: Placement,
    oracle: Oracle,
) -> (Seq<Classification<ItemId>>, Placement) {
    let run = explore(items, start, oracle, true);
    (run.found, run.placement)
}

/// The two halves of two or more items: both are shorter, neither is empty,
/// and together they are the items.
pub(crate) proof fn halves_cover(items: Seq<ItemId>)
    requires
        items.len() >= 2,
    ensures
        0 < lower_half(items).len() < items.len(),
        0 < upper_half(items).len() < items.len(),
        lower_half(items) + upper_half(items) == items,
        lower_half(items).to_set().union(upper_half(items).to_set()) == items.to_set(),
        forall|x: ItemId|
            items.contains(x) <==> lower_half(items).contains(x) || upper_half(items).contains(x),
{
    let lower = lower_half(items);
    let upper = upper_half(items);
    assert(lower + upper =~= items);
    seq_to_set_distributes_over_add(lower, upper);
    assert forall|x: ItemId| items.contains(x) <==> lower.contains(x) || upper.contains(x) by {
        assert(items.to_set().contains(x) <==> lower.to_set().contains(x) || upper.to_set().contains(
            x,
        ));
    }
}

/// The halves of items that are all different share nothing.
pub(crate) proof fn halves_apart(items: Seq<ItemId>)
    requires
        items.len() >= 2,
        items.no_duplicates(),
    ensures
        lower_half(items).no_duplicates(),
        upper_half(items).no_duplicates(),
        lower_half(items).to_set().disjoint(upper_half(items).to_set()),
{
    let lower = lower_half(items);
    let upper = upper_half(items);
    let mid = (items.len() / 2) as int;
    assert forall|x: ItemId| !(lower.to_set().contains(x) && upper.to_set().contains(x)) by {
        if lower.contains(x) && upper.contains(x) {
            let i = choose|i: int| 0 <= i < lower.len() && lower[i] == x;
            let j = choose|j: int| 0 <= j < upper.len() && upper[j] == x;
            assert(items[i] == x);
            assert(items[mid + j] == x);
        }
    }
}

/// A search ends with every one of its items parked, whatever was found and
/// wherever the items were.
pub proof fn explore_parks_all(items: Seq<ItemId>, start: Placement, oracle: Oracle, exhaustive: bool)
    ensures
        explore(items, start, oracle, exhaustive).placement == start.park(items),
    decreases items.len(),
{
    if !oracle(start.active) && items.len() > 1 {
        halves_cover(items);
        let lower = lower_half(items);
        let upper = upper_half(items);
        let parked = start.park(upper);
        explore_parks_all(lower, parked, oracle, exhaustive);
        let below = explore(lower, parked, oracle, exhaustive);
        let expected = start.park(items);
        assert(below.placement.active =~= expected.active);
        assert(below.placement.staging =~= expected.staging);
        let restored = below.placement.restore(upper);
        explore_parks_all(upper, restored, oracle, exhaustive);
        let above = explore(upper, restored, oracle, exhaustive);
        assert(above.placement.active =~= expected.active);
        assert(above.placement.staging =~= expected.staging);
    }
}

/// A search that stops at the first cause gives one finding at most.
pub proof fn first_fault_finds_at_most_one(items: Seq<ItemId>, start: Placement, oracle: Oracle)
    ensures
        explore(items, start, oracle, false).found.len() <= 1,
    decreases items.len(),
{
    if !oracle(start.active) && items.len() > 1 {
        halves_cover(items);
        let lower = lower_half(items);
        let upper = upper_half(items);
        first_fault_finds_at_most_one(lower, start.park(upper), oracle);
        let below = explore(lower, start.park(upper), oracle, false);
        first_fault_finds_at_most_one(upper, below.placement.restore(upper), oracle);
    }
}

} // verus!
