//! What a search finds.
//!
//! The first statements hold whatever the oracle says: every finding is
//! true of it, no item is named twice, and the two kinds of search agree on
//! the first cause. The others fix how the oracle judges, and say what the
//! search then concludes, for every list of items and every order of it.

use vstd::prelude::*;
use crate::bisect::Machine;
use crate::classification::{Classification, ItemId};
use crate::placement::Placement;
use crate::refine::{engine_explores, rounds_for, run};
use crate::search::{
    exhaustive_search_for_broken_mod,
    explore,
    explore_parks_all,
    first_cause,
    halves_apart,
    halves_cover,
    lower_half,
    search_for_broken_mod,
    upper_half,
    Oracle,
};

verus! {

/// The program fails exactly when every one of `group` is active.
pub open spec fn fails_with_all(oracle: Oracle, group: Set<ItemId>) -> bool {
    forall|active: Set<ItemId>| #[trigger] oracle(active) == !group.subset_of(active)
}

/// The program fails exactly when one or more of `offenders` are active.
pub open spec fn fails_with_any(oracle: Oracle, offenders: Set<ItemId>) -> bool {
    forall|active: Set<ItemId>| #[trigger] oracle(active) == active.disjoint(offenders)
}

/// The smallest branch of the search of `items` that holds all of `group`:
/// a single item, or the items of a branch that has part of the group in
/// each half.
pub open spec fn narrowed(items: Seq<ItemId>, group: Set<ItemId>) -> Classification<ItemId>
    decreases items.len(),
{
    if items.len() <= 1 {
        Classification::SingleMod(items[0])
    } else if group.subset_of(lower_half(items).to_set()) {
        narrowed(lower_half(items), group)
    } else if group.subset_of(upper_half(items).to_set()) {
        narrowed(upper_half(items), group)
    } else {
        Classification::ModCombo(items)
    }
}

/// With the upper half parked the lower half is what is active; with the
/// lower half searched and the upper brought back, the upper half is.
proof fn halves_take_turns(items: Seq<ItemId>, start: Placement, oracle: Oracle, exhaustive: bool)
    requires
        items.len() >= 2,
        items.no_duplicates(),
        start.active == items.to_set(),
    ensures
        start.park(upper_half(items)).active == lower_half(items).to_set(),
        explore(
            lower_half(items),
            start.park(upper_half(items)),
            oracle,
            exhaustive,
        ).placement.restore(upper_half(items)).active == upper_half(items).to_set(),
{
    let lower = lower_half(items);
    let upper = upper_half(items);
    halves_cover(items);
    halves_apart(items);
    let parked = start.park(upper);
    assert(parked.active =~= lower.to_set());
    explore_parks_all(lower, parked, oracle, exhaustive);
    let below = explore(lower, parked, oracle, exhaustive);
    assert(below.placement.restore(upper).active =~= upper.to_set());
}

/// What a finding says of the oracle: a single item fails on its own; a
/// combination of two items or more fails, and neither of its halves does.
pub open spec fn borne_out(finding: Classification<ItemId>, oracle: Oracle) -> bool {
    match finding {
        Classification::SingleMod(item) => !oracle(set![item]),
        Classification::ModCombo(together) => {
            &&& together.len() >= 2
            &&& !oracle(together.to_set())
            &&& oracle(lower_half(together).to_set())
            &&& oracle(upper_half(together).to_set())
        },
        Classification::Clear => false,
    }
}

/// Every finding is true.
///
/// Let the items be all different and all active, and let the oracle judge
/// as it will. Then the search, of either kind, finds nothing exactly when
/// the items pass together, and each of its findings is borne out by the
/// oracle: a single item is one of the items and fails alone, and a
/// combination fails as a whole while each of its halves passes.
pub proof fn findings_are_borne_out(
    items: Seq<ItemId>,
    start: Placement,
    oracle: Oracle,
    exhaustive: bool,
)
    requires
        items.len() > 0,
        items.no_duplicates(),
        start.active == items.to_set(),
    ensures
        explore(items, start, oracle, exhaustive).found.len() == 0 <==> oracle(items.to_set()),
        forall|i: int|
            0 <= i < explore(items, start, oracle, exhaustive).found.len() ==> borne_out(
                #[trigger] explore(items, start, oracle, exhaustive).found[i],
                oracle,
            ),
        forall|i: int|
            0 <= i < explore(items, start, oracle, exhaustive).found.len() ==> (#[trigger] explore(
                items,
                start,
                oracle,
                exhaustive,
            ).found[i] matches Classification::SingleMod(item) ==> items.contains(item)),
    decreases items.len(),
{
    let found = explore(items, start, oracle, exhaustive).found;
    if oracle(start.active) {
    } else if items.len() == 1 {
        assert(items.to_set() =~= set![items[0]]);
        assert(found[0] == Classification::SingleMod(items[0]));
    } else {
        let lower = lower_half(items);
        let upper = upper_half(items);
        halves_cover(items);
        halves_apart(items);
        halves_take_turns(items, start, oracle, exhaustive);
        let parked = start.park(upper);
        findings_are_borne_out(lower, parked, oracle, exhaustive);
        let below = explore(lower, parked, oracle, exhaustive);
        if !exhaustive && below.found.len() > 0 {
            assert(found == below.found);
        } else {
            let restored = below.placement.restore(upper);
            findings_are_borne_out(upper, restored, oracle, exhaustive);
            let above = explore(upper, restored, oracle, exhaustive);
            let halves = below.found + above.found;
            if halves.len() == 0 {
                assert(found[0] == Classification::ModCombo(items));
            } else {
                assert(found == halves);
                assert forall|i: int| 0 <= i < found.len() implies borne_out(
                    #[trigger] found[i],
                    oracle,
                ) && (found[i] matches Classification::SingleMod(item) ==> items.contains(item)) by {
                    if i < below.found.len() {
                        assert(found[i] == below.found[i]);
                    } else {
                        assert(found[i] == above.found[i - below.found.len()]);
                    }
                }
            }
        }
    }
}

/// `together` is a stretch of `items`: some of them that stand side by
/// side, in their order.
pub open spec fn stretch_of(together: Seq<ItemId>, items: Seq<ItemId>) -> bool {
    exists|lo: int, hi: int|
        0 <= lo <= hi <= items.len() && together == #[trigger] items.subrange(lo, hi)
}

/// A stretch of a stretch is a stretch.
proof fn stretch_of_stretch(together: Seq<ItemId>, part: Seq<ItemId>, items: Seq<ItemId>)
    requires
        stretch_of(together, part),
        stretch_of(part, items),
    ensures
        stretch_of(together, items),
{
    let (lo, hi) = choose|lo: int, hi: int|
        0 <= lo <= hi <= part.len() && together == #[trigger] part.subrange(lo, hi);
    let (from, to) = choose|from: int, to: int|
        0 <= from <= to <= items.len() && part == #[trigger] items.subrange(from, to);
    assert(together =~= items.subrange(from + lo, from + hi));
}

/// Every combination is a stretch of the items.
///
/// Whatever the items, the placement and the oracle: a combination that the
/// search finds, of either kind, is the items of one branch, and so a
/// stretch of the items in their order.
pub proof fn combinations_are_stretches(
    items: Seq<ItemId>,
    start: Placement,
    oracle: Oracle,
    exhaustive: bool,
)
    requires
        items.len() > 0,
    ensures
        forall|i: int|
            0 <= i < explore(items, start, oracle, exhaustive).found.len() ==> (#[trigger] explore(
                items,
                start,
                oracle,
                exhaustive,
            ).found[i] matches Classification::ModCombo(together) ==> stretch_of(together, items)),
    decreases items.len(),
{
    let found = explore(items, start, oracle, exhaustive).found;
    if oracle(start.active) {
    } else if items.len() == 1 {
        assert(found[0] == Classification::SingleMod(items[0]));
    } else {
        let lower = lower_half(items);
        let upper = upper_half(items);
        halves_cover(items);
        assert(stretch_of(lower, items));
        assert(stretch_of(upper, items));
        let parked = start.park(upper);
        combinations_are_stretches(lower, parked, oracle, exhaustive);
        let below = explore(lower, parked, oracle, exhaustive);
        let restored = below.placement.restore(upper);
        combinations_are_stretches(upper, restored, oracle, exhaustive);
        let above = explore(upper, restored, oracle, exhaustive);
        let halves = below.found + above.found;
        let count = below.found.len() as int;
        if (exhaustive || count == 0) && halves.len() == 0 {
            assert(found[0] == Classification::ModCombo(items));
            assert(items == items.subrange(0, items.len() as int));
        } else {
            assert forall|i: int| 0 <= i < found.len() implies (#[trigger] found[i] matches Classification::ModCombo(
                together,
            ) ==> stretch_of(together, items)) by {
                if let Classification::ModCombo(together) = found[i] {
                    if i < count {
                        assert(found[i] == below.found[i]);
                        stretch_of_stretch(together, lower, items);
                    } else {
                        assert(found[i] == above.found[i - count]);
                        stretch_of_stretch(together, upper, items);
                    }
                }
            }
        }
    }
}

/// The items that a finding names.
pub open spec fn named(finding: Classification<ItemId>) -> Set<ItemId> {
    match finding {
        Classification::SingleMod(item) => set![item],
        Classification::ModCombo(together) => together.to_set(),
        Classification::Clear => Set::empty(),
    }
}

/// No item is named twice.
///
/// Let the items be all different. Then every finding of the search, of
/// either kind, names items of the search only, and no two findings name
/// the same item.
pub proof fn findings_are_apart(
    items: Seq<ItemId>,
    start: Placement,
    oracle: Oracle,
    exhaustive: bool,
)
    requires
        items.len() > 0,
        items.no_duplicates(),
    ensures
        forall|i: int|
            0 <= i < explore(items, start, oracle, exhaustive).found.len() ==> named(
                #[trigger] explore(items, start, oracle, exhaustive).found[i],
            ).subset_of(items.to_set()),
        forall|i: int, j: int|
            0 <= i < j < explore(items, start, oracle, exhaustive).found.len() ==> named(
                #[trigger] explore(items, start, oracle, exhaustive).found[i],
            ).disjoint(named(#[trigger] explore(items, start, oracle, exhaustive).found[j])),
    decreases items.len(),
{
    let found = explore(items, start, oracle, exhaustive).found;
    if oracle(start.active) {
    } else if items.len() == 1 {
        assert(found[0] == Classification::SingleMod(items[0]));
        assert(items.to_set().contains(items[0]));
    } else {
        let lower = lower_half(items);
        let upper = upper_half(items);
        halves_cover(items);
        halves_apart(items);
        let parked = start.park(upper);
        findings_are_apart(lower, parked, oracle, exhaustive);
        let below = explore(lower, parked, oracle, exhaustive);
        if !exhaustive && below.found.len() > 0 {
            assert(found == below.found);
        } else {
            let restored = below.placement.restore(upper);
            findings_are_apart(upper, restored, oracle, exhaustive);
            let above = explore(upper, restored, oracle, exhaustive);
            let halves = below.found + above.found;
            if halves.len() == 0 {
                assert(found[0] == Classification::ModCombo(items));
            } else {
                assert(found == halves);
                let count = below.found.len() as int;
                assert forall|i: int| 0 <= i < found.len() implies (if i < count {
                    found[i] == below.found[i] && named(#[trigger] found[i]).subset_of(
                        lower.to_set(),
                    )
                } else {
                    found[i] == above.found[i - count] && named(found[i]).subset_of(upper.to_set())
                }) by {
                    if i < count {
                        assert(found[i] == below.found[i]);
                    } else {
                        assert(found[i] == above.found[i - count]);
                    }
                }
                assert forall|i: int, j: int| 0 <= i < j < found.len() implies named(
                    #[trigger] found[i],
                ).disjoint(named(#[trigger] found[j])) by {
                    if j < count {
                        assert(found[i] == below.found[i] && found[j] == below.found[j]);
                    } else if i >= count {
                        assert(found[i] == above.found[i - count]);
                        assert(found[j] == above.found[j - count]);
                    } else {
                        assert(named(found[i]).subset_of(lower.to_set()));
                        assert(named(found[j]).subset_of(upper.to_set()));
                    }
                }
            }
        }
    }
}

/// The more is active the sooner the program fails: what fails with some
/// items fails with more.
pub open spec fn monotone(oracle: Oracle) -> bool {
    forall|fewer: Set<ItemId>, more: Set<ItemId>|
        fewer.subset_of(more) && !#[trigger] oracle(fewer) ==> !#[trigger] oracle(more)
}

/// No lone offender is missed.
///
/// Let the items be all different and all active, and let the oracle be
/// monotone. Then the exhaustive search finds, as a single item, every item
/// that fails on its own.
pub proof fn every_lone_offender_is_found(
    items: Seq<ItemId>,
    start: Placement,
    oracle: Oracle,
    offender: ItemId,
)
    requires
        items.len() > 0,
        items.no_duplicates(),
        start.active == items.to_set(),
        monotone(oracle),
        items.contains(offender),
        !oracle(set![offender]),
    ensures
        explore(items, start, oracle, true).found.contains(Classification::SingleMod(offender)),
    decreases items.len(),
{
    let found = explore(items, start, oracle, true).found;
    let alone = set![offender];
    assert(alone.subset_of(items.to_set()));
    assert(!oracle(start.active));
    if items.len() == 1 {
        assert(items[0] == offender);
        assert(found[0] == Classification::SingleMod(offender));
    } else {
        let lower = lower_half(items);
        let upper = upper_half(items);
        halves_cover(items);
        halves_apart(items);
        halves_take_turns(items, start, oracle, true);
        let parked = start.park(upper);
        let below = explore(lower, parked, oracle, true);
        let restored = below.placement.restore(upper);
        let above = explore(upper, restored, oracle, true);
        let halves = below.found + above.found;
        if lower.contains(offender) {
            every_lone_offender_is_found(lower, parked, oracle, offender);
            let at = choose|at: int|
                0 <= at < below.found.len() && below.found[at] == Classification::SingleMod(
                    offender,
                );
            assert(halves[at] == Classification::SingleMod(offender));
        } else {
            every_lone_offender_is_found(upper, restored, oracle, offender);
            let at = choose|at: int|
                0 <= at < above.found.len() && above.found[at] == Classification::SingleMod(
                    offender,
                );
            assert(halves[below.found.len() + at] == Classification::SingleMod(offender));
        }
        assert(found == halves);
    }
}

/// The two kinds of search agree on the first cause.
///
/// Whatever the items, the placement and the oracle: the first finding of
/// the exhaustive search is the one finding of the search that stops at the
/// first cause, and where the one finds nothing, so does the other.
pub proof fn kinds_agree_on_the_first(items: Seq<ItemId>, start: Placement, oracle: Oracle)
    ensures
        first_cause(explore(items, start, oracle, true).found) == first_cause(
            explore(items, start, oracle, false).found,
        ),
        first_cause(explore(items, start, oracle, true).found)
            == search_for_broken_mod(items, start, oracle).0,
    decreases items.len(),
{
    if !oracle(start.active) && items.len() > 1 {
        let lower = lower_half(items);
        let upper = upper_half(items);
        halves_cover(items);
        let parked = start.park(upper);
        kinds_agree_on_the_first(lower, parked, oracle);
        explore_parks_all(lower, parked, oracle, true);
        explore_parks_all(lower, parked, oracle, false);
        let all_below = explore(lower, parked, oracle, true);
        let one_below = explore(lower, parked, oracle, false);
        first_is_in_the_list(lower, parked, oracle, true);
        first_is_in_the_list(lower, parked, oracle, false);
        let restored = all_below.placement.restore(upper);
        kinds_agree_on_the_first(upper, restored, oracle);
        first_is_in_the_list(upper, restored, oracle, true);
        first_is_in_the_list(upper, restored, oracle, false);
        let all_above = explore(upper, restored, oracle, true);
        let one_above = explore(upper, restored, oracle, false);
        if one_below.found.len() == 0 {
            assert(all_below.found.len() == 0);
            assert(all_below.found + all_above.found =~= all_above.found);
            assert(one_below.found + one_above.found =~= one_above.found);
        } else {
            assert((all_below.found + all_above.found)[0] == all_below.found[0]);
        }
    }
}

/// No finding is `Clear`: where the first cause is `Clear`, nothing was
/// found.
proof fn first_is_in_the_list(items: Seq<ItemId>, start: Placement, oracle: Oracle, exhaustive: bool)
    ensures
        forall|i: int|
            0 <= i < explore(items, start, oracle, exhaustive).found.len() ==> !(#[trigger] explore(
                items,
                start,
                oracle,
                exhaustive,
            ).found[i] is Clear),
        first_cause(explore(items, start, oracle, exhaustive).found) is Clear <==> explore(
            items,
            start,
            oracle,
            exhaustive,
        ).found.len() == 0,
    decreases items.len(),
{
    let found = explore(items, start, oracle, exhaustive).found;
    if !oracle(start.active) && items.len() > 1 {
        let lower = lower_half(items);
        let upper = upper_half(items);
        halves_cover(items);
        let parked = start.park(upper);
        first_is_in_the_list(lower, parked, oracle, exhaustive);
        let below = explore(lower, parked, oracle, exhaustive);
        let restored = below.placement.restore(upper);
        first_is_in_the_list(upper, restored, oracle, exhaustive);
        let above = explore(upper, restored, oracle, exhaustive);
        if !(!exhaustive && below.found.len() > 0) {
            let halves = below.found + above.found;
            if halves.len() > 0 {
                assert forall|i: int| 0 <= i < found.len() implies !(#[trigger] found[i] is Clear) by {
                    if i < below.found.len() {
                        assert(found[i] == below.found[i]);
                    } else {
                        assert(found[i] == above.found[i - below.found.len()]);
                    }
                }
            }
        }
    }
}

/// A group that fails only when all of it is active is narrowed down to the
/// smallest branch that holds it, and nothing else is found, whether or not
/// the search is exhaustive.
pub proof fn group_is_narrowed(
    items: Seq<ItemId>,
    group: Set<ItemId>,
    start: Placement,
    oracle: Oracle,
    exhaustive: bool,
)
    requires
        items.len() > 0,
        items.no_duplicates(),
        start.active == items.to_set(),
        group.subset_of(items.to_set()),
        exists|member: ItemId| group.contains(member),
        fails_with_all(oracle, group),
    ensures
        explore(items, start, oracle, exhaustive).found == seq![narrowed(items, group)],
    decreases items.len(),
{
    assert(!oracle(start.active));
    if items.len() > 1 {
        let lower = lower_half(items);
        let upper = upper_half(items);
        halves_cover(items);
        halves_apart(items);
        halves_take_turns(items, start, oracle, exhaustive);
        let parked = start.park(upper);
        let below = explore(lower, parked, oracle, exhaustive);
        let restored = below.placement.restore(upper);
        let above = explore(upper, restored, oracle, exhaustive);
        let member = choose|member: ItemId| group.contains(member);
        if group.subset_of(lower.to_set()) {
            group_is_narrowed(lower, group, parked, oracle, exhaustive);
            assert(!upper.to_set().contains(member));
            assert(oracle(restored.active));
            assert(below.found + above.found =~= below.found);
        } else if group.subset_of(upper.to_set()) {
            assert(oracle(parked.active));
            group_is_narrowed(upper, group, restored, oracle, exhaustive);
            assert(below.found + above.found =~= above.found);
        } else {
            assert(oracle(parked.active));
            assert(oracle(restored.active));
            assert(below.found + above.found =~= Seq::empty());
        }
    }
}

/// The smallest branch that holds one item is that item.
pub proof fn narrowed_to_one(items: Seq<ItemId>, culprit: ItemId)
    requires
        items.contains(culprit),
    ensures
        narrowed(items, set![culprit]) == Classification::SingleMod(culprit),
    decreases items.len(),
{
    let group = set![culprit];
    if items.len() > 1 {
        halves_cover(items);
        let lower = lower_half(items);
        let upper = upper_half(items);
        if lower.contains(culprit) {
            assert(group.subset_of(lower.to_set()));
            narrowed_to_one(lower, culprit);
        } else {
            assert(upper.contains(culprit));
            assert(!lower.to_set().contains(culprit));
            assert(group.contains(culprit));
            assert(!group.subset_of(lower.to_set()));
            assert(group.subset_of(upper.to_set()));
            narrowed_to_one(upper, culprit);
        }
    } else {
        assert(items[0] == culprit);
    }
}

/// The smallest branch that holds two different items is a combination that
/// holds both; of two items in all, it is the two.
pub proof fn narrowed_to_pair(items: Seq<ItemId>, one: ItemId, other: ItemId)
    requires
        items.contains(one),
        items.contains(other),
        one != other,
    ensures
        narrowed(items, set![one, other]) matches Classification::ModCombo(together)
            && together.contains(one) && together.contains(other) && together.len() <= items.len(),
        items.len() == 2 ==> narrowed(items, set![one, other]) == Classification::ModCombo(items),
    decreases items.len(),
{
    let group = set![one, other];
    assert(group.contains(one) && group.contains(other));
    if items.len() > 1 {
        halves_cover(items);
        let lower = lower_half(items);
        let upper = upper_half(items);
        if group.subset_of(lower.to_set()) {
            assert(lower.to_set().contains(one) && lower.to_set().contains(other));
            narrowed_to_pair(lower, one, other);
            if items.len() == 2 {
                assert(lower.len() == 1);
                assert(lower[0] == one && lower[0] == other);
            }
        } else if group.subset_of(upper.to_set()) {
            assert(upper.to_set().contains(one) && upper.to_set().contains(other));
            narrowed_to_pair(upper, one, other);
            if items.len() == 2 {
                assert(upper.len() == 1);
                assert(upper[0] == one && upper[0] == other);
            }
        }
    } else {
        assert(items[0] == one && items[0] == other);
    }
}

/// Each of `items` that is among `offenders`, as a finding of its own, in
/// the order of the items.
pub open spec fn singled(items: Seq<ItemId>, offenders: Set<ItemId>) -> Seq<Classification<ItemId>>
    decreases items.len(),
{
    if items.len() == 0 {
        Seq::empty()
    } else {
        let before = singled(items.drop_last(), offenders);
        if offenders.contains(items.last()) {
            before.push(Classification::SingleMod(items.last()))
        } else {
            before
        }
    }
}

/// A single offender is singled out; a single item that is none gives
/// nothing.
proof fn singled_one(items: Seq<ItemId>, offenders: Set<ItemId>)
    requires
        items.len() == 1,
    ensures
        singled(items, offenders) == if offenders.contains(items[0]) {
            seq![Classification::SingleMod(items[0])]
        } else {
            Seq::empty()
        },
{
    assert(singled(items.drop_last(), offenders) =~= Seq::empty());
    assert(singled(items, offenders) =~= if offenders.contains(items[0]) {
        seq![Classification::SingleMod(items[0])]
    } else {
        Seq::empty()
    });
}

/// The offenders of a list are those of its front, then those of its back.
proof fn singled_splits(front: Seq<ItemId>, back: Seq<ItemId>, offenders: Set<ItemId>)
    ensures
        singled(front + back, offenders) == singled(front, offenders) + singled(back, offenders),
    decreases back.len(),
{
    if back.len() == 0 {
        assert(front + back =~= front);
        assert(singled(front, offenders) + singled(back, offenders) =~= singled(front, offenders));
    } else {
        assert((front + back).drop_last() =~= front + back.drop_last());
        assert((front + back).last() == back.last());
        singled_splits(front, back.drop_last(), offenders);
        let inner = singled(front, offenders) + singled(back.drop_last(), offenders);
        if offenders.contains(back.last()) {
            let finding = Classification::SingleMod(back.last());
            assert(inner.push(finding) =~= singled(front, offenders) + singled(
                back.drop_last(),
                offenders,
            ).push(finding));
        }
    }
}

/// There is an offender to single out exactly when an item is one.
proof fn singled_none(items: Seq<ItemId>, offenders: Set<ItemId>)
    ensures
        singled(items, offenders).len() == 0 <==> items.to_set().disjoint(offenders),
    decreases items.len(),
{
    if items.len() > 0 {
        singled_none(items.drop_last(), offenders);
        let before = items.drop_last();
        assert(items.to_set().contains(items.last())) by {
            assert(items[items.len() - 1] == items.last());
        }
        if items.to_set().disjoint(offenders) {
            assert forall|x: ItemId| !(before.to_set().contains(x) && offenders.contains(x)) by {
                if before.contains(x) {
                    let i = choose|i: int| 0 <= i < before.len() && before[i] == x;
                    assert(items[i] == x);
                }
            }
        } else if !offenders.contains(items.last()) {
            let x = choose|x: ItemId| items.to_set().contains(x) && offenders.contains(x);
            let i = choose|i: int| 0 <= i < items.len() && items[i] == x;
            assert(before[i] == x);
            assert(before.to_set().contains(x));
        }
    }
}

/// Where each offender fails the program on its own, an exhaustive search
/// finds each of them, as a single item, in the order of the items, and
/// nothing else.
pub proof fn offenders_are_singled(
    items: Seq<ItemId>,
    offenders: Set<ItemId>,
    start: Placement,
    oracle: Oracle,
)
    requires
        items.len() > 0,
        items.no_duplicates(),
        start.active == items.to_set(),
        fails_with_any(oracle, offenders),
    ensures
        explore(items, start, oracle, true).found == singled(items, offenders),
    decreases items.len(),
{
    singled_none(items, offenders);
    assert(oracle(start.active) == items.to_set().disjoint(offenders));
    if oracle(start.active) {
        assert(singled(items, offenders) =~= Seq::empty());
    } else if items.len() == 1 {
        let x = choose|x: ItemId| items.to_set().contains(x) && offenders.contains(x);
        assert(x == items[0]);
        singled_one(items, offenders);
    } else {
        let lower = lower_half(items);
        let upper = upper_half(items);
        halves_cover(items);
        halves_apart(items);
        halves_take_turns(items, start, oracle, true);
        let parked = start.park(upper);
        offenders_are_singled(lower, offenders, parked, oracle);
        let below = explore(lower, parked, oracle, true);
        let restored = below.placement.restore(upper);
        offenders_are_singled(upper, offenders, restored, oracle);
        singled_splits(lower, upper, offenders);
    }
}

/// Of items that are all different, with offenders at the positions `first`
/// and `second` and nowhere else, the two are singled out, in that order.
pub proof fn singled_pair(items: Seq<ItemId>, first: int, second: int)
    requires
        items.no_duplicates(),
        0 <= first < second < items.len(),
    ensures
        singled(items, set![items[first], items[second]]) == seq![
            Classification::SingleMod(items[first]),
            Classification::SingleMod(items[second]),
        ],
{
    let offenders = set![items[first], items[second]];
    let a = items.subrange(0, first);
    let b = items.subrange(first, first + 1);
    let c = items.subrange(first + 1, second);
    let d = items.subrange(second, second + 1);
    let e = items.subrange(second + 1, items.len() as int);
    assert(items =~= (((a + b) + c) + d) + e);
    singled_splits(((a + b) + c) + d, e, offenders);
    singled_splits((a + b) + c, d, offenders);
    singled_splits(a + b, c, offenders);
    singled_splits(a, b, offenders);
    singled_none(a, offenders);
    singled_none(c, offenders);
    singled_none(e, offenders);
    assert(a.to_set().disjoint(offenders)) by {
        assert forall|x: ItemId| !(a.to_set().contains(x) && offenders.contains(x)) by {
            if a.contains(x) {
                let i = choose|i: int| 0 <= i < a.len() && a[i] == x;
                assert(items[i] == x);
            }
        }
    }
    assert(c.to_set().disjoint(offenders)) by {
        assert forall|x: ItemId| !(c.to_set().contains(x) && offenders.contains(x)) by {
            if c.contains(x) {
                let i = choose|i: int| 0 <= i < c.len() && c[i] == x;
                assert(items[first + 1 + i] == x);
            }
        }
    }
    assert(e.to_set().disjoint(offenders)) by {
        assert forall|x: ItemId| !(e.to_set().contains(x) && offenders.contains(x)) by {
            if e.contains(x) {
                let i = choose|i: int| 0 <= i < e.len() && e[i] == x;
                assert(items[second + 1 + i] == x);
            }
        }
    }
    singled_one(b, offenders);
    singled_one(d, offenders);
    assert(offenders.contains(b[0]) && offenders.contains(d[0]));
    assert(singled(items, offenders) =~= seq![
        Classification::SingleMod(items[first]),
        Classification::SingleMod(items[second]),
    ]);
}

/// One offender is found.
///
/// Let the items be all different, and let the program fail exactly when
/// `culprit`, one of them, is active. Then the search that stops at the
/// first cause returns `culprit` as a single item, in whatever order the
/// items stand, and so does the engine once it is done.
pub proof fn single_fault_is_isolated(
    items: Seq<ItemId>,
    culprit: ItemId,
    oracle: Oracle,
    rounds: nat,
)
    requires
        0 < items.len() <= usize::MAX,
        items.no_duplicates(),
        items.contains(culprit),
        forall|active: Set<ItemId>| #[trigger] oracle(active) == !active.contains(culprit),
        rounds >= rounds_for(items.len() as int),
    ensures
        search_for_broken_mod(items, Placement::all_active(items), oracle).0
            == Classification::SingleMod(culprit),
        ({
            let engine = run(
                Machine::start(items, false),
                Placement::all_active(items),
                oracle,
                rounds,
            ).0;
            &&& engine.pending() is Done
            &&& first_cause(engine.found) == Classification::SingleMod(culprit)
        }),
{
    let group = set![culprit];
    let start = Placement::all_active(items);
    assert(group.contains(culprit));
    assert forall|active: Set<ItemId>| #[trigger] oracle(active) == !group.subset_of(active) by {
        assert(group.subset_of(active) <==> active.contains(culprit));
    }
    group_is_narrowed(items, group, start, oracle, false);
    narrowed_to_one(items, culprit);
    engine_explores(items, false, start, oracle, rounds);
}

/// Two items that fail only together are found together.
///
/// Let the items be all different, and let the program fail exactly when
/// `one` and `other`, two of them, are both active. Then the search, of
/// either kind, has one finding: a combination that holds both. It is the
/// items of the smallest branch that holds both, and so the two themselves
/// where they are all the items. The engine, once it is done, holds the
/// same.
pub proof fn combo_is_found(
    items: Seq<ItemId>,
    one: ItemId,
    other: ItemId,
    oracle: Oracle,
    exhaustive: bool,
    rounds: nat,
)
    requires
        0 < items.len() <= usize::MAX,
        items.no_duplicates(),
        items.contains(one),
        items.contains(other),
        one != other,
        forall|active: Set<ItemId>| #[trigger]
            oracle(active) == !(active.contains(one) && active.contains(other)),
        rounds >= rounds_for(items.len() as int),
    ensures
        explore(items, Placement::all_active(items), oracle, exhaustive).found == seq![
            narrowed(items, set![one, other]),
        ],
        narrowed(items, set![one, other]) matches Classification::ModCombo(together)
            && together.contains(one) && together.contains(other),
        items.len() == 2 ==> narrowed(items, set![one, other]) == Classification::ModCombo(items),
        ({
            let engine = run(
                Machine::start(items, exhaustive),
                Placement::all_active(items),
                oracle,
                rounds,
            ).0;
            &&& engine.pending() is Done
            &&& engine.found == seq![narrowed(items, set![one, other])]
        }),
{
    let group = set![one, other];
    let start = Placement::all_active(items);
    assert(group.contains(one) && group.contains(other));
    assert forall|active: Set<ItemId>| #[trigger] oracle(active) == !group.subset_of(active) by {
        assert(group.subset_of(active) <==> active.contains(one) && active.contains(other));
    }
    group_is_narrowed(items, group, start, oracle, exhaustive);
    narrowed_to_pair(items, one, other);
    engine_explores(items, exhaustive, start, oracle, rounds);
}

/// Where nothing is wrong, nothing is found.
///
/// Let the program run well whatever is active. Then the search, of either
/// kind, finds nothing, the search that stops at the first cause returns
/// `Clear`, and the items, which were all active, are all staged. The
/// engine, once it is done, holds no finding and has had them staged.
pub proof fn no_fault_clears(items: Seq<ItemId>, oracle: Oracle, exhaustive: bool, rounds: nat)
    requires
        0 < items.len() <= usize::MAX,
        forall|active: Set<ItemId>| #[trigger] oracle(active),
        rounds >= rounds_for(items.len() as int),
    ensures
        search_for_broken_mod(items, Placement::all_active(items), oracle).0
            == Classification::<ItemId>::Clear,
        explore(items, Placement::all_active(items), oracle, exhaustive).found.len() == 0,
        ({
            let (engine, placement) = run(
                Machine::start(items, exhaustive),
                Placement::all_active(items),
                oracle,
                rounds,
            );
            &&& engine.pending() is Done
            &&& engine.found.len() == 0
            &&& placement.active == Set::<ItemId>::empty()
            &&& placement.staging == items.to_set()
        }),
{
    let start = Placement::all_active(items);
    assert(oracle(start.active));
    engine_explores(items, exhaustive, start, oracle, rounds);
    let parked = start.park(items);
    assert(parked.active =~= Set::<ItemId>::empty());
    assert(parked.staging =~= items.to_set());
}

/// Two offenders are both found.
///
/// Let the items be all different, and let the program fail exactly when
/// one or both of two of them are active. Then the exhaustive search finds
/// the two, each as a single item, the one that stands first in the items
/// first, and nothing else; and the engine, once it is done, holds the
/// same.
pub proof fn both_offenders_are_found(
    items: Seq<ItemId>,
    first: int,
    second: int,
    oracle: Oracle,
    rounds: nat,
)
    requires
        items.len() <= usize::MAX,
        items.no_duplicates(),
        0 <= first < second < items.len(),
        forall|active: Set<ItemId>| #[trigger]
            oracle(active) == !(active.contains(items[first]) || active.contains(items[second])),
        rounds >= rounds_for(items.len() as int),
    ensures
        exhaustive_search_for_broken_mod(items, Placement::all_active(items), oracle).0 == seq![
            Classification::SingleMod(items[first]),
            Classification::SingleMod(items[second]),
        ],
        ({
            let engine = run(
                Machine::start(items, true),
                Placement::all_active(items),
                oracle,
                rounds,
            ).0;
            &&& engine.pending() is Done
            &&& engine.found == seq![
                Classification::SingleMod(items[first]),
                Classification::SingleMod(items[second]),
            ]
        }),
{
    let offenders = set![items[first], items[second]];
    let start = Placement::all_active(items);
    assert forall|active: Set<ItemId>| #[trigger] oracle(active) == active.disjoint(offenders) by {
        if active.contains(items[first]) || active.contains(items[second]) {
            assert(offenders.contains(items[first]) && offenders.contains(items[second]));
        }
    }
    offenders_are_singled(items, offenders, start, oracle);
    singled_pair(items, first, second);
    engine_explores(items, true, start, oracle, rounds);
}

} // verus!
