//! The engine at work: its rounds with an oracle and a placement, and the
//! proof that they end with what the whole search concludes.

use vstd::prelude::*;
use crate::bisect::{midpoint, Action, Event, Half, Machine, Stage, Suspended};
use crate::classification::{Classification, ItemId};
use crate::placement::Placement;
use crate::search::{
    explore,
    halves_apart,
    halves_cover,
    lower_half,
    upper_half,
    Exploration,
    Oracle,
};

verus! {

/// One round of the caller's loop: what the engine asks for is done, and
/// the engine is told. A trial asks the oracle about the active items; a
/// move succeeds. An engine that asks for nothing stays as it is.
pub open spec fn advance(engine: Machine, placement: Placement, oracle: Oracle) -> (
    Machine,
    Placement,
) {
    match engine.pending() {
        Action::Test => (engine.step(Event::Verdict(oracle(placement.active))), placement),
        Action::Relocate { to, .. } => (
            engine.step(Event::Relocated),
            placement.relocate(engine.batch().to_set(), to),
        ),
        Action::Done | Action::Abort => (engine, placement),
    }
}

/// The engine and the placement after `rounds` rounds.
pub open spec fn run(engine: Machine, placement: Placement, oracle: Oracle, rounds: nat) -> (
    Machine,
    Placement,
)
    decreases rounds,
{
    if rounds == 0 {
        (engine, placement)
    } else {
        let (next, moved) = advance(engine, placement, oracle);
        run(next, moved, oracle, (rounds - 1) as nat)
    }
}

/// The rounds that a branch of `size` items can take: five for each item,
/// less three.
pub open spec fn rounds_for(size: int) -> int {
    5 * size - 3
}

/// What the branches that wait lead to once the branch above them is done
/// with, with a finding or not as `any` says.
spec fn resume(
    items: Seq<ItemId>,
    exhaustive: bool,
    waiting: Seq<Suspended>,
    found: Seq<Classification<ItemId>>,
    any: bool,
    placement: Placement,
    oracle: Oracle,
) -> Exploration
    decreases waiting.len(),
{
    if waiting.len() == 0 {
        Exploration { found, placement }
    } else {
        let branch = waiting.last();
        let rest = waiting.drop_last();
        match branch.half {
            Half::Lower => if !exhaustive && any {
                resume(items, exhaustive, rest, found, true, placement, oracle)
            } else {
                let upper = items.subrange(midpoint(branch.lo, branch.hi) as int, branch.hi as int);
                let above = explore(upper, placement.restore(upper), oracle, exhaustive);
                let parent = Suspended { below: any, ..branch };
                resume(
                    items,
                    exhaustive,
                    rest,
                    parent.conclude(items, found + above.found, above.found.len() > 0),
                    true,
                    above.placement,
                    oracle,
                )
            },
            Half::Upper => resume(
                items,
                exhaustive,
                rest,
                branch.conclude(items, found, any),
                true,
                placement,
                oracle,
            ),
        }
    }
}

/// What the engine leads to from its stage.
spec fn outcome(engine: Machine, placement: Placement, oracle: Oracle) -> Exploration {
    let items = engine.items;
    let exhaustive = engine.exhaustive;
    match engine.stage {
        Stage::Testing { lo, hi } => {
            let branch = explore(items.subrange(lo as int, hi as int), placement, oracle, exhaustive);
            resume(
                items,
                exhaustive,
                engine.waiting,
                engine.found + branch.found,
                branch.found.len() > 0,
                branch.placement,
                oracle,
            )
        },
        Stage::Clearing { lo, hi, found } => resume(
            items,
            exhaustive,
            engine.waiting,
            engine.found,
            found,
            placement.park(items.subrange(lo as int, hi as int)),
            oracle,
        ),
        Stage::Parking { lo, hi } => {
            let mid = midpoint(lo, hi);
            let lower = items.subrange(lo as int, mid as int);
            let upper = items.subrange(mid as int, hi as int);
            let below = explore(lower, placement.park(upper), oracle, exhaustive);
            resume(
                items,
                exhaustive,
                engine.waiting.push(Suspended { lo, hi, half: Half::Lower, below: false }),
                engine.found + below.found,
                below.found.len() > 0,
                below.placement,
                oracle,
            )
        },
        Stage::Restoring { lo, hi, below } => {
            let upper = items.subrange(midpoint(lo, hi) as int, hi as int);
            let above = explore(upper, placement.restore(upper), oracle, exhaustive);
            resume(
                items,
                exhaustive,
                engine.waiting.push(Suspended { lo, hi, half: Half::Upper, below }),
                engine.found + above.found,
                above.found.len() > 0,
                above.placement,
                oracle,
            )
        },
        Stage::Finished | Stage::Aborted => Exploration { found: engine.found, placement },
    }
}

/// The rounds that the branches that wait still take once the branch above
/// them is done with.
spec fn owed(waiting: Seq<Suspended>) -> int
    decreases waiting.len(),
{
    if waiting.len() == 0 {
        0
    } else {
        let branch = waiting.last();
        owed(waiting.drop_last()) + match branch.half {
            Half::Lower => 1 + rounds_for(branch.hi - midpoint(branch.lo, branch.hi)),
            Half::Upper => 0,
        }
    }
}

/// The rounds that the engine still takes at most.
spec fn budget(engine: Machine) -> int {
    owed(engine.waiting) + match engine.stage {
        Stage::Testing { lo, hi } => rounds_for(hi - lo),
        Stage::Clearing { .. } => 1,
        Stage::Parking { lo, hi } => rounds_for(hi - lo) - 1,
        Stage::Restoring { lo, hi, .. } => 1 + rounds_for(hi - midpoint(lo, hi)),
        Stage::Finished | Stage::Aborted => 0,
    }
}

proof fn owed_is_natural(waiting: Seq<Suspended>, count: nat)
    requires
        forall|i: int| 0 <= i < waiting.len() ==> (#[trigger] waiting[i]).fits(count),
    ensures
        owed(waiting) >= 0,
    decreases waiting.len(),
{
    if waiting.len() > 0 {
        let branch = waiting.last();
        assert(branch == waiting[waiting.len() - 1]);
        owed_is_natural(waiting.drop_last(), count);
    }
}

/// Taking up the branches that wait leads where they were to lead, in a
/// well-formed engine that takes no more rounds than they were owed.
proof fn settle_keeps_outcome(engine: Machine, any: bool, placement: Placement, oracle: Oracle)
    requires
        forall|i: int|
            0 <= i < engine.waiting.len() ==> (#[trigger] engine.waiting[i]).fits(
                engine.items.len(),
            ),
    ensures
        engine.settle(any).wf(),
        engine.settle(any).items == engine.items,
        engine.settle(any).exhaustive == engine.exhaustive,
        engine.settle(any).stage is Restoring || engine.settle(any).stage is Finished,
        budget(engine.settle(any)) <= owed(engine.waiting),
        outcome(engine.settle(any), placement, oracle) == resume(
            engine.items,
            engine.exhaustive,
            engine.waiting,
            engine.found,
            any,
            placement,
            oracle,
        ),
    decreases engine.waiting.len(),
{
    if engine.waiting.len() > 0 {
        let branch = engine.waiting.last();
        let rest = engine.waiting.drop_last();
        assert(branch == engine.waiting[engine.waiting.len() - 1]);
        assert(branch.fits(engine.items.len()));
        assert forall|i: int| 0 <= i < rest.len() implies (#[trigger] rest[i]).fits(
            engine.items.len(),
        ) by {
            assert(rest[i] == engine.waiting[i]);
        }
        match branch.half {
            Half::Lower => {
                if !engine.exhaustive && any {
                    settle_keeps_outcome(Machine { waiting: rest, ..engine }, true, placement, oracle);
                } else {
                    let again = Suspended { half: Half::Upper, below: any, ..branch };
                    assert(rest.push(again).drop_last() =~= rest);
                    assert(rest.push(again).last() == again);
                    owed_is_natural(rest, engine.items.len());
                }
            },
            Half::Upper => {
                let found = branch.conclude(engine.items, engine.found, any);
                settle_keeps_outcome(
                    Machine { waiting: rest, found, ..engine },
                    true,
                    placement,
                    oracle,
                );
            },
        }
    }
}

/// A round leads where the engine was to lead, and leaves fewer rounds to
/// take.
proof fn advance_keeps_outcome(engine: Machine, placement: Placement, oracle: Oracle)
    requires
        engine.wf(),
        !(engine.stage is Aborted),
    ensures
        ({
            let (next, moved) = advance(engine, placement, oracle);
            &&& next.wf()
            &&& next.items == engine.items
            &&& next.exhaustive == engine.exhaustive
            &&& !(next.stage is Aborted)
            &&& outcome(next, moved, oracle) == outcome(engine, placement, oracle)
            &&& engine.stage is Finished || budget(next) < budget(engine)
        }),
{
    let items = engine.items;
    let exhaustive = engine.exhaustive;
    let waiting = engine.waiting;
    let (next, moved) = advance(engine, placement, oracle);
    owed_is_natural(waiting, items.len());
    match engine.stage {
        Stage::Testing { lo, hi } => {
            let range = items.subrange(lo as int, hi as int);
            let whole = explore(range, placement, oracle, exhaustive);
            if oracle(placement.active) {
                assert(engine.found + whole.found =~= engine.found);
            } else if hi - lo <= 1 {
                assert(range[0] == items[lo as int]);
                assert(engine.found + whole.found =~= next.found);
            } else {
                let mid = midpoint(lo, hi);
                let lower = items.subrange(lo as int, mid as int);
                let upper = items.subrange(mid as int, hi as int);
                assert(lower_half(range) =~= lower);
                assert(upper_half(range) =~= upper);
                let below = explore(lower, placement.park(upper), oracle, exhaustive);
                let branch = Suspended { lo, hi, half: Half::Lower, below: false };
                assert(waiting.push(branch).drop_last() =~= waiting);
                assert(waiting.push(branch).last() == branch);
                if !exhaustive && below.found.len() > 0 {
                } else {
                    let above = explore(upper, below.placement.restore(upper), oracle, exhaustive);
                    let halves = below.found + above.found;
                    let so_far = (engine.found + below.found) + above.found;
                    let parent = Suspended { below: below.found.len() > 0, ..branch };
                    if halves.len() == 0 {
                        assert(engine.found + whole.found =~= so_far.push(
                            Classification::ModCombo(range),
                        ));
                    } else {
                        assert(engine.found + whole.found =~= so_far);
                    }
                    assert(engine.found + whole.found == parent.conclude(
                        items,
                        so_far,
                        above.found.len() > 0,
                    ));
                }
            }
        },
        Stage::Clearing { lo, hi, found } => {
            settle_keeps_outcome(engine, found, moved, oracle);
        },
        Stage::Parking { lo, hi } => {
            let branch = Suspended { lo, hi, half: Half::Lower, below: false };
            assert(waiting.push(branch).drop_last() =~= waiting);
            assert(waiting.push(branch).last() == branch);
        },
        Stage::Restoring { lo, hi, below } => {
            let branch = Suspended { lo, hi, half: Half::Upper, below };
            assert(waiting.push(branch).drop_last() =~= waiting);
            assert(waiting.push(branch).last() == branch);
        },
        Stage::Finished => {},
        Stage::Aborted => {},
    }
}

/// Enough rounds end the search, with what the engine was to lead to.
proof fn run_reaches_outcome(engine: Machine, placement: Placement, oracle: Oracle, rounds: nat)
    requires
        engine.wf(),
        !(engine.stage is Aborted),
        rounds >= budget(engine),
    ensures
        ({
            let (last, moved) = run(engine, placement, oracle, rounds);
            &&& last.stage is Finished
            &&& last.items == engine.items
            &&& last.exhaustive == engine.exhaustive
            &&& Exploration { found: last.found, placement: moved } == outcome(
                engine,
                placement,
                oracle,
            )
        }),
    decreases rounds,
{
    advance_keeps_outcome(engine, placement, oracle);
    owed_is_natural(engine.waiting, engine.items.len());
    if rounds > 0 {
        let (next, moved) = advance(engine, placement, oracle);
        run_reaches_outcome(next, moved, oracle, (rounds - 1) as nat);
    }
}

/// The engine finds what the search is said to find.
///
/// From its start, with an oracle for the verdicts and every move made as
/// asked, the engine is done within `rounds_for` rounds for its items, and
/// then holds the findings of `explore`, with the items where `explore`
/// leaves them. Further rounds change nothing.
pub proof fn engine_explores(
    items: Seq<ItemId>,
    exhaustive: bool,
    start: Placement,
    oracle: Oracle,
    rounds: nat,
)
    requires
        0 < items.len() <= usize::MAX,
        rounds >= rounds_for(items.len() as int),
    ensures
        ({
            let (engine, placement) = run(Machine::start(items, exhaustive), start, oracle, rounds);
            let whole = explore(items, start, oracle, exhaustive);
            &&& engine.pending() is Done
            &&& engine.found == whole.found
            &&& placement == whole.placement
        }),
{
    let engine = Machine::start(items, exhaustive);
    let whole = explore(items, start, oracle, exhaustive);
    assert(items.subrange(0, items.len() as int) =~= items);
    assert(engine.found + whole.found =~= whole.found);
    run_reaches_outcome(engine, start, oracle, rounds);
}

/// No round loses or duplicates an item.
proof fn run_keeps_partition(
    engine: Machine,
    placement: Placement,
    oracle: Oracle,
    rounds: nat,
    all: Set<ItemId>,
)
    requires
        placement.partitions(all),
    ensures
        run(engine, placement, oracle, rounds).1.partitions(all),
    decreases rounds,
{
    if rounds > 0 {
        let (next, moved) = advance(engine, placement, oracle);
        match engine.pending() {
            Action::Relocate { to, .. } => {
                placement.relocate_keeps_partition(all, engine.batch().to_set(), to);
            },
            _ => {},
        }
        run_keeps_partition(next, moved, oracle, (rounds - 1) as nat, all);
    }
}

/// Nothing is lost and nothing is duplicated.
///
/// Let every item be at exactly one of the two locations. Then, however
/// many rounds the engine goes through from whatever state, with whatever
/// verdicts, every item still is, and the items at the one location and
/// those at the other are together as many as there are items.
pub proof fn no_item_is_lost(
    engine: Machine,
    placement: Placement,
    oracle: Oracle,
    rounds: nat,
    all: Set<ItemId>,
)
    requires
        all.finite(),
        placement.partitions(all),
    ensures
        ({
            let after = run(engine, placement, oracle, rounds).1;
            &&& after.partitions(all)
            &&& after.active.len() + after.staging.len() == all.len()
        }),
{
    run_keeps_partition(engine, placement, oracle, rounds, all);
    run(engine, placement, oracle, rounds).1.partition_counts(all);
}

/// The items that are active at the engine's stage, in a search that began
/// with all of them active: the branch under trial, or about to be cleared
/// or halved; none once a branch is cleared.
pub open spec fn under_trial(engine: Machine) -> Set<ItemId> {
    match engine.stage {
        Stage::Testing { lo, hi } | Stage::Clearing { lo, hi, .. } | Stage::Parking { lo, hi } => {
            engine.items.subrange(lo as int, hi as int).to_set()
        },
        _ => Set::empty(),
    }
}

/// The items of the engine are all different, those of its stage are
/// active, and the others are staged.
spec fn in_step(engine: Machine, placement: Placement) -> bool {
    &&& engine.wf()
    &&& !(engine.stage is Aborted)
    &&& engine.items.no_duplicates()
    &&& placement.active == under_trial(engine)
    &&& placement.staging == engine.items.to_set().difference(placement.active)
}

/// A round leaves the engine and the placement in step.
proof fn advance_stays_in_step(engine: Machine, placement: Placement, oracle: Oracle)
    requires
        in_step(engine, placement),
    ensures
        in_step(advance(engine, placement, oracle).0, advance(engine, placement, oracle).1),
        advance(engine, placement, oracle).0.items == engine.items,
{
    let items = engine.items;
    let (next, moved) = advance(engine, placement, oracle);
    advance_keeps_outcome(engine, placement, oracle);
    match engine.stage {
        Stage::Clearing { lo, hi, found } => {
            settle_keeps_outcome(engine, found, moved, oracle);
            let range = items.subrange(lo as int, hi as int);
            assert forall|x: ItemId| range.to_set().contains(x) implies items.to_set().contains(
                x,
            ) by {
                let i = choose|i: int| 0 <= i < range.len() && range[i] == x;
                assert(items[lo + i] == x);
            }
            assert(moved.active =~= Set::empty());
            assert(moved.staging =~= items.to_set().difference(moved.active));
        },
        Stage::Parking { lo, hi } => {
            let mid = midpoint(lo, hi);
            let range = items.subrange(lo as int, hi as int);
            let lower = items.subrange(lo as int, mid as int);
            let upper = items.subrange(mid as int, hi as int);
            assert(lower_half(range) =~= lower);
            assert(upper_half(range) =~= upper);
            halves_cover(range);
            halves_apart(range);
            assert(moved.active =~= lower.to_set());
            assert(moved.staging =~= items.to_set().difference(moved.active));
        },
        Stage::Restoring { lo, hi, .. } => {
            let upper = items.subrange(midpoint(lo, hi) as int, hi as int);
            assert forall|x: ItemId| upper.to_set().contains(x) implies items.to_set().contains(
                x,
            ) by {
                let i = choose|i: int| 0 <= i < upper.len() && upper[i] == x;
                assert(items[midpoint(lo, hi) + i] == x);
            }
            assert(moved.active =~= upper.to_set());
            assert(moved.staging =~= items.to_set().difference(moved.active));
        },
        _ => {},
    }
}

/// Rounds leave the engine and the placement in step.
proof fn run_stays_in_step(engine: Machine, placement: Placement, oracle: Oracle, rounds: nat)
    requires
        in_step(engine, placement),
    ensures
        in_step(run(engine, placement, oracle, rounds).0, run(engine, placement, oracle, rounds).1),
        run(engine, placement, oracle, rounds).0.items == engine.items,
    decreases rounds,
{
    if rounds > 0 {
        advance_stays_in_step(engine, placement, oracle);
        let (next, moved) = advance(engine, placement, oracle);
        run_stays_in_step(next, moved, oracle, (rounds - 1) as nat);
    }
}

/// Every trial is of its branch and of nothing else.
///
/// Let the items be all different and all active when the engine starts.
/// Then after any number of rounds, whatever the verdicts were, the active
/// items are those of the branch that the engine is at, and all others are
/// staged. So each verdict that the engine asks for is one on exactly the
/// items of a branch: every move that a step needs is made before the next
/// trial.
pub proof fn every_trial_is_of_its_branch(
    items: Seq<ItemId>,
    exhaustive: bool,
    oracle: Oracle,
    rounds: nat,
)
    requires
        0 < items.len() <= usize::MAX,
        items.no_duplicates(),
    ensures
        ({
            let (engine, placement) = run(
                Machine::start(items, exhaustive),
                Placement::all_active(items),
                oracle,
                rounds,
            );
            &&& placement.active == under_trial(engine)
            &&& placement.staging == items.to_set().difference(placement.active)
            &&& engine.stage matches Stage::Testing { lo, hi } ==> placement.active
                == items.subrange(lo as int, hi as int).to_set()
        }),
{
    let engine = Machine::start(items, exhaustive);
    let placement = Placement::all_active(items);
    assert(items.subrange(0, items.len() as int) =~= items);
    assert(placement.staging =~= items.to_set().difference(placement.active));
    run_stays_in_step(engine, placement, oracle, rounds);
}

} // verus!
