use modtester::bisect::{copy_cause, Action, Bisection, Event};
use modtester::classification::ProblemCauser;
use modtester::placement::Location;
use std::collections::BTreeSet;

struct Shelves {
    active: BTreeSet<usize>,
    staging: BTreeSet<usize>,
    trials: Vec<BTreeSet<usize>>,
    rounds: usize,
}

fn shelves(items: &[usize]) -> Shelves {
    Shelves {
        active: items.iter().copied().collect(),
        staging: BTreeSet::new(),
        trials: Vec::new(),
        rounds: 0,
    }
}

fn shift(shelves: &mut Shelves, batch: &[usize], to: Location) {
    for item in batch {
        match to {
            Location::Staging => {
                if shelves.active.remove(item) {
                    assert!(shelves.staging.insert(*item));
                }
            }
            Location::Active => {
                if shelves.staging.remove(item) {
                    assert!(shelves.active.insert(*item));
                }
            }
        }
    }
}

fn drive(
    items: Vec<usize>,
    exhaustive: bool,
    passes: &dyn Fn(&BTreeSet<usize>) -> bool,
) -> (Bisection, Shelves) {
    let count = items.len();
    let mut world = shelves(&items);
    let mut engine = Bisection::new(items, exhaustive);
    let mut action = engine.pending();
    loop {
        assert_eq!(world.active.len() + world.staging.len(), count);
        assert!(world.active.is_disjoint(&world.staging));
        match action {
            Action::Test => {
                world.trials.push(world.active.clone());
                action = engine.step(Event::Verdict(passes(&world.active)));
            }
            Action::Relocate { lo, hi, to } => {
                let batch = engine.batch();
                assert_eq!(batch, engine.items()[lo..hi].to_vec());
                shift(&mut world, &batch, to);
                action = engine.step(Event::Relocated);
            }
            Action::Done | Action::Abort => break,
        }
        world.rounds += 1;
        assert!(world.rounds <= 5 * count);
    }
    assert_eq!(action, Action::Done);
    (engine, world)
}

// The search as one recursive function, with the oracle and the shelves at hand.
fn by_recursion(
    items: &[usize],
    exhaustive: bool,
    world: &mut Shelves,
    passes: &dyn Fn(&BTreeSet<usize>) -> bool,
) -> Vec<ProblemCauser<usize>> {
    // a branch is tried with its own items active and no others
    assert_eq!(world.active, items.iter().copied().collect::<BTreeSet<usize>>());
    world.trials.push(world.active.clone());
    if passes(&world.active) {
        shift(world, items, Location::Staging);
        return Vec::new();
    }
    if items.len() == 1 {
        shift(world, items, Location::Staging);
        return vec![ProblemCauser::SingleMod(items[0])];
    }
    let midpoint = items.len() / 2;
    shift(world, &items[midpoint..], Location::Staging);
    let mut found = by_recursion(&items[..midpoint], exhaustive, world, passes);
    if !exhaustive && !found.is_empty() {
        return found;
    }
    shift(world, &items[midpoint..], Location::Active);
    let mut above = by_recursion(&items[midpoint..], exhaustive, world, passes);
    found.append(&mut above);
    if found.is_empty() {
        return vec![ProblemCauser::ModCombo(items.to_vec())];
    }
    found
}

fn orders_of(count: usize) -> Vec<Vec<usize>> {
    let plain: Vec<usize> = (0..count).collect();
    let mut reversed = plain.clone();
    reversed.reverse();
    let mut rotated = plain.clone();
    rotated.rotate_left(count / 3);
    let mut strided: Vec<usize> = Vec::new();
    let mut at = 0;
    for _ in 0..count {
        strided.push(plain[at % count]);
        at += if count % 3 == 0 { count + 1 } else { 3 };
    }
    let mut seen = strided.clone();
    seen.sort();
    if seen != plain {
        strided = plain.clone();
        strided.swap(0, count - 1);
    }
    vec![plain, reversed, rotated, strided]
}

#[test]
fn single_offender_is_isolated() {
    for count in 1..=9usize {
        for order in orders_of(count) {
            for culprit in 0..count {
                let (engine, world) = drive(order.clone(), false, &|active| !active.contains(&culprit));
                assert_eq!(engine.result(), ProblemCauser::SingleMod(culprit));
                assert_eq!(engine.findings(), &vec![ProblemCauser::SingleMod(culprit)]);
                assert!(world.active.is_empty());
                assert_eq!(world.staging.len(), count);
            }
        }
    }
}

#[test]
fn single_offender_is_isolated_exhaustively() {
    for count in 1..=9usize {
        for order in orders_of(count) {
            for culprit in 0..count {
                let (engine, world) = drive(order.clone(), true, &|active| !active.contains(&culprit));
                assert_eq!(engine.findings(), &vec![ProblemCauser::SingleMod(culprit)]);
                assert!(world.active.is_empty());
            }
        }
    }
}

#[test]
fn pair_of_two_is_a_combo() {
    for exhaustive in [false, true] {
        let (engine, world) = drive(vec![4, 9], exhaustive, &|active| {
            !(active.contains(&4) && active.contains(&9))
        });
        assert_eq!(engine.findings(), &vec![ProblemCauser::ModCombo(vec![4, 9])]);
        assert_eq!(engine.result(), ProblemCauser::ModCombo(vec![4, 9]));
        assert_eq!(world.trials.len(), 3);
        assert!(world.active.is_empty());
    }
}

#[test]
fn pair_is_found_together() {
    for count in 2..=9usize {
        for order in orders_of(count) {
            for one in 0..count {
                for other in (one + 1)..count {
                    for exhaustive in [false, true] {
                        let (engine, world) = drive(order.clone(), exhaustive, &|active| {
                            !(active.contains(&one) && active.contains(&other))
                        });
                        let found = engine.findings();
                        assert_eq!(found.len(), 1);
                        match &found[0] {
                            ProblemCauser::ModCombo(together) => {
                                assert!(together.contains(&one));
                                assert!(together.contains(&other));
                            }
                            other_kind => panic!("not a combination: {:?}", other_kind),
                        }
                        assert!(world.active.is_empty());
                    }
                }
            }
        }
    }
}

#[test]
fn combo_is_the_smallest_branch_with_both() {
    // 0 and 1 stand in the same quarter of eight items; 0 and 5 in different halves.
    let order: Vec<usize> = (0..8).collect();
    let (near, _) = drive(order.clone(), false, &|active| !(active.contains(&0) && active.contains(&1)));
    assert_eq!(near.result(), ProblemCauser::ModCombo(vec![0, 1]));
    let (mid, _) = drive(order.clone(), false, &|active| !(active.contains(&1) && active.contains(&2)));
    assert_eq!(mid.result(), ProblemCauser::ModCombo(vec![0, 1, 2, 3]));
    let (far, _) = drive(order, false, &|active| !(active.contains(&0) && active.contains(&5)));
    assert_eq!(far.result(), ProblemCauser::ModCombo((0..8).collect()));
}

#[test]
fn no_fault_clears_everything() {
    for count in 1..=9usize {
        for exhaustive in [false, true] {
            let (engine, world) = drive((0..count).collect(), exhaustive, &|_| true);
            assert_eq!(engine.result(), ProblemCauser::Clear);
            assert!(engine.findings().is_empty());
            assert!(world.active.is_empty());
            assert_eq!(world.staging, (0..count).collect::<BTreeSet<usize>>());
            assert_eq!(world.trials.len(), 1);
            assert_eq!(world.rounds, 2);
        }
    }
}

#[test]
fn two_offenders_among_eight_are_both_found() {
    for order in orders_of(8) {
        for first in 0..8usize {
            for second in (first + 1)..8usize {
                let (x, y) = (order[first], order[second]);
                let (engine, world) = drive(order.clone(), true, &|active| {
                    !(active.contains(&x) || active.contains(&y))
                });
                assert_eq!(
                    engine.findings(),
                    &vec![ProblemCauser::SingleMod(x), ProblemCauser::SingleMod(y)]
                );
                assert!(world.active.is_empty());
            }
        }
    }
}

#[test]
fn first_fault_search_stops_at_the_first_of_two_offenders() {
    let (engine, world) = drive((0..8).collect(), false, &|active| {
        !(active.contains(&2) || active.contains(&6))
    });
    assert_eq!(engine.result(), ProblemCauser::SingleMod(2));
    assert_eq!(engine.findings().len(), 1);
    // the upper half was parked at the start and never tested
    assert!(world.trials.iter().all(|active| !active.contains(&6) || active.len() == 8));
    assert!(world.active.is_empty());
}

#[test]
fn every_subset_of_lone_offenders_is_singled_out() {
    let count = 6usize;
    for mask in 0u32..(1 << count) {
        let offenders: BTreeSet<usize> = (0..count).filter(|i| mask & (1 << i) != 0).collect();
        let order: Vec<usize> = vec![3, 0, 5, 1, 4, 2];
        let (engine, _) = drive(order.clone(), true, &|active| active.is_disjoint(&offenders));
        let wanted: Vec<ProblemCauser<usize>> = order
            .iter()
            .filter(|item| offenders.contains(item))
            .map(|item| ProblemCauser::SingleMod(*item))
            .collect();
        assert_eq!(engine.findings(), &wanted);
    }
}

#[test]
fn engine_agrees_with_the_recursive_search() {
    // every oracle that fails on a fixed family of groups, over five items
    let count = 5usize;
    let order: Vec<usize> = vec![2, 4, 0, 3, 1];
    let groups: Vec<BTreeSet<usize>> = vec![
        [0].into_iter().collect(),
        [1, 2].into_iter().collect(),
        [3, 4].into_iter().collect(),
        [0, 4].into_iter().collect(),
        [1, 3, 4].into_iter().collect(),
        [2].into_iter().collect(),
    ];
    for mask in 0u32..(1 << groups.len()) {
        let chosen: Vec<&BTreeSet<usize>> =
            groups.iter().enumerate().filter(|(i, _)| mask & (1 << i) != 0).map(|(_, g)| g).collect();
        let passes = |active: &BTreeSet<usize>| !chosen.iter().any(|group| group.is_subset(active));
        for exhaustive in [false, true] {
            let (engine, world) = drive(order.clone(), exhaustive, &passes);
            let mut other = shelves(&order);
            let wanted = by_recursion(&order, exhaustive, &mut other, &passes);
            assert_eq!(engine.findings(), &wanted);
            assert_eq!(world.trials, other.trials);
            assert_eq!(world.active, other.active);
            assert_eq!(world.staging, other.staging);
            assert_eq!(world.staging.len(), count);
        }
    }
}

#[test]
fn findings_are_borne_out_and_the_kinds_agree_on_the_first() {
    let order: Vec<usize> = vec![2, 4, 0, 3, 1, 5];
    let groups: Vec<BTreeSet<usize>> = vec![
        [5].into_iter().collect(),
        [1, 2].into_iter().collect(),
        [0, 3].into_iter().collect(),
        [2, 4, 0].into_iter().collect(),
        [3, 1, 5].into_iter().collect(),
        [4].into_iter().collect(),
        [0, 1, 2, 3, 4, 5].into_iter().collect(),
    ];
    for mask in 0u32..(1 << groups.len()) {
        let chosen: Vec<&BTreeSet<usize>> =
            groups.iter().enumerate().filter(|(i, _)| mask & (1 << i) != 0).map(|(_, g)| g).collect();
        let passes = |active: &BTreeSet<usize>| !chosen.iter().any(|group| group.is_subset(active));
        let all: BTreeSet<usize> = order.iter().copied().collect();
        let (every, _) = drive(order.clone(), true, &passes);
        let (first, _) = drive(order.clone(), false, &passes);
        for engine in [&every, &first] {
            assert_eq!(engine.findings().is_empty(), passes(&all));
            for finding in engine.findings() {
                match finding {
                    ProblemCauser::SingleMod(item) => {
                        assert!(order.contains(item));
                        assert!(!passes(&[*item].into_iter().collect()));
                    }
                    ProblemCauser::ModCombo(together) => {
                        assert!(together.len() >= 2);
                        let half = together.len() / 2;
                        assert!(!passes(&together.iter().copied().collect()));
                        assert!(passes(&together[..half].iter().copied().collect()));
                        assert!(passes(&together[half..].iter().copied().collect()));
                    }
                    ProblemCauser::Clear => panic!("a finding that finds nothing"),
                }
            }
        }
        assert_eq!(every.result(), first.result());
        assert!(first.findings().len() <= 1);
        // no item is named twice, and a combination is a stretch of the order
        let mut seen: BTreeSet<usize> = BTreeSet::new();
        for finding in every.findings() {
            let names: Vec<usize> = match finding {
                ProblemCauser::SingleMod(item) => vec![*item],
                ProblemCauser::ModCombo(together) => {
                    assert!(order.windows(together.len()).any(|window| window == &together[..]));
                    together.clone()
                }
                ProblemCauser::Clear => Vec::new(),
            };
            for item in names {
                assert!(seen.insert(item));
            }
        }
        // the oracle is monotone: no item that fails alone is missed
        for item in &order {
            if !passes(&[*item].into_iter().collect()) {
                assert!(every.findings().contains(&ProblemCauser::SingleMod(*item)));
            }
        }
    }
}

#[test]
fn odd_branch_has_the_smaller_half_first() {
    let mut engine = Bisection::new(vec![7, 8, 9], false);
    assert_eq!(engine.pending(), Action::Test);
    // three items fail: the upper two are parked, the lower one is tested
    assert_eq!(
        engine.step(Event::Verdict(false)),
        Action::Relocate { lo: 1, hi: 3, to: Location::Staging }
    );
    assert_eq!(engine.batch(), vec![8, 9]);
    assert_eq!(engine.step(Event::Relocated), Action::Test);
    // the lower one passes: it is cleared, and the upper two come back
    assert_eq!(
        engine.step(Event::Verdict(true)),
        Action::Relocate { lo: 0, hi: 1, to: Location::Staging }
    );
    assert_eq!(engine.batch(), vec![7]);
    assert_eq!(
        engine.step(Event::Relocated),
        Action::Relocate { lo: 1, hi: 3, to: Location::Active }
    );
    assert_eq!(engine.batch(), vec![8, 9]);
    assert_eq!(engine.step(Event::Relocated), Action::Test);
    // the upper two fail: 9 is parked, 8 is tested and fails
    assert_eq!(
        engine.step(Event::Verdict(false)),
        Action::Relocate { lo: 2, hi: 3, to: Location::Staging }
    );
    assert_eq!(engine.step(Event::Relocated), Action::Test);
    assert_eq!(
        engine.step(Event::Verdict(false)),
        Action::Relocate { lo: 1, hi: 2, to: Location::Staging }
    );
    assert!(engine.findings().len() == 1);
    assert_eq!(engine.step(Event::Relocated), Action::Done);
    assert_eq!(engine.result(), ProblemCauser::SingleMod(8));
    assert_eq!(engine.batch(), Vec::<usize>::new());
}

#[test]
fn exhaustive_search_restores_after_a_finding() {
    let mut engine = Bisection::new(vec![7, 8], true);
    assert_eq!(
        engine.step(Event::Verdict(false)),
        Action::Relocate { lo: 1, hi: 2, to: Location::Staging }
    );
    assert_eq!(engine.step(Event::Relocated), Action::Test);
    assert_eq!(
        engine.step(Event::Verdict(false)),
        Action::Relocate { lo: 0, hi: 1, to: Location::Staging }
    );
    // a finding, and still the upper half is brought back and tested
    assert_eq!(
        engine.step(Event::Relocated),
        Action::Relocate { lo: 1, hi: 2, to: Location::Active }
    );
    assert_eq!(engine.step(Event::Relocated), Action::Test);
    assert_eq!(
        engine.step(Event::Verdict(true)),
        Action::Relocate { lo: 1, hi: 2, to: Location::Staging }
    );
    assert_eq!(engine.step(Event::Relocated), Action::Done);
    assert_eq!(engine.findings(), &vec![ProblemCauser::SingleMod(7)]);
}

#[test]
fn failed_move_aborts_the_search() {
    let mut engine = Bisection::new(vec![1, 2, 3, 4], false);
    assert_eq!(
        engine.step(Event::Verdict(false)),
        Action::Relocate { lo: 2, hi: 4, to: Location::Staging }
    );
    assert_eq!(engine.step(Event::RelocationFailed), Action::Abort);
    // nothing is asked for any more, whatever is told
    assert_eq!(engine.step(Event::Relocated), Action::Abort);
    assert_eq!(engine.step(Event::Verdict(true)), Action::Abort);
    assert_eq!(engine.pending(), Action::Abort);
    assert_eq!(engine.result(), ProblemCauser::Clear);
}

#[test]
fn event_that_was_not_asked_for_is_passed_over() {
    let mut engine = Bisection::new(vec![1, 2], false);
    assert_eq!(engine.step(Event::Relocated), Action::Test);
    assert_eq!(engine.step(Event::RelocationFailed), Action::Test);
    assert_eq!(
        engine.step(Event::Verdict(true)),
        Action::Relocate { lo: 0, hi: 2, to: Location::Staging }
    );
    assert_eq!(
        engine.step(Event::Verdict(false)),
        Action::Relocate { lo: 0, hi: 2, to: Location::Staging }
    );
    assert_eq!(engine.step(Event::Relocated), Action::Done);
    assert_eq!(engine.step(Event::Relocated), Action::Done);
    assert_eq!(engine.step(Event::Verdict(false)), Action::Done);
    assert_eq!(engine.result(), ProblemCauser::Clear);
}

#[test]
fn search_takes_at_most_five_rounds_an_item_less_three() {
    // every trial fails: the longest search there is
    for count in 1..=16usize {
        let (engine, world) = drive((0..count).collect(), true, &|_| false);
        assert_eq!(world.rounds, 5 * count - 3);
        assert_eq!(engine.findings().len(), count);
    }
}

#[test]
fn copy_of_a_cause_is_equal_to_it() {
    let combo = ProblemCauser::ModCombo(vec![1, 2, 3]);
    assert_eq!(copy_cause(&combo), combo);
    assert_eq!(copy_cause(&ProblemCauser::ModCombo(Vec::<usize>::new())), ProblemCauser::ModCombo(vec![]));
    assert_eq!(copy_cause(&ProblemCauser::SingleMod(4)), ProblemCauser::SingleMod(4));
    assert_eq!(copy_cause(&ProblemCauser::<usize>::Clear), ProblemCauser::Clear);
}

#[test]
fn is_some_tells_a_cause_from_none() {
    assert!(ProblemCauser::SingleMod(3usize).is_some());
    assert!(ProblemCauser::ModCombo(vec![1usize, 2]).is_some());
    assert!(ProblemCauser::ModCombo(Vec::<usize>::new()).is_some());
    assert!(!ProblemCauser::<usize>::Clear.is_some());
}
