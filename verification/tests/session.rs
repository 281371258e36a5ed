use modtester::classification::ProblemCauser;
use modtester::oracle::{Trial, TrialStage};
use modtester::placement::Location;
use modtester::session::{
    place, shuffled_order, Config, Place, Reason, Session, SessionAction, SessionEvent,
};
use std::collections::BTreeSet;

fn config(dummy_mode: bool, exhaustive: bool, auto_recover: bool) -> Config {
    Config { dummy_mode, exhaustive, auto_recover }
}

const TO_ACTIVE: SessionAction =
    SessionAction::Relocate { from: Place::Staging, to: Place::Active, safety_net: false };
const OUT_OF_ACTIVE: SessionAction =
    SessionAction::Relocate { from: Place::Active, to: Place::Staging, safety_net: false };

#[test]
fn shuffled_order_holds_each_number_once() {
    for count in [0usize, 1, 2, 3, 17, 100] {
        let mut order = shuffled_order(count);
        assert_eq!(order.len(), count);
        order.sort();
        assert_eq!(order, (0..count).collect::<Vec<usize>>());
    }
}

#[test]
fn shuffled_order_is_shuffled() {
    // forty numbers come out in their own order once in 40! times
    let plain: Vec<usize> = (0..40).collect();
    let first = shuffled_order(40);
    let second = shuffled_order(40);
    assert_ne!(first, plain);
    assert_ne!(second, plain);
    assert_ne!(first, second);
}

#[test]
fn places_of_the_two_locations() {
    assert_eq!(place(Location::Active), Place::Active);
    assert_eq!(place(Location::Staging), Place::Staging);
    assert_eq!(Location::Active.opposite(), Location::Staging);
    assert_eq!(Location::Staging.opposite(), Location::Active);
}

#[test]
fn session_gathers_then_makes_all_active() {
    let mut session = Session::new(config(false, false, false));
    assert_eq!(session.pending(), SessionAction::Gather { from: Place::Storage });
    assert!(session.findings().is_none());
    assert_eq!(session.batch(), Vec::<usize>::new());
    assert_eq!(session.step(SessionEvent::Gathered(3)), TO_ACTIVE);
    // the first move is made in the order of the gathering
    assert_eq!(session.batch(), vec![0, 1, 2]);
    assert_eq!(
        session.step(SessionEvent::Relocated),
        SessionAction::Test { trial: Trial { stage: TrialStage::Launching } }
    );
}

#[test]
fn empty_storage_gives_up_or_recovers() {
    let mut plain = Session::new(config(false, false, false));
    assert_eq!(
        plain.step(SessionEvent::Gathered(0)),
        SessionAction::Abandon(Reason::EmptySource)
    );
    assert_eq!(plain.step(SessionEvent::Gathered(4)), SessionAction::Abandon(Reason::EmptySource));

    let mut recovering = Session::new(config(false, false, true));
    assert_eq!(
        recovering.step(SessionEvent::Gathered(0)),
        SessionAction::Gather { from: Place::Staging }
    );
    assert_eq!(recovering.step(SessionEvent::Gathered(2)), TO_ACTIVE);

    let mut hopeless = Session::new(config(false, false, true));
    assert_eq!(
        hopeless.step(SessionEvent::Gathered(0)),
        SessionAction::Gather { from: Place::Staging }
    );
    assert_eq!(
        hopeless.step(SessionEvent::Gathered(0)),
        SessionAction::Abandon(Reason::EmptyList)
    );
}

#[test]
fn failures_end_the_session() {
    let mut session = Session::new(config(true, false, false));
    assert_eq!(session.step(SessionEvent::GatherFailed), SessionAction::Fail);
    assert_eq!(session.step(SessionEvent::Gathered(1)), SessionAction::Fail);

    let mut session = Session::new(config(true, false, false));
    session.step(SessionEvent::Gathered(2));
    assert_eq!(session.step(SessionEvent::RelocationFailed), SessionAction::Fail);

    let mut session = Session::new(config(true, false, false));
    session.step(SessionEvent::Gathered(2));
    session.step(SessionEvent::Relocated);
    // a move within the search fails
    assert!(matches!(
        session.step(SessionEvent::Verdict(false)),
        SessionAction::Relocate { from: Place::Active, to: Place::Staging, safety_net: false }
    ));
    assert_eq!(session.step(SessionEvent::RelocationFailed), SessionAction::Fail);
    assert_eq!(session.step(SessionEvent::Relocated), SessionAction::Fail);

    let mut session = Session::new(config(false, false, false));
    session.step(SessionEvent::Gathered(2));
    session.step(SessionEvent::Relocated);
    assert_eq!(
        session.step(SessionEvent::ProgramFailed),
        SessionAction::Abandon(Reason::ProgramFailed)
    );
}

#[test]
fn dummy_mode_asks_for_trials_that_do_not_run_the_program() {
    let mut session = Session::new(config(true, false, false));
    session.step(SessionEvent::Gathered(1));
    assert_eq!(
        session.step(SessionEvent::Relocated),
        SessionAction::Test { trial: Trial { stage: TrialStage::Asking } }
    );
}

// Runs a session with `count` items against shelves and an oracle, for `rounds` rounds.
fn run_session(
    count: usize,
    setup: Config,
    rounds: usize,
    passes: &dyn Fn(&BTreeSet<usize>) -> bool,
) -> (Vec<Vec<ProblemCauser<usize>>>, Vec<BTreeSet<usize>>) {
    let mut storage: BTreeSet<usize> = (0..count).collect();
    let mut staging: BTreeSet<usize> = BTreeSet::new();
    let mut active: BTreeSet<usize> = BTreeSet::new();
    let mut reports = Vec::new();
    let mut session = Session::new(setup);
    let mut action = session.pending();
    loop {
        assert_eq!(storage.len() + staging.len() + active.len(), count);
        let event = match action {
            SessionAction::Gather { from } => {
                assert_eq!(from, Place::Storage);
                staging.append(&mut storage);
                SessionEvent::Gathered(count)
            }
            SessionAction::Relocate { from, to, .. } => {
                for item in session.batch() {
                    let taken = match from {
                        Place::Storage => storage.remove(&item),
                        Place::Staging => staging.remove(&item),
                        Place::Active => active.remove(&item),
                    };
                    if taken {
                        match to {
                            Place::Storage => storage.insert(item),
                            Place::Staging => staging.insert(item),
                            Place::Active => active.insert(item),
                        };
                    }
                }
                SessionEvent::Relocated
            }
            SessionAction::Test { trial } => {
                assert_eq!(trial.stage, TrialStage::Asking);
                SessionEvent::Verdict(passes(&active))
            }
            SessionAction::AskContinue => {
                assert!(active.is_empty());
                let found = session.findings().unwrap();
                reports.push(found.iter().map(modtester::bisect::copy_cause).collect());
                SessionEvent::Continue(reports.len() < rounds)
            }
            SessionAction::Exit => break,
            other => panic!("the session went wrong: {:?}", other),
        };
        action = session.step(event);
    }
    (reports, vec![storage, staging, active])
}

#[test]
fn session_finds_the_offender_and_puts_everything_back() {
    let (reports, places) = run_session(7, config(true, false, false), 1, &|active| {
        !active.contains(&4)
    });
    assert_eq!(reports, vec![vec![ProblemCauser::SingleMod(4)]]);
    assert_eq!(places[0], (0..7).collect::<BTreeSet<usize>>());
    assert!(places[1].is_empty());
    assert!(places[2].is_empty());
}

#[test]
fn session_searches_again_for_as_long_as_the_user_goes_on() {
    let (reports, places) = run_session(8, config(true, true, false), 3, &|active| {
        !(active.contains(&1) || active.contains(&6))
    });
    assert_eq!(reports.len(), 3);
    for found in &reports {
        let mut items: Vec<usize> = found
            .iter()
            .map(|cause| match cause {
                ProblemCauser::SingleMod(item) => *item,
                other => panic!("not a single item: {:?}", other),
            })
            .collect();
        items.sort();
        assert_eq!(items, vec![1, 6]);
    }
    // every round searched the same order
    assert_eq!(reports[0], reports[1]);
    assert_eq!(reports[1], reports[2]);
    assert_eq!(places[0].len(), 8);
}

#[test]
fn session_ends_with_two_moves_under_the_safety_net() {
    let mut session = Session::new(config(true, false, false));
    session.step(SessionEvent::Gathered(1));
    session.step(SessionEvent::Relocated);
    assert_eq!(session.step(SessionEvent::Verdict(true)), OUT_OF_ACTIVE);
    assert_eq!(session.step(SessionEvent::Relocated), SessionAction::AskContinue);
    assert_eq!(session.findings().unwrap().len(), 0);
    assert_eq!(
        session.step(SessionEvent::Continue(false)),
        SessionAction::Relocate { from: Place::Active, to: Place::Staging, safety_net: true }
    );
    assert_eq!(session.batch(), vec![0]);
    assert_eq!(
        session.step(SessionEvent::Relocated),
        SessionAction::Relocate { from: Place::Staging, to: Place::Storage, safety_net: true }
    );
    assert_eq!(session.batch(), vec![0]);
    assert_eq!(session.step(SessionEvent::Relocated), SessionAction::Exit);
    assert_eq!(session.step(SessionEvent::Relocated), SessionAction::Exit);
}

#[test]
fn session_goes_on_with_all_items_active_again() {
    let mut session = Session::new(config(true, false, false));
    session.step(SessionEvent::Gathered(2));
    session.step(SessionEvent::Relocated);
    session.step(SessionEvent::Verdict(true));
    assert_eq!(session.step(SessionEvent::Relocated), SessionAction::AskContinue);
    assert_eq!(session.step(SessionEvent::Verdict(true)), SessionAction::AskContinue);
    assert_eq!(session.step(SessionEvent::Continue(true)), TO_ACTIVE);
    let mut batch = session.batch();
    batch.sort();
    assert_eq!(batch, vec![0, 1]);
    assert_eq!(
        session.step(SessionEvent::Relocated),
        SessionAction::Test { trial: Trial { stage: TrialStage::Asking } }
    );
    assert_eq!(session.findings().unwrap().len(), 0);
}
