//! The session: the items are gathered and made active, searched in rounds
//! for as long as the user goes on, and put back where they came from.

use rand::seq::SliceRandom;
use vstd::prelude::*;
use vstd::seq_lib::{to_multiset_contains, to_multiset_len};
use crate::bisect::{copy_range, Action, Bisection, Event, Machine};
use crate::classification::{ItemId, ProblemCauser};
use crate::oracle::{test_program, Trial};
use crate::placement::{transfer, Location};

verus! {

/// How a session is to be run.
#[derive(Debug, Clone, Copy, PartialEq, Eq, Structural)]
pub struct Config {
    /// The program is not run; the oracle is asked all the same.
    pub dummy_mode: bool,
    /// Each round looks for every cause, not for the first.
    pub exhaustive: bool,
    /// An empty storage is taken for the leavings of a session that broke
    /// off, and the items are looked for in the staging place.
    pub auto_recover: bool,
}

/// A place that a session moves items between.
#[derive(Debug, Clone, Copy, PartialEq, Eq, Structural)]
pub enum Place {
    /// Where the items are kept when no session runs.
    Storage,
    /// Where items wait while they are not under test.
    Staging,
    /// Where the program under test looks for its mods.
    Active,
}

/// The place that stands for a location of the search.
pub open spec fn place_of(location: Location) -> Place {
    match location {
        Location::Active => Place::Active,
        Location::Staging => Place::Staging,
    }
}

/// Why a session was given up.
#[derive(Debug, Clone, Copy, PartialEq, Eq, Structural)]
pub enum Reason {
    /// The storage held no item, and recovery was not asked for.
    EmptySource,
    /// There was no item to search, after recovery either.
    EmptyList,
    /// The program could not be started.
    ProgramFailed,
}

/// What the session is waiting for.
#[derive(Debug, Clone, Copy, PartialEq, Eq, Structural)]
pub enum SessionStage {
    /// The items, gathered from the storage, or from the staging place
    /// where `recovering`.
    Gathering { recovering: bool },
    /// The move of all items into the active location, before the first
    /// round where `first`.
    Materializing { first: bool },
    /// What the round's search asks for.
    Searching,
    /// Whether the user goes on.
    Asking,
    /// The move of all items out of the active location, at the end.
    Draining,
    /// The move of all items back to the storage, at the end.
    Returning,
    /// Nothing: the session is over and the items are in the storage.
    Finished,
    /// Nothing: a move or the gathering failed.
    Failed,
    /// Nothing: the session was given up.
    Abandoned(Reason),
}

/// What happened to the last thing the session asked for.
#[derive(Debug, Clone, Copy, PartialEq, Eq, Structural)]
pub enum SessionEvent {
    /// So many items were gathered; they are now staged, and the caller
    /// knows them by the numbers from 0 up.
    Gathered(usize),
    /// The gathering failed.
    GatherFailed,
    /// The move was made.
    Relocated,
    /// The move failed for good.
    RelocationFailed,
    /// The oracle judged the trial: `true` where the program ran well.
    Verdict(bool),
    /// The trial could not start the program.
    ProgramFailed,
    /// The user's answer to whether to go on.
    Continue(bool),
}

/// What the session asks for.
#[derive(Debug, Clone, Copy, PartialEq, Eq, Structural)]
pub enum SessionAction {
    /// Move everything at `from` to the staging place and say how many
    /// items that made.
    Gather { from: Place },
    /// Move the session's batch from `from` to `to`.
    Relocate { from: Place, to: Place, safety_net: bool },
    /// Carry out this trial and say what the verdict is.
    Test { trial: Trial },
    /// Show the findings and ask whether to go on.
    AskContinue,
    /// Nothing more: the session ended well.
    Exit,
    /// Nothing more: report the failure.
    Fail,
    /// Nothing more: give up for this reason.
    Abandon(Reason),
}

/// The numbers from 0 up to `count`, `count` left out.
pub open spec fn identity(count: nat) -> Seq<ItemId> {
    Seq::new(count, |i: int| i as usize)
}

/// The items are the numbers below their count, each once, in some order.
pub open spec fn is_order(order: Seq<ItemId>) -> bool {
    &&& order.len() <= usize::MAX
    &&& order.to_multiset() == identity(order.len()).to_multiset()
}

/// An order holds each number below its length, once, and nothing else.
pub proof fn order_is_distinct(order: Seq<ItemId>)
    requires
        is_order(order),
    ensures
        order.no_duplicates(),
        forall|item: ItemId| order.contains(item) <==> item < order.len(),
{
    let plain = identity(order.len());
    assert(plain.no_duplicates());
    plain.lemma_multiset_has_no_duplicates();
    order.lemma_multiset_has_no_duplicates_conv();
    assert forall|item: ItemId| order.contains(item) <==> item < order.len() by {
        to_multiset_contains(order, item);
        to_multiset_contains(plain, item);
        if item < order.len() {
            assert(plain[item as int] == item);
        }
    }
}

/// `rand::rngs::ThreadRng`: a handle to the calling thread's generator of
/// random numbers.
#[verifier::external_type_specification]
#[verifier::external_body]
pub struct ExThreadRng(rand::rngs::ThreadRng);

/// `rand::thread_rng`: the calling thread's generator, seeded by the
/// operating system when the thread first asks for it. Nothing is claimed
/// of it.
#[verifier::external_body]
fn thread_rng() -> rand::rngs::ThreadRng {
    rand::thread_rng()
}

/// `rand::seq::SliceRandom::shuffle` on a slice: the items change places
/// among themselves, by swaps that `rng` picks. Which order comes out is
/// left open; the items, and how often each occurs, stay.
#[verifier::external_body]
fn shuffle(order: &mut Vec<ItemId>, rng: &mut rand::rngs::ThreadRng)
    ensures
        final(order)@.to_multiset() == old(order)@.to_multiset(),
{
    order.shuffle(rng);
}

/// The numbers below `count`, in their order.
fn counting(count: usize) -> (order: Vec<ItemId>)
    ensures
        order@ == identity(count as nat),
{
    let mut order: Vec<ItemId> = Vec::new();
    let mut next: usize = 0;
    while next < count
        invariant
            next <= count,
            order@ == identity(next as nat),
        decreases count - next,
    {
        order.push(next);
        next += 1;
        assert(order@ =~= identity(next as nat));
    }
    order
}

/// Puts `order` into a random order, with the calling thread's generator:
/// the items, and how often each occurs, stay, and so does their number.
fn reshuffle(order: &mut Vec<ItemId>)
    ensures
        final(order)@.to_multiset() == old(order)@.to_multiset(),
        final(order)@.len() == old(order)@.len(),
        is_order(old(order)@) ==> is_order(final(order)@),
{
    let ghost before = order@;
    let mut rng = thread_rng();
    shuffle(order, &mut rng);
    proof {
        to_multiset_len(order@);
        to_multiset_len(before);
    }
}

/// The numbers below `count` in a random order: each of them once, and
/// nothing else.
pub fn shuffled_order(count: usize) -> (order: Vec<ItemId>)
    ensures
        order@.len() == count,
        is_order(order@),
        order@.no_duplicates(),
        forall|item: ItemId| order@.contains(item) <==> item < count,
{
    let mut order = counting(count);
    reshuffle(&mut order);
    proof {
        order_is_distinct(order@);
    }
    order
}

/// The place that stands for a location of the search.
pub fn place(location: Location) -> (place: Place)
    ensures
        place == place_of(location),
{
    match location {
        Location::Active => Place::Active,
        Location::Staging => Place::Staging,
    }
}

/// The session as a mathematical value.
pub struct Campaign {
    pub config: Config,
    /// The items, in the order in which the rounds search them.
    pub order: Seq<ItemId>,
    pub stage: SessionStage,
    /// The engine of the round under way, or of the last one.
    pub engine: Option<Machine>,
}

impl Campaign {
    /// The session before anything was done: it asks for the items.
    pub open spec fn start(config: Config) -> Campaign {
        Campaign {
            config,
            order: Seq::empty(),
            stage: SessionStage::Gathering { recovering: false },
            engine: None,
        }
    }

    /// There are items, each of them once.
    pub open spec fn has_items(self) -> bool {
        self.order.len() > 0 && is_order(self.order)
    }

    /// Once gathered the items are an order of one item at least; a round
    /// has a well-formed engine for them, which asks for something for as
    /// long as the round is under way.
    pub open spec fn wf(self) -> bool {
        match self.stage {
            SessionStage::Gathering { .. } | SessionStage::Failed | SessionStage::Abandoned(_) => true,
            SessionStage::Searching => {
                &&& self.has_items()
                &&& self.engine matches Some(engine)
                &&& engine.wf()
                &&& engine.items == self.order
                &&& engine.exhaustive == self.config.exhaustive
                &&& (engine.pending() is Test || engine.pending() is Relocate)
            },
            SessionStage::Asking => {
                &&& self.has_items()
                &&& self.engine matches Some(engine)
                &&& engine.wf()
                &&& engine.pending() is Done
            },
            _ => self.has_items(),
        }
    }

    /// What the session asks for in its stage.
    pub open spec fn pending(self) -> SessionAction {
        match self.stage {
            SessionStage::Gathering { recovering } => SessionAction::Gather {
                from: if recovering {
                    Place::Staging
                } else {
                    Place::Storage
                },
            },
            SessionStage::Materializing { .. } => SessionAction::Relocate {
                from: Place::Staging,
                to: Place::Active,
                safety_net: false,
            },
            SessionStage::Searching => match self.engine {
                Some(engine) => match engine.pending() {
                    Action::Relocate { to, .. } => SessionAction::Relocate {
                        from: place_of(to.other()),
                        to: place_of(to),
                        safety_net: false,
                    },
                    _ => SessionAction::Test { trial: Trial::first(self.config.dummy_mode) },
                },
                None => SessionAction::Fail,
            },
            SessionStage::Asking => SessionAction::AskContinue,
            SessionStage::Draining => SessionAction::Relocate {
                from: Place::Active,
                to: Place::Staging,
                safety_net: true,
            },
            SessionStage::Returning => SessionAction::Relocate {
                from: Place::Staging,
                to: Place::Storage,
                safety_net: true,
            },
            SessionStage::Finished => SessionAction::Exit,
            SessionStage::Failed => SessionAction::Fail,
            SessionStage::Abandoned(reason) => SessionAction::Abandon(reason),
        }
    }

    /// The items that the move the session asks for is to take; none where
    /// it asks for no move.
    pub open spec fn batch(self) -> Seq<ItemId> {
        match self.stage {
            SessionStage::Materializing { .. }
            | SessionStage::Draining
            | SessionStage::Returning => self.order,
            SessionStage::Searching => match self.engine {
                Some(engine) => engine.batch(),
                None => Seq::empty(),
            },
            _ => Seq::empty(),
        }
    }

    /// The session with a new round begun on `order`.
    pub open spec fn begin_round(self, order: Seq<ItemId>) -> Campaign {
        Campaign {
            order,
            stage: SessionStage::Searching,
            engine: Some(Machine::start(order, self.config.exhaustive)),
            ..self
        }
    }

    /// The session with its round's engine told `event`: the round is over
    /// once the engine asks for nothing more.
    pub open spec fn search_on(self, event: Event) -> Campaign {
        match self.engine {
            Some(engine) => {
                let next = engine.step(event);
                Campaign {
                    stage: match next.pending() {
                        Action::Done => SessionStage::Asking,
                        Action::Abort => SessionStage::Failed,
                        _ => SessionStage::Searching,
                    },
                    engine: Some(next),
                    ..self
                }
            },
            None => self,
        }
    }

    /// The session after `event`, where `shuffled` is the order that the
    /// shuffle before the first round gives. An event that does not answer
    /// what the session asks for changes nothing.
    ///
    /// The items are gathered from the storage; where there are none, they
    /// are looked for in the staging place if recovery was asked for, and
    /// else the session is given up, as it is where there are none after
    /// all. They are made active and shuffled, once. Then round follows
    /// round, each on the same order with all items active again, until the
    /// user has enough. At the end the items leave the active location and
    /// go back to the storage. A move or a gathering that fails ends the
    /// session as failed; a program that cannot be started has it given up.
    pub open spec fn step(self, event: SessionEvent, shuffled: Seq<ItemId>) -> Campaign {
        match (self.stage, event) {
            (SessionStage::Gathering { recovering }, SessionEvent::Gathered(count)) => if count > 0 {
                Campaign {
                    order: identity(count as nat),
                    stage: SessionStage::Materializing { first: true },
                    ..self
                }
            } else if recovering {
                Campaign { stage: SessionStage::Abandoned(Reason::EmptyList), ..self }
            } else if self.config.auto_recover {
                Campaign { stage: SessionStage::Gathering { recovering: true }, ..self }
            } else {
                Campaign { stage: SessionStage::Abandoned(Reason::EmptySource), ..self }
            },
            (SessionStage::Gathering { .. }, SessionEvent::GatherFailed) => Campaign {
                stage: SessionStage::Failed,
                ..self
            },
            (SessionStage::Materializing { first }, SessionEvent::Relocated) => self.begin_round(
                if first {
                    shuffled
                } else {
                    self.order
                },
            ),
            (SessionStage::Searching, SessionEvent::Verdict(passed)) => match self.pending() {
                SessionAction::Test { .. } => self.search_on(Event::Verdict(passed)),
                _ => self,
            },
            (SessionStage::Searching, SessionEvent::ProgramFailed) => match self.pending() {
                SessionAction::Test { .. } => Campaign {
                    stage: SessionStage::Abandoned(Reason::ProgramFailed),
                    ..self
                },
                _ => self,
            },
            (SessionStage::Searching, SessionEvent::Relocated) => match self.pending() {
                SessionAction::Relocate { .. } => self.search_on(Event::Relocated),
                _ => self,
            },
            (SessionStage::Searching, SessionEvent::RelocationFailed) => match self.pending() {
                SessionAction::Relocate { .. } => self.search_on(Event::RelocationFailed),
                _ => self,
            },
            (SessionStage::Asking, SessionEvent::Continue(again)) => Campaign {
                stage: if again {
                    SessionStage::Materializing { first: false }
                } else {
                    SessionStage::Draining
                },
                ..self
            },
            (SessionStage::Draining, SessionEvent::Relocated) => Campaign {
                stage: SessionStage::Returning,
                ..self
            },
            (SessionStage::Returning, SessionEvent::Relocated) => Campaign {
                stage: SessionStage::Finished,
                ..self
            },
            (SessionStage::Materializing { .. }, SessionEvent::RelocationFailed)
            | (SessionStage::Draining, SessionEvent::RelocationFailed)
            | (SessionStage::Returning, SessionEvent::RelocationFailed) => Campaign {
                stage: SessionStage::Failed,
                ..self
            },
            _ => self,
        }
    }
}

/// The session driver.
pub struct Session {
    config: Config,
    order: Vec<ItemId>,
    stage: SessionStage,
    engine: Option<Bisection>,
}

impl View for Session {
    type V = Campaign;

    closed spec fn view(&self) -> Campaign {
        Campaign {
            config: self.config,
            order: self.order@,
            stage: self.stage,
            engine: match self.engine {
                Some(engine) => Some(engine@),
                None => None,
            },
        }
    }
}

impl Session {
    /// The session is in a state that it can reach.
    pub open spec fn wf(&self) -> bool {
        self@.wf()
    }

    /// A session to be run as `config` says. It asks for the items.
    pub fn new(config: Config) -> (session: Session)
        ensures
            session.wf(),
            session@ == Campaign::start(config),
    {
        Session {
            config,
            order: Vec::new(),
            stage: SessionStage::Gathering { recovering: false },
            engine: None,
        }
    }

    /// What the session asks for now.
    pub fn pending(&self) -> (action: SessionAction)
        requires
            self.wf(),
        ensures
            action == self@.pending(),
    {
        match self.stage {
            SessionStage::Gathering { recovering } => SessionAction::Gather {
                from: if recovering {
                    Place::Staging
                } else {
                    Place::Storage
                },
            },
            SessionStage::Materializing { .. } => SessionAction::Relocate {
                from: Place::Staging,
                to: Place::Active,
                safety_net: false,
            },
            SessionStage::Searching => match &self.engine {
                Some(engine) => match engine.pending() {
                    Action::Relocate { to, .. } => SessionAction::Relocate {
                        from: place(to.opposite()),
                        to: place(to),
                        safety_net: false,
                    },
                    _ => SessionAction::Test { trial: test_program(self.config.dummy_mode) },
                },
                None => SessionAction::Fail,
            },
            SessionStage::Asking => SessionAction::AskContinue,
            SessionStage::Draining => SessionAction::Relocate {
                from: Place::Active,
                to: Place::Staging,
                safety_net: true,
            },
            SessionStage::Returning => SessionAction::Relocate {
                from: Place::Staging,
                to: Place::Storage,
                safety_net: true,
            },
            SessionStage::Finished => SessionAction::Exit,
            SessionStage::Failed => SessionAction::Fail,
            SessionStage::Abandoned(reason) => SessionAction::Abandon(reason),
        }
    }

    /// The items that the move the session asks for is to take.
    pub fn batch(&self) -> (items: Vec<ItemId>)
        requires
            self.wf(),
        ensures
            items@ == self@.batch(),
    {
        match self.stage {
            SessionStage::Materializing { .. }
            | SessionStage::Draining
            | SessionStage::Returning => {
                let all = copy_range(&self.order, 0, self.order.len());
                assert(all@ =~= self.order@);
                all
            },
            SessionStage::Searching => match &self.engine {
                Some(engine) => engine.batch(),
                None => Vec::new(),
            },
            _ => Vec::new(),
        }
    }

    /// The findings of the round under way or of the last one, in the order
    /// they were made; none before the first round.
    pub fn findings(&self) -> (found: Option<&Vec<ProblemCauser<ItemId>>>)
        ensures
            found is Some == self@.engine is Some,
            found matches Some(list) ==> crate::bisect::classified(list@)
                == self@.engine.unwrap().found,
    {
        match &self.engine {
            Some(engine) => Some(engine.findings()),
            None => None,
        }
    }

    /// Begins a round on the session's order.
    fn begin_round(&mut self)
        requires
            old(self)@.has_items(),
        ensures
            final(self).wf(),
            final(self)@ == old(self)@.begin_round(old(self)@.order),
    {
        let items = copy_range(&self.order, 0, self.order.len());
        assert(items@ =~= self.order@);
        self.engine = Some(Bisection::new(items, self.config.exhaustive));
        self.stage = SessionStage::Searching;
    }

    /// Tells the round's engine what happened.
    fn search_on(&mut self, event: Event)
        requires
            old(self).wf(),
            old(self)@.stage is Searching,
            old(self)@.engine.unwrap().accepts(event),
        ensures
            final(self).wf(),
            final(self)@ == old(self)@.search_on(event),
    {
        match self.engine.take() {
            Some(engine) => {
                let mut engine = engine;
                proof {
                    engine@.step_keeps_items(event);
                }
                let next = engine.step(event);
                self.stage = match next {
                    Action::Done => SessionStage::Asking,
                    Action::Abort => SessionStage::Failed,
                    _ => SessionStage::Searching,
                };
                self.engine = Some(engine);
            },
            None => {},
        }
    }

    /// Tells the session what happened and returns what it asks for next.
    ///
    /// The session goes on as `Campaign::step` says. The order that the
    /// shuffle gives is the one the session holds afterwards; it is an
    /// order of the same items.
    pub fn step(&mut self, event: SessionEvent) -> (next: SessionAction)
        requires
            old(self).wf(),
        ensures
            final(self).wf(),
            final(self)@ == old(self)@.step(event, final(self)@.order),
            old(self)@.stage is Materializing ==> final(self)@.order.to_multiset() == old(
                self,
            )@.order.to_multiset(),
            next == final(self)@.pending(),
    {
        let asked = self.pending();
        match (self.stage, event) {
            (SessionStage::Gathering { recovering }, SessionEvent::Gathered(count)) => {
                if count > 0 {
                    self.order = counting(count);
                    self.stage = SessionStage::Materializing { first: true };
                } else if recovering {
                    self.stage = SessionStage::Abandoned(Reason::EmptyList);
                } else if self.config.auto_recover {
                    self.stage = SessionStage::Gathering { recovering: true };
                } else {
                    self.stage = SessionStage::Abandoned(Reason::EmptySource);
                }
            },
            (SessionStage::Gathering { .. }, SessionEvent::GatherFailed) => {
                self.stage = SessionStage::Failed;
            },
            (SessionStage::Materializing { first }, SessionEvent::Relocated) => {
                if first {
                    reshuffle(&mut self.order);
                }
                self.begin_round();
            },
            (SessionStage::Searching, SessionEvent::Verdict(passed)) => {
                if let SessionAction::Test { .. } = asked {
                    self.search_on(Event::Verdict(passed));
                }
            },
            (SessionStage::Searching, SessionEvent::ProgramFailed) => {
                if let SessionAction::Test { .. } = asked {
                    self.stage = SessionStage::Abandoned(Reason::ProgramFailed);
                }
            },
            (SessionStage::Searching, SessionEvent::Relocated) => {
                if let SessionAction::Relocate { .. } = asked {
                    self.search_on(Event::Relocated);
                }
            },
            (SessionStage::Searching, SessionEvent::RelocationFailed) => {
                if let SessionAction::Relocate { .. } = asked {
                    self.search_on(Event::RelocationFailed);
                }
            },
            (SessionStage::Asking, SessionEvent::Continue(again)) => {
                self.stage = if again {
                    SessionStage::Materializing { first: false }
                } else {
                    SessionStage::Draining
                };
            },
            (SessionStage::Draining, SessionEvent::Relocated) => {
                self.stage = SessionStage::Returning;
            },
            (SessionStage::Returning, SessionEvent::Relocated) => {
                self.stage = SessionStage::Finished;
            },
            (SessionStage::Materializing { .. }, SessionEvent::RelocationFailed)
            | (SessionStage::Draining, SessionEvent::RelocationFailed)
            | (SessionStage::Returning, SessionEvent::RelocationFailed) => {
                self.stage = SessionStage::Failed;
            },
            _ => {},
        }
        self.pending()
    }
}

/// The end of a session puts everything back.
///
/// A session whose user has had enough asks for two moves of all its items,
/// both under the safety net: out of the active location, and from the
/// staging place to the storage. Then it is over. Where both moves are
/// made, every item that was at one of the three places is in the storage
/// and at neither of the others.
pub proof fn session_ends_with_everything_stored(
    session: Campaign,
    active: Set<ItemId>,
    staging: Set<ItemId>,
    storage: Set<ItemId>,
)
    requires
        session.wf(),
        session.stage is Draining,
    ensures
        ({
            let order = session.order;
            let drained = session.step(SessionEvent::Relocated, order);
            let over = drained.step(SessionEvent::Relocated, order);
            let (still_active, staged) = transfer(active, staging, order.to_set());
            let (still_staged, stored) = transfer(staged, storage, order.to_set());
            &&& session.pending() == (SessionAction::Relocate {
                from: Place::Active,
                to: Place::Staging,
                safety_net: true,
            })
            &&& session.batch() == order
            &&& drained.pending() == (SessionAction::Relocate {
                from: Place::Staging,
                to: Place::Storage,
                safety_net: true,
            })
            &&& drained.batch() == order
            &&& over.pending() == SessionAction::Exit
            &&& forall|item: ItemId|
                order.contains(item) ==> !still_active.contains(item) && !still_staged.contains(
                    item,
                )
            &&& forall|item: ItemId|
                order.contains(item) && (active.contains(item) || staging.contains(item)
                    || storage.contains(item)) ==> stored.contains(item)
        }),
{
}

} // verus!
