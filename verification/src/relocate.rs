//! The relocator: a batch of items moved from one place to another, one
//! decision at a time.
//!
//! For each item in turn the relocator asks whether it is at the source,
//! and then for its move. A move that fails because the file is in use is
//! tried once more after a pause; any other failure, and a second one, ends
//! the batch.

use vstd::prelude::*;
use crate::classification::ItemId;
use crate::placement::transfer;

verus! {

/// The operating system's code for a file that another process has open.
pub const SHARING_VIOLATION: i32 = 32;

/// The pause before a move is tried again, in seconds.
pub const RETRY_DELAY_SECS: u64 = 5;

/// What the relocator reads of a move that failed.
#[derive(Debug, Clone, Copy, PartialEq, Eq)]
pub struct MoveFailure {
    /// The operating system's code for the failure, where it gave one.
    pub os_code: Option<i32>,
}

impl MoveFailure {
    /// The failure may pass: the file is in use. Every other failure, a
    /// denied permission too, is there to stay.
    pub open spec fn transient(self) -> bool {
        self.os_code == Some(SHARING_VIOLATION)
    }

    /// Whether the move is worth one more try.
    pub fn is_transient(&self) -> (again: bool)
        ensures
            again == self.transient(),
    {
        match self.os_code {
            Some(code) => code == SHARING_VIOLATION,
            None => false,
        }
    }
}

/// What the relocator is waiting for.
#[derive(Debug, Clone, Copy, PartialEq, Eq, Structural)]
pub enum MoveStage {
    /// Whether the item is at the source.
    Probing,
    /// The first try at the item's move.
    Moving,
    /// The second try at the item's move, after the pause.
    Retrying,
    /// The warning that the item was not at the source.
    Warning,
    /// Nothing: every item was moved or was not there.
    Finished,
    /// Nothing: a move failed for good and the rest was left alone.
    Failed,
}

/// What happened to the last thing the relocator asked for.
#[derive(Debug, Clone, Copy, PartialEq, Eq)]
pub enum MoveEvent {
    /// The item is at the source.
    Present,
    /// The item is not at the source.
    Absent,
    /// The item was moved.
    Renamed,
    /// The move failed.
    RenameFailed(MoveFailure),
    /// The warning was given.
    Warned,
}

/// What the relocator asks for.
#[derive(Debug, Clone, Copy, PartialEq, Eq, Structural)]
pub enum MoveAction {
    /// Say whether the item is at the source.
    Probe(ItemId),
    /// Move the item from the source to the destination.
    Rename(ItemId),
    /// Wait for `secs` seconds, then move the item.
    RetryAfter { item: ItemId, secs: u64 },
    /// Warn that the item was expected at the source and is not there.
    Warn(ItemId),
    /// Nothing more: the batch is through.
    Finished,
    /// Nothing more: report the last failure as the batch's.
    Failed,
}

/// The relocator as a mathematical value.
pub struct Transfer {
    /// The batch, in the order in which it is gone through.
    pub items: Seq<ItemId>,
    /// Whether an item that is not at the source is passed over in silence.
    pub safety_net: bool,
    /// The position of the item at hand.
    pub next: usize,
    pub stage: MoveStage,
}

impl Transfer {
    /// The relocator before its first question.
    pub open spec fn start(items: Seq<ItemId>, safety_net: bool) -> Transfer {
        Transfer {
            items,
            safety_net,
            next: 0,
            stage: if items.len() > 0 {
                MoveStage::Probing
            } else {
                MoveStage::Finished
            },
        }
    }

    /// There is an item at hand for as long as the batch is not through.
    pub open spec fn wf(self) -> bool {
        &&& self.items.len() <= usize::MAX
        &&& match self.stage {
            MoveStage::Finished => self.next == self.items.len(),
            _ => self.next < self.items.len(),
        }
    }

    /// The item at hand.
    pub open spec fn item(self) -> ItemId {
        self.items[self.next as int]
    }

    /// What the relocator asks for in its stage.
    pub open spec fn pending(self) -> MoveAction {
        match self.stage {
            MoveStage::Probing => MoveAction::Probe(self.item()),
            MoveStage::Moving => MoveAction::Rename(self.item()),
            MoveStage::Retrying => MoveAction::RetryAfter {
                item: self.item(),
                secs: RETRY_DELAY_SECS,
            },
            MoveStage::Warning => MoveAction::Warn(self.item()),
            MoveStage::Finished => MoveAction::Finished,
            MoveStage::Failed => MoveAction::Failed,
        }
    }

    /// The relocator once the item at hand is done with: it asks about the
    /// next item, or the batch is through.
    pub open spec fn onward(self) -> Transfer {
        Transfer {
            next: (self.next + 1) as usize,
            stage: if self.next + 1 < self.items.len() {
                MoveStage::Probing
            } else {
                MoveStage::Finished
            },
            ..self
        }
    }

    /// The relocator after `event`. An event that does not answer what the
    /// relocator asks for changes nothing.
    pub open spec fn step(self, event: MoveEvent) -> Transfer {
        match (self.stage, event) {
            (MoveStage::Probing, MoveEvent::Present) => Transfer {
                stage: MoveStage::Moving,
                ..self
            },
            (MoveStage::Probing, MoveEvent::Absent) => if self.safety_net {
                self.onward()
            } else {
                Transfer { stage: MoveStage::Warning, ..self }
            },
            (MoveStage::Warning, MoveEvent::Warned) => self.onward(),
            (MoveStage::Moving, MoveEvent::Renamed) => self.onward(),
            (MoveStage::Retrying, MoveEvent::Renamed) => self.onward(),
            (MoveStage::Moving, MoveEvent::RenameFailed(failure)) => Transfer {
                stage: if failure.transient() {
                    MoveStage::Retrying
                } else {
                    MoveStage::Failed
                },
                ..self
            },
            (MoveStage::Retrying, MoveEvent::RenameFailed(_)) => Transfer {
                stage: MoveStage::Failed,
                ..self
            },
            _ => self,
        }
    }
}

/// The relocator.
pub struct Relocator {
    items: Vec<ItemId>,
    safety_net: bool,
    next: usize,
    stage: MoveStage,
}

impl View for Relocator {
    type V = Transfer;

    closed spec fn view(&self) -> Transfer {
        Transfer {
            items: self.items@,
            safety_net: self.safety_net,
            next: self.next,
            stage: self.stage,
        }
    }
}

impl Relocator {
    /// The relocator is in a state that a batch can reach.
    pub open spec fn wf(&self) -> bool {
        self@.wf()
    }

    /// A relocator for `items`. With `safety_net` an item that is not at
    /// the source is taken to be at the destination already; without, it is
    /// warned of. Neither ends the batch.
    pub fn new(items: Vec<ItemId>, safety_net: bool) -> (relocator: Relocator)
        ensures
            relocator.wf(),
            relocator@ == Transfer::start(items@, safety_net),
    {
        let stage = if items.len() > 0 {
            MoveStage::Probing
        } else {
            MoveStage::Finished
        };
        Relocator { items, safety_net, next: 0, stage }
    }

    /// What the relocator asks for now.
    pub fn pending(&self) -> (action: MoveAction)
        requires
            self.wf(),
        ensures
            action == self@.pending(),
    {
        match self.stage {
            MoveStage::Probing => MoveAction::Probe(self.items[self.next]),
            MoveStage::Moving => MoveAction::Rename(self.items[self.next]),
            MoveStage::Retrying => MoveAction::RetryAfter {
                item: self.items[self.next],
                secs: RETRY_DELAY_SECS,
            },
            MoveStage::Warning => MoveAction::Warn(self.items[self.next]),
            MoveStage::Finished => MoveAction::Finished,
            MoveStage::Failed => MoveAction::Failed,
        }
    }

    /// Goes on to the next item.
    fn onward(&mut self)
        requires
            old(self)@.next < old(self)@.items.len(),
        ensures
            final(self).wf(),
            final(self)@ == old(self)@.onward(),
    {
        let count = self.items.len();
        self.next = self.next + 1;
        self.stage = if self.next < count {
            MoveStage::Probing
        } else {
            MoveStage::Finished
        };
    }

    /// Tells the relocator what happened and returns what it asks for next.
    ///
    /// An item that is there is moved; one that is not is passed over, with
    /// a warning unless the safety net is on. A move that fails for a cause
    /// that may pass is tried once more after the pause; any other failure,
    /// and any failure of the second try, fails the batch, and the items
    /// after it are not touched. An event that does not answer what the
    /// relocator asked for is passed over.
    pub fn step(&mut self, event: MoveEvent) -> (next: MoveAction)
        requires
            old(self).wf(),
        ensures
            final(self).wf(),
            final(self)@ == old(self)@.step(event),
            next == final(self)@.pending(),
    {
        match (self.stage, event) {
            (MoveStage::Probing, MoveEvent::Present) => {
                self.stage = MoveStage::Moving;
            },
            (MoveStage::Probing, MoveEvent::Absent) => {
                if self.safety_net {
                    self.onward();
                } else {
                    self.stage = MoveStage::Warning;
                }
            },
            (MoveStage::Warning, MoveEvent::Warned) => {
                self.onward();
            },
            (MoveStage::Moving, MoveEvent::Renamed) => {
                self.onward();
            },
            (MoveStage::Retrying, MoveEvent::Renamed) => {
                self.onward();
            },
            (MoveStage::Moving, MoveEvent::RenameFailed(failure)) => {
                self.stage = if failure.is_transient() {
                    MoveStage::Retrying
                } else {
                    MoveStage::Failed
                };
            },
            (MoveStage::Retrying, MoveEvent::RenameFailed(_)) => {
                self.stage = MoveStage::Failed;
            },
            _ => {},
        }
        self.pending()
    }
}

/// One round of the caller's loop: the relocator is told `event`, and a
/// move that was made has taken the item at hand from the source to the
/// destination. Nothing else changes what the two places hold.
pub open spec fn carry(
    relocator: Transfer,
    source: Set<ItemId>,
    destination: Set<ItemId>,
    event: MoveEvent,
) -> (Transfer, Set<ItemId>, Set<ItemId>) {
    if event is Renamed && (relocator.stage is Moving || relocator.stage is Retrying) {
        (
            relocator.step(event),
            source.remove(relocator.item()),
            destination.insert(relocator.item()),
        )
    } else {
        (relocator.step(event), source, destination)
    }
}

/// Whether `event` can be the answer to what the relocator asks for: the
/// answer to a question is what the source holds, a move is made or fails,
/// a warning is given, and nothing answers a relocator that asks for
/// nothing.
pub open spec fn possible(relocator: Transfer, source: Set<ItemId>, event: MoveEvent) -> bool {
    match relocator.pending() {
        MoveAction::Probe(item) => event == if source.contains(item) {
            MoveEvent::Present
        } else {
            MoveEvent::Absent
        },
        MoveAction::Rename(_) | MoveAction::RetryAfter { .. } => event is Renamed
            || event is RenameFailed,
        MoveAction::Warn(_) => event is Warned,
        MoveAction::Finished | MoveAction::Failed => false,
    }
}

/// The relocator, the source and the destination after the rounds that
/// `events` tell of; nothing where one of them cannot happen.
pub open spec fn carry_all(
    relocator: Transfer,
    source: Set<ItemId>,
    destination: Set<ItemId>,
    events: Seq<MoveEvent>,
) -> Option<(Transfer, Set<ItemId>, Set<ItemId>)>
    decreases events.len(),
{
    if events.len() == 0 {
        Some((relocator, source, destination))
    } else if !possible(relocator, source, events.first()) {
        None
    } else {
        let (next, left, arrived) = carry(relocator, source, destination, events.first());
        carry_all(next, left, arrived, events.drop_first())
    }
}

/// The answer where nothing goes wrong: what the source holds, and every
/// move is made.
pub open spec fn answer(relocator: Transfer, source: Set<ItemId>) -> MoveEvent {
    match relocator.pending() {
        MoveAction::Probe(item) => if source.contains(item) {
            MoveEvent::Present
        } else {
            MoveEvent::Absent
        },
        MoveAction::Warn(_) => MoveEvent::Warned,
        _ => MoveEvent::Renamed,
    }
}

/// The relocator, the source and the destination after `rounds` rounds in
/// which nothing goes wrong.
pub open spec fn carry_out(
    relocator: Transfer,
    source: Set<ItemId>,
    destination: Set<ItemId>,
    rounds: nat,
) -> (Transfer, Set<ItemId>, Set<ItemId>)
    decreases rounds,
{
    if rounds == 0 {
        (relocator, source, destination)
    } else {
        let (next, left, arrived) = carry(
            relocator,
            source,
            destination,
            answer(relocator, source),
        );
        carry_out(next, left, arrived, (rounds - 1) as nat)
    }
}

/// The rounds that the relocator still takes at most where nothing goes
/// wrong: two for each item.
spec fn rounds_left(relocator: Transfer) -> int {
    match relocator.stage {
        MoveStage::Probing => 2 * (relocator.items.len() - relocator.next),
        MoveStage::Finished | MoveStage::Failed => 0,
        _ => 2 * (relocator.items.len() - relocator.next) - 1,
    }
}

/// The items from a position on are the item there and those after it.
proof fn rest_from(items: Seq<ItemId>, at: int)
    requires
        0 <= at < items.len(),
    ensures
        items.skip(at).to_set() == items.skip(at + 1).to_set().insert(items[at]),
{
    let here = items.skip(at);
    let after = items.skip(at + 1);
    assert forall|x: ItemId| here.to_set().contains(x) <==> after.to_set().insert(
        items[at],
    ).contains(x) by {
        if here.contains(x) {
            let i = choose|i: int| 0 <= i < here.len() && here[i] == x;
            if i > 0 {
                assert(after[i - 1] == x);
            }
        }
        if after.contains(x) {
            let i = choose|i: int| 0 <= i < after.len() && after[i] == x;
            assert(here[i + 1] == x);
        }
        if x == items[at] {
            assert(here[0] == x);
        }
    }
    assert(here.to_set() =~= after.to_set().insert(items[at]));
}

/// Where nothing goes wrong the rest of the batch is gone through: the
/// relocator ends at the end of the batch, and the items that were still to
/// come have left the source for the destination.
proof fn rest_is_transferred(
    relocator: Transfer,
    source: Set<ItemId>,
    destination: Set<ItemId>,
    rounds: nat,
)
    requires
        relocator.wf(),
        !(relocator.stage is Failed),
        relocator.stage is Moving || relocator.stage is Retrying ==> source.contains(
            relocator.item(),
        ),
        relocator.stage is Warning ==> !source.contains(relocator.item()),
        rounds >= rounds_left(relocator),
    ensures
        ({
            let (last, left, arrived) = carry_out(relocator, source, destination, rounds);
            &&& last == Transfer {
                next: relocator.items.len() as usize,
                stage: MoveStage::Finished,
                ..relocator
            }
            &&& (left, arrived) == transfer(
                source,
                destination,
                relocator.items.skip(relocator.next as int).to_set(),
            )
        }),
    decreases rounds,
{
    let items = relocator.items;
    let at = relocator.next as int;
    let rest = items.skip(at).to_set();
    let (wanted_left, wanted_arrived) = transfer(source, destination, rest);
    if relocator.stage is Finished {
        assert(items.skip(at) =~= Seq::empty());
        assert(rest =~= Set::empty());
        assert(wanted_left =~= source);
        assert(wanted_arrived =~= destination);
        if rounds > 0 {
            rest_is_transferred(relocator, source, destination, (rounds - 1) as nat);
        }
    } else {
        let (next, left, arrived) = carry(
            relocator,
            source,
            destination,
            answer(relocator, source),
        );
        rest_from(items, at);
        let after = items.skip(at + 1).to_set();
        rest_is_transferred(next, left, arrived, (rounds - 1) as nat);
        if next.next == relocator.next {
            let (then_left, then_arrived) = transfer(left, arrived, rest);
            assert(then_left =~= wanted_left);
            assert(then_arrived =~= wanted_arrived);
        } else {
            let (then_left, then_arrived) = transfer(left, arrived, after);
            assert(then_left =~= wanted_left);
            assert(then_arrived =~= wanted_arrived);
        }
    }
}

/// The items up to a position are those before it and the item there.
proof fn front_upto(items: Seq<ItemId>, at: int)
    requires
        0 <= at < items.len(),
    ensures
        items.take(at + 1).to_set() == items.take(at).to_set().insert(items[at]),
{
    let before = items.take(at);
    let upto = items.take(at + 1);
    assert(upto =~= before.push(items[at]));
    assert forall|x: ItemId| upto.to_set().contains(x) <==> before.to_set().insert(
        items[at],
    ).contains(x) by {
        if upto.contains(x) {
            let i = choose|i: int| 0 <= i < upto.len() && upto[i] == x;
            if i < at {
                assert(before[i] == x);
            }
        }
        if before.contains(x) {
            let i = choose|i: int| 0 <= i < before.len() && before[i] == x;
            assert(upto[i] == x);
        }
        if x == items[at] {
            assert(upto[at] == x);
        }
    }
    assert(upto.to_set() =~= before.to_set().insert(items[at]));
}

/// The relocator is where a batch that began with `source` and
/// `destination` can be: the items before the one at hand have left the
/// source for the destination, and the one at hand is there to be moved,
/// or known not to be.
spec fn on_course(
    relocator: Transfer,
    left: Set<ItemId>,
    arrived: Set<ItemId>,
    source: Set<ItemId>,
    destination: Set<ItemId>,
) -> bool {
    &&& relocator.wf()
    &&& (left, arrived) == transfer(
        source,
        destination,
        relocator.items.take(relocator.next as int).to_set(),
    )
    &&& relocator.stage is Moving || relocator.stage is Retrying ==> left.contains(
        relocator.item(),
    )
    &&& relocator.stage is Warning ==> !left.contains(relocator.item())
}

/// A round that can happen keeps the relocator on course.
proof fn carry_stays_on_course(
    relocator: Transfer,
    left: Set<ItemId>,
    arrived: Set<ItemId>,
    source: Set<ItemId>,
    destination: Set<ItemId>,
    event: MoveEvent,
)
    requires
        on_course(relocator, left, arrived, source, destination),
        possible(relocator, left, event),
    ensures
        ({
            let (next, then_left, then_arrived) = carry(relocator, left, arrived, event);
            &&& on_course(next, then_left, then_arrived, source, destination)
            &&& next.items == relocator.items
            &&& next.safety_net == relocator.safety_net
        }),
{
    let (next, then_left, then_arrived) = carry(relocator, left, arrived, event);
    let items = relocator.items;
    let at = relocator.next as int;
    if next.next != relocator.next {
        front_upto(items, at);
        let (wanted_left, wanted_arrived) = transfer(
            source,
            destination,
            items.take(at + 1).to_set(),
        );
        assert(then_left =~= wanted_left);
        assert(then_arrived =~= wanted_arrived);
    }
}

/// Rounds that can happen keep the relocator on course.
proof fn carry_all_stays_on_course(
    relocator: Transfer,
    left: Set<ItemId>,
    arrived: Set<ItemId>,
    source: Set<ItemId>,
    destination: Set<ItemId>,
    events: Seq<MoveEvent>,
)
    requires
        on_course(relocator, left, arrived, source, destination),
    ensures
        carry_all(relocator, left, arrived, events) matches Some((last, then_left, then_arrived))
            ==> on_course(last, then_left, then_arrived, source, destination) && last.items
            == relocator.items,
    decreases events.len(),
{
    if events.len() > 0 && possible(relocator, left, events.first()) {
        carry_stays_on_course(relocator, left, arrived, source, destination, events.first());
        let (next, then_left, then_arrived) = carry(relocator, left, arrived, events.first());
        carry_all_stays_on_course(
            next,
            then_left,
            then_arrived,
            source,
            destination,
            events.drop_first(),
        );
    }
}

/// A batch is moved item by item, and no further than it got.
///
/// Whatever happens to a relocator from its start, moves that fail too: the
/// items before the one at hand, and no others, have left the source for
/// the destination if they were at the source. So no item is at both
/// places or at neither if none was; a relocator that is through has moved
/// its whole batch; and one that failed has left the item at hand and all
/// after it where they were.
pub proof fn batch_moves_in_order(
    items: Seq<ItemId>,
    safety_net: bool,
    source: Set<ItemId>,
    destination: Set<ItemId>,
    events: Seq<MoveEvent>,
)
    requires
        items.len() <= usize::MAX,
    ensures
        carry_all(Transfer::start(items, safety_net), source, destination, events) matches Some(
            (last, left, arrived),
        ) ==> {
            &&& (left, arrived) == transfer(
                source,
                destination,
                items.take(last.next as int).to_set(),
            )
            &&& left.union(arrived) == source.union(destination)
            &&& source.disjoint(destination) ==> left.disjoint(arrived)
            &&& last.pending() is Finished ==> (left, arrived) == transfer(
                source,
                destination,
                items.to_set(),
            )
        },
{
    let relocator = Transfer::start(items, safety_net);
    let (left, arrived) = transfer(source, destination, items.take(0).to_set());
    assert(items.take(0).to_set() =~= Set::empty());
    assert(left =~= source);
    assert(arrived =~= destination);
    carry_all_stays_on_course(relocator, source, destination, source, destination, events);
    match carry_all(relocator, source, destination, events) {
        Some((last, left, arrived)) => {
            assert(left.union(arrived) =~= source.union(destination));
            if last.pending() is Finished {
                assert(items.take(last.next as int) =~= items);
            }
        },
        None => {},
    }
}

/// A batch gets where it is sent.
///
/// Where nothing goes wrong, a relocator is through its batch within two
/// rounds for each item, with or without the safety net, and then each item
/// of the batch that was at the source is at the destination and none is at
/// the source; what was elsewhere is where it was.
pub proof fn batch_is_transferred(
    items: Seq<ItemId>,
    safety_net: bool,
    source: Set<ItemId>,
    destination: Set<ItemId>,
    rounds: nat,
)
    requires
        items.len() <= usize::MAX,
        rounds >= 2 * items.len(),
    ensures
        ({
            let (last, left, arrived) = carry_out(
                Transfer::start(items, safety_net),
                source,
                destination,
                rounds,
            );
            &&& last.pending() is Finished
            &&& (left, arrived) == transfer(source, destination, items.to_set())
            &&& forall|item: ItemId| items.contains(item) ==> !left.contains(item)
        }),
{
    let relocator = Transfer::start(items, safety_net);
    assert(items.skip(0) =~= items);
    rest_is_transferred(relocator, source, destination, rounds);
}

/// An item that is not at the source is passed over.
///
/// With the safety net on, the relocator that learns that the item at hand
/// is not at the source goes on to the next item, or is through: it asks
/// for no move of that item and no warning, and does not fail. The round
/// leaves the source and the destination as they were.
pub proof fn absent_item_is_passed_over(
    relocator: Transfer,
    source: Set<ItemId>,
    destination: Set<ItemId>,
)
    requires
        relocator.wf(),
        relocator.safety_net,
        relocator.stage is Probing,
        !source.contains(relocator.item()),
    ensures
        relocator.step(MoveEvent::Absent) == relocator.onward(),
        relocator.onward().pending() is Probe || relocator.onward().pending() is Finished,
        possible(relocator, source, MoveEvent::Absent),
        carry(relocator, source, destination, MoveEvent::Absent) == (
            relocator.onward(),
            source,
            destination,
        ),
{
}

/// To move a batch again changes nothing.
///
/// Where nothing goes wrong, a relocator with the safety net on, sent over a
/// batch none of which is at the source, is through without a failure and
/// leaves the source and the destination as they were. So it is after the
/// same batch was moved once.
pub proof fn relocation_is_idempotent(
    items: Seq<ItemId>,
    source: Set<ItemId>,
    destination: Set<ItemId>,
    rounds: nat,
)
    requires
        items.len() <= usize::MAX,
        rounds >= 2 * items.len(),
    ensures
        source.disjoint(items.to_set()) ==> ({
            let (last, left, arrived) = carry_out(
                Transfer::start(items, true),
                source,
                destination,
                rounds,
            );
            last.pending() is Finished && left == source && arrived == destination
        }),
        ({
            let (moved_from, moved_to) = transfer(source, destination, items.to_set());
            let (last, left, arrived) = carry_out(
                Transfer::start(items, true),
                moved_from,
                moved_to,
                rounds,
            );
            last.pending() is Finished && left == moved_from && arrived == moved_to
        }),
{
    let batch = items.to_set();
    batch_is_transferred(items, true, source, destination, rounds);
    if source.disjoint(batch) {
        let (left, arrived) = transfer(source, destination, batch);
        assert(left =~= source);
        assert(arrived =~= destination);
    }
    let (moved_from, moved_to) = transfer(source, destination, batch);
    batch_is_transferred(items, true, moved_from, moved_to, rounds);
    let (left, arrived) = transfer(moved_from, moved_to, batch);
    assert(left =~= moved_from);
    assert(arrived =~= moved_to);
}

/// A move is tried twice and no more.
///
/// Let the move of the item at hand fail for a cause that may pass. Then
/// the relocator asks for the pause and one more try at the same item. If
/// that fails too, for whatever cause, the relocator has failed: it asks
/// for nothing more, whatever it is told. A first failure for any other
/// cause fails it at once.
pub proof fn retry_then_fail(relocator: Transfer, first: MoveFailure, second: MoveFailure)
    requires
        relocator.wf(),
        relocator.stage is Moving,
    ensures
        relocator.pending() == MoveAction::Rename(relocator.item()),
        first.transient() ==> relocator.step(MoveEvent::RenameFailed(first)).pending()
            == (MoveAction::RetryAfter { item: relocator.item(), secs: RETRY_DELAY_SECS }),
        first.transient() ==> relocator.step(MoveEvent::RenameFailed(first)).step(
            MoveEvent::RenameFailed(second),
        ).pending() == MoveAction::Failed,
        !first.transient() ==> relocator.step(MoveEvent::RenameFailed(first)).pending()
            == MoveAction::Failed,
        forall|event: MoveEvent|
            first.transient() ==> (#[trigger] relocator.step(MoveEvent::RenameFailed(first)).step(
                MoveEvent::RenameFailed(second),
            ).step(event)).pending() == MoveAction::Failed,
{
}

} // verus!
