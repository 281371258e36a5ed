//! The bisection engine: the search, one decision at a time.
//!
//! The engine never tests or moves anything. It names the next thing to do,
//! is told how that went, and names the next. Its branches are ranges of
//! positions in the list of items it was made with.

use vstd::prelude::*;
use crate::classification::{Classification, ItemId, ProblemCauser};
use crate::placement::Location;
use crate::search::first_cause;

verus! {

/// Which half of a branch is being searched.
#[derive(Debug, Clone, Copy, PartialEq, Eq, Structural)]
pub enum Half {
    Lower,
    Upper,
}

/// A branch that failed its trial and waits for the search of one half.
#[derive(Debug, Clone, Copy, PartialEq, Eq, Structural)]
pub struct Suspended {
    /// The branch is the positions from `lo` up to `hi`, `hi` left out.
    pub lo: usize,
    pub hi: usize,
    /// The half whose search is under way.
    pub half: Half,
    /// Whether the lower half gave a finding; `false` while it is searched.
    pub below: bool,
}

/// What the engine is waiting for.
#[derive(Debug, Clone, Copy, PartialEq, Eq, Structural)]
pub enum Stage {
    /// The verdict on the branch from `lo` up to `hi`, which is active.
    Testing { lo: usize, hi: usize },
    /// The move of a branch that is done with out of the active location;
    /// `found` where the branch gave a finding.
    Clearing { lo: usize, hi: usize, found: bool },
    /// The move of the upper half out, before the lower half is searched.
    Parking { lo: usize, hi: usize },
    /// The move of the upper half back in, before it is searched; `below`
    /// where the lower half gave a finding.
    Restoring { lo: usize, hi: usize, below: bool },
    /// Nothing: the search is over.
    Finished,
    /// Nothing: a move failed and the search was given up.
    Aborted,
}

/// What happened to the last thing the engine asked for.
#[derive(Debug, Clone, Copy, PartialEq, Eq, Structural)]
pub enum Event {
    /// The oracle has spoken: `true` where the program ran well.
    Verdict(bool),
    /// The move was made.
    Relocated,
    /// The move failed for good.
    RelocationFailed,
}

/// What the engine asks for.
#[derive(Debug, Clone, Copy, PartialEq, Eq, Structural)]
pub enum Action {
    /// Run the program and ask for a verdict.
    Test,
    /// Move the items at the positions from `lo` up to `hi` to `to`.
    Relocate { lo: usize, hi: usize, to: Location },
    /// Nothing more: read the findings.
    Done,
    /// Nothing more: the items stay where the failed move left them.
    Abort,
}

/// The position that splits the branch from `lo` up to `hi`.
pub open spec fn midpoint(lo: usize, hi: usize) -> usize {
    (lo + (hi - lo) / 2) as usize
}

impl Suspended {
    /// The branch has two items at least and lies within `count` items.
    pub open spec fn fits(self, count: nat) -> bool {
        self.lo + 2 <= self.hi <= count
    }

    /// The findings once both halves of the branch are done with, the upper
    /// with a finding or not as `above` says: where neither half gave any,
    /// the items of the branch fail only together.
    pub open spec fn conclude(
        self,
        items: Seq<ItemId>,
        found: Seq<Classification<ItemId>>,
        above: bool,
    ) -> Seq<Classification<ItemId>> {
        if self.below || above {
            found
        } else {
            found.push(Classification::ModCombo(items.subrange(self.lo as int, self.hi as int)))
        }
    }
}

/// The engine as a mathematical value.
pub struct Machine {
    /// The items, in the order that decides the halves.
    pub items: Seq<ItemId>,
    /// Whether both halves are searched whatever the first gave.
    pub exhaustive: bool,
    /// The branches that wait, the outermost first.
    pub waiting: Seq<Suspended>,
    pub stage: Stage,
    /// The findings so far, in the order they were made.
    pub found: Seq<Classification<ItemId>>,
}

impl Machine {
    /// The engine before its first trial: all the items form the one branch.
    pub open spec fn start(items: Seq<ItemId>, exhaustive: bool) -> Machine {
        Machine {
            items,
            exhaustive,
            waiting: Seq::empty(),
            stage: Stage::Testing { lo: 0, hi: items.len() as usize },
            found: Seq::empty(),
        }
    }

    /// Every branch lies within the items and has the size its stage needs.
    pub open spec fn wf(self) -> bool {
        &&& forall|i: int|
            0 <= i < self.waiting.len() ==> (#[trigger] self.waiting[i]).fits(self.items.len())
        &&& match self.stage {
            Stage::Testing { lo, hi } => lo < hi <= self.items.len(),
            Stage::Clearing { lo, hi, .. } => lo < hi <= self.items.len(),
            Stage::Parking { lo, hi } => lo + 2 <= hi <= self.items.len(),
            Stage::Restoring { lo, hi, .. } => lo + 2 <= hi <= self.items.len(),
            Stage::Finished => self.waiting.len() == 0,
            Stage::Aborted => true,
        }
    }

    /// What the engine asks for in its stage.
    pub open spec fn pending(self) -> Action {
        match self.stage {
            Stage::Testing { .. } => Action::Test,
            Stage::Clearing { lo, hi, .. } => Action::Relocate { lo, hi, to: Location::Staging },
            Stage::Parking { lo, hi } => Action::Relocate {
                lo: midpoint(lo, hi),
                hi,
                to: Location::Staging,
            },
            Stage::Restoring { lo, hi, .. } => Action::Relocate {
                lo: midpoint(lo, hi),
                hi,
                to: Location::Active,
            },
            Stage::Finished => Action::Done,
            Stage::Aborted => Action::Abort,
        }
    }

    /// The items that the move the engine asks for is to take, in their
    /// order; none where it asks for no move.
    pub open spec fn batch(self) -> Seq<ItemId> {
        match self.pending() {
            Action::Relocate { lo, hi, .. } => self.items.subrange(lo as int, hi as int),
            _ => Seq::empty(),
        }
    }

    /// Whether `event` answers what the engine asks for.
    pub open spec fn accepts(self, event: Event) -> bool {
        match event {
            Event::Verdict(_) => self.pending() is Test,
            Event::Relocated | Event::RelocationFailed => self.pending() is Relocate,
        }
    }

    /// The engine after a branch was done with, with a finding or not as
    /// `found` says: the branches that wait are taken up from the innermost.
    ///
    /// One that searched its lower half goes on to bring its upper half
    /// back, unless the search stops at the first cause and there is one:
    /// then it is done too. One that searched its upper half is done, with
    /// a combination as its finding where neither half gave any.
    pub open spec fn settle(self, found: bool) -> Machine
        decreases self.waiting.len(),
    {
        if self.waiting.len() == 0 {
            Machine { stage: Stage::Finished, ..self }
        } else {
            let branch = self.waiting.last();
            let rest = self.waiting.drop_last();
            match branch.half {
                Half::Lower => if !self.exhaustive && found {
                    Machine { waiting: rest, ..self }.settle(true)
                } else {
                    Machine {
                        waiting: rest,
                        stage: Stage::Restoring { lo: branch.lo, hi: branch.hi, below: found },
                        ..self
                    }
                },
                Half::Upper => Machine {
                    waiting: rest,
                    found: branch.conclude(self.items, self.found, found),
                    ..self
                }.settle(true),
            }
        }
    }

    /// The engine after `event`. An event that does not answer what the
    /// engine asks for changes nothing.
    pub open spec fn step(self, event: Event) -> Machine {
        match (self.stage, event) {
            (Stage::Testing { lo, hi }, Event::Verdict(passed)) => if passed {
                Machine { stage: Stage::Clearing { lo, hi, found: false }, ..self }
            } else if hi - lo <= 1 {
                Machine {
                    stage: Stage::Clearing { lo, hi, found: true },
                    found: self.found.push(Classification::SingleMod(self.items[lo as int])),
                    ..self
                }
            } else {
                Machine { stage: Stage::Parking { lo, hi }, ..self }
            },
            (Stage::Clearing { found, .. }, Event::Relocated) => self.settle(found),
            (Stage::Parking { lo, hi }, Event::Relocated) => Machine {
                waiting: self.waiting.push(Suspended { lo, hi, half: Half::Lower, below: false }),
                stage: Stage::Testing { lo, hi: midpoint(lo, hi) },
                ..self
            },
            (Stage::Restoring { lo, hi, below }, Event::Relocated) => Machine {
                waiting: self.waiting.push(Suspended { lo, hi, half: Half::Upper, below }),
                stage: Stage::Testing { lo: midpoint(lo, hi), hi },
                ..self
            },
            (Stage::Clearing { .. }, Event::RelocationFailed)
            | (Stage::Parking { .. }, Event::RelocationFailed)
            | (Stage::Restoring { .. }, Event::RelocationFailed) => Machine {
                stage: Stage::Aborted,
                ..self
            },
            _ => self,
        }
    }
}

impl Machine {
    /// To take up the branches that wait changes neither the items nor the
    /// kind of search.
    pub proof fn settle_keeps_items(self, found: bool)
        ensures
            self.settle(found).items == self.items,
            self.settle(found).exhaustive == self.exhaustive,
        decreases self.waiting.len(),
    {
        if self.waiting.len() > 0 {
            let branch = self.waiting.last();
            let rest = self.waiting.drop_last();
            match branch.half {
                Half::Lower => {
                    if !self.exhaustive && found {
                        Machine { waiting: rest, ..self }.settle_keeps_items(true);
                    }
                },
                Half::Upper => {
                    Machine {
                        waiting: rest,
                        found: branch.conclude(self.items, self.found, found),
                        ..self
                    }.settle_keeps_items(true);
                },
            }
        }
    }

    /// No event changes the items or the kind of search.
    pub proof fn step_keeps_items(self, event: Event)
        ensures
            self.step(event).items == self.items,
            self.step(event).exhaustive == self.exhaustive,
    {
        match (self.stage, event) {
            (Stage::Clearing { found, .. }, Event::Relocated) => {
                self.settle_keeps_items(found);
            },
            _ => {},
        }
    }
}

/// The findings as mathematical values.
pub open spec fn classified(found: Seq<ProblemCauser<ItemId>>) -> Seq<Classification<ItemId>> {
    Seq::new(found.len(), |i: int| found[i]@)
}

/// The items at the positions from `lo` up to `hi`, in a list of their own.
pub(crate) fn copy_range(items: &Vec<ItemId>, lo: usize, hi: usize) -> (copy: Vec<ItemId>)
    requires
        lo <= hi <= items.len(),
    ensures
        copy@ == items@.subrange(lo as int, hi as int),
{
    let mut copy: Vec<ItemId> = Vec::new();
    let mut at: usize = lo;
    while at < hi
        invariant
            lo <= at <= hi <= items.len(),
            copy@ == items@.subrange(lo as int, at as int),
        decreases hi - at,
    {
        copy.push(items[at]);
        at += 1;
    }
    copy
}

/// A finding, again.
pub fn copy_cause(cause: &ProblemCauser<ItemId>) -> (copy: ProblemCauser<ItemId>)
    ensures
        copy@ == cause@,
{
    match cause {
        ProblemCauser::SingleMod(item) => ProblemCauser::SingleMod(*item),
        ProblemCauser::ModCombo(items) => {
            let together = copy_range(items, 0, items.len());
            assert(together@ =~= items@);
            ProblemCauser::ModCombo(together)
        },
        ProblemCauser::Clear => ProblemCauser::Clear,
    }
}

/// The bisection engine.
pub struct Bisection {
    items: Vec<ItemId>,
    exhaustive: bool,
    waiting: Vec<Suspended>,
    stage: Stage,
    found: Vec<ProblemCauser<ItemId>>,
}

impl View for Bisection {
    type V = Machine;

    closed spec fn view(&self) -> Machine {
        Machine {
            items: self.items@,
            exhaustive: self.exhaustive,
            waiting: self.waiting@,
            stage: self.stage,
            found: classified(self.found@),
        }
    }
}

impl Bisection {
    /// The engine is in a state that a search can reach.
    pub open spec fn wf(&self) -> bool {
        self@.wf()
    }

    /// An engine for `items`, which are all active. It asks for their trial.
    pub fn new(items: Vec<ItemId>, exhaustive: bool) -> (engine: Bisection)
        requires
            items.len() > 0,
        ensures
            engine.wf(),
            engine@ == Machine::start(items@, exhaustive),
    {
        let hi = items.len();
        let engine = Bisection {
            items,
            exhaustive,
            waiting: Vec::new(),
            stage: Stage::Testing { lo: 0, hi },
            found: Vec::new(),
        };
        assert(engine@.found =~= Seq::empty());
        engine
    }

    /// What the engine asks for now.
    pub fn pending(&self) -> (action: Action)
        requires
            self.wf(),
        ensures
            action == self@.pending(),
    {
        match self.stage {
            Stage::Testing { .. } => Action::Test,
            Stage::Clearing { lo, hi, .. } => Action::Relocate { lo, hi, to: Location::Staging },
            Stage::Parking { lo, hi } => Action::Relocate {
                lo: lo + (hi - lo) / 2,
                hi,
                to: Location::Staging,
            },
            Stage::Restoring { lo, hi, .. } => Action::Relocate {
                lo: lo + (hi - lo) / 2,
                hi,
                to: Location::Active,
            },
            Stage::Finished => Action::Done,
            Stage::Aborted => Action::Abort,
        }
    }

    /// The items that the move the engine asks for is to take.
    pub fn batch(&self) -> (items: Vec<ItemId>)
        requires
            self.wf(),
        ensures
            items@ == self@.batch(),
    {
        match self.pending() {
            Action::Relocate { lo, hi, .. } => copy_range(&self.items, lo, hi),
            _ => Vec::new(),
        }
    }

    /// The findings so far, in the order they were made.
    pub fn findings(&self) -> (found: &Vec<ProblemCauser<ItemId>>)
        ensures
            classified(found@) == self@.found,
    {
        &self.found
    }

    /// The first finding, or `Clear` where there is none: what a search
    /// that stops at the first cause returns.
    pub fn result(&self) -> (cause: ProblemCauser<ItemId>)
        ensures
            cause@ == first_cause(self@.found),
    {
        if self.found.len() == 0 {
            ProblemCauser::Clear
        } else {
            copy_cause(&self.found[0])
        }
    }

    /// The items the engine was made with.
    pub fn items(&self) -> (items: &Vec<ItemId>)
        ensures
            items@ == self@.items,
    {
        &self.items
    }

    /// Takes up the branches that wait, after one was done with.
    fn settle(&mut self, found: bool)
        requires
            forall|i: int|
                0 <= i < old(self)@.waiting.len() ==> (#[trigger] old(self)@.waiting[i]).fits(
                    old(self)@.items.len(),
                ),
        ensures
            final(self).wf(),
            final(self)@ == old(self)@.settle(found),
    {
        let mut any = found;
        loop
            invariant_except_break
                forall|i: int|
                    0 <= i < self@.waiting.len() ==> (#[trigger] self@.waiting[i]).fits(
                        self@.items.len(),
                    ),
                self@.settle(any) == old(self)@.settle(found),
            ensures
                self.wf(),
                self@ == old(self)@.settle(found),
            decreases self.waiting.len(),
        {
            let branch = match self.waiting.pop() {
                Some(branch) => branch,
                None => {
                    self.stage = Stage::Finished;
                    break ;
                },
            };
            match branch.half {
                Half::Lower => {
                    if self.exhaustive || !any {
                        self.stage = Stage::Restoring { lo: branch.lo, hi: branch.hi, below: any };
                        break ;
                    }
                },
                Half::Upper => {
                    if !branch.below && !any {
                        let together = copy_range(&self.items, branch.lo, branch.hi);
                        let ghost before = self.found@;
                        self.found.push(ProblemCauser::ModCombo(together));
                        assert(classified(self.found@) =~= classified(before).push(
                            Classification::ModCombo(
                                self.items@.subrange(branch.lo as int, branch.hi as int),
                            ),
                        ));
                    }
                    any = true;
                },
            }
        }
    }

    /// Tells the engine what happened and returns what it asks for next.
    ///
    /// After a verdict the tested branch is cleared if it passed or is a
    /// single item, which is then a finding; else its upper half is parked.
    /// After a move the search goes on where the move was made for. A move
    /// that failed ends the search, with nothing put back. An event that
    /// does not answer what the engine asked for is passed over.
    pub fn step(&mut self, event: Event) -> (next: Action)
        requires
            old(self).wf(),
        ensures
            final(self).wf(),
            final(self)@ == old(self)@.step(event),
            next == final(self)@.pending(),
    {
        match (self.stage, event) {
            (Stage::Testing { lo, hi }, Event::Verdict(passed)) => {
                if passed {
                    self.stage = Stage::Clearing { lo, hi, found: false };
                } else if hi - lo <= 1 {
                    let ghost before = self.found@;
                    self.found.push(ProblemCauser::SingleMod(self.items[lo]));
                    self.stage = Stage::Clearing { lo, hi, found: true };
                    assert(classified(self.found@) =~= classified(before).push(
                        Classification::SingleMod(self.items@[lo as int]),
                    ));
                } else {
                    self.stage = Stage::Parking { lo, hi };
                }
            },
            (Stage::Clearing { found, .. }, Event::Relocated) => {
                self.settle(found);
            },
            (Stage::Parking { lo, hi }, Event::Relocated) => {
                self.waiting.push(Suspended { lo, hi, half: Half::Lower, below: false });
                self.stage = Stage::Testing { lo, hi: lo + (hi - lo) / 2 };
            },
            (Stage::Restoring { lo, hi, below }, Event::Relocated) => {
                self.waiting.push(Suspended { lo, hi, half: Half::Upper, below });
                self.stage = Stage::Testing { lo: lo + (hi - lo) / 2, hi };
            },
            (Stage::Clearing { .. }, Event::RelocationFailed)
            | (Stage::Parking { .. }, Event::RelocationFailed)
            | (Stage::Restoring { .. }, Event::RelocationFailed) => {
                self.stage = Stage::Aborted;
            },
            _ => {},
        }
        self.pending()
    }
}

} // verus!
