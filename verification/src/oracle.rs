//! The oracle's side of a trial: whether the program is to be run, and
//! what an answer means.

use vstd::prelude::*;
use vstd::string::StrSliceExecFns;

verus! {

/// The letter that makes an answer a yes.
pub const AFFIRMATIVE: char = 'y';

/// The characters of `text` in lower case, as `str::to_lowercase` gives
/// them.
pub uninterp spec fn lowercase(text: Seq<char>) -> Seq<char>;

/// `str::to_lowercase`: the text with each character replaced by its lower
/// case form. Nothing is claimed of the result but that it depends on the
/// characters alone.
#[verifier::external_body]
pub(crate) fn to_lowercase(text: &str) -> (lowered: String)
    ensures
        lowered@ == lowercase(text@),
{
    text.to_lowercase()
}

/// Whether `wanted` occurs in `text`.
pub fn contains_char(text: &str, wanted: char) -> (found: bool)
    ensures
        found == text@.contains(wanted),
{
    let count = text.unicode_len();
    let mut at: usize = 0;
    while at < count
        invariant
            count == text@.len(),
            at <= count,
            forall|i: int| 0 <= i < at ==> text@[i] != wanted,
        decreases count - at,
    {
        if text.get_char(at) == wanted {
            return true;
        }
        at += 1;
    }
    false
}

/// Whether an answer is a yes: its lower case form holds the letter `y`.
/// Anything else, the empty answer too, is a no.
pub fn get_user_bool_input(answer: &str) -> (yes: bool)
    ensures
        yes == lowercase(answer@).contains(AFFIRMATIVE),
{
    let lowered = to_lowercase(answer);
    contains_char(lowered.as_str(), AFFIRMATIVE)
}

/// What a trial is waiting for.
#[derive(Debug, Clone, Copy, PartialEq, Eq, Structural)]
pub enum TrialStage {
    /// The program's run.
    Launching,
    /// The answer to "did it run well?".
    Asking,
    /// Nothing: the verdict is in, `true` where the program ran well.
    Judged(bool),
    /// Nothing: the program could not be started.
    Broken,
}

/// What a trial asks for.
#[derive(Debug, Clone, Copy, PartialEq, Eq, Structural)]
pub enum TrialAction {
    /// Run the program and wait for it to end.
    Launch,
    /// Ask whether the program ran well, and read the answer.
    Ask,
    /// Nothing more: this is the verdict.
    Verdict(bool),
    /// Nothing more: the session cannot go on.
    Fatal,
}

/// One trial: the program is run, unless the mode is dummy, and the oracle
/// is asked.
#[derive(Debug, Clone, Copy, PartialEq, Eq, Structural)]
pub struct Trial {
    pub stage: TrialStage,
}

impl Trial {
    /// The trial before anything was done: the program is to be run,
    /// unless the mode is dummy.
    pub open spec fn first(dummy_mode: bool) -> Trial {
        Trial {
            stage: if dummy_mode {
                TrialStage::Asking
            } else {
                TrialStage::Launching
            },
        }
    }

    /// What the trial asks for in its stage.
    pub open spec fn pending(self) -> TrialAction {
        match self.stage {
            TrialStage::Launching => TrialAction::Launch,
            TrialStage::Asking => TrialAction::Ask,
            TrialStage::Judged(verdict) => TrialAction::Verdict(verdict),
            TrialStage::Broken => TrialAction::Fatal,
        }
    }

    /// The trial after the program was run, or could not be: a program that
    /// ran is asked about, whatever came of it; one that could not be
    /// started breaks the trial. A trial that did not ask for the run stays
    /// as it is.
    pub open spec fn after_launch(self, started: bool) -> Trial {
        match self.stage {
            TrialStage::Launching => Trial {
                stage: if started {
                    TrialStage::Asking
                } else {
                    TrialStage::Broken
                },
            },
            _ => self,
        }
    }

    /// The trial after `answer` was read: the verdict is whether the answer
    /// is a yes. A trial that did not ask stays as it is.
    pub open spec fn after_answer(self, answer: Seq<char>) -> Trial {
        match self.stage {
            TrialStage::Asking => Trial {
                stage: TrialStage::Judged(lowercase(answer).contains(AFFIRMATIVE)),
            },
            _ => self,
        }
    }

    /// What the trial asks for now.
    pub fn action(&self) -> (action: TrialAction)
        ensures
            action == self.pending(),
    {
        match self.stage {
            TrialStage::Launching => TrialAction::Launch,
            TrialStage::Asking => TrialAction::Ask,
            TrialStage::Judged(verdict) => TrialAction::Verdict(verdict),
            TrialStage::Broken => TrialAction::Fatal,
        }
    }

    /// Tells the trial how the program's start went and returns what it
    /// asks for next.
    pub fn launched(&mut self, started: bool) -> (next: TrialAction)
        ensures
            *final(self) == old(self).after_launch(started),
            next == final(self).pending(),
    {
        match self.stage {
            TrialStage::Launching => {
                self.stage = if started {
                    TrialStage::Asking
                } else {
                    TrialStage::Broken
                };
            },
            _ => {},
        }
        self.action()
    }

    /// Tells the trial the oracle's answer and returns what it asks for
    /// next.
    pub fn answered(&mut self, answer: &str) -> (next: TrialAction)
        ensures
            *final(self) == old(self).after_answer(answer@),
            next == final(self).pending(),
    {
        match self.stage {
            TrialStage::Asking => {
                self.stage = TrialStage::Judged(get_user_bool_input(answer));
            },
            _ => {},
        }
        self.action()
    }
}

/// A trial of the program. In dummy mode the program is not run, and the
/// oracle is asked all the same.
pub fn test_program(dummy_mode: bool) -> (trial: Trial)
    ensures
        trial == Trial::first(dummy_mode),
{
    Trial {
        stage: if dummy_mode {
            TrialStage::Asking
        } else {
            TrialStage::Launching
        },
    }
}

} // verus!
