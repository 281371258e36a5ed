//! What a bisection branch concludes.

use vstd::prelude::*;

verus! {

/// An item under test, named by its position in the caller's master list.
pub type ItemId = usize;

/// The conclusion of one branch, as a mathematical value.
pub enum Classification<T> {
    /// One item that fails on its own.
    SingleMod(T),
    /// Items that fail together and in neither half alone.
    ModCombo(Seq<T>),
    /// The tested configuration passed.
    Clear,
}

impl<T> Classification<T> {
    pub open spec fn is_some(self) -> bool {
        !(self is Clear)
    }
}

/// The conclusion of one branch.
#[derive(Debug, PartialEq, Eq)]
pub enum ProblemCauser<T> {
    /// One item that fails on its own.
    SingleMod(T),
    /// Items that fail together and in neither half alone.
    ModCombo(Vec<T>),
    /// The tested configuration passed.
    Clear,
}

impl<T> View for ProblemCauser<T> {
    type V = Classification<T>;

    open spec fn view(&self) -> Classification<T> {
        match self {
            ProblemCauser::SingleMod(item) => Classification::SingleMod(*item),
            ProblemCauser::ModCombo(items) => Classification::ModCombo(items@),
            ProblemCauser::Clear => Classification::Clear,
        }
    }
}

impl<T> ProblemCauser<T> {
    /// Whether this branch found a cause.
    pub fn is_some(&self) -> (found: bool)
        ensures
            found == self@.is_some(),
    {
        match self {
            ProblemCauser::SingleMod(_) => true,
            ProblemCauser::ModCombo(_) => true,
            ProblemCauser::Clear => false,
        }
    }
}

} // verus!
