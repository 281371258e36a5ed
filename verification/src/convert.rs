//! A conversion that reaches into an optional value.

use vstd::prelude::*;

verus! {

/// A conversion of what a value holds, where its own type has none.
pub trait NestedInto<T> {
    fn n_into(&self) -> T;
}

impl<I, F> NestedInto<Option<I>> for Option<F> where F: Into<I>, F: Clone {
    /// What `into` makes of a copy of the value; nothing of nothing.
    fn n_into(&self) -> (converted: Option<I>)
        ensures
            converted is Some == self is Some,
            self matches Some(value) ==> exists|copy: F| #[trigger]
                cloned(*value, copy) && call_ensures(
                    <F as Into<I>>::into,
                    (copy,),
                    converted->0,
                ),
    {
        match self {
            Some(value) => {
                let copy = value.clone();
                let ghost kept = copy;
                let converted = copy.into();
                assert(cloned(*value, kept));
                Some(converted)
            },
            None => None,
        }
    }
}

} // verus!
