//! Turning a condition and a value into an optional value.
use vstd::prelude::*;

verus! {

pub trait Maybe<T> {
    spec fn spec_holds(&self) -> bool;

    /// `t` if the condition holds, nothing otherwise.
    fn then_maybe(self, t: T) -> (r: Option<T>) where Self: Sized
        ensures
            r == if self.spec_holds() {
                Some(t)
            } else {
                None
            },
    ;
}

impl<T> Maybe<T> for bool {
    open spec fn spec_holds(&self) -> bool {
        *self
    }

    fn then_maybe(self, t: T) -> (r: Option<T>) {
        if self {
            Some(t)
        } else {
            None
        }
    }
}

} // verus!
