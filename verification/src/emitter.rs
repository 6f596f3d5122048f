//! A sink for diagnostics that backtracking does not touch.

use vstd::prelude::*;

verus! {

/// Collects the errors that a validation callback raises, in the order raised.
pub struct Emitter<E> {
    emitted: Vec<E>,
}

impl<E> Emitter<E> {
    /// The errors emitted so far, oldest first.
    pub closed spec fn view(&self) -> Seq<E> {
        self.emitted@
    }

    /// An emitter that holds nothing.
    pub fn new() -> (emitter: Emitter<E>)
        ensures
            emitter@ == Seq::<E>::empty(),
    {
        Emitter { emitted: Vec::new() }
    }

    /// Hands over everything that was emitted.
    pub fn errors(self) -> (errors: Vec<E>)
        ensures
            errors@ == self@,
    {
        self.emitted
    }

    /// Emit a non-fatal error.
    pub fn emit(&mut self, err: E)
        ensures
            final(self)@ == old(self)@.push(err),
    {
        self.emitted.push(err)
    }
}

} // verus!
