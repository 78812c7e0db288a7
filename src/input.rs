//! A holder for an input device's latest polled state, stored as a
//! component of the scene.
use vstd::prelude::*;

verus! {

/// A device whose state the input collaborator polls once per frame.
pub trait InputHandler {}

#[derive(Debug)]
pub struct Input<T: InputHandler> {
    input: T,
}

impl<T: InputHandler> Input<T> {
    pub closed spec fn state(&self) -> T {
        self.input
    }

    pub fn new(input: T) -> (r: Self)
        ensures
            r.state() == input,
    {
        Input { input }
    }

    /// The device state.
    pub fn get(&self) -> (r: &T)
        ensures
            *r == self.state(),
    {
        &self.input
    }

    /// Replaces the device state with a newer poll.
    pub fn set(&mut self, input: T)
        ensures
            final(self).state() == input,
    {
        self.input = input;
    }
}

} // verus!
