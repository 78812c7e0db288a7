//! The storage cell: one component value behind a non-blocking access ledger.
//!
//! Shared acquisitions may coexist; an exclusive acquisition excludes every
//! other one. A conflicting acquisition fails at once and leaves the cell as
//! it was.
use vstd::prelude::*;

verus! {

/// How a slot of a query, or an acquisition, wants to reach a component.
#[derive(Debug, Clone, Copy, PartialEq, Eq, Structural)]
pub enum Access {
    Shared,
    Exclusive,
}

/// An acquisition conflicted with one that is outstanding.
#[derive(Debug, Clone, Copy, PartialEq, Eq, Structural)]
pub struct Busy;

/// What a cell holds, as the contracts see it.
pub struct CellView<V> {
    pub value: V,
    /// Shared acquisitions outstanding.
    pub readers: nat,
    /// Whether an exclusive acquisition is outstanding.
    pub writer: bool,
}

impl<V> CellView<V> {
    /// Whether an acquisition in mode `access` succeeds on this cell now.
    pub open spec fn can_acquire(self, access: Access) -> bool {
        match access {
            Access::Shared => !self.writer && self.readers < u64::MAX,
            Access::Exclusive => !self.writer && self.readers == 0,
        }
    }

    /// The cell after a successful acquisition in mode `access`.
    pub open spec fn acquired(self, access: Access) -> CellView<V> {
        match access {
            Access::Shared => CellView { readers: self.readers + 1, ..self },
            Access::Exclusive => CellView { writer: true, ..self },
        }
    }

    /// The cell after one acquisition in mode `access` is given back.
    pub open spec fn released(self, access: Access) -> CellView<V> {
        match access {
            Access::Shared => CellView {
                readers: if self.readers > 0 { (self.readers - 1) as nat } else { 0 },
                ..self
            },
            Access::Exclusive => CellView { writer: false, ..self },
        }
    }

    /// No exclusive acquisition coexists with any other.
    pub open spec fn wf(self) -> bool {
        !(self.writer && self.readers > 0)
    }
}

/// Giving back an acquisition undoes it.
pub proof fn lemma_release_undoes_acquire<V>(c: CellView<V>, access: Access)
    requires
        c.can_acquire(access),
    ensures
        c.acquired(access).released(access) == c,
{
}

/// On a cell with nothing outstanding, two shared acquisitions both
/// succeed; an exclusive one then fails, and the cell is left as it was;
/// once both shared ones are given back, an exclusive one succeeds.
pub proof fn lemma_shared_then_exclusive<V>(c: CellView<V>)
    requires
        !c.writer,
        c.readers == 0,
    ensures
        c.can_acquire(Access::Shared),
        c.acquired(Access::Shared).can_acquire(Access::Shared),
        !c.acquired(Access::Shared).acquired(Access::Shared).can_acquire(Access::Exclusive),
        !c.acquired(Access::Shared).can_acquire(Access::Exclusive),
        c.acquired(Access::Shared).acquired(Access::Shared).released(Access::Shared).released(
            Access::Shared,
        ).can_acquire(Access::Exclusive),
{
}

#[derive(Debug)]
pub struct ComponentCell<V> {
    value: V,
    readers: u64,
    writer: bool,
}

impl<V> View for ComponentCell<V> {
    type V = CellView<V>;

    closed spec fn view(&self) -> CellView<V> {
        CellView { value: self.value, readers: self.readers as nat, writer: self.writer }
    }
}

impl<V> ComponentCell<V> {
    #[verifier::type_invariant]
    closed spec fn inv(self) -> bool {
        !(self.writer && self.readers > 0)
    }

    /// A cell holding `value`, with nothing acquired.
    pub fn new(value: V) -> (r: Self)
        ensures
            r@ == (CellView { value, readers: 0, writer: false }),
    {
        ComponentCell { value, readers: 0, writer: false }
    }

    /// Takes a shared acquisition, or fails with `Busy` when an exclusive
    /// one is outstanding.
    pub fn try_read(&mut self) -> (r: Result<(), Busy>)
        ensures
            r is Ok <==> old(self)@.can_acquire(Access::Shared),
            final(self)@ == if r is Ok {
                old(self)@.acquired(Access::Shared)
            } else {
                old(self)@
            },
    {
        proof { use_type_invariant(&*self); }
        if self.writer || self.readers == u64::MAX {
            Err(Busy)
        } else {
            self.readers = self.readers + 1;
            Ok(())
        }
    }

    /// Takes the exclusive acquisition, or fails with `Busy` when any other
    /// is outstanding.
    pub fn try_write(&mut self) -> (r: Result<(), Busy>)
        ensures
            r is Ok <==> old(self)@.can_acquire(Access::Exclusive),
            final(self)@ == if r is Ok {
                old(self)@.acquired(Access::Exclusive)
            } else {
                old(self)@
            },
    {
        proof { use_type_invariant(&*self); }
        if self.writer || self.readers != 0 {
            Err(Busy)
        } else {
            self.writer = true;
            Ok(())
        }
    }

    /// Acquires in the given mode.
    pub fn try_acquire(&mut self, access: Access) -> (r: Result<(), Busy>)
        ensures
            r is Ok <==> old(self)@.can_acquire(access),
            final(self)@ == if r is Ok {
                old(self)@.acquired(access)
            } else {
                old(self)@
            },
    {
        match access {
            Access::Shared => self.try_read(),
            Access::Exclusive => self.try_write(),
        }
    }

    /// Gives back one acquisition of the given mode (nothing happens when
    /// none of that mode is outstanding).
    pub fn release(&mut self, access: Access)
        ensures
            final(self)@ == old(self)@.released(access),
    {
        proof { use_type_invariant(&*self); }
        match access {
            Access::Shared => {
                if self.readers > 0 {
                    self.readers = self.readers - 1;
                }
            },
            Access::Exclusive => {
                self.writer = false;
            },
        }
    }

    /// Whether an acquisition in mode `access` would succeed now.
    pub fn is_available(&self, access: Access) -> (r: bool)
        ensures
            r == self@.can_acquire(access),
    {
        match access {
            Access::Shared => !self.writer && self.readers < u64::MAX,
            Access::Exclusive => !self.writer && self.readers == 0,
        }
    }

    /// Whether the exclusive acquisition is outstanding.
    pub fn is_held_exclusively(&self) -> (r: bool)
        ensures
            r == self@.writer,
    {
        self.writer
    }

    /// Whether any shared acquisition is outstanding.
    pub fn is_shared(&self) -> (r: bool)
        ensures
            r == (self@.readers > 0),
    {
        self.readers > 0
    }

    /// The stored value.
    pub fn get(&self) -> (r: &V)
        ensures
            *r == self@.value,
    {
        &self.value
    }

    /// Replaces the stored value; the exclusive acquisition must be held.
    pub fn set(&mut self, value: V)
        requires
            old(self)@.writer,
        ensures
            final(self)@ == (CellView { value, ..old(self)@ }),
    {
        proof { use_type_invariant(&*self); }
        self.value = value;
    }

    /// Moves the stored value out.
    pub fn into_inner(self) -> (r: V)
        ensures
            r == self@.value,
    {
        self.value
    }
}

} // verus!
