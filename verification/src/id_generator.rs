//! Issue of unique, stable, opaque element handles.

use vstd::prelude::*;

verus! {

/// An opaque handle. Handles are issued in increasing order and never reused.
#[derive(Clone, Copy, PartialEq, Eq, PartialOrd, Ord, Hash, Debug, Structural)]
pub struct Id(u64);

impl Id {
    /// The position of this handle in the order of issue.
    pub closed spec fn value(self) -> u64 {
        self.0
    }

    /// The handle at the given position in the order of issue.
    pub closed spec fn of(value: u64) -> Id {
        Id(value)
    }

    /// A handle is determined by its position in the order of issue.
    pub broadcast proof fn lemma_of_value(value: u64)
        ensures
            (#[trigger] Id::of(value)).value() == value,
    {
    }

    /// A handle is determined by its position in the order of issue.
    pub broadcast proof fn lemma_value_of(self)
        ensures
            Id::of(#[trigger] self.value()) == self,
    {
    }

    /// The position of this handle in the order of issue, as a map key.
    pub fn raw(self) -> (v: u64)
        ensures
            v == self.value(),
    {
        self.0
    }
}

/// Source of fresh handles.
pub struct IdGenerator {
    next_id_value: u64,
}

impl IdGenerator {
    /// How many handles have been issued so far.
    pub closed spec fn issued(self) -> nat {
        self.next_id_value as nat
    }

    /// A source that has issued no handle yet.
    pub fn new() -> (g: IdGenerator)
        ensures
            g.issued() == 0,
    {
        IdGenerator { next_id_value: 0 }
    }

    /// How many more handles can still be issued.
    pub fn remaining(&self) -> (n: u64)
        ensures
            n == u64::MAX - self.issued(),
    {
        u64::MAX - self.next_id_value
    }

    /// Issues the next handle: its value is the number of handles issued before it.
    pub fn generate_id(&mut self) -> (id: Id)
        requires
            old(self).issued() < u64::MAX,
        ensures
            id.value() == old(self).issued(),
            id == Id::of(old(self).issued() as u64),
            final(self).issued() == old(self).issued() + 1,
    {
        let id_value = self.next_id_value;
        self.next_id_value += 1;
        Id(id_value)
    }
}

} // verus!
