//! Fresh identities.
use vstd::prelude::*;

verus! {

/// A source of identities: each one it gives out differs from the last, until
/// the counter wraps.
#[derive(Debug, Clone, Copy, PartialEq, Eq, Structural)]
pub struct IdCounter {
    pub next: u32,
}

impl IdCounter {
    /// A counter whose first identity is 1.
    pub fn new() -> (r: Self)
        ensures
            r.next == 1,
    {
        IdCounter { next: 1 }
    }

    /// The counter after one identity was taken.
    pub open spec fn after(self) -> IdCounter {
        IdCounter { next: if self.next == u32::MAX { 0 } else { (self.next + 1) as u32 } }
    }

    /// Takes the next identity.
    pub fn fresh(&mut self) -> (r: u32)
        ensures
            r == old(self).next,
            *final(self) == old(self).after(),
    {
        let id: u32 = self.next;
        self.next = if id == u32::MAX { 0 } else { id + 1 };
        id
    }
}

/// Two identities taken one after the other differ.
pub proof fn law_fresh_ids_differ(c: IdCounter)
    ensures
        c.after().next != c.next,
{
}

} // verus!
