//! A bound on how many connections or sessions are served at once.

use vstd::prelude::*;

verus! {

/// The number of permits that are held, and how many may be.
#[derive(Clone, Copy, Debug, PartialEq, Eq, Structural)]
pub struct Permits {
    active: usize,
    maximum: usize,
}

/// How many permits are held after one is asked for.
pub open spec fn after_acquire(held: nat, limit: nat) -> nat {
    if held < limit {
        held + 1
    } else {
        held
    }
}

/// How many permits are held after one is given back.
pub open spec fn after_release(held: nat) -> nat {
    if held > 0 {
        (held - 1) as nat
    } else {
        0
    }
}

impl Permits {
    pub closed spec fn held(&self) -> usize {
        self.active
    }

    pub closed spec fn limit(&self) -> usize {
        self.maximum
    }

    /// Never more are held than may be.
    pub open spec fn well_formed(&self) -> bool {
        self.held() <= self.limit()
    }

    pub fn new(maximum: usize) -> (permits: Self)
        ensures
            permits.well_formed(),
            permits.held() == 0,
            permits.limit() == maximum,
    {
        Permits { active: 0, maximum }
    }

    /// Takes a permit, unless all of them are held.
    pub fn acquire(&mut self) -> (acquired: bool)
        requires
            old(self).well_formed(),
        ensures
            final(self).well_formed(),
            final(self).limit() == old(self).limit(),
            acquired == (old(self).held() < old(self).limit()),
            final(self).held() == after_acquire(old(self).held() as nat, old(self).limit() as nat),
    {
        if self.active >= self.maximum {
            return false;
        }
        self.active += 1;
        true
    }

    /// Gives a permit back; where none is held, nothing changes.
    pub fn release(&mut self)
        requires
            old(self).well_formed(),
        ensures
            final(self).well_formed(),
            final(self).limit() == old(self).limit(),
            final(self).held() == after_release(old(self).held() as nat),
    {
        if self.active > 0 {
            self.active -= 1;
        }
    }

    pub fn active(&self) -> (active: usize)
        ensures
            active == self.held(),
    {
        self.active
    }
}

/// A permit that is taken and given back leaves the count as it was.
pub proof fn release_undoes_acquire(held: nat, limit: nat)
    requires
        held < limit,
    ensures
        after_release(after_acquire(held, limit)) == held,
{
}

} // verus!
