use vstd::prelude::*;

verus! {

/// A counter of live participants (threads alive, threads blocked for work).
///
/// Every `add` is paired with one `sub` when the participant leaves, so the
/// value always equals the number of participants currently counted.
pub struct Count {
    num: usize,
}

impl View for Count {
    type V = nat;

    closed spec fn view(&self) -> nat {
        self.num as nat
    }
}

impl Count {
    /// A counter with nobody counted.
    pub fn new() -> (r: Count)
        ensures
            r@ == 0,
    {
        Count { num: 0 }
    }

    /// Counts one more participant.
    pub fn add(&mut self)
        requires
            old(self)@ < usize::MAX,
        ensures
            final(self)@ == old(self)@ + 1,
    {
        self.num = self.num + 1;
    }

    /// Releases one participant counted earlier.
    pub fn sub(&mut self)
        requires
            old(self)@ > 0,
        ensures
            final(self)@ == old(self)@ - 1,
    {
        self.num = self.num - 1;
    }

    /// The number of participants counted now.
    pub fn get(&self) -> (r: usize)
        ensures
            r == self@,
    {
        self.num
    }
}

} // verus!
