use vstd::prelude::*;

verus! {

/// A count that steps up and down by one.
pub struct Counter(pub usize);

impl Counter {
    pub fn reset(&mut self)
        ensures
            final(self).0 == 0,
    {
        self.0 = 0;
    }

    pub fn incr(&mut self)
        requires
            old(self).0 < usize::MAX,
        ensures
            final(self).0 == old(self).0 + 1,
    {
        self.0 += 1;
    }

    pub fn decr(&mut self)
        requires
            old(self).0 > 0,
        ensures
            final(self).0 == old(self).0 - 1,
    {
        self.0 -= 1;
    }
}

/// A level that steps up and down by one.
pub struct Level(pub usize);

impl Level {
    pub fn reset(&mut self)
        ensures
            final(self).0 == 0,
    {
        self.0 = 0;
    }

    pub fn incr(&mut self)
        requires
            old(self).0 < usize::MAX,
        ensures
            final(self).0 == old(self).0 + 1,
    {
        self.0 += 1;
    }

    pub fn decr(&mut self)
        requires
            old(self).0 > 0,
        ensures
            final(self).0 == old(self).0 - 1,
    {
        self.0 -= 1;
    }
}

} // verus!
