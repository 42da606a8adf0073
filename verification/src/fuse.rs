use vstd::prelude::*;

verus! {

/// An I/O object paired with the codec that frames it.
pub struct Fuse<T, U> {
    pub io: T,
    pub codec: U,
}

impl<T, U> Fuse<T, U> {
    pub(crate) fn new(t: T, u: U) -> (r: Self)
        ensures
            r.io == t,
            r.codec == u,
    {
        Self { io: t, codec: u }
    }
}

impl<T, U> core::ops::Deref for Fuse<T, U> {
    type Target = T;

    fn deref(&self) -> (r: &T)
        ensures
            *r == self.io,
    {
        &self.io
    }
}

impl<T, U> core::ops::DerefMut for Fuse<T, U> {
    fn deref_mut(&mut self) -> (r: &mut T)
        ensures
            *r == old(self).io,
            final(self).io == *final(r),
            final(self).codec == old(self).codec,
    {
        &mut self.io
    }
}

} // verus!
