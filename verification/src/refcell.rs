use vstd::prelude::*;

verus! {

/// A box for a value that is borrowed through the holder.
pub struct RefCell<T> {
    val: T,
}

impl<T> RefCell<T> {
    /// The value held.
    pub closed spec fn value(&self) -> T {
        self.val
    }

    pub fn new(val: T) -> (r: Self)
        ensures
            r.value() == val,
    {
        Self { val }
    }

    pub fn borrow(&self) -> (r: &T)
        ensures
            *r == self.value(),
    {
        &self.val
    }

    /// Mutable access; the holder sees what is written through it.
    pub fn borrow_mut(&mut self) -> (r: &mut T)
        ensures
            *r == old(self).value(),
            final(self).value() == *final(r),
    {
        &mut self.val
    }
}

} // verus!
