use vstd::prelude::*;

verus! {

/// A type-equality constraint: `Is<T>` holds exactly for `T` itself.
pub trait Is<T>: Sized {
    /// Converts `self` into `T`, which is `self` itself.
    fn into_self(self) -> T;
}

impl<T> Is<T> for T {
    fn into_self(self) -> (res: T)
        ensures
            res == self,
    {
        self
    }
}

} // verus!
