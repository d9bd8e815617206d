use vstd::prelude::*;

verus! {

/// A borrowed value that is shown through its `Debug` form.
pub struct Debugged<'a, T: ?Sized>(pub &'a T);

impl<'a, T: ?Sized> Debugged<'a, T> {
    pub fn new(value: &'a T) -> (res: Self)
        ensures
            res.0 == value,
    {
        Debugged(value)
    }
}

} // verus!
