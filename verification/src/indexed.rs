use vstd::prelude::*;

verus! {

/// A value together with its position.
pub struct Indexed<T> {
    pub index: usize,
    pub value: T,
}

impl<T> Indexed<T> {
    pub fn new(index: usize, value: T) -> (res: Self)
        ensures
            res.index == index,
            res.value == value,
    {
        Self { index, value }
    }
}

impl<T> From<(usize, T)> for Indexed<T> {
    fn from(pair: (usize, T)) -> (res: Self) {
        Self { index: pair.0, value: pair.1 }
    }
}

impl<T> vstd::std_specs::convert::FromSpecImpl<(usize, T)> for Indexed<T> {
    open spec fn obeys_from_spec() -> bool {
        true
    }

    open spec fn from_spec(v: (usize, T)) -> Self {
        Indexed { index: v.0, value: v.1 }
    }
}

} // verus!
