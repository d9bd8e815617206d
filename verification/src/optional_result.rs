use vstd::prelude::*;

verus! {

/// An `Option<Result<T, E>>` in which a missing value stands for `T`'s default.
#[derive(Debug)]
pub struct OptionalResult<T, E>(pub Option<Result<T, E>>);

impl<T, E> OptionalResult<T, E> {
    pub fn into_inner(self) -> (res: Option<Result<T, E>>)
        ensures
            res == self.0,
    {
        self.0
    }

    /// Wraps a successful value.
    pub fn from_ok(ok: T) -> (res: Self)
        ensures
            res.0 == Some(Ok::<T, E>(ok)),
    {
        OptionalResult(Some(Ok(ok)))
    }
}

impl<T: Default, E> OptionalResult<T, E> {
    /// `Some(r)` is `r`; `None` is `Ok` of `T`'s default.
    pub fn into_result(self) -> (res: Result<T, E>)
        ensures
            self.0 matches Some(r) ==> res == r,
            self.0 is None ==> (res matches Ok(value) && call_ensures(T::default, (), value)),
    {
        match self.0 {
            Some(Ok(ok)) => Ok(ok),
            Some(Err(err)) => Err(err),
            None => Ok(T::default()),
        }
    }
}

impl<T, E> Default for OptionalResult<T, E> {
    fn default() -> (res: Self)
        ensures
            res.0 is None,
    {
        OptionalResult(None)
    }
}

impl<T, E> From<Option<Result<T, E>>> for OptionalResult<T, E> {
    fn from(value: Option<Result<T, E>>) -> (res: Self) {
        OptionalResult(value)
    }
}

impl<T, E> vstd::std_specs::convert::FromSpecImpl<Option<Result<T, E>>> for OptionalResult<T, E> {
    open spec fn obeys_from_spec() -> bool {
        true
    }

    open spec fn from_spec(v: Option<Result<T, E>>) -> Self {
        OptionalResult(v)
    }
}

} // verus!
