use vstd::prelude::*;

verus! {

/// Nothing, a value, or an error.
#[derive(Debug)]
pub enum Outcome<T, E> {
    Nothing,
    Value(T),
    Failure(E),
}

impl<T, E> Outcome<T, E> {
    /// The outcome of an optional result, converting the error with `E: From<E2>`.
    pub fn from_option_result<E2>(result_opt: Option<Result<T, E2>>) -> (res: Self) where
        E: From<E2>,
        ensures
            result_opt is None ==> res is Nothing,
            result_opt matches Some(Ok(ok)) ==> res == Outcome::<T, E>::Value(ok),
            result_opt matches Some(Err(err)) ==> (res matches Outcome::Failure(e) && call_ensures(
                E::from,
                (err,),
                e,
            )),
    {
        match result_opt {
            Some(Ok(ok)) => Self::Value(ok),
            Some(Err(err)) => Self::Failure(E::from(err)),
            None => Self::Nothing,
        }
    }

    /// The outcome of a result, converting the error with `E: From<E2>`.
    pub fn from_result<E2>(result: Result<T, E2>) -> (res: Self) where E: From<E2>,
        ensures
            result matches Ok(ok) ==> res == Outcome::<T, E>::Value(ok),
            result matches Err(err) ==> (res matches Outcome::Failure(e) && call_ensures(
                E::from,
                (err,),
                e,
            )),
    {
        match result {
            Ok(ok) => Self::Value(ok),
            Err(err) => Self::Failure(E::from(err)),
        }
    }
}

impl<T, E> Default for Outcome<T, E> {
    fn default() -> (res: Self)
        ensures
            res is Nothing,
    {
        Self::Nothing
    }
}

} // verus!
