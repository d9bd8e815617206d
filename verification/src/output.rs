use vstd::prelude::*;
use core::ops::ControlFlow;

verus! {

/// A tri-state result for streaming work: a value to process, a successful end, or an
/// end with an error.
#[derive(Debug)]
pub enum Output<T, E> {
    /// A successful value.
    Value(T),
    /// The operation ended successfully without a value.
    EndOk,
    /// The operation ended with an error.
    EndErr(E),
}

impl<T, E> Output<T, E> {
    /// `Value(v)` is `Some(Ok(v))`, `EndOk` is `None` and `EndErr(e)` is `Some(Err(e))`.
    pub open spec fn spec_into_option(self) -> Option<Result<T, E>> {
        match self {
            Output::Value(ok) => Some(Ok(ok)),
            Output::EndOk => None,
            Output::EndErr(err) => Some(Err(err)),
        }
    }

    /// The inverse of `spec_into_option`.
    pub open spec fn spec_from_option_result(opt_res: Option<Result<T, E>>) -> Output<T, E> {
        match opt_res {
            Some(Ok(ok)) => Output::Value(ok),
            Some(Err(err)) => Output::EndErr(err),
            None => Output::EndOk,
        }
    }

    pub fn into_option(self) -> (res: Option<Result<T, E>>)
        ensures
            res == self.spec_into_option(),
    {
        match self {
            Self::Value(ok) => Some(Ok(ok)),
            Self::EndOk => None,
            Self::EndErr(err) => Some(Err(err)),
        }
    }

    /// `Value(v)` continues with `v`; the two ends break with `Ok(())` or `Err(e)`.
    pub fn into_control_flow(self) -> (res: ControlFlow<Result<(), E>, T>)
        ensures
            res == match self {
                Output::Value(ok) => ControlFlow::<Result<(), E>, T>::Continue(ok),
                Output::EndOk => ControlFlow::Break(Ok(())),
                Output::EndErr(err) => ControlFlow::Break(Err(err)),
            },
    {
        match self {
            Self::Value(ok) => ControlFlow::Continue(ok),
            Self::EndOk => ControlFlow::Break(Ok(())),
            Self::EndErr(err) => ControlFlow::Break(Err(err)),
        }
    }

    /// `Err(e)` for `EndErr(e)`, `Ok(())` otherwise.
    pub fn into_end(self) -> (res: Result<(), E>)
        ensures
            res == match self {
                Output::EndErr(err) => Err(err),
                _ => Ok::<(), E>(()),
            },
    {
        if let Self::EndErr(err) = self {
            Err(err)
        } else {
            Ok(())
        }
    }
}

impl<T: Default, E> Output<T, E> {
    /// `Value(v)` is `Ok(v)`, `EndOk` is `Ok` of `T`'s default and `EndErr(e)` is `Err(e)`.
    pub fn into_result(self) -> (res: Result<T, E>)
        ensures
            self matches Output::Value(ok) ==> res == Ok::<T, E>(ok),
            self matches Output::EndErr(err) ==> res == Err::<T, E>(err),
            self is EndOk ==> (res matches Ok(value) && call_ensures(T::default, (), value)),
    {
        match self {
            Self::Value(ok) => Ok(ok),
            Self::EndOk => Ok(T::default()),
            Self::EndErr(err) => Err(err),
        }
    }
}

impl<T, E> From<Option<Result<T, E>>> for Output<T, E> {
    fn from(opt_res: Option<Result<T, E>>) -> (res: Self) {
        match opt_res {
            Some(Ok(ok)) => Self::Value(ok),
            Some(Err(err)) => Self::EndErr(err),
            None => Self::EndOk,
        }
    }
}

impl<T, E> vstd::std_specs::convert::FromSpecImpl<Option<Result<T, E>>> for Output<T, E> {
    open spec fn obeys_from_spec() -> bool {
        true
    }

    open spec fn from_spec(v: Option<Result<T, E>>) -> Self {
        Output::spec_from_option_result(v)
    }
}

impl<T, E> From<Result<T, E>> for Output<T, E> {
    fn from(result: Result<T, E>) -> (res: Self) {
        match result {
            Ok(ok) => Self::Value(ok),
            Err(err) => Self::EndErr(err),
        }
    }
}

impl<T, E> vstd::std_specs::convert::FromSpecImpl<Result<T, E>> for Output<T, E> {
    open spec fn obeys_from_spec() -> bool {
        true
    }

    open spec fn from_spec(v: Result<T, E>) -> Self {
        match v {
            Ok(ok) => Output::Value(ok),
            Err(err) => Output::EndErr(err),
        }
    }
}

/// Turning an `Output` into an `Option<Result<..>>` and back gives the same `Output`,
/// and the other way round.
pub proof fn lemma_output_option_round_trip<T, E>(output: Output<T, E>, opt_res: Option<Result<T, E>>)
    ensures
        Output::spec_from_option_result(output.spec_into_option()) == output,
        Output::<T, E>::spec_from_option_result(opt_res).spec_into_option() == opt_res,
{
}

} // verus!
