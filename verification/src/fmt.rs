use vstd::prelude::*;
use core::marker::PhantomData;
use vstd::string::StringExecFns;

verus! {

/// A value shown through the `Debug` form of the `T` it borrows as.
pub struct Debugged<D, T> {
    pub value: D,
    pub phantom: PhantomData<(T,)>,
}

/// An optional value shown as the value, or as `none`.
pub struct OptionDisplay<O, T> {
    pub value: O,
    pub phantom: PhantomData<(T,)>,
}

/// A result shown as its value or as its error.
pub struct ResultDisplay<R, T, E> {
    pub value: R,
    pub phantom: PhantomData<(T, E)>,
}

/// A result shown as `ok` or as `error: ` followed by the error.
pub struct StatusDisplay<R, T, E> {
    pub value: R,
    pub phantom: PhantomData<(T, E)>,
}

impl<D, T> Debugged<D, T> {
    pub fn new(value: D) -> (res: Self)
        ensures
            res.value == value,
    {
        Self { value, phantom: PhantomData }
    }
}

impl<O, T> OptionDisplay<O, T> {
    pub fn new(value: O) -> (res: Self)
        ensures
            res.value == value,
    {
        Self { value, phantom: PhantomData }
    }
}

impl<O, T> OptionDisplay<O, T> {
    /// What is shown: the shown value, or `none`.
    pub fn text(shown_value: Option<&str>) -> (res: String)
        ensures
            shown_value matches Some(v) ==> res@ == v@,
            shown_value is None ==> res@ == "none"@,
    {
        match shown_value {
            Some(value) => String::from_str(value),
            None => String::from_str("none"),
        }
    }
}

impl<R, T, E> ResultDisplay<R, T, E> {
    pub fn new(value: R) -> (res: Self)
        ensures
            res.value == value,
    {
        Self { value, phantom: PhantomData }
    }

    /// What is shown: the shown value or the shown error.
    pub fn text(shown: Result<&str, &str>) -> (res: String)
        ensures
            match shown {
                Ok(v) => res@ == v@,
                Err(e) => res@ == e@,
            },
    {
        match shown {
            Ok(value) => String::from_str(value),
            Err(error) => String::from_str(error),
        }
    }
}

impl<R, T, E> StatusDisplay<R, T, E> {
    pub fn new(value: R) -> (res: Self)
        ensures
            res.value == value,
    {
        Self { value, phantom: PhantomData }
    }

    /// What is shown: `ok`, or `error: ` followed by the shown error.
    pub fn text(shown_error: Option<&str>) -> (res: String)
        ensures
            shown_error is None ==> res@ == "ok"@,
            shown_error matches Some(e) ==> res@ == "error: "@ + e@,
    {
        match shown_error {
            None => String::from_str("ok"),
            Some(error) => {
                let mut res = String::from_str("error: ");
                res.append(error);
                res
            },
        }
    }
}

} // verus!
