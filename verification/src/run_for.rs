use vstd::prelude::*;
use vstd::string::StringExecFns;

verus! {

/// The value of a future that resolved before the time it was given had passed.
pub struct RunForError<T>(pub T);

impl<T> RunForError<T> {
    pub fn new(value: T) -> (res: Self)
        ensures
            res.0 == value,
    {
        RunForError(value)
    }

    /// The debug form: `RunForError<` the name of the type `>`.
    pub fn debug_text(name_of_type: &str) -> (res: String)
        ensures
            res@ == "RunForError<"@ + name_of_type@ + ">"@,
    {
        let mut res = String::from_str("RunForError<");
        res.append(name_of_type);
        res.append(">");
        res
    }

    /// The message: the name of the type, then ` future resolved before the allotted time`.
    pub fn display_text(name_of_type: &str) -> (res: String)
        ensures
            res@ == name_of_type@ + " future resolved before the allotted time"@,
    {
        let mut res = String::from_str(name_of_type);
        res.append(" future resolved before the allotted time");
        res
    }
}

} // verus!
