use vstd::prelude::*;
use std::io::Error as IoError;

verus! {

#[verifier::external_type_specification]
#[verifier::external_body]
pub struct ExIoError(IoError);

/// A file path together with the result of reading that file as UTF-8 text.
pub struct ReadValue<P> {
    /// The path to the file that was read or attempted to be read.
    pub filepath: P,
    /// The result of reading the file as a UTF-8 string.
    pub result: Result<String, IoError>,
}

impl<P> ReadValue<P> {
    pub fn new(filepath: P, result: Result<String, IoError>) -> (res: Self)
        ensures
            res.filepath == filepath,
            res.result == result,
    {
        Self { filepath, result }
    }
}

} // verus!
