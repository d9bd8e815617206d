use vstd::prelude::*;
use crate::text_summary::TextSummary;

verus! {

/// An extended grapheme of a text, with the summary of the text before it.
pub struct Atom<'r> {
    pub extended_grapheme: &'r str,
    pub offset: TextSummary,
}

impl<'r> Atom<'r> {
    pub fn new(extended_grapheme: &'r str, offset: TextSummary) -> (res: Self)
        ensures
            res.extended_grapheme == extended_grapheme,
            res.offset == offset,
    {
        Atom { extended_grapheme, offset }
    }
}

} // verus!
