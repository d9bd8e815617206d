use vstd::prelude::*;
use crate::text_model::{is_newline, is_newline_chars};
use crate::text_summary::{max_usize, sat_add, usize_max};

verus! {

/// The length and line lengths of a text, as plain counts.
#[derive(Clone, Copy, Debug, PartialEq, Eq, Structural)]
pub struct LengthSummary {
    pub newlines: usize,
    pub extended_graphemes: usize,
    pub first_line: usize,
    pub last_line: usize,
    pub max_line: usize,
}

/// A number of newlines.
#[derive(Clone, Copy, Debug, PartialEq, Eq, Structural)]
pub struct LengthNewlines(pub usize);

/// A number of extended graphemes.
#[derive(Clone, Copy, Debug, PartialEq, Eq, Structural)]
pub struct LengthExtendedGraphemes(pub usize);

impl LengthNewlines {
    pub fn get(&self) -> (res: usize)
        ensures
            res == self.0,
    {
        self.0
    }

    /// Moves past a summarized text.
    pub fn add_summary(&mut self, length_summary: &LengthSummary)
        ensures
            final(self).0 == sat_add(old(self).0, length_summary.newlines),
    {
        self.0 = self.0.saturating_add(length_summary.newlines);
    }
}

impl LengthExtendedGraphemes {
    pub fn get(&self) -> (res: usize)
        ensures
            res == self.0,
    {
        self.0
    }

    /// Moves past a summarized text.
    pub fn add_summary(&mut self, length_summary: &LengthSummary)
        ensures
            final(self).0 == sat_add(old(self).0, length_summary.extended_graphemes),
    {
        self.0 = self.0.saturating_add(length_summary.extended_graphemes);
    }
}

impl LengthSummary {
    pub fn new(
        newlines: usize,
        extended_graphemes: usize,
        first_line: usize,
        last_line: usize,
        max_line: usize,
    ) -> (res: Self)
        ensures
            res == (LengthSummary { newlines, extended_graphemes, first_line, last_line, max_line }),
    {
        Self { newlines, extended_graphemes, first_line, last_line, max_line }
    }

    pub fn zero() -> (res: Self)
        ensures
            res == (LengthSummary {
                newlines: 0,
                extended_graphemes: 0,
                first_line: 0,
                last_line: 0,
                max_line: 0,
            }),
    {
        Self::new(0, 0, 0, 0, 0)
    }

    /// The summary of one extended grapheme; a newline counts in the line it ends.
    pub fn from_extended_grapheme(extended_grapheme: &str) -> (res: Self)
        ensures
            is_newline_chars(extended_grapheme@) ==> res == (LengthSummary {
                newlines: 1,
                extended_graphemes: 1,
                first_line: 1,
                last_line: 0,
                max_line: 1,
            }),
            !is_newline_chars(extended_grapheme@) ==> res == (LengthSummary {
                newlines: 0,
                extended_graphemes: 1,
                first_line: 1,
                last_line: 1,
                max_line: 1,
            }),
    {
        let (newlines, first_line, last_line): (usize, usize, usize) = if is_newline(
            extended_grapheme,
        ) {
            (1, 1, 0)
        } else {
            (0, 1, 1)
        };
        let max_line = max_usize(first_line, last_line);
        Self::new(newlines, 1, first_line, last_line, max_line)
    }

    /// The sum of two summaries. The longest line is taken from the two maxima and from
    /// the first and last line of `self` alone.
    pub open spec fn spec_add(self, rhs: LengthSummary) -> LengthSummary {
        LengthSummary {
            newlines: sat_add(self.newlines, rhs.newlines),
            extended_graphemes: sat_add(self.extended_graphemes, rhs.extended_graphemes),
            first_line: if self.newlines == 0 {
                sat_add(self.last_line, rhs.first_line)
            } else {
                self.first_line
            },
            last_line: if rhs.newlines == 0 {
                sat_add(self.last_line, rhs.first_line)
            } else {
                rhs.last_line
            },
            max_line: usize_max(
                usize_max(usize_max(self.max_line, rhs.max_line), self.first_line),
                self.last_line,
            ),
        }
    }

    pub fn saturating_add(&self, rhs: &Self) -> (res: Self)
        ensures
            res == self.spec_add(*rhs),
    {
        let newlines = self.newlines.saturating_add(rhs.newlines);
        let extended_graphemes = self.extended_graphemes.saturating_add(rhs.extended_graphemes);
        let first_line = if self.newlines == 0 {
            self.last_line.saturating_add(rhs.first_line)
        } else {
            self.first_line
        };
        let last_line = if rhs.newlines == 0 {
            self.last_line.saturating_add(rhs.first_line)
        } else {
            rhs.last_line
        };
        let max_line = max_usize(
            max_usize(max_usize(self.max_line, rhs.max_line), self.first_line),
            self.last_line,
        );
        Self::new(newlines, extended_graphemes, first_line, last_line, max_line)
    }

    /// Appends the summary of a following text.
    pub fn add_summary(&mut self, other: &Self)
        ensures
            *final(self) == old(self).spec_add(*other),
    {
        *self = self.saturating_add(other);
    }
}

} // verus!
