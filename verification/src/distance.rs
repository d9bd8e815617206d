use vstd::prelude::*;
use crate::text_model::{count_newlines, is_newline, is_newline_chars, lemma_count_bounded, lemma_count_concat, lemma_empty_text,
    lemma_single_grapheme};
use crate::text_summary::sat_add;

verus! {

/// A number of newlines.
#[derive(Clone, Copy, Debug, PartialEq, Eq, Structural)]
pub struct NumNewlines(pub usize);

/// A number of extended graphemes.
#[derive(Clone, Copy, Debug, PartialEq, Eq, Structural)]
pub struct NumExtendedGraphemes(pub usize);

/// How far apart two positions in a text are, in newlines and in extended graphemes.
#[derive(Clone, Copy, Debug, PartialEq, Eq, Structural)]
pub struct Distance {
    pub newlines: NumNewlines,
    pub extended_graphemes: NumExtendedGraphemes,
}

/// `distance` spans the text `flags` (one newline flag per extended grapheme).
pub open spec fn spans(distance: Distance, flags: Seq<bool>) -> bool {
    &&& distance.newlines.0 == count_newlines(flags)
    &&& distance.extended_graphemes.0 == flags.len()
}

impl NumNewlines {
    pub fn new(value: usize) -> (res: Self)
        ensures
            res.0 == value,
    {
        NumNewlines(value)
    }

    /// Moves past a distance.
    pub fn add_summary(&mut self, distance: &Distance)
        ensures
            final(self).0 == sat_add(old(self).0, distance.newlines.0),
    {
        self.0 = self.0.saturating_add(distance.newlines.0);
    }
}

impl NumExtendedGraphemes {
    pub fn new(value: usize) -> (res: Self)
        ensures
            res.0 == value,
    {
        NumExtendedGraphemes(value)
    }

    /// Moves past a distance.
    pub fn add_summary(&mut self, distance: &Distance)
        ensures
            final(self).0 == sat_add(old(self).0, distance.extended_graphemes.0),
    {
        self.0 = self.0.saturating_add(distance.extended_graphemes.0);
    }
}

impl Distance {
    pub fn new(newlines: NumNewlines, extended_graphemes: NumExtendedGraphemes) -> (res: Self)
        ensures
            res.newlines == newlines,
            res.extended_graphemes == extended_graphemes,
    {
        Self { newlines, extended_graphemes }
    }

    /// No distance at all.
    pub fn zero() -> (res: Self)
        ensures
            spans(res, Seq::empty()),
    {
        proof {
            lemma_empty_text(true);
        }
        Self::new(NumNewlines(0), NumExtendedGraphemes(0))
    }

    /// The distance spanned by one extended grapheme.
    #[must_use]
    pub fn from_extended_grapheme(extended_grapheme: &str) -> (res: Self)
        ensures
            res.newlines.0 == if is_newline_chars(extended_grapheme@) {
                1usize
            } else {
                0usize
            },
            res.extended_graphemes.0 == 1,
            spans(res, seq![is_newline_chars(extended_grapheme@)]),
    {
        let newline = is_newline(extended_grapheme);
        proof {
            lemma_single_grapheme(is_newline_chars(extended_grapheme@), true);
        }
        Self::new(NumNewlines(if newline {
            1
        } else {
            0
        }), NumExtendedGraphemes(1))
    }

    /// The field-wise saturating sum.
    pub open spec fn spec_saturating_add(self, other: Distance) -> Distance {
        Distance {
            newlines: NumNewlines(sat_add(self.newlines.0, other.newlines.0)),
            extended_graphemes: NumExtendedGraphemes(
                sat_add(self.extended_graphemes.0, other.extended_graphemes.0),
            ),
        }
    }

    pub fn saturating_add(&self, other: &Self) -> (res: Self)
        ensures
            res == self.spec_saturating_add(*other),
    {
        Self::new(
            NumNewlines(self.newlines.0.saturating_add(other.newlines.0)),
            NumExtendedGraphemes(self.extended_graphemes.0.saturating_add(other.extended_graphemes.0)),
        )
    }

    /// Appends a following distance.
    pub fn add_summary(&mut self, other: &Self)
        ensures
            *final(self) == old(self).spec_saturating_add(*other),
    {
        *self = self.saturating_add(other);
    }
}

/// The distances spanned by two texts add up to the distance spanned by their
/// concatenation, when its length fits in a `usize`.
pub proof fn lemma_distance_add_spans_concat(a: Distance, fa: Seq<bool>, b: Distance, fb: Seq<bool>)
    requires
        spans(a, fa),
        spans(b, fb),
        fa.len() + fb.len() <= usize::MAX,
    ensures
        spans(a.spec_saturating_add(b), fa + fb),
{
    lemma_count_concat(fa, fb);
    lemma_count_bounded(fa);
    lemma_count_bounded(fb);
}

} // verus!
