use vstd::prelude::*;
use crate::text_model::{
    count_newlines, is_newline, is_newline_chars, lemma_count_concat, lemma_empty_text,
    lemma_lines_bounded, lemma_lines_concat, lemma_lines_len, lemma_no_newline, lemma_seq_max_concat,
    lemma_seq_max_ge, lemma_seq_max_single, lemma_single_grapheme, line_lengths, seq_max,
};

verus! {

/// `a + b`, or `usize::MAX` when the sum does not fit.
pub open spec fn sat_add(a: usize, b: usize) -> usize {
    if a + b > usize::MAX {
        usize::MAX
    } else {
        (a + b) as usize
    }
}

pub open spec fn usize_max(a: usize, b: usize) -> usize {
    if a < b {
        b
    } else {
        a
    }
}

/// The larger of two counts.
pub fn max_usize(a: usize, b: usize) -> (res: usize)
    ensures
        res == usize_max(a, b),
{
    if a < b {
        b
    } else {
        a
    }
}

/// How many newlines and extended graphemes a text holds.
#[derive(Clone, Copy, Debug, PartialEq, Eq, Structural)]
pub struct Length {
    pub newlines: usize,
    pub extended_graphemes: usize,
}

impl Length {
    /// The length of the empty text.
    pub open spec fn spec_zero() -> Length {
        Length { newlines: 0, extended_graphemes: 0 }
    }

    pub fn zero() -> (res: Self)
        ensures
            res == Self::spec_zero(),
    {
        Self { newlines: 0, extended_graphemes: 0 }
    }

    pub fn new(newlines: usize, extended_graphemes: usize) -> (res: Self)
        ensures
            res.newlines == newlines,
            res.extended_graphemes == extended_graphemes,
    {
        Self { newlines, extended_graphemes }
    }

    /// The field-wise saturating sum.
    pub open spec fn spec_saturating_add(self, other: Length) -> Length {
        Length {
            newlines: sat_add(self.newlines, other.newlines),
            extended_graphemes: sat_add(self.extended_graphemes, other.extended_graphemes),
        }
    }

    pub fn saturating_add(&self, other: &Self) -> (res: Self)
        ensures
            res == self.spec_saturating_add(*other),
    {
        Self {
            newlines: self.newlines.saturating_add(other.newlines),
            extended_graphemes: self.extended_graphemes.saturating_add(other.extended_graphemes),
        }
    }
}

/// The lengths of the first line, of the last line and of the longest line of a text.
#[derive(Clone, Copy, Debug, PartialEq, Eq, Structural)]
pub struct LineLengthSet {
    pub first: usize,
    pub last: usize,
    pub max: usize,
}

impl LineLengthSet {
    pub fn zero() -> (res: Self)
        ensures
            res.first == 0,
            res.last == 0,
            res.max == 0,
    {
        Self::uniform(0)
    }

    pub fn new(first: usize, last: usize, max: usize) -> (res: Self)
        ensures
            res.first == first,
            res.last == last,
            res.max == max,
    {
        Self { first, last, max }
    }

    /// The line lengths of a text with a single line of length `len`.
    pub fn uniform(len: usize) -> (res: Self)
        ensures
            res.first == len,
            res.last == len,
            res.max == len,
    {
        Self::new(len, len, len)
    }
}

/// The length and line lengths of a text.
#[derive(Clone, Copy, Debug, PartialEq, Eq, Structural)]
pub struct TextSummary {
    pub length: Length,
    pub line_lengths: LineLengthSet,
}

/// `summary` describes the text `flags` (one newline flag per extended grapheme), where
/// line lengths count the ending newline when `counts_newline` holds.
pub open spec fn summarizes(summary: TextSummary, flags: Seq<bool>, counts_newline: bool) -> bool {
    let lines = line_lengths(flags, counts_newline);
    &&& summary.length.newlines == count_newlines(flags)
    &&& summary.length.extended_graphemes == flags.len()
    &&& summary.line_lengths.first == lines[0]
    &&& summary.line_lengths.last == lines.last()
    &&& summary.line_lengths.max == seq_max(lines)
}

impl TextSummary {
    /// The summary of the empty text.
    pub open spec fn spec_zero() -> TextSummary {
        TextSummary {
            length: Length { newlines: 0, extended_graphemes: 0 },
            line_lengths: LineLengthSet { first: 0, last: 0, max: 0 },
        }
    }

    pub fn new(length: Length, line_lengths: LineLengthSet) -> (res: Self)
        ensures
            res.length == length,
            res.line_lengths == line_lengths,
    {
        Self { length, line_lengths }
    }

    /// The summary of one extended grapheme, counting a newline in the length of the
    /// line it ends.
    pub open spec fn spec_from_newline_flag(is_newline: bool) -> TextSummary {
        if is_newline {
            TextSummary {
                length: Length { newlines: 1, extended_graphemes: 1 },
                line_lengths: LineLengthSet { first: 1, last: 0, max: 1 },
            }
        } else {
            TextSummary {
                length: Length { newlines: 0, extended_graphemes: 1 },
                line_lengths: LineLengthSet { first: 1, last: 1, max: 1 },
            }
        }
    }

    #[must_use]
    pub fn from_extended_grapheme(extended_grapheme: &str) -> (res: Self)
        ensures
            res == Self::spec_from_newline_flag(is_newline_chars(extended_grapheme@)),
            summarizes(res, seq![is_newline_chars(extended_grapheme@)], true),
    {
        let (newlines, first, last): (usize, usize, usize) = if is_newline(extended_grapheme) {
            (1, 1, 0)
        } else {
            (0, 1, 1)
        };
        let max = if first < last {
            last
        } else {
            first
        };
        let length = Length::new(newlines, 1);
        let line_lengths = LineLengthSet::new(first, last, max);
        proof {
            lemma_single_grapheme(is_newline_chars(extended_grapheme@), true);
            reveal_with_fuel(seq_max, 3);
        }
        Self::new(length, line_lengths)
    }

    #[must_use]
    pub fn is_empty(&self) -> (res: bool)
        ensures
            res == (self.length.extended_graphemes == 0),
    {
        self.length.extended_graphemes == 0
    }

    #[must_use]
    pub fn is_not_empty(&self) -> (res: bool)
        ensures
            res == (self.length.extended_graphemes != 0),
    {
        !self.is_empty()
    }

    /// The summary of the concatenation of two texts, computed from their summaries
    /// with saturating arithmetic.
    pub open spec fn spec_add(self, other: TextSummary) -> TextSummary {
        let first = if self.length.newlines == 0 {
            sat_add(self.line_lengths.last, other.line_lengths.first)
        } else {
            self.line_lengths.first
        };
        let last = if other.length.newlines == 0 {
            sat_add(self.line_lengths.last, other.line_lengths.first)
        } else {
            other.line_lengths.last
        };
        let max = usize_max(
            self.line_lengths.max,
            usize_max(other.line_lengths.max, usize_max(first, last)),
        );
        TextSummary {
            length: self.length.spec_saturating_add(other.length),
            line_lengths: LineLengthSet { first, last, max },
        }
    }

    pub fn add_ref(&self, other: &Self) -> (res: Self)
        ensures
            res == self.spec_add(*other),
    {
        let length = self.length.saturating_add(&other.length);
        let first = if self.length.newlines == 0 {
            self.line_lengths.last.saturating_add(other.line_lengths.first)
        } else {
            self.line_lengths.first
        };
        let last = if other.length.newlines == 0 {
            self.line_lengths.last.saturating_add(other.line_lengths.first)
        } else {
            other.line_lengths.last
        };
        let max = max_usize(self.line_lengths.max, max_usize(other.line_lengths.max, max_usize(first, last)));
        let line_lengths = LineLengthSet::new(first, last, max);
        Self::new(length, line_lengths)
    }

    /// `self + other`.
    pub fn saturating_add(&self, other: &Self) -> (res: Self)
        ensures
            res == self.spec_add(*other),
    {
        self.add_ref(other)
    }

    /// Adds `self` to `other` in place (`other` becomes `other + self`) and returns `self`.
    #[must_use]
    pub fn add_to(self, other: &mut Self) -> (res: Self)
        ensures
            res == self,
            *final(other) == old(other).spec_add(self),
    {
        *other = other.add_ref(&self);
        self
    }

    /// The summary of the empty text.
    pub fn zero() -> (res: Self)
        ensures
            res == Self::spec_zero(),
            summarizes(res, Seq::empty(), true),
            summarizes(res, Seq::empty(), false),
    {
        proof {
            lemma_empty_text(true);
            lemma_empty_text(false);
        }
        Self::new(Length::zero(), LineLengthSet::zero())
    }

    /// Appends the summary of a following text.
    pub fn add_summary(&mut self, other: &Self)
        ensures
            *final(self) == old(self).spec_add(*other),
    {
        *self = self.add_ref(other);
    }
}

/// Adding the summaries of two texts gives the summary of their concatenation, provided
/// that one of the two texts holds no newline and that the concatenation's length fits in
/// a `usize`. (When both texts hold a newline, the merged middle line is left out of `max`.)
pub proof fn lemma_add_summarizes_concat(
    a: TextSummary,
    fa: Seq<bool>,
    b: TextSummary,
    fb: Seq<bool>,
    counts_newline: bool,
)
    requires
        summarizes(a, fa, counts_newline),
        summarizes(b, fb, counts_newline),
        count_newlines(fa) == 0 || count_newlines(fb) == 0,
        fa.len() + fb.len() <= usize::MAX,
    ensures
        summarizes(a.spec_add(b), fa + fb, counts_newline),
{
    let c = counts_newline;
    let la = line_lengths(fa, c);
    let lb = line_lengths(fb, c);
    let l = line_lengths(fa + fb, c);
    let m = la.last() + lb[0];
    lemma_lines_len(fa, c);
    lemma_lines_len(fb, c);
    lemma_lines_bounded(fa, c);
    lemma_lines_bounded(fb, c);
    lemma_count_concat(fa, fb);
    lemma_lines_concat(fa, fb, c);
    lemma_seq_max_ge(la);
    lemma_seq_max_ge(lb);
    lemma_lines_len(fa + fb, c);
    if count_newlines(fa) == 0 {
        lemma_no_newline(fa, c);
        lemma_seq_max_single(fa.len());
        assert(la.drop_last() =~= Seq::<nat>::empty());
        assert(l =~= seq![m] + lb.drop_first());
        lemma_seq_max_concat(seq![m], lb.drop_first());
        lemma_seq_max_single(m);
        assert(lb =~= seq![lb[0]] + lb.drop_first());
        lemma_seq_max_concat(seq![lb[0]], lb.drop_first());
        lemma_seq_max_single(lb[0]);
        lemma_seq_max_ge(lb.drop_first());
        if count_newlines(fb) != 0 {
            assert(lb.last() == lb.drop_first().last());
        } else {
            lemma_no_newline(fb, c);
            lemma_seq_max_single(fb.len());
        }
    } else {
        lemma_no_newline(fb, c);
        lemma_seq_max_single(fb.len());
        assert(lb.drop_first() =~= Seq::<nat>::empty());
        assert(l =~= la.drop_last() + seq![m]);
        lemma_seq_max_concat(la.drop_last(), seq![m]);
        lemma_seq_max_single(m);
        assert(la =~= la.drop_last() + seq![la.last()]);
        lemma_seq_max_concat(la.drop_last(), seq![la.last()]);
        lemma_seq_max_single(la.last());
        lemma_seq_max_ge(la.drop_last());
        assert(la[0] == la.drop_last()[0]);
    }
    let r = a.spec_add(b);
    assert(r.length.newlines == count_newlines(fa + fb));
    assert(r.length.extended_graphemes == (fa + fb).len());
    assert(r.line_lengths.first == l[0]);
    assert(r.line_lengths.last == l.last());
    assert(r.line_lengths.max == seq_max(l));
}

/// Every element at most `bound` makes the largest at most `bound`.
proof fn lemma_seq_max_at_most(s: Seq<nat>, bound: nat)
    requires
        forall|i: int| 0 <= i < s.len() ==> s[i] <= bound,
    ensures
        seq_max(s) <= bound,
    decreases s.len(),
{
    if s.len() > 0 {
        lemma_seq_max_at_most(s.drop_last(), bound);
    }
}

/// Adding the summaries of two texts, whichever of them hold newlines, gives the number of
/// newlines and of graphemes of their concatenation, the length of its first line and of
/// its last line, and a longest line no longer than the concatenation's longest; when one of
/// the two holds no newline, the longest line is the concatenation's longest (provided the
/// concatenation's length fits in a `usize`).
pub proof fn lemma_add_lines_concat(
    a: TextSummary,
    fa: Seq<bool>,
    b: TextSummary,
    fb: Seq<bool>,
    counts_newline: bool,
)
    requires
        summarizes(a, fa, counts_newline),
        summarizes(b, fb, counts_newline),
        fa.len() + fb.len() <= usize::MAX,
    ensures
        ({
            let r = a.spec_add(b);
            let l = line_lengths(fa + fb, counts_newline);
            &&& r.length.newlines == count_newlines(fa + fb)
            &&& r.length.extended_graphemes == (fa + fb).len()
            &&& r.line_lengths.first == l[0]
            &&& r.line_lengths.last == l.last()
            &&& r.line_lengths.max <= seq_max(l)
            &&& (count_newlines(fa) == 0 || count_newlines(fb) == 0) ==> r.line_lengths.max == seq_max(l)
        }),
{
    if count_newlines(fa) == 0 || count_newlines(fb) == 0 {
        lemma_add_summarizes_concat(a, fa, b, fb, counts_newline);
    } else {
        let c = counts_newline;
        let la = line_lengths(fa, c);
        let lb = line_lengths(fb, c);
        let l = line_lengths(fa + fb, c);
        let m = la.last() + lb[0];
        lemma_lines_len(fa, c);
        lemma_lines_len(fb, c);
        lemma_lines_bounded(fa, c);
        lemma_lines_bounded(fb, c);
        lemma_count_concat(fa, fb);
        lemma_lines_concat(fa, fb, c);
        lemma_lines_len(fa + fb, c);
        lemma_seq_max_ge(l);
        assert(l =~= la.drop_last() + seq![m] + lb.drop_first());
        assert(l[0] == la[0]);
        assert(l.last() == lb.last());
        assert forall|i: int| 0 <= i < la.len() implies la[i] <= seq_max(l) by {
            if i < la.len() - 1 {
                assert(l[i] == la[i]);
            } else {
                assert(l[la.len() - 1] == m);
            }
        }
        assert forall|i: int| 0 <= i < lb.len() implies lb[i] <= seq_max(l) by {
            if i > 0 {
                assert(l[la.len() - 1 + i] == lb[i]);
            } else {
                assert(l[la.len() - 1] == m);
            }
        }
        lemma_seq_max_at_most(la, seq_max(l));
        lemma_seq_max_at_most(lb, seq_max(l));
        crate::text_model::lemma_count_bounded(fa);
        crate::text_model::lemma_count_bounded(fb);
        let r = a.spec_add(b);
        assert(r.length.newlines == count_newlines(fa + fb));
        assert(r.length.extended_graphemes == (fa + fb).len());
        assert(r.line_lengths.first == l[0]);
        assert(r.line_lengths.last == l.last());
        assert(r.line_lengths.max <= seq_max(l));
    }
}

/// A count of newlines, used to seek through summarized texts.
#[derive(Clone, Copy, Debug, PartialEq, Eq, Structural)]
pub struct LengthNewlines(pub usize);

/// A count of extended graphemes, used to seek through summarized texts.
#[derive(Clone, Copy, Debug, PartialEq, Eq, Structural)]
pub struct LengthExtendedGraphemes(pub usize);

impl LengthNewlines {
    pub fn new(value: usize) -> (res: Self)
        ensures
            res.0 == value,
    {
        LengthNewlines(value)
    }

    pub fn get(&self) -> (res: usize)
        ensures
            res == self.0,
    {
        self.0
    }

    /// Moves past a summarized text.
    pub fn add_summary(&mut self, text_summary: &TextSummary)
        ensures
            final(self).0 == sat_add(old(self).0, text_summary.length.newlines),
    {
        self.0 = self.0.saturating_add(text_summary.length.newlines);
    }
}

impl LengthExtendedGraphemes {
    pub fn new(value: usize) -> (res: Self)
        ensures
            res.0 == value,
    {
        LengthExtendedGraphemes(value)
    }

    pub fn get(&self) -> (res: usize)
        ensures
            res == self.0,
    {
        self.0
    }

    /// Moves past a summarized text.
    pub fn add_summary(&mut self, text_summary: &TextSummary)
        ensures
            final(self).0 == sat_add(old(self).0, text_summary.length.extended_graphemes),
    {
        self.0 = self.0.saturating_add(text_summary.length.extended_graphemes);
    }
}

} // verus!
