use vstd::prelude::*;
use crate::text_model::{
    count_newlines, is_newline, is_newline_chars, lemma_count_bounded, lemma_count_concat, lemma_empty_text,
    lemma_lines_bounded, lemma_lines_concat, lemma_lines_len, lemma_no_newline, lemma_seq_max_concat,
    lemma_seq_max_ge, lemma_seq_max_single, line_lengths, seq_max,
};
use crate::text_summary::{max_usize, sat_add, usize_max};

verus! {

/// `a - b`, or 0 when `b > a`.
pub open spec fn sat_sub(a: usize, b: usize) -> usize {
    if a < b {
        0
    } else {
        (a - b) as usize
    }
}

/// A number of lines (that is, of newlines passed).
#[derive(Clone, Copy, Debug, PartialEq, Eq, Structural)]
pub struct LengthLines(pub usize);

/// A number of extended graphemes.
#[derive(Clone, Copy, Debug, PartialEq, Eq, Structural)]
pub struct LengthExtendedGraphemes(pub usize);

impl LengthLines {
    pub fn new(value: usize) -> (res: Self)
        ensures
            res.0 == value,
    {
        LengthLines(value)
    }

    pub fn zero() -> (res: Self)
        ensures
            res.0 == 0,
    {
        LengthLines(0)
    }

    pub fn one() -> (res: Self)
        ensures
            res.0 == 1,
    {
        LengthLines(1)
    }

    /// 1 for `true`, 0 for `false`.
    pub fn from_bool(value: bool) -> (res: Self)
        ensures
            res.0 == if value {
                1usize
            } else {
                0usize
            },
    {
        LengthLines(if value {
            1
        } else {
            0
        })
    }

    pub fn get(&self) -> (res: usize)
        ensures
            res == self.0,
    {
        self.0
    }

    pub fn is_positive(&self) -> (res: bool)
        ensures
            res == (self.0 > 0),
    {
        self.0 > 0
    }

    pub fn saturating_add(&self, other: &Self) -> (res: Self)
        ensures
            res.0 == sat_add(self.0, other.0),
    {
        LengthLines(self.0.saturating_add(other.0))
    }

    pub fn saturating_sub(&self, other: &Self) -> (res: Self)
        ensures
            res.0 == sat_sub(self.0, other.0),
    {
        LengthLines(self.0.saturating_sub(other.0))
    }

    /// Moves past a summarized chunk.
    pub fn add_summary(&mut self, chunk_summary: &ChunkSummary)
        ensures
            final(self).0 == sat_add(old(self).0, chunk_summary.len.lines.0),
    {
        self.0 = self.0.saturating_add(chunk_summary.len.lines.0);
    }
}

impl LengthExtendedGraphemes {
    pub fn new(value: usize) -> (res: Self)
        ensures
            res.0 == value,
    {
        LengthExtendedGraphemes(value)
    }

    pub fn zero() -> (res: Self)
        ensures
            res.0 == 0,
    {
        LengthExtendedGraphemes(0)
    }

    pub fn one() -> (res: Self)
        ensures
            res.0 == 1,
    {
        LengthExtendedGraphemes(1)
    }

    pub fn get(&self) -> (res: usize)
        ensures
            res == self.0,
    {
        self.0
    }

    pub fn is_positive(&self) -> (res: bool)
        ensures
            res == (self.0 > 0),
    {
        self.0 > 0
    }

    pub fn saturating_add(&self, other: &Self) -> (res: Self)
        ensures
            res.0 == sat_add(self.0, other.0),
    {
        LengthExtendedGraphemes(self.0.saturating_add(other.0))
    }

    pub fn saturating_sub(&self, other: &Self) -> (res: Self)
        ensures
            res.0 == sat_sub(self.0, other.0),
    {
        LengthExtendedGraphemes(self.0.saturating_sub(other.0))
    }

    /// Moves past a summarized chunk.
    pub fn add_summary(&mut self, chunk_summary: &ChunkSummary)
        ensures
            final(self).0 == sat_add(old(self).0, chunk_summary.len.extended_graphemes.0),
    {
        self.0 = self.0.saturating_add(chunk_summary.len.extended_graphemes.0);
    }
}

/// How many lines (newlines) and extended graphemes a chunk holds.
#[derive(Clone, Copy, Debug, PartialEq, Eq, Structural)]
pub struct Length {
    pub lines: LengthLines,
    pub extended_graphemes: LengthExtendedGraphemes,
}

impl Length {
    pub fn new(lines: LengthLines, extended_graphemes: LengthExtendedGraphemes) -> (res: Self)
        ensures
            res.lines == lines,
            res.extended_graphemes == extended_graphemes,
    {
        Self { lines, extended_graphemes }
    }

    pub fn zero() -> (res: Self)
        ensures
            res.lines.0 == 0,
            res.extended_graphemes.0 == 0,
    {
        Self::new(LengthLines::zero(), LengthExtendedGraphemes::zero())
    }

    /// The length of a single extended grapheme.
    #[must_use]
    pub fn from_extended_grapheme(extended_grapheme: &str) -> (res: Self)
        ensures
            res.lines.0 == if is_newline_chars(extended_grapheme@) {
                1usize
            } else {
                0usize
            },
            res.extended_graphemes.0 == 1,
    {
        Self::new(LengthLines::from_bool(is_newline(extended_grapheme)), LengthExtendedGraphemes::one())
    }

    pub fn lines(&self) -> (res: LengthLines)
        ensures
            res == self.lines,
    {
        self.lines
    }

    pub fn extended_graphemes(&self) -> (res: LengthExtendedGraphemes)
        ensures
            res == self.extended_graphemes,
    {
        self.extended_graphemes
    }

    pub fn lines_mut(&mut self) -> (res: &mut LengthLines)
        ensures
            *res == old(self).lines,
            final(self).lines == *final(res),
            final(self).extended_graphemes == old(self).extended_graphemes,
    {
        &mut self.lines
    }

    pub fn extended_graphemes_mut(&mut self) -> (res: &mut LengthExtendedGraphemes)
        ensures
            *res == old(self).extended_graphemes,
            final(self).extended_graphemes == *final(res),
            final(self).lines == old(self).lines,
    {
        &mut self.extended_graphemes
    }

    pub fn saturating_add(&self, other: &Self) -> (res: Self)
        ensures
            res.lines.0 == sat_add(self.lines.0, other.lines.0),
            res.extended_graphemes.0 == sat_add(self.extended_graphemes.0, other.extended_graphemes.0),
    {
        Self::new(
            self.lines.saturating_add(&other.lines),
            self.extended_graphemes.saturating_add(&other.extended_graphemes),
        )
    }

    pub fn saturating_sub(&self, other: &Self) -> (res: Self)
        ensures
            res.lines.0 == sat_sub(self.lines.0, other.lines.0),
            res.extended_graphemes.0 == sat_sub(self.extended_graphemes.0, other.extended_graphemes.0),
    {
        Self::new(
            self.lines.saturating_sub(&other.lines),
            self.extended_graphemes.saturating_sub(&other.extended_graphemes),
        )
    }
}

/// The lengths of the first, last and longest line.
#[derive(Clone, Copy, Debug, PartialEq, Eq, Structural)]
pub struct LineLengthSummary {
    pub first: LengthExtendedGraphemes,
    pub last: LengthExtendedGraphemes,
    pub max: LengthExtendedGraphemes,
}

impl LineLengthSummary {
    pub fn new(
        first: LengthExtendedGraphemes,
        last: LengthExtendedGraphemes,
        max: LengthExtendedGraphemes,
    ) -> (res: Self)
        ensures
            res.first == first,
            res.last == last,
            res.max == max,
    {
        Self { first, last, max }
    }

    pub fn max(&self) -> (res: LengthExtendedGraphemes)
        ensures
            res == self.max,
    {
        self.max
    }

    /// Sets the first, last and longest line length to `width` (a text of one line).
    pub fn set_all(&mut self, width: LengthExtendedGraphemes)
        ensures
            final(self).first == width,
            final(self).last == width,
            final(self).max == width,
    {
        self.first = width;
        self.last = width;
        self.max = width;
    }
}

/// The summary of a chunk of text: its length and its line lengths.
#[derive(Clone, Copy, Debug, PartialEq, Eq, Structural)]
pub struct ChunkSummary {
    pub len: Length,
    pub line_lengths: LineLengthSummary,
}

/// `summary` describes the text `flags` (one newline flag per extended grapheme).
pub open spec fn summarizes_chunk(summary: ChunkSummary, flags: Seq<bool>, counts_newline: bool) -> bool {
    let lines = line_lengths(flags, counts_newline);
    &&& summary.len.lines.0 == count_newlines(flags)
    &&& summary.len.extended_graphemes.0 == flags.len()
    &&& summary.line_lengths.first.0 == lines[0]
    &&& summary.line_lengths.last.0 == lines.last()
    &&& summary.line_lengths.max.0 == seq_max(lines)
}

impl ChunkSummary {
    /// The summary of a following text appended to `self`, with saturating arithmetic.
    pub open spec fn spec_add(self, other: ChunkSummary) -> ChunkSummary {
        let (first, last, max) = if self.len.lines.0 == 0 && other.len.lines.0 == 0 {
            let w = sat_add(self.line_lengths.first.0, other.line_lengths.first.0);
            (w, w, w)
        } else if other.len.lines.0 == 0 {
            let last = sat_add(self.line_lengths.last.0, other.line_lengths.first.0);
            (self.line_lengths.first.0, last, usize_max(self.line_lengths.max.0, last))
        } else if self.len.lines.0 == 0 {
            let new_first = sat_add(self.line_lengths.first.0, other.line_lengths.first.0);
            (
                new_first,
                other.line_lengths.last.0,
                usize_max(self.line_lengths.max.0, usize_max(other.line_lengths.max.0, new_first)),
            )
        } else {
            let middle = sat_add(self.line_lengths.last.0, other.line_lengths.first.0);
            (
                self.line_lengths.first.0,
                other.line_lengths.last.0,
                usize_max(self.line_lengths.max.0, usize_max(other.line_lengths.max.0, middle)),
            )
        };
        ChunkSummary {
            len: Length {
                lines: LengthLines(sat_add(self.len.lines.0, other.len.lines.0)),
                extended_graphemes: LengthExtendedGraphemes(
                    sat_add(self.len.extended_graphemes.0, other.len.extended_graphemes.0),
                ),
            },
            line_lengths: LineLengthSummary {
                first: LengthExtendedGraphemes(first),
                last: LengthExtendedGraphemes(last),
                max: LengthExtendedGraphemes(max),
            },
        }
    }

    pub fn new(len: Length, line_lengths: LineLengthSummary) -> (res: Self)
        ensures
            res.len == len,
            res.line_lengths == line_lengths,
    {
        Self { len, line_lengths }
    }

    pub fn len(&self) -> (res: Length)
        ensures
            res == self.len,
    {
        self.len
    }

    pub fn line_lengths(&self) -> (res: LineLengthSummary)
        ensures
            res == self.line_lengths,
    {
        self.line_lengths
    }

    /// The summary of the empty text.
    pub fn zero() -> (res: Self)
        ensures
            summarizes_chunk(res, Seq::empty(), true),
            summarizes_chunk(res, Seq::empty(), false),
    {
        proof {
            lemma_empty_text(true);
            lemma_empty_text(false);
        }
        let z = LengthExtendedGraphemes::zero();
        Self::new(Length::zero(), LineLengthSummary::new(z, z, z))
    }

    /// Appends the summary of a following text to `self`.
    pub fn add_summary(&mut self, other: &Self)
        ensures
            *final(self) == old(self).spec_add(*other),
    {
        let self_multiline = self.len.lines.is_positive();
        let other_multiline = other.len.lines.is_positive();
        if !self_multiline && !other_multiline {
            let common_width = self.line_lengths.first.saturating_add(&other.line_lengths.first);
            self.line_lengths.set_all(common_width);
        } else if self_multiline && !other_multiline {
            self.line_lengths.last = self.line_lengths.last.saturating_add(&other.line_lengths.first);
            self.line_lengths.max = LengthExtendedGraphemes(
                max_usize(self.line_lengths.max.0, self.line_lengths.last.0),
            );
        } else if !self_multiline && other_multiline {
            let new_first_width = self.line_lengths.first.saturating_add(&other.line_lengths.first);
            let lower_bound = max_usize(other.line_lengths.max.0, new_first_width.0);
            self.line_lengths.first = new_first_width;
            self.line_lengths.last = other.line_lengths.last;
            self.line_lengths.max = LengthExtendedGraphemes(
                max_usize(self.line_lengths.max.0, lower_bound),
            );
        } else {
            let middle = self.line_lengths.last.saturating_add(&other.line_lengths.first);
            let lower_bound = max_usize(other.line_lengths.max.0, middle.0);
            self.line_lengths.last = other.line_lengths.last;
            self.line_lengths.max = LengthExtendedGraphemes(
                max_usize(self.line_lengths.max.0, lower_bound),
            );
        }
        self.len = self.len.saturating_add(&other.len);
    }
}

/// Appending summaries gives the summary of the concatenated text, for any two texts whose
/// concatenation's length fits in a `usize`.
pub proof fn lemma_chunk_add_summarizes_concat(
    a: ChunkSummary,
    fa: Seq<bool>,
    b: ChunkSummary,
    fb: Seq<bool>,
    counts_newline: bool,
)
    requires
        summarizes_chunk(a, fa, counts_newline),
        summarizes_chunk(b, fb, counts_newline),
        fa.len() + fb.len() <= usize::MAX,
    ensures
        summarizes_chunk(a.spec_add(b), fa + fb, counts_newline),
{
    let c = counts_newline;
    let la = line_lengths(fa, c);
    let lb = line_lengths(fb, c);
    let l = line_lengths(fa + fb, c);
    let m = la.last() + lb[0];
    lemma_lines_len(fa, c);
    lemma_lines_len(fb, c);
    lemma_lines_bounded(fa, c);
    lemma_lines_bounded(fb, c);
    lemma_count_concat(fa, fb);
    lemma_count_bounded(fa);
    lemma_count_bounded(fb);
    lemma_lines_concat(fa, fb, c);
    lemma_lines_len(fa + fb, c);
    lemma_seq_max_ge(la);
    lemma_seq_max_ge(lb);
    assert(la =~= la.drop_last() + seq![la.last()]);
    lemma_seq_max_concat(la.drop_last(), seq![la.last()]);
    lemma_seq_max_single(la.last());
    assert(lb =~= seq![lb[0]] + lb.drop_first());
    lemma_seq_max_concat(seq![lb[0]], lb.drop_first());
    lemma_seq_max_single(lb[0]);
    lemma_seq_max_concat(la.drop_last() + seq![m], lb.drop_first());
    lemma_seq_max_concat(la.drop_last(), seq![m]);
    lemma_seq_max_single(m);
    lemma_seq_max_ge(la.drop_last());
    lemma_seq_max_ge(lb.drop_first());
    if count_newlines(fa) == 0 {
        lemma_no_newline(fa, c);
        lemma_seq_max_single(fa.len());
        assert(la.drop_last() =~= Seq::<nat>::empty());
    } else {
        assert(la[0] == la.drop_last()[0]);
    }
    if count_newlines(fb) == 0 {
        lemma_no_newline(fb, c);
        lemma_seq_max_single(fb.len());
        assert(lb.drop_first() =~= Seq::<nat>::empty());
    } else {
        assert(lb.last() == lb.drop_first().last());
    }
    assert(l =~= la.drop_last() + seq![m] + lb.drop_first());
    let r = a.spec_add(b);
    assert(r.len.lines.0 == count_newlines(fa + fb));
    assert(r.len.extended_graphemes.0 == (fa + fb).len());
    assert(r.line_lengths.first.0 == l[0]);
    assert(r.line_lengths.last.0 == l.last());
    assert(r.line_lengths.max.0 == seq_max(l));
}

} // verus!
