//! Walking through a chunk's extended graphemes, keeping the summary of what was passed.

use vstd::prelude::*;
use crate::chunk::{distance_summary, flags_between, lists_positions_between, newline_flags, Chunk};
use crate::segmentation::{flat, lemma_flat_concat, lemma_utf8_len_concat, split_at_byte, utf8_len};
use crate::text_summary::TextSummary;

verus! {

/// A position in a chunk, with the summary of the graphemes before it.
pub struct ChunkExtendedGraphemeIter<'c> {
    chunk: &'c Chunk,
    offset: TextSummary,
}

/// Two prefixes of a text with the same number of bytes are the same prefix.
proof fn lemma_same_bytes_same_prefix(text: Seq<char>, a: Seq<char>, b: Seq<char>)
    requires
        a.len() <= text.len(),
        b.len() <= text.len(),
        a == text.take(a.len() as int),
        b == text.take(b.len() as int),
        utf8_len(a) == utf8_len(b),
    ensures
        a == b,
{
    if a.len() < b.len() {
        crate::segmentation::lemma_utf8_len_prefix(text, a.len() as int, b.len() as int);
    } else if a.len() > b.len() {
        crate::segmentation::lemma_utf8_len_prefix(text, b.len() as int, a.len() as int);
    }
}

impl Chunk {
    /// A walk through the chunk from its start.
    pub fn extended_grapheme_iter(&self) -> (res: ChunkExtendedGraphemeIter<'_>)
        requires
            self.wf(),
        ensures
            res.wf(),
            res.graphemes() == self@,
            res.spec_offset() == TextSummary::spec_zero(),
    {
        ChunkExtendedGraphemeIter::new(self)
    }

    /// The grapheme at `index`, if any.
    pub fn extended_grapheme_at(&self, index: usize) -> (res: Option<&str>)
        requires
            self.wf(),
        ensures
            index < self@.len() ==> (res matches Some(text) && text@ == self@[index as int]),
            index >= self@.len() ==> res is None,
    {
        let ranges = self.byte_index_intervals();
        if index >= ranges.len() {
            return None;
        }
        let range_start = ranges[index].start;
        let range_end = ranges[index].end;
        let text = self.as_str();
        let ghost g = self@;
        let ghost before = flat(g.take(index as int));
        let ghost through = flat(g.take(index + 1));
        proof {
            self.lemma_wf_bounds();
            assert(g.take(index + 1).drop_last() =~= g.take(index as int));
            assert(through == before + g[index as int]);
            lemma_flat_concat(g.take(index + 1), g.skip(index + 1));
            assert(g =~= g.take(index + 1) + g.skip(index + 1));
            lemma_utf8_len_concat(through, flat(g.skip(index + 1)));
            lemma_utf8_len_concat(before, g[index as int]);
            assert(text@.take(through.len() as int) =~= through);
            assert(utf8_len(text@.take(through.len() as int)) == range_end);
        }
        let (head, _) = split_at_byte(text, range_end);
        proof {
            assert(head@ == text@.take(head@.len() as int)) by {
                assert(text@ =~= head@ + text@.skip(head@.len() as int));
            }
            lemma_same_bytes_same_prefix(text@, head@, through);
            assert(head@.take(before.len() as int) =~= before);
            assert(utf8_len(head@.take(before.len() as int)) == range_start);
        }
        let (prefix, grapheme) = split_at_byte(head, range_start);
        proof {
            assert(prefix@ == head@.take(prefix@.len() as int)) by {
                assert(head@ =~= prefix@ + grapheme@);
            }
            assert(before == head@.take(before.len() as int));
            lemma_same_bytes_same_prefix(head@, prefix@, before);
            assert(head@ == through);
            assert(grapheme@ =~= head@.skip(prefix@.len() as int));
            assert(through.skip(before.len() as int) =~= g[index as int]);
        }
        Some(grapheme)
    }
}

impl<'c> ChunkExtendedGraphemeIter<'c> {
    /// The graphemes of the chunk walked through.
    pub closed spec fn graphemes(&self) -> Seq<Seq<char>> {
        self.chunk@
    }

    /// The summary of the graphemes passed so far.
    pub closed spec fn spec_offset(&self) -> TextSummary {
        self.offset
    }

    pub closed spec fn wf(&self) -> bool {
        &&& self.chunk.wf()
        &&& self.offset.length.extended_graphemes <= self.chunk@.len()
    }

    /// The position: the number of graphemes passed.
    pub open spec fn position(&self) -> int {
        self.spec_offset().length.extended_graphemes as int
    }

    /// The position of the first newline at or after `from`, if any.
    pub open spec fn next_newline(flags: Seq<bool>, from: int, at: int) -> bool {
        &&& from <= at < flags.len()
        &&& flags[at]
        &&& forall|i: int| from <= i < at ==> !flags[i]
    }

    pub fn new(chunk: &'c Chunk) -> (res: Self)
        requires
            chunk.wf(),
        ensures
            res.wf(),
            res.graphemes() == chunk@,
            res.spec_offset() == TextSummary::spec_zero(),
    {
        ChunkExtendedGraphemeIter { chunk, offset: TextSummary::zero() }
    }

    fn index(&self) -> (res: usize)
        ensures
            res == self.position(),
    {
        self.offset.length.extended_graphemes
    }

    /// The position just after the next newline.
    fn start_of_next_line_index(&self) -> (res: Option<usize>)
        requires
            self.wf(),
        ensures
            match res {
                Some(n) => n >= 1 && Self::next_newline(newline_flags(self.graphemes()), self.position(), n - 1),
                None => forall|i: int|
                    self.position() <= i < self.graphemes().len() ==> !newline_flags(self.graphemes())[i],
            },
    {
        proof {
            self.chunk.lemma_wf_bounds();
        }
        let newlines = self.chunk.newline_indices_geq(self.index());
        let ghost flags = newline_flags(self.graphemes());
        if newlines.len() == 0 {
            proof {
                assert forall|i: int| self.position() <= i < self.graphemes().len() implies !flags[i] by {
                    if flags[i] {
                        let j = choose|j: int| 0 <= j < newlines@.len() && newlines@[j] == i;
                    }
                }
            }
            None
        } else {
            let first = newlines[0];
            proof {
                assert forall|i: int| self.position() <= i < first implies !flags[i] by {
                    if flags[i] {
                        let j = choose|j: int| 0 <= j < newlines@.len() && newlines@[j] == i;
                        if j > 0 {
                            assert(newlines@[0] < newlines@[j]);
                        }
                    }
                }
            }
            Some(first + 1)
        }
    }

    /// Moves to `index` (cut to the chunk's length) and returns the summary of the graphemes
    /// passed, which is also added to the offset.
    fn advance_to(&mut self, index: usize) -> (res: TextSummary)
        requires
            old(self).wf(),
            index >= old(self).position(),
        ensures
            final(self).wf(),
            final(self).graphemes() == old(self).graphemes(),
            res == distance_summary(flags_between(old(self).graphemes(), old(self).position(), index as int)),
            final(self).spec_offset() == old(self).spec_offset().spec_add(res),
            final(self).position() == if index < old(self).graphemes().len() {
                index as int
            } else {
                old(self).graphemes().len() as int
            },
    {
        proof {
            self.chunk.lemma_wf_bounds();
        }
        let distance = self.chunk.distance_between(self.index(), index);
        distance.add_to(&mut self.offset)
    }

    fn advance_forward(&mut self, count: usize) -> (res: TextSummary)
        requires
            old(self).wf(),
        ensures
            final(self).wf(),
            final(self).graphemes() == old(self).graphemes(),
            res == distance_summary(
                flags_between(old(self).graphemes(), old(self).position(), old(self).position() + count),
            ),
            final(self).spec_offset() == old(self).spec_offset().spec_add(res),
            final(self).position() == if old(self).position() + count < old(self).graphemes().len() {
                old(self).position() + count
            } else {
                old(self).graphemes().len() as int
            },
    {
        let index = self.index().saturating_add(count);
        proof {
            assert(flags_between(self.graphemes(), self.position(), index as int) =~= flags_between(
                self.graphemes(),
                self.position(),
                self.position() + count,
            )) by {
                self.chunk.lemma_wf_bounds();
            }
        }
        self.advance_to(index)
    }

    /// The grapheme at the position, if any.
    pub fn get(&self) -> (res: Option<&'c str>)
        requires
            self.wf(),
        ensures
            self.position() < self.graphemes().len() ==> (res matches Some(text) && text@ == self.graphemes()[self.position()]),
            self.position() >= self.graphemes().len() ==> res is None,
    {
        self.chunk.extended_grapheme_at(self.index())
    }

    /// Moves to the start of the next line and returns the summary of the graphemes passed;
    /// nothing when there is no newline ahead, or when the next line starts at the end of
    /// the chunk.
    pub fn advance_to_start_of_next_line(&mut self) -> (res: Option<TextSummary>)
        requires
            old(self).wf(),
        ensures
            final(self).wf(),
            final(self).graphemes() == old(self).graphemes(),
            match res {
                Some(distance) => exists|n: int|
                    n < old(self).graphemes().len() && Self::next_newline(
                        newline_flags(old(self).graphemes()),
                        old(self).position(),
                        n - 1,
                    ) && distance == distance_summary(
                        flags_between(old(self).graphemes(), old(self).position(), n),
                    ) && final(self).spec_offset() == old(self).spec_offset().spec_add(distance),
                None => final(self).spec_offset() == old(self).spec_offset(),
            },
            res is Some <==> exists|at: int|
                at + 1 < old(self).graphemes().len() && #[trigger] Self::next_newline(
                    newline_flags(old(self).graphemes()),
                    old(self).position(),
                    at,
                ),
    {
        let ghost flags = newline_flags(self.graphemes());
        let ghost position = self.position();
        let ghost len = self.graphemes().len();
        let start = match self.start_of_next_line_index() {
            Some(start) => start,
            None => {
                proof {
                    assert forall|at: int| !(at + 1 < len && #[trigger] Self::next_newline(flags, position, at)) by {
                        if at + 1 < len && Self::next_newline(flags, position, at) {
                            assert(flags[at]);
                        }
                    }
                }
                return None;
            },
        };
        if self.chunk.len_extended_graphemes() <= start {
            proof {
                assert forall|at: int| !(at + 1 < len && #[trigger] Self::next_newline(flags, position, at)) by {
                    if at + 1 < len && Self::next_newline(flags, position, at) {
                        if at + 1 < start {
                            assert(!flags[at]);
                        }
                    }
                }
            }
            return None;
        }
        Some(self.advance_to(start))
    }

    /// Moves to the end of the chunk and returns the summary of the graphemes passed.
    pub fn advance_to_end_of_chunk(&mut self) -> (res: TextSummary)
        requires
            old(self).wf(),
        ensures
            final(self).wf(),
            final(self).graphemes() == old(self).graphemes(),
            res == distance_summary(
                flags_between(old(self).graphemes(), old(self).position(), old(self).graphemes().len() as int),
            ),
            final(self).spec_offset() == old(self).spec_offset().spec_add(res),
            final(self).position() == old(self).graphemes().len(),
    {
        let len = self.chunk.len_extended_graphemes();
        self.advance_to(len)
    }

    /// Moves forward by `count` graphemes without passing the start of the next line, and
    /// returns the summary of the graphemes passed: `Ok` when it moved `count` graphemes or
    /// reached the start of the next line, `Err` when it reached the end of the chunk first.
    pub fn advance_within_line(&mut self, count: usize) -> (res: Result<TextSummary, TextSummary>)
        requires
            old(self).wf(),
        ensures
            final(self).wf(),
            final(self).graphemes() == old(self).graphemes(),
            ({
                let distance = match res {
                    Ok(d) => d,
                    Err(d) => d,
                };
                let g = old(self).graphemes();
                let position = old(self).position();
                let forward = position + count;
                &&& final(self).spec_offset() == old(self).spec_offset().spec_add(distance)
                &&& forall|at: int| #[trigger] Self::next_newline(newline_flags(g), position, at) ==> {
                    let end = if forward < at + 1 {
                        forward
                    } else {
                        at + 1
                    };
                    &&& final(self).position() == end
                    &&& distance == distance_summary(flags_between(g, position, end))
                }
                &&& (forall|at: int| !#[trigger] Self::next_newline(newline_flags(g), position, at)) ==> {
                    &&& final(self).position() == if forward < g.len() {
                        forward
                    } else {
                        g.len() as int
                    }
                    &&& distance == distance_summary(flags_between(g, position, forward))
                }
            }),
            res is Ok <==> (exists|at: int|
                #[trigger] Self::next_newline(newline_flags(old(self).graphemes()), old(self).position(), at))
                || old(self).position() + count <= old(self).graphemes().len(),
    {
        let ghost g = self.graphemes();
        let ghost flags = newline_flags(g);
        let ghost position = self.position();
        let (has_newline, max_end_index) = match self.start_of_next_line_index() {
            Some(start) => (true, start),
            None => (false, self.chunk.len_extended_graphemes()),
        };
        let forward = self.index().saturating_add(count);
        let end_index = if forward < max_end_index {
            forward
        } else {
            max_end_index
        };
        proof {
            self.chunk.lemma_wf_bounds();
            if has_newline {
                assert forall|at: int| #[trigger] Self::next_newline(flags, position, at) implies at == max_end_index - 1 by {
                    if at < max_end_index - 1 {
                        assert(!flags[at]);
                    } else if at > max_end_index - 1 {
                        assert(!flags[max_end_index - 1]);
                    }
                }
                assert(Self::next_newline(flags, position, max_end_index - 1));
            } else {
                assert forall|at: int| !#[trigger] Self::next_newline(flags, position, at) by {
                    if Self::next_newline(flags, position, at) {
                        assert(!flags[at]);
                    }
                }
                assert(flags_between(g, position, end_index as int) =~= flags_between(g, position, position + count));
            }
        }
        let distance = self.advance_to(end_index);
        if has_newline || forward <= max_end_index {
            Ok(distance)
        } else {
            Err(distance)
        }
    }

    /// The grapheme at the position, then moves past it.
    pub fn next(&mut self) -> (res: Option<&'c str>)
        requires
            old(self).wf(),
        ensures
            final(self).wf(),
            final(self).graphemes() == old(self).graphemes(),
            old(self).position() < old(self).graphemes().len() ==> (res matches Some(text) && text@
                == old(self).graphemes()[old(self).position()] && final(self).position() == old(self).position() + 1),
            old(self).position() >= old(self).graphemes().len() ==> res is None && final(self).position()
                == old(self).position(),
    {
        let extended_grapheme = self.get();
        let _ = self.advance_forward(1);
        extended_grapheme
    }
}

} // verus!
