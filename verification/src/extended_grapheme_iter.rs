//! Walking through a chunk's extended graphemes, keeping the number of lines and graphemes
//! passed.

use vstd::prelude::*;
use crate::chunk::{newline_flags, Chunk};
use crate::chunk_iter::ChunkExtendedGraphemeIter;
use crate::chunk_summary::{Length, LengthExtendedGraphemes, LengthLines};
use crate::text_model::{count_newlines, is_newline, lemma_count_concat};

verus! {

/// The newlines among the first `n` graphemes.
pub open spec fn newlines_before(g: Seq<Seq<char>>, n: int) -> nat {
    count_newlines(newline_flags(g).take(n))
}

/// The length of `lines` lines and `extended_graphemes` graphemes.
pub open spec fn length_of(lines: usize, extended_graphemes: usize) -> Length {
    Length { lines: LengthLines(lines), extended_graphemes: LengthExtendedGraphemes(extended_graphemes) }
}

/// Between two positions with no newline, the count of newlines stays; a newline adds one.
proof fn lemma_newlines_step(g: Seq<Seq<char>>, a: int, b: int)
    requires
        0 <= a <= b <= g.len(),
        forall|i: int| a <= i < b ==> !newline_flags(g)[i],
    ensures
        newlines_before(g, a) <= a,
        newlines_before(g, b) == newlines_before(g, a),
        b < g.len() ==> newlines_before(g, b + 1) == newlines_before(g, a) + if newline_flags(g)[b] {
            1nat
        } else {
            0nat
        },
    decreases b - a,
{
    let flags = newline_flags(g);
    crate::text_model::lemma_count_bounded(flags.take(a));
    if b > a {
        lemma_newlines_step(g, a, b - 1);
        assert(flags.take(b) =~= flags.take(b - 1) + seq![flags[b - 1]]);
        lemma_count_concat(flags.take(b - 1), seq![flags[b - 1]]);
        assert(seq![flags[b - 1]].drop_last() =~= Seq::<bool>::empty());
        assert(count_newlines(Seq::<bool>::empty()) == 0);
    }
    if b < g.len() {
        assert(flags.take(b + 1) =~= flags.take(b) + seq![flags[b]]);
        lemma_count_concat(flags.take(b), seq![flags[b]]);
        assert(seq![flags[b]].drop_last() =~= Seq::<bool>::empty());
        assert(count_newlines(Seq::<bool>::empty()) == 0);
        assert(count_newlines(seq![flags[b]]) == if flags[b] {
            1nat
        } else {
            0nat
        });
    }
}

/// A position in a chunk, with the number of lines and graphemes before it.
pub struct ExtendedGraphemeIter<'c> {
    chunk: &'c Chunk,
    chunk_offset: Length,
}

impl<'c> ExtendedGraphemeIter<'c> {
    /// The graphemes of the chunk walked through.
    pub closed spec fn graphemes(&self) -> Seq<Seq<char>> {
        self.chunk@
    }

    /// The lines and graphemes passed so far.
    pub closed spec fn offset(&self) -> Length {
        self.chunk_offset
    }

    /// The position: the number of graphemes passed.
    pub open spec fn position(&self) -> int {
        self.offset().extended_graphemes.0 as int
    }

    /// The position lies in the chunk, and the lines passed are the newlines before it.
    pub open spec fn wf(&self) -> bool {
        &&& self.inner_wf()
        &&& self.position() <= self.graphemes().len()
        &&& self.offset().lines.0 == newlines_before(self.graphemes(), self.position())
    }

    pub closed spec fn inner_wf(&self) -> bool {
        self.chunk.wf()
    }

    pub fn new(chunk: &'c Chunk) -> (res: Self)
        requires
            chunk.wf(),
        ensures
            res.wf(),
            res.graphemes() == chunk@,
            res.offset() == length_of(0, 0),
    {
        let res = ExtendedGraphemeIter { chunk, chunk_offset: Length::zero() };
        proof {
            assert(newline_flags(chunk@).take(0) =~= Seq::<bool>::empty());
        }
        res
    }

    /// The positions of the newlines at or after the position.
    fn newline_extended_grapheme_offsets_geq(&self) -> (res: &'c [usize])
        requires
            self.wf(),
        ensures
            res@.len() > 0 ==> ChunkExtendedGraphemeIter::next_newline(
                newline_flags(self.graphemes()),
                self.position(),
                res@[0] as int,
            ),
            res@.len() == 0 ==> forall|i: int|
                self.position() <= i < self.graphemes().len() ==> !newline_flags(self.graphemes())[i],
    {
        let res = self.chunk.newline_indices_geq(self.chunk_offset.extended_graphemes.0);
        proof {
            let flags = newline_flags(self.graphemes());
            if res@.len() > 0 {
                assert forall|i: int| self.position() <= i < res@[0] implies !flags[i] by {
                    if flags[i] {
                        let j = choose|j: int| 0 <= j < res@.len() && res@[j] == i;
                        if j > 0 {
                            assert(res@[0] < res@[j]);
                        }
                    }
                }
            } else {
                assert forall|i: int| self.position() <= i < self.graphemes().len() implies !flags[i] by {
                    if flags[i] {
                        let j = choose|j: int| 0 <= j < res@.len() && res@[j] == i;
                    }
                }
            }
        }
        res
    }

    /// Moves to the start of the next line and returns the lines and graphemes passed;
    /// nothing when there is no newline ahead, or when the next line starts at the end of
    /// the chunk.
    pub fn advance_to_start_of_next_line(&mut self) -> (res: Option<Length>)
        requires
            old(self).wf(),
        ensures
            final(self).wf(),
            final(self).graphemes() == old(self).graphemes(),
            res is Some <==> exists|at: int|
                at + 1 < old(self).graphemes().len() && #[trigger] ChunkExtendedGraphemeIter::next_newline(
                    newline_flags(old(self).graphemes()),
                    old(self).position(),
                    at,
                ),
            forall|at: int|
                #[trigger] ChunkExtendedGraphemeIter::next_newline(
                    newline_flags(old(self).graphemes()),
                    old(self).position(),
                    at,
                ) && at + 1 < old(self).graphemes().len() ==> {
                    &&& res == Some(length_of(1, (at + 1 - old(self).position()) as usize))
                    &&& final(self).position() == at + 1
                    &&& final(self).offset().lines.0 == old(self).offset().lines.0 + 1
                },
            res is None ==> final(self).offset() == old(self).offset(),
    {
        let ghost g = self.graphemes();
        let ghost flags = newline_flags(g);
        let ghost position = self.position();
        let offsets = self.newline_extended_grapheme_offsets_geq();
        proof {
            self.chunk.lemma_wf_bounds();
        }
        if offsets.len() == 0 {
            proof {
                assert forall|at: int| !(at + 1 < g.len() && #[trigger] ChunkExtendedGraphemeIter::next_newline(flags, position, at)) by {
                    if at + 1 < g.len() && ChunkExtendedGraphemeIter::next_newline(flags, position, at) {
                        assert(flags[at]);
                    }
                }
            }
            return None;
        }
        let newline = offsets[0];
        proof {
            assert forall|at: int| #[trigger] ChunkExtendedGraphemeIter::next_newline(flags, position, at) implies at == newline by {
                if at < newline {
                    assert(!flags[at]);
                } else if at > newline {
                    assert(!flags[newline as int]);
                }
            }
        }
        let start = newline + 1;
        if self.chunk.len_extended_graphemes() <= start {
            return None;
        }
        let passed = start - self.chunk_offset.extended_graphemes.0;
        proof {
            lemma_newlines_step(g, position, newline as int);
        }
        self.chunk_offset = Length::new(
            LengthLines(self.chunk_offset.lines.0 + 1),
            LengthExtendedGraphemes(start),
        );
        Some(Length::new(LengthLines(1), LengthExtendedGraphemes(passed)))
    }

    /// Moves to the end of the chunk and returns the lines and graphemes passed.
    pub fn advance_to_end_of_chunk(&mut self) -> (res: Length)
        requires
            old(self).wf(),
        ensures
            final(self).wf(),
            final(self).graphemes() == old(self).graphemes(),
            final(self).position() == old(self).graphemes().len(),
            res.extended_graphemes.0 == old(self).graphemes().len() - old(self).position(),
            res.lines.0 == count_newlines(newline_flags(old(self).graphemes())) - old(self).offset().lines.0,
            final(self).offset().lines.0 == old(self).offset().lines.0 + res.lines.0,
    {
        let ghost g = self.graphemes();
        let ghost flags = newline_flags(g);
        let len_lines = self.chunk.len_newlines();
        let len = self.chunk.len_extended_graphemes();
        proof {
            assert(flags.take(self.position()) + flags.subrange(self.position(), g.len() as int) =~= flags.take(
                g.len() as int,
            ));
            assert(flags.take(g.len() as int) =~= flags);
            lemma_count_concat(flags.take(self.position()), flags.subrange(self.position(), g.len() as int));
        }
        let passed = Length::new(
            LengthLines(len_lines - self.chunk_offset.lines.0),
            LengthExtendedGraphemes(len - self.chunk_offset.extended_graphemes.0),
        );
        self.chunk_offset = Length::new(LengthLines(len_lines), LengthExtendedGraphemes(len));
        passed
    }

    /// Moves forward by `count` graphemes without passing the start of the next line, and
    /// returns the lines and graphemes passed: `Ok` when it moved `count` graphemes or
    /// reached the start of the next line, `Err` when it reached the end of the chunk first.
    pub fn advance_within_line(&mut self, count: LengthExtendedGraphemes) -> (res: Result<Length, Length>)
        requires
            old(self).wf(),
        ensures
            final(self).wf(),
            final(self).graphemes() == old(self).graphemes(),
            ({
                let g = old(self).graphemes();
                let position = old(self).position();
                let lines = old(self).offset().lines.0;
                let n = count.0 as int;
                &&& forall|at: int| #[trigger] ChunkExtendedGraphemeIter::next_newline(newline_flags(g), position, at)
                    ==> if n < at + 1 - position {
                    &&& res == Ok::<Length, Length>(length_of(0, count.0))
                    &&& final(self).position() == position + n
                    &&& final(self).offset().lines.0 == lines
                } else {
                    &&& res == Ok::<Length, Length>(length_of(1, (at + 1 - position) as usize))
                    &&& final(self).position() == at + 1
                    &&& final(self).offset().lines.0 == lines + 1
                }
                &&& (forall|at: int| !#[trigger] ChunkExtendedGraphemeIter::next_newline(newline_flags(g), position, at))
                    ==> if n <= g.len() - position {
                    &&& res == Ok::<Length, Length>(length_of(0, count.0))
                    &&& final(self).position() == position + n
                    &&& final(self).offset().lines.0 == lines
                } else {
                    &&& res == Err::<Length, Length>(length_of(0, (g.len() - position) as usize))
                    &&& final(self).position() == g.len()
                    &&& final(self).offset().lines.0 == lines
                }
            }),
    {
        let ghost g = self.graphemes();
        let ghost flags = newline_flags(g);
        let ghost position = self.position();
        let n = count.0;
        let offsets = self.newline_extended_grapheme_offsets_geq();
        proof {
            self.chunk.lemma_wf_bounds();
        }
        let here = self.chunk_offset.extended_graphemes.0;
        if offsets.len() > 0 {
            let newline = offsets[0];
            proof {
                assert forall|at: int| #[trigger] ChunkExtendedGraphemeIter::next_newline(flags, position, at) implies at == newline by {
                    if at < newline {
                        assert(!flags[at]);
                    } else if at > newline {
                        assert(!flags[newline as int]);
                    }
                }
            }
            let to_start_of_next_line = newline + 1 - here;
            if n < to_start_of_next_line {
                proof {
                    lemma_newlines_step(g, position, position + n);
                }
                self.chunk_offset = Length::new(self.chunk_offset.lines, LengthExtendedGraphemes(here + n));
                Ok(Length::new(LengthLines(0), count))
            } else {
                proof {
                    lemma_newlines_step(g, position, newline as int);
                }
                self.chunk_offset = Length::new(
                    LengthLines(self.chunk_offset.lines.0 + 1),
                    LengthExtendedGraphemes(newline + 1),
                );
                Ok(Length::new(LengthLines(1), LengthExtendedGraphemes(to_start_of_next_line)))
            }
        } else {
            proof {
                assert forall|at: int| !#[trigger] ChunkExtendedGraphemeIter::next_newline(flags, position, at) by {
                    if ChunkExtendedGraphemeIter::next_newline(flags, position, at) {
                        assert(!flags[at]);
                    }
                }
            }
            let to_end_of_chunk = self.chunk.len_extended_graphemes() - here;
            if n <= to_end_of_chunk {
                proof {
                    lemma_newlines_step(g, position, position + n);
                }
                self.chunk_offset = Length::new(self.chunk_offset.lines, LengthExtendedGraphemes(here + n));
                Ok(Length::new(LengthLines(0), count))
            } else {
                proof {
                    lemma_newlines_step(g, position, g.len() as int);
                }
                self.chunk_offset = Length::new(
                    self.chunk_offset.lines,
                    LengthExtendedGraphemes(here + to_end_of_chunk),
                );
                Err(Length::new(LengthLines(0), LengthExtendedGraphemes(to_end_of_chunk)))
            }
        }
    }

    /// The grapheme at the position, then moves past it, counting a line when it is a
    /// newline.
    pub fn next(&mut self) -> (res: Option<&'c str>)
        requires
            old(self).wf(),
        ensures
            final(self).wf(),
            final(self).graphemes() == old(self).graphemes(),
            old(self).position() < old(self).graphemes().len() ==> {
                &&& res matches Some(text) && text@ == old(self).graphemes()[old(self).position()]
                &&& final(self).position() == old(self).position() + 1
                &&& final(self).offset().lines.0 == old(self).offset().lines.0 + if newline_flags(
                    old(self).graphemes(),
                )[old(self).position()] {
                    1nat
                } else {
                    0nat
                }
            },
            old(self).position() >= old(self).graphemes().len() ==> res is None && final(self).offset()
                == old(self).offset(),
    {
        let ghost g = self.graphemes();
        let ghost position = self.position();
        let here = self.chunk_offset.extended_graphemes.0;
        let extended_grapheme = match self.chunk.extended_grapheme_at(here) {
            Some(text) => text,
            None => {
                return None;
            },
        };
        proof {
            self.chunk.lemma_wf_bounds();
            lemma_newlines_step(g, position, position);
            assert(newline_flags(g)[position] == crate::text_model::is_newline_chars(g[position]));
        }
        let lines = if is_newline(extended_grapheme) {
            self.chunk_offset.lines.0 + 1
        } else {
            self.chunk_offset.lines.0
        };
        self.chunk_offset = Length::new(LengthLines(lines), LengthExtendedGraphemes(here + 1));
        Some(extended_grapheme)
    }
}

} // verus!
