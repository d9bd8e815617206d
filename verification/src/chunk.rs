//! A chunk of text of at most 256 bytes, held with the byte range of each of its extended
//! graphemes and the positions of its newline graphemes.

use vstd::prelude::*;
use arrayvec::{ArrayString, ArrayVec};
use core::ops::Range;
use crate::chunk_storage::{
    index_buffer_as_slice, index_buffer_clone, index_buffer_items, index_buffer_new, index_buffer_push,
    range_buffer_as_slice, range_buffer_clone, range_buffer_items, range_buffer_new, range_buffer_push,
    text_buffer_as_str, text_buffer_chars, text_buffer_clone, text_buffer_len, text_buffer_new,
    text_buffer_try_push_str,
};
use crate::segmentation::{
    all_nonempty, byte_len, extended_graphemes, extended_graphemes_of, flat, lemma_flat_concat, lemma_flat_len,
    lemma_utf8_len_bounds, lemma_utf8_len_concat, split_at_byte, utf8_len,
};
use crate::text_model::{
    count_newlines, is_newline, is_newline_chars, lemma_count_bounded, lemma_lines_bounded, lemma_lines_len,
    lemma_no_newline, lemma_seq_max_ge, lemma_seq_max_single, line_lengths, seq_max,
};
use crate::text_summary::{summarizes, Length, LineLengthSet, TextSummary};

verus! {

/// The capacity of a chunk, in bytes.
pub const CAPACITY: usize = 256;

/// Whether each piece is a newline grapheme.
pub open spec fn newline_flags(pieces: Seq<Seq<char>>) -> Seq<bool> {
    pieces.map_values(|piece: Seq<char>| is_newline_chars(piece))
}

/// The positions that hold, in increasing order.
pub open spec fn positions_of(flags: Seq<bool>) -> Seq<usize>
    decreases flags.len(),
{
    if flags.len() == 0 {
        Seq::empty()
    } else {
        let prev = positions_of(flags.drop_last());
        if flags.last() {
            prev.push((flags.len() - 1) as usize)
        } else {
            prev
        }
    }
}

/// The byte range of each piece in the text that they form one after the other.
pub open spec fn byte_ranges(pieces: Seq<Seq<char>>) -> Seq<Range<usize>> {
    Seq::new(
        pieces.len(),
        |i: int|
            Range {
                start: utf8_len(flat(pieces.take(i))) as usize,
                end: utf8_len(flat(pieces.take(i + 1))) as usize,
            },
    )
}

/// `positions` is increasing, lists only positions where `flags` holds, and lists every
/// such position.
pub open spec fn lists_positions(flags: Seq<bool>, positions: Seq<usize>) -> bool {
    &&& forall|j: int, k: int| 0 <= j < k < positions.len() ==> positions[j] < positions[k]
    &&& forall|j: int| 0 <= j < positions.len() ==> positions[j] < flags.len() && flags[positions[j] as int]
    &&& forall|i: int| 0 <= i < flags.len() && flags[i] ==> exists|j: int| 0 <= j < positions.len() && positions[j] == i
}

pub proof fn lemma_positions_of(flags: Seq<bool>)
    requires
        flags.len() <= usize::MAX,
    ensures
        lists_positions(flags, positions_of(flags)),
        positions_of(flags).len() == count_newlines(flags),
        positions_of(flags).len() <= flags.len(),
    decreases flags.len(),
{
    if flags.len() > 0 {
        let prev = flags.drop_last();
        lemma_positions_of(prev);
        let p = positions_of(flags);
        assert forall|i: int| 0 <= i < flags.len() && flags[i] implies exists|j: int|
            0 <= j < p.len() && p[j] == i by {
            if i < prev.len() {
                assert(prev[i] == flags[i]);
                let j = choose|j: int| 0 <= j < positions_of(prev).len() && positions_of(prev)[j] == i;
                assert(p[j] == i);
            } else {
                assert(p[p.len() - 1] == i);
            }
        }
        assert forall|j: int| 0 <= j < p.len() implies p[j] < flags.len() && flags[p[j] as int] by {
            if j < positions_of(prev).len() {
                assert(prev[p[j] as int] == flags[p[j] as int]);
            }
        }
    }
}

/// `positions` is increasing and lists exactly the positions in `begin..end` where
/// `flags` holds.
pub open spec fn lists_positions_between(flags: Seq<bool>, begin: int, end: int, positions: Seq<usize>) -> bool {
    &&& forall|j: int, k: int| 0 <= j < k < positions.len() ==> positions[j] < positions[k]
    &&& forall|j: int|
        0 <= j < positions.len() ==> begin <= positions[j] < end && positions[j] < flags.len()
            && flags[positions[j] as int]
    &&& forall|i: int|
        begin <= i < end && 0 <= i < flags.len() && flags[i] ==> exists|j: int|
            0 <= j < positions.len() && positions[j] == i
}

/// Where line `j` starts, for the newline positions `positions`.
pub open spec fn line_start(positions: Seq<usize>, j: int) -> int {
    if j == 0 {
        0
    } else {
        positions[j - 1] + 1
    }
}

/// Where line `j` ends (before its newline), in a text of `n` graphemes.
pub open spec fn line_end(n: int, positions: Seq<usize>, j: int) -> int {
    if j == positions.len() {
        n
    } else {
        positions[j] as int
    }
}

/// The line lengths (not counting newlines) of a text follow from its newline positions.
pub proof fn lemma_lines_from_positions(flags: Seq<bool>, positions: Seq<usize>)
    requires
        lists_positions(flags, positions),
    ensures
        count_newlines(flags) == positions.len(),
        line_lengths(flags, false).len() == positions.len() + 1,
        forall|j: int|
            0 <= j <= positions.len() ==> #[trigger] line_lengths(flags, false)[j] == line_end(
                flags.len() as int,
                positions,
                j,
            ) - line_start(positions, j),
    decreases flags.len(),
{
    let n = flags.len() as int;
    if n == 0 {
        if positions.len() > 0 {
            assert(positions[0] < flags.len());
        }
    } else {
        let prev = flags.drop_last();
        if flags.last() {
            let j = choose|j: int| 0 <= j < positions.len() && positions[j] == n - 1;
            if j < positions.len() - 1 {
                assert(positions[j] < positions[positions.len() - 1]);
                assert(positions[positions.len() - 1] < n);
            }
            let p = positions.drop_last();
            assert forall|i: int| 0 <= i < prev.len() && prev[i] implies exists|k: int|
                0 <= k < p.len() && p[k] == i by {
                assert(flags[i]);
                let k = choose|k: int| 0 <= k < positions.len() && positions[k] == i;
                assert(p[k] == i);
            }
            assert forall|k: int| 0 <= k < p.len() implies p[k] < prev.len() && prev[p[k] as int] by {
                assert(positions[k] < positions[positions.len() - 1]);
            }
            lemma_lines_from_positions(prev, p);
            let lines = line_lengths(flags, false);
            let prev_lines = line_lengths(prev, false);
            assert forall|k: int| 0 <= k <= positions.len() implies #[trigger] lines[k] == line_end(
                n,
                positions,
                k,
            ) - line_start(positions, k) by {
                if k < positions.len() {
                    assert(lines[k] == prev_lines[k]);
                    assert(prev_lines[k] == line_end(n - 1, p, k) - line_start(p, k));
                }
            }
        } else {
            assert forall|k: int| 0 <= k < positions.len() implies positions[k] < prev.len() && prev[
                positions[k] as int
            ] by {
                assert(flags[positions[k] as int]);
            }
            assert forall|i: int| 0 <= i < prev.len() && prev[i] implies exists|k: int|
                0 <= k < positions.len() && positions[k] == i by {
                assert(flags[i]);
            }
            lemma_lines_from_positions(prev, positions);
            let lines = line_lengths(flags, false);
            let prev_lines = line_lengths(prev, false);
            assert forall|k: int| 0 <= k <= positions.len() implies #[trigger] lines[k] == line_end(
                n,
                positions,
                k,
            ) - line_start(positions, k) by {
                assert(prev_lines[k] == line_end(n - 1, positions, k) - line_start(positions, k));
            }
        }
    }
}

/// The newline positions of `begin..end`, taken from `begin`, are those of the flags in range.
proof fn lemma_relative_positions(flags: Seq<bool>, begin: int, e: int, nls: Seq<usize>)
    requires
        0 <= begin,
        e <= flags.len(),
        lists_positions_between(flags, begin, e, nls),
        nls.len() == 0 || begin <= e,
    ensures
        lists_positions(
            if begin <= e {
                flags.subrange(begin, e)
            } else {
                Seq::<bool>::empty()
            },
            Seq::new(nls.len(), |j: int| (nls[j] - begin) as usize),
        ),
{
    let sub = if begin <= e {
        flags.subrange(begin, e)
    } else {
        Seq::<bool>::empty()
    };
    let positions = Seq::new(nls.len(), |j: int| (nls[j] - begin) as usize);
    assert forall|i: int| 0 <= i < sub.len() && sub[i] implies exists|j: int|
        0 <= j < positions.len() && positions[j] == i by {
        assert(flags[begin + i]);
        let j = choose|j: int| 0 <= j < nls.len() && nls[j] == begin + i;
        assert(positions[j] == i);
    }
    assert forall|j: int| 0 <= j < positions.len() implies positions[j] < sub.len() && sub[positions[j] as int] by {
        assert(sub[positions[j] as int] == flags[nls[j] as int]);
    }
}

/// The graphemes of `begin..end` (the end cut to the chunk's length): one newline flag each.
pub open spec fn flags_between(pieces: Seq<Seq<char>>, begin: int, end: int) -> Seq<bool> {
    let e = if end < pieces.len() {
        end
    } else {
        pieces.len() as int
    };
    if begin <= e {
        newline_flags(pieces).subrange(begin, e)
    } else {
        Seq::empty()
    }
}

/// What [`Chunk::distance_between`] gives for the flags of the graphemes in range: the
/// number of newlines and of graphemes, the lengths of the first and last lines (not
/// counting newlines), and the largest line length among all lines but the last when
/// there is a newline.
pub open spec fn distance_summary(flags: Seq<bool>) -> TextSummary {
    let lines = line_lengths(flags, false);
    TextSummary {
        length: Length { newlines: count_newlines(flags) as usize, extended_graphemes: flags.len() as usize },
        line_lengths: LineLengthSet {
            first: lines[0] as usize,
            last: lines.last() as usize,
            max: (if count_newlines(flags) == 0 {
                lines[0]
            } else {
                seq_max(lines.drop_last())
            }) as usize,
        },
    }
}

proof fn lemma_seq_max_bounded(s: Seq<nat>, bound: nat)
    requires
        forall|i: int| 0 <= i < s.len() ==> s[i] <= bound,
    ensures
        seq_max(s) <= bound,
    decreases s.len(),
{
    if s.len() > 0 {
        lemma_seq_max_bounded(s.drop_last(), bound);
    }
}

/// The summary of a chunk's graphemes describes them exactly (line lengths not counting
/// newlines) unless the last line is longer than every earlier line: its `max` leaves the
/// last line out when there is a newline.
pub proof fn lemma_distance_summary_summarizes(flags: Seq<bool>)
    requires
        flags.len() <= usize::MAX,
        count_newlines(flags) == 0 || line_lengths(flags, false).last() <= seq_max(
            line_lengths(flags, false).drop_last(),
        ),
    ensures
        summarizes(distance_summary(flags), flags, false),
{
    let lines = line_lengths(flags, false);
    lemma_count_bounded(flags);
    lemma_lines_len(flags, false);
    lemma_lines_bounded(flags, false);
    assert(lines[0] <= flags.len());
    assert(lines.last() <= flags.len());
    if count_newlines(flags) == 0 {
        lemma_no_newline(flags, false);
        lemma_seq_max_single(flags.len());
    } else {
        assert(lines =~= lines.drop_last().push(lines.last()));
        lemma_seq_max_ge(lines);
        assert(seq_max(lines) == seq_max(lines.drop_last()));
        lemma_seq_max_bounded(lines, flags.len());
    }
}

/// The largest element of a non-empty sequence is one of its elements.
proof fn lemma_seq_max_attained(s: Seq<nat>)
    requires
        s.len() > 0,
    ensures
        exists|i: int| 0 <= i < s.len() && s[i] == seq_max(s),
    decreases s.len(),
{
    if s.len() > 1 {
        lemma_seq_max_attained(s.drop_last());
        let i = choose|i: int| 0 <= i < s.drop_last().len() && s.drop_last()[i] == seq_max(s.drop_last());
        assert(s[i] == s.drop_last()[i]);
        if seq_max(s) != seq_max(s.drop_last()) {
            assert(s[s.len() - 1] == seq_max(s));
        }
    } else {
        assert(s.drop_last() =~= Seq::<nat>::empty());
        assert(seq_max(Seq::<nat>::empty()) == 0);
        assert(s[0] == seq_max(s));
    }
}

/// The widest line of a distance: with a newline, the longest of the lines before the last
/// (no line before the last is longer, and one of them is that long), whatever the length
/// of the last line; without one, the whole text.
pub proof fn lemma_distance_max_is_longest_before_last(flags: Seq<bool>)
    requires
        flags.len() <= usize::MAX,
    ensures
        ({
            let lines = line_lengths(flags, false);
            let widest = distance_summary(flags).line_lengths.max as nat;
            &&& count_newlines(flags) > 0 ==> {
                &&& forall|i: int| 0 <= i < lines.len() - 1 ==> lines[i] <= widest
                &&& exists|i: int| 0 <= i < lines.len() - 1 && lines[i] == widest
            }
            &&& count_newlines(flags) == 0 ==> widest == flags.len()
        }),
{
    let lines = line_lengths(flags, false);
    lemma_lines_len(flags, false);
    lemma_lines_bounded(flags, false);
    if count_newlines(flags) > 0 {
        let before = lines.drop_last();
        lemma_seq_max_ge(before);
        lemma_seq_max_attained(before);
        lemma_seq_max_bounded(before, flags.len());
        assert forall|i: int| 0 <= i < lines.len() - 1 implies lines[i] <= seq_max(before) by {
            assert(lines[i] == before[i]);
        }
        let k = choose|i: int| 0 <= i < before.len() && before[i] == seq_max(before);
        assert(lines[k] == before[k]);
    } else {
        lemma_no_newline(flags, false);
    }
}

/// How many of the pieces, taken from the first, fit after `used` bytes.
pub open spec fn fitting_count(used: nat, pieces: Seq<Seq<char>>) -> nat
    decreases pieces.len(),
{
    if pieces.len() == 0 {
        0
    } else if used + utf8_len(pieces[0]) > CAPACITY {
        0
    } else {
        1 + fitting_count(used + utf8_len(pieces[0]), pieces.drop_first())
    }
}

pub proof fn lemma_fitting_count_bound(used: nat, pieces: Seq<Seq<char>>)
    ensures
        fitting_count(used, pieces) <= pieces.len(),
    decreases pieces.len(),
{
    if pieces.len() > 0 && used + utf8_len(pieces[0]) <= CAPACITY {
        lemma_fitting_count_bound(used + utf8_len(pieces[0]), pieces.drop_first());
    }
}

/// Pieces whose bytes all fit after `used` bytes all fit, one after the other.
proof fn lemma_all_fit(used: nat, pieces: Seq<Seq<char>>)
    requires
        used + utf8_len(flat(pieces)) <= CAPACITY,
    ensures
        fitting_count(used, pieces) == pieces.len(),
    decreases pieces.len(),
{
    if pieces.len() > 0 {
        let rest = pieces.drop_first();
        assert(pieces =~= seq![pieces[0]] + rest);
        lemma_flat_concat(seq![pieces[0]], rest);
        assert(flat(seq![pieces[0]]) =~= pieces[0]) by {
            reveal_with_fuel(flat, 2);
            assert(seq![pieces[0]].drop_last() =~= Seq::<Seq<char>>::empty());
            assert(Seq::<char>::empty() + pieces[0] =~= pieces[0]);
        }
        lemma_utf8_len_concat(pieces[0], flat(rest));
        lemma_all_fit(used + utf8_len(pieces[0]), rest);
    }
}

/// Two prefixes of a text with the same number of bytes are the same prefix.
proof fn lemma_prefix_by_bytes(text: Seq<char>, a: Seq<char>, k: int)
    requires
        0 <= k <= text.len(),
        a.len() <= text.len(),
        a == text.take(a.len() as int),
        utf8_len(a) == utf8_len(text.take(k)),
    ensures
        a == text.take(k),
{
    if (a.len() as int) < k {
        crate::segmentation::lemma_utf8_len_prefix(text, a.len() as int, k);
    } else if (a.len() as int) > k {
        crate::segmentation::lemma_utf8_len_prefix(text, k, a.len() as int);
    }
}

/// The chunk's extended graphemes are kept in `graphemes`; the buffers hold their text,
/// their byte ranges and the positions of the newline graphemes.
pub struct Chunk {
    string: ArrayString<256>,
    byte_index_intervals: ArrayVec<Range<usize>, 256>,
    newline_indices: ArrayVec<usize, 256>,
    graphemes: Ghost<Seq<Seq<char>>>,
}

/// The text does not fit in a chunk.
#[derive(Clone, Copy, Debug, PartialEq, Eq, Structural)]
pub struct ChunkCapacityError;

impl Default for Chunk {
    fn default() -> (res: Self)
        ensures
            res.wf(),
            res@ == Seq::<Seq<char>>::empty(),
    {
        Self::empty()
    }
}

impl View for Chunk {
    type V = Seq<Seq<char>>;

    /// The extended graphemes of the chunk, in order.
    closed spec fn view(&self) -> Seq<Seq<char>> {
        self.graphemes@
    }
}

impl Chunk {
    pub closed spec fn wf(&self) -> bool {
        let g = self.graphemes@;
        &&& text_buffer_chars(self.string) == flat(g)
        &&& utf8_len(flat(g)) <= CAPACITY
        &&& all_nonempty(g)
        &&& range_buffer_items(self.byte_index_intervals) == byte_ranges(g)
        &&& index_buffer_items(self.newline_indices) == positions_of(newline_flags(g))
    }

    /// The chunk's graphemes hold at most as many graphemes, and newlines, as bytes.
    pub proof fn lemma_wf_bounds(&self)
        requires
            self.wf(),
        ensures
            self@.len() <= flat(self@).len() <= utf8_len(flat(self@)) <= CAPACITY,
            positions_of(newline_flags(self@)).len() <= self@.len(),
            lists_positions(newline_flags(self@), positions_of(newline_flags(self@))),
            positions_of(newline_flags(self@)).len() == count_newlines(newline_flags(self@)),
    {
        lemma_flat_len(self@);
        lemma_utf8_len_bounds(flat(self@));
        lemma_positions_of(newline_flags(self@));
    }

    /// The empty chunk.
    pub fn empty() -> (res: Self)
        ensures
            res.wf(),
            res@ == Seq::<Seq<char>>::empty(),
    {
        let res = Chunk {
            string: text_buffer_new(),
            byte_index_intervals: range_buffer_new(),
            newline_indices: index_buffer_new(),
            graphemes: Ghost(Seq::empty()),
        };
        proof {
            assert(byte_ranges(Seq::<Seq<char>>::empty()) =~= Seq::<Range<usize>>::empty());
            assert(newline_flags(Seq::<Seq<char>>::empty()) =~= Seq::<bool>::empty());
        }
        res
    }

    /// A chunk with the same graphemes.
    pub fn duplicate(&self) -> (res: Self)
        requires
            self.wf(),
        ensures
            res.wf(),
            res@ == self@,
    {
        Chunk {
            string: text_buffer_clone(&self.string),
            byte_index_intervals: range_buffer_clone(&self.byte_index_intervals),
            newline_indices: index_buffer_clone(&self.newline_indices),
            graphemes: Ghost(self.graphemes@),
        }
    }

    pub fn is_empty(&self) -> (res: bool)
        requires
            self.wf(),
        ensures
            res == (self@.len() == 0),
    {
        proof {
            self.lemma_wf_bounds();
        }
        text_buffer_len(&self.string) == 0
    }

    pub fn is_not_empty(&self) -> (res: bool)
        requires
            self.wf(),
        ensures
            res == (self@.len() > 0),
    {
        !self.is_empty()
    }

    /// The byte range of each grapheme in [`Chunk::as_str`].
    pub fn byte_index_intervals(&self) -> (res: &[Range<usize>])
        requires
            self.wf(),
        ensures
            res@ == byte_ranges(self@),
    {
        range_buffer_as_slice(&self.byte_index_intervals)
    }

    /// The number of newline graphemes.
    pub fn len_newlines(&self) -> (res: usize)
        requires
            self.wf(),
        ensures
            res == count_newlines(newline_flags(self@)),
    {
        proof {
            self.lemma_wf_bounds();
        }
        index_buffer_as_slice(&self.newline_indices).len()
    }

    /// The number of extended graphemes.
    pub fn len_extended_graphemes(&self) -> (res: usize)
        requires
            self.wf(),
        ensures
            res == self@.len(),
    {
        range_buffer_as_slice(&self.byte_index_intervals).len()
    }

    /// The numbers of newlines and of extended graphemes.
    pub fn length(&self) -> (res: Length)
        requires
            self.wf(),
        ensures
            res.newlines == count_newlines(newline_flags(self@)),
            res.extended_graphemes == self@.len(),
    {
        Length::new(self.len_newlines(), self.len_extended_graphemes())
    }

    /// The chunk's text.
    pub fn as_str(&self) -> (res: &str)
        requires
            self.wf(),
        ensures
            res@ == flat(self@),
    {
        text_buffer_as_str(&self.string)
    }

    /// The number of newlines before grapheme `index`: the position, among the newline
    /// positions, of the first at or after `index`.
    fn newline_index_partition_point(&self, index: usize) -> (res: usize)
        requires
            self.wf(),
        ensures
            res <= positions_of(newline_flags(self@)).len(),
            forall|j: int| 0 <= j < res ==> positions_of(newline_flags(self@))[j] < index,
            forall|j: int|
                res <= j < positions_of(newline_flags(self@)).len() ==> positions_of(newline_flags(self@))[j]
                    >= index,
    {
        proof {
            self.lemma_wf_bounds();
        }
        let newlines = index_buffer_as_slice(&self.newline_indices);
        let ghost nl = positions_of(newline_flags(self@));
        let mut i: usize = 0;
        while i < newlines.len() && newlines[i] < index
            invariant
                0 <= i <= newlines.len(),
                newlines@ == nl,
                lists_positions(newline_flags(self@), nl),
                forall|j: int| 0 <= j < i ==> nl[j] < index,
            decreases newlines.len() - i,
        {
            i = i + 1;
        }
        proof {
            assert forall|j: int| i <= j < nl.len() implies nl[j] >= index by {
                if j > i {
                    assert(nl[i as int] < nl[j]);
                }
            }
        }
        i
    }

    /// The positions of the newline graphemes in `begin..end`, in order. (When `begin` is
    /// past `end`, no newline may lie in `end..begin`: the slice would be reversed.)
    pub fn newline_indices_between(&self, begin: usize, end: usize) -> (res: &[usize])
        requires
            self.wf(),
            forall|i: int| 0 <= i < self@.len() && end <= i < begin ==> !newline_flags(self@)[i],
        ensures
            lists_positions_between(newline_flags(self@), begin as int, end as int, res@),
            res@.len() == 0 || begin <= end,
    {
        proof {
            self.lemma_wf_bounds();
        }
        let ghost nl = positions_of(newline_flags(self@));
        let ghost flags = newline_flags(self@);
        let b = self.newline_index_partition_point(begin);
        let e = self.newline_index_partition_point(end);
        let newlines = index_buffer_as_slice(&self.newline_indices);
        proof {
            if b > e {
                assert(nl[e as int] >= end);
                assert(nl[e as int] < begin);
                assert(flags[nl[e as int] as int]);
            }
        }
        let res = &newlines[b..e];
        proof {
            assert forall|i: int| begin <= i < end && 0 <= i < flags.len() && flags[i] implies exists|j: int|
                0 <= j < res@.len() && res@[j] == i by {
                let k = choose|k: int| 0 <= k < nl.len() && nl[k] == i;
                assert(res@[k - b] == nl[k]);
            }
            assert forall|j: int, k: int| 0 <= j < k < res@.len() implies res@[j] < res@[k] by {
                assert(res@[j] == nl[j + b]);
                assert(res@[k] == nl[k + b]);
            }
            assert forall|j: int| 0 <= j < res@.len() implies begin <= res@[j] < end && res@[j] < flags.len()
                && flags[res@[j] as int] by {
                assert(res@[j] == nl[j + b]);
            }
            if res@.len() > 0 {
                assert(res@[0] == nl[b as int]);
            }
        }
        res
    }

    /// The positions of the newline graphemes at or after `index`, in order.
    pub fn newline_indices_geq(&self, index: usize) -> (res: &[usize])
        requires
            self.wf(),
        ensures
            lists_positions_between(newline_flags(self@), index as int, self@.len() as int, res@),
    {
        let len = self.len_extended_graphemes();
        self.newline_indices_between(index, len)
    }

    /// The summary of the graphemes in `begin..end` (the end cut to the chunk's length).
    /// (When `begin` is past `end`, no newline may lie between them: its newline positions
    /// would otherwise be taken from a backwards range.)
    pub fn distance_between(&self, begin: usize, end: usize) -> (res: TextSummary)
        requires
            self.wf(),
            forall|i: int| 0 <= i < self@.len() && end <= i < begin ==> !newline_flags(self@)[i],
        ensures
            res == distance_summary(flags_between(self@, begin as int, end as int)),
    {
        proof {
            self.lemma_wf_bounds();
        }
        let ghost flags = newline_flags(self@);
        let len = self.len_extended_graphemes();
        let end = if end < len {
            end
        } else {
            len
        };
        let extended_graphemes: usize = if end >= begin {
            end - begin
        } else {
            0
        };
        let newline_indices = self.newline_indices_between(begin, end);
        let count = newline_indices.len();
        let ghost sub = flags_between(self@, begin as int, end as int);
        let ghost positions = Seq::new(count as nat, |j: int| (newline_indices@[j] - begin) as usize);
        proof {
            lemma_relative_positions(flags, begin as int, end as int, newline_indices@);
            assert(sub.len() == extended_graphemes);
            lemma_lines_from_positions(sub, positions);
        }
        let ghost lines = line_lengths(sub, false);
        let first = if count > 0 {
            newline_indices[0] - begin
        } else {
            extended_graphemes
        };
        let last = if count > 0 {
            end - newline_indices[count - 1] - 1
        } else {
            extended_graphemes
        };
        proof {
            assert(lines[0] == first);
            assert(lines[count as int] == last);
            assert(lines.last() == lines[count as int]);
            assert(lines.take(1) =~= seq![lines[0]]);
            lemma_seq_max_single(lines[0]);
        }
        let mut max = first;
        let mut j: usize = 1;
        while j < count
            invariant
                1 <= j <= count || count == 0,
                count == newline_indices@.len(),
                count == positions.len(),
                lines.len() == count + 1,
                forall|k: int| 0 <= k < count ==> #[trigger] positions[k] == newline_indices@[k] - begin,
                forall|k: int| 0 <= k < count ==> newline_indices@[k] >= begin,
                forall|k: int, m: int| 0 <= k < m < count ==> newline_indices@[k] < newline_indices@[m],
                forall|k: int|
                    0 <= k <= positions.len() ==> #[trigger] lines[k] == line_end(sub.len() as int, positions, k)
                        - line_start(positions, k),
                count > 0 ==> max == seq_max(lines.take(j as int)),
                count == 0 ==> max == first,
            decreases count - j,
        {
            let gap = newline_indices[j] - newline_indices[j - 1] - 1;
            proof {
                assert(lines[j as int] == gap);
                assert(lines.take(j + 1).drop_last() =~= lines.take(j as int));
                assert(lines.take(j + 1).last() == lines[j as int]);
            }
            if gap > max {
                max = gap;
            }
            j = j + 1;
        }
        proof {
            if count > 0 {
                assert(lines.take(count as int) =~= lines.drop_last());
            }
        }
        let length = Length::new(count, extended_graphemes);
        let line_lengths_set = LineLengthSet::new(first, last, max);
        TextSummary::new(length, line_lengths_set)
    }

    /// The summary of the whole chunk.
    pub fn text_summary(&self) -> (res: TextSummary)
        requires
            self.wf(),
        ensures
            res == distance_summary(newline_flags(self@)),
    {
        let len = self.len_extended_graphemes();
        proof {
            assert(flags_between(self@, 0, len as int) =~= newline_flags(self@));
        }
        self.distance_between(0, len)
    }

    /// The chunk of the extended graphemes of a text that fits in a chunk.
    fn from_fitting_str(text: &str) -> (res: Chunk)
        requires
            utf8_len(text@) <= CAPACITY,
        ensures
            res.wf(),
            res@ == extended_graphemes_of(text@),
            flat(res@) == text@,
    {
        let parsed = Self::from_str(text);
        proof {
            let pieces = extended_graphemes_of(text@);
            lemma_all_fit(0, pieces);
        }
        match parsed {
            Ok(chunk) => chunk,
            Err(_) => {
                proof {
                    assert(false);
                }
                Self::empty()
            },
        }
    }

    /// The first `index` graphemes and the rest, each read again as a chunk.
    pub fn split(&self, index: usize) -> (res: (Chunk, Chunk))
        requires
            self.wf(),
        ensures
            res.0.wf(),
            res.1.wf(),
            index == 0 ==> res.0@ == Seq::<Seq<char>>::empty() && res.1@ == self@,
            0 < index && self@.len() <= index ==> res.0@ == self@ && res.1@ == Seq::<Seq<char>>::empty(),
            0 < index < self@.len() ==> res.0@ == extended_graphemes_of(flat(self@.take(index as int)))
                && res.1@ == extended_graphemes_of(flat(self@.skip(index as int))),
            flat(res.0@) + flat(res.1@) == flat(self@),
    {
        if index == 0 {
            proof {
                assert(flat(Seq::<Seq<char>>::empty()) + flat(self@) =~= flat(self@));
            }
            return (Self::empty(), self.duplicate());
        }
        if self.len_extended_graphemes() <= index {
            proof {
                assert(flat(self@) + flat(Seq::<Seq<char>>::empty()) =~= flat(self@));
            }
            return (self.duplicate(), Self::empty());
        }
        let ghost g = self@;
        let ghost text = flat(g);
        let ghost k = flat(g.take(index as int)).len();
        let byte_index = self.byte_index_intervals()[index].start;
        proof {
            lemma_flat_concat(g.take(index as int), g.skip(index as int));
            assert(g =~= g.take(index as int) + g.skip(index as int));
            assert(text.take(k as int) =~= flat(g.take(index as int)));
            lemma_utf8_len_concat(flat(g.take(index as int)), flat(g.skip(index as int)));
            assert(byte_ranges(g)[index as int].start == byte_index);
            assert(utf8_len(text.take(k as int)) == byte_index);
        }
        let (prefix, suffix) = split_at_byte(self.as_str(), byte_index);
        proof {
            assert(prefix@ == text.take(prefix@.len() as int)) by {
                assert(text =~= prefix@ + suffix@);
            }
            lemma_prefix_by_bytes(text, prefix@, k as int);
            assert(text == flat(g.take(index as int)) + flat(g.skip(index as int)));
            assert(suffix@ =~= text.skip(k as int));
            assert(text.skip(k as int) =~= flat(g.skip(index as int)));
            lemma_utf8_len_concat(prefix@, suffix@);
        }
        (Self::from_fitting_str(prefix), Self::from_fitting_str(suffix))
    }

    /// Appends one extended grapheme when its bytes fit, and otherwise hands it back.
    pub fn try_push_extended_grapheme<'a>(&mut self, extended_grapheme: &'a str) -> (res: Result<(), &'a str>)
        requires
            old(self).wf(),
            extended_grapheme@.len() > 0,
        ensures
            final(self).wf(),
            utf8_len(flat(old(self)@)) + utf8_len(extended_grapheme@) <= CAPACITY ==> res is Ok && final(self)@
                == old(self)@.push(extended_grapheme@),
            utf8_len(flat(old(self)@)) + utf8_len(extended_grapheme@) > CAPACITY ==> res == Err::<(), &str>(
                extended_grapheme,
            ) && final(self)@ == old(self)@,
    {
        let ghost g = self.graphemes@;
        let ghost piece = extended_grapheme@;
        let ghost g2 = g.push(piece);
        proof {
            self.lemma_wf_bounds();
        }
        let begin = text_buffer_len(&self.string);
        let index = self.len_extended_graphemes();
        match text_buffer_try_push_str(&mut self.string, extended_grapheme) {
            Err(rejected) => {
                return Err(rejected);
            },
            Ok(()) => {},
        }
        proof {
            assert(g2.drop_last() =~= g);
            lemma_utf8_len_concat(flat(g), piece);
            assert(flat(g2) == flat(g) + piece);
            assert(all_nonempty(g2)) by {
                assert forall|i: int| 0 <= i < g2.len() implies (#[trigger] g2[i]).len() > 0 by {
                    if i < g.len() {
                        assert(g2[i] == g[i]);
                    }
                }
            }
            lemma_flat_len(g2);
            lemma_utf8_len_bounds(flat(g2));
            lemma_utf8_len_bounds(piece);
        }
        let end = begin + byte_len(extended_grapheme);
        range_buffer_push(&mut self.byte_index_intervals, begin..end);
        if is_newline(extended_grapheme) {
            index_buffer_push(&mut self.newline_indices, index);
        }
        self.graphemes = Ghost(g2);
        proof {
            assert(g2.take(g.len() as int) =~= g);
            assert(g2.take(g.len() as int + 1) =~= g2);
            assert(byte_ranges(g2) =~= byte_ranges(g).push(begin..end)) by {
                assert forall|i: int| 0 <= i < g.len() implies #[trigger] g2.take(i) == g.take(i) && g2.take(i + 1) == g.take(
                    i + 1,
                ) by {
                    assert(g2.take(i) =~= g.take(i));
                    assert(g2.take(i + 1) =~= g.take(i + 1));
                }
            }
            assert(newline_flags(g2).drop_last() =~= newline_flags(g));
            assert(newline_flags(g2).last() == is_newline_chars(piece));
        }
        Ok(())
    }

    /// Appends the extended graphemes of `text`, in order, as long as they fit; the text
    /// from the first grapheme that does not fit is handed back.
    #[verifier::rlimit(30)]
    pub fn try_push_extended_graphemes<'a>(&mut self, text: &'a str) -> (res: Result<(), &'a str>)
        requires
            old(self).wf(),
        ensures
            final(self).wf(),
            flat(extended_graphemes_of(text@)) == text@,
            all_nonempty(extended_graphemes_of(text@)),
            ({
                let pieces = extended_graphemes_of(text@);
                let k = fitting_count(utf8_len(flat(old(self)@)), pieces);
                &&& final(self)@ == old(self)@ + pieces.take(k as int)
                &&& k == pieces.len() ==> res is Ok
                &&& k < pieces.len() ==> (res matches Err(rest) && rest@ == flat(pieces.skip(k as int)))
            }),
    {
        let pieces = extended_graphemes(text);
        let ghost views = pieces@.map_values(|piece: &str| piece@);
        let ghost start = self@;
        let ghost used = utf8_len(flat(start));
        let mut byte_index: usize = 0;
        let mut i: usize = 0;
        proof {
            assert(views.take(0) =~= Seq::<Seq<char>>::empty());
            assert(start + views.take(0) =~= start);
            assert(views.skip(0) =~= views);
        }
        while i < pieces.len()
            invariant
                0 <= i <= pieces.len(),
                views == pieces@.map_values(|piece: &str| piece@),
                views == extended_graphemes_of(text@),
                flat(views) == text@,
                all_nonempty(views),
                used == utf8_len(flat(start)),
                start == old(self)@,
                self.wf(),
                self@ == start + views.take(i as int),
                byte_index == utf8_len(flat(views.take(i as int))),
                used + byte_index == utf8_len(flat(self@)),
                fitting_count(used, views) == i + fitting_count((used + byte_index) as nat, views.skip(i as int)),
            decreases pieces.len() - i,
        {
            let piece = pieces[i];
            let ghost before = self@;
            proof {
                assert(views[i as int] == piece@);
                assert(views.skip(i as int)[0] == piece@);
                assert(views.skip(i as int).drop_first() =~= views.skip(i + 1));
                assert(piece@.len() > 0);
            }
            match self.try_push_extended_grapheme(piece) {
                Err(_) => {
                    let ghost k = flat(views.take(i as int)).len();
                    proof {
                        lemma_flat_concat(views.take(i as int), views.skip(i as int));
                        assert(views =~= views.take(i as int) + views.skip(i as int));
                        assert(text@.take(k as int) =~= flat(views.take(i as int)));
                    }
                    let (head, rest) = split_at_byte(text, byte_index);
                    proof {
                        assert(head@ == text@.take(head@.len() as int)) by {
                            assert(text@ =~= head@ + rest@);
                        }
                        lemma_prefix_by_bytes(text@, head@, k as int);
                        assert(rest@ =~= text@.skip(k as int));
                        assert(text@.skip(k as int) =~= flat(views.skip(i as int)));
                        lemma_fitting_count_bound(used, views);
                        assert(utf8_len(flat(before)) + utf8_len(piece@) > CAPACITY);
                        assert(fitting_count((used + byte_index) as nat, views.skip(i as int)) == 0);
                        assert(self@ == start + views.take(i as int));
                    }
                    return Err(rest);
                },
                Ok(()) => {},
            }
            proof {
                assert(views.take(i + 1) =~= views.take(i as int).push(piece@));
                assert(views.take(i + 1).drop_last() =~= views.take(i as int));
                lemma_utf8_len_concat(flat(views.take(i as int)), piece@);
                assert(self@ =~= start + views.take(i + 1));
                lemma_flat_concat(before, seq![piece@]);
                assert(flat(seq![piece@]) =~= piece@) by {
                    reveal_with_fuel(flat, 2);
                    assert(seq![piece@].drop_last() =~= Seq::<Seq<char>>::empty());
                    assert(Seq::<char>::empty() + piece@ =~= piece@);
                }
                assert(self@ =~= before + seq![piece@]);
                lemma_utf8_len_concat(flat(before), piece@);
            }
            byte_index = byte_index + byte_len(piece);
            i = i + 1;
        }
        proof {
            assert(views.take(pieces.len() as int) =~= views);
            assert(views.skip(pieces.len() as int) =~= Seq::<Seq<char>>::empty());
        }
        Ok(())
    }

    /// The chunk holding the extended graphemes of `text`, when they fit.
    pub fn from_str(text: &str) -> (res: Result<Chunk, ChunkCapacityError>)
        ensures
            flat(extended_graphemes_of(text@)) == text@,
            all_nonempty(extended_graphemes_of(text@)),
            ({
                let pieces = extended_graphemes_of(text@);
                &&& fitting_count(0, pieces) == pieces.len() ==> (res matches Ok(chunk) && chunk.wf() && chunk@
                    == pieces)
                &&& fitting_count(0, pieces) < pieces.len() ==> res == Err::<Chunk, ChunkCapacityError>(
                    ChunkCapacityError,
                )
            }),
    {
        let mut chunk = Self::empty();
        proof {
            assert(flat(chunk@) =~= Seq::<char>::empty());
            assert(Seq::<Seq<char>>::empty() + extended_graphemes_of(text@) =~= extended_graphemes_of(text@));
        }
        match chunk.try_push_extended_graphemes(text) {
            Ok(()) => {
                proof {
                    lemma_fitting_count_bound(0, extended_graphemes_of(text@));
                    assert(Seq::<Seq<char>>::empty() + extended_graphemes_of(text@).take(
                        extended_graphemes_of(text@).len() as int,
                    ) =~= extended_graphemes_of(text@));
                }
                Ok(chunk)
            },
            Err(_) => {
                proof {
                    lemma_fitting_count_bound(0, extended_graphemes_of(text@));
                }
                Err(ChunkCapacityError)
            },
        }
    }
}

} // verus!
