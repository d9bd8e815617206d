use mkutils::chunk_summary::{Length, LengthExtendedGraphemes, LengthLines};
use mkutils::extended_grapheme_iter::ExtendedGraphemeIter;
use mkutils::chunk::{Chunk, ChunkCapacityError, CAPACITY};
use mkutils::atom::Atom;
use mkutils::text_summary::TextSummary;

fn summary_parts(summary: &TextSummary) -> (usize, usize, usize, usize, usize) {
    (
        summary.length.newlines,
        summary.length.extended_graphemes,
        summary.line_lengths.first,
        summary.line_lengths.last,
        summary.line_lengths.max,
    )
}

#[test]
fn chunk_holds_graphemes_and_newlines() {
    let chunk = Chunk::from_str("ab\ncde\r\nf").unwrap();

    assert_eq!(chunk.as_str(), "ab\ncde\r\nf");
    assert_eq!(chunk.len_extended_graphemes(), 8);
    assert_eq!(chunk.len_newlines(), 2);
    assert_eq!(chunk.newline_indices_geq(0), &[2, 6]);
    assert_eq!(chunk.newline_indices_geq(3), &[6]);
    assert_eq!(chunk.byte_index_intervals()[6], 6..8);
    assert!(chunk.is_not_empty());
    assert!(Chunk::empty().is_empty());
}

#[test]
fn chunk_summary_of_whole_and_part() {
    let chunk = Chunk::from_str("ab\ncde\r\nf").unwrap();

    // lines "ab", "cde", "f": the last line is left out of `max`
    assert_eq!(summary_parts(&chunk.text_summary()), (2, 8, 2, 1, 3));
    assert_eq!(summary_parts(&chunk.distance_between(3, 8)), (1, 5, 3, 1, 3));
    assert_eq!(summary_parts(&chunk.distance_between(0, 2)), (0, 2, 2, 2, 2));
    assert_eq!(summary_parts(&chunk.distance_between(4, 100)), (1, 4, 2, 1, 2));
    assert_eq!(summary_parts(&chunk.distance_between(5, 5)), (0, 0, 0, 0, 0));
    // the last line longer than the others is not counted in `max`
    let tail_heavy = Chunk::from_str("a\nbcdef").unwrap();
    assert_eq!(summary_parts(&tail_heavy.text_summary()), (1, 7, 1, 5, 1));
}

#[test]
fn chunk_capacity() {
    let full = "x".repeat(CAPACITY);
    let chunk = Chunk::from_str(&full).unwrap();

    assert_eq!(chunk.len_extended_graphemes(), CAPACITY);
    assert_eq!(Chunk::from_str(&"x".repeat(CAPACITY + 1)).err(), Some(ChunkCapacityError));

    let mut chunk = Chunk::from_str(&"y".repeat(CAPACITY - 2)).unwrap();
    assert_eq!(chunk.try_push_extended_graphemes("abc"), Err("c"));
    assert_eq!(chunk.len_extended_graphemes(), CAPACITY);
    assert_eq!(chunk.try_push_extended_grapheme("z"), Err("z"));
}

#[test]
fn chunk_push_one_grapheme() {
    let mut chunk = Chunk::empty();

    assert_eq!(chunk.try_push_extended_grapheme("é"), Ok(()));
    assert_eq!(chunk.try_push_extended_grapheme("\n"), Ok(()));
    assert_eq!(chunk.byte_index_intervals(), &[0..2, 2..3]);
    assert_eq!(chunk.len_newlines(), 1);
}

#[test]
fn chunk_split() {
    let chunk = Chunk::from_str("ab\ncd").unwrap();
    let (prefix, suffix) = chunk.split(3);

    assert_eq!(prefix.as_str(), "ab\n");
    assert_eq!(suffix.as_str(), "cd");
    assert_eq!(suffix.len_newlines(), 0);

    let (prefix, suffix) = chunk.split(0);
    assert!(prefix.is_empty());
    assert_eq!(suffix.as_str(), "ab\ncd");

    let (prefix, suffix) = chunk.split(10);
    assert_eq!(prefix.as_str(), "ab\ncd");
    assert!(suffix.is_empty());
}

#[test]
fn chunk_iteration() {
    let chunk = Chunk::from_str("ab\ncd\nef").unwrap();
    let mut iter = chunk.extended_grapheme_iter();

    assert_eq!(iter.get(), Some("a"));
    assert_eq!(iter.next(), Some("a"));
    assert_eq!(iter.next(), Some("b"));

    let passed = iter.advance_to_start_of_next_line().unwrap();
    assert_eq!(summary_parts(&passed), (1, 1, 0, 0, 0));
    assert_eq!(iter.get(), Some("c"));

    assert_eq!(summary_parts(&iter.advance_within_line(10).unwrap()), (1, 3, 2, 0, 2));
    assert_eq!(iter.get(), Some("e"));
    assert_eq!(summary_parts(&iter.advance_within_line(10).unwrap_err()), (0, 2, 2, 2, 2));
    assert_eq!(iter.next(), None);
    assert!(iter.advance_to_start_of_next_line().is_none());
}

#[test]
fn chunk_iteration_to_end() {
    let chunk = Chunk::from_str("xy\nz").unwrap();
    let mut iter = chunk.extended_grapheme_iter();

    assert_eq!(summary_parts(&iter.advance_within_line(1).unwrap()), (0, 1, 1, 1, 1));
    assert_eq!(summary_parts(&iter.advance_to_end_of_chunk()), (1, 3, 1, 1, 1));
    assert_eq!(iter.get(), None);
}

#[test]
fn advance_within_line_counts_full_advance_without_newline_as_ok() {
    let chunk = Chunk::from_str("abc").unwrap();
    let mut iter = chunk.extended_grapheme_iter();

    assert_eq!(summary_parts(&iter.advance_within_line(1).unwrap()), (0, 1, 1, 1, 1));
    assert_eq!(iter.get(), Some("b"));
    assert_eq!(summary_parts(&iter.advance_within_line(2).unwrap()), (0, 2, 2, 2, 2));
    assert_eq!(iter.get(), None);
    assert_eq!(summary_parts(&iter.advance_within_line(1).unwrap_err()), (0, 0, 0, 0, 0));
}

#[test]
fn atoms_pair_graphemes_with_offsets() {
    let chunk = Chunk::from_str("a\nb").unwrap();
    let mut iter = chunk.extended_grapheme_iter();
    let mut atoms = Vec::new();
    let mut offset = TextSummary::zero();

    while let Some(extended_grapheme) = iter.get() {
        atoms.push(Atom::new(extended_grapheme, offset));
        offset.add_summary(&TextSummary::from_extended_grapheme(extended_grapheme));
        iter.next();
    }

    assert_eq!(atoms.len(), 3);
    assert_eq!(atoms[2].extended_grapheme, "b");
    assert_eq!(atoms[2].offset.length.newlines, 1);
    assert_eq!(atoms[2].offset.length.extended_graphemes, 2);
}

fn length(lines: usize, extended_graphemes: usize) -> Length {
    Length { lines: LengthLines(lines), extended_graphemes: LengthExtendedGraphemes(extended_graphemes) }
}

#[test]
fn extended_grapheme_iter_advances_within_lines() {
    let chunk = Chunk::from_str("ab\ncd").unwrap();
    let mut iter = ExtendedGraphemeIter::new(&chunk);

    assert_eq!(iter.advance_within_line(LengthExtendedGraphemes(1)), Ok(length(0, 1)));
    assert_eq!(iter.advance_within_line(LengthExtendedGraphemes(5)), Ok(length(1, 2)));
    assert_eq!(iter.advance_within_line(LengthExtendedGraphemes(1)), Ok(length(0, 1)));
    assert_eq!(iter.advance_within_line(LengthExtendedGraphemes(5)), Err(length(0, 1)));
    assert_eq!(iter.next(), None);
}

#[test]
fn extended_grapheme_iter_moves_by_lines_and_graphemes() {
    let chunk = Chunk::from_str("a\nb\r\n").unwrap();
    let mut iter = ExtendedGraphemeIter::new(&chunk);

    assert_eq!(iter.next(), Some("a"));
    assert_eq!(iter.advance_to_start_of_next_line(), Some(length(1, 1)));
    assert_eq!(iter.advance_to_start_of_next_line(), None);
    assert_eq!(iter.next(), Some("b"));
    assert_eq!(iter.next(), Some("\r\n"));
    assert_eq!(iter.advance_to_end_of_chunk(), length(0, 0));

    let mut from_start = ExtendedGraphemeIter::new(&chunk);
    assert_eq!(from_start.advance_to_end_of_chunk(), length(2, 4));
}
