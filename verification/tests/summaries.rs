use mkutils::chunk_summary::{
    ChunkSummary, Length as ChunkLength, LengthExtendedGraphemes, LengthLines, LineLengthSummary,
};
use mkutils::distance::{Distance, NumExtendedGraphemes, NumNewlines};
use mkutils::length_summary::LengthSummary;
use mkutils::text_model::is_newline;
use mkutils::text_summary::{Length, LineLengthSet, TextSummary};

fn text_summary_of(text: &[&str]) -> TextSummary {
    let mut summary = TextSummary::zero();

    for grapheme in text {
        summary.add_summary(&TextSummary::from_extended_grapheme(grapheme));
    }

    summary
}

fn chunk_summary_of(text: &[&str]) -> ChunkSummary {
    let mut summary = ChunkSummary::zero();

    for grapheme in text {
        let one = ChunkSummary::new(
            ChunkLength::from_extended_grapheme(grapheme),
            if is_newline(grapheme) {
                LineLengthSummary::new(
                    LengthExtendedGraphemes::new(0),
                    LengthExtendedGraphemes::new(0),
                    LengthExtendedGraphemes::new(0),
                )
            } else {
                LineLengthSummary::new(
                    LengthExtendedGraphemes::new(1),
                    LengthExtendedGraphemes::new(1),
                    LengthExtendedGraphemes::new(1),
                )
            },
        );
        summary.add_summary(&one);
    }

    summary
}

#[test]
fn newline_graphemes() {
    assert!(is_newline("\n"));
    assert!(is_newline("\r\n"));
    assert!(!is_newline("\r"));
    assert!(!is_newline("a"));
    assert!(!is_newline("\n\n"));
}

#[test]
fn text_summary_of_single_graphemes() {
    let newline = TextSummary::from_extended_grapheme("\n");

    assert_eq!(newline.length.newlines, 1);
    assert_eq!(newline.line_lengths.first, 1);
    assert_eq!(newline.line_lengths.last, 0);

    let letter = TextSummary::from_extended_grapheme("x");
    assert_eq!(letter.length.newlines, 0);
    assert_eq!((letter.line_lengths.first, letter.line_lengths.last, letter.line_lengths.max), (1, 1, 1));
    assert!(letter.is_not_empty());
    assert!(TextSummary::zero().is_empty());
}

#[test]
fn text_summary_addition_matches_the_text() {
    // "ab\ncde": lines "ab\n" (3, counting the newline) and "cde" (3)
    let summary = text_summary_of(&["a", "b", "\n", "c", "d", "e"]);

    assert_eq!(summary.length.newlines, 1);
    assert_eq!(summary.length.extended_graphemes, 6);
    assert_eq!(summary.line_lengths.first, 3);
    assert_eq!(summary.line_lengths.last, 3);
    assert_eq!(summary.line_lengths.max, 3);

    let left = text_summary_of(&["a", "b"]);
    let right = text_summary_of(&["\n", "c"]);
    let mut sum = left;
    let returned = right.add_to(&mut sum);
    assert_eq!(returned, right);
    assert_eq!(sum, text_summary_of(&["a", "b", "\n", "c"]));
    assert_eq!(left.saturating_add(&right), sum);
}

#[test]
fn text_summary_leaves_merged_middle_line_out_of_max() {
    // "a\nbc" + "de\nf": the middle line "bcde\n" is longest but not in `max`
    let left = text_summary_of(&["a", "\n", "b", "c"]);
    let right = text_summary_of(&["d", "e", "\n", "f"]);
    let sum = left.add_ref(&right);

    assert_eq!(sum.line_lengths.first, 2);
    assert_eq!(sum.line_lengths.last, 1);
    assert_eq!(sum.line_lengths.max, 3);
}

#[test]
fn text_summary_constructors() {
    let lines = LineLengthSet::uniform(4);
    assert_eq!((lines.first, lines.last, lines.max), (4, 4, 4));

    let summary = TextSummary::new(Length::new(2, 9), LineLengthSet::new(1, 2, 5));
    assert_eq!(summary.length.extended_graphemes, 9);
    assert_eq!(summary.line_lengths.max, 5);
    assert_eq!(Length::new(usize::MAX, 1).saturating_add(&Length::new(1, 1)).newlines, usize::MAX);
}

#[test]
fn chunk_summary_addition_matches_the_text() {
    // "ab\ncde\nf": lines "ab" (2), "cde" (3), "f" (1), not counting newlines
    let summary = chunk_summary_of(&["a", "b", "\n", "c", "d", "e", "\n", "f"]);

    assert_eq!(summary.len().lines().get(), 2);
    assert_eq!(summary.len().extended_graphemes().get(), 8);
    assert_eq!(summary.line_lengths().first.get(), 2);
    assert_eq!(summary.line_lengths().last.get(), 1);
    assert_eq!(summary.line_lengths().max().get(), 3);
}

#[test]
fn chunk_summary_parts() {
    assert_eq!(LengthLines::from_bool(true).get(), 1);
    assert_eq!(LengthLines::from_bool(false).get(), 0);
    assert!(LengthLines::one().is_positive());
    assert!(!LengthExtendedGraphemes::zero().is_positive());
    assert_eq!(LengthLines::new(3).saturating_sub(&LengthLines::new(5)).get(), 0);
    assert_eq!(
        LengthExtendedGraphemes::new(usize::MAX).saturating_add(&LengthExtendedGraphemes::one()).get(),
        usize::MAX
    );

    let mut length = ChunkLength::new(LengthLines::new(1), LengthExtendedGraphemes::new(4));
    *length.lines_mut() = LengthLines::new(2);
    assert_eq!(length.lines().get(), 2);
    assert_eq!(length.saturating_sub(&ChunkLength::from_extended_grapheme("\n")).lines().get(), 1);

    let mut lines = LineLengthSummary::new(
        LengthExtendedGraphemes::new(1),
        LengthExtendedGraphemes::new(2),
        LengthExtendedGraphemes::new(3),
    );
    lines.set_all(LengthExtendedGraphemes::new(7));
    assert_eq!(lines.first.get() + lines.last.get() + lines.max().get(), 21);

    let mut counter = LengthLines::zero();
    counter.add_summary(&chunk_summary_of(&["\n", "\n"]));
    assert_eq!(counter.get(), 2);
}

#[test]
fn distance_addition() {
    let mut distance = Distance::zero();

    for grapheme in ["a", "\r\n", "b", "\n"] {
        distance.add_summary(&Distance::from_extended_grapheme(grapheme));
    }

    assert_eq!(distance.newlines, NumNewlines::new(2));
    assert_eq!(distance.extended_graphemes, NumExtendedGraphemes::new(4));

    let mut newlines = NumNewlines::new(1);
    newlines.add_summary(&distance);
    assert_eq!(newlines, NumNewlines(3));
    assert_eq!(
        Distance::new(NumNewlines(usize::MAX), NumExtendedGraphemes(0)).saturating_add(&distance).newlines,
        NumNewlines(usize::MAX)
    );
}

#[test]
fn length_summary_addition() {
    let newline = LengthSummary::from_extended_grapheme("\n");
    let letter = LengthSummary::from_extended_grapheme("q");

    assert_eq!((newline.newlines, newline.first_line, newline.last_line), (1, 1, 0));
    assert_eq!((letter.newlines, letter.first_line, letter.last_line), (0, 1, 1));

    // "q" + "\n": one line "q\n"
    let sum = letter.saturating_add(&newline);
    assert_eq!((sum.newlines, sum.extended_graphemes, sum.first_line, sum.last_line), (1, 2, 2, 0));

    let mut total = LengthSummary::zero();
    total.add_summary(&letter);
    total.add_summary(&letter);
    assert_eq!(total.extended_graphemes, 2);
    assert_eq!(total.first_line, 2);
}
