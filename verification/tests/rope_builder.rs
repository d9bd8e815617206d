use mkutils::rope_builder::{AssemblerAction, RopeBuilder, Utf8Assembler};
use mkutils::utf8::{scan_first_scalar, valid_prefix_len, ScalarScan};

fn appended(action: AssemblerAction) -> String {
    match action {
        AssemblerAction::Append(text) => text,
        _ => panic!("expected text to append"),
    }
}

#[test]
fn ascii_text_is_appended_and_finished() {
    let mut builder = RopeBuilder::new();

    assert!(matches!(builder.next_action(), AssemblerAction::Read));
    builder.on_read(b"hello\nworld");
    assert_eq!(appended(builder.next_action()), "hello\nworld");
    assert!(matches!(builder.next_action(), AssemblerAction::Read));
    builder.on_read(b"");
    assert!(matches!(builder.next_action(), AssemblerAction::Finish));

    let rope = builder.finish();
    assert_eq!(rope.to_string(), "hello\nworld");
    assert_eq!(rope.len_lines(), 2);
}

#[test]
fn scalar_split_across_reads_is_reassembled() {
    let mut builder = RopeBuilder::new();

    builder.on_read(&[b'a', 0xc3]);
    assert_eq!(appended(builder.next_action()), "a");
    assert!(matches!(builder.next_action(), AssemblerAction::Read));
    builder.on_read(&[0xa9, 0xe2, 0x82]);
    assert_eq!(appended(builder.next_action()), "é");
    assert!(matches!(builder.next_action(), AssemblerAction::Read));
    builder.on_read(&[0xac, b'!']);
    assert_eq!(appended(builder.next_action()), "€!");
    builder.on_read(&[]);
    assert!(matches!(builder.next_action(), AssemblerAction::Finish));
    assert_eq!(builder.finish().to_string(), "aé€!");
}

#[test]
fn invalid_bytes_after_valid_text_give_invalid_data() {
    let mut builder = RopeBuilder::new();

    builder.on_read(&[b'o', b'k', 0xff, b'x']);
    assert_eq!(appended(builder.next_action()), "ok");
    assert!(matches!(builder.next_action(), AssemblerAction::InvalidData));
}

#[test]
fn input_ending_inside_a_scalar_is_unexpected_eof() {
    let mut builder = RopeBuilder::new();

    builder.on_read(&[0xf0, 0x9f, 0x98]);
    assert!(matches!(builder.next_action(), AssemblerAction::Read));
    builder.on_read(&[]);
    assert!(matches!(builder.next_action(), AssemblerAction::UnexpectedEof));
}

#[test]
fn empty_input_builds_an_empty_rope() {
    let mut builder = RopeBuilder::new();

    builder.on_read(&[]);
    assert!(matches!(builder.next_action(), AssemblerAction::Finish));
    assert_eq!(builder.finish().to_string(), "");
}

#[test]
fn assembler_keeps_the_bytes_after_the_valid_run() {
    let mut assembler = Utf8Assembler::new();

    assembler.on_read(&[b'a', b'b', 0xe2, 0x82]);
    assert_eq!(appended(assembler.next_action()), "ab");
    assert!(matches!(assembler.next_action(), AssemblerAction::Read));
    assembler.on_read(&[0xac]);
    assert_eq!(appended(assembler.next_action()), "€");
    assert!(matches!(assembler.next_action(), AssemblerAction::Read));
}

#[test]
fn malformed_sequences_are_invalid_not_cut() {
    // an overlong encoding, a surrogate, a scalar above U+10FFFF, a lone continuation byte
    for bytes in [&[0xc0u8, 0x80][..], &[0xed, 0xa0, 0x80], &[0xf4, 0x90, 0x80, 0x80], &[0x80], &[0xe0, 0x80]] {
        let mut assembler = Utf8Assembler::new();

        assembler.on_read(bytes);
        assert!(matches!(assembler.next_action(), AssemblerAction::InvalidData), "{bytes:?}");
    }
}

#[test]
fn valid_prefix_and_what_follows_it() {
    assert!(matches!(valid_prefix_len(b"abc"), (3, None)));
    assert!(matches!(valid_prefix_len(&[b'a', 0xe2, 0x82]), (1, Some(ScalarScan::Cut))));
    assert!(matches!(valid_prefix_len(&[0xc3, 0xa9, 0xc3, 0x28]), (2, Some(ScalarScan::Invalid))));
    assert!(matches!(valid_prefix_len(&[]), (0, None)));
    assert!(matches!(scan_first_scalar(&[0xf0, 0x9f, 0x98, 0x80], 0), ScalarScan::Whole(4)));
    assert!(matches!(scan_first_scalar(&[b'x', 0xe0, 0xa0], 1), ScalarScan::Cut));
    assert!(matches!(scan_first_scalar(&[0xf5], 0), ScalarScan::Invalid));
}
