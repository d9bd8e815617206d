//! Texts as sequences of characters, their UTF-8 byte lengths, and their extended
//! grapheme clusters.

use vstd::prelude::*;
use unicode_segmentation::UnicodeSegmentation;

verus! {

/// The number of bytes of a character in UTF-8.
pub open spec fn char_utf8_len(c: char) -> nat {
    if (c as u32) < 0x80 {
        1
    } else if (c as u32) < 0x800 {
        2
    } else if (c as u32) < 0x10000 {
        3
    } else {
        4
    }
}

/// The number of bytes of a text in UTF-8.
pub open spec fn utf8_len(s: Seq<char>) -> nat
    decreases s.len(),
{
    if s.len() == 0 {
        0
    } else {
        utf8_len(s.drop_last()) + char_utf8_len(s.last())
    }
}

pub proof fn lemma_utf8_len_concat(a: Seq<char>, b: Seq<char>)
    ensures
        utf8_len(a + b) == utf8_len(a) + utf8_len(b),
    decreases b.len(),
{
    if b.len() == 0 {
        assert(a + b =~= a);
    } else {
        assert((a + b).drop_last() =~= a + b.drop_last());
        lemma_utf8_len_concat(a, b.drop_last());
    }
}

pub proof fn lemma_utf8_len_bounds(s: Seq<char>)
    ensures
        s.len() <= utf8_len(s) <= 4 * s.len(),
    decreases s.len(),
{
    if s.len() > 0 {
        lemma_utf8_len_bounds(s.drop_last());
    }
}

/// A larger prefix has more bytes.
pub proof fn lemma_utf8_len_prefix(s: Seq<char>, i: int, j: int)
    requires
        0 <= i < j <= s.len(),
    ensures
        utf8_len(s.take(i)) < utf8_len(s.take(j)),
{
    assert(s.take(j) =~= s.take(i) + s.subrange(i, j));
    lemma_utf8_len_concat(s.take(i), s.subrange(i, j));
    lemma_utf8_len_bounds(s.subrange(i, j));
}

/// The pieces one after the other.
pub open spec fn flat(pieces: Seq<Seq<char>>) -> Seq<char>
    decreases pieces.len(),
{
    if pieces.len() == 0 {
        Seq::empty()
    } else {
        flat(pieces.drop_last()) + pieces.last()
    }
}

pub proof fn lemma_flat_concat(a: Seq<Seq<char>>, b: Seq<Seq<char>>)
    ensures
        flat(a + b) == flat(a) + flat(b),
    decreases b.len(),
{
    if b.len() == 0 {
        assert(a + b =~= a);
        assert(flat(a) + flat(b) =~= flat(a));
    } else {
        assert((a + b).drop_last() =~= a + b.drop_last());
        lemma_flat_concat(a, b.drop_last());
        assert(flat(a + b) =~= flat(a) + flat(b));
    }
}

/// Whether every piece holds at least one character.
pub open spec fn all_nonempty(pieces: Seq<Seq<char>>) -> bool {
    forall|i: int| 0 <= i < pieces.len() ==> (#[trigger] pieces[i]).len() > 0
}

/// A text of `n` non-empty pieces has at least `n` characters.
pub proof fn lemma_flat_len(pieces: Seq<Seq<char>>)
    requires
        all_nonempty(pieces),
    ensures
        flat(pieces).len() >= pieces.len(),
    decreases pieces.len(),
{
    if pieces.len() > 0 {
        assert(all_nonempty(pieces.drop_last())) by {
            assert forall|i: int| 0 <= i < pieces.drop_last().len() implies (#[trigger] pieces.drop_last()[i]).len()
                > 0 by {
                assert(pieces.drop_last()[i] == pieces[i]);
            }
        }
        lemma_flat_len(pieces.drop_last());
        assert(pieces.last() == pieces[pieces.len() - 1]);
    }
}

/// The extended grapheme clusters of a text, as `unicode-segmentation` finds them.
pub uninterp spec fn extended_graphemes_of(text: Seq<char>) -> Seq<Seq<char>>;

/// The extended grapheme clusters of `text`, from `UnicodeSegmentation::graphemes(text,
/// true)`. Where the clusters are cut is left to the name; what is stated is what the
/// iterator's source shows: the clusters are non-empty and, one after the other, give back
/// the text.
#[verifier::external_body]
pub(crate) fn extended_graphemes(text: &str) -> (res: Vec<&str>)
    ensures
        res@.map_values(|piece: &str| piece@) == extended_graphemes_of(text@),
        flat(res@.map_values(|piece: &str| piece@)) == text@,
        all_nonempty(res@.map_values(|piece: &str| piece@)),
{
    UnicodeSegmentation::graphemes(text, true).collect()
}

/// The first extended grapheme cluster of `text` and the rest of the text, from the
/// iterator that `UnicodeSegmentation::graphemes(text, true)` returns (its `next` and its
/// `as_str`); nothing when `text` is empty.
#[verifier::external_body]
pub(crate) fn split_first_extended_grapheme(text: &str) -> (res: Option<(&str, &str)>)
    ensures
        res is None <==> text@.len() == 0,
        res matches Some((head, tail)) ==> {
            &&& extended_graphemes_of(text@).len() > 0
            &&& head@ == extended_graphemes_of(text@)[0]
            &&& head@.len() > 0
            &&& head@ + tail@ == text@
        },
{
    let mut graphemes = UnicodeSegmentation::graphemes(text, true);
    match graphemes.next() {
        Some(head) => Some((head, graphemes.as_str())),
        None => None,
    }
}

/// The number of bytes of `text` in UTF-8 (`str::len`).
#[verifier::external_body]
pub(crate) fn byte_len(text: &str) -> (res: usize)
    ensures
        res == utf8_len(text@),
{
    text.len()
}

/// Splits `text` at the byte offset `mid`, which must fall between two characters
/// (`str::split_at`, which panics otherwise).
#[verifier::external_body]
pub(crate) fn split_at_byte<'a>(text: &'a str, mid: usize) -> (res: (&'a str, &'a str))
    requires
        exists|k: int| 0 <= k <= text@.len() && utf8_len(#[trigger] text@.take(k)) == mid,
    ensures
        res.0@ + res.1@ == text@,
        utf8_len(res.0@) == mid,
{
    text.split_at(mid)
}

} // verus!
