//! Reading UTF-8 text that arrives in pieces: how much of the bytes is valid, and whether
//! what follows is invalid or only cut short.

use vstd::prelude::*;
use vstd::utf8::*;
use vstd::string::StringSliceAdditionalSpecFns;

verus! {

/// The length of the longest valid UTF-8 prefix of `bytes`: one well-formed scalar after
/// another, as far as they go.
pub open spec fn valid_up_to(bytes: Seq<u8>) -> nat
    decreases bytes.len(),
{
    if bytes.len() > 0 && valid_first_scalar(bytes) {
        (length_of_first_scalar(bytes) + valid_up_to(pop_first_scalar(bytes))) as nat
    } else {
        0
    }
}

/// `bytes` is a strict prefix of the UTF-8 encoding of a single scalar: more bytes could
/// complete it.
pub open spec fn is_cut_scalar(bytes: Seq<u8>) -> bool {
    exists|more: Seq<u8>|
        #[trigger] valid_first_scalar(bytes + more) && bytes.len() < length_of_first_scalar(bytes + more)
}

/// The number of bytes of a scalar that begins with `b0`; none for a byte that begins no
/// scalar.
pub open spec fn lead_width(b0: u8) -> int {
    if b0 <= 0x7f {
        1
    } else if 0xc2 <= b0 <= 0xdf {
        2
    } else if 0xe0 <= b0 <= 0xef {
        3
    } else if 0xf0 <= b0 <= 0xf4 {
        4
    } else {
        0
    }
}

/// Whether `b` may stand at index `k` (1 to 3) of the encoding of a scalar that begins with
/// `b0`.
pub open spec fn fits(b0: u8, k: int, b: u8) -> bool {
    if k == 1 && b0 == 0xe0 {
        0xa0 <= b <= 0xbf
    } else if k == 1 && b0 == 0xed {
        0x80 <= b <= 0x9f
    } else if k == 1 && b0 == 0xf0 {
        0x90 <= b <= 0xbf
    } else if k == 1 && b0 == 0xf4 {
        0x80 <= b <= 0x8f
    } else {
        0x80 <= b <= 0xbf
    }
}

/// The bytes from index 1 up to `n` fit the scalar that the first byte begins.
pub open spec fn fits_up_to(s: Seq<u8>, n: int) -> bool {
    forall|k: int| 1 <= k < n ==> fits(s[0], k, #[trigger] s[k])
}

proof fn lemma_width_1(b0: u8)
    by (bit_vector)
    requires
        b0 <= 0x7f,
    ensures
        ((b0 & 0x7f) as u32) <= 0x7f,
{
}

proof fn lemma_width_2(b0: u8, b1: u8)
    by (bit_vector)
    requires
        0xc0 <= b0 <= 0xdf,
        0x80 <= b1 <= 0xbf,
    ensures
        (((((b0 & 0x1f) as u32) << 6) | ((b1 & 0x3f) as u32)) >= 0x80) == (b0 >= 0xc2),
        ((((b0 & 0x1f) as u32) << 6) | ((b1 & 0x3f) as u32)) < 0x800,
{
}

proof fn lemma_width_3(b0: u8, b1: u8, b2: u8)
    by (bit_vector)
    requires
        0xe0 <= b0 <= 0xef,
        0x80 <= b1 <= 0xbf,
        0x80 <= b2 <= 0xbf,
    ensures
        ({
            let c = (((b0 & 0x0f) as u32) << 12) | (((b1 & 0x3f) as u32) << 6) | ((b2 & 0x3f) as u32);
            (0x800 <= c && !(0xd800 <= c && c <= 0xdfff)) == ((b0 != 0xe0 || b1 >= 0xa0) && (b0 != 0xed
                || b1 <= 0x9f))
        }),
{
}

proof fn lemma_width_4(b0: u8, b1: u8, b2: u8, b3: u8)
    by (bit_vector)
    requires
        0xf0 <= b0 <= 0xf7,
        0x80 <= b1 <= 0xbf,
        0x80 <= b2 <= 0xbf,
        0x80 <= b3 <= 0xbf,
    ensures
        ({
            let c = (((b0 & 0x07) as u32) << 18) | (((b1 & 0x3f) as u32) << 12) | (((b2 & 0x3f) as u32)
                << 6) | ((b3 & 0x3f) as u32);
            (0x10000 <= c && c <= 0x10ffff && !(0xd800 <= c && c <= 0xdfff)) == (b0 <= 0xf4 && (b0 != 0xf0
                || b1 >= 0x90) && (b0 != 0xf4 || b1 <= 0x8f))
        }),
{
}

/// A sequence begins with a well-formed scalar exactly when its first byte begins one and
/// the bytes after it fit, as far as that scalar's width; the width is then the scalar's
/// length.
pub proof fn lemma_first_scalar_table(s: Seq<u8>)
    requires
        s.len() > 0,
    ensures
        valid_first_scalar(s) <==> (lead_width(s[0]) > 0 && lead_width(s[0]) <= s.len() && fits_up_to(
            s,
            lead_width(s[0]),
        )),
        valid_first_scalar(s) ==> length_of_first_scalar(s) == lead_width(s[0]),
{
    let b0 = s[0];
    if b0 <= 0x7f {
        lemma_width_1(b0);
    } else if 0xc0 <= b0 <= 0xdf {
        if s.len() >= 2 && is_continuation_byte(s[1]) {
            lemma_width_2(b0, s[1]);
        }
        if lead_width(b0) > 0 && lead_width(b0) <= s.len() && fits_up_to(s, lead_width(b0)) {
            assert(fits(b0, 1, s[1]));
            lemma_width_2(b0, s[1]);
        }
    } else if 0xe0 <= b0 <= 0xef {
        if s.len() >= 3 && is_continuation_byte(s[1]) && is_continuation_byte(s[2]) {
            lemma_width_3(b0, s[1], s[2]);
        }
        if lead_width(b0) <= s.len() && fits_up_to(s, lead_width(b0)) {
            assert(fits(b0, 1, s[1]));
            assert(fits(b0, 2, s[2]));
            lemma_width_3(b0, s[1], s[2]);
        }
    } else if 0xf0 <= b0 <= 0xf7 {
        if s.len() >= 4 && is_continuation_byte(s[1]) && is_continuation_byte(s[2]) && is_continuation_byte(
            s[3],
        ) {
            lemma_width_4(b0, s[1], s[2], s[3]);
        }
        if lead_width(b0) > 0 && lead_width(b0) <= s.len() && fits_up_to(s, lead_width(b0)) {
            assert(fits(b0, 1, s[1]));
            assert(fits(b0, 2, s[2]));
            assert(fits(b0, 3, s[3]));
            lemma_width_4(b0, s[1], s[2], s[3]);
        }
    }
}

/// A byte that fits at index `k` of a scalar that begins with `b0`.
pub open spec fn filler(b0: u8, k: int) -> u8 {
    if k == 1 && b0 == 0xe0 {
        0xa0
    } else if k == 1 && b0 == 0xf0 {
        0x90
    } else {
        0x80
    }
}

/// A non-empty sequence is a cut scalar exactly when its first byte begins a scalar longer
/// than the sequence and every byte after it fits.
pub proof fn lemma_cut_scalar_table(s: Seq<u8>)
    requires
        s.len() > 0,
    ensures
        is_cut_scalar(s) <==> (lead_width(s[0]) > s.len() && fits_up_to(s, s.len() as int)),
{
    if is_cut_scalar(s) {
        let more = choose|more: Seq<u8>|
            #[trigger] valid_first_scalar(s + more) && s.len() < length_of_first_scalar(s + more);
        let t = s + more;
        lemma_first_scalar_table(t);
        assert forall|k: int| 1 <= k < s.len() implies fits(s[0], k, #[trigger] s[k]) by {
            assert(t[k] == s[k]);
            assert(fits(t[0], k, t[k]));
        }
    }
    if lead_width(s[0]) > s.len() && fits_up_to(s, s.len() as int) {
        let w = lead_width(s[0]);
        let b0 = s[0];
        let more = Seq::new((w - s.len()) as nat, |i: int| filler(b0, s.len() + i));
        let t = s + more;
        assert(t[0] == b0);
        assert forall|k: int| 1 <= k < w implies fits(t[0], k, #[trigger] t[k]) by {
            if k < s.len() {
                assert(t[k] == s[k]);
            } else {
                assert(t[k] == filler(b0, k));
            }
        }
        lemma_first_scalar_table(t);
        assert(valid_first_scalar(t) && s.len() < length_of_first_scalar(t));
    }
}

/// The first scalar of a sequence is the first scalar of any prefix that holds it, and
/// the other way round.
pub proof fn lemma_first_scalar_prefix(s: Seq<u8>, n: int)
    requires
        0 < n <= s.len(),
    ensures
        valid_first_scalar(s) && length_of_first_scalar(s) <= n ==> valid_first_scalar(s.take(n))
            && length_of_first_scalar(s.take(n)) == length_of_first_scalar(s) && decode_first_scalar(s.take(n))
            == decode_first_scalar(s),
        valid_first_scalar(s.take(n)) ==> valid_first_scalar(s) && length_of_first_scalar(s)
            == length_of_first_scalar(s.take(n)) && length_of_first_scalar(s) <= n,
{
    let t = s.take(n);
    lemma_first_scalar_table(s);
    lemma_first_scalar_table(t);
    assert(t[0] == s[0]);
    let w = lead_width(s[0]);
    if w > 0 && w <= n {
        assert(fits_up_to(s, w) == fits_up_to(t, w)) by {
            assert forall|k: int| 1 <= k < w implies t[k] == s[k] by {}
        }
        if w >= 2 {
            assert(t[1] == s[1]);
        }
        if w >= 3 {
            assert(t[2] == s[2]);
        }
        if w >= 4 {
            assert(t[3] == s[3]);
        }
    }
}

/// The longest valid prefix is valid, and its scalars are those of the bytes.
pub proof fn lemma_valid_up_to_valid(bytes: Seq<u8>)
    ensures
        valid_up_to(bytes) <= bytes.len(),
        valid_utf8(bytes.take(valid_up_to(bytes) as int)),
    decreases bytes.len(),
{
    let v = valid_up_to(bytes) as int;
    if v > 0 {
        let w = length_of_first_scalar(bytes);
        let rest = pop_first_scalar(bytes);
        lemma_valid_up_to_valid(rest);
        lemma_first_scalar_prefix(bytes, v);
        let t = bytes.take(v);
        assert(pop_first_scalar(t) =~= rest.take(v - w));
    } else {
        assert(bytes.take(0) =~= Seq::<u8>::empty());
    }
}

/// No valid prefix is longer than `valid_up_to`.
pub proof fn lemma_valid_up_to_longest(bytes: Seq<u8>, n: int)
    requires
        0 <= n <= bytes.len(),
        valid_utf8(bytes.take(n)),
    ensures
        n <= valid_up_to(bytes),
    decreases bytes.len(),
{
    if n > 0 {
        let t = bytes.take(n);
        lemma_first_scalar_prefix(bytes, n);
        let w = length_of_first_scalar(bytes);
        let rest = pop_first_scalar(bytes);
        assert(pop_first_scalar(t) =~= rest.take(n - w));
        lemma_valid_up_to_longest(rest, n - w);
    }
}

/// Past a valid first scalar, the longest valid prefix goes on from the next scalar.
pub proof fn lemma_valid_up_to_step(bytes: Seq<u8>, i: int)
    requires
        0 <= i < bytes.len(),
        valid_first_scalar(bytes.skip(i)),
    ensures
        length_of_first_scalar(bytes.skip(i)) <= bytes.len() - i,
        valid_up_to(bytes.skip(i)) == length_of_first_scalar(bytes.skip(i)) + valid_up_to(
            bytes.skip(i + length_of_first_scalar(bytes.skip(i))),
        ),
{
    let s = bytes.skip(i);
    let w = length_of_first_scalar(s);
    assert(pop_first_scalar(s) =~= bytes.skip(i + w));
}

/// Two valid sequences one after the other are valid, and decode to their two texts.
pub proof fn lemma_decode_concat(a: Seq<u8>, b: Seq<u8>)
    requires
        valid_utf8(a),
        valid_utf8(b),
    ensures
        valid_utf8(a + b),
        decode_utf8(a + b) == decode_utf8(a) + decode_utf8(b),
    decreases a.len(),
{
    valid_utf8_concat(a, b);
    if a.len() == 0 {
        assert(a + b =~= b);
        assert(decode_utf8(a) + decode_utf8(b) =~= decode_utf8(b));
    } else {
        let w = length_of_first_scalar(a);
        assert((a + b).take(a.len() as int) =~= a);
        lemma_first_scalar_prefix(a + b, a.len() as int);
        assert(pop_first_scalar(a + b) =~= pop_first_scalar(a) + b);
        lemma_decode_concat(pop_first_scalar(a), b);
        assert(decode_utf8(a + b) =~= decode_utf8(a) + decode_utf8(b));
    }
}

/// What the bytes from some index on begin with.
pub enum ScalarScan {
    /// A well-formed scalar of this many bytes.
    Whole(usize),
    /// The start of a scalar that the bytes end before completing.
    Cut,
    /// Bytes that no scalar begins with.
    Invalid,
}

fn lead_width_of(b0: u8) -> (res: usize)
    ensures
        res == lead_width(b0),
{
    if b0 <= 0x7f {
        1
    } else if 0xc2 <= b0 && b0 <= 0xdf {
        2
    } else if 0xe0 <= b0 && b0 <= 0xef {
        3
    } else if 0xf0 <= b0 && b0 <= 0xf4 {
        4
    } else {
        0
    }
}

fn fits_at(b0: u8, k: usize, b: u8) -> (res: bool)
    ensures
        res == fits(b0, k as int, b),
{
    if k == 1 && b0 == 0xe0 {
        0xa0 <= b && b <= 0xbf
    } else if k == 1 && b0 == 0xed {
        0x80 <= b && b <= 0x9f
    } else if k == 1 && b0 == 0xf0 {
        0x90 <= b && b <= 0xbf
    } else if k == 1 && b0 == 0xf4 {
        0x80 <= b && b <= 0x8f
    } else {
        0x80 <= b && b <= 0xbf
    }
}

/// What the bytes from index `i` on begin with: a whole scalar, a cut one, or invalid data.
pub fn scan_first_scalar(bytes: &[u8], i: usize) -> (res: ScalarScan)
    requires
        i < bytes@.len(),
    ensures
        match res {
            ScalarScan::Whole(w) => valid_first_scalar(bytes@.skip(i as int)) && w == length_of_first_scalar(
                bytes@.skip(i as int),
            ),
            ScalarScan::Cut => !valid_first_scalar(bytes@.skip(i as int)) && is_cut_scalar(bytes@.skip(i as int)),
            ScalarScan::Invalid => !valid_first_scalar(bytes@.skip(i as int)) && !is_cut_scalar(
                bytes@.skip(i as int),
            ),
        },
{
    let ghost s = bytes@.skip(i as int);
    let b0 = bytes[i];
    let w = lead_width_of(b0);
    proof {
        assert(s[0] == b0);
        lemma_first_scalar_table(s);
        lemma_cut_scalar_table(s);
    }
    if w == 0 {
        return ScalarScan::Invalid;
    }
    let mut k: usize = 1;
    while k < w
        invariant
            1 <= k <= w <= 4,
            i < bytes@.len(),
            w == lead_width(b0),
            s == bytes@.skip(i as int),
            b0 == s[0],
            forall|j: int| 1 <= j < k ==> j < s.len() && fits(b0, j, #[trigger] s[j]),
        decreases w - k,
    {
        if k >= bytes.len() - i {
            proof {
                assert(fits_up_to(s, s.len() as int));
                lemma_first_scalar_table(s);
                lemma_cut_scalar_table(s);
            }
            return ScalarScan::Cut;
        }
        if !fits_at(b0, k, bytes[i + k]) {
            proof {
                assert(s[k as int] == bytes@[i + k]);
                assert(!fits_up_to(s, w as int));
                assert(!fits_up_to(s, s.len() as int));
                lemma_first_scalar_table(s);
                lemma_cut_scalar_table(s);
            }
            return ScalarScan::Invalid;
        }
        proof {
            assert(s[k as int] == bytes@[i + k]);
        }
        k = k + 1;
    }
    proof {
        assert(s.len() == bytes@.len() - i);
        if w > 1 {
            assert(fits(b0, w - 1, s[w - 1]));
        }
        assert(fits_up_to(s, w as int));
        lemma_first_scalar_table(s);
    }
    ScalarScan::Whole(w)
}

/// The length of the longest valid UTF-8 prefix of `bytes`, and what the bytes after it
/// begin with (nothing when the whole is valid).
pub fn valid_prefix_len(bytes: &[u8]) -> (res: (usize, Option<ScalarScan>))
    ensures
        res.0 == valid_up_to(bytes@),
        res.0 == bytes@.len() <==> res.1 is None,
        res.1 matches Some(scan) ==> res.0 < bytes@.len() && match scan {
            ScalarScan::Whole(_) => false,
            ScalarScan::Cut => is_cut_scalar(bytes@.skip(res.0 as int)),
            ScalarScan::Invalid => !is_cut_scalar(bytes@.skip(res.0 as int)),
        },
{
    let mut i: usize = 0;
    proof {
        assert(bytes@.skip(0) =~= bytes@);
    }
    while i < bytes.len()
        invariant
            0 <= i <= bytes@.len(),
            valid_up_to(bytes@) == i + valid_up_to(bytes@.skip(i as int)),
        decreases bytes@.len() - i,
    {
        match scan_first_scalar(bytes, i) {
            ScalarScan::Whole(w) => {
                proof {
                    lemma_valid_up_to_step(bytes@, i as int);
                }
                i = i + w;
            },
            ScalarScan::Cut => {
                return (i, Some(ScalarScan::Cut));
            },
            ScalarScan::Invalid => {
                return (i, Some(ScalarScan::Invalid));
            },
        }
    }
    (i, None)
}

/// `std::str::from_utf8`: the bytes as a string slice, which it gives exactly when they are
/// valid UTF-8; the slice is then made of those same bytes.
#[verifier::external_body]
pub(crate) fn str_from_utf8(bytes: &[u8]) -> (res: Option<&str>)
    ensures
        res is Some <==> valid_utf8(bytes@),
        res matches Some(text) ==> text.spec_bytes() == bytes@,
{
    std::str::from_utf8(bytes).ok()
}

} // verus!
