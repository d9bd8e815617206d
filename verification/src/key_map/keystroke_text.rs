use vstd::prelude::*;
use vstd::string::StrSliceExecFns;
use crate::derive::error::str_views;

verus! {

/// The pieces of `text` between the `+` signs, as `str::split('+')` gives them: one
/// more piece than there are `+` signs.
pub open spec fn plus_segments(text: Seq<char>) -> Seq<Seq<char>>
    decreases text.len(),
{
    if text.len() == 0 {
        seq![Seq::empty()]
    } else {
        let prev = plus_segments(text.drop_last());
        if text.last() == '+' {
            prev.push(Seq::empty())
        } else {
            prev.update(prev.len() - 1, prev.last().push(text.last()))
        }
    }
}

pub proof fn lemma_plus_segments_len(text: Seq<char>)
    ensures
        plus_segments(text).len() >= 1,
    decreases text.len(),
{
    if text.len() > 0 {
        lemma_plus_segments_len(text.drop_last());
    }
}

/// Splits `text` at each `+` sign.
pub fn split_plus(text: &str) -> (res: Vec<&str>)
    ensures
        str_views(res@) == plus_segments(text@),
{
    let n = text.unicode_len();
    let mut res: Vec<&str> = Vec::new();
    let mut start: usize = 0;
    let mut i: usize = 0;
    proof {
        assert(text@.take(0) =~= Seq::<char>::empty());
        assert(text@.subrange(0, 0) =~= Seq::<char>::empty());
        assert(str_views(res@).push(text@.subrange(0, 0)) =~= seq![Seq::<char>::empty()]);
    }
    while i < n
        invariant
            0 <= start <= i <= n,
            n == text@.len(),
            str_views(res@).push(text@.subrange(start as int, i as int)) == plus_segments(
                text@.take(i as int),
            ),
        decreases n - i,
    {
        let ghost before = str_views(res@);
        proof {
            let t = text@.take(i + 1);
            assert(t.drop_last() =~= text@.take(i as int));
            assert(t.last() == text@[i as int]);
            lemma_plus_segments_len(text@.take(i as int));
        }
        if text.get_char(i) == '+' {
            let piece = text.substring_char(start, i);
            res.push(piece);
            start = i + 1;
            proof {
                assert(str_views(res@) =~= before.push(piece@));
                assert(text@.subrange(start as int, i + 1) =~= Seq::<char>::empty());
            }
        } else {
            proof {
                assert(text@.subrange(start as int, i + 1) =~= text@.subrange(start as int, i as int).push(
                    text@[i as int],
                ));
                assert(str_views(res@).push(text@.subrange(start as int, i + 1)) =~= before.push(
                    text@.subrange(start as int, i as int),
                ).update(before.len() as int, text@.subrange(start as int, i + 1)));
            }
        }
        i = i + 1;
    }
    let last = text.substring_char(start, n);
    let ghost before = str_views(res@);
    res.push(last);
    proof {
        assert(str_views(res@) =~= before.push(last@));
        assert(text@.take(n as int) =~= text@);
    }
    res
}

pub open spec fn is_decimal_digit(c: char) -> bool {
    '0' <= c && c <= '9'
}

pub open spec fn all_decimal_digits(s: Seq<char>) -> bool {
    forall|i: int| 0 <= i < s.len() ==> is_decimal_digit(#[trigger] s[i])
}

/// The number written by a sequence of decimal digits.
pub open spec fn decimal_value(s: Seq<char>) -> nat
    decreases s.len(),
{
    if s.len() == 0 {
        0
    } else {
        decimal_value(s.drop_last()) * 10 + ((s.last() as nat) - ('0' as nat)) as nat
    }
}

/// What `str::parse::<u8>` gives: an optional `+` sign, then at least one decimal digit,
/// with a value that fits in a `u8`.
pub open spec fn u8_from_text(text: Seq<char>) -> Option<u8> {
    let digits = if text.len() > 0 && text[0] == '+' {
        text.drop_first()
    } else {
        text
    };
    if digits.len() > 0 && all_decimal_digits(digits) && decimal_value(digits) <= 255 {
        Some(decimal_value(digits) as u8)
    } else {
        None
    }
}

proof fn lemma_decimal_value_grows(s: Seq<char>, i: int)
    requires
        0 <= i <= s.len(),
        all_decimal_digits(s),
    ensures
        decimal_value(s.take(i)) <= decimal_value(s),
    decreases s.len() - i,
{
    if i < s.len() {
        lemma_decimal_value_grows(s, i + 1);
        let t = s.take(i + 1);
        assert(t.drop_last() =~= s.take(i));
        assert(is_decimal_digit(s[i]));
    } else {
        assert(s.take(i) =~= s);
    }
}

/// Parses a `u8` as `str::parse` does.
pub fn parse_u8(text: &str) -> (res: Option<u8>)
    ensures
        res == u8_from_text(text@),
{
    let n = text.unicode_len();
    let mut i: usize = 0;
    if n > 0 && text.get_char(0) == '+' {
        i = 1;
    }
    let ghost digits = if text@.len() > 0 && text@[0] == '+' {
        text@.drop_first()
    } else {
        text@
    };
    let first = i;
    assert(digits =~= text@.subrange(first as int, n as int));
    if i == n {
        return None;
    }
    let mut value: u32 = 0;
    while i < n
        invariant
            first <= i <= n,
            n == text@.len(),
            digits == text@.subrange(first as int, n as int),
            digits == (if text@.len() > 0 && text@[0] == '+' {
                text@.drop_first()
            } else {
                text@
            }),
            all_decimal_digits(digits.take(i - first)),
            value == decimal_value(digits.take(i - first)),
            value <= 255,
        decreases n - i,
    {
        let c = text.get_char(i);
        let ghost k = i - first;
        proof {
            assert(digits[k] == c);
            assert(digits.take(k + 1).drop_last() =~= digits.take(k));
            assert(digits.take(k + 1).last() == c);
        }
        if c < '0' || c > '9' {
            proof {
                assert(!is_decimal_digit(digits[k]));
                assert(!all_decimal_digits(digits));
                assert(u8_from_text(text@) is None);
            }
            return None;
        }
        let d = (c as u32) - ('0' as u32);
        value = value * 10 + d;
        proof {
            assert(d == ((c as nat) - ('0' as nat)) as nat);
            assert(value == decimal_value(digits.take(k + 1)));
            assert forall|j: int| 0 <= j < k + 1 implies is_decimal_digit(#[trigger] digits.take(k + 1)[j]) by {
                if j < k {
                    assert(digits.take(k + 1)[j] == digits.take(k)[j]);
                }
            }
        }
        if value > 255 {
            proof {
                if all_decimal_digits(digits) {
                    lemma_decimal_value_grows(digits, k + 1);
                }
                assert(u8_from_text(text@) is None);
            }
            return None;
        }
        i = i + 1;
    }
    proof {
        assert(digits.take(n - first) =~= digits);
    }
    Some(value as u8)
}

} // verus!
