use vstd::prelude::*;
use vstd::string::StrSliceExecFns;

verus! {

/// Whether a sequence of characters is a single newline grapheme (`"\n"` or `"\r\n"`).
pub open spec fn is_newline_chars(chars: Seq<char>) -> bool {
    chars == seq!['\n'] || chars == seq!['\r', '\n']
}

/// Whether an extended grapheme is a newline.
pub fn is_newline(extended_grapheme: &str) -> (res: bool)
    ensures
        res == is_newline_chars(extended_grapheme@),
{
    let len = extended_grapheme.unicode_len();
    if len == 1 {
        let res = extended_grapheme.get_char(0) == '\n';
        proof {
            if res {
                assert(extended_grapheme@ =~= seq!['\n']);
            }
        }
        res
    } else if len == 2 {
        let res = extended_grapheme.get_char(0) == '\r' && extended_grapheme.get_char(1) == '\n';
        proof {
            if res {
                assert(extended_grapheme@ =~= seq!['\r', '\n']);
            }
        }
        res
    } else {
        false
    }
}

/// A text is modelled by one flag per extended grapheme: whether it is a newline.
/// The number of newline graphemes in it.
pub open spec fn count_newlines(flags: Seq<bool>) -> nat
    decreases flags.len(),
{
    if flags.len() == 0 {
        0
    } else {
        count_newlines(flags.drop_last()) + if flags.last() {
            1nat
        } else {
            0nat
        }
    }
}

/// The length of each line of the text, first line first; there is always one line
/// more than there are newlines. When `counts_newline` holds, a line's length counts the
/// newline grapheme that ends it.
pub open spec fn line_lengths(flags: Seq<bool>, counts_newline: bool) -> Seq<nat>
    decreases flags.len(),
{
    if flags.len() == 0 {
        seq![0nat]
    } else {
        let prev = line_lengths(flags.drop_last(), counts_newline);
        let grown = prev.update(prev.len() - 1, prev.last() + 1);
        if flags.last() {
            if counts_newline {
                grown.push(0nat)
            } else {
                prev.push(0nat)
            }
        } else {
            grown
        }
    }
}

/// The largest element of a sequence (0 for the empty sequence).
pub open spec fn seq_max(s: Seq<nat>) -> nat
    decreases s.len(),
{
    if s.len() == 0 {
        0
    } else {
        let m = seq_max(s.drop_last());
        if m < s.last() {
            s.last()
        } else {
            m
        }
    }
}

pub open spec fn nat_max(a: nat, b: nat) -> nat {
    if a < b {
        b
    } else {
        a
    }
}

/// The empty text has no newline and one line, of length 0.
pub proof fn lemma_empty_text(counts_newline: bool)
    ensures
        count_newlines(Seq::empty()) == 0,
        line_lengths(Seq::empty(), counts_newline) == seq![0nat],
        seq_max(seq![0nat]) == 0,
{
    reveal_with_fuel(seq_max, 2);
}

/// The text made of one extended grapheme.
pub proof fn lemma_single_grapheme(is_newline: bool, counts_newline: bool)
    ensures
        count_newlines(seq![is_newline]) == if is_newline {
            1nat
        } else {
            0nat
        },
        line_lengths(seq![is_newline], counts_newline) == if !is_newline {
            seq![1nat]
        } else if counts_newline {
            seq![1nat, 0nat]
        } else {
            seq![0nat, 0nat]
        },
{
    let flags = seq![is_newline];
    assert(flags.drop_last() =~= Seq::<bool>::empty());
    lemma_empty_text(counts_newline);
    assert(seq![0nat].update(0, 1) =~= seq![1nat]);
    assert(seq![1nat].push(0nat) =~= seq![1nat, 0nat]);
    assert(seq![0nat].push(0nat) =~= seq![0nat, 0nat]);
}

/// A text holds at most as many newlines as extended graphemes.
pub proof fn lemma_count_bounded(flags: Seq<bool>)
    ensures
        count_newlines(flags) <= flags.len(),
    decreases flags.len(),
{
    if flags.len() > 0 {
        lemma_count_bounded(flags.drop_last());
    }
}

/// There is one line more than there are newlines.
pub proof fn lemma_lines_len(flags: Seq<bool>, counts_newline: bool)
    ensures
        line_lengths(flags, counts_newline).len() == count_newlines(flags) + 1,
    decreases flags.len(),
{
    if flags.len() > 0 {
        lemma_lines_len(flags.drop_last(), counts_newline);
    }
}

/// No line is longer than the whole text.
pub proof fn lemma_lines_bounded(flags: Seq<bool>, counts_newline: bool)
    ensures
        forall|i: int|
            0 <= i < line_lengths(flags, counts_newline).len() ==> #[trigger] line_lengths(
                flags,
                counts_newline,
            )[i] <= flags.len(),
    decreases flags.len(),
{
    if flags.len() > 0 {
        lemma_lines_bounded(flags.drop_last(), counts_newline);
        lemma_lines_len(flags.drop_last(), counts_newline);
    }
}

/// A text without newlines is a single line as long as the text.
pub proof fn lemma_no_newline(flags: Seq<bool>, counts_newline: bool)
    requires
        count_newlines(flags) == 0,
    ensures
        line_lengths(flags, counts_newline) == seq![flags.len()],
    decreases flags.len(),
{
    if flags.len() > 0 {
        lemma_no_newline(flags.drop_last(), counts_newline);
        assert(seq![flags.drop_last().len()].update(0, flags.drop_last().len() + 1) =~= seq![
            flags.len(),
        ]);
    }
}

/// Newlines of a concatenation add up.
pub proof fn lemma_count_concat(a: Seq<bool>, b: Seq<bool>)
    ensures
        count_newlines(a + b) == count_newlines(a) + count_newlines(b),
    decreases b.len(),
{
    if b.len() == 0 {
        assert(a + b =~= a);
    } else {
        lemma_count_concat(a, b.drop_last());
        assert((a + b).drop_last() =~= a + b.drop_last());
    }
}

/// The lines of a concatenation: the last line of `a` and the first line of `b` merge.
pub proof fn lemma_lines_concat(a: Seq<bool>, b: Seq<bool>, counts_newline: bool)
    ensures
        ({
            let la = line_lengths(a, counts_newline);
            let lb = line_lengths(b, counts_newline);
            line_lengths(a + b, counts_newline) == la.drop_last() + seq![la.last() + lb[0]]
                + lb.drop_first()
        }),
    decreases b.len(),
{
    let la = line_lengths(a, counts_newline);
    let lb = line_lengths(b, counts_newline);
    lemma_lines_len(a, counts_newline);
    lemma_lines_len(b, counts_newline);
    if b.len() == 0 {
        assert(a + b =~= a);
        assert(la.drop_last() + seq![la.last() + lb[0]] + lb.drop_first() =~= la);
    } else {
        let b0 = b.drop_last();
        let x = b.last();
        lemma_lines_concat(a, b0, counts_newline);
        lemma_lines_len(b0, counts_newline);
        assert((a + b).drop_last() =~= a + b0);
        assert((a + b).last() == x);
        let lb0 = line_lengths(b0, counts_newline);
        let prev = line_lengths(a + b0, counts_newline);
        assert(prev == la.drop_last() + seq![la.last() + lb0[0]] + lb0.drop_first());
        let target = la.drop_last() + seq![la.last() + lb[0]] + lb.drop_first();
        if !x {
            assert(lb == lb0.update(lb0.len() - 1, lb0.last() + 1));
            assert(line_lengths(a + b, counts_newline) == prev.update(prev.len() - 1, prev.last() + 1));
            assert(line_lengths(a + b, counts_newline) =~= target);
        } else if counts_newline {
            assert(lb == lb0.update(lb0.len() - 1, lb0.last() + 1).push(0nat));
            assert(line_lengths(a + b, counts_newline) == prev.update(
                prev.len() - 1,
                prev.last() + 1,
            ).push(0nat));
            assert(line_lengths(a + b, counts_newline) =~= target);
        } else {
            assert(lb == lb0.push(0nat));
            assert(line_lengths(a + b, counts_newline) == prev.push(0nat));
            assert(line_lengths(a + b, counts_newline) =~= target);
        }
    }
}

/// The maximum of a concatenation is the larger of the two maxima.
pub proof fn lemma_seq_max_concat(x: Seq<nat>, y: Seq<nat>)
    ensures
        seq_max(x + y) == nat_max(seq_max(x), seq_max(y)),
    decreases y.len(),
{
    if y.len() == 0 {
        assert(x + y =~= x);
    } else {
        lemma_seq_max_concat(x, y.drop_last());
        assert((x + y).drop_last() =~= x + y.drop_last());
    }
}

/// The maximum of a one-element sequence is that element.
pub proof fn lemma_seq_max_single(v: nat)
    ensures
        seq_max(seq![v]) == v,
{
    reveal_with_fuel(seq_max, 2);
}

/// Every element is at most the maximum.
pub proof fn lemma_seq_max_ge(s: Seq<nat>)
    ensures
        forall|i: int| 0 <= i < s.len() ==> #[trigger] s[i] <= seq_max(s),
    decreases s.len(),
{
    if s.len() > 0 {
        lemma_seq_max_ge(s.drop_last());
        assert forall|i: int| 0 <= i < s.len() implies #[trigger] s[i] <= seq_max(s) by {
            if i < s.len() - 1 {
                assert(s[i] == s.drop_last()[i]);
            }
        }
    }
}

} // verus!
