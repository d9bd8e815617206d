use vstd::prelude::*;
use crate::text_summary::sat_add;

verus! {

/// An interval of positions: it begins at `begin()` and holds `len()` positions. Its end is
/// `begin() + len()`, saturated at `usize::MAX`.
pub trait Interval: Sized {
    spec fn spec_begin(&self) -> usize;

    spec fn spec_len(&self) -> usize;

    fn begin(&self) -> (res: usize)
        ensures
            res == self.spec_begin(),
    ;

    fn len(&self) -> (res: usize)
        ensures
            res == self.spec_len(),
    ;

    fn end(&self) -> (res: usize)
        ensures
            res == sat_add(self.spec_begin(), self.spec_len()),
    {
        self.begin().saturating_add(self.len())
    }

    fn is_empty(&self) -> (res: bool)
        ensures
            res == (self.spec_len() == 0),
    {
        self.len() == 0
    }

    /// Grows `self` into the smallest interval that covers both `self` and `other`.
    fn expand_to_cover(&mut self, other: &Self)
        ensures
            final(self).spec_begin() == min_usize(old(self).spec_begin(), other.spec_begin()),
            sat_add(final(self).spec_begin(), final(self).spec_len()) == max_usize(
                sat_add(old(self).spec_begin(), old(self).spec_len()),
                sat_add(other.spec_begin(), other.spec_len()),
            ),
            old(self).spec_len() > 0 ==> final(self).spec_len() > 0,
    ;

    /// Whether `point` lies in the interval or at its end.
    fn is_touching_or_contains(&self, point: &usize) -> (res: bool)
        ensures
            res == (self.spec_begin() <= *point <= sat_add(self.spec_begin(), self.spec_len())),
    {
        self.begin() <= *point && *point <= self.end()
    }
}

pub open spec fn min_usize(a: usize, b: usize) -> usize {
    if a < b {
        a
    } else {
        b
    }
}

pub open spec fn max_usize(a: usize, b: usize) -> usize {
    if a < b {
        b
    } else {
        a
    }
}

/// Where an interval ends: its begin plus its length, saturated at `usize::MAX`.
pub open spec fn interval_end<T: Interval>(t: T) -> usize {
    sat_add(t.spec_begin(), t.spec_len())
}

pub open spec fn is_nonempty<T: Interval>(t: T) -> bool {
    t.spec_len() > 0
}

/// The point lies in the interval or at its end.
pub open spec fn touches<T: Interval>(t: T, p: int) -> bool {
    t.spec_begin() <= p <= interval_end(t)
}

/// The point is one of the positions the (non-empty) interval holds.
pub open spec fn holds<T: Interval>(t: T, p: int) -> bool {
    is_nonempty(t) && t.spec_begin() <= p < interval_end(t)
}

/// The intervals are ordered by their beginnings, no two begin at the same point, and a
/// non-empty interval neither overlaps nor touches any interval after it (so non-empty
/// intervals never overlap or touch, and no empty interval lies in or at the end of a
/// non-empty one).
pub open spec fn normalized<T: Interval>(s: Seq<T>) -> bool {
    &&& forall|i: int, j: int|
        0 <= i < j < s.len() ==> #[trigger] s[i].spec_begin() < #[trigger] s[j].spec_begin()
    &&& forall|i: int, j: int|
        0 <= i < j < s.len() && is_nonempty(#[trigger] s[i]) ==> interval_end(s[i])
            < (#[trigger] s[j]).spec_begin()
}

/// The positions held by some interval of `s`.
pub open spec fn covered<T: Interval>(s: Seq<T>) -> Set<int> {
    Set::new(|p: int| exists|i: int| 0 <= i < s.len() && holds(#[trigger] s[i], p))
}

/// The points at which an empty interval of `s` lies.
pub open spec fn marks<T: Interval>(s: Seq<T>) -> Set<int> {
    Set::new(
        |p: int|
            exists|i: int|
                0 <= i < s.len() && !is_nonempty(#[trigger] s[i]) && s[i].spec_begin() == p,
    )
}

/// Some interval of `s` touches the point.
pub open spec fn touched<T: Interval>(s: Seq<T>, p: int) -> bool {
    exists|i: int| 0 <= i < s.len() && touches(#[trigger] s[i], p)
}

/// Some non-empty interval of `s` touches the point.
pub open spec fn touched_by_nonempty<T: Interval>(s: Seq<T>, p: int) -> bool {
    exists|i: int| 0 <= i < s.len() && is_nonempty(s[i]) && touches(#[trigger] s[i], p)
}

/// The points of `m` that no non-empty interval of `s` touches.
pub open spec fn untouched_marks<T: Interval>(m: Set<int>, s: Seq<T>) -> Set<int> {
    Set::new(|p: int| m.contains(p) && !touched_by_nonempty(s, p))
}

/// The positions from `begin` (included) to `end` (excluded).
pub open spec fn span(begin: int, end: int) -> Set<int> {
    Set::new(|p: int| begin <= p < end)
}

/// `r` is `s` with `x` put in at index `k`, every interval of `s` kept.
pub open spec fn inserted_at<T: Interval>(s: Seq<T>, x: T, r: Seq<T>, k: int) -> bool {
    &&& 0 <= k <= s.len()
    &&& r == s.take(k) + seq![x] + s.skip(k)
}

/// `r` is `s` with the intervals from index `k1` up to `k2` replaced by the single non-empty
/// interval `m`, which holds the positions of `x` and of the intervals it replaced; every
/// other interval of `s` is kept.
pub open spec fn merged_at<T: Interval>(s: Seq<T>, x: T, r: Seq<T>, k1: int, k2: int, m: T) -> bool {
    &&& 0 <= k1 <= k2 <= s.len()
    &&& r == s.take(k1) + seq![m] + s.skip(k2)
    &&& is_nonempty(m)
    &&& span(m.spec_begin() as int, interval_end(m) as int) == span(
        x.spec_begin() as int,
        interval_end(x) as int,
    ).union(covered(s.subrange(k1, k2)))
}

/// The positions held by a concatenation are those held by either part.
pub proof fn lemma_covered_concat<T: Interval>(a: Seq<T>, b: Seq<T>)
    ensures
        covered(a + b) == covered(a).union(covered(b)),
{
    assert forall|p: int| covered(a + b).contains(p) implies #[trigger] covered(a).union(
        covered(b),
    ).contains(p) by {
        let i = choose|i: int| 0 <= i < (a + b).len() && holds(#[trigger] (a + b)[i], p);
        if i < a.len() {
            assert(holds(a[i], p));
        } else {
            assert(holds(b[i - a.len()], p));
        }
    }
    assert forall|p: int| covered(a).union(covered(b)).contains(p) implies #[trigger] covered(
        a + b,
    ).contains(p) by {
        if covered(a).contains(p) {
            let i = choose|i: int| 0 <= i < a.len() && holds(#[trigger] a[i], p);
            assert(holds((a + b)[i], p));
        } else {
            let i = choose|i: int| 0 <= i < b.len() && holds(#[trigger] b[i], p);
            assert(holds((a + b)[i + a.len()], p));
        }
    }
    assert(covered(a + b) =~= covered(a).union(covered(b)));
}

/// A single interval holds the positions from its begin to its end.
pub proof fn lemma_covered_single<T: Interval>(t: T)
    ensures
        covered(seq![t]) == span(t.spec_begin() as int, interval_end(t) as int),
{
    assert forall|p: int| covered(seq![t]).contains(p) implies #[trigger] span(
        t.spec_begin() as int,
        interval_end(t) as int,
    ).contains(p) by {
        let i = choose|i: int| 0 <= i < 1 && holds(#[trigger] seq![t][i], p);
        assert(seq![t][i] == t);
    }
    assert forall|p: int| span(t.spec_begin() as int, interval_end(t) as int).contains(p) implies #[trigger] covered(
        seq![t],
    ).contains(p) by {
        assert(holds(seq![t][0], p));
    }
    assert(covered(seq![t]) =~= span(t.spec_begin() as int, interval_end(t) as int));
}

/// The empty intervals of a concatenation are those of either part.
pub proof fn lemma_marks_concat<T: Interval>(a: Seq<T>, b: Seq<T>)
    ensures
        marks(a + b) == marks(a).union(marks(b)),
{
    assert forall|p: int| marks(a + b).contains(p) implies #[trigger] marks(a).union(marks(b)).contains(
        p,
    ) by {
        let i = choose|i: int|
            0 <= i < (a + b).len() && !is_nonempty(#[trigger] (a + b)[i]) && (a + b)[i].spec_begin()
                == p;
        if i < a.len() {
            assert(a[i] == (a + b)[i]);
        } else {
            assert(b[i - a.len()] == (a + b)[i]);
        }
    }
    assert forall|p: int| marks(a).union(marks(b)).contains(p) implies #[trigger] marks(a + b).contains(
        p,
    ) by {
        if marks(a).contains(p) {
            let i = choose|i: int| 0 <= i < a.len() && !is_nonempty(#[trigger] a[i]) && a[i].spec_begin() == p;
            assert((a + b)[i] == a[i]);
        } else {
            let i = choose|i: int| 0 <= i < b.len() && !is_nonempty(#[trigger] b[i]) && b[i].spec_begin() == p;
            assert((a + b)[i + a.len()] == b[i]);
        }
    }
    assert(marks(a + b) =~= marks(a).union(marks(b)));
}

/// A non-empty interval marks nothing.
pub proof fn lemma_marks_single_nonempty<T: Interval>(t: T)
    requires
        is_nonempty(t),
    ensures
        marks(seq![t]) == Set::<int>::empty(),
{
    assert(marks(seq![t]) =~= Set::<int>::empty());
}

/// Two normalized sequences, each interval of the first beginning before and (when non-empty)
/// ending before every interval of the second, make a normalized sequence.
pub proof fn lemma_normalized_concat<T: Interval>(a: Seq<T>, b: Seq<T>)
    requires
        normalized(a),
        normalized(b),
        forall|i: int, j: int|
            0 <= i < a.len() && 0 <= j < b.len() ==> #[trigger] a[i].spec_begin() < #[trigger] b[j].spec_begin(),
        forall|i: int, j: int|
            0 <= i < a.len() && 0 <= j < b.len() && is_nonempty(#[trigger] a[i]) ==> interval_end(a[i])
                < (#[trigger] b[j]).spec_begin(),
    ensures
        normalized(a + b),
{
    let s = a + b;
    assert forall|i: int, j: int| 0 <= i < j < s.len() implies #[trigger] s[i].spec_begin()
        < #[trigger] s[j].spec_begin() by {
        if j < a.len() {
            assert(s[i] == a[i] && s[j] == a[j]);
        } else if i >= a.len() {
            assert(s[i] == b[i - a.len()] && s[j] == b[j - a.len()]);
        } else {
            assert(s[i] == a[i] && s[j] == b[j - a.len()]);
        }
    }
    assert forall|i: int, j: int|
        0 <= i < j < s.len() && is_nonempty(#[trigger] s[i]) implies interval_end(s[i])
            < (#[trigger] s[j]).spec_begin() by {
        if j < a.len() {
            assert(s[i] == a[i] && s[j] == a[j]);
        } else if i >= a.len() {
            assert(s[i] == b[i - a.len()] && s[j] == b[j - a.len()]);
        } else {
            assert(s[i] == a[i] && s[j] == b[j - a.len()]);
        }
    }
}

/// Parts of a normalized sequence are normalized.
pub proof fn lemma_normalized_subrange<T: Interval>(s: Seq<T>, lo: int, hi: int)
    requires
        normalized(s),
        0 <= lo <= hi <= s.len(),
    ensures
        normalized(s.subrange(lo, hi)),
{
    let t = s.subrange(lo, hi);
    assert forall|i: int, j: int| 0 <= i < j < t.len() implies #[trigger] t[i].spec_begin()
        < #[trigger] t[j].spec_begin() by {
        assert(t[i] == s[i + lo] && t[j] == s[j + lo]);
    }
    assert forall|i: int, j: int|
        0 <= i < j < t.len() && is_nonempty(#[trigger] t[i]) implies interval_end(t[i])
            < (#[trigger] t[j]).spec_begin() by {
        assert(t[i] == s[i + lo] && t[j] == s[j + lo]);
    }
}

/// In a normalized sequence, no non-empty interval touches the point of an empty one.
pub proof fn lemma_marks_untouched<T: Interval>(s: Seq<T>, p: int)
    requires
        normalized(s),
        marks(s).contains(p),
    ensures
        !touched_by_nonempty(s, p),
{
    let i = choose|i: int| 0 <= i < s.len() && !is_nonempty(#[trigger] s[i]) && s[i].spec_begin() == p;
    if touched_by_nonempty(s, p) {
        let t = choose|t: int| 0 <= t < s.len() && is_nonempty(s[t]) && touches(#[trigger] s[t], p);
        if t < i {
            assert(interval_end(s[t]) < s[i].spec_begin());
        } else if t > i {
            assert(s[i].spec_begin() < s[t].spec_begin());
        }
    }
}

/// In a normalized sequence, the last interval beginning at or before a point touches it
/// exactly when some interval does.
pub proof fn lemma_touched_by_last_leq<T: Interval>(s: Seq<T>, k: int, p: int)
    requires
        normalized(s),
        0 <= k <= s.len(),
        forall|i: int| 0 <= i < k ==> #[trigger] s[i].spec_begin() <= p,
        forall|i: int| k <= i < s.len() ==> #[trigger] s[i].spec_begin() > p,
    ensures
        touched(s, p) == (k > 0 && touches(s[k - 1], p)),
{
    if touched(s, p) {
        let j = choose|j: int| 0 <= j < s.len() && touches(#[trigger] s[j], p);
        assert(j < k);
        if j < k - 1 {
            if is_nonempty(s[j]) {
                assert(interval_end(s[j]) < s[k - 1].spec_begin());
            } else {
                assert(s[j].spec_begin() < s[k - 1].spec_begin());
            }
        }
    }
    if k > 0 && touches(s[k - 1], p) {
        assert(touches(s[k - 1], p));
    }
}

/// A set of intervals kept normalized: inserting a non-empty interval merges it with every
/// interval it overlaps or touches, and an empty interval is only kept where no other
/// interval touches it.
pub struct IntervalSet<T: Interval> {
    intervals: Vec<T>,
}

/// The intervals kept before the merged interval, the merged interval, and the intervals
/// kept after it, form a normalized sequence that covers the old points and the new
/// interval, and keeps the old marks that no non-empty interval touches.
#[verifier::rlimit(40)]
proof fn lemma_merged_insert<T: Interval>(s: Seq<T>, k: int, l: Seq<T>, m: T, m0: T, g: Seq<T>, j: int, x: T)
    requires
        normalized(s),
        0 <= k <= s.len(),
        g == s.skip(k),
        0 <= j <= g.len(),
        l.len() <= k,
        normalized(l),
        forall|i: int| 0 <= i < l.len() ==> #[trigger] l[i] == s[i],
        forall|i: int|
            0 <= i < l.len() ==> #[trigger] l[i].spec_begin() < m0.spec_begin() && (is_nonempty(l[i])
                ==> interval_end(l[i]) < m0.spec_begin()),
        is_nonempty(m),
        m.spec_begin() == m0.spec_begin(),
        m0.spec_begin() <= x.spec_begin(),
        forall|t: int| 0 <= t < g.len() ==> #[trigger] g[t].spec_begin() >= x.spec_begin(),
        forall|t: int| 0 <= t < j ==> #[trigger] g[t].spec_begin() <= interval_end(m),
        j < g.len() ==> !touches(m, g[j].spec_begin() as int),
        covered(l).union(span(m0.spec_begin() as int, interval_end(m0) as int)) == covered(s.take(k)).union(
            span(x.spec_begin() as int, interval_end(x) as int),
        ),
        span(m.spec_begin() as int, interval_end(m) as int) == span(
            m0.spec_begin() as int,
            interval_end(m0) as int,
        ).union(covered(g.take(j))),
        marks(l) == marks(s.take(k)),
    ensures
        normalized(l + seq![m] + g.skip(j)),
        covered(l + seq![m] + g.skip(j)) == covered(s).union(span(x.spec_begin() as int, interval_end(x) as int)),
        marks(l + seq![m] + g.skip(j)) == untouched_marks(marks(s), l + seq![m] + g.skip(j)),
{
    let gt = g.take(j);
    let gs = g.skip(j);
    let r = l + seq![m] + g.skip(j);
    assert(r =~= l + seq![m] + gs);
    assert(g =~= gt + gs);
    // the merged interval is non-empty
    assert(is_nonempty(m));
    // normalized
    lemma_normalized_concat(l, seq![m]);
    lemma_normalized_subrange(g, j as int, g.len() as int);
    assert(gs =~= g.subrange(j as int, g.len() as int));
    assert forall|i: int, t: int|
        0 <= i < (l + seq![m]).len() && 0 <= t < gs.len() implies #[trigger] (l + seq![m])[i].spec_begin()
            < #[trigger] gs[t].spec_begin() && (is_nonempty((l + seq![m])[i]) ==> interval_end(
            (l + seq![m])[i],
        ) < gs[t].spec_begin()) by {
        assert(gs[t] == g[j + t]);
        assert(g[j + t] == s[k + j + t]);
        if i < l.len() {
            assert((l + seq![m])[i] == s[i]);
        } else {
            assert((l + seq![m])[i] == m);
            if t > 0 {
                assert(g[j as int].spec_begin() < g[j + t].spec_begin());
            }
        }
    }
    lemma_normalized_concat(l + seq![m], gs);
    // covered
    assert(s =~= s.take(k) + g);
    lemma_covered_concat(l, seq![m]);
    lemma_covered_concat(l + seq![m], gs);
    lemma_covered_single(m);
    lemma_covered_concat(gt, gs);
    lemma_covered_concat(s.take(k), g);
    let sx = span(x.spec_begin() as int, interval_end(x) as int);
    let sm0 = span(m0.spec_begin() as int, interval_end(m0) as int);
    assert(covered(r) =~= covered(l).union(sm0).union(covered(gt)).union(covered(gs)));
    assert(covered(r) =~= covered(s.take(k)).union(sx).union(covered(gt)).union(covered(gs)));
    assert(covered(r) =~= covered(s).union(sx));
    // marks
    lemma_marks_concat(l, seq![m]);
    lemma_marks_concat(l + seq![m], gs);
    lemma_marks_single_nonempty(m);
    lemma_marks_concat(gt, gs);
    lemma_marks_concat(s.take(k as int), g);
    assert forall|p: int| marks(r).contains(p) implies #[trigger] untouched_marks(marks(s), r).contains(p) by {
        lemma_marks_untouched(r, p);
    }
    assert forall|p: int| untouched_marks(marks(s), r).contains(p) implies #[trigger] marks(r).contains(p) by {
        if marks(gt).contains(p) {
            let t = choose|t: int| 0 <= t < gt.len() && !is_nonempty(#[trigger] gt[t]) && gt[t].spec_begin() == p;
            assert(gt[t] == g[t]);
            assert(r[l.len() as int] == m);
            assert(touches(r[l.len() as int], p));
        }
    }
    assert(marks(r) =~= untouched_marks(marks(s), r));
}

/// The interval that the merge starts from holds the positions of `x` and of the interval
/// before it that it was merged with, if any.
proof fn lemma_merged_start<T: Interval>(s: Seq<T>, k: int, l: Seq<T>, m0: T, x: T, merged_with_lt: bool)
    requires
        0 <= k <= s.len(),
        merged_with_lt ==> k > 0 && l.len() == k - 1 && span(m0.spec_begin() as int, interval_end(m0) as int)
            == span(x.spec_begin() as int, interval_end(x) as int).union(
            span(s[k - 1].spec_begin() as int, interval_end(s[k - 1]) as int),
        ),
        !merged_with_lt ==> l.len() == k && m0 == x,
    ensures
        span(m0.spec_begin() as int, interval_end(m0) as int) == span(
            x.spec_begin() as int,
            interval_end(x) as int,
        ).union(covered(s.subrange(l.len() as int, k))),
{
    if merged_with_lt {
        assert(s.subrange(l.len() as int, k) =~= seq![s[k - 1]]);
        lemma_covered_single(s[k - 1]);
    } else {
        assert(covered(s.subrange(l.len() as int, k)) =~= Set::<int>::empty());
    }
    assert(span(m0.spec_begin() as int, interval_end(m0) as int) =~= span(
        x.spec_begin() as int,
        interval_end(x) as int,
    ).union(covered(s.subrange(l.len() as int, k))));
}

/// The kept prefix, the merged interval and the kept suffix replace the intervals between them.
proof fn lemma_merged_at<T: Interval>(s: Seq<T>, k: int, l: Seq<T>, m: T, m0: T, g: Seq<T>, j: int, x: T)
    requires
        0 <= l.len() <= k <= s.len(),
        l == s.take(l.len() as int),
        g == s.skip(k),
        0 <= j <= g.len(),
        is_nonempty(m),
        span(m0.spec_begin() as int, interval_end(m0) as int) == span(
            x.spec_begin() as int,
            interval_end(x) as int,
        ).union(covered(s.subrange(l.len() as int, k))),
        span(m.spec_begin() as int, interval_end(m) as int) == span(
            m0.spec_begin() as int,
            interval_end(m0) as int,
        ).union(covered(g.take(j))),
    ensures
        merged_at(s, x, l + seq![m] + g.skip(j), l.len() as int, k + j, m),
{
    let k1 = l.len() as int;
    let k2 = k + j;
    assert(s.subrange(k1, k2) =~= s.subrange(k1, k) + g.take(j));
    lemma_covered_concat(s.subrange(k1, k), g.take(j));
    assert(span(m.spec_begin() as int, interval_end(m) as int) =~= span(
        x.spec_begin() as int,
        interval_end(x) as int,
    ).union(covered(s.subrange(k1, k2))));
    assert(g.skip(j) =~= s.skip(k2));
}

impl<T: Interval> IntervalSet<T> {
    /// The intervals, ordered by their beginnings.
    pub closed spec fn view(&self) -> Seq<T> {
        self.intervals@
    }

    pub closed spec fn wf(&self) -> bool {
        normalized(self.intervals@)
    }

    #[must_use]
    pub fn new() -> (res: Self)
        ensures
            res.wf(),
            res@ == Seq::<T>::empty(),
    {
        IntervalSet { intervals: Vec::new() }
    }

    #[must_use]
    pub fn len(&self) -> (res: usize)
        ensures
            res == self@.len(),
    {
        self.intervals.len()
    }

    #[must_use]
    pub fn is_empty(&self) -> (res: bool)
        ensures
            res == (self@.len() == 0),
    {
        self.intervals.len() == 0
    }

    pub fn clear(&mut self)
        ensures
            final(self).wf(),
            final(self)@ == Seq::<T>::empty(),
    {
        self.intervals.clear();
    }

    /// The interval that begins first.
    #[must_use]
    pub fn first(&self) -> (res: Option<&T>)
        ensures
            self@.len() == 0 ==> res is None,
            self@.len() > 0 ==> res == Some(&self@[0]),
    {
        if self.intervals.len() == 0 {
            None
        } else {
            Some(&self.intervals[0])
        }
    }

    /// The interval that begins last.
    #[must_use]
    pub fn last(&self) -> (res: Option<&T>)
        ensures
            self@.len() == 0 ==> res is None,
            self@.len() > 0 ==> res == Some(&self@.last()),
    {
        let n = self.intervals.len();
        if n == 0 {
            None
        } else {
            Some(&self.intervals[n - 1])
        }
    }

    pub fn pop_first(&mut self) -> (res: Option<T>)
        requires
            old(self).wf(),
        ensures
            final(self).wf(),
            old(self)@.len() == 0 ==> res is None && final(self)@ == old(self)@,
            old(self)@.len() > 0 ==> res == Some(old(self)@[0]) && final(self)@ == old(self)@.drop_first(),
    {
        if self.intervals.len() == 0 {
            None
        } else {
            let first = self.intervals.remove(0);
            proof {
                assert(self.intervals@ =~= old(self)@.drop_first());
                assert forall|i: int, j: int|
                    0 <= i < j < self.intervals@.len() implies #[trigger] self.intervals@[i].spec_begin()
                        < #[trigger] self.intervals@[j].spec_begin() by {
                    assert(self.intervals@[i] == old(self)@[i + 1]);
                    assert(self.intervals@[j] == old(self)@[j + 1]);
                }
                assert forall|i: int, j: int|
                    0 <= i < j < self.intervals@.len() && is_nonempty(
                        #[trigger] self.intervals@[i],
                    ) implies interval_end(self.intervals@[i]) < (
                    #[trigger] self.intervals@[j]).spec_begin() by {
                    assert(self.intervals@[i] == old(self)@[i + 1]);
                    assert(self.intervals@[j] == old(self)@[j + 1]);
                }
            }
            Some(first)
        }
    }

    pub fn pop_last(&mut self) -> (res: Option<T>)
        requires
            old(self).wf(),
        ensures
            final(self).wf(),
            old(self)@.len() == 0 ==> res is None && final(self)@ == old(self)@,
            old(self)@.len() > 0 ==> res == Some(old(self)@.last()) && final(self)@ == old(self)@.drop_last(),
    {
        let res = self.intervals.pop();
        proof {
            assert forall|i: int, j: int|
                0 <= i < j < self.intervals@.len() implies #[trigger] self.intervals@[i].spec_begin()
                    < #[trigger] self.intervals@[j].spec_begin() by {
                assert(self.intervals@[i] == old(self)@[i]);
                assert(self.intervals@[j] == old(self)@[j]);
            }
            assert forall|i: int, j: int|
                0 <= i < j < self.intervals@.len() && is_nonempty(
                    #[trigger] self.intervals@[i],
                ) implies interval_end(self.intervals@[i]) < (
                #[trigger] self.intervals@[j]).spec_begin() by {
                assert(self.intervals@[i] == old(self)@[i]);
                assert(self.intervals@[j] == old(self)@[j]);
            }
        }
        res
    }

    /// The number of intervals that begin before `point` (`inclusive`: at or before it).
    fn count_begin_before(&self, point: usize, inclusive: bool) -> (k: usize)
        requires
            self.wf(),
        ensures
            k <= self@.len(),
            forall|i: int|
                0 <= i < k ==> if inclusive {
                    #[trigger] self@[i].spec_begin() <= point
                } else {
                    self@[i].spec_begin() < point
                },
            forall|i: int|
                k <= i < self@.len() ==> if inclusive {
                    #[trigger] self@[i].spec_begin() > point
                } else {
                    self@[i].spec_begin() >= point
                },
    {
        let mut k: usize = 0;
        while k < self.intervals.len()
            invariant
                0 <= k <= self.intervals@.len(),
                normalized(self.intervals@),
                forall|i: int|
                    0 <= i < k ==> if inclusive {
                        #[trigger] self.intervals@[i].spec_begin() <= point
                    } else {
                        self.intervals@[i].spec_begin() < point
                    },
            decreases self.intervals@.len() - k,
        {
            let b = self.intervals[k].begin();
            let before = if inclusive {
                b <= point
            } else {
                b < point
            };
            if !before {
                proof {
                    assert forall|i: int| k <= i < self.intervals@.len() implies if inclusive {
                        #[trigger] self.intervals@[i].spec_begin() > point
                    } else {
                        self.intervals@[i].spec_begin() >= point
                    } by {
                        if i > k {
                            assert(self.intervals@[k as int].spec_begin() < self.intervals@[i].spec_begin());
                        }
                    }
                }
                return k;
            }
            k = k + 1;
        }
        k
    }

    /// Whether some interval of the set touches `point` (holds it or ends at it).
    pub fn is_touching_or_contains(&self, point: &usize) -> (res: bool)
        requires
            self.wf(),
        ensures
            res == touched(self@, *point as int),
    {
        let k = self.count_begin_before(*point, true);
        proof {
            lemma_touched_by_last_leq(self@, k as int, *point as int);
        }
        if k == 0 {
            false
        } else {
            self.intervals[k - 1].is_touching_or_contains(point)
        }
    }

    /// The intervals that begin before `point`, and those that begin at or after it.
    pub fn split(self, point: &usize) -> (res: (Self, Self))
        requires
            self.wf(),
        ensures
            res.0.wf(),
            res.1.wf(),
            res.0@ + res.1@ == self@,
            forall|i: int| 0 <= i < res.0@.len() ==> #[trigger] res.0@[i].spec_begin() < *point,
            forall|i: int| 0 <= i < res.1@.len() ==> #[trigger] res.1@[i].spec_begin() >= *point,
    {
        let k = self.count_begin_before(*point, false);
        let ghost s = self@;
        let mut lt_intervals = self.intervals;
        let geq_intervals = lt_intervals.split_off(k);
        proof {
            lemma_normalized_subrange(s, 0, k as int);
            lemma_normalized_subrange(s, k as int, s.len() as int);
            assert(lt_intervals@ + geq_intervals@ =~= s);
            assert forall|i: int| 0 <= i < geq_intervals@.len() implies #[trigger] geq_intervals@[i].spec_begin() >= *point by {
                assert(geq_intervals@[i] == s[i + k]);
            }
        }
        (IntervalSet { intervals: lt_intervals }, IntervalSet { intervals: geq_intervals })
    }

    fn insert_empty_interval(&mut self, empty_interval: T)
        requires
            old(self).wf(),
            !is_nonempty(empty_interval),
        ensures
            final(self).wf(),
            touched(old(self)@, empty_interval.spec_begin() as int) ==> final(self)@ == old(self)@,
            !touched(old(self)@, empty_interval.spec_begin() as int) ==> {
                &&& covered(final(self)@) == covered(old(self)@)
                &&& marks(final(self)@) == marks(old(self)@).insert(empty_interval.spec_begin() as int)
                &&& exists|k: int| #[trigger] inserted_at(old(self)@, empty_interval, final(self)@, k)
            },
    {
        let begin = empty_interval.begin();
        if self.is_touching_or_contains(&begin) {
            return;
        }
        let k = self.count_begin_before(begin, false);
        let ghost s = self@;
        self.intervals.insert(k, empty_interval);
        proof {
            let x = empty_interval;
            let a = s.take(k as int);
            let c = s.skip(k as int);
            assert(s =~= a + c);
            assert(self.intervals@ =~= a + seq![x] + c);
            lemma_normalized_subrange(s, 0, k as int);
            lemma_normalized_subrange(s, k as int, s.len() as int);
            assert(s.take(k as int) =~= s.subrange(0, k as int));
            assert(s.skip(k as int) =~= s.subrange(k as int, s.len() as int));
            // no interval of `s` touches `begin`; those after `k` begin after it
            assert forall|j: int| 0 <= j < c.len() implies #[trigger] c[j].spec_begin() > begin by {
                assert(c[j] == s[j + k]);
                if c[j].spec_begin() == begin {
                    assert(touches(s[j + k], begin as int));
                }
            }
            assert forall|i: int| 0 <= i < a.len() && is_nonempty(#[trigger] a[i]) implies interval_end(a[i]) < begin by {
                assert(a[i] == s[i]);
                if interval_end(a[i]) >= begin {
                    assert(touches(s[i], begin as int));
                }
            }
            lemma_normalized_concat(a, seq![x]);
            assert forall|i: int, j: int|
                0 <= i < (a + seq![x]).len() && 0 <= j < c.len() implies #[trigger] (a + seq![x])[i].spec_begin()
                    < #[trigger] c[j].spec_begin() by {
                if i < a.len() {
                    assert((a + seq![x])[i] == s[i]);
                    assert(c[j] == s[j + k]);
                }
            }
            assert forall|i: int, j: int|
                0 <= i < (a + seq![x]).len() && 0 <= j < c.len() && is_nonempty(
                    #[trigger] (a + seq![x])[i],
                ) implies interval_end((a + seq![x])[i]) < (#[trigger] c[j]).spec_begin() by {
                assert((a + seq![x])[i] == s[i]);
                assert(c[j] == s[j + k]);
            }
            lemma_normalized_concat(a + seq![x], c);
            lemma_covered_concat(a, seq![x]);
            lemma_covered_concat(a + seq![x], c);
            lemma_covered_concat(a, c);
            lemma_covered_single(x);
            lemma_marks_concat(a, seq![x]);
            lemma_marks_concat(a + seq![x], c);
            lemma_marks_concat(a, c);
            assert(marks(seq![x]).contains(begin as int)) by {
                assert(seq![x][0] == x);
            }
            assert forall|p: int| marks(seq![x]).contains(p) implies p == begin as int by {
                let i = choose|i: int| 0 <= i < 1 && !is_nonempty(#[trigger] seq![x][i]) && seq![x][i].spec_begin() == p;
                assert(seq![x][i] == x);
            }
            assert(marks(seq![x]) =~= set![begin as int]);
            assert(span(begin as int, interval_end(x) as int) =~= Set::<int>::empty());
            assert(covered(self.intervals@) =~= covered(s));
            assert(marks(self.intervals@) =~= marks(s).insert(begin as int));
            assert(inserted_at(s, x, self.intervals@, k as int));
        }
    }

    #[verifier::rlimit(100)]
    fn insert_non_empty_interval(&mut self, interval: T)
        requires
            old(self).wf(),
            is_nonempty(interval),
        ensures
            final(self).wf(),
            covered(final(self)@) == covered(old(self)@).union(
                span(interval.spec_begin() as int, interval_end(interval) as int),
            ),
            marks(final(self)@) == untouched_marks(marks(old(self)@), final(self)@),
            exists|k1: int, k2: int, m: T| #[trigger] merged_at(old(self)@, interval, final(self)@, k1, k2, m),
    {
        let ghost s = self@;
        let ghost x = interval;
        let bx = interval.begin();
        let k = self.count_begin_before(bx, false);
        let mut geq = self.intervals.split_off(k);
        let ghost g = geq@;
        proof {
            assert(self.intervals@ =~= s.take(k as int));
            assert(g =~= s.skip(k as int));
            assert(s =~= s.take(k as int) + g);
            lemma_normalized_subrange(s, 0, k as int);
            lemma_normalized_subrange(s, k as int, s.len() as int);
            assert(s.take(k as int) =~= s.subrange(0, k as int));
            assert(g =~= s.subrange(k as int, s.len() as int));
        }
        let mut merged = interval;
        let mut merged_with_lt = false;
        if k > 0 {
            let touching = self.intervals[k - 1].is_touching_or_contains(&bx);
            if touching {
                merged.expand_to_cover(&self.intervals[k - 1]);
                self.intervals.pop();
                merged_with_lt = true;
            }
        }
        let ghost l = self.intervals@;
        let ghost m0 = merged;
        proof {
            let t = s.take(k as int);
            lemma_covered_single(x);
            lemma_covered_single(m0);
            if merged_with_lt {
                let y = s[k - 1];
                assert(t =~= l + seq![y]);
                assert(is_nonempty(y));
                lemma_covered_concat(l, seq![y]);
                lemma_covered_single(y);
                lemma_marks_concat(l, seq![y]);
                lemma_marks_single_nonempty(y);
                assert(span(m0.spec_begin() as int, interval_end(m0) as int) =~= span(
                    bx as int,
                    interval_end(x) as int,
                ).union(span(y.spec_begin() as int, interval_end(y) as int)));
                assert(covered(l).union(span(m0.spec_begin() as int, interval_end(m0) as int))
                    =~= covered(t).union(span(bx as int, interval_end(x) as int)));
                assert(marks(l) =~= marks(t));
                assert forall|i: int| 0 <= i < l.len() implies #[trigger] l[i].spec_begin() < m0.spec_begin()
                    && (is_nonempty(l[i]) ==> interval_end(l[i]) < m0.spec_begin()) by {
                    assert(l[i] == s[i]);
                }
            } else {
                assert(l == t);
                assert forall|i: int| 0 <= i < l.len() implies #[trigger] l[i].spec_begin() < m0.spec_begin()
                    && (is_nonempty(l[i]) ==> interval_end(l[i]) < m0.spec_begin()) by {
                    assert(l[i] == s[i]);
                    if i < k - 1 {
                        assert(s[i].spec_begin() < s[k - 1].spec_begin());
                    }
                }
            }
            lemma_normalized_subrange(s, 0, l.len() as int);
            assert(l =~= s.subrange(0, l.len() as int));
            lemma_merged_start(s, k as int, l, m0, x, merged_with_lt);
        }
        let mut j: usize = 0;
        loop
            invariant
                0 <= j <= g.len(),
                geq@ == g,
                self.intervals@ == l,
                merged.spec_begin() == m0.spec_begin(),
                is_nonempty(merged),
                m0.spec_begin() <= bx,
                interval_end(merged) >= interval_end(m0),
                interval_end(m0) >= interval_end(x),
                forall|t: int| 0 <= t < g.len() ==> #[trigger] g[t].spec_begin() >= bx,
                span(merged.spec_begin() as int, interval_end(merged) as int) == span(
                    m0.spec_begin() as int,
                    interval_end(m0) as int,
                ).union(covered(g.take(j as int))),
                forall|t: int| 0 <= t < j ==> #[trigger] g[t].spec_begin() <= interval_end(merged),
            ensures
                0 <= j <= g.len(),
                j < g.len() ==> !touches(merged, g[j as int].spec_begin() as int),
            decreases g.len() - j,
        {
            if j >= geq.len() {
                break;
            }
            let b = geq[j].begin();
            if !merged.is_touching_or_contains(&b) {
                break;
            }
            let ghost before = merged;
            merged.expand_to_cover(&geq[j]);
            proof {
                let y = g[j as int];
                assert(g.take(j + 1) =~= g.take(j as int) + seq![y]);
                lemma_covered_concat(g.take(j as int), seq![y]);
                lemma_covered_single(y);
                assert(span(merged.spec_begin() as int, interval_end(merged) as int) =~= span(
                    before.spec_begin() as int,
                    interval_end(before) as int,
                ).union(span(y.spec_begin() as int, interval_end(y) as int)));
                assert(span(merged.spec_begin() as int, interval_end(merged) as int) =~= span(
                    m0.spec_begin() as int,
                    interval_end(m0) as int,
                ).union(covered(g.take(j + 1))));
            }
            j = j + 1;
        }
        let mut rest = geq.split_off(j);
        let ghost m = merged;
        let ghost rest_view = rest@;
        self.intervals.push(merged);
        self.intervals.append(&mut rest);
        proof {
            assert(rest_view =~= g.skip(j as int)) by {
                assert(g.subrange(j as int, g.len() as int) =~= g.skip(j as int));
            }
            assert(self.intervals@ =~= l + seq![m] + g.skip(j as int));
            lemma_merged_insert(s, k as int, l, m, m0, g, j as int, x);
            lemma_merged_at(s, k as int, l, m, m0, g, j as int, x);
            assert(merged_at(s, x, self.intervals@, l.len() as int, k + j, m));
            assert(merged_at(old(self)@, interval, self@, l.len() as int, k + j, m));
        }
    }

    /// Inserts an interval. A non-empty interval is merged with every interval that it
    /// overlaps or touches; an empty interval is dropped when some interval touches its point.
    pub fn insert(&mut self, interval: T) -> (res: &mut Self)
        requires
            old(self).wf(),
        ensures
            res.wf(),
            *final(self) == *final(res),
            is_nonempty(interval) ==> {
                &&& covered(res@) == covered(old(self)@).union(
                    span(interval.spec_begin() as int, interval_end(interval) as int),
                )
                &&& marks(res@) == untouched_marks(marks(old(self)@), res@)
                &&& exists|k1: int, k2: int, m: T| #[trigger] merged_at(old(self)@, interval, res@, k1, k2, m)
            },
            !is_nonempty(interval) && touched(old(self)@, interval.spec_begin() as int) ==> res@ == old(self)@,
            !is_nonempty(interval) && !touched(old(self)@, interval.spec_begin() as int) ==> {
                &&& covered(res@) == covered(old(self)@)
                &&& marks(res@) == marks(old(self)@).insert(interval.spec_begin() as int)
                &&& exists|k: int| #[trigger] inserted_at(old(self)@, interval, res@, k)
            },
    {
        if interval.is_empty() {
            self.insert_empty_interval(interval);
        } else {
            self.insert_non_empty_interval(interval);
        }
        self
    }

    /// The intervals, ordered by their beginnings.
    pub fn as_slice(&self) -> (res: &[T])
        ensures
            res@ == self@,
    {
        self.intervals.as_slice()
    }

    /// The intervals, ordered by their beginnings.
    pub fn into_vec(self) -> (res: Vec<T>)
        ensures
            res@ == self@,
    {
        self.intervals
    }
}

} // verus!
