use mkutils::{Interval, IntervalSet};

#[derive(Clone, Copy, Debug, PartialEq)]
struct Span {
    begin: usize,
    len: usize,
}

impl Interval for Span {
    // the two specification methods of the trait are plain methods once compiled
    fn spec_begin(&self) -> usize {
        self.begin
    }

    fn spec_len(&self) -> usize {
        self.len
    }

    fn begin(&self) -> usize {
        self.begin
    }

    fn len(&self) -> usize {
        self.len
    }

    fn expand_to_cover(&mut self, other: &Self) {
        let begin = self.begin.min(other.begin);
        let end = self.end().max(other.end());

        self.begin = begin;
        self.len = end - begin;
    }
}

fn span(begin: usize, len: usize) -> Span {
    Span { begin, len }
}

fn spans(set: &IntervalSet<Span>) -> Vec<(usize, usize)> {
    set.as_slice().iter().map(|s| (s.begin, s.len)).collect()
}

#[test]
fn overlapping_and_touching_intervals_merge() {
    let mut set = IntervalSet::new();

    set.insert(span(10, 5)).insert(span(0, 3)).insert(span(20, 2));
    assert_eq!(spans(&set), vec![(0, 3), (10, 5), (20, 2)]);

    // touches the end of [0, 3) and overlaps [10, 15)
    set.insert(span(3, 8));
    assert_eq!(spans(&set), vec![(0, 15), (20, 2)]);

    // touches [20, 22) at its beginning
    set.insert(span(15, 5));
    assert_eq!(spans(&set), vec![(0, 22)]);
    assert_eq!(set.len(), 1);
}

#[test]
fn empty_intervals_are_marks() {
    let mut set = IntervalSet::new();

    set.insert(span(5, 0));
    assert_eq!(spans(&set), vec![(5, 0)]);
    assert!(set.is_touching_or_contains(&5));
    assert!(!set.is_touching_or_contains(&6));

    // a mark touched by a non-empty interval is dropped by it
    set.insert(span(2, 3));
    assert_eq!(spans(&set), vec![(2, 3)]);

    // an empty interval touching an existing interval is not added
    set.insert(span(4, 0));
    assert_eq!(spans(&set), vec![(2, 3)]);

    set.insert(span(9, 0));
    assert_eq!(spans(&set), vec![(2, 3), (9, 0)]);
}

#[test]
fn split_first_last_pop() {
    let mut set = IntervalSet::new();

    set.insert(span(0, 1)).insert(span(4, 2)).insert(span(10, 3));
    assert_eq!(set.first(), Some(&span(0, 1)));
    assert_eq!(set.last(), Some(&span(10, 3)));

    let (before, after) = set.split(&4);
    assert_eq!(spans(&before), vec![(0, 1)]);
    assert_eq!(spans(&after), vec![(4, 2), (10, 3)]);

    let mut after = after;
    assert_eq!(after.pop_first(), Some(span(4, 2)));
    assert_eq!(after.pop_last(), Some(span(10, 3)));
    assert_eq!(after.pop_last(), None);
    assert!(after.is_empty());

    let mut before = before;
    before.clear();
    assert_eq!(before.into_vec(), Vec::new());
}

#[test]
fn interval_defaults() {
    let mut a = span(3, 4);

    assert_eq!(a.end(), 7);
    assert!(!a.is_empty());
    assert!(a.is_touching_or_contains(&7));
    assert!(!a.is_touching_or_contains(&8));
    a.expand_to_cover(&span(10, 1));
    assert_eq!(a, span(3, 8));
    assert_eq!(span(usize::MAX, 5).end(), usize::MAX);
}
