use vstd::prelude::*;
use vstd::std_specs::convert::FromSpec;
use crate::saturating::SaturatingSub;

verus! {

/// One of the two axes of a two-dimensional layout.
#[derive(Clone, Copy, Debug, PartialEq, Eq, Structural)]
pub enum Orientation {
    Horizontal,
    Vertical,
}

impl Orientation {
    /// The other orientation.
    pub open spec fn spec_toggled(self) -> Orientation {
        match self {
            Orientation::Horizontal => Orientation::Vertical,
            Orientation::Vertical => Orientation::Horizontal,
        }
    }

    #[must_use]
    pub fn toggled(&self) -> (res: Self)
        ensures
            res == self.spec_toggled(),
    {
        match self {
            Self::Horizontal => Self::Vertical,
            Self::Vertical => Self::Horizontal,
        }
    }

    pub fn toggle(&mut self)
        ensures
            *final(self) == old(self).spec_toggled(),
    {
        *self = self.toggled();
    }

    pub fn is_horizontal(&self) -> (res: bool)
        ensures
            res == (*self == Orientation::Horizontal),
    {
        match self {
            Self::Horizontal => true,
            Self::Vertical => false,
        }
    }

    pub fn is_vertical(&self) -> (res: bool)
        ensures
            res == (*self == Orientation::Vertical),
    {
        match self {
            Self::Horizontal => false,
            Self::Vertical => true,
        }
    }
}

/// Toggling twice gives back the orientation that was started from.
pub proof fn lemma_toggle_involutive(orientation: Orientation)
    ensures
        orientation.spec_toggled().spec_toggled() == orientation,
        orientation.spec_toggled() != orientation,
{
}

/// A point (or a size) with an `x` and a `y` coordinate.
#[derive(Clone, Copy, Debug, Default)]
pub struct Point<T> {
    pub x: T,
    pub y: T,
}

pub type PointU16 = Point<u16>;

pub type PointUsize = Point<usize>;

impl<T> Point<T> {
    /// The coordinate along the given orientation.
    pub open spec fn spec_get(self, orientation: Orientation) -> T {
        match orientation {
            Orientation::Horizontal => self.x,
            Orientation::Vertical => self.y,
        }
    }

    pub fn new(x: T, y: T) -> (res: Self)
        ensures
            res.x == x,
            res.y == y,
    {
        Self { x, y }
    }

    pub fn into_pair(self) -> (res: (T, T))
        ensures
            res == (self.x, self.y),
    {
        (self.x, self.y)
    }

    pub fn into_point<S: From<T>>(self) -> (res: Point<S>)
        ensures
            S::obeys_from_spec() ==> res.x == S::from_spec(self.x),
            S::obeys_from_spec() ==> res.y == S::from_spec(self.y),
    {
        Point { x: S::from(self.x), y: S::from(self.y) }
    }

    pub fn get(&self, orientation: Orientation) -> (res: &T)
        ensures
            *res == self.spec_get(orientation),
    {
        match orientation {
            Orientation::Horizontal => &self.x,
            Orientation::Vertical => &self.y,
        }
    }

    pub fn get_mut(&mut self, orientation: Orientation) -> (res: &mut T)
        ensures
            *res == old(self).spec_get(orientation),
            orientation == Orientation::Horizontal ==> final(self).x == *final(res)
                && final(self).y == old(self).y,
            orientation == Orientation::Vertical ==> final(self).y == *final(res)
                && final(self).x == old(self).x,
    {
        match orientation {
            Orientation::Horizontal => &mut self.x,
            Orientation::Vertical => &mut self.y,
        }
    }
}

impl<T: Copy + SaturatingSub> Point<T> {
    /// The coordinate-wise saturating difference `self - rhs`.
    #[must_use]
    pub fn saturating_sub(&self, rhs: &Self) -> (res: Self)
        ensures
            res.x == self.x.spec_saturating_sub(&rhs.x),
            res.y == self.y.spec_saturating_sub(&rhs.y),
    {
        let x = self.x.saturating_sub(&rhs.x);
        let y = self.y.saturating_sub(&rhs.y);
        Self::new(x, y)
    }
}

} // verus!
