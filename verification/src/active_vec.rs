use vstd::prelude::*;
use vstd::arithmetic::div_mod::{
    lemma_add_mod_noop_right, lemma_fundamental_div_mod_converse_mod, lemma_small_mod,
    lemma_sub_mod_noop_right,
};

verus! {

/// The index reached by moving `amount` steps (backwards when negative) from `index`
/// in a cyclic sequence of `len` positions.
pub open spec fn cycled_index(index: int, amount: int, len: int) -> int {
    (index + amount) % len
}

/// Cycling by `a` and then by `b` is cycling by `a + b`.
pub proof fn lemma_cycle_compose(index: int, a: int, b: int, len: int)
    requires
        0 < len,
    ensures
        cycled_index(cycled_index(index, a, len), b, len) == cycled_index(index, a + b, len),
{
    lemma_add_mod_noop_right(b, index + a, len);
    assert(b + (index + a) == index + (a + b));
}

/// Cycling by `amount` and then by `-amount` comes back to the start, and so does
/// cycling once around the whole cycle.
pub proof fn lemma_cycle_inverse(index: int, amount: int, len: int)
    requires
        0 <= index < len,
    ensures
        cycled_index(cycled_index(index, amount, len), -amount, len) == index,
        cycled_index(index, len, len) == index,
{
    lemma_cycle_compose(index, amount, -amount, len);
    lemma_small_mod(index as nat, len as nat);
    lemma_fundamental_div_mod_converse_mod(index + len, len, 1, index);
}

/// Moves `index` by `amount` steps around a cycle of `len` positions.
pub fn cycle_index(index: usize, amount: isize, len: usize) -> (res: usize)
    requires
        index < len,
    ensures
        res == cycled_index(index as int, amount as int, len as int),
        res < len,
{
    if amount >= 0 {
        let m: usize = (amount as usize) % len;
        proof {
            lemma_add_mod_noop_right(index as int, amount as int, len as int);
        }
        if m < len - index {
            proof {
                lemma_small_mod((index + m) as nat, len as nat);
            }
            index + m
        } else {
            let res: usize = index - (len - m);
            proof {
                lemma_fundamental_div_mod_converse_mod(index + m, len as int, 1, res as int);
            }
            res
        }
    } else {
        let magnitude: usize = ((-(amount + 1)) as usize) + 1;
        let m: usize = magnitude % len;
        proof {
            lemma_sub_mod_noop_right(index as int, magnitude as int, len as int);
            assert(index as int + amount as int == index as int - magnitude as int);
        }
        if m <= index {
            proof {
                lemma_small_mod((index - m) as nat, len as nat);
            }
            index - m
        } else {
            let res: usize = index + (len - m);
            proof {
                lemma_fundamental_div_mod_converse_mod(index - m, len as int, -1, res as int);
            }
            res
        }
    }
}

/// A non-empty vector with one distinguished ("active") element.
pub struct ActiveVec<T> {
    active_index: usize,
    vec: Vec<T>,
}

impl<T> ActiveVec<T> {
    /// The elements, in order.
    pub closed spec fn elements(&self) -> Seq<T> {
        self.vec@
    }

    /// The position of the active element.
    pub closed spec fn spec_active_index(&self) -> nat {
        self.active_index as nat
    }

    /// The vector is never empty and the active index always points into it.
    pub open spec fn wf(&self) -> bool {
        &&& self.elements().len() > 0
        &&& self.spec_active_index() < self.elements().len()
    }

    pub fn new(item: T) -> (res: Self)
        ensures
            res.wf(),
            res.elements() == seq![item],
            res.spec_active_index() == 0,
    {
        let mut vec = Vec::new();
        vec.push(item);
        Self { active_index: 0, vec }
    }

    #[must_use]
    pub fn active_index(&self) -> (res: usize)
        ensures
            res == self.spec_active_index(),
    {
        self.active_index
    }

    #[must_use]
    pub fn as_slice(&self) -> (res: &[T])
        ensures
            res@ == self.elements(),
    {
        self.vec.as_slice()
    }

    pub fn as_slice_mut(&mut self) -> (res: &mut [T])
        ensures
            res@ == old(self).elements(),
            final(self).elements() == final(res)@,
            final(self).spec_active_index() == old(self).spec_active_index(),
    {
        self.vec.as_mut_slice()
    }

    #[must_use]
    pub fn active(&self) -> (res: &T)
        requires
            self.wf(),
        ensures
            *res == self.elements()[self.spec_active_index() as int],
    {
        &self.vec[self.active_index]
    }

    pub fn active_mut(&mut self) -> (res: &mut T)
        requires
            old(self).wf(),
        ensures
            *res == old(self).elements()[old(self).spec_active_index() as int],
            final(self).elements() == old(self).elements().update(
                old(self).spec_active_index() as int,
                *final(res),
            ),
            final(self).spec_active_index() == old(self).spec_active_index(),
            final(self).wf(),
    {
        let index = self.active_index;
        &mut self.vec[index]
    }

    /// Removes the active element unless it is the only one; the element before it
    /// (or the new first element) becomes active.
    pub fn remove_active(&mut self) -> (res: Option<T>)
        requires
            old(self).wf(),
        ensures
            final(self).wf(),
            old(self).elements().len() < 2 ==> res is None && *final(self) == *old(self),
            old(self).elements().len() >= 2 ==> {
                &&& res == Some(old(self).elements()[old(self).spec_active_index() as int])
                &&& final(self).elements() == old(self).elements().remove(
                    old(self).spec_active_index() as int,
                )
                &&& final(self).spec_active_index() == if old(self).spec_active_index() == 0 {
                    0
                } else {
                    (old(self).spec_active_index() - 1) as nat
                }
            },
    {
        if self.vec.len() < 2 {
            return None;
        }
        let element = self.vec.remove(self.active_index);
        self.active_index = self.active_index.saturating_sub(1);
        Some(element)
    }

    /// Appends an element and hands back its index and a reference to it.
    pub fn push(&mut self, item: T) -> (res: (usize, &mut T))
        requires
            old(self).wf(),
            old(self).elements().len() < usize::MAX,
        ensures
            res.0 == old(self).elements().len(),
            *res.1 == item,
            final(self).elements() == old(self).elements().push(*final(res.1)),
            final(self).spec_active_index() == old(self).spec_active_index(),
            final(self).wf(),
    {
        let index = self.vec.len();
        self.vec.push(item);
        (index, &mut self.vec[index])
    }

    /// Makes the element at `active_index` active when there is one; otherwise does nothing.
    pub fn set_active_index(&mut self, active_index: usize)
        requires
            old(self).wf(),
        ensures
            final(self).wf(),
            final(self).elements() == old(self).elements(),
            final(self).spec_active_index() == if active_index < old(self).elements().len() {
                active_index as nat
            } else {
                old(self).spec_active_index()
            },
    {
        if active_index < self.vec.len() {
            self.active_index = active_index;
        }
    }

    /// Moves the active index by `amount` positions, wrapping around at either end.
    pub fn cycle(&mut self, amount: isize) -> (res: &mut Self)
        requires
            old(self).wf(),
        ensures
            res.wf(),
            res.elements() == old(self).elements(),
            res.spec_active_index() == cycled_index(
                old(self).spec_active_index() as int,
                amount as int,
                old(self).elements().len() as int,
            ),
            *final(self) == *final(res),
    {
        self.active_index = cycle_index(self.active_index, amount, self.vec.len());
        self
    }

    pub fn cycle_next(&mut self) -> (res: &mut Self)
        requires
            old(self).wf(),
        ensures
            res.wf(),
            res.elements() == old(self).elements(),
            res.spec_active_index() == cycled_index(
                old(self).spec_active_index() as int,
                1,
                old(self).elements().len() as int,
            ),
            *final(self) == *final(res),
    {
        self.cycle(1)
    }

    pub fn cycle_prev(&mut self) -> (res: &mut Self)
        requires
            old(self).wf(),
        ensures
            res.wf(),
            res.elements() == old(self).elements(),
            res.spec_active_index() == cycled_index(
                old(self).spec_active_index() as int,
                -1,
                old(self).elements().len() as int,
            ),
            *final(self) == *final(res),
    {
        self.cycle(-1)
    }
}

} // verus!
