use vstd::prelude::*;
use crate::stack::Stack;

verus! {

/// A borrowing traversal over a stack's live elements, bottom of the
/// stack first. The cursor holds its own copy of the elements (they are
/// `Copy`), so it never mutates the stack it came from; its view is the
/// sequence of elements not yet yielded.
pub struct Iter<T: Copy> {
    /// The traversed elements, bottom of the stack first.
    items: Vec<T>,
    /// How many elements have been yielded so far.
    pos: usize,
}

impl<T: Copy> View for Iter<T> {
    type V = Seq<T>;

    closed spec fn view(&self) -> Seq<T> {
        if self.pos <= self.items@.len() {
            self.items@.skip(self.pos as int)
        } else {
            Seq::empty()
        }
    }
}

impl<T: Copy> Iter<T> {
    /// Yield the next element, front of the remaining sequence first,
    /// or `None` once every element has been yielded.
    pub fn next(&mut self) -> (r: Option<T>)
        ensures
            old(self)@.len() > 0 ==> r == Some::<T>(old(self)@.first())
                && final(self)@ == old(self)@.drop_first(),
            old(self)@.len() == 0 ==> r == None::<T>
                && final(self)@ == old(self)@,
    {
        if self.pos < self.items.len() {
            let v = self.items[self.pos];
            self.pos = self.pos + 1;
            proof {
                assert(self.items@.skip(self.pos as int)
                    =~= old(self).items@.skip(old(self).pos as int).drop_first());
            }
            Some(v)
        } else {
            None
        }
    }
}

/// A consuming-style traversal over a stack's live elements, bottom of
/// the stack first. Because elements are `Copy`, it yields copies and
/// leaves the stack it came from unchanged; its view is the sequence of
/// elements not yet yielded.
pub struct IntoIter<T: Copy> {
    /// The traversed elements, bottom of the stack first.
    items: Vec<T>,
    /// How many elements have been yielded so far.
    pos: usize,
}

impl<T: Copy> View for IntoIter<T> {
    type V = Seq<T>;

    closed spec fn view(&self) -> Seq<T> {
        if self.pos <= self.items@.len() {
            self.items@.skip(self.pos as int)
        } else {
            Seq::empty()
        }
    }
}

impl<T: Copy> IntoIter<T> {
    /// Yield the next element, front of the remaining sequence first,
    /// or `None` once every element has been yielded.
    pub fn next(&mut self) -> (r: Option<T>)
        ensures
            old(self)@.len() > 0 ==> r == Some::<T>(old(self)@.first())
                && final(self)@ == old(self)@.drop_first(),
            old(self)@.len() == 0 ==> r == None::<T>
                && final(self)@ == old(self)@,
    {
        if self.pos < self.items.len() {
            let v = self.items[self.pos];
            self.pos = self.pos + 1;
            proof {
                assert(self.items@.skip(self.pos as int)
                    =~= old(self).items@.skip(old(self).pos as int).drop_first());
            }
            Some(v)
        } else {
            None
        }
    }
}

impl<T: Copy, const N: usize> Stack<T, N> {
    /// Traverse the live elements in push order, without mutating the
    /// stack. Each call yields a fresh traversal.
    pub fn iter(&self) -> (it: Iter<T>)
        ensures
            it@ == self@,
    {
        let items = self.snapshot();
        proof {
            assert(items@.skip(0) =~= items@);
        }
        Iter { items, pos: 0 }
    }

    /// Traverse copies of the live elements in push order; the stack's
    /// own contents are left unchanged. Each call yields a fresh
    /// traversal.
    pub fn into_iter(&self) -> (it: IntoIter<T>)
        ensures
            it@ == self@,
    {
        let items = self.snapshot();
        proof {
            assert(items@.skip(0) =~= items@);
        }
        IntoIter { items, pos: 0 }
    }
}

} // verus!
