use vstd::prelude::*;

verus! {

/// The two ways a checked operation can be refused, both caller-contract
/// violations: a push on a full stack, or a pop on an empty one. Each
/// variant carries the capacity of the refusing stack as its diagnostic.
#[derive(Debug, Clone, Copy, PartialEq, Eq)]
pub enum StackError {
    /// A checked push found the stack already holding `capacity` elements.
    CapacityExceeded { capacity: usize },
    /// A checked pop found the stack holding no elements.
    Empty { capacity: usize },
}

/// A last-in-first-out container of at most `N` elements.
///
/// The view of a stack is the sequence of its live elements, bottom first;
/// its length never exceeds the capacity `N`, which is fixed by the type.
/// Elements are restricted to `Copy` types, so discarding live slots
/// (in `clear`, or when the stack is dropped) never skips any cleanup.
pub struct Stack<T: Copy, const N: usize> {
    /// The live slots, bottom of the stack first.
    items: Vec<T>,
}

impl<T: Copy, const N: usize> View for Stack<T, N> {
    type V = Seq<T>;

    closed spec fn view(&self) -> Seq<T> {
        self.items@
    }
}

impl<T: Copy, const N: usize> Stack<T, N> {
    /// The stack's invariant: the number of live slots never exceeds the
    /// capacity. Every constructor establishes it and every operation
    /// preserves it.
    pub open spec fn wf(&self) -> bool {
        self@.len() <= N
    }

    /// Make an empty stack.
    pub fn new() -> (r: Self)
        ensures
            r@ == Seq::<T>::empty(),
            r.wf(),
    {
        Stack { items: Vec::new() }
    }

    /// The number of live elements.
    pub fn len(&self) -> (l: usize)
        ensures
            l == self@.len(),
    {
        self.items.len()
    }

    /// Whether the stack holds no elements.
    pub fn is_empty(&self) -> (e: bool)
        ensures
            e == (self@.len() == 0),
    {
        self.items.len() == 0
    }

    /// The fixed maximum number of live elements.
    pub fn capacity(&mut self) -> (c: usize)
        ensures
            c == N,
            *final(self) == *old(self),
    {
        N
    }

    /// Move every element of `v` into a fresh stack, bottom first.
    /// The vector must fit within the capacity.
    pub fn from_vec(v: Vec<T>) -> (r: Self)
        requires
            v@.len() <= N,
        ensures
            r@ == v@,
            r.wf(),
    {
        Stack { items: v }
    }

    /// Push `v` on top of the stack. The caller must have established
    /// that a free slot remains; verified callers are held to that here.
    pub fn push_unchecked(&mut self, v: T)
        requires
            old(self)@.len() < N,
        ensures
            final(self)@ == old(self)@.push(v),
            final(self).wf(),
    {
        self.items.push(v);
    }

    /// Push `v` on top of the stack. Capacity exhaustion is a caller
    /// error, excluded by the precondition; `try_push` reports it
    /// as a recoverable value instead.
    pub fn push(&mut self, v: T)
        requires
            old(self)@.len() < N,
        ensures
            final(self)@ == old(self)@.push(v),
            final(self).wf(),
    {
        self.push_unchecked(v);
    }

    /// Make an attempt to push `v`: on a stack with a free slot it
    /// succeeds, and on a full one it returns `CapacityExceeded` and
    /// leaves the stack unchanged.
    pub fn try_push(&mut self, v: T) -> (r: Result<(), StackError>)
        ensures
            old(self)@.len() < N ==> r == Ok::<(), StackError>(())
                && final(self)@ == old(self)@.push(v),
            old(self)@.len() >= N ==> r == Err::<(), StackError>(
                StackError::CapacityExceeded { capacity: N },
            ) && final(self)@ == old(self)@,
            old(self).wf() ==> final(self).wf(),
    {
        if self.items.len() < N {
            self.push(v);
            Ok(())
        } else {
            Err(StackError::CapacityExceeded { capacity: N })
        }
    }

    /// Remove and return the top element. The caller must have
    /// established that the stack is not empty.
    pub fn pop_unchecked(&mut self) -> (v: T)
        requires
            old(self)@.len() > 0,
        ensures
            v == old(self)@.last(),
            final(self)@ == old(self)@.drop_last(),
    {
        let r = self.items.pop();
        r.unwrap()
    }

    /// Remove and return the top element. Popping an empty stack is a
    /// caller error, excluded by the precondition; `try_pop` reports it
    /// as a recoverable value instead.
    pub fn pop(&mut self) -> (v: T)
        requires
            old(self)@.len() > 0,
        ensures
            v == old(self)@.last(),
            final(self)@ == old(self)@.drop_last(),
    {
        self.pop_unchecked()
    }

    /// Make an attempt to pop: on a non-empty stack it returns the top
    /// element, and on an empty one it returns `Empty` and leaves the
    /// stack unchanged.
    pub fn try_pop(&mut self) -> (r: Result<T, StackError>)
        ensures
            old(self)@.len() > 0 ==> r == Ok::<T, StackError>(old(self)@.last())
                && final(self)@ == old(self)@.drop_last(),
            old(self)@.len() == 0 ==> r == Err::<T, StackError>(
                StackError::Empty { capacity: N },
            ) && final(self)@ == old(self)@,
            old(self).wf() ==> final(self).wf(),
    {
        if self.items.len() == 0 {
            Err(StackError::Empty { capacity: N })
        } else {
            Ok(self.pop())
        }
    }

    /// Discard every live element, leaving the stack empty. Elements are
    /// `Copy` and so trivially destructible: dropping the live slots here
    /// without per-slot cleanup cannot leak any resource.
    pub fn clear(&mut self)
        ensures
            final(self)@ == Seq::<T>::empty(),
            final(self).wf(),
    {
        self.items.clear();
    }

    /// Copy the live elements into a fresh vector, bottom first.
    pub(crate) fn snapshot(&self) -> (v: Vec<T>)
        ensures
            v@ == self@,
    {
        let mut v: Vec<T> = Vec::new();
        let mut i: usize = 0;
        while i < self.items.len()
            invariant
                i <= self.items@.len(),
                v@ == self.items@.subrange(0, i as int),
            decreases self.items@.len() - i,
        {
            proof {
                assert(self.items@.subrange(0, i as int).push(self.items@[i as int])
                    =~= self.items@.subrange(0, i as int + 1));
            }
            v.push(self.items[i]);
            i = i + 1;
        }
        proof {
            assert(v@ =~= self.items@);
        }
        v
    }
}

impl<T: Copy, const N: usize> Default for Stack<T, N> {
    /// Make a default, empty stack.
    fn default() -> (r: Self)
        ensures
            r@ == Seq::<T>::empty(),
            r.wf(),
    {
        Self::new()
    }
}

impl<T: Copy, const N: usize> Clone for Stack<T, N> {
    /// Duplicate the stack: the copy has the same length and the same
    /// elements in the same order, and shares no storage with the
    /// original.
    fn clone(&self) -> (r: Self)
        ensures
            r@ == self@,
    {
        Stack { items: self.snapshot() }
    }
}

} // verus!
