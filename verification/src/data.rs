//! A simple value container usable as a stack or a queue, with pops on
//! empty yielding zero.

use std::collections::VecDeque;
use vstd::prelude::*;

verus! {

/// Which end the container pops from.
#[derive(Debug, Clone, Copy, PartialEq, Eq, Structural)]
pub enum DataMode {
    /// First in, last out.
    Stack,
    /// First in, first out.
    Queue,
}

/// An ordered container of cells: pushed at the tail, popped at the tail
/// in stack mode or at the head in queue mode, yielding 0 when empty.
pub struct FungeData {
    /// The stored values, oldest first.
    pub inner: VecDeque<i32>,
    /// Which end pops take from.
    pub mode: DataMode,
}

impl FungeData {
    /// The stored values, oldest first.
    pub open spec fn view(&self) -> Seq<i32> {
        self.inner@
    }

    /// Whether pops take from the head.
    pub open spec fn is_queue(&self) -> bool {
        self.mode == DataMode::Queue
    }

    /// An empty container in stack mode.
    pub fn new() -> (r: FungeData)
        ensures
            r.view() == Seq::<i32>::empty(),
            !r.is_queue(),
    {
        FungeData { inner: VecDeque::new(), mode: DataMode::Stack }
    }

    /// Reset and clear all data; the mode returns to stack mode.
    pub fn clear(&mut self)
        ensures
            final(self).view() == Seq::<i32>::empty(),
            !final(self).is_queue(),
    {
        self.inner.clear();
        self.mode = DataMode::Stack;
    }

    /// Pop from the top of the stack or the start of the queue; 0 when
    /// empty.
    pub fn pop(&mut self) -> (r: i32)
        ensures
            r == crate::stack::pop_value(old(self).view(), old(self).is_queue()),
            final(self).view() == crate::stack::popped(old(self).view(), old(self).is_queue()),
            final(self).is_queue() == old(self).is_queue(),
            old(self).view().len() == 0 ==> r == 0,
    {
        match self.mode {
            DataMode::Stack => match self.inner.pop_back() {
                Some(v) => v,
                None => 0,
            },
            DataMode::Queue => match self.inner.pop_front() {
                Some(v) => v,
                None => 0,
            },
        }
    }

    /// Push onto the top of the stack or the end of the queue.
    pub fn push(&mut self, n: i32)
        ensures
            final(self).view() == old(self).view().push(n),
            final(self).is_queue() == old(self).is_queue(),
    {
        self.inner.push_back(n)
    }

    /// The number of values stored.
    pub fn len(&self) -> (r: usize)
        ensures
            r == self.view().len(),
    {
        self.inner.len()
    }

    /// First in, last out.
    pub fn stack_mode(&mut self)
        ensures
            final(self).view() == old(self).view(),
            !final(self).is_queue(),
    {
        self.mode = DataMode::Stack;
    }

    /// First in, first out.
    pub fn queue_mode(&mut self)
        ensures
            final(self).view() == old(self).view(),
            final(self).is_queue(),
    {
        self.mode = DataMode::Queue;
    }

    /// Rearrange the values by the permutation a factorial-base rank
    /// names, as the stack permutation opcode does.
    pub fn permute(&mut self, p: usize)
        requires
            old(self).view().len() <= 21,
        ensures
            final(self).view().len() == old(self).view().len(),
            crate::stack::lehmer_perm(p as nat, old(self).view().len() as nat).len() == old(
                self,
            ).view().len(),
            forall|i: int|
                0 <= i < old(self).view().len() ==> 0 <= #[trigger] crate::stack::lehmer_perm(
                    p as nat,
                    old(self).view().len() as nat,
                )[i] < old(self).view().len(),
            forall|i: int, j: int|
                0 <= i < j < old(self).view().len() ==> crate::stack::lehmer_perm(
                    p as nat,
                    old(self).view().len() as nat,
                )[i] != crate::stack::lehmer_perm(p as nat, old(self).view().len() as nat)[j],
            forall|i: int|
                0 <= i < final(self).view().len() ==> final(self).view()[i] == old(self).view()[
                    crate::stack::lehmer_perm(p as nat, old(self).view().len() as nat)[i]],
            final(self).view().to_multiset() == old(self).view().to_multiset(),
            final(self).is_queue() == old(self).is_queue(),
    {
        let mut s = crate::stack::FungeStack::new();
        let mut i: usize = 0;
        let n = self.inner.len();
        while i < n
            invariant
                i <= n,
                n == self.view().len(),
                s@ == self.view().subrange(0, i as int),
                !s.queue_mode,
                !s.invert_mode,
            decreases n - i,
        {
            s.push(*std::ops::Index::index(&self.inner, i));
            i += 1;
            proof {
                assert(s@ =~= self.view().subrange(0, i as int));
            }
        }
        proof {
            assert(s@ =~= self.view());
        }
        s.permute(p);
        let vals = s.to_vec();
        self.inner.clear();
        let mut k: usize = 0;
        while k < vals.len()
            invariant
                k <= vals@.len(),
                self.view() == vals@.subrange(0, k as int),
                self.is_queue() == old(self).is_queue(),
                vals@.len() == old(self).view().len(),
                forall|i: int|
                    0 <= i < vals@.len() ==> vals@[i] == old(self).view()[
                        crate::stack::lehmer_perm(p as nat, old(self).view().len() as nat)[i]],
            decreases vals@.len() - k,
        {
            self.inner.push_back(vals[k]);
            k += 1;
            proof {
                assert(self.view() =~= vals@.subrange(0, k as int));
            }
        }
        proof {
            assert(self.view() =~= vals@);
        }
    }
}

impl Default for FungeData {
    /// An empty container in stack mode.
    fn default() -> (r: FungeData)
        ensures
            r.view() == Seq::<i32>::empty(),
            !r.is_queue(),
    {
        FungeData::new()
    }
}

} // verus!
