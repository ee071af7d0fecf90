//! The double-ended value container backing every instruction pointer's
//! stacks: a wrapper around `VecDeque` with queue/invert mode flags, where
//! popping from an empty container yields zero instead of an error.

use std::collections::vec_deque;
use std::ops::Index;
use std::collections::VecDeque;
use vstd::prelude::*;

verus! {

/// A stack of `i32` values that can also act as a queue.
///
/// `queue_mode` toggles which end is popped from; `invert_mode` toggles
/// which end is pushed to. A pop on an empty stack yields 0.
pub struct FungeStack {
    /// The underlying double-ended container, bottom of the stack first.
    pub inner: VecDeque<i32>,
    /// Toggles which end of the stack is popped from.
    pub queue_mode: bool,
    /// Toggles which end of the stack is pushed to.
    pub invert_mode: bool,
}

impl View for FungeStack {
    type V = Seq<i32>;

    open spec fn view(&self) -> Seq<i32> {
        self.inner@
    }
}

/// The contents after pushing `v`: at the head in invert mode, else at the
/// tail.
pub open spec fn pushed(s: Seq<i32>, invert: bool, v: i32) -> Seq<i32> {
    if invert {
        seq![v] + s
    } else {
        s.push(v)
    }
}

/// The value a pop yields: 0 when empty, the head in queue mode, else the
/// tail.
pub open spec fn pop_value(s: Seq<i32>, queue: bool) -> i32 {
    if s.len() == 0 {
        0
    } else if queue {
        s[0]
    } else {
        s[s.len() - 1]
    }
}

/// The contents after a pop: unchanged when empty, else with the popped end
/// removed.
pub open spec fn popped(s: Seq<i32>, queue: bool) -> Seq<i32> {
    if s.len() == 0 {
        s
    } else if queue {
        s.drop_first()
    } else {
        s.drop_last()
    }
}

/// Two stacks with the same contents and the same mode flags.
pub open spec fn same_stack(a: FungeStack, b: FungeStack) -> bool {
    a@ == b@ && a.queue_mode == b.queue_mode && a.invert_mode == b.invert_mode
}

impl FungeStack {
    /// An empty stack in plain stack mode.
    pub fn new() -> (r: FungeStack)
        ensures
            r@ == Seq::<i32>::empty(),
            !r.queue_mode,
            !r.invert_mode,
    {
        FungeStack { inner: VecDeque::new(), queue_mode: false, invert_mode: false }
    }

    /// A stack holding the given values, bottom first.
    pub fn from_vec(value: Vec<i32>) -> (r: FungeStack)
        ensures
            r@ == value@,
            !r.queue_mode,
            !r.invert_mode,
    {
        let mut inner: VecDeque<i32> = VecDeque::new();
        let mut i: usize = 0;
        while i < value.len()
            invariant
                i <= value.len(),
                inner@ == value@.subrange(0, i as int),
            decreases value.len() - i,
        {
            inner.push_back(value[i]);
            i += 1;
            proof {
                assert(inner@ =~= value@.subrange(0, i as int));
            }
        }
        proof {
            assert(inner@ =~= value@);
        }
        FungeStack { inner, queue_mode: false, invert_mode: false }
    }

    /// Clear the entire stack; the mode flags persist.
    pub fn clear(&mut self)
        ensures
            final(self)@ == Seq::<i32>::empty(),
            final(self).queue_mode == old(self).queue_mode,
            final(self).invert_mode == old(self).invert_mode,
    {
        self.inner.clear();
    }

    /// Push a value onto the stack: to the head in invert mode, else to the
    /// tail.
    pub fn push(&mut self, val: i32)
        ensures
            final(self)@ == pushed(old(self)@, old(self).invert_mode, val),
            final(self).queue_mode == old(self).queue_mode,
            final(self).invert_mode == old(self).invert_mode,
    {
        if self.invert_mode {
            self.inner.push_front(val);
            proof {
                assert(self.inner@ =~= pushed(old(self)@, old(self).invert_mode, val));
            }
        } else {
            self.inner.push_back(val);
        }
    }

    /// The number of values in the stack.
    pub fn len(&self) -> (r: usize)
        ensures
            r == self@.len(),
    {
        self.inner.len()
    }

    /// The value at a position, counting from the bottom.
    pub fn get(&self, i: usize) -> (r: i32)
        requires
            i < self@.len(),
        ensures
            r == self@[i as int],
    {
        *self.inner.index(i)
    }

    /// A bottom-to-top iterator over the values: it yields exactly the
    /// stack's contents, bottom first.
    pub fn iter(&self) -> (r: vec_deque::Iter<'_, i32>)
        ensures
            vstd::std_specs::iter::IteratorSpec::remaining(&r) == self@.as_ref(),
    {
        proof {
            broadcast use vstd::std_specs::vecdeque::axiom_spec_iter;

        }
        self.inner.iter()
    }

    /// The values as a plain vector, bottom first.
    pub fn to_vec(&self) -> (r: Vec<i32>)
        ensures
            r@ == self@,
    {
        let mut out: Vec<i32> = Vec::new();
        let mut i: usize = 0;
        while i < self.inner.len()
            invariant
                i <= self@.len(),
                out@ == self@.subrange(0, i as int),
            decreases self@.len() - i,
        {
            out.push(*self.inner.index(i));
            i += 1;
            proof {
                assert(out@ =~= self@.subrange(0, i as int));
            }
        }
        proof {
            assert(out@ =~= self@);
        }
        out
    }

    /// Pop a value from the stack: 0 when empty, the head in queue mode,
    /// else the tail. Popping from an empty stack never errors.
    pub fn pop(&mut self) -> (r: i32)
        ensures
            r == pop_value(old(self)@, old(self).queue_mode),
            final(self)@ == popped(old(self)@, old(self).queue_mode),
            old(self)@.len() == 0 ==> r == 0 && final(self)@ == old(self)@,
            final(self).queue_mode == old(self).queue_mode,
            final(self).invert_mode == old(self).invert_mode,
    {
        if self.queue_mode {
            match self.inner.pop_front() {
                Some(v) => v,
                None => 0,
            }
        } else {
            match self.inner.pop_back() {
                Some(v) => v,
                None => 0,
            }
        }
    }

    /// Rearrange the stack's values by the permutation a factorial-base
    /// rank names: the value at new position `i` is the value previously at
    /// position `perm[i]`.
    pub fn permute(&mut self, p: usize)
        requires
            old(self)@.len() <= 21,
        ensures
            final(self)@.len() == old(self)@.len(),
            lehmer_perm(p as nat, old(self)@.len() as nat).len() == old(self)@.len(),
            forall|i: int|
                0 <= i < old(self)@.len() ==> 0 <= #[trigger] lehmer_perm(
                    p as nat,
                    old(self)@.len() as nat,
                )[i] < old(self)@.len(),
            forall|i: int, j: int|
                0 <= i < j < old(self)@.len() ==> lehmer_perm(p as nat, old(self)@.len() as nat)[i]
                    != lehmer_perm(p as nat, old(self)@.len() as nat)[j],
            forall|i: int|
                0 <= i < final(self)@.len() ==> final(self)@[i] == old(self)@[lehmer_perm(
                    p as nat,
                    old(self)@.len() as nat,
                )[i]],
            final(self)@.to_multiset() == old(self)@.to_multiset(),
            final(self).queue_mode == old(self).queue_mode,
            final(self).invert_mode == old(self).invert_mode,
    {
        let n = self.inner.len();
        let perm = lehmer_permutation(p, n);
        let ghost permi = perm@.map_values(|b: u8| b as int);
        let mut fresh: VecDeque<i32> = VecDeque::new();
        let mut i: usize = 0;
        while i < n
            invariant
                i <= n,
                n == self@.len(),
                perm@.len() == n,
                forall|k: int| 0 <= k < n ==> (perm@[k] as int) < n,
                perm@.map_values(|b: u8| b as int) == lehmer_perm(p as nat, n as nat),
                fresh@.len() == i,
                forall|k: int| 0 <= k < i ==> fresh@[k] == self@[perm@[k] as int],
            decreases n - i,
        {
            let idx = perm[i];
            fresh.push_back(*self.inner.index(idx as usize));
            i += 1;
        }
        proof {
            assert(forall|k: int|
                0 <= k < n ==> lehmer_perm(p as nat, n as nat)[k] == perm@.map_values(
                    |b: u8| b as int,
                )[k]);
        }
        self.inner = fresh;
        proof {
            assert(forall|i: int, j: int| 0 <= i < j < permi.len() ==> permi[i] != permi[j]);
            assert(forall|i: int| 0 <= i < permi.len() ==> 0 <= #[trigger] permi[i] < permi.len());
            assert(forall|i: int|
                0 <= i < self@.len() ==> #[trigger] self@[i] == old(self)@[permi[i]]);
            lemma_permute_preserves_contents(old(self)@, self@, permi);
        }
    }
}

impl Default for FungeStack {
    /// An empty stack in plain stack mode.
    fn default() -> (r: FungeStack)
        ensures
            r@ == Seq::<i32>::empty(),
            !r.queue_mode,
            !r.invert_mode,
    {
        FungeStack::new()
    }
}

/// The values `n` pops yield, in popping order.
pub open spec fn popn_vals(s: Seq<i32>, q: bool, n: nat) -> Seq<i32>
    decreases n,
{
    if n == 0 {
        Seq::empty()
    } else {
        seq![pop_value(s, q)] + popn_vals(popped(s, q), q, (n - 1) as nat)
    }
}

/// The contents after `n` pops.
pub open spec fn popn_rest(s: Seq<i32>, q: bool, n: nat) -> Seq<i32>
    decreases n,
{
    if n == 0 {
        s
    } else {
        popn_rest(popped(s, q), q, (n - 1) as nat)
    }
}

/// The contents after pushing a run of values in order.
pub open spec fn push_seq(s: Seq<i32>, inv: bool, vs: Seq<i32>) -> Seq<i32>
    decreases vs.len(),
{
    if vs.len() == 0 {
        s
    } else {
        push_seq(pushed(s, inv, vs.first()), inv, vs.drop_first())
    }
}

impl FungeStack {
    /// Pop `n` values, collecting them in popping order.
    pub fn popn(&mut self, n: u64) -> (vals: Vec<i32>)
        ensures
            vals@ == popn_vals(old(self)@, old(self).queue_mode, n as nat),
            final(self)@ == popn_rest(old(self)@, old(self).queue_mode, n as nat),
            final(self).queue_mode == old(self).queue_mode,
            final(self).invert_mode == old(self).invert_mode,
    {
        let ghost q = self.queue_mode;
        let ghost t0 = self@;
        let mut vals: Vec<i32> = Vec::new();
        let mut i: u64 = 0;
        while i < n
            invariant
                i <= n,
                self.queue_mode == q,
                self.invert_mode == old(self).invert_mode,
                popn_vals(t0, q, n as nat) =~= vals@ + popn_vals(self@, q, (n - i) as nat),
                popn_rest(t0, q, n as nat) == popn_rest(self@, q, (n - i) as nat),
                vals@.len() == i,
            decreases n - i,
        {
            let ghost pre = self@;
            let v = self.pop();
            vals.push(v);
            i += 1;
            proof {
                assert(popn_vals(pre, q, (n - i + 1) as nat) =~= seq![v] + popn_vals(
                    self@,
                    q,
                    (n - i) as nat,
                ));
                assert(popn_vals(t0, q, n as nat) =~= vals@ + popn_vals(
                    self@,
                    q,
                    (n - i) as nat,
                ));
            }
        }
        vals
    }

    /// Push a run of values in order.
    pub fn pushn(&mut self, vals: &Vec<i32>)
        ensures
            final(self)@ == push_seq(old(self)@, old(self).invert_mode, vals@),
            final(self).queue_mode == old(self).queue_mode,
            final(self).invert_mode == old(self).invert_mode,
    {
        let ghost inv = self.invert_mode;
        let ghost t0 = self@;
        proof {
            assert(vals@.subrange(0, vals@.len() as int) =~= vals@);
        }
        let mut i: usize = 0;
        while i < vals.len()
            invariant
                i <= vals@.len(),
                self.invert_mode == inv,
                self.queue_mode == old(self).queue_mode,
                push_seq(t0, inv, vals@) == push_seq(
                    self@,
                    inv,
                    vals@.subrange(i as int, vals@.len() as int),
                ),
            decreases vals@.len() - i,
        {
            let ghost sub = vals@.subrange(i as int, vals@.len() as int);
            self.push(vals[i]);
            i += 1;
            proof {
                assert(sub.first() == vals@[i - 1]);
                assert(sub.drop_first() =~= vals@.subrange(i as int, vals@.len() as int));
            }
        }
        proof {
            assert(vals@.subrange(vals@.len() as int, vals@.len() as int)
                =~= Seq::<i32>::empty());
        }
    }
}

/// The permutation of `0..len` that the factorial-base rank `code` names,
/// in the standard factorial-number-system enumeration order.
pub uninterp spec fn lehmer_perm(code: nat, len: nat) -> Seq<int>;

/// Relies on `lehmer::Lehmer::from_decimal` followed by `to_permutation`:
/// the rank is read as factorial-base digits and decoded into a permutation
/// of `0..len`; the result depends on the two arguments alone. The length
/// bound keeps the decoder's internal factorial inside `usize`.
#[verifier::external_body]
fn lehmer_permutation(code: usize, len: usize) -> (r: Vec<u8>)
    requires
        len <= 21,
    ensures
        r@.map_values(|b: u8| b as int) == lehmer_perm(code as nat, len as nat),
        r@.len() == len,
        forall|i: int| 0 <= i < r@.len() ==> (r@[i] as int) < len,
        forall|i: int, j: int| 0 <= i < j < r@.len() ==> r@[i] != r@[j],
{
    lehmer::Lehmer::from_decimal(code, len).to_permutation()
}

/// Applying any rank's permutation is a bijection on the stack's
/// contents: the rearranged stack holds exactly the same values, each the
/// same number of times, as the original — no value is lost and none is
/// repeated.
pub proof fn lemma_permute_preserves_contents(pre: Seq<i32>, post: Seq<i32>, perm: Seq<int>)
    requires
        post.len() == pre.len(),
        perm.len() == pre.len(),
        forall|i: int| 0 <= i < perm.len() ==> 0 <= #[trigger] perm[i] < perm.len(),
        forall|i: int, j: int| 0 <= i < j < perm.len() ==> perm[i] != perm[j],
        forall|i: int| 0 <= i < post.len() ==> #[trigger] post[i] == pre[perm[i]],
    ensures
        post.to_multiset() == pre.to_multiset(),
    decreases pre.len(),
{
    broadcast use vstd::seq_lib::group_to_multiset_ensures;

    if pre.len() == 0 {
        assert(post =~= pre);
    } else {
        let n = pre.len() as int;
        lemma_perm_onto(perm, n - 1);
        let k = choose|k: int| 0 <= k < n && perm[k] == n - 1;
        let post2 = post.remove(k);
        let pre2 = pre.drop_last();
        let perm2 = perm.remove(k);
        assert(forall|i: int| 0 <= i < perm2.len() ==> 0 <= #[trigger] perm2[i] < n - 1) by {
            assert(forall|i: int|
                0 <= i < k ==> #[trigger] perm2[i] == perm[i] && perm[i] != n - 1);
            assert(forall|i: int|
                k <= i < perm2.len() ==> #[trigger] perm2[i] == perm[i + 1] && perm[i + 1] != n
                    - 1);
        }
        assert(forall|i: int, j: int| 0 <= i < j < perm2.len() ==> perm2[i] != perm2[j]) by {
            assert(forall|i: int| 0 <= i < k ==> #[trigger] perm2[i] == perm[i]);
            assert(forall|i: int| k <= i < perm2.len() ==> #[trigger] perm2[i] == perm[i + 1]);
        }
        assert(forall|i: int| 0 <= i < post2.len() ==> #[trigger] post2[i] == pre2[perm2[i]]) by {
            assert(forall|i: int| 0 <= i < k ==> #[trigger] post2[i] == post[i]);
            assert(forall|i: int| k <= i < post2.len() ==> #[trigger] post2[i] == post[i + 1]);
            assert(forall|i: int| 0 <= i < k ==> #[trigger] perm2[i] == perm[i]);
            assert(forall|i: int| k <= i < perm2.len() ==> #[trigger] perm2[i] == perm[i + 1]);
            assert(forall|i: int| 0 <= i < pre2.len() ==> #[trigger] pre2[i] == pre[i]);
        }
        lemma_permute_preserves_contents(pre2, post2, perm2);
        assert(post2.to_multiset() =~= post.to_multiset().remove(post[k]));
        assert(post.to_multiset().contains(post[k]));
        assert(post.to_multiset() =~= post2.to_multiset().insert(post[k]));
        assert(pre =~= pre2.push(pre.last()));
        assert(pre.to_multiset() =~= pre2.to_multiset().insert(pre.last()));
        assert(post[k] == pre[n - 1]);
        assert(post.to_multiset() =~= pre.to_multiset());
    }
}

/// A permutation of `0..n` takes every value below `n`: each target index
/// is hit by some source index.
proof fn lemma_perm_onto(perm: Seq<int>, v: int)
    requires
        forall|i: int| 0 <= i < perm.len() ==> 0 <= #[trigger] perm[i] < perm.len(),
        forall|i: int, j: int| 0 <= i < j < perm.len() ==> perm[i] != perm[j],
        0 <= v < perm.len(),
    ensures
        exists|k: int| 0 <= k < perm.len() && perm[k] == v,
{
    let n = perm.len() as int;
    let hit = Set::new(|x: int| exists|k: int| 0 <= k < n && perm[k] == x);
    let below = Set::new(|x: int| 0 <= x < n);
    assert(hit.subset_of(below));
    if !hit.contains(v) {
        let missing = below.remove(v);
        assert(hit.subset_of(missing));
        lemma_int_range_card(n);
        assert(below.finite() && below.len() == n);
        assert(missing.finite() && missing.len() == n - 1);
        lemma_index_map_card(perm);
        vstd::set_lib::lemma_len_subset(hit, missing);
        assert(false);
    }
}

/// The set of values a duplicate-free index sequence takes has the
/// sequence's length.
proof fn lemma_index_map_card(perm: Seq<int>)
    requires
        forall|i: int, j: int| 0 <= i < j < perm.len() ==> perm[i] != perm[j],
    ensures
        Set::new(
            |x: int| exists|k: int| 0 <= k < perm.len() && perm[k] == x,
        ).finite(),
        Set::new(|x: int| exists|k: int| 0 <= k < perm.len() && perm[k] == x).len() == perm.len(),
    decreases perm.len(),
{
    let n = perm.len() as int;
    let hit = Set::new(|x: int| exists|k: int| 0 <= k < n && perm[k] == x);
    if n == 0 {
        assert(hit =~= Set::<int>::empty());
    } else {
        let prev = perm.drop_last();
        lemma_index_map_card(prev);
        let hitp = Set::new(
            |x: int| exists|k: int| 0 <= k < prev.len() && prev[k] == x,
        );
        assert(forall|k: int| 0 <= k < n - 1 ==> #[trigger] prev[k] == perm[k]);
        assert(!hitp.contains(perm.last())) by {
            if hitp.contains(perm.last()) {
                let k = choose|k: int| 0 <= k < prev.len() && prev[k] == perm.last();
                assert(perm[k] == perm[n - 1]);
            }
        }
        assert(hit =~= hitp.insert(perm.last())) by {
            assert(forall|x: int| hitp.contains(x) ==> hit.contains(x));
            assert(hit.contains(perm.last()));
            assert forall|x: int| hit.contains(x) && x != perm.last() implies hitp.contains(
                x,
            ) by {
                let k = choose|k: int| 0 <= k < n && perm[k] == x;
                assert(k < n - 1);
                assert(prev[k] == x);
            }
        }
    }
}

/// The set of integers below a bound has that bound as its size.
proof fn lemma_int_range_card(n: int)
    requires
        n >= 0,
    ensures
        Set::new(|x: int| 0 <= x < n).finite(),
        Set::new(|x: int| 0 <= x < n).len() == n,
    decreases n,
{
    let s = Set::new(|x: int| 0 <= x < n);
    if n == 0 {
        assert(s =~= Set::<int>::empty());
    } else {
        lemma_int_range_card(n - 1);
        let prev = Set::new(|x: int| 0 <= x < n - 1);
        assert(s =~= prev.insert(n - 1));
    }
}

} // verus!
