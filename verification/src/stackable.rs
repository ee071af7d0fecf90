//! Conversions between stack cells and the richer values the opcodes pop
//! and push: characters, strings and vectors.

use crate::stack::{pop_value, popped, pushed, FungeStack};
use crate::vector::FungeVector;
use vstd::prelude::*;

verus! {

/// The Unicode scalar values form `[0, 0xD7FF]` united with
/// `[0xE000, 0x10FFFF]`; only cell values in that set name a character.
pub open spec fn is_scalar_value(v: int) -> bool {
    (0 <= v <= 0xD7FF) || (0xE000 <= v <= 0x10FFFF)
}

/// The character a cell value names, or blank space when the value is no
/// Unicode scalar value (negative, a surrogate, or too large).
///
/// Relies on `char::from_u32`: it returns the character with the given
/// code point exactly on Unicode scalar values and `None` otherwise.
#[verifier::external_body]
pub fn char_of_cell(v: i32) -> (c: char)
    ensures
        is_scalar_value(v as int) ==> c as int == v as int,
        !is_scalar_value(v as int) ==> c == ' ',
{
    char::from_u32(v as u32).unwrap_or(' ')
}

/// The character a cell value names, as a spec: the scalar value itself,
/// or blank space.
pub open spec fn spec_char_of_cell(v: int, c: char) -> bool {
    if is_scalar_value(v) {
        c as int == v
    } else {
        c == ' '
    }
}

/// A value that can be popped from and pushed onto a stack of cells.
///
/// What `pop` and `push` do is stated by `pop_ens` and `push_ens`, which
/// each implementation defines exactly.
pub trait Stackable: Sized {
    /// What popping this type does: how the result and the new stack
    /// relate to the old stack.
    spec fn pop_ens(pre: FungeStack, post: FungeStack, r: Self) -> bool;

    /// What pushing this type does: how the new stack relates to the old
    /// stack and the pushed value.
    spec fn push_ens(pre: FungeStack, post: FungeStack, val: Self) -> bool;

    /// Remove this value from the top of the stack.
    fn pop(stack: &mut FungeStack) -> (r: Self)
        ensures
            Self::pop_ens(*old(stack), *final(stack), r),
    ;

    /// Place this value onto the top of the stack.
    fn push(stack: &mut FungeStack, val: Self)
        ensures
            Self::push_ens(*old(stack), *final(stack), val),
    ;
}

/// The mode flags carry over unchanged.
pub open spec fn modes_kept(pre: FungeStack, post: FungeStack) -> bool {
    post.queue_mode == pre.queue_mode && post.invert_mode == pre.invert_mode
}

impl Stackable for i32 {
    open spec fn pop_ens(pre: FungeStack, post: FungeStack, r: Self) -> bool {
        &&& r == pop_value(pre@, pre.queue_mode)
        &&& post@ == popped(pre@, pre.queue_mode)
        &&& modes_kept(pre, post)
    }

    open spec fn push_ens(pre: FungeStack, post: FungeStack, val: Self) -> bool {
        &&& post@ == pushed(pre@, pre.invert_mode, val)
        &&& modes_kept(pre, post)
    }

    fn pop(stack: &mut FungeStack) -> (r: Self) {
        stack.pop()
    }

    fn push(stack: &mut FungeStack, val: Self) {
        stack.push(val)
    }
}

impl Stackable for char {
    open spec fn pop_ens(pre: FungeStack, post: FungeStack, r: Self) -> bool {
        &&& spec_char_of_cell(pop_value(pre@, pre.queue_mode) as int, r)
        &&& post@ == popped(pre@, pre.queue_mode)
        &&& modes_kept(pre, post)
    }

    open spec fn push_ens(pre: FungeStack, post: FungeStack, val: Self) -> bool {
        &&& post@ == pushed(pre@, pre.invert_mode, val as i32)
        &&& modes_kept(pre, post)
    }

    fn pop(stack: &mut FungeStack) -> (r: Self) {
        char_of_cell(stack.pop())
    }

    fn push(stack: &mut FungeStack, val: Self) {
        stack.push(val as i32)
    }
}

impl Stackable for FungeVector {
    /// The y coordinate is popped first, then the x coordinate.
    open spec fn pop_ens(pre: FungeStack, post: FungeStack, r: Self) -> bool {
        let s0 = pre@;
        let q = pre.queue_mode;
        &&& r.1 == pop_value(s0, q)
        &&& r.0 == pop_value(popped(s0, q), q)
        &&& post@ == popped(popped(s0, q), q)
        &&& modes_kept(pre, post)
    }

    /// The x coordinate is pushed first, then the y coordinate.
    open spec fn push_ens(pre: FungeStack, post: FungeStack, val: Self) -> bool {
        &&& post@ == pushed(pushed(pre@, pre.invert_mode, val.0), pre.invert_mode, val.1)
        &&& modes_kept(pre, post)
    }

    fn pop(stack: &mut FungeStack) -> (r: Self) {
        let y = stack.pop();
        let x = stack.pop();
        FungeVector(x, y)
    }

    fn push(stack: &mut FungeStack, val: Self) {
        stack.push(val.0);
        stack.push(val.1);
    }
}

/// The stack contents left after a string is popped: cells removed down
/// to and including the first zero terminator.
pub open spec fn popped_string(s: Seq<i32>, q: bool) -> Seq<i32>
    decreases s.len(),
{
    if s.len() == 0 {
        s
    } else if pop_value(s, q) == 0 {
        popped(s, q)
    } else {
        popped_string(popped(s, q), q)
    }
}

/// The cell values a string pop reads before the zero terminator, in
/// popping order.
pub open spec fn string_cells(s: Seq<i32>, q: bool) -> Seq<i32>
    decreases s.len(),
{
    if s.len() == 0 {
        Seq::empty()
    } else if pop_value(s, q) == 0 {
        Seq::empty()
    } else {
        seq![pop_value(s, q)] + string_cells(popped(s, q), q)
    }
}

/// The stack contents after pushing the characters of a string in reverse
/// order, so that the string pops back in order.
pub open spec fn pushed_string(s: Seq<i32>, inv: bool, cs: Seq<char>) -> Seq<i32>
    decreases cs.len(),
{
    if cs.len() == 0 {
        s
    } else {
        pushed(pushed_string(s, inv, cs.drop_first()), inv, cs.first() as i32)
    }
}

impl Stackable for String {
    /// Cells are popped down to and including the first zero terminator;
    /// the characters they name form the string, in popping order.
    open spec fn pop_ens(pre: FungeStack, post: FungeStack, r: Self) -> bool {
        &&& post@ == popped_string(pre@, pre.queue_mode)
        &&& modes_kept(pre, post)
        &&& r@.len() == string_cells(pre@, pre.queue_mode).len()
        &&& forall|i: int|
            0 <= i < r@.len() ==> spec_char_of_cell(
                string_cells(pre@, pre.queue_mode)[i] as int,
                r@[i],
            )
    }

    /// A zero terminator is pushed and then the characters in reverse, so
    /// the string pops back in order.
    open spec fn push_ens(pre: FungeStack, post: FungeStack, val: Self) -> bool {
        &&& post@ == pushed_string(pushed(pre@, pre.invert_mode, 0), pre.invert_mode, val@)
        &&& modes_kept(pre, post)
    }

    /// Pop cells until a zero terminator (or the stack empties), reading
    /// each cell as a character.
    fn pop(stack: &mut FungeStack) -> (r: Self) {
        let mut out: Vec<char> = Vec::new();
        let ghost q = old(stack).queue_mode;
        let ghost cells = string_cells(old(stack)@, q);
        loop
            invariant_except_break
                popped_string(old(stack)@, q) == popped_string(stack@, q),
                cells =~= cells.subrange(0, out@.len() as int) + string_cells(stack@, q),
            invariant
                stack.queue_mode == q,
                stack.invert_mode == old(stack).invert_mode,
                cells == string_cells(old(stack)@, q),
                out@.len() <= cells.len(),
                forall|i: int|
                    0 <= i < out@.len() ==> spec_char_of_cell(cells[i] as int, out@[i]),
            ensures
                stack@ == popped_string(old(stack)@, q),
                stack.queue_mode == q,
                stack.invert_mode == old(stack).invert_mode,
                out@.len() == cells.len(),
                forall|i: int|
                    0 <= i < out@.len() ==> spec_char_of_cell(cells[i] as int, out@[i]),
            decreases stack@.len(),
        {
            let ghost pre = stack@;
            let c = stack.pop();
            if c == 0 {
                proof {
                    assert(string_cells(pre, q) =~= Seq::empty());
                    assert(cells =~= cells.subrange(0, out@.len() as int));
                    assert(cells.len() == out@.len());
                    assert(popped_string(pre, q) == stack@);
                }
                break ;
            }
            let ghost n0 = out@.len() as int;
            proof {
                if pre.len() == 0 {
                    assert(false);
                }
                assert(string_cells(pre, q) == seq![c] + string_cells(popped(pre, q), q));
                assert(cells.subrange(0, n0).len() == n0);
                assert((cells.subrange(0, n0) + string_cells(pre, q))[n0] == string_cells(
                    pre,
                    q,
                )[0]);
                assert(cells[n0] == c);
                assert(cells.len() == n0 + string_cells(pre, q).len());
            }
            out.push(char_of_cell(c));
            proof {
                assert(cells.subrange(0, n0 + 1) =~= cells.subrange(0, n0) + seq![cells[n0]]);
                assert(cells =~= cells.subrange(0, n0) + string_cells(pre, q));
                assert(cells =~= cells.subrange(0, n0 + 1) + string_cells(popped(pre, q), q));
                assert(cells =~= cells.subrange(0, out@.len() as int) + string_cells(stack@, q));
            }
        }
        crate::text::chars_to_string(&out)
    }

    /// Push a zero terminator and then the characters in reverse, so the
    /// string pops back in order.
    fn push(stack: &mut FungeStack, val: Self) {
        stack.push(0);
        let cs = crate::text::str_chars(val.as_str());
        let ghost base = stack@;
        let ghost inv = old(stack).invert_mode;
        let mut i: usize = cs.len();
        while i > 0
            invariant
                i <= cs@.len(),
                cs@ == val@,
                inv == stack.invert_mode,
                stack@ == pushed_string(base, inv, cs@.subrange(i as int, cs@.len() as int)),
                stack.queue_mode == old(stack).queue_mode,
                stack.invert_mode == old(stack).invert_mode,
            decreases i,
        {
            i -= 1;
            stack.push(cs[i] as i32);
            proof {
                let sub = cs@.subrange(i as int, cs@.len() as int);
                assert(sub.first() == cs@[i as int]);
                assert(sub.drop_first() =~= cs@.subrange(i as int + 1, cs@.len() as int));
            }
        }
        proof {
            assert(cs@.subrange(0, cs@.len() as int) =~= cs@);
        }
    }
}

} // verus!
