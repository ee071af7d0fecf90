//! The instruction pointer: an independent cursor over funge-space with
//! its own motion delta, storage offset and stack of stacks.

use crate::arith::{div_op, rem_op, sat_mul, sat_sub};
use crate::event::{Event, EventHandler, InputType};
use crate::grid::FungeGrid;
use crate::stack::{pop_value, popn_rest, popn_vals, popped, push_seq, pushed, FungeStack};
use crate::stackable::{popped_string, spec_char_of_cell, string_cells, Stackable};
use crate::text::{digit_value, int_text, is_digit};
use crate::vector::{is_cardinal, sat_add, FungeVector};
use vstd::prelude::*;

verus! {

/// An instruction pointer walking the grid and carrying its stacks.
///
/// The stack of stacks always holds at least one stack; index 0 is the
/// active one (the TOSS), higher indices are enclosing scopes.
pub struct InstructionPointer {
    /// Current position on the grid.
    pub pos: FungeVector,
    /// Current motion direction.
    pub delta: FungeVector,
    /// Storage offset for relative addressing inside a scoped block.
    pub offset: FungeVector,
    /// Whether characters are currently pushed instead of executed.
    pub string_mode: bool,
    /// The stack of stacks; index 0 is the active stack.
    pub stacks: Vec<FungeStack>,
    /// Stable index of this pointer within the pointer list.
    pub id: usize,
    /// Whether this pointer has halted.
    pub dead: bool,
    /// Suppresses the initial walk so execution begins on the start cell.
    pub first_tick: bool,
}

impl InstructionPointer {
    /// Well-formedness: there is always at least one stack.
    pub open spec fn wf(&self) -> bool {
        self.stacks@.len() >= 1
    }

    /// The contents of the active stack.
    pub open spec fn toss(&self) -> Seq<i32> {
        self.stacks@[0]@
    }

    /// A new pointer at a position, facing a direction, with one empty
    /// stack.
    pub fn new(pos: FungeVector, delta: FungeVector, id: usize) -> (ip: InstructionPointer)
        ensures
            ip.wf(),
            ip.pos == pos,
            ip.delta == delta,
            ip.offset == (FungeVector(0i32, 0i32)),
            !ip.string_mode,
            ip.stacks@.len() == 1,
            ip.toss() == Seq::<i32>::empty(),
            !ip.stacks@[0].queue_mode,
            !ip.stacks@[0].invert_mode,
            ip.id == id,
            !ip.dead,
            ip.first_tick,
    {
        let mut stacks: Vec<FungeStack> = Vec::new();
        stacks.push(FungeStack::new());
        InstructionPointer {
            pos,
            delta,
            offset: crate::vector::origin(),
            string_mode: false,
            stacks,
            id,
            dead: false,
            first_tick: true,
        }
    }

    /// Move one cell forwards along the delta, wrapping around the grid.
    pub fn walk(&mut self, grid: &FungeGrid)
        requires
            grid.wf(),
        ensures
            final(self).pos.0 as int == (old(self).pos.0 + old(self).delta.0) % (
            grid.width as int),
            final(self).pos.1 as int == (old(self).pos.1 + old(self).delta.1) % (
            grid.height as int),
            0 <= final(self).pos.0 < grid.width,
            0 <= final(self).pos.1 < grid.height,
            final(self).delta == old(self).delta,
            final(self).offset == old(self).offset,
            final(self).string_mode == old(self).string_mode,
            final(self).stacks == old(self).stacks,
            final(self).id == old(self).id,
            final(self).dead == old(self).dead,
            final(self).first_tick == old(self).first_tick,
    {
        let next = grid.cell_ahead(self.pos, self.delta);
        self.pos = next;
    }

    /// Move one cell backwards against the delta, wrapping around the
    /// grid.
    pub fn walk_reverse(&mut self, grid: &FungeGrid)
        requires
            grid.wf(),
        ensures
            final(self).pos.0 as int == (old(self).pos.0 - old(self).delta.0) % (
            grid.width as int),
            final(self).pos.1 as int == (old(self).pos.1 - old(self).delta.1) % (
            grid.height as int),
            0 <= final(self).pos.0 < grid.width,
            0 <= final(self).pos.1 < grid.height,
            final(self).delta == old(self).delta,
            final(self).offset == old(self).offset,
            final(self).string_mode == old(self).string_mode,
            final(self).stacks == old(self).stacks,
            final(self).id == old(self).id,
            final(self).dead == old(self).dead,
            final(self).first_tick == old(self).first_tick,
    {
        let x = crate::grid::wrap_coord_sub(self.pos.0, self.delta.0, grid.width());
        let y = crate::grid::wrap_coord_sub(self.pos.1, self.delta.1, grid.height());
        self.pos = FungeVector(x, y);
    }

    /// Pop the top cell value from the active stack.
    pub fn pop(&mut self) -> (r: i32)
        requires
            old(self).wf(),
        ensures
            final(self).wf(),
            r == pop_value(old(self).toss(), old(self).stacks@[0].queue_mode),
            final(self).toss() == popped(old(self).toss(), old(self).stacks@[0].queue_mode),
            toss_replaced(*old(self), *final(self)),
            final(self).stacks@[0].queue_mode == old(self).stacks@[0].queue_mode,
            final(self).stacks@[0].invert_mode == old(self).stacks@[0].invert_mode,
    {
        let mut s = self.stacks.remove(0);
        let r = s.pop();
        self.stacks.insert(0, s);
        proof {
            assert(final(self).stacks@ =~= old(self).stacks@.update(
                0,
                final(self).stacks@[0],
            ));
        }
        r
    }

    /// Pop the top of the active stack as another type.
    pub fn pop_t<T: Stackable>(&mut self) -> (r: T)
        requires
            old(self).wf(),
        ensures
            final(self).wf(),
            T::pop_ens(old(self).stacks@[0], final(self).stacks@[0], r),
            toss_replaced(*old(self), *final(self)),
    {
        let mut s = self.stacks.remove(0);
        let r = T::pop(&mut s);
        self.stacks.insert(0, s);
        proof {
            assert(final(self).stacks@ =~= old(self).stacks@.update(
                0,
                final(self).stacks@[0],
            ));
        }
        r
    }

    /// Push a cell value onto the active stack.
    pub fn push(&mut self, val: i32)
        requires
            old(self).wf(),
        ensures
            final(self).wf(),
            final(self).toss() == pushed(
                old(self).toss(),
                old(self).stacks@[0].invert_mode,
                val,
            ),
            toss_replaced(*old(self), *final(self)),
            final(self).stacks@[0].queue_mode == old(self).stacks@[0].queue_mode,
            final(self).stacks@[0].invert_mode == old(self).stacks@[0].invert_mode,
    {
        let mut s = self.stacks.remove(0);
        s.push(val);
        self.stacks.insert(0, s);
        proof {
            assert(final(self).stacks@ =~= old(self).stacks@.update(
                0,
                final(self).stacks@[0],
            ));
        }
    }

    /// Push a value of another type onto the active stack.
    pub fn push_t<T: Stackable>(&mut self, val: T)
        requires
            old(self).wf(),
        ensures
            final(self).wf(),
            T::push_ens(old(self).stacks@[0], final(self).stacks@[0], val),
            toss_replaced(*old(self), *final(self)),
    {
        let mut s = self.stacks.remove(0);
        T::push(&mut s, val);
        self.stacks.insert(0, s);
        proof {
            assert(final(self).stacks@ =~= old(self).stacks@.update(
                0,
                final(self).stacks@[0],
            ));
        }
    }

    /// The number of values on the active stack.
    pub fn toss_len(&self) -> (r: usize)
        requires
            self.wf(),
        ensures
            r == self.toss().len(),
    {
        self.stacks[0].len()
    }

    /// Turn the motion delta around.
    pub fn reverse(&mut self)
        ensures
            *final(self) == (InstructionPointer { delta: inverted(old(self).delta), ..*old(self) }),
    {
        self.delta.invert();
    }

    /// Pop several values from the active stack, in popping order.
    pub fn toss_popn(&mut self, n: u64) -> (vals: Vec<i32>)
        requires
            old(self).wf(),
        ensures
            final(self).wf(),
            vals@ == popn_vals(old(self).toss(), old(self).stacks@[0].queue_mode, n as nat),
            final(self).toss() == popn_rest(
                old(self).toss(),
                old(self).stacks@[0].queue_mode,
                n as nat,
            ),
            toss_replaced(*old(self), *final(self)),
            final(self).stacks@[0].queue_mode == old(self).stacks@[0].queue_mode,
            final(self).stacks@[0].invert_mode == old(self).stacks@[0].invert_mode,
    {
        let mut s = self.stacks.remove(0);
        let vals = s.popn(n);
        self.stacks.insert(0, s);
        proof {
            assert(final(self).stacks@ =~= old(self).stacks@.update(0, final(self).stacks@[0]));
        }
        vals
    }

    /// Push several values onto the active stack, in order.
    pub fn toss_pushn(&mut self, vals: &Vec<i32>)
        requires
            old(self).wf(),
        ensures
            final(self).wf(),
            final(self).toss() == push_seq(
                old(self).toss(),
                old(self).stacks@[0].invert_mode,
                vals@,
            ),
            toss_replaced(*old(self), *final(self)),
            final(self).stacks@[0].queue_mode == old(self).stacks@[0].queue_mode,
            final(self).stacks@[0].invert_mode == old(self).stacks@[0].invert_mode,
    {
        let mut s = self.stacks.remove(0);
        s.pushn(vals);
        self.stacks.insert(0, s);
        proof {
            assert(final(self).stacks@ =~= old(self).stacks@.update(0, final(self).stacks@[0]));
        }
    }

    /// Pop one value from the second stack.
    pub fn soss_pop(&mut self) -> (r: i32)
        requires
            old(self).stacks@.len() >= 2,
        ensures
            final(self).wf(),
            r == pop_value(old(self).stacks@[1]@, old(self).stacks@[1].queue_mode),
            final(self).stacks@[1]@ == popped(
                old(self).stacks@[1]@,
                old(self).stacks@[1].queue_mode,
            ),
            soss_replaced(*old(self), *final(self)),
    {
        let mut s = self.stacks.remove(1);
        let r = s.pop();
        self.stacks.insert(1, s);
        proof {
            assert(final(self).stacks@ =~= old(self).stacks@.update(1, final(self).stacks@[1]));
        }
        r
    }

    /// Push one value onto the second stack.
    pub fn soss_push(&mut self, v: i32)
        requires
            old(self).stacks@.len() >= 2,
        ensures
            final(self).wf(),
            final(self).stacks@[1]@ == pushed(
                old(self).stacks@[1]@,
                old(self).stacks@[1].invert_mode,
                v,
            ),
            soss_replaced(*old(self), *final(self)),
    {
        let mut s = self.stacks.remove(1);
        s.push(v);
        self.stacks.insert(1, s);
        proof {
            assert(final(self).stacks@ =~= old(self).stacks@.update(1, final(self).stacks@[1]));
        }
    }

    /// Pop several values from the second stack, in popping order.
    pub fn soss_popn(&mut self, n: u64) -> (vals: Vec<i32>)
        requires
            old(self).stacks@.len() >= 2,
        ensures
            final(self).wf(),
            vals@ == popn_vals(old(self).stacks@[1]@, old(self).stacks@[1].queue_mode, n as nat),
            final(self).stacks@[1]@ == popn_rest(
                old(self).stacks@[1]@,
                old(self).stacks@[1].queue_mode,
                n as nat,
            ),
            soss_replaced(*old(self), *final(self)),
    {
        let mut s = self.stacks.remove(1);
        let vals = s.popn(n);
        self.stacks.insert(1, s);
        proof {
            assert(final(self).stacks@ =~= old(self).stacks@.update(1, final(self).stacks@[1]));
        }
        vals
    }

    /// Push several values onto the second stack, in order.
    pub fn soss_pushn(&mut self, vals: &Vec<i32>)
        requires
            old(self).stacks@.len() >= 2,
        ensures
            final(self).wf(),
            final(self).stacks@[1]@ == push_seq(
                old(self).stacks@[1]@,
                old(self).stacks@[1].invert_mode,
                vals@,
            ),
            soss_replaced(*old(self), *final(self)),
    {
        let mut s = self.stacks.remove(1);
        s.pushn(vals);
        self.stacks.insert(1, s);
        proof {
            assert(final(self).stacks@ =~= old(self).stacks@.update(1, final(self).stacks@[1]));
        }
    }

    /// An exact copy of this pointer.
    pub fn duplicate(&self) -> (r: InstructionPointer)
        ensures
            r.pos == self.pos,
            r.delta == self.delta,
            r.offset == self.offset,
            r.string_mode == self.string_mode,
            r.id == self.id,
            r.dead == self.dead,
            r.first_tick == self.first_tick,
            r.stacks@.len() == self.stacks@.len(),
            forall|i: int|
                0 <= i < r.stacks@.len() ==> crate::stack::same_stack(
                    #[trigger] r.stacks@[i],
                    self.stacks@[i],
                ),
    {
        let mut stacks: Vec<FungeStack> = Vec::new();
        let mut i: usize = 0;
        while i < self.stacks.len()
            invariant
                i <= self.stacks@.len(),
                stacks@.len() == i,
                forall|k: int|
                    0 <= k < i ==> crate::stack::same_stack(
                        #[trigger] stacks@[k],
                        self.stacks@[k],
                    ),
            decreases self.stacks@.len() - i,
        {
            let src = &self.stacks[i];
            let vals = src.to_vec();
            let mut copy = FungeStack::from_vec(vals);
            copy.queue_mode = src.queue_mode;
            copy.invert_mode = src.invert_mode;
            stacks.push(copy);
            i += 1;
        }
        InstructionPointer {
            pos: self.pos,
            delta: self.delta,
            offset: self.offset,
            string_mode: self.string_mode,
            stacks,
            id: self.id,
            dead: self.dead,
            first_tick: self.first_tick,
        }
    }
}

/// The two pointers agree on everything except the contents of the second
/// stack, which keeps its mode flags.
pub open spec fn soss_replaced(a: InstructionPointer, b: InstructionPointer) -> bool {
    &&& b.pos == a.pos
    &&& b.delta == a.delta
    &&& b.offset == a.offset
    &&& b.string_mode == a.string_mode
    &&& b.id == a.id
    &&& b.dead == a.dead
    &&& b.first_tick == a.first_tick
    &&& b.stacks@.len() == a.stacks@.len()
    &&& forall|i: int| 0 <= i < a.stacks@.len() && i != 1 ==> b.stacks@[i] == a.stacks@[i]
    &&& a.stacks@.len() >= 2 ==> b.stacks@[1].queue_mode == a.stacks@[1].queue_mode
        && b.stacks@[1].invert_mode == a.stacks@[1].invert_mode
}

/// The two pointers agree on everything except the contents of the active
/// stack: same fields, same number of stacks, same enclosing stacks, and
/// the active stack keeps its mode flags.
pub open spec fn toss_replaced(a: InstructionPointer, b: InstructionPointer) -> bool {
    &&& b.pos == a.pos
    &&& b.delta == a.delta
    &&& b.offset == a.offset
    &&& b.string_mode == a.string_mode
    &&& b.id == a.id
    &&& b.dead == a.dead
    &&& b.first_tick == a.first_tick
    &&& b.stacks@.len() == a.stacks@.len()
    &&& forall|i: int| 1 <= i < a.stacks@.len() ==> b.stacks@[i] == a.stacks@[i]
}

/// The version this interpreter reports through the sysinfo opcode.
pub const VERSION: i32 = 10;

/// The four-character tag this interpreter reports through the sysinfo
/// opcode, packed big-endian.
pub const HANDPRINT: i32 = 0x52464E47;

/// Host facts an interpreter cannot compute for itself: the process
/// arguments and environment, each already packed as runs of 0-terminated
/// strings, and the platform's path separator.
pub struct HostEnv {
    /// The process arguments, joined with 0 separators, twice 0-terminated.
    pub args_packed: String,
    /// The environment as key=value entries, joined with 0 separators,
    /// twice 0-terminated.
    pub env_packed: String,
    /// The platform's path separator.
    pub path_sep: char,
}

/// Relies on `rand::thread_rng` and `Rng::gen_range` over `0..4`: the
/// result is drawn from that half-open range, so it is below four; nothing
/// more is promised of it.
#[verifier::external_body]
fn random_below_four() -> (r: u32)
    ensures
        r < 4,
{
    rand::Rng::gen_range(&mut rand::thread_rng(), 0..4u32)
}

/// Relies on `chrono::Utc::now` and `Datelike`: the month number is 1 to
/// 12, the day of month 1 to 31, and the year within the calendar's
/// roughly quarter-million-year range.
#[verifier::external_body]
fn current_date() -> (r: (i64, i64, i64))
    ensures
        -400_000 <= r.0 <= 400_000,
        1 <= r.1 <= 12,
        1 <= r.2 <= 31,
{
    let now = chrono::Utc::now();
    (
        chrono::Datelike::year(&now) as i64,
        chrono::Datelike::month(&now) as i64,
        chrono::Datelike::day(&now) as i64,
    )
}

/// Relies on `chrono::Utc::now` and `Timelike`: the hour is below 24, the
/// minute and second below 60.
#[verifier::external_body]
fn current_time() -> (r: (i64, i64, i64))
    ensures
        0 <= r.0 < 24,
        0 <= r.1 < 60,
        0 <= r.2 < 60,
{
    let now = chrono::Utc::now();
    (
        chrono::Timelike::hour(&now) as i64,
        chrono::Timelike::minute(&now) as i64,
        chrono::Timelike::second(&now) as i64,
    )
}

/// Whether the date and time values lie in the ranges the clock promises.
pub open spec fn clock_in_range(date: (i64, i64, i64), time: (i64, i64, i64)) -> bool {
    &&& -400_000 <= date.0 <= 400_000
    &&& 1 <= date.1 <= 12
    &&& 1 <= date.2 <= 31
    &&& 0 <= time.0 < 24
    &&& 0 <= time.1 < 60
    &&& 0 <= time.2 < 60
}

/// The packed date the sysinfo opcode reports: (year - 1900) shifted two
/// bytes, the month one byte, the day in the low byte; truncated to the
/// cell type.
pub open spec fn date_cell(date: (i64, i64, i64)) -> i32 {
    (((date.0 - 1900) * 0x10000 + date.1 * 0x100 + date.2) as i64) as i32
}

/// The packed time the sysinfo opcode reports: the hour shifted two
/// bytes, the minute one byte, the second in the low byte.
pub open spec fn time_cell(time: (i64, i64, i64)) -> i32 {
    ((time.0 * 0x10000 + time.1 * 0x100 + time.2) as i64) as i32
}

/// A run of zero cells.
pub open spec fn zeros(n: nat) -> Seq<i32> {
    Seq::new(n, |i: int| 0i32)
}

/// The wrapped position one motion step from a position.
pub open spec fn stepped_pos(g: FungeGrid, pos: FungeVector, delta: FungeVector) -> FungeVector {
    FungeVector(
        ((pos.0 + delta.0) % (g.width as int)) as i32,
        ((pos.1 + delta.1) % (g.height as int)) as i32,
    )
}

/// The motion delta turned around, each coordinate negated (wrapping at
/// the type's minimum).
pub open spec fn inverted(d: FungeVector) -> FungeVector {
    FungeVector(crate::vector::spec_neg(d.0), crate::vector::spec_neg(d.1))
}

/// The pointer after one instruction, relative to its state before: the
/// listed fields take the given values, the identity and tick flag stay,
/// the enclosing stacks stay, and the active stack keeps its mode flags
/// while its contents become `ntoss`.
pub open spec fn ip_step(
    p: InstructionPointer,
    q: InstructionPointer,
    np: FungeVector,
    nd: FungeVector,
    noff: FungeVector,
    nsm: bool,
    ndead: bool,
    ntoss: Seq<i32>,
) -> bool {
    &&& q.pos == np
    &&& q.delta == nd
    &&& q.offset == noff
    &&& q.string_mode == nsm
    &&& q.id == p.id
    &&& q.dead == ndead
    &&& q.first_tick == p.first_tick
    &&& q.stacks@.len() == p.stacks@.len()
    &&& forall|i: int| 1 <= i < p.stacks@.len() ==> q.stacks@[i] == p.stacks@[i]
    &&& q.stacks@[0].queue_mode == p.stacks@[0].queue_mode
    &&& q.stacks@[0].invert_mode == p.stacks@[0].invert_mode
    &&& q.toss() == ntoss
}

/// `ip_step` with the pointer's motion state unchanged: only the active
/// stack's contents move.
pub open spec fn toss_step(p: InstructionPointer, q: InstructionPointer, ntoss: Seq<i32>) -> bool {
    ip_step(p, q, p.pos, p.delta, p.offset, p.string_mode, p.dead, ntoss)
}

/// What one write does to the grid: dropped when negative, applied in
/// place inside the bounds, grown-to-fit when expansion is enabled, and
/// rejected otherwise.
pub open spec fn set_char_effect(gpre: FungeGrid, gpost: FungeGrid, pos: FungeVector, c: char) -> bool {
    &&& gpost.wf()
    &&& gpost.og_chars == gpre.og_chars
    &&& gpost.expand == gpre.expand
    &&& gpost.highlights == gpre.highlights
    &&& pos.is_spec_negative() ==> gpost.chars == gpre.chars && gpost.width == gpre.width
        && gpost.height == gpre.height
    &&& !pos.is_spec_negative() && crate::grid::set_lands(&gpre, pos) ==> {
        &&& gpost.width == crate::grid::spec_max(gpre.width as int, pos.0 + 1)
        &&& gpost.height == crate::grid::spec_max(gpre.height as int, pos.1 + 1)
        &&& gpost.cell(pos.0 as int, pos.1 as int) == c
        &&& forall|a: int, b: int|
            !(a == pos.0 && b == pos.1) ==> gpost.cell(a, b) == gpre.cell(a, b)
    }
    &&& !pos.is_spec_negative() && !crate::grid::set_lands(&gpre, pos) ==> gpost.chars
        == gpre.chars && gpost.width == gpre.width && gpost.height == gpre.height
}

/// Whether a character is an arithmetic or comparison opcode that pops two
/// values and pushes one.
pub open spec fn is_binop(c: char) -> bool {
    c == '+' || c == '-' || c == '*' || c == '/' || c == '%' || c == '`'
}

/// The value a two-operand opcode pushes, from the first-popped value `x`
/// and the second-popped value `y`: addition, subtraction and
/// multiplication saturate, division and remainder yield 0 for a zero
/// divisor, and the comparison pushes 1 exactly when `y` is greater.
pub open spec fn binop_result(c: char, x: i32, y: i32) -> i32 {
    if c == '+' {
        sat_add(x, y)
    } else if c == '-' {
        sat_sub(y, x)
    } else if c == '*' {
        sat_mul(x, y)
    } else if c == '/' {
        div_op(y, x)
    } else if c == '%' {
        rem_op(y, x)
    } else {
        if y > x {
            1
        } else {
            0
        }
    }
}

/// Whether a character is a lowercase hex-digit literal opcode.
pub open spec fn is_hex_digit(c: char) -> bool {
    97 <= c as int <= 102
}

/// The value of a lowercase hex-digit literal.
pub open spec fn hex_value(c: char) -> int {
    c as int - 87
}

/// A string value read from the stack: its characters are the ones the
/// popped cells name.
pub open spec fn names_string_cells(s: String, t: Seq<i32>, q: bool) -> bool {
    &&& s@.len() == string_cells(t, q).len()
    &&& forall|i: int|
        0 <= i < s@.len() ==> spec_char_of_cell(string_cells(t, q)[i] as int, s@[i])
}

/// The cells one sysinfo fact pushes, given the pointer's other fields and
/// the active stack's current contents: the environment flags, the cell
/// size, the handprint, the version, the shell convention, the path
/// separator, the dimensionality, the pointer's identity and geometry, the
/// grid bounds, the packed date and time, the stack counts and sizes, and
/// the packed argument and environment strings.
pub open spec fn fact_vals(
    p: InstructionPointer,
    t_now: Seq<i32>,
    n: int,
    g: FungeGrid,
    env: HostEnv,
    date: (i64, i64, i64),
    time: (i64, i64, i64),
) -> Seq<i32> {
    if n == 1 {
        seq![31i32]
    } else if n == 2 {
        seq![4i32]
    } else if n == 3 {
        seq![HANDPRINT]
    } else if n == 4 {
        seq![VERSION]
    } else if n == 5 {
        seq![1i32]
    } else if n == 6 {
        seq![env.path_sep as i32]
    } else if n == 7 {
        seq![2i32]
    } else if n == 8 {
        seq![p.id as i32]
    } else if n == 9 {
        seq![0i32]
    } else if n == 10 {
        seq![p.pos.0, p.pos.1]
    } else if n == 11 {
        seq![p.delta.0, p.delta.1]
    } else if n == 12 {
        seq![p.offset.0, p.offset.1]
    } else if n == 13 {
        seq![0i32, 0i32]
    } else if n == 14 {
        seq![g.width as i32, ((g.height + 1) as i64) as i32]
    } else if n == 15 {
        seq![date_cell(date)]
    } else if n == 16 {
        seq![time_cell(time)]
    } else if n == 17 {
        seq![p.stacks@.len() as i32]
    } else if n == 18 {
        Seq::new(
            p.stacks@.len() as nat,
            |i: int|
                if i == 0 {
                    t_now.len() as i32
                } else {
                    p.stacks@[i]@.len() as i32
                },
        )
    } else if n == 19 {
        seq![0i32] + env.args_packed@.reverse().map_values(|c: char| c as i32)
    } else {
        seq![0i32] + env.env_packed@.reverse().map_values(|c: char| c as i32)
    }
}

/// The active stack's contents after pushing the sysinfo facts from `hi`
/// down to `lo`, in that order.
pub open spec fn facts_span(
    p: InstructionPointer,
    t: Seq<i32>,
    hi: int,
    lo: int,
    g: FungeGrid,
    env: HostEnv,
    date: (i64, i64, i64),
    time: (i64, i64, i64),
) -> Seq<i32>
    decreases hi - lo + 1,
{
    if hi < lo {
        t
    } else {
        facts_span(
            p,
            push_seq(t, p.stacks@[0].invert_mode, fact_vals(p, t, hi, g, env, date, time)),
            hi - 1,
            lo,
            g,
            env,
            date,
            time,
        )
    }
}

/// Extending a span of pushed facts by one more fact at the bottom.
pub proof fn lemma_facts_span_snoc(
    p: InstructionPointer,
    t: Seq<i32>,
    hi: int,
    lo: int,
    g: FungeGrid,
    env: HostEnv,
    date: (i64, i64, i64),
    time: (i64, i64, i64),
)
    requires
        hi >= lo - 1,
        lo >= 1,
    ensures
        facts_span(p, t, hi, lo - 1, g, env, date, time) == push_seq(
            facts_span(p, t, hi, lo, g, env, date, time),
            p.stacks@[0].invert_mode,
            fact_vals(p, facts_span(p, t, hi, lo, g, env, date, time), lo - 1, g, env, date, time),
        ),
    decreases hi - lo + 1,
{
    let inv = p.stacks@[0].invert_mode;
    let t2 = push_seq(t, inv, fact_vals(p, t, hi, g, env, date, time));
    if hi < lo {
        assert(facts_span(p, t, hi, lo, g, env, date, time) == t);
        assert(facts_span(p, t, hi, lo - 1, g, env, date, time) == facts_span(
            p,
            t2,
            hi - 1,
            lo - 1,
            g,
            env,
            date,
            time,
        ));
        assert(facts_span(p, t2, hi - 1, lo - 1, g, env, date, time) == t2);
    } else {
        lemma_facts_span_snoc(p, t2, hi - 1, lo, g, env, date, time);
        assert(facts_span(p, t, hi, lo - 1, g, env, date, time) == facts_span(
            p,
            t2,
            hi - 1,
            lo - 1,
            g,
            env,
            date,
            time,
        ));
        assert(facts_span(p, t, hi, lo, g, env, date, time) == facts_span(
            p,
            t2,
            hi - 1,
            lo,
            g,
            env,
            date,
            time,
        ));
    }
}

/// Pushing a run of values and then one more is pushing the extended run.
pub proof fn lemma_push_seq_snoc(s: Seq<i32>, inv: bool, vs: Seq<i32>, x: i32)
    ensures
        push_seq(s, inv, vs.push(x)) == pushed(push_seq(s, inv, vs), inv, x),
    decreases vs.len(),
{
    if vs.len() == 0 {
        assert(vs.push(x).first() == x);
        assert(vs.push(x).drop_first() =~= Seq::<i32>::empty());
        assert(push_seq(pushed(s, inv, x), inv, Seq::<i32>::empty()) == pushed(s, inv, x));
        assert(push_seq(s, inv, vs) == s);
    } else {
        assert(vs.push(x).first() == vs.first());
        assert(vs.push(x).drop_first() =~= vs.drop_first().push(x));
        lemma_push_seq_snoc(pushed(s, inv, vs.first()), inv, vs.drop_first(), x);
    }
}

/// Pushing a string is pushing its characters' cells in reverse order.
pub proof fn lemma_pushed_string_as_seq(s: Seq<i32>, inv: bool, cs: Seq<char>)
    ensures
        crate::stackable::pushed_string(s, inv, cs) == push_seq(
            s,
            inv,
            cs.reverse().map_values(|c: char| c as i32),
        ),
    decreases cs.len(),
{
    if cs.len() == 0 {
        assert(cs.reverse().map_values(|c: char| c as i32) =~= Seq::<i32>::empty());
    } else {
        lemma_pushed_string_as_seq(s, inv, cs.drop_first());
        let revd = cs.drop_first().reverse().map_values(|c: char| c as i32);
        assert(cs.reverse().map_values(|c: char| c as i32) =~= revd.push(cs.first() as i32));
        lemma_push_seq_snoc(s, inv, revd, cs.first() as i32);
    }
}

/// Nothing outside the pointer changes: the grid, the output and the event
/// queue keep their values and no re-dispatch is requested.
pub open spec fn quiet_step(
    gpre: FungeGrid,
    gpost: FungeGrid,
    outpre: Seq<char>,
    outpost: Seq<char>,
    evpre: Seq<Event>,
    evpost: Seq<Event>,
    redo: Option<(char, u32)>,
) -> bool {
    gpost == gpre && outpost == outpre && evpost == evpre && redo is None
}

/// One event was posted and nothing else outside the pointer changed.
pub open spec fn posted_only(
    gpre: FungeGrid,
    gpost: FungeGrid,
    outpre: Seq<char>,
    outpost: Seq<char>,
    evpre: Seq<Event>,
    evpost: Seq<Event>,
    redo: Option<(char, u32)>,
) -> bool {
    gpost == gpre && outpost == outpre && evpost.len() == evpre.len() + 1 && evpost.subrange(
        0,
        evpre.len() as int,
    ) == evpre && redo is None
}

/// What executing one instruction does, for every opcode: how the new
/// pointer, grid, output, event queue and re-dispatch request relate to
/// the old state. This is the interpreter's single-step semantics.
///
/// Where the language leaves a program stuck or faulting, the step is
/// made total: an orbit with no runnable cell leaves the skip where it
/// stands or reverses the iteration opcode, and a stack too deep for the
/// permutation decoder reverses instead of overflowing.
pub open spec fn command_effect(
    c: char,
    p: InstructionPointer,
    q: InstructionPointer,
    gpre: FungeGrid,
    gpost: FungeGrid,
    outpre: Seq<char>,
    outpost: Seq<char>,
    evpre: Seq<Event>,
    evpost: Seq<Event>,
    env: HostEnv,
    ignore: bool,
    redo: Option<(char, u32)>,
) -> bool {
    let t0 = p.toss();
    let q0 = p.stacks@[0].queue_mode;
    let inv0 = p.stacks@[0].invert_mode;
    let v1 = pop_value(t0, q0);
    let t1 = popped(t0, q0);
    let v2 = pop_value(t1, q0);
    let t2 = popped(t1, q0);
    if c == ' ' {
        &&& gpost == gpre && outpost == outpre && evpost == evpre
        &&& if exists|k: int, pv: FungeVector, cc: char|
            #[trigger] crate::grid::first_nonblank(gpre, p.pos, p.delta, k, pv, cc) {
            exists|k: int, pv: FungeVector, cc: char|
                #[trigger] crate::grid::first_nonblank(gpre, p.pos, p.delta, k, pv, cc) && q == (
                InstructionPointer { pos: pv, ..p }) && redo == Some((cc, 1u32))
        } else {
            q == p && redo is None
        }
    } else if c == '!' {
        &&& toss_step(p, q, pushed(t1, inv0, if v1 == 0 { 1i32 } else { 0i32 }))
        &&& quiet_step(gpre, gpost, outpre, outpost, evpre, evpost, redo)
    } else if c == '"' {
        q == (InstructionPointer { string_mode: true, ..p }) && quiet_step(
            gpre, gpost, outpre, outpost, evpre, evpost, redo)
    } else if c == '#' {
        q == (InstructionPointer { pos: stepped_pos(gpre, p.pos, p.delta), ..p }) && quiet_step(
            gpre, gpost, outpre, outpost, evpre, evpost, redo)
    } else if c == '$' {
        toss_step(p, q, t1) && quiet_step(gpre, gpost, outpre, outpost, evpre, evpost, redo)
    } else if is_binop(c) {
        toss_step(p, q, pushed(t2, inv0, binop_result(c, v1, v2))) && quiet_step(
            gpre, gpost, outpre, outpost, evpre, evpost, redo)
    } else if c == '&' {
        &&& q == p
        &&& posted_only(gpre, gpost, outpre, outpost, evpre, evpost, redo)
        &&& evpost.last() == Event::Input(InputType::Number, p.id)
    } else if c == '\'' {
        &&& ip_step(
            p,
            q,
            stepped_pos(gpre, p.pos, p.delta),
            p.delta,
            p.offset,
            p.string_mode,
            p.dead,
            pushed(
                t0,
                inv0,
                gpre.cell(
                    stepped_pos(gpre, p.pos, p.delta).0 as int,
                    stepped_pos(gpre, p.pos, p.delta).1 as int,
                ) as i32,
            ),
        )
        &&& quiet_step(gpre, gpost, outpre, outpost, evpre, evpost, redo)
    } else if c == ',' {
        &&& toss_step(p, q, t1)
        &&& exists|ch: char|
            spec_char_of_cell(v1 as int, ch) && outpost == outpre.push(ch)
        &&& gpost == gpre && evpost == evpre && redo is None
    } else if c == '.' {
        &&& toss_step(p, q, t1)
        &&& outpost == outpre + int_text(v1 as int) + seq![' ']
        &&& gpost == gpre && evpost == evpre && redo is None
    } else if is_digit(c) {
        toss_step(p, q, pushed(t0, inv0, digit_value(c) as i32)) && quiet_step(
            gpre, gpost, outpre, outpost, evpre, evpost, redo)
    } else if c == ':' {
        toss_step(p, q, pushed(pushed(t1, inv0, v1), inv0, v1)) && quiet_step(
            gpre, gpost, outpre, outpost, evpre, evpost, redo)
    } else if c == ';' {
        &&& gpost == gpre && outpost == outpre && evpost == evpre
        &&& if exists|k: int| #[trigger] crate::grid::first_marker(gpre, p.pos, p.delta, k) {
            exists|k: int|
                #[trigger] crate::grid::first_marker(gpre, p.pos, p.delta, k) && q == (
                InstructionPointer {
                    pos: FungeVector(
                        crate::grid::orbit(gpre, p.pos, p.delta, (k + 1) as nat).0 as i32,
                        crate::grid::orbit(gpre, p.pos, p.delta, (k + 1) as nat).1 as i32,
                    ),
                    ..p
                }) && redo == Some(
                    (
                        gpre.cell(
                            crate::grid::orbit(gpre, p.pos, p.delta, (k + 1) as nat).0,
                            crate::grid::orbit(gpre, p.pos, p.delta, (k + 1) as nat).1,
                        ),
                        1u32,
                    ),
                )
        } else {
            q == p && redo is None
        }
    } else if c == '<' {
        q == (InstructionPointer { delta: FungeVector(-1i32, 0i32), ..p }) && quiet_step(
            gpre, gpost, outpre, outpost, evpre, evpost, redo)
    } else if c == '=' {
        &&& toss_step(p, q, popped_string(t0, q0))
        &&& posted_only(gpre, gpost, outpre, outpost, evpre, evpost, redo)
        &&& (evpost.last() matches Event::Execute(cmd, eid) && names_string_cells(cmd, t0, q0)
            && eid == p.id)
    } else if c == '>' {
        q == (InstructionPointer { delta: FungeVector(1i32, 0i32), ..p }) && quiet_step(
            gpre, gpost, outpre, outpost, evpre, evpost, redo)
    } else if c == '?' {
        &&& exists|d: FungeVector| is_cardinal(d) && q == (InstructionPointer { delta: d, ..p })
        &&& quiet_step(gpre, gpost, outpre, outpost, evpre, evpost, redo)
    } else if c == '@' {
        q == (InstructionPointer { dead: true, ..p }) && quiet_step(
            gpre, gpost, outpre, outpost, evpre, evpost, redo)
    } else if c == '[' {
        q == (InstructionPointer {
            delta: FungeVector(p.delta.1, crate::vector::spec_neg(p.delta.0)),
            ..p
        }) && quiet_step(gpre, gpost, outpre, outpost, evpre, evpost, redo)
    } else if c == '\\' {
        toss_step(p, q, pushed(pushed(t2, inv0, v1), inv0, v2)) && quiet_step(
            gpre, gpost, outpre, outpost, evpre, evpost, redo)
    } else if c == ']' {
        q == (InstructionPointer {
            delta: FungeVector(crate::vector::spec_neg(p.delta.1), p.delta.0),
            ..p
        }) && quiet_step(gpre, gpost, outpre, outpost, evpre, evpost, redo)
    } else if c == '^' {
        q == (InstructionPointer { delta: FungeVector(0i32, -1i32), ..p }) && quiet_step(
            gpre, gpost, outpre, outpost, evpre, evpost, redo)
    } else if c == '_' {
        &&& ip_step(
            p,
            q,
            p.pos,
            if v1 == 0 {
                FungeVector(1i32, 0i32)
            } else {
                FungeVector(-1i32, 0i32)
            },
            p.offset,
            p.string_mode,
            p.dead,
            t1,
        )
        &&& quiet_step(gpre, gpost, outpre, outpost, evpre, evpost, redo)
    } else if is_hex_digit(c) {
        toss_step(p, q, pushed(t0, inv0, hex_value(c) as i32)) && quiet_step(
            gpre, gpost, outpre, outpost, evpre, evpost, redo)
    } else if c == 'g' {
        toss_step(p, q, pushed(t2, inv0, gpre.cell(v2 as int, v1 as int) as i32)) && quiet_step(
            gpre, gpost, outpre, outpost, evpre, evpost, redo)
    } else if c == 'i' {
        let tn = popped_string(t0, q0);
        let flags = pop_value(tn, q0);
        let ta = popped(tn, q0);
        let vy = pop_value(ta, q0);
        let tb = popped(ta, q0);
        let vx = pop_value(tb, q0);
        let tc = popped(tb, q0);
        &&& toss_step(p, q, tc)
        &&& posted_only(gpre, gpost, outpre, outpost, evpre, evpost, redo)
        &&& (evpost.last() matches Event::ReadFile(nm, bin, dest, eid) && names_string_cells(
            nm,
            t0,
            q0,
        ) && bin == ((flags & 1) != 0) && dest == (FungeVector(vx, vy)) && eid == p.id)
    } else if c == 'j' {
        &&& ip_step(
            p,
            q,
            if v1 >= 0 {
                FungeVector(
                    crate::grid::orbit(gpre, p.pos, p.delta, v1 as nat).0 as i32,
                    crate::grid::orbit(gpre, p.pos, p.delta, v1 as nat).1 as i32,
                )
            } else {
                FungeVector(
                    crate::grid::orbit_rev(gpre, p.pos, p.delta, (0 - v1 as int) as nat).0 as i32,
                    crate::grid::orbit_rev(gpre, p.pos, p.delta, (0 - v1 as int) as nat).1 as i32,
                )
            },
            p.delta,
            p.offset,
            p.string_mode,
            p.dead,
            t1,
        )
        &&& quiet_step(gpre, gpost, outpre, outpost, evpre, evpost, redo)
    } else if c == 'k' {
        &&& gpost == gpre && outpost == outpre && evpost == evpre
        &&& (v1 == 0 ==> ip_step(
            p,
            q,
            stepped_pos(gpre, p.pos, p.delta),
            p.delta,
            p.offset,
            p.string_mode,
            p.dead,
            t1,
        ) && redo is None)
        &&& (v1 < 0 ==> toss_step(p, q, t1) && redo is None)
        &&& (v1 > 0 ==> if exists|k: int, pv: FungeVector, cc: char|
            #[trigger] crate::grid::first_runnable(gpre, p.pos, p.delta, k, pv, cc) {
            (exists|k: int, pv: FungeVector, cc: char|
                #[trigger] crate::grid::first_runnable(gpre, p.pos, p.delta, k, pv, cc) && redo
                    == Some((cc, v1 as u32))) && toss_step(p, q, t1)
        } else {
            ip_step(p, q, p.pos, inverted(p.delta), p.offset, p.string_mode, p.dead, t1)
                && redo is None
        })
    } else if c == 'l' {
        &&& quiet_step(gpre, gpost, outpre, outpost, evpre, evpost, redo)
        &&& if t1.len() <= 21 {
            exists|tp: Seq<i32>|
                #![auto]
                toss_step(p, q, tp) && tp.len() == t1.len() && forall|i: int|
                    0 <= i < tp.len() ==> tp[i] == t1[crate::stack::lehmer_perm(
                        v1 as usize as nat,
                        t1.len() as nat,
                    )[i]]
        } else {
            ip_step(p, q, p.pos, inverted(p.delta), p.offset, p.string_mode, p.dead, t1)
        }
    } else if c == 'n' {
        toss_step(p, q, Seq::<i32>::empty()) && quiet_step(
            gpre, gpost, outpre, outpost, evpre, evpost, redo)
    } else if c == 'o' {
        let tn = popped_string(t0, q0);
        let flags = pop_value(tn, q0);
        let ta = popped(tn, q0);
        let vay = pop_value(ta, q0);
        let ta2 = popped(ta, q0);
        let vax = pop_value(ta2, q0);
        let tb = popped(ta2, q0);
        let vby = pop_value(tb, q0);
        let tb2 = popped(tb, q0);
        let vbx = pop_value(tb2, q0);
        let tc = popped(tb2, q0);
        let va = FungeVector(vax, vay);
        let vb = FungeVector(vbx, vby);
        let region = if crate::grid::region_ok(gpre, va, vb) {
            crate::grid::region_text(gpre, vax as int, vbx as int, vay as int, vby as int)
        } else {
            Seq::<char>::empty()
        };
        let text = if (flags & 1) != 0 {
            crate::text::trimmed_end(crate::text::linearized(region))
        } else {
            region
        };
        &&& toss_step(p, q, tc)
        &&& posted_only(gpre, gpost, outpre, outpost, evpre, evpost, redo)
        &&& (evpost.last() matches Event::WriteFile(nm, txt, eid) && names_string_cells(
            nm,
            t0,
            q0,
        ) && txt@ == text && eid == p.id)
    } else if c == 'p' {
        let vy = v1;
        let vx = v2;
        let vc = pop_value(t2, q0);
        let t3 = popped(t2, q0);
        let target = FungeVector(sat_add(vx, p.offset.0), sat_add(vy, p.offset.1));
        &&& toss_step(p, q, t3)
        &&& exists|ch: char|
            spec_char_of_cell(vc as int, ch) && set_char_effect(gpre, gpost, target, ch)
        &&& outpost == outpre && evpost == evpre && redo is None
    } else if c == 'q' {
        &&& toss_step(p, q, t1)
        &&& posted_only(gpre, gpost, outpre, outpost, evpre, evpost, redo)
        &&& evpost.last() == Event::Kill(v1)
    } else if c == 'r' {
        q == (InstructionPointer { delta: inverted(p.delta), ..p }) && quiet_step(
            gpre, gpost, outpre, outpost, evpre, evpost, redo)
    } else if c == 's' {
        let ahead = stepped_pos(gpre, p.pos, p.delta);
        &&& ip_step(p, q, ahead, p.delta, p.offset, p.string_mode, p.dead, t1)
        &&& exists|ch: char|
            spec_char_of_cell(v1 as int, ch) && set_char_effect(gpre, gpost, ahead, ch)
        &&& outpost == outpre && evpost == evpre && redo is None
    } else if c == 't' {
        &&& q == p
        &&& posted_only(gpre, gpost, outpre, outpost, evpre, evpost, redo)
        &&& evpost.last() == Event::Spawn(p.id)
    } else if c == 'u' {
        &&& quiet_step(gpre, gpost, outpre, outpost, evpre, evpost, redo)
        &&& if p.stacks@.len() == 1 {
            q == (InstructionPointer { delta: inverted(p.delta), ..p })
        } else {
            let soss = p.stacks@[1]@;
            let q1 = p.stacks@[1].queue_mode;
            let inv1 = p.stacks@[1].invert_mode;
            &&& q.pos == p.pos && q.delta == p.delta && q.offset == p.offset && q.string_mode
                == p.string_mode && q.id == p.id && q.dead == p.dead && q.first_tick
                == p.first_tick
            &&& q.stacks@.len() == p.stacks@.len()
            &&& forall|i: int| 2 <= i < p.stacks@.len() ==> q.stacks@[i] == p.stacks@[i]
            &&& q.stacks@[0].queue_mode == q0 && q.stacks@[0].invert_mode == inv0
            &&& q.stacks@[1].queue_mode == q1 && q.stacks@[1].invert_mode == inv1
            &&& (v1 > 0 ==> q.toss() == push_seq(t1, inv0, popn_vals(soss, q1, v1 as nat))
                && q.stacks@[1]@ == popn_rest(soss, q1, v1 as nat))
            &&& (v1 < 0 ==> q.toss() == popn_rest(t1, q0, (0 - v1 as int) as nat) && q.stacks@[1]@
                == push_seq(soss, inv1, popn_vals(t1, q0, (0 - v1 as int) as nat)))
            &&& (v1 == 0 ==> q.toss() == t1 && q.stacks@[1]@ == soss)
        }
    } else if c == 'v' {
        q == (InstructionPointer { delta: FungeVector(0i32, 1i32), ..p }) && quiet_step(
            gpre, gpost, outpre, outpost, evpre, evpost, redo)
    } else if c == 'w' {
        &&& ip_step(
            p,
            q,
            p.pos,
            if v2 < v1 {
                FungeVector(p.delta.1, crate::vector::spec_neg(p.delta.0))
            } else if v2 > v1 {
                FungeVector(crate::vector::spec_neg(p.delta.1), p.delta.0)
            } else {
                p.delta
            },
            p.offset,
            p.string_mode,
            p.dead,
            t2,
        )
        &&& quiet_step(gpre, gpost, outpre, outpost, evpre, evpost, redo)
    } else if c == 'x' {
        ip_step(p, q, p.pos, FungeVector(v2, v1), p.offset, p.string_mode, p.dead, t2)
            && quiet_step(gpre, gpost, outpre, outpost, evpre, evpost, redo)
    } else if c == 'y' {
        &&& quiet_step(gpre, gpost, outpre, outpost, evpre, evpost, redo)
        &&& exists|date: (i64, i64, i64), time: (i64, i64, i64)|
            #![auto]
            clock_in_range(date, time) && if v1 > 20 {
                toss_step(p, q, popn_rest(t1, q0, (v1 - 20) as nat))
            } else if v1 >= 1 {
                toss_step(p, q, push_seq(t1, inv0, fact_vals(p, t1, v1 as int, gpre, env, date, time)))
            } else {
                toss_step(p, q, facts_span(p, t1, 20, 1, gpre, env, date, time))
            }
    } else if c == 'z' {
        q == p && quiet_step(gpre, gpost, outpre, outpost, evpre, evpost, redo)
    } else if c == '{' {
        &&& quiet_step(gpre, gpost, outpre, outpost, evpre, evpost, redo)
        &&& ({
            let transferred = if v1 > 0 {
                popn_vals(t1, q0, v1 as nat)
            } else {
                Seq::<i32>::empty()
            };
            let soss_mid = if v1 > 0 {
                popn_rest(t1, q0, v1 as nat)
            } else if v1 < 0 {
                push_seq(t1, inv0, zeros((0 - v1 as int) as nat))
            } else {
                t1
            };
            &&& q.pos == p.pos && q.delta == p.delta && q.string_mode == p.string_mode && q.id
                == p.id && q.dead == p.dead && q.first_tick == p.first_tick
            &&& q.offset == (FungeVector(
                sat_add(p.pos.0, p.delta.0),
                sat_add(p.pos.1, p.delta.1),
            ))
            &&& q.stacks@.len() == p.stacks@.len() + 1
            &&& forall|i: int| 2 <= i < q.stacks@.len() ==> q.stacks@[i] == p.stacks@[i - 1]
            &&& !q.stacks@[0].queue_mode && !q.stacks@[0].invert_mode
            &&& q.stacks@[1].queue_mode == q0 && q.stacks@[1].invert_mode == inv0
            &&& q.toss() == push_seq(Seq::<i32>::empty(), false, transferred.reverse())
            &&& q.stacks@[1]@ == pushed(pushed(soss_mid, inv0, p.offset.0), inv0, p.offset.1)
        })
    } else if c == '|' {
        &&& ip_step(
            p,
            q,
            p.pos,
            if v1 == 0 {
                FungeVector(0i32, 1i32)
            } else {
                FungeVector(0i32, -1i32)
            },
            p.offset,
            p.string_mode,
            p.dead,
            t1,
        )
        &&& quiet_step(gpre, gpost, outpre, outpost, evpre, evpost, redo)
    } else if c == '}' {
        &&& quiet_step(gpre, gpost, outpre, outpost, evpre, evpost, redo)
        &&& if p.stacks@.len() == 1 {
            q == (InstructionPointer { delta: inverted(p.delta), ..p })
        } else {
            let soss = p.stacks@[1]@;
            let q1 = p.stacks@[1].queue_mode;
            let inv1 = p.stacks@[1].invert_mode;
            let offy = pop_value(soss, q1);
            let s1 = popped(soss, q1);
            let offx = pop_value(s1, q1);
            let s2 = popped(s1, q1);
            let soss_final = if v1 > 0 {
                push_seq(s2, inv1, popn_vals(t1, q0, v1 as nat).reverse())
            } else if v1 < 0 {
                popn_rest(s2, q1, (0 - v1 as int) as nat)
            } else {
                s2
            };
            &&& q.pos == p.pos && q.delta == p.delta && q.string_mode == p.string_mode && q.id
                == p.id && q.dead == p.dead && q.first_tick == p.first_tick
            &&& q.offset == (FungeVector(offx, offy))
            &&& q.stacks@.len() == p.stacks@.len() - 1
            &&& forall|i: int| 1 <= i < q.stacks@.len() ==> q.stacks@[i] == p.stacks@[i + 1]
            &&& q.stacks@[0].queue_mode == q1 && q.stacks@[0].invert_mode == inv1
            &&& q.toss() == soss_final
        }
    } else if c == '~' {
        &&& q == p
        &&& posted_only(gpre, gpost, outpre, outpost, evpre, evpost, redo)
        &&& evpost.last() == Event::Input(InputType::Character, p.id)
    } else {
        &&& quiet_step(gpre, gpost, outpre, outpost, evpre, evpost, redo)
        &&& if ignore {
            q == p
        } else {
            q == (InstructionPointer { delta: inverted(p.delta), ..p })
        }
    }
}

/// Pushing one value is pushing a run of one.
proof fn lemma_push_one(t: Seq<i32>, inv: bool, v: i32)
    ensures
        push_seq(t, inv, seq![v]) == pushed(t, inv, v),
{
    assert(seq![v].first() == v);
    assert(seq![v].drop_first() =~= Seq::<i32>::empty());
    assert(push_seq(pushed(t, inv, v), inv, Seq::<i32>::empty()) == pushed(t, inv, v));
}

/// Pushing two values is pushing a run of two.
proof fn lemma_push_two(t: Seq<i32>, inv: bool, a: i32, b: i32)
    ensures
        push_seq(t, inv, seq![a, b]) == pushed(pushed(t, inv, a), inv, b),
{
    assert(seq![a, b].first() == a);
    assert(seq![a, b].drop_first() =~= seq![b]);
    lemma_push_one(pushed(t, inv, a), inv, b);
}

/// The values one reversal yields.
fn reverse_vec(v: &Vec<i32>) -> (r: Vec<i32>)
    ensures
        r@ == v@.reverse(),
{
    let mut r: Vec<i32> = Vec::new();
    let mut i: usize = v.len();
    while i > 0
        invariant
            i <= v@.len(),
            r@.len() == v@.len() - i,
            forall|k: int| 0 <= k < r@.len() ==> r@[k] == v@[v@.len() - 1 - k],
        decreases i,
    {
        i -= 1;
        r.push(v[i]);
    }
    proof {
        assert(r@ =~= v@.reverse());
    }
    r
}

impl InstructionPointer {
    /// Push one sysinfo fact onto the active stack.
    pub fn push_sysinfo_fact(
        &mut self,
        n: i32,
        grid: &FungeGrid,
        env: &HostEnv,
        date: (i64, i64, i64),
        time: (i64, i64, i64),
    )
        requires
            old(self).wf(),
            grid.wf(),
            1 <= n <= 20,
            clock_in_range(date, time),
        ensures
            final(self).wf(),
            toss_replaced(*old(self), *final(self)),
            final(self).stacks@[0].queue_mode == old(self).stacks@[0].queue_mode,
            final(self).stacks@[0].invert_mode == old(self).stacks@[0].invert_mode,
            final(self).toss() == push_seq(
                old(self).toss(),
                old(self).stacks@[0].invert_mode,
                fact_vals(*old(self), old(self).toss(), n as int, *grid, *env, date, time),
            ),
    {
        let ghost t = self.toss();
        let ghost inv = self.stacks@[0].invert_mode;
        if n == 1 {
            self.push(31);
            proof {
                lemma_push_one(t, inv, 31);
            }
        } else if n == 2 {
            self.push(4);
            proof {
                lemma_push_one(t, inv, 4);
            }
        } else if n == 3 {
            self.push(HANDPRINT);
            proof {
                lemma_push_one(t, inv, HANDPRINT);
            }
        } else if n == 4 {
            self.push(VERSION);
            proof {
                lemma_push_one(t, inv, VERSION);
            }
        } else if n == 5 {
            self.push(1);
            proof {
                lemma_push_one(t, inv, 1);
            }
        } else if n == 6 {
            let sep = env.path_sep as u32;
            let v = #[verifier::truncate] (sep as i32);
            self.push(v);
            proof {
                lemma_push_one(t, inv, v);
            }
        } else if n == 7 {
            self.push(2);
            proof {
                lemma_push_one(t, inv, 2);
            }
        } else if n == 8 {
            let v = #[verifier::truncate] (self.id as i32);
            self.push(v);
            proof {
                lemma_push_one(t, inv, v);
            }
        } else if n == 9 {
            self.push(0);
            proof {
                lemma_push_one(t, inv, 0);
            }
        } else if n == 10 {
            let p = self.pos;
            self.push(p.0);
            self.push(p.1);
            proof {
                lemma_push_two(t, inv, p.0, p.1);
            }
        } else if n == 11 {
            let d = self.delta;
            self.push(d.0);
            self.push(d.1);
            proof {
                lemma_push_two(t, inv, d.0, d.1);
            }
        } else if n == 12 {
            let o = self.offset;
            self.push(o.0);
            self.push(o.1);
            proof {
                lemma_push_two(t, inv, o.0, o.1);
            }
        } else if n == 13 {
            self.push(0);
            self.push(0);
            proof {
                lemma_push_two(t, inv, 0, 0);
            }
        } else if n == 14 {
            let w = #[verifier::truncate] (grid.width() as i32);
            let h64: i64 = grid.height() as i64 + 1;
            let h = #[verifier::truncate] (h64 as i32);
            self.push(w);
            self.push(h);
            proof {
                lemma_push_two(t, inv, w, h);
            }
        } else if n == 15 {
            let enc64: i64 = (date.0 - 1900) * 0x10000 + date.1 * 0x100 + date.2;
            let v = #[verifier::truncate] (enc64 as i32);
            self.push(v);
            proof {
                lemma_push_one(t, inv, v);
            }
        } else if n == 16 {
            let enc64: i64 = time.0 * 0x10000 + time.1 * 0x100 + time.2;
            let v = #[verifier::truncate] (enc64 as i32);
            self.push(v);
            proof {
                lemma_push_one(t, inv, v);
            }
        } else if n == 17 {
            let v = #[verifier::truncate] (self.stacks.len() as i32);
            self.push(v);
            proof {
                lemma_push_one(t, inv, v);
            }
        } else if n == 18 {
            let mut lens: Vec<i32> = Vec::new();
            let count = self.stacks.len();
            let mut i: usize = 0;
            while i < count
                invariant
                    self.wf(),
                    i <= count,
                    count == self.stacks@.len(),
                    lens@.len() == i,
                    forall|k: int|
                        0 <= k < i ==> lens@[k] == ((#[trigger] self.stacks@[k])@.len() as i32),
                decreases count - i,
            {
                let l = #[verifier::truncate] (self.stacks[i].len() as i32);
                lens.push(l);
                i += 1;
            }
            proof {
                assert(lens@ =~= fact_vals(*self, t, 18, *grid, *env, date, time));
            }
            self.toss_pushn(&lens);
        } else if n == 19 {
            let s = env.args_packed.clone();
            self.push_t::<String>(s);
            proof {
                lemma_pushed_string_as_seq(pushed(t, inv, 0), inv, env.args_packed@);
                let vals = fact_vals(*old(self), t, 19, *grid, *env, date, time);
                assert(vals.first() == 0i32);
                assert(vals.drop_first() =~= env.args_packed@.reverse().map_values(
                    |c: char| c as i32,
                ));
                assert(push_seq(t, inv, vals) == push_seq(pushed(t, inv, 0), inv, vals.drop_first()));
            }
        } else {
            let s = env.env_packed.clone();
            self.push_t::<String>(s);
            proof {
                lemma_pushed_string_as_seq(pushed(t, inv, 0), inv, env.env_packed@);
                let vals = fact_vals(*old(self), t, 20, *grid, *env, date, time);
                assert(vals.first() == 0i32);
                assert(vals.drop_first() =~= env.env_packed@.reverse().map_values(
                    |c: char| c as i32,
                ));
                assert(push_seq(t, inv, vals) == push_seq(pushed(t, inv, 0), inv, vals.drop_first()));
            }
        }
    }
}

/// Append characters to the output buffer.
fn extend_out(out: &mut Vec<char>, cs: &Vec<char>)
    ensures
        final(out)@ == old(out)@ + cs@,
{
    let mut i: usize = 0;
    while i < cs.len()
        invariant
            i <= cs@.len(),
            out@ == old(out)@ + cs@.subrange(0, i as int),
        decreases cs@.len() - i,
    {
        out.push(cs[i]);
        i += 1;
        proof {
            assert(out@ =~= old(out)@ + cs@.subrange(0, i as int));
        }
    }
    proof {
        assert(out@ =~= old(out)@ + cs@);
    }
}

/// The value of a lowercase hex-digit literal opcode, or `None` for any
/// other character.
fn hex_of(c: char) -> (r: Option<i32>)
    ensures
        r is Some <==> is_hex_digit(c),
        r is Some ==> r->0 == hex_value(c),
{
    match c {
        'a' => Some(10),
        'b' => Some(11),
        'c' => Some(12),
        'd' => Some(13),
        'e' => Some(14),
        'f' => Some(15),
        _ => None,
    }
}


/// The blank-space and jump-over opcodes.
pub open spec fn is_skip_op(c: char) -> bool {
    c == ' ' || c == ';'
}

/// The opcodes that only manipulate the active stack.
pub open spec fn is_value_op(c: char) -> bool {
    c == '!' || c == '$' || is_binop(c) || is_digit(c) || c == ':' || c == '\\' || is_hex_digit(
        c,
    ) || c == 'n'
}

/// The output opcodes.
pub open spec fn is_output_op(c: char) -> bool {
    c == ',' || c == '.'
}

/// The opcodes that post a coordination event.
pub open spec fn is_post_op(c: char) -> bool {
    c == '&' || c == '=' || c == 'i' || c == 'o' || c == 'q' || c == 't' || c == '~'
}

/// The opcodes that read or write grid cells.
pub open spec fn is_cells_op(c: char) -> bool {
    c == '\'' || c == 'g' || c == 'p' || c == 's'
}

/// The jump, iterate and permute opcodes.
pub open spec fn is_flow_op(c: char) -> bool {
    c == 'j' || c == 'k' || c == 'l'
}

/// The stack-of-stacks opcodes.
pub open spec fn is_scope_op(c: char) -> bool {
    c == 'u' || c == '{' || c == '}'
}

impl InstructionPointer {
    /// Execute blank-space pass-through and marker jumps.
    #[verifier::rlimit(100)]
    #[verifier::spinoff_prover]
    fn op_skip(
        &mut self,
        c: char,
        grid: &mut FungeGrid,
        events: &mut EventHandler,
        out: &mut Vec<char>,
        env: &HostEnv,
        ignore: bool,
    ) -> (redo: Option<(char, u32)>)
        requires
            old(self).wf(),
            old(grid).wf(),
            0 <= old(self).pos.0 < old(grid).width,
            0 <= old(self).pos.1 < old(grid).height,
            is_skip_op(c),
        ensures
            final(self).wf(),
            final(grid).wf(),
            0 <= final(self).pos.0 < final(grid).width,
            0 <= final(self).pos.1 < final(grid).height,
            old(grid).width <= final(grid).width,
            old(grid).height <= final(grid).height,
            final(self).id == old(self).id,
            final(grid).og_chars == old(grid).og_chars,
            final(grid).expand == old(grid).expand,
            command_effect(
                c,
                *old(self),
                *final(self),
                *old(grid),
                *final(grid),
                old(out)@,
                final(out)@,
                old(events).queue@,
                final(events).queue@,
                *env,
                ignore,
                redo,
            ),
    {
        let ghost p0 = *old(self);
        let ghost g0 = *old(grid);
        if c == ' ' {
            match grid.find_nonblank_from(self.pos, self.delta) {
                Some((pv, cc)) => {
                    self.pos = pv;
                    proof {
                        let k0 = choose|k: int|
                            crate::grid::first_nonblank(g0, p0.pos, p0.delta, k, pv, cc);
                        assert(crate::grid::first_nonblank(g0, p0.pos, p0.delta, k0, pv, cc));
                    }
                    Some((cc, 1))
                },
                None => {
                    proof {
                        if exists|k: int, pv: FungeVector, cc: char|
                            #[trigger] crate::grid::first_nonblank(g0, p0.pos, p0.delta, k, pv, cc) {
                            let (k0, pv0, cc0) = choose|k: int, pv: FungeVector, cc: char|
                                crate::grid::first_nonblank(g0, p0.pos, p0.delta, k, pv, cc);
                            assert(g0.cell(
                                crate::grid::orbit(g0, p0.pos, p0.delta, k0 as nat).0,
                                crate::grid::orbit(g0, p0.pos, p0.delta, k0 as nat).1,
                            ) == ' ');
                            assert(false);
                        }
                    }
                    None
                },
            }
        } else if c == ';' {
            match grid.find_marker_ahead(self.pos, self.delta) {
                Some(mp) => {
                    let ghost k0 = choose|k: int|
                        crate::grid::first_marker(g0, p0.pos, p0.delta, k)
                            && crate::grid::orbit(g0, p0.pos, p0.delta, k as nat) == (
                        mp.0 as int,
                        mp.1 as int,
                        ) && 0 <= mp.0 < g0.width && 0 <= mp.1 < g0.height;
                    let next = grid.cell_ahead(mp, self.delta);
                    self.pos = next;
                    let cc = grid.char_at(next);
                    proof {
                        assert(crate::grid::orbit(g0, p0.pos, p0.delta, (k0 + 1) as nat) == (
                            next.0 as int,
                            next.1 as int,
                        ));
                        assert(crate::grid::first_marker(g0, p0.pos, p0.delta, k0));
                    }
                    Some((cc, 1))
                },
                None => {
                    proof {
                        if exists|k: int| #[trigger] crate::grid::first_marker(
                            g0,
                            p0.pos,
                            p0.delta,
                            k,
                        ) {
                            let k0 = choose|k: int|
                                crate::grid::first_marker(g0, p0.pos, p0.delta, k);
                            assert(g0.cell(
                                crate::grid::orbit(g0, p0.pos, p0.delta, k0 as nat).0,
                                crate::grid::orbit(g0, p0.pos, p0.delta, k0 as nat).1,
                            ) == ';');
                            assert(false);
                        }
                    }
                    None
                },
            }
        } else {
            proof {
                assert(false);
            }
            None
        }
    }

    /// Execute pure stack manipulation: literals, arithmetic,
    /// duplication, swapping, discarding and clearing.
    #[verifier::rlimit(100)]
    #[verifier::spinoff_prover]
    fn op_value(
        &mut self,
        c: char,
        grid: &mut FungeGrid,
        events: &mut EventHandler,
        out: &mut Vec<char>,
        env: &HostEnv,
        ignore: bool,
    ) -> (redo: Option<(char, u32)>)
        requires
            old(self).wf(),
            old(grid).wf(),
            0 <= old(self).pos.0 < old(grid).width,
            0 <= old(self).pos.1 < old(grid).height,
            is_value_op(c),
        ensures
            final(self).wf(),
            final(grid).wf(),
            0 <= final(self).pos.0 < final(grid).width,
            0 <= final(self).pos.1 < final(grid).height,
            old(grid).width <= final(grid).width,
            old(grid).height <= final(grid).height,
            final(self).id == old(self).id,
            final(grid).og_chars == old(grid).og_chars,
            final(grid).expand == old(grid).expand,
            command_effect(
                c,
                *old(self),
                *final(self),
                *old(grid),
                *final(grid),
                old(out)@,
                final(out)@,
                old(events).queue@,
                final(events).queue@,
                *env,
                ignore,
                redo,
            ),
    {
        let ghost p0 = *old(self);
        let ghost g0 = *old(grid);
        if c == '!' {
            let v = self.pop();
            self.push(if v == 0 { 1 } else { 0 });
            None
        } else if c == '$' {
            let _ = self.pop();
            None
        } else if c == '+' || c == '-' || c == '*' || c == '/' || c == '%' || c == '`' {
            let x = self.pop();
            let y = self.pop();
            let r = if c == '+' {
                crate::vector::sat_add_exec(x, y)
            } else if c == '-' {
                crate::arith::sat_sub_exec(y, x)
            } else if c == '*' {
                crate::arith::sat_mul_exec(x, y)
            } else if c == '/' {
                crate::arith::div_op_exec(y, x)
            } else if c == '%' {
                crate::arith::rem_op_exec(y, x)
            } else {
                if y > x {
                    1
                } else {
                    0
                }
            };
            self.push(r);
            None
        } else if let Some(d) = crate::text::digit_of(c) {
            let v = #[verifier::truncate] (d as i32);
            proof {
                assert(v as int == digit_value(c));
            }
            self.push(v);
            None
        } else if c == ':' {
            let v = self.pop();
            self.push(v);
            self.push(v);
            None
        } else if c == '\\' {
            let x = self.pop();
            let y = self.pop();
            self.push(x);
            self.push(y);
            None
        } else if let Some(h) = hex_of(c) {
            self.push(h);
            None
        } else if c == 'n' {
            let mut s = self.stacks.remove(0);
            s.clear();
            self.stacks.insert(0, s);
            proof {
                assert(final(self).stacks@ =~= old(self).stacks@.update(
                    0,
                    final(self).stacks@[0],
                ));
            }
            None
        } else {
            proof {
                assert(false);
            }
            None
        }
    }

    /// Execute character and integer output.
    #[verifier::rlimit(100)]
    #[verifier::spinoff_prover]
    fn op_output(
        &mut self,
        c: char,
        grid: &mut FungeGrid,
        events: &mut EventHandler,
        out: &mut Vec<char>,
        env: &HostEnv,
        ignore: bool,
    ) -> (redo: Option<(char, u32)>)
        requires
            old(self).wf(),
            old(grid).wf(),
            0 <= old(self).pos.0 < old(grid).width,
            0 <= old(self).pos.1 < old(grid).height,
            is_output_op(c),
        ensures
            final(self).wf(),
            final(grid).wf(),
            0 <= final(self).pos.0 < final(grid).width,
            0 <= final(self).pos.1 < final(grid).height,
            old(grid).width <= final(grid).width,
            old(grid).height <= final(grid).height,
            final(self).id == old(self).id,
            final(grid).og_chars == old(grid).og_chars,
            final(grid).expand == old(grid).expand,
            command_effect(
                c,
                *old(self),
                *final(self),
                *old(grid),
                *final(grid),
                old(out)@,
                final(out)@,
                old(events).queue@,
                final(events).queue@,
                *env,
                ignore,
                redo,
            ),
    {
        let ghost p0 = *old(self);
        let ghost g0 = *old(grid);
        if c == ',' {
            let ch: char = self.pop_t();
            out.push(ch);
            None
        } else if c == '.' {
            let v = self.pop();
            let txt = crate::text::format_i32(v);
            extend_out(out, &txt);
            out.push(' ');
            proof {
                assert(final(out)@ =~= old(out)@ + int_text(v as int) + seq![' ']);
            }
            None
        } else {
            proof {
                assert(false);
            }
            None
        }
    }

    /// Execute opcodes that post a coordination event.
    #[verifier::rlimit(100)]
    #[verifier::spinoff_prover]
    fn op_post(
        &mut self,
        c: char,
        grid: &mut FungeGrid,
        events: &mut EventHandler,
        out: &mut Vec<char>,
        env: &HostEnv,
        ignore: bool,
    ) -> (redo: Option<(char, u32)>)
        requires
            old(self).wf(),
            old(grid).wf(),
            0 <= old(self).pos.0 < old(grid).width,
            0 <= old(self).pos.1 < old(grid).height,
            is_post_op(c),
        ensures
            final(self).wf(),
            final(grid).wf(),
            0 <= final(self).pos.0 < final(grid).width,
            0 <= final(self).pos.1 < final(grid).height,
            old(grid).width <= final(grid).width,
            old(grid).height <= final(grid).height,
            final(self).id == old(self).id,
            final(grid).og_chars == old(grid).og_chars,
            final(grid).expand == old(grid).expand,
            command_effect(
                c,
                *old(self),
                *final(self),
                *old(grid),
                *final(grid),
                old(out)@,
                final(out)@,
                old(events).queue@,
                final(events).queue@,
                *env,
                ignore,
                redo,
            ),
    {
        let ghost p0 = *old(self);
        let ghost g0 = *old(grid);
        if c == '&' {
            events.post(Event::Input(InputType::Number, self.id));
            proof {
                assert(final(events).queue@.subrange(0, old(events).queue@.len() as int)
                    =~= old(events).queue@);
            }
            None
        } else if c == '=' {
            let cmd: String = self.pop_t();
            events.post(Event::Execute(cmd, self.id));
            proof {
                assert(final(events).queue@.subrange(0, old(events).queue@.len() as int)
                    =~= old(events).queue@);
            }
            None
        } else if c == 'i' {
            let filename: String = self.pop_t();
            let flags = self.pop();
            let dest: FungeVector = self.pop_t();
            events.post(Event::ReadFile(filename, flags & 1 != 0, dest, self.id));
            proof {
                assert(final(events).queue@.subrange(0, old(events).queue@.len() as int)
                    =~= old(events).queue@);
            }
            None
        } else if c == 'o' {
            let filename: String = self.pop_t();
            let flags = self.pop();
            let va: FungeVector = self.pop_t();
            let vb: FungeVector = self.pop_t();
            let raw = grid.read_from(va, vb);
            let text = if flags & 1 != 0 {
                let cs = crate::text::str_chars(raw.as_str());
                let lin = crate::text::linearize(&cs);
                let tr = crate::text::trim_end(lin);
                crate::text::chars_to_string(&tr)
            } else {
                raw
            };
            events.post(Event::WriteFile(filename, text, self.id));
            proof {
                assert(final(events).queue@.subrange(0, old(events).queue@.len() as int)
                    =~= old(events).queue@);
            }
            None
        } else if c == 'q' {
            let code = self.pop();
            events.post(Event::Kill(code));
            proof {
                assert(final(events).queue@.subrange(0, old(events).queue@.len() as int)
                    =~= old(events).queue@);
            }
            None
        } else if c == 't' {
            events.post(Event::Spawn(self.id));
            proof {
                assert(final(events).queue@.subrange(0, old(events).queue@.len() as int)
                    =~= old(events).queue@);
            }
            None
        } else if c == '~' {
            events.post(Event::Input(InputType::Character, self.id));
            proof {
                assert(final(events).queue@.subrange(0, old(events).queue@.len() as int)
                    =~= old(events).queue@);
            }
            None
        } else {
            proof {
                assert(false);
            }
            None
        }
    }

    /// Execute opcodes that read or write grid cells.
    #[verifier::rlimit(100)]
    #[verifier::spinoff_prover]
    fn op_cells(
        &mut self,
        c: char,
        grid: &mut FungeGrid,
        events: &mut EventHandler,
        out: &mut Vec<char>,
        env: &HostEnv,
        ignore: bool,
    ) -> (redo: Option<(char, u32)>)
        requires
            old(self).wf(),
            old(grid).wf(),
            0 <= old(self).pos.0 < old(grid).width,
            0 <= old(self).pos.1 < old(grid).height,
            is_cells_op(c),
        ensures
            final(self).wf(),
            final(grid).wf(),
            0 <= final(self).pos.0 < final(grid).width,
            0 <= final(self).pos.1 < final(grid).height,
            old(grid).width <= final(grid).width,
            old(grid).height <= final(grid).height,
            final(self).id == old(self).id,
            final(grid).og_chars == old(grid).og_chars,
            final(grid).expand == old(grid).expand,
            command_effect(
                c,
                *old(self),
                *final(self),
                *old(grid),
                *final(grid),
                old(out)@,
                final(out)@,
                old(events).queue@,
                final(events).queue@,
                *env,
                ignore,
                redo,
            ),
    {
        let ghost p0 = *old(self);
        let ghost g0 = *old(grid);
        if c == '\'' {
            self.walk(grid);
            let ch = grid.char_at(self.pos);
            let v = #[verifier::truncate] ((ch as u32) as i32);
            proof {
                assert(ch as int <= 0x10FFFF);
                assert(v as int == ch as int);
            }
            self.push(v);
            proof {
                let np = stepped_pos(g0, p0.pos, p0.delta);
                assert(self.pos == np);
                assert(ch == g0.cell(np.0 as int, np.1 as int));
                assert(self.toss() == pushed(
                    p0.toss(),
                    p0.stacks@[0].invert_mode,
                    g0.cell(np.0 as int, np.1 as int) as i32,
                ));
                assert(ip_step(
                    p0,
                    *self,
                    np,
                    p0.delta,
                    p0.offset,
                    p0.string_mode,
                    p0.dead,
                    pushed(
                        p0.toss(),
                        p0.stacks@[0].invert_mode,
                        g0.cell(np.0 as int, np.1 as int) as i32,
                    ),
                ));
            }
            None
        } else if c == 'g' {
            let y = self.pop();
            let x = self.pop();
            let ch = grid.char_at_or_space(FungeVector(x, y));
            let v = #[verifier::truncate] ((ch as u32) as i32);
            proof {
                assert(ch as int <= 0x10FFFF);
                assert(v as int == ch as int);
            }
            self.push(v);
            proof {
                let q0 = p0.stacks@[0].queue_mode;
                let inv0 = p0.stacks@[0].invert_mode;
                let t2 = popped(popped(p0.toss(), q0), q0);
                assert(ch == g0.cell(x as int, y as int));
                assert(v == g0.cell(x as int, y as int) as i32);
                assert(self.toss() == pushed(t2, inv0, v));
                assert(toss_step(p0, *self, pushed(t2, inv0, g0.cell(x as int, y as int) as i32)));
            }
            None
        } else if c == 'p' {
            let v: FungeVector = self.pop_t();
            let ch: char = self.pop_t();
            let target = v.plus(self.offset);
            grid.set_char(target, ch);
            proof {
                let q0 = p0.stacks@[0].queue_mode;
                let t3 = popped(popped(popped(p0.toss(), q0), q0), q0);
                assert(set_char_effect(g0, *grid, target, ch));
                assert(spec_char_of_cell(pop_value(popped(popped(p0.toss(), q0), q0), q0) as int, ch));
                assert(toss_step(p0, *self, t3));
                assert(target == (FungeVector(
                    sat_add(v.0, p0.offset.0),
                    sat_add(v.1, p0.offset.1),
                )));
            }
            None
        } else if c == 's' {
            let ch: char = self.pop_t();
            let ahead = grid.cell_ahead(self.pos, self.delta);
            grid.set_char(ahead, ch);
            self.walk(grid);
            proof {
                assert(ahead == stepped_pos(g0, p0.pos, p0.delta));
                assert(set_char_effect(g0, *grid, ahead, ch));
                assert(self.pos == stepped_pos(g0, p0.pos, p0.delta));
            }
            None
        } else {
            proof {
                assert(false);
            }
            None
        }
    }

    /// Execute jumping, iteration and stack permutation.
    #[verifier::rlimit(100)]
    #[verifier::spinoff_prover]
    fn op_flow(
        &mut self,
        c: char,
        grid: &mut FungeGrid,
        events: &mut EventHandler,
        out: &mut Vec<char>,
        env: &HostEnv,
        ignore: bool,
    ) -> (redo: Option<(char, u32)>)
        requires
            old(self).wf(),
            old(grid).wf(),
            0 <= old(self).pos.0 < old(grid).width,
            0 <= old(self).pos.1 < old(grid).height,
            is_flow_op(c),
        ensures
            final(self).wf(),
            final(grid).wf(),
            0 <= final(self).pos.0 < final(grid).width,
            0 <= final(self).pos.1 < final(grid).height,
            old(grid).width <= final(grid).width,
            old(grid).height <= final(grid).height,
            final(self).id == old(self).id,
            final(grid).og_chars == old(grid).og_chars,
            final(grid).expand == old(grid).expand,
            command_effect(
                c,
                *old(self),
                *final(self),
                *old(grid),
                *final(grid),
                old(out)@,
                final(out)@,
                old(events).queue@,
                final(events).queue@,
                *env,
                ignore,
                redo,
            ),
    {
        let ghost p0 = *old(self);
        let ghost g0 = *old(grid);
        if c == 'j' {
            let n = self.pop();
            let ghost p1 = *self;
            if n >= 0 {
                let mut i: i64 = 0;
                let nn: i64 = n as i64;
                while i < nn
                    invariant
                        grid.wf(),
                        0 <= i <= nn,
                        (self.pos.0 as int, self.pos.1 as int) == crate::grid::orbit(
                            *grid,
                            p1.pos,
                            p1.delta,
                            i as nat,
                        ),
                        self.delta == p1.delta,
                        self.offset == p1.offset,
                        self.string_mode == p1.string_mode,
                        self.stacks == p1.stacks,
                        self.id == p1.id,
                        self.dead == p1.dead,
                        self.first_tick == p1.first_tick,
                    decreases nn - i,
                {
                    let ghost i0 = i as nat;
                    self.walk(grid);
                    i += 1;
                    proof {
                        assert(crate::grid::orbit(*grid, p1.pos, p1.delta, (i0 + 1) as nat) == (
                            self.pos.0 as int,
                            self.pos.1 as int,
                        ));
                    }
                }
            } else {
                let mut i: i64 = 0;
                let nn: i64 = -(n as i64);
                while i < nn
                    invariant
                        grid.wf(),
                        0 <= i <= nn,
                        (self.pos.0 as int, self.pos.1 as int) == crate::grid::orbit_rev(
                            *grid,
                            p1.pos,
                            p1.delta,
                            i as nat,
                        ),
                        self.delta == p1.delta,
                        self.offset == p1.offset,
                        self.string_mode == p1.string_mode,
                        self.stacks == p1.stacks,
                        self.id == p1.id,
                        self.dead == p1.dead,
                        self.first_tick == p1.first_tick,
                    decreases nn - i,
                {
                    let ghost i0 = i as nat;
                    self.walk_reverse(grid);
                    i += 1;
                    proof {
                        assert(crate::grid::orbit_rev(*grid, p1.pos, p1.delta, (i0 + 1) as nat)
                            == (self.pos.0 as int, self.pos.1 as int));
                    }
                }
            }
            None
        } else if c == 'k' {
            let n = self.pop();
            if n == 0 {
                self.walk(grid);
                None
            } else if n < 0 {
                None
            } else {
                match grid.find_runnable_ahead(self.pos, self.delta) {
                    Some((pv, cc)) => {
                        proof {
                            let k0 = choose|k: int|
                                crate::grid::first_runnable(g0, p0.pos, p0.delta, k, pv, cc);
                            assert(crate::grid::first_runnable(g0, p0.pos, p0.delta, k0, pv, cc));
                        }
                        Some((cc, n as u32))
                    },
                    None => {
                        self.delta.invert();
                        proof {
                            if exists|k: int, pv: FungeVector, cc: char|
                                #[trigger] crate::grid::first_runnable(
                                    g0,
                                    p0.pos,
                                    p0.delta,
                                    k,
                                    pv,
                                    cc,
                                ) {
                                let (k0, pv0, cc0) = choose|k: int, pv: FungeVector, cc: char|
                                    crate::grid::first_runnable(g0, p0.pos, p0.delta, k, pv, cc);
                                assert(!crate::grid::runnable(
                                    g0.cell(
                                        crate::grid::orbit(g0, p0.pos, p0.delta, k0 as nat).0,
                                        crate::grid::orbit(g0, p0.pos, p0.delta, k0 as nat).1,
                                    ),
                                ));
                                assert(false);
                            }
                        }
                        None
                    },
                }
            }
        } else if c == 'l' {
            let n = self.pop();
            let len = self.toss_len();
            if len <= 21 {
                let code = #[verifier::truncate] (n as usize);
                let mut s = self.stacks.remove(0);
                s.permute(code);
                self.stacks.insert(0, s);
                proof {
                    assert(final(self).stacks@ =~= old(self).stacks@.update(
                        0,
                        final(self).stacks@[0],
                    ));
                    assert(toss_step(p0, *final(self), final(self).toss()));
                }
            } else {
                self.delta.invert();
            }
            None
        } else {
            proof {
                assert(false);
            }
            None
        }
    }

    /// Execute the stack-of-stacks block opcodes.
    #[verifier::rlimit(100)]
    #[verifier::spinoff_prover]
    fn op_scope(
        &mut self,
        c: char,
        grid: &mut FungeGrid,
        events: &mut EventHandler,
        out: &mut Vec<char>,
        env: &HostEnv,
        ignore: bool,
    ) -> (redo: Option<(char, u32)>)
        requires
            old(self).wf(),
            old(grid).wf(),
            0 <= old(self).pos.0 < old(grid).width,
            0 <= old(self).pos.1 < old(grid).height,
            is_scope_op(c),
        ensures
            final(self).wf(),
            final(grid).wf(),
            0 <= final(self).pos.0 < final(grid).width,
            0 <= final(self).pos.1 < final(grid).height,
            old(grid).width <= final(grid).width,
            old(grid).height <= final(grid).height,
            final(self).id == old(self).id,
            final(grid).og_chars == old(grid).og_chars,
            final(grid).expand == old(grid).expand,
            command_effect(
                c,
                *old(self),
                *final(self),
                *old(grid),
                *final(grid),
                old(out)@,
                final(out)@,
                old(events).queue@,
                final(events).queue@,
                *env,
                ignore,
                redo,
            ),
    {
        let ghost p0 = *old(self);
        let ghost g0 = *old(grid);
        if c == 'u' {
            if self.stacks.len() == 1 {
                self.delta.invert();
                return None;
            }
            let count = self.pop();
            if count > 0 {
                let vals = self.soss_popn(count as u64);
                self.toss_pushn(&vals);
            } else if count < 0 {
                let cnt = (-(count as i64)) as u64;
                let vals = self.toss_popn(cnt);
                self.soss_pushn(&vals);
            }
            None
        } else if c == '{' {
            let n = self.pop();
            self.stacks.insert(0, FungeStack::new());
            proof {
                assert(self.stacks@ =~= seq![self.stacks@[0]] + old(self).stacks@.update(
                    0,
                    self.stacks@[1],
                ));
            }
            if n > 0 {
                let vals = self.soss_popn(n as u64);
                let rev = reverse_vec(&vals);
                self.toss_pushn(&rev);
            } else if n < 0 {
                let cnt = ((-(n as i64)) as u64) as usize;
                let mut zv: Vec<i32> = Vec::new();
                while zv.len() < cnt
                    invariant
                        zv@.len() <= cnt,
                        zv@ =~= zeros(zv@.len() as nat),
                    decreases cnt - zv.len(),
                {
                    zv.push(0);
                    proof {
                        assert(zv@ =~= zeros(zv@.len() as nat));
                    }
                }
                self.soss_pushn(&zv);
            }
            let off = self.offset;
            self.soss_push(off.0);
            self.soss_push(off.1);
            let np = self.pos.plus(self.delta);
            self.offset = np;
            proof {
                if pop_value(p0.toss(), p0.stacks@[0].queue_mode) == 0 {
                    assert(final(self).toss() =~= push_seq(
                        Seq::<i32>::empty(),
                        false,
                        Seq::<i32>::empty().reverse(),
                    ));
                }
            }
            None
        } else if c == '}' {
            if self.stacks.len() == 1 {
                self.delta.invert();
                return None;
            }
            let n = self.pop();
            let offy = self.soss_pop();
            let offx = self.soss_pop();
            self.offset = FungeVector(offx, offy);
            if n > 0 {
                let elems = self.toss_popn(n as u64);
                let rev = reverse_vec(&elems);
                self.soss_pushn(&rev);
            } else if n < 0 {
                let cnt = (-(n as i64)) as u64;
                let _ = self.soss_popn(cnt);
            }
            self.stacks.remove(0);
            proof {
                assert(final(self).stacks@ =~= old(self).stacks@.update(
                    1,
                    final(self).stacks@[0],
                ).drop_first());
            }
            None
        } else {
            proof {
                assert(false);
            }
            None
        }
    }

    /// Execute the introspection opcode.
    #[verifier::rlimit(100)]
    #[verifier::spinoff_prover]
    fn op_sysinfo(
        &mut self,
        c: char,
        grid: &mut FungeGrid,
        events: &mut EventHandler,
        out: &mut Vec<char>,
        env: &HostEnv,
        ignore: bool,
    ) -> (redo: Option<(char, u32)>)
        requires
            old(self).wf(),
            old(grid).wf(),
            0 <= old(self).pos.0 < old(grid).width,
            0 <= old(self).pos.1 < old(grid).height,
            c == 'y',
        ensures
            final(self).wf(),
            final(grid).wf(),
            0 <= final(self).pos.0 < final(grid).width,
            0 <= final(self).pos.1 < final(grid).height,
            old(grid).width <= final(grid).width,
            old(grid).height <= final(grid).height,
            final(self).id == old(self).id,
            final(grid).og_chars == old(grid).og_chars,
            final(grid).expand == old(grid).expand,
            command_effect(
                c,
                *old(self),
                *final(self),
                *old(grid),
                *final(grid),
                old(out)@,
                final(out)@,
                old(events).queue@,
                final(events).queue@,
                *env,
                ignore,
                redo,
            ),
    {
        let ghost p0 = *old(self);
        let ghost g0 = *old(grid);
        if c == 'y' {
            let n = self.pop();
            let date = current_date();
            let time = current_time();
            let ghost p1 = *self;
            let ghost t1 = self.toss();
            if n > 20 {
                let cnt = ((n as i64) - 20) as u64;
                let _ = self.toss_popn(cnt);
            } else if n >= 1 {
                self.push_sysinfo_fact(n, grid, env, date, time);
                proof {
                    assert(fact_vals(p1, t1, n as int, g0, *env, date, time) =~= fact_vals(
                        p0,
                        t1,
                        n as int,
                        g0,
                        *env,
                        date,
                        time,
                    ));
                }
            } else {
                let mut k: i32 = 20;
                while k >= 1
                    invariant
                        grid.wf(),
                        *grid == g0,
                        self.wf(),
                        clock_in_range(date, time),
                        0 <= k <= 20,
                        toss_replaced(p1, *self),
                        self.stacks@[0].queue_mode == p1.stacks@[0].queue_mode,
                        self.stacks@[0].invert_mode == p1.stacks@[0].invert_mode,
                        self.toss() == facts_span(p0, t1, 20, k + 1, g0, *env, date, time),
                        p1.stacks@.len() == p0.stacks@.len(),
                        p1.stacks@[0].invert_mode == p0.stacks@[0].invert_mode,
                        toss_replaced(p0, p1),
                        p1.pos == p0.pos && p1.delta == p0.delta && p1.offset == p0.offset
                            && p1.id == p0.id,
                    decreases k,
                {
                    let ghost tcur = self.toss();
                    let ghost scur = *self;
                    self.push_sysinfo_fact(k, grid, env, date, time);
                    proof {
                        assert(fact_vals(scur, tcur, k as int, g0, *env, date, time) =~= fact_vals(
                            p0,
                            tcur,
                            k as int,
                            g0,
                            *env,
                            date,
                            time,
                        ));
                        lemma_facts_span_snoc(p0, t1, 20, k + 1, g0, *env, date, time);
                        assert(self.toss() == facts_span(p0, t1, 20, k as int, g0, *env, date, time));
                    }
                    k -= 1;
                }
                proof {
                    assert(final(self).toss() == facts_span(p0, t1, 20, 1, g0, *env, date, time));
                }
            }
            proof {
                assert(clock_in_range(date, time));
            }
            None
        } else {
            proof {
                assert(false);
            }
            None
        }
    }

    /// Execute motion, mode and control opcodes, with the
    /// reverse-on-unknown rule.
    #[verifier::rlimit(100)]
    #[verifier::spinoff_prover]
    fn op_motion(
        &mut self,
        c: char,
        grid: &mut FungeGrid,
        events: &mut EventHandler,
        out: &mut Vec<char>,
        env: &HostEnv,
        ignore: bool,
    ) -> (redo: Option<(char, u32)>)
        requires
            old(self).wf(),
            old(grid).wf(),
            0 <= old(self).pos.0 < old(grid).width,
            0 <= old(self).pos.1 < old(grid).height,
            !is_skip_op(c) && !is_value_op(c) && !is_output_op(c) && !is_post_op(c)
                && !is_cells_op(c) && !is_flow_op(c) && !is_scope_op(c) && c != 'y',
        ensures
            final(self).wf(),
            final(grid).wf(),
            0 <= final(self).pos.0 < final(grid).width,
            0 <= final(self).pos.1 < final(grid).height,
            old(grid).width <= final(grid).width,
            old(grid).height <= final(grid).height,
            final(self).id == old(self).id,
            final(grid).og_chars == old(grid).og_chars,
            final(grid).expand == old(grid).expand,
            command_effect(
                c,
                *old(self),
                *final(self),
                *old(grid),
                *final(grid),
                old(out)@,
                final(out)@,
                old(events).queue@,
                final(events).queue@,
                *env,
                ignore,
                redo,
            ),
    {
        let ghost p0 = *old(self);
        let ghost g0 = *old(grid);
        if c == '"' {
            self.string_mode = true;
            None
        } else if c == '#' {
            self.walk(grid);
            None
        } else if c == '<' {
            self.delta = crate::vector::west();
            None
        } else if c == '>' {
            self.delta = crate::vector::east();
            None
        } else if c == '?' {
            let r = random_below_four();
            self.delta = if r == 0 {
                crate::vector::north()
            } else if r == 1 {
                crate::vector::south()
            } else if r == 2 {
                crate::vector::east()
            } else {
                crate::vector::west()
            };
            proof {
                assert(is_cardinal(final(self).delta));
            }
            None
        } else if c == '@' {
            self.dead = true;
            None
        } else if c == '[' {
            self.delta.turn_left();
            None
        } else if c == ']' {
            self.delta.turn_right();
            None
        } else if c == '^' {
            self.delta = crate::vector::north();
            None
        } else if c == '_' {
            let v = self.pop();
            self.delta = if v == 0 {
                crate::vector::east()
            } else {
                crate::vector::west()
            };
            None
        } else if c == 'r' {
            self.delta.invert();
            None
        } else if c == 'v' {
            self.delta = crate::vector::south();
            None
        } else if c == 'w' {
            let b = self.pop();
            let a = self.pop();
            if a < b {
                self.delta.turn_left();
            } else if a > b {
                self.delta.turn_right();
            }
            None
        } else if c == 'x' {
            let d: FungeVector = self.pop_t();
            self.delta = d;
            None
        } else if c == 'z' {
            None
        } else if c == '|' {
            let v = self.pop();
            self.delta = if v == 0 {
                crate::vector::south()
            } else {
                crate::vector::north()
            };
            None
        } else {
            if !ignore {
                self.delta.invert();
            }
            None
        }
    }

    /// Execute a Funge-98 instruction: dispatch on the given character and
    /// carry out its effect on this pointer, the grid, the output buffer
    /// and the event queue, as `command_effect` states opcode by opcode.
    /// The returned request, if any, names a character the caller must
    /// execute next and how many times: blank-space and marker skips hand
    /// over the cell they land on, and the iteration opcode hands over the
    /// instruction it repeats.
    pub fn command(
        &mut self,
        c: char,
        grid: &mut FungeGrid,
        events: &mut EventHandler,
        out: &mut Vec<char>,
        env: &HostEnv,
        ignore: bool,
    ) -> (redo: Option<(char, u32)>)
        requires
            old(self).wf(),
            old(grid).wf(),
            0 <= old(self).pos.0 < old(grid).width,
            0 <= old(self).pos.1 < old(grid).height,
        ensures
            final(self).wf(),
            final(grid).wf(),
            0 <= final(self).pos.0 < final(grid).width,
            0 <= final(self).pos.1 < final(grid).height,
            old(grid).width <= final(grid).width,
            old(grid).height <= final(grid).height,
            final(self).id == old(self).id,
            final(grid).og_chars == old(grid).og_chars,
            final(grid).expand == old(grid).expand,
            command_effect(
                c,
                *old(self),
                *final(self),
                *old(grid),
                *final(grid),
                old(out)@,
                final(out)@,
                old(events).queue@,
                final(events).queue@,
                *env,
                ignore,
                redo,
            ),
    {
        if c == ' ' || c == ';' {
            self.op_skip(c, grid, events, out, env, ignore)
        } else if c == '!' || c == '$' || c == '+' || c == '-' || c == '*' || c == '/' || c == '%'
            || c == '`' || crate::text::digit_of(c).is_some() || c == ':' || c == '\\'
            || hex_of(c).is_some() || c == 'n' {
            self.op_value(c, grid, events, out, env, ignore)
        } else if c == ',' || c == '.' {
            self.op_output(c, grid, events, out, env, ignore)
        } else if c == '&' || c == '=' || c == 'i' || c == 'o' || c == 'q' || c == 't' || c == '~' {
            self.op_post(c, grid, events, out, env, ignore)
        } else if c == '\'' || c == 'g' || c == 'p' || c == 's' {
            self.op_cells(c, grid, events, out, env, ignore)
        } else if c == 'j' || c == 'k' || c == 'l' {
            self.op_flow(c, grid, events, out, env, ignore)
        } else if c == 'u' || c == '{' || c == '}' {
            self.op_scope(c, grid, events, out, env, ignore)
        } else if c == 'y' {
            self.op_sysinfo(c, grid, events, out, env, ignore)
        } else {
            self.op_motion(c, grid, events, out, env, ignore)
        }
    }
}
/// Whatever instruction runs, the output buffer only ever grows: the old
/// output is a prefix of the new.
pub proof fn lemma_effect_extends_out(
    c: char,
    p: InstructionPointer,
    q: InstructionPointer,
    gpre: FungeGrid,
    gpost: FungeGrid,
    outpre: Seq<char>,
    outpost: Seq<char>,
    evpre: Seq<Event>,
    evpost: Seq<Event>,
    env: HostEnv,
    ignore: bool,
    redo: Option<(char, u32)>,
)
    requires
        command_effect(c, p, q, gpre, gpost, outpre, outpost, evpre, evpost, env, ignore, redo),
    ensures
        outpost.len() >= outpre.len(),
        outpost.subrange(0, outpre.len() as int) == outpre,
{
    if c == ',' {
        let ch = choose|ch: char|
            spec_char_of_cell(
                pop_value(p.toss(), p.stacks@[0].queue_mode) as int,
                ch,
            ) && outpost == outpre.push(ch);
        assert(outpost == outpre.push(ch));
        assert(outpost.subrange(0, outpre.len() as int) =~= outpre);
    } else if c == '.' {
        assert(outpost.subrange(0, outpre.len() as int) =~= outpre);
    } else {
        assert(outpost == outpre);
        assert(outpost.subrange(0, outpre.len() as int) =~= outpre);
    }
}

} // verus!
