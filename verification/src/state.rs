//! Execution states for a host-driven interpreter loop: each state says
//! whether the cursor moves, what happens on a tick, and when the state
//! ends.

use vstd::prelude::*;

verus! {

/// When a state ends.
#[derive(Debug, Clone, Copy, PartialEq, Eq, Structural)]
pub enum EndAt {
    /// A single action.
    Instant,
    /// Lasts a number of ticks.
    Ticks(u8),
    /// Lasts until another character is reached.
    Char(char),
    /// Deactivated by some other event.
    Manual,
    /// Can still be changed by other state setters.
    Never,
}

/// Whether the cursor moves during a state.
#[derive(Debug, Clone, Copy, PartialEq, Eq, Structural)]
pub enum MoveType {
    /// Do not move.
    Halted,
    /// Advance in the cursor's direction.
    Forward,
    /// Advance in the opposite direction.
    Reverse,
}

/// What a tick does during a state.
#[derive(Debug, Clone, Copy, PartialEq, Eq, Structural)]
pub enum OnTick {
    /// Nothing.
    Nothing,
    /// Run instructions as normal.
    Instruction,
    /// Push characters onto the stack.
    StringPush,
}

/// One execution state: how it ends, how the cursor moves, what a tick
/// does, how long it has run, and a message to display.
pub struct FungeState {
    /// When this state ends.
    pub ends_at: EndAt,
    /// Whether the cursor moves, or is reversed.
    pub move_type: MoveType,
    /// Whether to run instructions, push characters, or nothing.
    pub on_tick: OnTick,
    /// How many ticks this state has lasted.
    pub ticks: u32,
    /// Printed under the output area.
    pub message: &'static str,
}

impl FungeState {
    /// A new state with a message.
    pub fn of_message(ends_at: EndAt, move_type: MoveType, on_tick: OnTick, message: &'static str) -> (r: FungeState)
        ensures
            r.ends_at == ends_at,
            r.move_type == move_type,
            r.on_tick == on_tick,
            r.ticks == 0,
            r.message@ == message@,
    {
        FungeState { ends_at, move_type, on_tick, ticks: 0, message }
    }

    /// A new state without a message.
    pub fn of(ends_at: EndAt, move_type: MoveType, on_tick: OnTick) -> (r: FungeState)
        ensures
            r.ends_at == ends_at,
            r.move_type == move_type,
            r.on_tick == on_tick,
            r.ticks == 0,
            r.message@ == ""@,
    {
        FungeState { ends_at, move_type, on_tick, ticks: 0, message: "" }
    }

    /// Whether the cursor moves during this state.
    pub fn movement(&self) -> (r: MoveType)
        ensures
            r == self.move_type,
    {
        self.move_type
    }

    /// Whether to run instructions, push characters, or nothing.
    pub fn action(&self) -> (r: OnTick)
        ensures
            r == self.on_tick,
    {
        self.on_tick
    }

    /// Count one more tick in this state, saturating at the counter's
    /// bound.
    pub fn tick(&mut self)
        ensures
            final(self).ticks == if old(self).ticks < u32::MAX {
                old(self).ticks + 1
            } else {
                old(self).ticks as int
            },
            final(self).ends_at == old(self).ends_at,
            final(self).move_type == old(self).move_type,
            final(self).on_tick == old(self).on_tick,
            final(self).message == old(self).message,
    {
        if self.ticks < u32::MAX {
            self.ticks = self.ticks + 1;
        }
    }

    /// Whether this state has ended, looking at the character reached.
    pub fn is_over(&self, c: char) -> (r: bool)
        ensures
            self.ends_at is Instant ==> r,
            self.ends_at matches EndAt::Ticks(n) ==> r == (self.ticks == n as u32),
            self.ends_at matches EndAt::Char(target) ==> r == (self.ticks > 0 && c == target),
            self.ends_at is Manual || self.ends_at is Never ==> !r,
    {
        match self.ends_at {
            EndAt::Instant => true,
            EndAt::Ticks(n) => self.ticks == n as u32,
            EndAt::Char(target) => self.ticks > 0 && c == target,
            EndAt::Manual => false,
            EndAt::Never => false,
        }
    }

    /// Whether this state is the end of the program: it never ends, the
    /// cursor is halted, and ticks do nothing.
    pub fn is_end(&self) -> (r: bool)
        ensures
            r == (self.ends_at is Never && self.move_type is Halted && self.on_tick is Nothing),
    {
        matches!(self.ends_at, EndAt::Never) && matches!(self.move_type, MoveType::Halted)
            && matches!(self.on_tick, OnTick::Nothing)
    }

    /// Whether this state awaits a number from the user.
    pub fn inputting_num(&self) -> (r: bool)
        ensures
            r == (self.message@ == "input num:"@),
    {
        crate::text::str_eq(self.message, "input num:")
    }

    /// Whether this state awaits a character from the user.
    pub fn inputting_char(&self) -> (r: bool)
        ensures
            r == (self.message@ == "input char:"@),
    {
        crate::text::str_eq(self.message, "input char:")
    }
}

impl Default for FungeState {
    /// The starting state: a single halted instruction.
    fn default() -> (r: FungeState)
        ensures
            r.ends_at is Instant,
            r.move_type is Halted,
            r.on_tick is Instruction,
            r.ticks == 0,
    {
        FungeState {
            ends_at: EndAt::Instant,
            move_type: MoveType::Halted,
            on_tick: OnTick::Instruction,
            ticks: 0,
            message: "",
        }
    }
}

} // verus!
