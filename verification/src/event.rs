//! The coordination layer: events posted by instruction pointers and
//! drained by the host once per tick, and the tick-rate bookkeeping for
//! interactive stepping.

use crate::vector::FungeVector;
use std::collections::VecDeque;
use vstd::prelude::*;

verus! {

/// What kind of value an input request asks for.
#[derive(Debug, Clone, Copy, PartialEq, Eq, Structural)]
pub enum InputType {
    /// A whole number.
    Number,
    /// A single character.
    Character,
}

/// A coordination event posted by a pointer while it executes, applied by
/// the host after all pointers have stepped.
#[derive(Debug, Clone)]
pub enum Event {
    /// Spawn a twin of the pointer with the given index.
    Spawn(usize),
    /// Stop the whole program with an exit code.
    Kill(i32),
    /// Ask the host for input of a kind, to be pushed onto the pointer
    /// with the given index.
    Input(InputType, usize),
    /// Ask the host to read the named file and paste it at a position
    /// (binary flag, destination, requesting pointer).
    ReadFile(String, bool, FungeVector, usize),
    /// Ask the host to write text to the named file (requesting pointer).
    WriteFile(String, String, usize),
    /// Ask the host to run a command line and report its exit code back
    /// to the requesting pointer.
    Execute(String, usize),
}

/// A queue of coordination events: pointers post at the tail, the host
/// takes from the head.
pub struct EventHandler {
    /// The pending events, oldest first.
    pub queue: VecDeque<Event>,
}

impl EventHandler {
    /// An empty queue.
    pub fn new() -> (r: EventHandler)
        ensures
            r.queue@ == Seq::<Event>::empty(),
    {
        EventHandler { queue: VecDeque::new() }
    }

    /// Post an event at the tail of the queue.
    pub fn post(&mut self, e: Event)
        ensures
            final(self).queue@ == old(self).queue@.push(e),
    {
        self.queue.push_back(e);
    }

    /// The next event, if one is pending: taken from the head.
    pub fn next(&mut self) -> (r: Option<Event>)
        ensures
            old(self).queue@.len() == 0 ==> r is None && final(self).queue@ == old(self).queue@,
            old(self).queue@.len() > 0 ==> r == Some(old(self).queue@[0]) && final(self).queue@
                == old(self).queue@.drop_first(),
    {
        self.queue.pop_front()
    }
}

impl Default for EventHandler {
    /// An empty queue.
    fn default() -> (r: EventHandler)
        ensures
            r.queue@ == Seq::<Event>::empty(),
    {
        EventHandler::new()
    }
}

/// The fastest allowed tick interval, in milliseconds.
pub const MIN_TICKRATE_MS: u64 = 16;

/// The slowest allowed tick interval, in milliseconds.
pub const MAX_TICKRATE_MS: u64 = 1024;

/// Tick bookkeeping for interactive stepping: the host's clock posts ticks
/// at the current rate and the engine consumes them one by one. The rate
/// doubles and halves within fixed bounds.
pub struct TickHandler {
    /// The current interval between ticks, in milliseconds.
    pub tickrate_ms: u64,
    /// How many posted ticks have not been consumed yet.
    pub pending: u64,
}

impl TickHandler {
    /// The default rate with no tick pending.
    pub fn new() -> (r: TickHandler)
        ensures
            r.tickrate_ms == 128,
            r.pending == 0,
    {
        TickHandler { tickrate_ms: 128, pending: 0 }
    }

    /// Record that the clock fired once.
    pub fn post_tick(&mut self)
        ensures
            final(self).pending == if old(self).pending < u64::MAX {
                old(self).pending + 1
            } else {
                old(self).pending as int
            },
            final(self).tickrate_ms == old(self).tickrate_ms,
    {
        if self.pending < u64::MAX {
            self.pending = self.pending + 1;
        }
    }

    /// Consume one pending tick; whether one was available.
    pub fn has_tick(&mut self) -> (r: bool)
        ensures
            r == (old(self).pending > 0),
            final(self).pending == if old(self).pending > 0 {
                old(self).pending - 1
            } else {
                0
            },
            final(self).tickrate_ms == old(self).tickrate_ms,
    {
        if self.pending > 0 {
            self.pending = self.pending - 1;
            true
        } else {
            false
        }
    }

    /// Double the speed, up to the fastest allowed interval.
    pub fn speed_up(&mut self)
        ensures
            final(self).tickrate_ms == if old(self).tickrate_ms / 2 > MIN_TICKRATE_MS {
                old(self).tickrate_ms / 2
            } else {
                MIN_TICKRATE_MS
            },
            final(self).pending == old(self).pending,
    {
        let halved = self.tickrate_ms / 2;
        self.tickrate_ms = if halved > MIN_TICKRATE_MS {
            halved
        } else {
            MIN_TICKRATE_MS
        };
    }

    /// Halve the speed, down to the slowest allowed interval.
    pub fn slow_down(&mut self)
        ensures
            final(self).tickrate_ms == if old(self).tickrate_ms * 2 < MAX_TICKRATE_MS {
                old(self).tickrate_ms * 2
            } else {
                MAX_TICKRATE_MS as int
            },
            final(self).pending == old(self).pending,
    {
        let doubled = if self.tickrate_ms <= MAX_TICKRATE_MS {
            self.tickrate_ms * 2
        } else {
            MAX_TICKRATE_MS
        };
        self.tickrate_ms = if doubled < MAX_TICKRATE_MS {
            doubled
        } else {
            MAX_TICKRATE_MS
        };
    }
}

impl Default for TickHandler {
    /// The default rate with no tick pending.
    fn default() -> (r: TickHandler)
        ensures
            r.tickrate_ms == 128,
            r.pending == 0,
    {
        TickHandler::new()
    }
}

} // verus!
