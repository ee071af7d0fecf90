//! The top-level engine: it owns the grid, the pointer list, the output
//! buffer and the coordination queues, and steps every live pointer once
//! per tick before draining one coordination event.

use crate::arguments::Arguments;
use crate::event::{Event, EventHandler, TickHandler};
use crate::grid::FungeGrid;
use crate::pointer::{HostEnv, InstructionPointer};
use crate::vector::FungeVector;
use vstd::prelude::*;

verus! {

pub use crate::event::InputType;

/// A running program: the grid being traversed, the pointers executing on
/// it, the output they produced, and the coordination state between the
/// engine and its host.
pub struct Befunge {
    /// The grid that is being traversed.
    pub grid: FungeGrid,
    /// The pointers, in stepping order; a pointer's identity is its index.
    pub ip_list: Vec<InstructionPointer>,
    /// Output text produced by the output opcodes.
    pub out: Vec<char>,
    /// The exit code a kill event carried, once one drains.
    pub exit_code: Option<i32>,
    /// The configuration this run was constructed with.
    pub args: Arguments,
    /// Host facts served to the introspection opcode.
    pub env: HostEnv,
    /// Coordination events posted by pointers, drained once per tick.
    pub events: EventHandler,
    /// Tick bookkeeping for interactive stepping.
    pub ticks: TickHandler,
    /// Whether interactive stepping is paused.
    pub paused: bool,
    /// An input request awaiting a value from the host, with its target
    /// pointer.
    pub pending_input: Option<(InputType, usize)>,
    /// File and shell requests awaiting the host, oldest first.
    pub host_requests: Vec<Event>,
}

impl Befunge {
    /// Well-formedness: the grid is rectangular, there is at least one
    /// pointer, and every pointer has its stack, sits inside the grid and
    /// is numbered by its position.
    pub open spec fn wf(&self) -> bool {
        &&& self.grid.wf()
        &&& self.ip_list@.len() >= 1
        &&& forall|i: int|
            0 <= i < self.ip_list@.len() ==> (#[trigger] self.ip_list@[i]).wf()
                && 0 <= self.ip_list@[i].pos.0 < self.grid.width && 0 <= self.ip_list@[i].pos.1
                < self.grid.height && self.ip_list@[i].id == i
    }

    /// A new simulation of a program text: the grid is parsed, and one
    /// pointer starts at the grid's start position facing east.
    pub fn new(args: Arguments, text: String, env: HostEnv) -> (r: Befunge)
        requires
            1 <= crate::grid::split_lines(text@).len() <= 0x8000_0000,
            1 <= crate::grid::max_line_len(crate::grid::split_lines(text@)) <= 0x8000_0000,
        ensures
            r.wf(),
            r.grid.width == crate::grid::max_line_len(crate::grid::split_lines(text@)),
            r.grid.height == crate::grid::split_lines(text@).len(),
            r.grid.chars.deep_view() == crate::grid::padded_rows(
                crate::grid::split_lines(text@),
                r.grid.width as int,
            ),
            r.grid.og_chars.deep_view() == r.grid.chars.deep_view(),
            r.grid.expand == args.expand,
            r.ip_list@.len() == 1,
            crate::grid::is_start_pos(r.grid, args.script, r.ip_list@[0].pos),
            r.ip_list@[0].delta == (FungeVector(1i32, 0i32)),
            r.ip_list@[0].offset == (FungeVector(0i32, 0i32)),
            !r.ip_list@[0].string_mode,
            r.ip_list@[0].first_tick,
            r.ip_list@[0].toss() == Seq::<i32>::empty(),
            r.ip_list@[0].stacks@.len() == 1,
            !r.ip_list@[0].stacks@[0].queue_mode,
            !r.ip_list@[0].stacks@[0].invert_mode,
            !r.ip_list@[0].dead,
            r.out@ == Seq::<char>::empty(),
            r.exit_code is None,
            r.args == args,
            r.env == env,
            r.paused == args.paused,
            r.pending_input is None,
            r.host_requests@.len() == 0,
            r.events.queue@.len() == 0,
    {
        let paused = args.paused;
        let grid = FungeGrid::new(text, args.expand);
        let start = grid.start_pos(args.script);
        let mut ip_list: Vec<InstructionPointer> = Vec::new();
        ip_list.push(InstructionPointer::new(start, crate::vector::east(), 0));
        Befunge {
            grid,
            ip_list,
            out: Vec::new(),
            exit_code: None,
            args,
            env,
            events: EventHandler::new(),
            ticks: TickHandler::new(),
            paused,
            pending_input: None,
            host_requests: Vec::new(),
        }
    }

    /// Whether the interpreter has reached the end: every pointer is dead.
    pub fn ended(&self) -> (r: bool)
        ensures
            r == (forall|i: int|
                0 <= i < self.ip_list@.len() ==> (#[trigger] self.ip_list@[i]).dead),
    {
        let mut i: usize = 0;
        while i < self.ip_list.len()
            invariant
                i <= self.ip_list@.len(),
                forall|j: int| 0 <= j < i ==> (#[trigger] self.ip_list@[j]).dead,
            decreases self.ip_list@.len() - i,
        {
            if !self.ip_list[i].dead {
                return false;
            }
            i += 1;
        }
        true
    }

    /// Whether stepping is paused, by the user or awaiting input.
    pub fn paused(&self) -> (r: bool)
        ensures
            r == (self.paused || self.pending_input is Some),
    {
        self.paused || self.pending_input.is_some()
    }

    /// Consume one pending clock tick; whether one was available.
    pub fn has_tick(&mut self) -> (r: bool)
        ensures
            r == (old(self).ticks.pending > 0),
            *final(self) == (Befunge { ticks: final(self).ticks, ..*old(self) }),
            final(self).ticks.tickrate_ms == old(self).ticks.tickrate_ms,
    {
        self.ticks.has_tick()
    }

    /// Apply one drained coordination event: a spawn inserts a twin of the
    /// posting pointer, with inverted delta, immediately before it and
    /// renumbers every pointer to its new position; a kill records the
    /// exit code and marks every pointer dead; an input request is
    /// recorded for the host; file and shell requests queue for the host.
    /// An event naming a pointer that does not exist does nothing.
    pub fn apply_event(&mut self, e: Event)
        requires
            old(self).wf(),
        ensures
            final(self).wf(),
            final(self).grid == old(self).grid,
            final(self).out == old(self).out,
            final(self).events == old(self).events,
            final(self).args == old(self).args,
            final(self).env == old(self).env,
            final(self).ticks == old(self).ticks,
            final(self).paused == old(self).paused,
            event_applied(
                e,
                old(self).ip_list@,
                final(self).ip_list@,
                old(self).exit_code,
                final(self).exit_code,
                old(self).pending_input,
                final(self).pending_input,
                old(self).host_requests@,
                final(self).host_requests@,
            ),
    {
        match e {
            Event::Spawn(id) => {
                if id < self.ip_list.len() {
                    let mut twin = self.ip_list[id].duplicate();
                    twin.delta.invert();
                    self.ip_list.insert(id, twin);
                    let mut idx: usize = 0;
                    let n = self.ip_list.len();
                    while idx < n
                        invariant
                            idx <= n,
                            n == self.ip_list@.len(),
                            forall|j: int|
                                0 <= j < idx ==> #[trigger] self.ip_list@[j] == (
                                InstructionPointer {
                                    id: j as usize,
                                    ..old(self).ip_list@.insert(id as int, twin)[j]
                                }),
                            forall|j: int|
                                idx <= j < n ==> #[trigger] self.ip_list@[j] == old(self).ip_list@.insert(id as int, twin)[j],
                            self.grid == old(self).grid,
                            self.out == old(self).out,
                            self.events == old(self).events,
                            self.exit_code == old(self).exit_code,
                            self.pending_input == old(self).pending_input,
                            self.host_requests == old(self).host_requests,
                            self.args == old(self).args,
                            self.env == old(self).env,
                            self.ticks == old(self).ticks,
                            self.paused == old(self).paused,
                        decreases n - idx,
                    {
                        let ghost lpre = self.ip_list@;
                        let mut ip = self.ip_list.remove(idx);
                        let ghost ip0 = ip;
                        ip.id = idx;
                        self.ip_list.insert(idx, ip);
                        proof {
                            assert(ip == (InstructionPointer { id: idx, ..ip0 }));
                            assert(self.ip_list@ =~= lpre.update(idx as int, ip));
                        }
                        idx += 1;
                    }
                    proof {
                        let base = old(self).ip_list@.insert(id as int, twin);
                        assert(forall|j: int|
                            0 <= j < id ==> base[j] == old(self).ip_list@[j]);
                        assert(forall|j: int|
                            id < j < base.len() ==> base[j] == old(self).ip_list@[j - 1]);
                        assert(base[id as int] == twin);
                        assert(forall|j: int|
                            0 <= j < id ==> #[trigger] self.ip_list@[j] == (InstructionPointer {
                                id: j as usize,
                                ..old(self).ip_list@[j]
                            }));
                        assert(forall|j: int|
                            0 <= j < id ==> old(self).ip_list@[j].id == j);
                        assert(forall|j: int|
                            0 <= j < id ==> #[trigger] self.ip_list@[j] == old(self).ip_list@[j]);
                    }
                }
            },
            Event::Kill(code) => {
                self.exit_code = Some(code);
                let mut idx: usize = 0;
                let n = self.ip_list.len();
                while idx < n
                    invariant
                        idx <= n,
                        n == self.ip_list@.len(),
                        forall|j: int|
                            0 <= j < idx ==> #[trigger] self.ip_list@[j] == (InstructionPointer {
                                dead: true,
                                ..old(self).ip_list@[j]
                            }),
                        forall|j: int|
                            idx <= j < n ==> #[trigger] self.ip_list@[j] == old(self).ip_list@[j],
                        self.grid == old(self).grid,
                        self.out == old(self).out,
                        self.events == old(self).events,
                        self.exit_code == Some(code),
                        self.pending_input == old(self).pending_input,
                        self.host_requests == old(self).host_requests,
                        self.args == old(self).args,
                        self.env == old(self).env,
                        self.ticks == old(self).ticks,
                        self.paused == old(self).paused,
                    decreases n - idx,
                {
                    let ghost lpre = self.ip_list@;
                    let mut ip = self.ip_list.remove(idx);
                    let ghost ip0 = ip;
                    ip.dead = true;
                    self.ip_list.insert(idx, ip);
                    proof {
                        assert(ip == (InstructionPointer { dead: true, ..ip0 }));
                        assert(self.ip_list@ =~= lpre.update(idx as int, ip));
                    }
                    idx += 1;
                }
            },
            Event::Input(t, id) => {
                self.pending_input = Some((t, id));
            },
            other => {
                self.host_requests.push(other);
            },
        }
    }
}


/// The pointer as it stands when its instruction is read: still in place
/// on its first tick, otherwise advanced one wrapped step.
pub open spec fn walked_ip(p: InstructionPointer, g: FungeGrid) -> InstructionPointer {
    if p.first_tick {
        p
    } else {
        InstructionPointer { pos: crate::pointer::stepped_pos(g, p.pos, p.delta), ..p }
    }
}

/// The wrapped position one motion step backwards from a position.
pub open spec fn back_pos(g: FungeGrid, pos: FungeVector, delta: FungeVector) -> FungeVector {
    FungeVector(
        ((pos.0 - delta.0) % (g.width as int)) as i32,
        ((pos.1 - delta.1) % (g.height as int)) as i32,
    )
}


/// One state of a pointer's execution within a tick: the pointer, the
/// grid, the output, the posted events, and the stack of re-dispatch
/// requests still owed (each a character and how many times it runs).
pub struct DispatchState {
    /// The pointer as it stands.
    pub ip: InstructionPointer,
    /// The grid as it stands.
    pub grid: FungeGrid,
    /// The output produced so far.
    pub out: Seq<char>,
    /// The events posted so far.
    pub events: Seq<Event>,
    /// The re-dispatch requests still owed, most recent last.
    pub work: Seq<(char, u32)>,
}

/// How many nested executions one tick carries out at most.
pub const DISPATCH_FUEL: u64 = 0xFFFF_FFFF;

/// The owed work after one execution: the instruction's own request, if
/// any, is added on top.
pub open spec fn pushed_work(w: Seq<(char, u32)>, redo: Option<(char, u32)>) -> Seq<(char, u32)> {
    match redo {
        Some(x) => if x.1 > 0 {
            w.push(x)
        } else {
            w
        },
        None => w,
    }
}

/// One re-dispatched execution: the topmost owed request runs once — its
/// count decremented, or removed when spent — exactly as `command_effect`
/// states, and its own request, if any, is added on top.
pub open spec fn dispatch_step(s: DispatchState, t: DispatchState, env: HostEnv, ignore: bool) -> bool {
    &&& s.work.len() > 0
    &&& exists|redo: Option<(char, u32)>|
        {
            &&& #[trigger] crate::pointer::command_effect(
                s.work.last().0,
                s.ip,
                t.ip,
                s.grid,
                t.grid,
                s.out,
                t.out,
                s.events,
                t.events,
                env,
                ignore,
                redo,
            )
            &&& t.work == pushed_work(
                if s.work.last().1 > 1 {
                    s.work.update(
                        s.work.len() - 1,
                        (s.work.last().0, (s.work.last().1 - 1) as u32),
                    )
                } else {
                    s.work.drop_last()
                },
                redo,
            )
        }
}

/// A complete run of executions within one step: the character under the
/// walked pointer runs first, exactly as `command_effect` states; each
/// owed re-dispatch then runs in turn, until none is owed or the
/// execution bound is spent.
pub open spec fn dispatch_trace(
    trace: Seq<DispatchState>,
    redo0: Option<(char, u32)>,
    p: InstructionPointer,
    gpre: FungeGrid,
    outpre: Seq<char>,
    evpre: Seq<Event>,
    env: HostEnv,
    ignore: bool,
) -> bool {
    let pw = walked_ip(p, gpre);
    let c = gpre.cell(pw.pos.0 as int, pw.pos.1 as int);
    &&& trace.len() >= 1
    &&& crate::pointer::command_effect(
        c,
        pw,
        trace[0].ip,
        gpre,
        trace[0].grid,
        outpre,
        trace[0].out,
        evpre,
        trace[0].events,
        env,
        ignore,
        redo0,
    )
    &&& trace[0].work == pushed_work(Seq::empty(), redo0)
    &&& forall|j: int|
        0 <= j < trace.len() - 1 ==> #[trigger] dispatch_step(trace[j], trace[j + 1], env, ignore)
    &&& (trace.last().work.len() == 0 || trace.len() - 1 == DISPATCH_FUEL)
}

/// A string-mode step: the closing quote leaves string mode, a blank run
/// collapses to one pushed space with the pointer left on the run's last
/// blank, and any other character's code is pushed onto the active stack.
pub open spec fn string_step(
    p: InstructionPointer,
    q: InstructionPointer,
    gpre: FungeGrid,
    gpost: FungeGrid,
    outpre: Seq<char>,
    outpost: Seq<char>,
    evpre: Seq<Event>,
    evpost: Seq<Event>,
) -> bool {
    let pw = walked_ip(p, gpre);
    let c = gpre.cell(pw.pos.0 as int, pw.pos.1 as int);
    let inv = pw.stacks@[0].invert_mode;
    &&& gpost == gpre
    &&& outpost == outpre
    &&& evpost == evpre
    &&& (c == '"' ==> q == (InstructionPointer { string_mode: false, ..pw }))
    &&& (c != '"' && c != ' ' ==> crate::pointer::ip_step(
        pw,
        q,
        pw.pos,
        pw.delta,
        pw.offset,
        true,
        pw.dead,
        crate::stack::pushed(pw.toss(), inv, c as i32),
    ))
    &&& (c == ' ' ==> if exists|k: int, pv: FungeVector, cc: char|
        #[trigger] crate::grid::first_nonblank(gpre, pw.pos, pw.delta, k, pv, cc) {
        exists|k: int, pv: FungeVector, cc: char|
            #[trigger] crate::grid::first_nonblank(gpre, pw.pos, pw.delta, k, pv, cc)
                && crate::pointer::ip_step(
                pw,
                q,
                back_pos(gpre, pv, pw.delta),
                pw.delta,
                pw.offset,
                true,
                pw.dead,
                crate::stack::pushed(pw.toss(), inv, 32),
            )
    } else {
        crate::pointer::ip_step(
            pw,
            q,
            pw.pos,
            pw.delta,
            pw.offset,
            true,
            pw.dead,
            crate::stack::pushed(pw.toss(), inv, 32),
        )
    })
}

/// What stepping one live pointer does: well-formedness and bounds are
/// kept, the grid only grows and keeps its snapshot, the output only
/// grows, a string-mode step is exactly `string_step`, and any other step
/// is a complete `dispatch_trace` whose last state is the outcome.
pub open spec fn step_effect(
    p: InstructionPointer,
    q: InstructionPointer,
    gpre: FungeGrid,
    gpost: FungeGrid,
    outpre: Seq<char>,
    outpost: Seq<char>,
    evpre: Seq<Event>,
    evpost: Seq<Event>,
    env: HostEnv,
    ignore: bool,
) -> bool {
    &&& q.wf()
    &&& gpost.wf()
    &&& 0 <= q.pos.0 < gpost.width
    &&& 0 <= q.pos.1 < gpost.height
    &&& q.id == p.id
    &&& gpre.width <= gpost.width
    &&& gpre.height <= gpost.height
    &&& gpost.og_chars == gpre.og_chars
    &&& gpost.expand == gpre.expand
    &&& outpost.len() >= outpre.len()
    &&& outpost.subrange(0, outpre.len() as int) == outpre
    &&& (p.string_mode ==> string_step(p, q, gpre, gpost, outpre, outpost, evpre, evpost))
    &&& (!p.string_mode ==> exists|trace: Seq<DispatchState>, redo0: Option<(char, u32)>|
        #[trigger] dispatch_trace(trace, redo0, p, gpre, outpre, evpre, env, ignore) && q
            == trace.last().ip && gpost == trace.last().grid && outpost == trace.last().out
            && evpost == trace.last().events)
}

/// Step one live pointer: walk (except on the first tick), then either
/// execute the character under the pointer or, in string mode, push it —
/// with a run of blank cells collapsing to a single pushed space. A
/// re-dispatch request from the executed instruction (a blank-space skip,
/// a marker jump, or iteration) is carried out in place, up to a large
/// bound on nested executions.
///
/// In string mode the step is exactly `string_step`. Outside it, the
/// step is witnessed by a complete `dispatch_trace`: the character under
/// the walked pointer runs first, then each owed re-dispatch in turn,
/// every execution tied to `command_effect`, and the trace's last state
/// is the outcome.
#[verifier::rlimit(60)]
pub fn step_pointer(
    ip: &mut InstructionPointer,
    grid: &mut FungeGrid,
    events: &mut EventHandler,
    out: &mut Vec<char>,
    env: &HostEnv,
    ignore: bool,
)
    requires
        old(ip).wf(),
        old(grid).wf(),
        0 <= old(ip).pos.0 < old(grid).width,
        0 <= old(ip).pos.1 < old(grid).height,
    ensures
        step_effect(
            *old(ip),
            *final(ip),
            *old(grid),
            *final(grid),
            old(out)@,
            final(out)@,
            old(events).queue@,
            final(events).queue@,
            *env,
            ignore,
        ),
{
    if !ip.first_tick {
        ip.walk(grid);
    }
    proof {
        assert(*ip == walked_ip(*old(ip), *old(grid)));
    }
    let c = grid.char_at(ip.pos);
    if ip.string_mode {
        if c == '"' {
            ip.string_mode = false;
        } else if c == ' ' {
            let ghost pw = *ip;
            match grid.find_nonblank_from(ip.pos, ip.delta) {
                Some((pv, cc)) => {
                    ip.pos = pv;
                    ip.walk_reverse(grid);
                    ip.push(32);
                    proof {
                        let k0 = choose|k: int|
                            crate::grid::first_nonblank(*old(grid), pw.pos, pw.delta, k, pv, cc);
                        assert(crate::grid::first_nonblank(
                            *old(grid),
                            pw.pos,
                            pw.delta,
                            k0,
                            pv,
                            cc,
                        ));
                        assert(ip.pos == back_pos(*old(grid), pv, pw.delta));
                    }
                },
                None => {
                    ip.push(32);
                    proof {
                        if exists|k: int, pv: FungeVector, cc: char|
                            #[trigger] crate::grid::first_nonblank(
                                *old(grid),
                                pw.pos,
                                pw.delta,
                                k,
                                pv,
                                cc,
                            ) {
                            let (k0, pv0, cc0) = choose|k: int, pv: FungeVector, cc: char|
                                crate::grid::first_nonblank(*old(grid), pw.pos, pw.delta, k, pv, cc);
                            assert(old(grid).cell(
                                crate::grid::orbit(*old(grid), pw.pos, pw.delta, k0 as nat).0,
                                crate::grid::orbit(*old(grid), pw.pos, pw.delta, k0 as nat).1,
                            ) == ' ');
                            assert(false);
                        }
                    }
                },
            }
        } else {
            let v = crate::text::char_code(c);
            ip.push(v);
        }
        proof {
            assert(out@.subrange(0, old(out)@.len() as int) =~= old(out)@);
            assert(string_step(
                *old(ip),
                *ip,
                *old(grid),
                *grid,
                old(out)@,
                out@,
                old(events).queue@,
                events.queue@,
            ));
        }
    } else {
        let ghost pw = *ip;
        let ghost out0 = out@;
        let ghost ev0 = events.queue@;
        let ghost g0 = *grid;
        let mut work: Vec<(char, u32)> = Vec::new();
        let redo = ip.command(c, grid, events, out, env, ignore);
        proof {
            let midw = *ip;
            let gmidw = *grid;
            let outmidw = out@;
            let evmidw = events.queue@;
            assert(crate::pointer::command_effect(
                c,
                pw,
                midw,
                g0,
                gmidw,
                out0,
                outmidw,
                ev0,
                evmidw,
                *env,
                ignore,
                redo,
            ));
        }
        match redo {
            Some(w) => if w.1 > 0 {
                work.push(w);
            },
            None => {},
        }
        proof {
            assert(work@ =~= pushed_work(Seq::empty(), redo));
        }
        let ghost first = (DispatchState {
            ip: *ip,
            grid: *grid,
            out: out@,
            events: events.queue@,
            work: work@,
        });
        let ghost mut trace: Seq<DispatchState> = seq![first];
        let mut fuel: u64 = DISPATCH_FUEL;
        while work.len() > 0 && fuel > 0
            invariant
                grid.wf(),
                ip.wf(),
                0 <= ip.pos.0 < grid.width,
                0 <= ip.pos.1 < grid.height,
                ip.id == pw.id,
                g0.width <= grid.width,
                g0.height <= grid.height,
                grid.og_chars == g0.og_chars,
                grid.expand == g0.expand,
                out0.len() <= out@.len(),
                out@.subrange(0, out0.len() as int) == out0,
                fuel <= DISPATCH_FUEL,
                trace.len() == 1 + (DISPATCH_FUEL - fuel),
                trace[0] == first,
                forall|j: int|
                    0 <= j < trace.len() - 1 ==> #[trigger] dispatch_step(
                        trace[j],
                        trace[j + 1],
                        *env,
                        ignore,
                    ),
                trace.last() == (DispatchState {
                    ip: *ip,
                    grid: *grid,
                    out: out@,
                    events: events.queue@,
                    work: work@,
                }),
            decreases fuel,
        {
            let ghost sprev = trace.last();
            fuel -= 1;
            let (c2, cnt) = match work.pop() {
                Some(x) => x,
                None => {
                    proof {
                        assert(false);
                    }
                    (' ', 0)
                },
            };
            proof {
                assert((c2, cnt) == sprev.work.last());
                assert(work@ =~= sprev.work.drop_last());
            }
            if cnt > 1 {
                work.push((c2, cnt - 1));
                proof {
                    assert(work@ =~= sprev.work.update(
                        sprev.work.len() - 1,
                        (c2, (cnt - 1) as u32),
                    ));
                }
            }
            let ghost base = work@;
            let ghost out_pre2 = out@;
            let ghost ip_pre2 = *ip;
            let ghost g_pre2 = *grid;
            let ghost ev_pre2 = events.queue@;
            let r2 = ip.command(c2, grid, events, out, env, ignore);
            proof {
                crate::pointer::lemma_effect_extends_out(
                    c2,
                    ip_pre2,
                    *ip,
                    g_pre2,
                    *grid,
                    out_pre2,
                    out@,
                    ev_pre2,
                    events.queue@,
                    *env,
                    ignore,
                    r2,
                );
                lemma_prefix_chain(out0, out_pre2, out@);
            }
            match r2 {
                Some(w2) => if w2.1 > 0 {
                    work.push(w2);
                },
                None => {},
            }
            proof {
                assert(work@ =~= pushed_work(base, r2));
                let t = DispatchState {
                    ip: *ip,
                    grid: *grid,
                    out: out@,
                    events: events.queue@,
                    work: work@,
                };
                assert(crate::pointer::command_effect(
                    sprev.work.last().0,
                    sprev.ip,
                    t.ip,
                    sprev.grid,
                    t.grid,
                    sprev.out,
                    t.out,
                    sprev.events,
                    t.events,
                    *env,
                    ignore,
                    r2,
                ));
                assert(t.work == pushed_work(
                    if sprev.work.last().1 > 1 {
                        sprev.work.update(
                            sprev.work.len() - 1,
                            (sprev.work.last().0, (sprev.work.last().1 - 1) as u32),
                        )
                    } else {
                        sprev.work.drop_last()
                    },
                    r2,
                ));
                assert(dispatch_step(sprev, t, *env, ignore));
                trace = trace.push(t);
                assert(trace.last() == t);
                assert(trace[0] == first);
            }
        }
        proof {
            assert(trace.last().work == work@);
            if work@.len() > 0 {
                assert(fuel == 0);
                assert(trace.len() - 1 == DISPATCH_FUEL);
            }
            assert(c == old(grid).cell(pw.pos.0 as int, pw.pos.1 as int));
            assert(dispatch_trace(
                trace,
                redo,
                *old(ip),
                *old(grid),
                old(out)@,
                old(events).queue@,
                *env,
                ignore,
            ));
            assert(*ip == trace.last().ip && *grid == trace.last().grid && out@
                == trace.last().out && events.queue@ == trace.last().events);
            assert(step_effect(
                *old(ip),
                *ip,
                *old(grid),
                *grid,
                old(out)@,
                out@,
                old(events).queue@,
                events.queue@,
                *env,
                ignore,
            ));
        }
    }
}

/// A twin spawned from a parent pointer: the same state with the motion
/// delta inverted, the same stack contents, numbered by its position.
pub open spec fn spawned_twin(parent: InstructionPointer, t: InstructionPointer, id: int) -> bool {
    &&& t.pos == parent.pos
    &&& t.delta == crate::pointer::inverted(parent.delta)
    &&& t.offset == parent.offset
    &&& t.string_mode == parent.string_mode
    &&& t.dead == parent.dead
    &&& t.first_tick == parent.first_tick
    &&& t.id == id
    &&& t.stacks@.len() == parent.stacks@.len()
    &&& forall|i: int|
        0 <= i < t.stacks@.len() ==> crate::stack::same_stack(
            #[trigger] t.stacks@[i],
            parent.stacks@[i],
        )
}

/// The engine's execution-facing state: the pointers, the grid, the
/// output, and the pending coordination events.
pub struct EngineState {
    /// The pointers, in stepping order.
    pub ips: Seq<InstructionPointer>,
    /// The grid.
    pub grid: FungeGrid,
    /// The output produced so far.
    pub out: Seq<char>,
    /// The pending coordination events, oldest first.
    pub events: Seq<Event>,
}

/// The execution-facing state of an engine.
pub open spec fn engine_state(b: Befunge) -> EngineState {
    EngineState { ips: b.ip_list@, grid: b.grid, out: b.out@, events: b.events.queue@ }
}

/// What one turn of the tick loop does at position `i`: a dead pointer is
/// skipped and everything stays; a live one is stepped exactly as
/// `step_effect` states and then has its first-tick flag cleared. All
/// other pointers keep their values.
pub open spec fn stepped_at(
    pre: EngineState,
    post: EngineState,
    i: int,
    env: HostEnv,
    ignore: bool,
) -> bool {
    &&& 0 <= i < pre.ips.len()
    &&& post.ips.len() == pre.ips.len()
    &&& forall|j: int| 0 <= j < pre.ips.len() && j != i ==> post.ips[j] == pre.ips[j]
    &&& if pre.ips[i].dead {
        &&& post.ips[i] == pre.ips[i]
        &&& post.grid == pre.grid
        &&& post.out == pre.out
        &&& post.events == pre.events
    } else {
        exists|q: InstructionPointer|
            #[trigger] step_effect(
                pre.ips[i],
                q,
                pre.grid,
                post.grid,
                pre.out,
                post.out,
                pre.events,
                post.events,
                env,
                ignore,
            ) && post.ips[i] == (InstructionPointer { first_tick: false, ..q })
    }
}

/// What applying one drained coordination event does to the pointer list,
/// the exit code, the pending input request and the queued host requests:
/// a spawn inserts a renumbered twin before its in-range parent (and does
/// nothing for a parent that does not exist), a kill records the code and
/// marks every pointer dead, an input request is recorded, and file and
/// shell requests queue for the host.
pub open spec fn event_applied(
    e: Event,
    ips0: Seq<InstructionPointer>,
    ips1: Seq<InstructionPointer>,
    exit0: Option<i32>,
    exit1: Option<i32>,
    pend0: Option<(InputType, usize)>,
    pend1: Option<(InputType, usize)>,
    host0: Seq<Event>,
    host1: Seq<Event>,
) -> bool {
    match e {
        Event::Spawn(id) => {
            &&& exit1 == exit0
            &&& pend1 == pend0
            &&& host1 == host0
            &&& if id < ips0.len() {
                &&& ips1.len() == ips0.len() + 1
                &&& spawned_twin(ips0[id as int], ips1[id as int], id as int)
                &&& forall|j: int| 0 <= j < id ==> ips1[j] == ips0[j]
                &&& forall|j: int|
                    id < j < ips1.len() ==> ips1[j] == (InstructionPointer {
                        id: j as usize,
                        ..ips0[j - 1]
                    })
            } else {
                ips1 == ips0
            }
        },
        Event::Kill(code) => {
            &&& exit1 == Some(code)
            &&& pend1 == pend0
            &&& host1 == host0
            &&& ips1.len() == ips0.len()
            &&& forall|j: int|
                0 <= j < ips0.len() ==> ips1[j] == (InstructionPointer {
                    dead: true,
                    ..ips0[j]
                })
        },
        Event::Input(t, id) => {
            &&& ips1 == ips0
            &&& exit1 == exit0
            &&& pend1 == Some((t, id))
            &&& host1 == host0
        },
        _ => {
            &&& ips1 == ips0
            &&& exit1 == exit0
            &&& pend1 == pend0
            &&& host1 == host0.push(e)
        },
    }
}

/// What one whole tick does: a chain of engine states in which every
/// pointer is visited in order — dead ones skipped, live ones stepped as
/// `step_effect` states — and then the head event of the queue, if any,
/// is drained and applied as `event_applied` states.
pub open spec fn tick_trace(mid: Seq<EngineState>, pre: Befunge, post: Befunge) -> bool {
    let n = pre.ip_list@.len() as int;
    &&& mid.len() == n + 1
    &&& mid[0] == engine_state(pre)
    &&& forall|i: int|
        0 <= i < n ==> #[trigger] stepped_at(mid[i], mid[i + 1], i, pre.env, pre.args.ignore_invalid)
    &&& if mid[n].events.len() == 0 {
        &&& post.ip_list@ == mid[n].ips
        &&& post.grid == mid[n].grid
        &&& post.out@ == mid[n].out
        &&& post.events.queue@ == mid[n].events
        &&& post.exit_code == pre.exit_code
        &&& post.pending_input == pre.pending_input
        &&& post.host_requests@ == pre.host_requests@
    } else {
        &&& post.grid == mid[n].grid
        &&& post.out@ == mid[n].out
        &&& post.events.queue@ == mid[n].events.drop_first()
        &&& event_applied(
            mid[n].events[0],
            mid[n].ips,
            post.ip_list@,
            pre.exit_code,
            post.exit_code,
            pre.pending_input,
            post.pending_input,
            pre.host_requests@,
            post.host_requests@,
        )
    }
}

impl Befunge {
    /// Step forward once: every live pointer walks (except on its first
    /// tick) and executes the character it stands on — or, in string mode,
    /// pushes it — and then one pending coordination event is drained and
    /// applied. A request to re-dispatch (blank-space skips, marker jumps
    /// and iteration) is executed within the same tick; a cascade of
    /// nested re-dispatches stops after about four billion instructions,
    /// which bounds the tick where an unbounded iteration would otherwise
    /// never yield.
    ///
    /// The whole tick is witnessed by a `tick_trace`: a chain of engine
    /// states in which each pointer in turn is skipped when dead or
    /// stepped exactly as `step_effect` states, after which the head
    /// event, if any, is drained and applied exactly as `event_applied`
    /// states.
    pub fn tick(&mut self)
        requires
            old(self).wf(),
        ensures
            final(self).wf(),
            exists|mid: Seq<EngineState>| #[trigger] tick_trace(mid, *old(self), *final(self)),
            final(self).grid.og_chars == old(self).grid.og_chars,
            final(self).grid.expand == old(self).grid.expand,
            final(self).args == old(self).args,
            final(self).env == old(self).env,
            final(self).ticks == old(self).ticks,
            final(self).paused == old(self).paused,
            final(self).out@.len() >= old(self).out@.len(),
            final(self).out@.subrange(0, old(self).out@.len() as int) == old(self).out@,
            (forall|j: int|
                0 <= j < old(self).ip_list@.len() ==> (#[trigger] old(self).ip_list@[j]).dead)
                && old(self).events.queue@.len() == 0 ==> final(self).ip_list@ == old(
                self,
            ).ip_list@ && final(self).grid == old(self).grid && final(self).out == old(self).out
                && final(self).exit_code == old(self).exit_code,
    {
        let ghost mut chain: Seq<EngineState> = seq![engine_state(*old(self))];
        let n = self.ip_list.len();
        let mut i: usize = 0;
        while i < n
            invariant
                self.wf(),
                i <= n,
                n == self.ip_list@.len(),
                chain.len() == i + 1,
                chain[0] == engine_state(*old(self)),
                forall|j: int|
                    0 <= j < i ==> #[trigger] stepped_at(
                        chain[j],
                        chain[j + 1],
                        j,
                        old(self).env,
                        old(self).args.ignore_invalid,
                    ),
                chain.last() == engine_state(*self),
                self.grid.og_chars == old(self).grid.og_chars,
                self.grid.expand == old(self).grid.expand,
                self.args == old(self).args,
                self.env == old(self).env,
                self.ticks == old(self).ticks,
                self.paused == old(self).paused,
                self.exit_code == old(self).exit_code,
                self.pending_input == old(self).pending_input,
                self.host_requests == old(self).host_requests,
                self.out@.len() >= old(self).out@.len(),
                self.out@.subrange(0, old(self).out@.len() as int) == old(self).out@,
                (forall|j: int|
                    0 <= j < old(self).ip_list@.len() ==> (#[trigger] old(
                        self,
                    ).ip_list@[j]).dead) ==> self.ip_list@ == old(self).ip_list@ && self.grid
                    == old(self).grid && self.out == old(self).out && self.events == old(
                    self,
                ).events,
            decreases n - i,
        {
            let ghost lpre = self.ip_list@;
            let ghost gw0 = self.grid.width;
            let ghost gh0 = self.grid.height;
            let mut ip = self.ip_list.remove(i);
            if ip.dead {
                let ghost ipf = ip;
                self.ip_list.insert(i, ip);
                proof {
                    assert(self.ip_list@ =~= lpre.update(i as int, ipf));
                    assert(self.ip_list@ =~= lpre);
                    let s2 = engine_state(*self);
                    assert(stepped_at(
                        chain[i as int],
                        s2,
                        i as int,
                        old(self).env,
                        old(self).args.ignore_invalid,
                    ));
                    chain = chain.push(s2);
                }
                i += 1;
                continue ;
            }
            let ghost out_pre = self.out@;
            step_pointer(
                &mut ip,
                &mut self.grid,
                &mut self.events,
                &mut self.out,
                &self.env,
                self.args.ignore_invalid,
            );
            proof {
                lemma_prefix_chain(old(self).out@, out_pre, self.out@);
            }
            let ghost q = ip;
            if ip.first_tick {
                ip.first_tick = false;
            }
            let ghost ipf = ip;
            self.ip_list.insert(i, ip);
            proof {
                assert(self.ip_list@ =~= lpre.update(i as int, ipf));
                assert(forall|j: int|
                    0 <= j < lpre.len() && j != i ==> self.ip_list@[j] == lpre[j]);
                assert(ipf == (InstructionPointer { first_tick: false, ..q }));
                let s2 = engine_state(*self);
                assert(step_effect(
                    lpre[i as int],
                    q,
                    chain[i as int].grid,
                    s2.grid,
                    chain[i as int].out,
                    s2.out,
                    chain[i as int].events,
                    s2.events,
                    old(self).env,
                    old(self).args.ignore_invalid,
                ));
                assert(stepped_at(
                    chain[i as int],
                    s2,
                    i as int,
                    old(self).env,
                    old(self).args.ignore_invalid,
                ));
                chain = chain.push(s2);
            }
            i += 1;
        }
        let ghost pre_drain = engine_state(*self);
        let drained = self.events.next();
        match drained {
            Some(e) => self.apply_event(e),
            None => {},
        }
        proof {
            assert(chain.last() == pre_drain);
            assert(chain.len() == n + 1);
            assert(tick_trace(chain, *old(self), *self));
        }
    }

    /// Reset everything that execution changed: the grid returns to its
    /// load-time contents and a single fresh pointer starts over at the
    /// start position; the output clears and pausing returns to the
    /// configured setting.
    pub fn restart(&mut self)
        requires
            old(self).wf(),
        ensures
            final(self).wf(),
            final(self).grid.chars.deep_view() == old(self).grid.og_chars.deep_view(),
            forall|x: int, y: int|
                final(self).grid.cell(x, y) == #[trigger] final(self).grid.og_cell(x, y),
            final(self).grid.og_chars == old(self).grid.og_chars,
            final(self).ip_list@.len() == 1,
            crate::grid::is_start_pos(
                final(self).grid,
                old(self).args.script,
                final(self).ip_list@[0].pos,
            ),
            final(self).ip_list@[0].delta == (FungeVector(1i32, 0i32)),
            final(self).ip_list@[0].offset == (FungeVector(0i32, 0i32)),
            !final(self).ip_list@[0].string_mode,
            final(self).ip_list@[0].first_tick,
            final(self).ip_list@[0].toss() == Seq::<i32>::empty(),
            final(self).ip_list@[0].stacks@.len() == 1,
            !final(self).ip_list@[0].stacks@[0].queue_mode,
            !final(self).ip_list@[0].stacks@[0].invert_mode,
            !final(self).ip_list@[0].dead,
            final(self).ip_list@[0].id == 0,
            final(self).out@ == Seq::<char>::empty(),
            final(self).paused == old(self).args.paused,
            final(self).pending_input is None,
            final(self).args == old(self).args,
            final(self).env == old(self).env,
            final(self).exit_code == old(self).exit_code,
    {
        self.grid.reset();
        let start = self.grid.start_pos(self.args.script);
        let mut ip_list: Vec<InstructionPointer> = Vec::new();
        ip_list.push(InstructionPointer::new(start, crate::vector::east(), 0));
        self.ip_list = ip_list;
        self.out = Vec::new();
        self.paused = self.args.paused;
        self.pending_input = None;
    }

    /// Hand a requested input value to the pointer that asked for it.
    pub fn provide_input(&mut self, value: i32)
        requires
            old(self).wf(),
            old(self).pending_input matches Some((t, id)) && id < old(self).ip_list@.len(),
        ensures
            final(self).wf(),
            final(self).pending_input is None,
            ({
                let pending = old(self).pending_input->0;
                let id = pending.1 as int;
                &&& final(self).ip_list@.len() == old(self).ip_list@.len()
                &&& final(self).ip_list@[id].toss() == crate::stack::pushed(
                    old(self).ip_list@[id].toss(),
                    old(self).ip_list@[id].stacks@[0].invert_mode,
                    value,
                )
                &&& forall|j: int|
                    0 <= j < old(self).ip_list@.len() && j != id
                        ==> final(self).ip_list@[j] == old(self).ip_list@[j]
            }),
    {
        let id = match self.pending_input {
            Some((_, id)) => id,
            None => {
                proof {
                    assert(false);
                }
                0
            },
        };
        let mut ip = self.ip_list.remove(id);
        ip.push(value);
        self.ip_list.insert(id, ip);
        self.pending_input = None;
        proof {
            assert(final(self).ip_list@ =~= old(self).ip_list@.update(
                id as int,
                final(self).ip_list@[id as int],
            ));
        }
    }

    /// The next file or shell request awaiting the host, if any.
    pub fn next_host_request(&mut self) -> (r: Option<Event>)
        ensures
            old(self).host_requests@.len() == 0 ==> r is None && *final(self) == *old(self),
            old(self).host_requests@.len() > 0 ==> r == Some(old(self).host_requests@[0])
                && final(self).host_requests@ == old(self).host_requests@.drop_first()
                && *final(self) == (Befunge {
                host_requests: final(self).host_requests,
                ..*old(self)
            }),
    {
        if self.host_requests.len() > 0 {
            let e = self.host_requests.remove(0);
            Some(e)
        } else {
            None
        }
    }

    /// Deliver the outcome of a requested file read: missing files reverse
    /// the requesting pointer's direction, and file contents are pasted
    /// into the grid at the requested position.
    pub fn deliver_file_input(
        &mut self,
        dest: FungeVector,
        binary: bool,
        content: Option<String>,
        id: usize,
    )
        requires
            old(self).wf(),
            content matches Some(t) ==> t@.len() <= 0x7FFF_FFFF,
        ensures
            final(self).wf(),
            content is None && id < old(self).ip_list@.len() ==> final(self).grid == old(self).grid && final(self).ip_list@.len() == old(self).ip_list@.len() && final(self).ip_list@[id as int].delta == crate::pointer::inverted(
                old(self).ip_list@[id as int].delta,
            ),
            content matches Some(t) ==> final(self).ip_list == old(self).ip_list && forall|
                a: int,
                b: int,
            |
                #[trigger] final(self).grid.cell(a, b) == crate::grid::cells_after(
                    old(self).grid,
                    crate::grid::place_writes(t@, dest, binary),
                    a,
                    b,
                ),
    {
        match content {
            Some(text) => {
                self.grid.place(text, dest, binary);
            },
            None => {
                if id < self.ip_list.len() {
                    let mut ip = self.ip_list.remove(id);
                    ip.delta.invert();
                    self.ip_list.insert(id, ip);
                    proof {
                        assert(final(self).ip_list@ =~= old(self).ip_list@.update(
                            id as int,
                            final(self).ip_list@[id as int],
                        ));
                    }
                }
            },
        }
    }

    /// Deliver the outcome of a requested file write: an unwritable target
    /// reverses the requesting pointer's direction.
    pub fn deliver_file_result(&mut self, ok: bool, id: usize)
        requires
            old(self).wf(),
        ensures
            final(self).wf(),
            ok ==> *final(self) == *old(self),
            !ok && id < old(self).ip_list@.len() ==> final(self).ip_list@.len() == old(self).ip_list@.len() && final(self).ip_list@[id as int].delta == crate::pointer::inverted(
                old(self).ip_list@[id as int].delta,
            ),
    {
        if !ok && id < self.ip_list.len() {
            let mut ip = self.ip_list.remove(id);
            ip.delta.invert();
            self.ip_list.insert(id, ip);
            proof {
                assert(final(self).ip_list@ =~= old(self).ip_list@.update(
                    id as int,
                    final(self).ip_list@[id as int],
                ));
            }
        }
    }

    /// Deliver the exit code of a requested shell run: it is pushed onto
    /// the requesting pointer's stack.
    pub fn deliver_exit_code(&mut self, code: i32, id: usize)
        requires
            old(self).wf(),
        ensures
            final(self).wf(),
            id < old(self).ip_list@.len() ==> final(self).ip_list@[id as int].toss()
                == crate::stack::pushed(
                old(self).ip_list@[id as int].toss(),
                old(self).ip_list@[id as int].stacks@[0].invert_mode,
                code,
            ),
    {
        if id < self.ip_list.len() {
            let mut ip = self.ip_list.remove(id);
            ip.push(code);
            self.ip_list.insert(id, ip);
            proof {
                assert(final(self).ip_list@ =~= old(self).ip_list@.update(
                    id as int,
                    final(self).ip_list@[id as int],
                ));
            }
        }
    }
}

impl InputType {
    /// Parse text into the requested kind of value: a number parses by its
    /// decimal form, a character parses when the text is exactly one
    /// character; anything else yields 0.
    pub fn parse(&self, text: &str) -> (r: i32)
        ensures
            *self is Number ==> r == if crate::text::valid_i32_text(text@) {
                crate::text::i32_text_value(text@)
            } else {
                0i32
            },
            *self is Character ==> r == if text@.len() == 1 {
                text@[0] as i32
            } else {
                0i32
            },
    {
        let cs = crate::text::str_chars(text);
        match self {
            InputType::Number => match crate::text::parse_i32(&cs) {
                Some(v) => v,
                None => 0,
            },
            InputType::Character => {
                if cs.len() == 1 {
                    crate::text::char_code(cs[0])
                } else {
                    0
                }
            },
        }
    }

    /// Whether text would parse as the requested kind of value.
    pub fn can_parse(&self, text: &str) -> (r: bool)
        ensures
            *self is Number ==> r == crate::text::valid_i32_text(text@),
            *self is Character ==> r == (text@.len() == 1),
    {
        let cs = crate::text::str_chars(text);
        match self {
            InputType::Number => crate::text::parse_i32(&cs).is_some(),
            InputType::Character => cs.len() == 1,
        }
    }
}

/// Prefix extension is transitive: if the first text is a prefix of the
/// second and the second of the third, the first is a prefix of the
/// third.
proof fn lemma_prefix_chain(a: Seq<char>, b: Seq<char>, c: Seq<char>)
    requires
        a.len() <= b.len(),
        b.subrange(0, a.len() as int) == a,
        c.len() >= b.len(),
        c.subrange(0, b.len() as int) == b,
    ensures
        c.len() >= a.len(),
        c.subrange(0, a.len() as int) == a,
{
    assert(c.subrange(0, a.len() as int) =~= b.subrange(0, a.len() as int));
}

} // verus!
