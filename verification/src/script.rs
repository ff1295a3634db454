//! Scripts of effects, and the machine that runs them.
//!
//! Before the C runtime is up, and inside a signal handler, nothing may be
//! allocated and nothing but system calls may be made. What is to be done
//! there is described by a [`Script`], a fixed array of operations, and a
//! [`Run`] turns it into single effects: the caller performs each effect and
//! hands its result back, because some results decide what follows.

use crate::abi::{o_cloexec, o_wronly, raw_close, raw_openat, raw_write, Registers};
use crate::text::{ascii, ascii_bytes};
use vstd::prelude::*;

verus! {

/// One thing that the caller performs. `B` is a byte string.
#[derive(Clone, Copy, Debug, PartialEq, Eq)]
pub enum Effect<B> {
    /// Write `bytes` to the descriptor `fd`, in one call; what a short write
    /// leaves is not written.
    Write { fd: i64, bytes: B },
    /// Open the file at `path`, which ends in a zero byte. The result is a
    /// descriptor, or negative.
    Open { path: B, flags: i64 },
    /// Close the descriptor `fd`.
    Close { fd: i64 },
    /// Install the fatal signal handler for `signum`, ignoring the result. The
    /// bit `n - 1` of `sa_mask` says that signal `n` is held back meanwhile.
    Sigaction { signum: i32, sa_flags: i32, sa_mask: u64 },
    /// End the process at once.
    Exit { code: i32 },
    /// Hand over to the start routine that comes next.
    StartMain,
    /// Read whether the C library's own `sysconf` may be asked. The result is
    /// 0 where it may not.
    LoadAllowReal,
    /// Return what the C library's own `sysconf` says.
    RealSysconf { name: i32 },
    /// Return a value to the caller.
    Return { value: i64 },
    /// Hand over to the C library's own `abort`.
    RealAbort,
}

/// One operation of a script.
#[derive(Clone, Copy, Debug, PartialEq, Eq)]
pub enum Op<B> {
    /// A single effect, whose result does not matter.
    Do(Effect<B>),
    /// Write the message to each of the optional sinks that can be opened.
    Sinks { set: SinkSet, msg: B },
    /// Read whether the C library's own `sysconf` may be asked, and do `yes`
    /// where it may and `no` where it may not.
    IfRealAllowed { yes: Effect<B>, no: Effect<B> },
}

/// The optional sinks of a message.
#[derive(Clone, Copy, Debug, PartialEq, Eq)]
pub enum SinkSet {
    /// Those of a log message.
    Log,
    /// Those of the marker that the entry point leaves.
    Entry,
}

impl<'a> View for Effect<&'a [u8]> {
    type V = Effect<Seq<u8>>;

    open spec fn view(&self) -> Effect<Seq<u8>> {
        match *self {
            Effect::Write { fd, bytes } => Effect::Write { fd, bytes: bytes@ },
            Effect::Open { path, flags } => Effect::Open { path: path@, flags },
            Effect::Close { fd } => Effect::Close { fd },
            Effect::Sigaction { signum, sa_flags, sa_mask } => Effect::Sigaction {
                signum,
                sa_flags,
                sa_mask,
            },
            Effect::Exit { code } => Effect::Exit { code },
            Effect::StartMain => Effect::StartMain,
            Effect::LoadAllowReal => Effect::LoadAllowReal,
            Effect::RealSysconf { name } => Effect::RealSysconf { name },
            Effect::Return { value } => Effect::Return { value },
            Effect::RealAbort => Effect::RealAbort,
        }
    }
}

impl<'a> View for Op<&'a [u8]> {
    type V = Op<Seq<u8>>;

    open spec fn view(&self) -> Op<Seq<u8>> {
        match *self {
            Op::Do(effect) => Op::Do(effect@),
            Op::Sinks { set, msg } => Op::Sinks { set, msg: msg@ },
            Op::IfRealAllowed { yes, no } => Op::IfRealAllowed { yes: yes@, no: no@ },
        }
    }
}

/// The flags that a sink is opened with: write only, closed on exec.
pub const SINK_FLAGS: i64 = 0x80001;

/// The optional sinks in the order in which they are tried.
pub open spec fn sink_paths(set: SinkSet) -> Seq<Seq<u8>> {
    match set {
        SinkSet::Log => seq![
            ascii("/dev/console\0"@),
            ascii("/dev/kmsg\0"@),
            ascii("/dev/ttyS0\0"@),
            ascii("/dev/ttyS1\0"@),
            ascii("/dev/hvc0\0"@),
            ascii("/proc/kmsg\0"@),
            ascii("/proc/self/fd/1\0"@),
            ascii("/proc/self/fd/2\0"@),
        ],
        SinkSet::Entry => seq![
            ascii("/proc/kmsg\0"@),
            ascii("/dev/console\0"@),
            ascii("/dev/hvc0\0"@),
            ascii("/dev/hvc1\0"@),
        ],
    }
}

/// How many optional sinks there are.
pub open spec fn sink_total(set: SinkSet) -> int {
    sink_paths(set).len() as int
}

/// How many optional sinks there are.
pub fn sink_count(set: SinkSet) -> (count: usize)
    ensures
        count == sink_total(set),
        count == if set == SinkSet::Log {
            8
        } else {
            4int
        },
{
    match set {
        SinkSet::Log => 8,
        SinkSet::Entry => 4,
    }
}

/// The path of the sink number `i`, with its terminating zero byte.
pub fn sink_path(set: SinkSet, i: usize) -> (path: &'static [u8])
    requires
        i < sink_total(set),
    ensures
        path@ == sink_paths(set)[i as int],
        path@ == match set {
            SinkSet::Log => if i == 0 {
                ascii("/dev/console\0"@)
            } else if i == 1 {
                ascii("/dev/kmsg\0"@)
            } else if i == 2 {
                ascii("/dev/ttyS0\0"@)
            } else if i == 3 {
                ascii("/dev/ttyS1\0"@)
            } else if i == 4 {
                ascii("/dev/hvc0\0"@)
            } else if i == 5 {
                ascii("/proc/kmsg\0"@)
            } else if i == 6 {
                ascii("/proc/self/fd/1\0"@)
            } else {
                ascii("/proc/self/fd/2\0"@)
            },
            SinkSet::Entry => if i == 0 {
                ascii("/proc/kmsg\0"@)
            } else if i == 1 {
                ascii("/dev/console\0"@)
            } else if i == 2 {
                ascii("/dev/hvc0\0"@)
            } else {
                ascii("/dev/hvc1\0"@)
            },
        },
{
    proof {
        reveal_strlit("/dev/console\0");
        reveal_strlit("/dev/kmsg\0");
        reveal_strlit("/dev/ttyS0\0");
        reveal_strlit("/dev/ttyS1\0");
        reveal_strlit("/dev/hvc0\0");
        reveal_strlit("/dev/hvc1\0");
        reveal_strlit("/proc/kmsg\0");
        reveal_strlit("/proc/self/fd/1\0");
        reveal_strlit("/proc/self/fd/2\0");
    }
    match set {
        SinkSet::Log => match i {
            0 => ascii_bytes("/dev/console\0"),
            1 => ascii_bytes("/dev/kmsg\0"),
            2 => ascii_bytes("/dev/ttyS0\0"),
            3 => ascii_bytes("/dev/ttyS1\0"),
            4 => ascii_bytes("/dev/hvc0\0"),
            5 => ascii_bytes("/proc/kmsg\0"),
            6 => ascii_bytes("/proc/self/fd/1\0"),
            _ => ascii_bytes("/proc/self/fd/2\0"),
        },
        SinkSet::Entry => match i {
            0 => ascii_bytes("/proc/kmsg\0"),
            1 => ascii_bytes("/dev/console\0"),
            2 => ascii_bytes("/dev/hvc0\0"),
            _ => ascii_bytes("/dev/hvc1\0"),
        },
    }
}

/// The effect that opens the sink number `i`.
pub open spec fn open_sink(set: SinkSet, i: int) -> Effect<Seq<u8>> {
    Effect::Open { path: sink_paths(set)[i], flags: SINK_FLAGS }
}

fn make_open_sink<'a>(set: SinkSet, i: usize) -> (effect: Effect<&'a [u8]>)
    requires
        i < sink_total(set),
    ensures
        effect@ == open_sink(set, i as int),
        effect@ == (Effect::Open { path: sink_paths(set)[i as int], flags: 0x80001 }),
{
    let flags: i32 = o_wronly() | o_cloexec();
    assert(1i32 | 0x80000i32 == 0x80001i32) by (bit_vector);
    Effect::Open { path: sink_path(set, i), flags: flags as i64 }
}

/// The registers of the system call that performs an effect, where one system
/// call does.
pub fn system_call<'a>(effect: Effect<&'a [u8]>) -> (regs: Option<Registers<'a>>)
    ensures
        match effect {
            Effect::Write { fd, bytes } => {
                &&& regs matches Some(r)
                &&& r.rax == 1
                &&& r.rdi == fd
                &&& r.rsi@ == bytes@
                &&& r.rdx == bytes@.len()
                &&& r.r10 == 0
            },
            Effect::Open { path, flags } => {
                &&& regs matches Some(r)
                &&& r.rax == 257
                &&& r.rdi == -100
                &&& r.rsi@ == path@
                &&& r.rdx == flags as u64
                &&& r.r10 == 0
            },
            Effect::Close { fd } => {
                &&& regs matches Some(r)
                &&& r.rax == 3
                &&& r.rdi == fd
                &&& r.rsi@ == Seq::<u8>::empty()
                &&& r.rdx == 0
                &&& r.r10 == 0
            },
            _ => regs is None,
        },
{
    match effect {
        Effect::Write { fd, bytes } => Some(raw_write(fd, bytes)),
        Effect::Open { path, flags } => Some(raw_openat(path, flags)),
        Effect::Close { fd } => Some(raw_close(fd)),
        _ => None,
    }
}

/// How many operations a script can hold.
pub const SCRIPT_CAPACITY: usize = 12;

/// A list of at most [`SCRIPT_CAPACITY`] operations, held without allocating.
#[derive(Clone, Copy)]
pub struct Script<'a> {
    ops: [Op<&'a [u8]>; 12],
    len: usize,
}

impl<'a> View for Script<'a> {
    type V = Seq<Op<Seq<u8>>>;

    closed spec fn view(&self) -> Seq<Op<Seq<u8>>> {
        Seq::new(self.len as nat, |i: int| self.ops@[i]@)
    }
}

impl<'a> Script<'a> {
    #[verifier::type_invariant]
    spec fn within_capacity(self) -> bool {
        self.len <= SCRIPT_CAPACITY
    }

    /// The script that does nothing.
    pub fn new() -> (script: Script<'a>)
        ensures
            script@ == Seq::<Op<Seq<u8>>>::empty(),
    {
        Script { ops: [Op::Do(Effect::StartMain); 12], len: 0 }
    }

    /// How many operations there are.
    pub fn len(&self) -> (len: usize)
        ensures
            len == self@.len(),
            len <= SCRIPT_CAPACITY,
    {
        proof {
            use_type_invariant(self);
        }
        self.len
    }

    /// The operation at position `i`.
    pub fn op(&self, i: usize) -> (op: Op<&'a [u8]>)
        requires
            i < self@.len(),
        ensures
            op@ == self@[i as int],
    {
        proof {
            use_type_invariant(self);
        }
        self.ops[i]
    }

    /// Appends one operation.
    pub fn push(&mut self, op: Op<&'a [u8]>)
        requires
            old(self)@.len() < SCRIPT_CAPACITY,
        ensures
            final(self)@ == old(self)@.push(op@),
    {
        proof {
            use_type_invariant(&*self);
        }
        let mut ops = self.ops;
        ops[self.len] = op;
        *self = Script { ops, len: self.len + 1 };
        assert(self@ =~= old(self)@.push(op@));
    }
}

/// Where a run stands within the operation that it is at.
#[derive(Clone, Copy, Debug, PartialEq, Eq)]
pub enum Phase {
    /// The sink of this number is the next to be opened. At the beginning of
    /// every operation this is `At(0)`.
    At(usize),
    /// The sink of this number was just asked to be opened.
    Opened(usize),
    /// The message was just written to this sink, open as this descriptor.
    Wrote(usize, i64),
    /// It was just read whether the C library may be asked.
    Asked,
}

/// The state of a run: a script, the operation that it is at, and how far it
/// is with it.
pub struct RunState {
    pub ops: Seq<Op<Seq<u8>>>,
    pub pc: int,
    pub phase: Phase,
}

impl RunState {
    pub open spec fn wf(self) -> bool {
        &&& 0 <= self.pc <= self.ops.len()
        &&& if self.pc < self.ops.len() {
            match self.ops[self.pc] {
                Op::Do(_) => self.phase == Phase::At(0),
                Op::Sinks { set, .. } => match self.phase {
                    Phase::At(i) => i <= sink_total(set),
                    Phase::Opened(i) => i < sink_total(set),
                    Phase::Wrote(i, _) => i < sink_total(set),
                    Phase::Asked => false,
                },
                Op::IfRealAllowed { .. } => self.phase == Phase::At(0) || self.phase
                    == Phase::Asked,
            }
        } else {
            self.phase == Phase::At(0)
        }
    }
}

/// Goes to the operation `pc` and takes its first effect, if there is one.
pub open spec fn enter(ops: Seq<Op<Seq<u8>>>, pc: int) -> (RunState, Option<Effect<Seq<u8>>>) {
    if pc >= ops.len() {
        (RunState { ops, pc, phase: Phase::At(0) }, None)
    } else {
        match ops[pc] {
            Op::Do(effect) => (RunState { ops, pc: pc + 1, phase: Phase::At(0) }, Some(effect)),
            Op::Sinks { set, .. } => (
                RunState { ops, pc, phase: Phase::Opened(0) },
                Some(open_sink(set, 0)),
            ),
            Op::IfRealAllowed { .. } => (
                RunState { ops, pc, phase: Phase::Asked },
                Some(Effect::LoadAllowReal),
            ),
        }
    }
}

/// Goes to the sink number `i` of the operation at hand, or beyond the
/// operation once all sinks were tried.
pub open spec fn enter_sink(state: RunState, set: SinkSet, i: int) -> (
    RunState,
    Option<Effect<Seq<u8>>>,
) {
    if i < sink_total(set) {
        (RunState { phase: Phase::Opened(i as usize), ..state }, Some(open_sink(set, i)))
    } else {
        enter(state.ops, state.pc + 1)
    }
}

/// The next effect of a run, given the result of the one before. There is
/// none once the script is at its end.
pub open spec fn next(state: RunState, result: i64) -> (RunState, Option<Effect<Seq<u8>>>) {
    if state.pc >= state.ops.len() {
        (state, None)
    } else {
        match (state.ops[state.pc], state.phase) {
            (Op::Sinks { set, .. }, Phase::At(i)) => enter_sink(state, set, i as int),
            (Op::Sinks { set, msg }, Phase::Opened(i)) => if result >= 0 {
                (
                    RunState { phase: Phase::Wrote(i, result), ..state },
                    Some(Effect::Write { fd: result, bytes: msg }),
                )
            } else {
                enter_sink(state, set, i + 1)
            },
            (Op::Sinks { .. }, Phase::Wrote(i, fd)) => (
                RunState { phase: Phase::At((i + 1) as usize), ..state },
                Some(Effect::Close { fd }),
            ),
            (Op::IfRealAllowed { yes, no }, Phase::Asked) => (
                RunState { ops: state.ops, pc: state.pc + 1, phase: Phase::At(0) },
                Some(
                    if result != 0 {
                        yes
                    } else {
                        no
                    },
                ),
            ),
            _ => enter(state.ops, state.pc),
        }
    }
}

/// A script in progress.
pub struct Run<'a> {
    script: Script<'a>,
    pc: usize,
    phase: Phase,
}

impl<'a> View for Run<'a> {
    type V = RunState;

    closed spec fn view(&self) -> RunState {
        RunState { ops: self.script@, pc: self.pc as int, phase: self.phase }
    }
}

impl<'a> Run<'a> {
    #[verifier::type_invariant]
    spec fn well_formed(self) -> bool {
        self@.wf()
    }

    /// A run that has not begun.
    pub fn new(script: Script<'a>) -> (run: Run<'a>)
        ensures
            run@ == (RunState { ops: script@, pc: 0, phase: Phase::At(0) }),
    {
        Run { script, pc: 0, phase: Phase::At(0) }
    }

    /// Takes the result of the effect before and gives the next effect, or
    /// nothing at the end of the script. The first call ignores `result`.
    pub fn step(&mut self, result: i64) -> (effect: Option<Effect<&'a [u8]>>)
        ensures
            final(self)@ == next(old(self)@, result).0,
            match effect {
                Some(e) => next(old(self)@, result).1 == Some(e@),
                None => next(old(self)@, result).1 is None,
            },
    {
        proof {
            use_type_invariant(&*self);
        }
        if self.pc >= self.script.len() {
            return None;
        }
        match (self.script.op(self.pc), self.phase) {
            (Op::Sinks { set, .. }, Phase::At(i)) => self.enter_sink(set, i),
            (Op::Sinks { set, msg }, Phase::Opened(i)) => if result >= 0 {
                *self = Run { script: self.script, pc: self.pc, phase: Phase::Wrote(i, result) };
                Some(Effect::Write { fd: result, bytes: msg })
            } else {
                self.enter_sink(set, i + 1)
            },
            (Op::Sinks { .. }, Phase::Wrote(i, fd)) => {
                *self = Run { script: self.script, pc: self.pc, phase: Phase::At(i + 1) };
                Some(Effect::Close { fd })
            },
            (Op::IfRealAllowed { yes, no }, Phase::Asked) => {
                *self = Run { script: self.script, pc: self.pc + 1, phase: Phase::At(0) };
                Some(
                    if result != 0 {
                        yes
                    } else {
                        no
                    },
                )
            },
            _ => self.enter(self.pc),
        }
    }

    fn enter_sink(&mut self, set: SinkSet, i: usize) -> (effect: Option<Effect<&'a [u8]>>)
        requires
            old(self)@.pc < old(self)@.ops.len(),
            old(self)@.ops[old(self)@.pc] is Sinks,
            old(self)@.ops[old(self)@.pc]->set == set,
        ensures
            final(self)@ == enter_sink(old(self)@, set, i as int).0,
            match effect {
                Some(e) => enter_sink(old(self)@, set, i as int).1 == Some(e@),
                None => enter_sink(old(self)@, set, i as int).1 is None,
            },
    {
        proof {
            use_type_invariant(&*self);
        }
        if i < sink_count(set) {
            *self = Run { script: self.script, pc: self.pc, phase: Phase::Opened(i) };
            Some(make_open_sink(set, i))
        } else {
            self.enter(self.pc + 1)
        }
    }

    fn enter(&mut self, pc: usize) -> (effect: Option<Effect<&'a [u8]>>)
        requires
            pc <= old(self)@.ops.len(),
        ensures
            final(self)@ == enter(old(self)@.ops, pc as int).0,
            match effect {
                Some(e) => enter(old(self)@.ops, pc as int).1 == Some(e@),
                None => enter(old(self)@.ops, pc as int).1 is None,
            },
    {
        proof {
            use_type_invariant(&*self);
        }
        if pc >= self.script.len() {
            *self = Run { script: self.script, pc, phase: Phase::At(0) };
            None
        } else {
            match self.script.op(pc) {
                Op::Do(effect) => {
                    *self = Run { script: self.script, pc: pc + 1, phase: Phase::At(0) };
                    Some(effect)
                },
                Op::Sinks { set, .. } => {
                    *self = Run { script: self.script, pc, phase: Phase::Opened(0) };
                    Some(make_open_sink(set, 0))
                },
                Op::IfRealAllowed { .. } => {
                    *self = Run { script: self.script, pc, phase: Phase::Asked };
                    Some(Effect::LoadAllowReal)
                },
            }
        }
    }
}

} // verus!
