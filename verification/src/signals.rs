//! Handlers for the signals of a crash that no panic hook sees.

use crate::abi::{sa_nodefer, sa_resethand, sigabrt, sigbus, sigfpe, sigill, sigsegv, stderr_fileno};
use crate::early_log::{log_ops, push_log, write_op};
use crate::script::{sink_total, Effect, Op, Script, SinkSet};
use crate::text::{ascii, ascii_bytes};
use crate::trace::{
    all_writes_say, descriptor, law_log_sinks_are_reached, law_outer_effects_are_fixed,
    lemma_all_writes_say, lemma_log_then, lemma_only_logs, lemma_sinks_say, one_sink, only_logs,
    op_trace, ops_trace, reaches_log_sinks, script_trace, sinks_trace, Answers,
};
use vstd::prelude::*;
use vstd::string::StringExecFns;

verus! {

/// A signal that is fatal to the process.
#[derive(Clone, Copy, Debug, PartialEq, Eq)]
pub enum FatalSignal {
    Segv,
    Ill,
    Bus,
    Fpe,
    Abrt,
}

/// The number of a signal on Linux for x86-64.
pub open spec fn signal_number(signal: FatalSignal) -> i32 {
    match signal {
        FatalSignal::Segv => 11,
        FatalSignal::Ill => 4,
        FatalSignal::Bus => 7,
        FatalSignal::Fpe => 8,
        FatalSignal::Abrt => 6,
    }
}

/// The name of a signal.
pub open spec fn signal_name(signal: FatalSignal) -> Seq<char> {
    match signal {
        FatalSignal::Segv => "SIGSEGV"@,
        FatalSignal::Ill => "SIGILL"@,
        FatalSignal::Bus => "SIGBUS"@,
        FatalSignal::Fpe => "SIGFPE"@,
        FatalSignal::Abrt => "SIGABRT"@,
    }
}

/// The signals that get a handler, in the order in which they get it.
pub open spec fn fatal_signals() -> Seq<FatalSignal> {
    seq![
        FatalSignal::Segv,
        FatalSignal::Ill,
        FatalSignal::Bus,
        FatalSignal::Fpe,
        FatalSignal::Abrt,
    ]
}

/// How many signals get a handler.
pub const FATAL_SIGNAL_COUNT: usize = 5;

/// The flags of every handler: it is reset to the default when it is called,
/// and its own signal is not held back meanwhile. These are the two highest
/// bits of the flags word.
pub const HANDLER_FLAGS: i32 = -0x4000_0000;

/// The mask of every handler: no other signal is held back while it runs.
pub const HANDLER_MASK: u64 = 0;

/// The name of a signal: `nix::sys::signal::Signal::as_str`, which gives the
/// name that the signal's constant has in C.
#[verifier::external_body]
fn nix_signal_name(signal: FatalSignal) -> (name: &'static str)
    ensures
        name@ == signal_name(signal),
{
    let signal = match signal {
        FatalSignal::Segv => nix::sys::signal::Signal::SIGSEGV,
        FatalSignal::Ill => nix::sys::signal::Signal::SIGILL,
        FatalSignal::Bus => nix::sys::signal::Signal::SIGBUS,
        FatalSignal::Fpe => nix::sys::signal::Signal::SIGFPE,
        FatalSignal::Abrt => nix::sys::signal::Signal::SIGABRT,
    };
    signal.as_str()
}

impl FatalSignal {
    /// The number of the signal.
    pub fn number(self) -> (signum: i32)
        ensures
            signum == signal_number(self),
            signum == match self {
                FatalSignal::Segv => 11int,
                FatalSignal::Ill => 4,
                FatalSignal::Bus => 7,
                FatalSignal::Fpe => 8,
                FatalSignal::Abrt => 6,
            },
    {
        match self {
            FatalSignal::Segv => sigsegv(),
            FatalSignal::Ill => sigill(),
            FatalSignal::Bus => sigbus(),
            FatalSignal::Fpe => sigfpe(),
            FatalSignal::Abrt => sigabrt(),
        }
    }

    /// The name of the signal.
    pub fn name(self) -> (name: &'static str)
        ensures
            name@ == signal_name(self),
            name@ == match self {
                FatalSignal::Segv => "SIGSEGV"@,
                FatalSignal::Ill => "SIGILL"@,
                FatalSignal::Bus => "SIGBUS"@,
                FatalSignal::Fpe => "SIGFPE"@,
                FatalSignal::Abrt => "SIGABRT"@,
            },
    {
        nix_signal_name(self)
    }
}

/// The signal at position `i` of those that get a handler.
pub fn fatal_signal(i: usize) -> (signal: FatalSignal)
    requires
        i < FATAL_SIGNAL_COUNT,
    ensures
        signal == fatal_signals()[i as int],
        signal == if i == 0 {
            FatalSignal::Segv
        } else if i == 1 {
            FatalSignal::Ill
        } else if i == 2 {
            FatalSignal::Bus
        } else if i == 3 {
            FatalSignal::Fpe
        } else {
            FatalSignal::Abrt
        },
{
    match i {
        0 => FatalSignal::Segv,
        1 => FatalSignal::Ill,
        2 => FatalSignal::Bus,
        3 => FatalSignal::Fpe,
        _ => FatalSignal::Abrt,
    }
}

/// The flags that every handler is installed with.
pub fn handler_flags() -> (sa_flags: i32)
    ensures
        sa_flags == HANDLER_FLAGS,
        sa_flags == -0x4000_0000,
{
    assert(i32::MIN | 0x4000_0000i32 == -0x4000_0000i32) by (bit_vector);
    sa_resethand() | sa_nodefer()
}

/// The mask that every handler is installed with, which is empty.
pub fn handler_mask() -> (sa_mask: u64)
    ensures
        sa_mask == HANDLER_MASK,
        sa_mask == 0,
{
    HANDLER_MASK
}

/// What is said of a fatal signal.
pub open spec fn fatal_text(signum: i32) -> Seq<char> {
    if signum == signal_number(FatalSignal::Segv) {
        "NVRC fatal signal: SIGSEGV\n"@
    } else if signum == signal_number(FatalSignal::Ill) {
        "NVRC fatal signal: SIGILL\n"@
    } else if signum == signal_number(FatalSignal::Bus) {
        "NVRC fatal signal: SIGBUS\n"@
    } else if signum == signal_number(FatalSignal::Fpe) {
        "NVRC fatal signal: SIGFPE\n"@
    } else if signum == signal_number(FatalSignal::Abrt) {
        "NVRC fatal signal: SIGABRT\n"@
    } else {
        "NVRC fatal signal: UNKNOWN\n"@
    }
}

/// The message for a fatal signal.
pub fn fatal_message(signum: i32) -> (msg: &'static [u8])
    ensures
        msg@ == ascii(fatal_text(signum)),
        msg@ == ascii(
            "NVRC fatal signal: "@ + (if signum == 11 {
                "SIGSEGV"@
            } else if signum == 4 {
                "SIGILL"@
            } else if signum == 7 {
                "SIGBUS"@
            } else if signum == 8 {
                "SIGFPE"@
            } else if signum == 6 {
                "SIGABRT"@
            } else {
                "UNKNOWN"@
            }) + "\n"@,
        ),
{
    proof {
        law_fatal_text_names_what_came(signum);
        reveal_strlit("NVRC fatal signal: SIGSEGV\n");
        reveal_strlit("NVRC fatal signal: SIGILL\n");
        reveal_strlit("NVRC fatal signal: SIGBUS\n");
        reveal_strlit("NVRC fatal signal: SIGFPE\n");
        reveal_strlit("NVRC fatal signal: SIGABRT\n");
        reveal_strlit("NVRC fatal signal: UNKNOWN\n");
    }
    if signum == sigsegv() {
        ascii_bytes("NVRC fatal signal: SIGSEGV\n")
    } else if signum == sigill() {
        ascii_bytes("NVRC fatal signal: SIGILL\n")
    } else if signum == sigbus() {
        ascii_bytes("NVRC fatal signal: SIGBUS\n")
    } else if signum == sigfpe() {
        ascii_bytes("NVRC fatal signal: SIGFPE\n")
    } else if signum == sigabrt() {
        ascii_bytes("NVRC fatal signal: SIGABRT\n")
    } else {
        ascii_bytes("NVRC fatal signal: UNKNOWN\n")
    }
}

/// Saying which signal came.
pub open spec fn fatal_log_ops(signum: i32) -> Seq<Op<Seq<u8>>> {
    let msg = ascii(fatal_text(signum));
    seq![write_op(2, msg), Op::Sinks { set: SinkSet::Log, msg }]
}

/// What the handler of a fatal signal does.
pub open spec fn fatal_ops(signum: i32) -> Seq<Op<Seq<u8>>> {
    fatal_log_ops(signum).push(Op::Do(Effect::Exit { code: (128 + signum) as i32 }))
}

/// Says on standard error and on the optional sinks which signal came.
pub fn fatal_signal_log(signum: i32) -> (script: Script<'static>)
    ensures
        script@ == fatal_log_ops(signum),
        ({
            let name = if signum == 11 {
                "SIGSEGV"@
            } else if signum == 4 {
                "SIGILL"@
            } else if signum == 7 {
                "SIGBUS"@
            } else if signum == 8 {
                "SIGFPE"@
            } else if signum == 6 {
                "SIGABRT"@
            } else {
                "UNKNOWN"@
            };
            let msg = ascii("NVRC fatal signal: "@ + name + "\n"@);
            script@ == seq![
                Op::Do(Effect::Write { fd: 2, bytes: msg }),
                Op::Sinks { set: SinkSet::Log, msg },
            ]
        }),
{
    let msg: &'static [u8] = fatal_message(signum);
    let mut script = Script::new();
    script.push(Op::Do(Effect::Write { fd: stderr_fileno() as i64, bytes: msg }));
    script.push(Op::Sinks { set: SinkSet::Log, msg });
    assert(script@ =~= fatal_log_ops(signum));
    script
}

/// The handler of a fatal signal: it says which signal came on standard error
/// and on the optional sinks, and ends the process with the exit code that
/// stands for the signal.
pub fn fatal_signal_handler(signum: i32) -> (script: Script<'static>)
    requires
        128 + signum <= i32::MAX,
    ensures
        script@ == fatal_ops(signum),
        ({
            let name = if signum == 11 {
                "SIGSEGV"@
            } else if signum == 4 {
                "SIGILL"@
            } else if signum == 7 {
                "SIGBUS"@
            } else if signum == 8 {
                "SIGFPE"@
            } else if signum == 6 {
                "SIGABRT"@
            } else {
                "UNKNOWN"@
            };
            let msg = ascii("NVRC fatal signal: "@ + name + "\n"@);
            script@ == seq![
                Op::Do(Effect::Write { fd: 2, bytes: msg }),
                Op::Sinks { set: SinkSet::Log, msg },
                Op::Do(Effect::Exit { code: (128 + signum) as i32 }),
            ]
        }),
{
    let mut script = fatal_signal_log(signum);
    script.push(Op::Do(Effect::Exit { code: 128 + signum }));
    script
}

/// The operation that installs the handler for a signal.
pub open spec fn install_op(signal: FatalSignal) -> Op<Seq<u8>> {
    Op::Do(
        Effect::Sigaction {
            signum: signal_number(signal),
            sa_flags: HANDLER_FLAGS,
            sa_mask: HANDLER_MASK,
        },
    )
}

/// The early initialisation: a marker in the log, and the handlers.
pub open spec fn early_init_ops() -> Seq<Op<Seq<u8>>> {
    log_ops(ascii("NVRC early init: installing signal handlers\n"@)) + fatal_signals().map_values(
        |signal: FatalSignal| install_op(signal),
    )
}

proof fn lemma_early_init_by_number()
    ensures
        ({
            let msg = ascii("NVRC early init: installing signal handlers\n"@);
            early_init_ops() == seq![
                Op::Do(Effect::Write { fd: 1, bytes: msg }),
                Op::Do(Effect::Write { fd: 2, bytes: msg }),
                Op::Sinks { set: SinkSet::Log, msg },
                Op::Do(Effect::Sigaction { signum: 11, sa_flags: -0x4000_0000 as i32, sa_mask: 0 }),
                Op::Do(Effect::Sigaction { signum: 4, sa_flags: -0x4000_0000 as i32, sa_mask: 0 }),
                Op::Do(Effect::Sigaction { signum: 7, sa_flags: -0x4000_0000 as i32, sa_mask: 0 }),
                Op::Do(Effect::Sigaction { signum: 8, sa_flags: -0x4000_0000 as i32, sa_mask: 0 }),
                Op::Do(Effect::Sigaction { signum: 6, sa_flags: -0x4000_0000 as i32, sa_mask: 0 }),
            ]
        }),
{
}

/// Appends the early initialisation.
fn push_early_init(script: &mut Script<'static>)
    requires
        old(script)@.len() + 8 <= crate::script::SCRIPT_CAPACITY,
    ensures
        final(script)@ == old(script)@ + early_init_ops(),
{
    proof {
        reveal_strlit("NVRC early init: installing signal handlers\n");
    }
    push_log(script, ascii_bytes("NVRC early init: installing signal handlers\n"));
    let ghost logged = script@;
    let ghost installs = fatal_signals().map_values(|signal: FatalSignal| install_op(signal));
    let mut i: usize = 0;
    while i < FATAL_SIGNAL_COUNT
        invariant
            i <= FATAL_SIGNAL_COUNT,
            installs == fatal_signals().map_values(|signal: FatalSignal| install_op(signal)),
            logged.len() + 5 <= crate::script::SCRIPT_CAPACITY,
            script@ == logged + installs.take(i as int),
        decreases FATAL_SIGNAL_COUNT - i,
    {
        script.push(
            Op::Do(
                Effect::Sigaction {
                    signum: fatal_signal(i).number(),
                    sa_flags: handler_flags(),
                    sa_mask: handler_mask(),
                },
            ),
        );
        i += 1;
        assert(script@ =~= logged + installs.take(i as int));
    }
    assert(script@ =~= old(script)@ + early_init_ops());
}

/// Runs before `main`, to catch crashes while the runtime starts: leaves a
/// marker in the log and installs the handlers, whether or not that works.
pub fn early_init() -> (script: Script<'static>)
    ensures
        script@ == early_init_ops(),
        ({
            let msg = ascii("NVRC early init: installing signal handlers\n"@);
            script@ == seq![
                Op::Do(Effect::Write { fd: 1, bytes: msg }),
                Op::Do(Effect::Write { fd: 2, bytes: msg }),
                Op::Sinks { set: SinkSet::Log, msg },
                Op::Do(Effect::Sigaction { signum: 11, sa_flags: -0x4000_0000 as i32, sa_mask: 0 }),
                Op::Do(Effect::Sigaction { signum: 4, sa_flags: -0x4000_0000 as i32, sa_mask: 0 }),
                Op::Do(Effect::Sigaction { signum: 7, sa_flags: -0x4000_0000 as i32, sa_mask: 0 }),
                Op::Do(Effect::Sigaction { signum: 8, sa_flags: -0x4000_0000 as i32, sa_mask: 0 }),
                Op::Do(Effect::Sigaction { signum: 6, sa_flags: -0x4000_0000 as i32, sa_mask: 0 }),
            ]
        }),
{
    proof {
        lemma_early_init_by_number();
    }
    let mut script = Script::new();
    push_early_init(&mut script);
    assert(script@ =~= early_init_ops());
    script
}

/// Appends the early initialisation for a start routine that makes it itself.
pub fn run_early_init_for_wrapper(script: &mut Script<'static>)
    requires
        old(script)@.len() + 8 <= crate::script::SCRIPT_CAPACITY,
    ensures
        final(script)@ == old(script)@ + early_init_ops(),
        ({
            let msg = ascii("NVRC early init: installing signal handlers\n"@);
            final(script)@ == old(script)@ + seq![
                Op::Do(Effect::Write { fd: 1, bytes: msg }),
                Op::Do(Effect::Write { fd: 2, bytes: msg }),
                Op::Sinks { set: SinkSet::Log, msg },
                Op::Do(Effect::Sigaction { signum: 11, sa_flags: -0x4000_0000 as i32, sa_mask: 0 }),
                Op::Do(Effect::Sigaction { signum: 4, sa_flags: -0x4000_0000 as i32, sa_mask: 0 }),
                Op::Do(Effect::Sigaction { signum: 7, sa_flags: -0x4000_0000 as i32, sa_mask: 0 }),
                Op::Do(Effect::Sigaction { signum: 8, sa_flags: -0x4000_0000 as i32, sa_mask: 0 }),
                Op::Do(Effect::Sigaction { signum: 6, sa_flags: -0x4000_0000 as i32, sa_mask: 0 }),
            ]
        }),
{
    proof {
        lemma_early_init_by_number();
    }
    push_early_init(script);
}

/// One handler to install.
#[derive(Clone, Copy, Debug, PartialEq, Eq)]
pub struct Disposition {
    pub signal: FatalSignal,
    pub sa_flags: i32,
    pub sa_mask: u64,
}

/// The handler for a signal, with the flags and the mask that all have.
pub open spec fn disposition(signal: FatalSignal) -> Disposition {
    Disposition { signal, sa_flags: HANDLER_FLAGS, sa_mask: HANDLER_MASK }
}

/// The handler that comes after the first `installed` ones.
pub open spec fn pending_handler(installed: nat) -> Option<Disposition> {
    if installed < FATAL_SIGNAL_COUNT {
        Some(disposition(fatal_signals()[installed as int]))
    } else {
        None
    }
}

/// What is said when the handler for a signal cannot be installed.
pub open spec fn install_failure(signal: FatalSignal, err: Seq<char>) -> Seq<char> {
    "install signal handler "@ + signal_name(signal) + ": "@ + err
}

/// The text of an error, where there is one.
pub open spec fn error_text(outcome: Result<(), String>) -> Option<Seq<char>> {
    match outcome {
        Ok(_) => None,
        Err(err) => Some(err@),
    }
}

/// How many handlers are installed after an attempt, and what to panic with.
/// `error` is the text of the error that the attempt ended in, if it did.
pub open spec fn after_attempt(installed: nat, error: Option<Seq<char>>) -> (
    nat,
    Option<Seq<char>>,
) {
    if installed >= FATAL_SIGNAL_COUNT {
        (installed, None)
    } else {
        match error {
            None => (installed + 1, None),
            Some(err) => (
                installed,
                Some(install_failure(fatal_signals()[installed as int], err)),
            ),
        }
    }
}

/// The signal handlers while they are being installed, one by one.
pub struct HandlerSetup {
    installed: usize,
}

impl View for HandlerSetup {
    type V = nat;

    /// How many handlers were installed.
    closed spec fn view(&self) -> nat {
        self.installed as nat
    }
}

/// Begins to install the signal handlers. Unlike [`early_init`] this does not
/// pass over a failure: the first one is to end in a panic.
pub fn set_signal_handlers() -> (setup: HandlerSetup)
    ensures
        setup@ == 0,
        pending_handler(setup@) is Some,
{
    HandlerSetup { installed: 0 }
}

impl HandlerSetup {
    #[verifier::type_invariant]
    spec fn within_count(self) -> bool {
        self.installed <= FATAL_SIGNAL_COUNT
    }

    /// The handler to install next, or none once all are installed.
    pub fn pending(&self) -> (next: Option<Disposition>)
        ensures
            next == pending_handler(self@),
            self@ >= 5 ==> next is None,
            self@ < 5 ==> next == Some(
                Disposition {
                    signal: if self@ == 0 {
                        FatalSignal::Segv
                    } else if self@ == 1 {
                        FatalSignal::Ill
                    } else if self@ == 2 {
                        FatalSignal::Bus
                    } else if self@ == 3 {
                        FatalSignal::Fpe
                    } else {
                        FatalSignal::Abrt
                    },
                    sa_flags: -0x4000_0000 as i32,
                    sa_mask: 0,
                },
            ),
    {
        if self.installed < FATAL_SIGNAL_COUNT {
            Some(
                Disposition {
                    signal: fatal_signal(self.installed),
                    sa_flags: handler_flags(),
                    sa_mask: handler_mask(),
                },
            )
        } else {
            None
        }
    }

    /// Takes the outcome for the pending handler. An error is one to panic
    /// with, in its words.
    pub fn report(&mut self, outcome: Result<(), String>) -> (go_on: Result<(), String>)
        ensures
            final(self)@ == after_attempt(old(self)@, error_text(outcome)).0,
            error_text(go_on) == after_attempt(old(self)@, error_text(outcome)).1,
            final(self)@ == if old(self)@ < 5 && outcome is Ok {
                old(self)@ + 1
            } else {
                old(self)@
            },
            go_on is Err <==> old(self)@ < 5 && outcome is Err,
            go_on is Err ==> go_on->Err_0@ == "install signal handler "@ + (if old(self)@ == 0 {
                "SIGSEGV"@
            } else if old(self)@ == 1 {
                "SIGILL"@
            } else if old(self)@ == 2 {
                "SIGBUS"@
            } else if old(self)@ == 3 {
                "SIGFPE"@
            } else {
                "SIGABRT"@
            }) + ": "@ + outcome->Err_0@,
    {
        proof {
            use_type_invariant(&*self);
        }
        if self.installed >= FATAL_SIGNAL_COUNT {
            return Ok(());
        }
        match outcome {
            Ok(_) => {
                *self = HandlerSetup { installed: self.installed + 1 };
                Ok(())
            },
            Err(err) => {
                let mut text = "install signal handler ".to_owned();
                text.append(fatal_signal(self.installed).name());
                text.append(": ");
                text.append(err.as_str());
                Err(text)
            },
        }
    }
}

/// The handlers that are attempted from a state on, and the panic that ends
/// it, if any. `errors` says what the attempt of each number ends in.
pub open spec fn setup_run(installed: nat, errors: spec_fn(int) -> Option<Seq<char>>) -> (
    Seq<Disposition>,
    Option<Seq<char>>,
)
    decreases FATAL_SIGNAL_COUNT - installed,
{
    match pending_handler(installed) {
        None => (Seq::empty(), None),
        Some(handler) => {
            let (after, panic) = after_attempt(installed, errors(installed as int));
            if panic is Some {
                (seq![handler], panic)
            } else {
                let (later, outcome) = setup_run(after, errors);
                (seq![handler] + later, outcome)
            }
        },
    }
}

/// Where no attempt fails, every fatal signal gets its handler, in order.
pub proof fn law_all_handlers_are_installed(errors: spec_fn(int) -> Option<Seq<char>>)
    requires
        forall|i: int| 0 <= i < FATAL_SIGNAL_COUNT ==> #[trigger] errors(i) is None,
    ensures
        setup_run(0, errors).0 == fatal_signals().map_values(
            |signal: FatalSignal| disposition(signal),
        ),
        setup_run(0, errors).1 is None,
{
    reveal_with_fuel(setup_run, 6);
    assert(errors(0) is None && errors(1) is None && errors(2) is None && errors(3) is None
        && errors(4) is None);
    assert(setup_run(0, errors).0 =~= fatal_signals().map_values(
        |signal: FatalSignal| disposition(signal),
    ));
}

/// The first failure ends the set-up in a panic that names its signal, and
/// no later signal is attempted.
pub proof fn law_first_failure_panics(errors: spec_fn(int) -> Option<Seq<char>>, k: int)
    requires
        0 <= k < FATAL_SIGNAL_COUNT,
        forall|i: int| 0 <= i < k ==> #[trigger] errors(i) is None,
        errors(k) is Some,
    ensures
        setup_run(0, errors).0 == fatal_signals().take(k + 1).map_values(
            |signal: FatalSignal| disposition(signal),
        ),
        setup_run(0, errors).1 == Some(install_failure(fatal_signals()[k], errors(k)->0)),
{
    reveal_with_fuel(setup_run, 6);
    assert(0 < k ==> errors(0) is None);
    assert(1 < k ==> errors(1) is None);
    assert(2 < k ==> errors(2) is None);
    assert(3 < k ==> errors(3) is None);
    assert(setup_run(0, errors).0 =~= fatal_signals().take(k + 1).map_values(
        |signal: FatalSignal| disposition(signal),
    ));
}

/// The early initialisation and the later set-up install the same handlers in
/// the same order: the operation `3 + i` of the one is the handler `i` of the
/// other.
pub proof fn law_both_setups_install_the_same(i: int)
    requires
        0 <= i < FATAL_SIGNAL_COUNT,
    ensures
        early_init_ops().len() == 3 + FATAL_SIGNAL_COUNT,
        pending_handler(i as nat) is Some,
        early_init_ops()[3 + i] == (Op::<Seq<u8>>::Do(
            Effect::Sigaction {
                signum: signal_number(pending_handler(i as nat)->0.signal),
                sa_flags: pending_handler(i as nat)->0.sa_flags,
                sa_mask: pending_handler(i as nat)->0.sa_mask,
            },
        )),
{
}

/// The message for a fatal signal holds the signal's name.
pub proof fn law_fatal_text_names_the_signal(signal: FatalSignal)
    ensures
        fatal_text(signal_number(signal)) == "NVRC fatal signal: "@ + signal_name(signal) + "\n"@,
{
    reveal_strlit("NVRC fatal signal: ");
    reveal_strlit("\n");
    reveal_strlit("SIGSEGV");
    reveal_strlit("SIGILL");
    reveal_strlit("SIGBUS");
    reveal_strlit("SIGFPE");
    reveal_strlit("SIGABRT");
    reveal_strlit("NVRC fatal signal: SIGSEGV\n");
    reveal_strlit("NVRC fatal signal: SIGILL\n");
    reveal_strlit("NVRC fatal signal: SIGBUS\n");
    reveal_strlit("NVRC fatal signal: SIGFPE\n");
    reveal_strlit("NVRC fatal signal: SIGABRT\n");
    assert(fatal_text(signal_number(signal)) =~= "NVRC fatal signal: "@ + signal_name(signal)
        + "\n"@);
}

/// The message for a signal holds the name of the signal that came, by its
/// number on Linux for x86-64, or says that it is not known.
pub proof fn law_fatal_text_names_what_came(signum: i32)
    ensures
        fatal_text(signum) == "NVRC fatal signal: "@ + (if signum == 11 {
                "SIGSEGV"@
            } else if signum == 4 {
                "SIGILL"@
            } else if signum == 7 {
                "SIGBUS"@
            } else if signum == 8 {
                "SIGFPE"@
            } else if signum == 6 {
                "SIGABRT"@
            } else {
                "UNKNOWN"@
            }) + "\n"@,
{
    law_fatal_text_names_the_signal(FatalSignal::Segv);
    law_fatal_text_names_the_signal(FatalSignal::Ill);
    law_fatal_text_names_the_signal(FatalSignal::Bus);
    law_fatal_text_names_the_signal(FatalSignal::Fpe);
    law_fatal_text_names_the_signal(FatalSignal::Abrt);
    reveal_strlit("NVRC fatal signal: ");
    reveal_strlit("UNKNOWN");
    reveal_strlit("\n");
    reveal_strlit("NVRC fatal signal: UNKNOWN\n");
    assert("NVRC fatal signal: UNKNOWN\n"@ =~= "NVRC fatal signal: "@ + "UNKNOWN"@ + "\n"@);
}

proof fn lemma_fatal_log(ops: Seq<Op<Seq<u8>>>, msg: Seq<u8>, answers: Answers)
    requires
        2 <= ops.len() <= 3,
        ops[0] == (Op::Do(Effect::Write { fd: 2, bytes: msg })),
        ops[1] == (Op::Sinks { set: SinkSet::Log, msg }),
        ops.len() == 3 ==> ops[2] is Do && ops[2]->Do_0 is Exit,
    ensures
        script_trace(ops, answers).len() >= 1,
        script_trace(ops, answers)[0] == (Effect::Write { fd: 2, bytes: msg }),
        all_writes_say(script_trace(ops, answers), msg),
        reaches_log_sinks(script_trace(ops, answers), msg, 1, answers),
{
    law_outer_effects_are_fixed(ops, 1, 0, answers);
    lemma_all_writes_say(ops, 0, msg, answers);
    law_log_sinks_are_reached(ops, 1, msg, answers);
}

/// Whatever signal comes and whatever becomes of the sinks, all that is written
/// is one line that names the signal: first on standard error, then on each of
/// the sinks of the log that opens, and each of the eight is tried. Nothing
/// else is said, neither by the log alone nor by the whole handler.
pub proof fn law_every_output_names_the_signal(signum: i32, answers: Answers)
    ensures
        ({
            let name = if signum == 11 {
                "SIGSEGV"@
            } else if signum == 4 {
                "SIGILL"@
            } else if signum == 7 {
                "SIGBUS"@
            } else if signum == 8 {
                "SIGFPE"@
            } else if signum == 6 {
                "SIGABRT"@
            } else {
                "UNKNOWN"@
            };
            let line = ascii("NVRC fatal signal: "@ + name + "\n"@);
            let log = script_trace(fatal_log_ops(signum), answers);
            let whole = script_trace(fatal_ops(signum), answers);
            &&& log.len() >= 1 && log[0] == (Effect::Write { fd: 2, bytes: line })
            &&& all_writes_say(log, line)
            &&& reaches_log_sinks(log, line, 1, answers)
            &&& only_logs(log)
            &&& whole.len() >= 1 && whole[0] == (Effect::Write { fd: 2, bytes: line })
            &&& all_writes_say(whole, line)
            &&& reaches_log_sinks(whole, line, 1, answers)
        }),
{
    let msg = ascii(fatal_text(signum));
    law_fatal_text_names_what_came(signum);
    assert(fatal_log_ops(signum)[0] == write_op(2, msg));
    assert(fatal_ops(signum)[0] == write_op(2, msg));
    assert(fatal_ops(signum)[1] == (Op::Sinks { set: SinkSet::Log, msg }));
    lemma_fatal_log(fatal_log_ops(signum), msg, answers);
    lemma_fatal_log(fatal_ops(signum), msg, answers);
    lemma_only_logs(fatal_log_ops(signum), 0, answers);
}

/// The whole handler is the log and then the exit: it does all that the log
/// does, and nothing more but to end the process with 128 more than the signal.
pub proof fn law_handler_logs_and_exits(signum: i32, answers: Answers)
    requires
        128 + signum <= i32::MAX,
    ensures
        script_trace(fatal_ops(signum), answers) == script_trace(
            fatal_log_ops(signum),
            answers,
        ).push(Effect::Exit { code: (128 + signum) as i32 }),
{
    let msg = ascii(fatal_text(signum));
    let log = fatal_log_ops(signum);
    let whole = fatal_ops(signum);
    let exit = Effect::<Seq<u8>>::Exit { code: (128 + signum) as i32 };
    assert(log.len() == 2 && whole.len() == 3);
    assert(whole[0] == log[0] && whole[1] == log[1]);
    assert(whole[2] == Op::Do(exit));
    assert(ops_trace(log, 2, answers) =~= Seq::empty());
    assert(ops_trace(whole, 3, answers) =~= Seq::empty());
    assert(ops_trace(whole, 2, answers) =~= seq![exit]);
    assert(ops_trace(whole, 1, answers) =~= ops_trace(log, 1, answers).push(exit));
    assert(ops_trace(whole, 0, answers) =~= ops_trace(log, 0, answers).push(exit));
}

/// The handler speaks on standard error before anything else, and whatever
/// becomes of the sinks it ends by exiting with 128 more than the signal.
pub proof fn law_fatal_handler_exits_with_the_signal(signum: i32, answers: Answers)
    requires
        128 + signum <= i32::MAX,
    ensures
        script_trace(fatal_ops(signum), answers).len() >= 2,
        script_trace(fatal_ops(signum), answers)[0] == (Effect::Write {
            fd: 2,
            bytes: ascii(fatal_text(signum)),
        }),
        script_trace(fatal_ops(signum), answers).last() == (Effect::<Seq<u8>>::Exit {
            code: (128 + signum) as i32,
        }),
{
    law_outer_effects_are_fixed(fatal_ops(signum), 1, 1, answers);
    assert(fatal_ops(signum)[0] is Do && fatal_ops(signum)[2] is Do);
}

/// Whatever becomes of the log, the early initialisation ends by installing
/// the handlers of all fatal signals in order.
pub proof fn law_early_init_installs_every_handler(i: int, answers: Answers)
    requires
        0 <= i < FATAL_SIGNAL_COUNT,
    ensures
        script_trace(early_init_ops(), answers).len() >= FATAL_SIGNAL_COUNT,
        script_trace(early_init_ops(), answers)[script_trace(early_init_ops(), answers).len()
            - FATAL_SIGNAL_COUNT + i] == (Effect::<Seq<u8>>::Sigaction {
            signum: signal_number(fatal_signals()[i]),
            sa_flags: HANDLER_FLAGS,
            sa_mask: HANDLER_MASK,
        }),
{
    law_outer_effects_are_fixed(early_init_ops(), 2, 5, answers);
    assert(early_init_ops()[3 + i] == install_op(fatal_signals()[i]));
}

/// What a signal runs.
pub enum HandlerRoutine {
    /// The handler of this module.
    FatalSignalHandler,
    /// Any other, told apart by its address.
    Other(u64),
}

/// How the process handles a signal.
pub struct Handling {
    pub routine: HandlerRoutine,
    pub sa_flags: i32,
    pub sa_mask: u64,
}

/// How the process handles its signals, by number.
pub type SignalTable = Map<i32, Handling>;

/// The handling that every fatal signal gets: the handler of this module, reset
/// when it is called, not held back, and with an empty mask.
pub open spec fn fatal_handling() -> Handling {
    Handling {
        routine: HandlerRoutine::FatalSignalHandler,
        sa_flags: HANDLER_FLAGS,
        sa_mask: HANDLER_MASK,
    }
}

/// For each signal number, whether an install of its handler succeeds.
pub type Outcomes = spec_fn(i32) -> bool;

/// The handling of signals after some effects. An install that does not succeed
/// leaves the handling of its signal as it was.
pub open spec fn table_after_effects(
    table: SignalTable,
    trace: Seq<Effect<Seq<u8>>>,
    succeeds: Outcomes,
) -> SignalTable
    decreases trace.len(),
{
    if trace.len() == 0 {
        table
    } else {
        let before = table_after_effects(table, trace.drop_last(), succeeds);
        match trace.last() {
            Effect::Sigaction { signum, sa_flags, sa_mask } => if succeeds(signum) {
                before.insert(
                    signum,
                    Handling { routine: HandlerRoutine::FatalSignalHandler, sa_flags, sa_mask },
                )
            } else {
                before
            },
            _ => before,
        }
    }
}

/// The handling of signals after some handlers were installed.
pub open spec fn table_after_handlers(table: SignalTable, handlers: Seq<Disposition>) -> SignalTable
    decreases handlers.len(),
{
    if handlers.len() == 0 {
        table
    } else {
        table_after_handlers(table, handlers.drop_last()).insert(
            signal_number(handlers.last().signal),
            Handling {
                routine: HandlerRoutine::FatalSignalHandler,
                sa_flags: handlers.last().sa_flags,
                sa_mask: handlers.last().sa_mask,
            },
        )
    }
}

/// The handlers that a set-up installs: all that it attempts, but for the last
/// one where that fails.
pub open spec fn installed_handlers(errors: spec_fn(int) -> Option<Seq<char>>) -> Seq<Disposition> {
    let (attempted, panic) = setup_run(0, errors);
    if panic is Some {
        attempted.drop_last()
    } else {
        attempted
    }
}

/// The handling of signals after a set-up.
pub open spec fn table_after_setup(
    table: SignalTable,
    errors: spec_fn(int) -> Option<Seq<char>>,
) -> SignalTable {
    table_after_handlers(table, installed_handlers(errors))
}

/// Whether a number is that of one of these signals.
pub open spec fn is_number_of(signals: Seq<FatalSignal>, signum: i32) -> bool {
    exists|i: int| 0 <= i < signals.len() && signal_number(#[trigger] signals[i]) == signum
}

/// Whether a number is that of a fatal signal.
pub open spec fn is_fatal(signum: i32) -> bool {
    is_number_of(fatal_signals(), signum)
}

/// Whether `after` is `table` with `fatal_handling()` for the signals that
/// `changed` names, and every other signal handled as before.
pub open spec fn only_these_changed(
    table: SignalTable,
    after: SignalTable,
    changed: spec_fn(i32) -> bool,
) -> bool {
    forall|signum: i32|
        if changed(signum) {
            #[trigger] after.dom().contains(signum) && after[signum] == fatal_handling()
        } else {
            &&& after.dom().contains(signum) == table.dom().contains(signum)
            &&& table.dom().contains(signum) ==> after[signum] == table[signum]
        }
}

proof fn lemma_table_after_concat(
    table: SignalTable,
    first: Seq<Effect<Seq<u8>>>,
    second: Seq<Effect<Seq<u8>>>,
    succeeds: Outcomes,
)
    ensures
        table_after_effects(table, first + second, succeeds) == table_after_effects(
            table_after_effects(table, first, succeeds),
            second,
            succeeds,
        ),
    decreases second.len(),
{
    if second.len() == 0 {
        assert(first + second =~= first);
    } else {
        lemma_table_after_concat(table, first, second.drop_last(), succeeds);
        assert((first + second).drop_last() =~= first + second.drop_last());
    }
}

proof fn lemma_table_unchanged(
    table: SignalTable,
    trace: Seq<Effect<Seq<u8>>>,
    succeeds: Outcomes,
)
    requires
        forall|k: int| 0 <= k < trace.len() ==> !(#[trigger] trace[k] is Sigaction),
    ensures
        table_after_effects(table, trace, succeeds) == table,
    decreases trace.len(),
{
    if trace.len() > 0 {
        assert(!(trace[trace.len() - 1] is Sigaction));
        lemma_table_unchanged(table, trace.drop_last(), succeeds);
    }
}

/// The effects of the sinks install nothing.
proof fn lemma_sinks_install_nothing(
    table: SignalTable,
    msg: Seq<u8>,
    pc: int,
    i: int,
    answers: Answers,
    succeeds: Outcomes,
)
    ensures
        table_after_effects(
            table,
            sinks_trace(SinkSet::Log, msg, pc, i, answers),
            succeeds,
        ) == table,
    decreases sink_total(SinkSet::Log) - i,
{
    if i < sink_total(SinkSet::Log) {
        let head = one_sink(SinkSet::Log, msg, i, descriptor(answers, pc, i));
        lemma_table_unchanged(table, head, succeeds);
        lemma_table_after_concat(
            table,
            head,
            sinks_trace(SinkSet::Log, msg, pc, i + 1, answers),
            succeeds,
        );
        lemma_sinks_install_nothing(table, msg, pc, i + 1, answers, succeeds);
    }
}

/// The effects that install the handlers of all fatal signals.
spec fn installs() -> Seq<Effect<Seq<u8>>> {
    fatal_signals().map_values(|signal: FatalSignal| install_op(signal)->Do_0)
}

proof fn lemma_early_init_trace(answers: Answers)
    ensures
        ({
            let msg = ascii("NVRC early init: installing signal handlers\n"@);
            script_trace(early_init_ops(), answers) == seq![
                Effect::Write { fd: 1, bytes: msg },
                Effect::Write { fd: 2, bytes: msg },
            ] + sinks_trace(SinkSet::Log, msg, 2, 0, answers) + installs()
        }),
{
    let msg = ascii("NVRC early init: installing signal handlers\n"@);
    let ops = early_init_ops();
    assert(ops.len() == 8);
    assert(ops[0] == write_op(1, msg) && ops[1] == write_op(2, msg));
    assert(ops[2] == (Op::Sinks { set: SinkSet::Log, msg }));
    assert(ops_trace(ops, 8, answers) =~= Seq::empty());
    assert(ops[7] == install_op(fatal_signals()[4]));
    assert(ops_trace(ops, 7, answers) =~= installs().skip(4));
    assert(ops[6] == install_op(fatal_signals()[3]));
    assert(ops_trace(ops, 6, answers) =~= installs().skip(3));
    assert(ops[5] == install_op(fatal_signals()[2]));
    assert(ops_trace(ops, 5, answers) =~= installs().skip(2));
    assert(ops[4] == install_op(fatal_signals()[1]));
    assert(ops_trace(ops, 4, answers) =~= installs().skip(1));
    assert(ops[3] == install_op(fatal_signals()[0]));
    assert(ops_trace(ops, 3, answers) =~= installs());
    assert(ops_trace(ops, 2, answers) =~= sinks_trace(SinkSet::Log, msg, 2, 0, answers)
        + installs());
    assert(ops_trace(ops, 1, answers) =~= seq![Effect::Write { fd: 2, bytes: msg }] + sinks_trace(
        SinkSet::Log,
        msg,
        2,
        0,
        answers,
    ) + installs());
}

/// One install.
spec fn install_if(table: SignalTable, signum: i32, ok: bool) -> SignalTable {
    if ok {
        table.insert(signum, fatal_handling())
    } else {
        table
    }
}

/// The five installs, spelled out.
spec fn installed_table(table: SignalTable, succeeds: Outcomes) -> SignalTable {
    let segv = install_if(table, 11, succeeds(11));
    let ill = install_if(segv, 4, succeeds(4));
    let bus = install_if(ill, 7, succeeds(7));
    let fpe = install_if(bus, 8, succeeds(8));
    install_if(fpe, 6, succeeds(6))
}

proof fn lemma_early_init_table(table: SignalTable, answers: Answers, succeeds: Outcomes)
    ensures
        table_after_effects(table, script_trace(early_init_ops(), answers), succeeds)
            == installed_table(table, succeeds),
{
    let msg = ascii("NVRC early init: installing signal handlers\n"@);
    let writes = seq![Effect::Write { fd: 1, bytes: msg }, Effect::Write { fd: 2, bytes: msg }];
    let sinks = sinks_trace(SinkSet::Log, msg, 2, 0, answers);
    lemma_early_init_trace(answers);
    lemma_table_after_concat(table, writes + sinks, installs(), succeeds);
    lemma_table_after_concat(table, writes, sinks, succeeds);
    lemma_table_unchanged(table, writes, succeeds);
    lemma_sinks_install_nothing(table, msg, 2, 0, answers, succeeds);
    reveal_with_fuel(table_after_effects, 6);
}

proof fn lemma_fatal_numbers(signum: i32)
    ensures
        is_fatal(signum) <==> signum == 11 || signum == 4 || signum == 7 || signum == 8 || signum
            == 6,
{
    assert(signal_number(fatal_signals()[0]) == 11);
    assert(signal_number(fatal_signals()[1]) == 4);
    assert(signal_number(fatal_signals()[2]) == 7);
    assert(signal_number(fatal_signals()[3]) == 8);
    assert(signal_number(fatal_signals()[4]) == 6);
}

/// The early initialisation gives each fatal signal whose install succeeds the
/// handler of this module, its flags and an empty mask. Every other signal
/// keeps its handling, whichever installs fail and whatever becomes of the log.
pub proof fn law_early_init_changes_what_it_installs(
    table: SignalTable,
    answers: Answers,
    succeeds: Outcomes,
)
    ensures
        only_these_changed(
            table,
            table_after_effects(table, script_trace(early_init_ops(), answers), succeeds),
            |signum: i32| is_fatal(signum) && succeeds(signum),
        ),
{
    lemma_early_init_table(table, answers, succeeds);
    assert forall|signum: i32| #[trigger] is_fatal(signum) <==> signum == 11 || signum == 4
        || signum == 7 || signum == 8 || signum == 6 by {
        lemma_fatal_numbers(signum);
    }
}

/// Whether `after` is `table` with the handler of this module, reset when it is
/// called and not held back, with an empty mask, for each of the signals 11, 4,
/// 7, 8 and 6 whose install succeeds, and every other signal handled as before.
pub open spec fn has_fatal_handlers(
    table: SignalTable,
    after: SignalTable,
    succeeds: Outcomes,
) -> bool {
    forall|signum: i32|
        if (signum == 11 || signum == 4 || signum == 7 || signum == 8 || signum == 6) && succeeds(
            signum,
        ) {
            #[trigger] after.dom().contains(signum) && after[signum] == (Handling {
                routine: HandlerRoutine::FatalSignalHandler,
                sa_flags: -0x4000_0000 as i32,
                sa_mask: 0,
            })
        } else {
            &&& after.dom().contains(signum) == table.dom().contains(signum)
            &&& table.dom().contains(signum) ==> after[signum] == table[signum]
        }
}

/// Operations that install nothing leave the handling of signals as it is.
proof fn lemma_table_passes(
    table: SignalTable,
    ops: Seq<Op<Seq<u8>>>,
    pc: int,
    end: int,
    answers: Answers,
    succeeds: Outcomes,
)
    requires
        0 <= pc <= end <= ops.len(),
        forall|k: int|
            pc <= k < end ==> (#[trigger] ops[k] is Sinks || (ops[k] is Do && !(
            ops[k]->Do_0 is Sigaction))),
    ensures
        table_after_effects(table, ops_trace(ops, pc, answers), succeeds) == table_after_effects(
            table,
            ops_trace(ops, end, answers),
            succeeds,
        ),
    decreases end - pc,
{
    if pc < end {
        let head = op_trace(ops[pc], pc, answers);
        let rest = ops_trace(ops, pc + 1, answers);
        assert(ops[pc] is Sinks || (ops[pc] is Do && !(ops[pc]->Do_0 is Sigaction)));
        lemma_table_after_concat(table, head, rest, succeeds);
        match ops[pc] {
            Op::Sinks { set, msg } => {
                lemma_sinks_say(set, msg, pc, 0, answers);
            },
            _ => {},
        }
        assert forall|k: int| 0 <= k < head.len() implies !(#[trigger] head[k] is Sigaction) by {
        }
        lemma_table_unchanged(table, head, succeeds);
        lemma_table_passes(table, ops, pc + 1, end, answers, succeeds);
    }
}

/// What a script that ends in the five installs and one more effect leaves.
pub(crate) proof fn lemma_table_with_installs(
    table: SignalTable,
    ops: Seq<Op<Seq<u8>>>,
    answers: Answers,
    succeeds: Outcomes,
)
    requires
        ops.len() >= 6,
        forall|k: int|
            0 <= k < ops.len() - 6 ==> (#[trigger] ops[k] is Sinks || (ops[k] is Do && !(
            ops[k]->Do_0 is Sigaction))),
        forall|i: int|
            0 <= i < 5 ==> #[trigger] ops[ops.len() - 6 + i] == install_op(fatal_signals()[i]),
        ops[ops.len() - 1] is Do && !(ops[ops.len() - 1]->Do_0 is Sigaction),
    ensures
        ops_trace(ops, ops.len() - 6, answers) == seq![
            Effect::Sigaction { signum: 11, sa_flags: -0x4000_0000 as i32, sa_mask: 0 },
            Effect::Sigaction { signum: 4, sa_flags: -0x4000_0000 as i32, sa_mask: 0 },
            Effect::Sigaction { signum: 7, sa_flags: -0x4000_0000 as i32, sa_mask: 0 },
            Effect::Sigaction { signum: 8, sa_flags: -0x4000_0000 as i32, sa_mask: 0 },
            Effect::Sigaction { signum: 6, sa_flags: -0x4000_0000 as i32, sa_mask: 0 },
            ops[ops.len() - 1]->Do_0,
        ],
        has_fatal_handlers(
            table,
            table_after_effects(table, script_trace(ops, answers), succeeds),
            succeeds,
        ),
{
    let n = ops.len() - 6;
    let last = ops[n + 5]->Do_0;
    let tail = installs().push(last);
    assert(ops[n] == install_op(fatal_signals()[0])) by {
        assert(ops[ops.len() - 6 + 0] == install_op(fatal_signals()[0]));
    }
    assert(ops[n + 1] == install_op(fatal_signals()[1]));
    assert(ops[n + 2] == install_op(fatal_signals()[2]));
    assert(ops[n + 3] == install_op(fatal_signals()[3]));
    assert(ops[n + 4] == install_op(fatal_signals()[4]));
    assert(ops_trace(ops, n + 6, answers) =~= Seq::empty());
    assert(ops_trace(ops, n + 5, answers) =~= tail.skip(5));
    assert(ops_trace(ops, n + 4, answers) =~= tail.skip(4));
    assert(ops_trace(ops, n + 3, answers) =~= tail.skip(3));
    assert(ops_trace(ops, n + 2, answers) =~= tail.skip(2));
    assert(ops_trace(ops, n + 1, answers) =~= tail.skip(1));
    assert(ops_trace(ops, n, answers) =~= tail);
    lemma_table_passes(table, ops, 0, n, answers, succeeds);
    lemma_table_installs(table, last, succeeds);
}

proof fn lemma_table_installs(table: SignalTable, last: Effect<Seq<u8>>, succeeds: Outcomes)
    requires
        !(last is Sigaction),
    ensures
        table_after_effects(table, installs(), succeeds) == installed_table(table, succeeds),
        table_after_effects(table, installs().push(last), succeeds) == installed_table(
            table,
            succeeds,
        ),
{
    assert(table_after_effects(table, installs(), succeeds) == installed_table(table, succeeds)) by {
        reveal_with_fuel(table_after_effects, 6);
    }
    let all = installs().push(last);
    assert(all.drop_last() =~= installs());
    assert(all.last() == last);
    assert(table_after_effects(table, all, succeeds) == table_after_effects(
        table,
        all.drop_last(),
        succeeds,
    ));
}

/// The early initialisation leaves its marker on both streams and with each sink
/// of the log that opens, writes nothing else, and then does nothing but the
/// installs for the signals 11, 4, 7, 8 and 6, in this order.
pub proof fn law_early_init_marks_and_installs(answers: Answers)
    ensures
        ({
            let trace = script_trace(early_init_ops(), answers);
            let msg = ascii("NVRC early init: installing signal handlers\n"@);
            &&& trace.len() >= 7
            &&& trace[0] == (Effect::Write { fd: 1, bytes: msg })
            &&& trace[1] == (Effect::Write { fd: 2, bytes: msg })
            &&& all_writes_say(trace, msg)
            &&& reaches_log_sinks(trace, msg, 2, answers)
            &&& only_logs(trace.take(trace.len() - 5))
            &&& trace.skip(trace.len() - 5) == seq![
                Effect::<Seq<u8>>::Sigaction {
                    signum: 11,
                    sa_flags: -0x4000_0000 as i32,
                    sa_mask: 0,
                },
                Effect::Sigaction { signum: 4, sa_flags: -0x4000_0000 as i32, sa_mask: 0 },
                Effect::Sigaction { signum: 7, sa_flags: -0x4000_0000 as i32, sa_mask: 0 },
                Effect::Sigaction { signum: 8, sa_flags: -0x4000_0000 as i32, sa_mask: 0 },
                Effect::Sigaction { signum: 6, sa_flags: -0x4000_0000 as i32, sa_mask: 0 },
            ]
        }),
{
    let ops = early_init_ops();
    let trace = script_trace(ops, answers);
    let msg = ascii("NVRC early init: installing signal handlers\n"@);
    lemma_early_init_by_number();
    assert(ops.len() == 8);
    assert(ops[0] == write_op(1, msg) && ops[1] == write_op(2, msg));
    assert(ops[2] == (Op::Sinks { set: SinkSet::Log, msg }));
    law_outer_effects_are_fixed(ops, 2, 5, answers);
    lemma_all_writes_say(ops, 0, msg, answers);
    law_log_sinks_are_reached(ops, 2, msg, answers);
    let logs = lemma_log_then(ops, 0, 3, answers);
    let rest = ops_trace(ops, 3, answers);
    let installs = seq![
        Effect::Sigaction { signum: 11, sa_flags: -0x4000_0000 as i32, sa_mask: 0 },
        Effect::Sigaction { signum: 4, sa_flags: -0x4000_0000 as i32, sa_mask: 0 },
        Effect::Sigaction { signum: 7, sa_flags: -0x4000_0000 as i32, sa_mask: 0 },
        Effect::Sigaction { signum: 8, sa_flags: -0x4000_0000 as i32, sa_mask: 0 },
        Effect::Sigaction { signum: 6, sa_flags: -0x4000_0000 as i32, sa_mask: 0 },
    ];
    assert(ops_trace(ops, 8, answers) =~= Seq::empty());
    assert(ops_trace(ops, 7, answers) =~= installs.skip(4));
    assert(ops_trace(ops, 6, answers) =~= installs.skip(3));
    assert(ops_trace(ops, 5, answers) =~= installs.skip(2));
    assert(ops_trace(ops, 4, answers) =~= installs.skip(1));
    assert(rest =~= installs);
    assert(trace == logs + rest);
    assert(trace[1] is Write && rest[0] is Sigaction);
    assert(trace.take(trace.len() - 5) =~= logs);
    assert(trace.skip(trace.len() - 5) =~= rest);
}

/// After the early initialisation the signals 11, 4, 7, 8 and 6 have the
/// handler of this module, each where its install succeeds, and every other
/// signal is handled as before, whatever becomes of the log.
pub proof fn law_early_init_leaves_the_handlers(
    table: SignalTable,
    answers: Answers,
    succeeds: Outcomes,
)
    ensures
        has_fatal_handlers(
            table,
            table_after_effects(table, script_trace(early_init_ops(), answers), succeeds),
            succeeds,
        ),
{
    lemma_early_init_table(table, answers, succeeds);
}

proof fn lemma_installed_handlers(errors: spec_fn(int) -> Option<Seq<char>>, k: int)
    requires
        0 <= k <= FATAL_SIGNAL_COUNT,
        forall|i: int| 0 <= i < k ==> #[trigger] errors(i) is None,
        k < FATAL_SIGNAL_COUNT ==> errors(k) is Some,
    ensures
        installed_handlers(errors) == fatal_signals().take(k).map_values(
            |signal: FatalSignal| disposition(signal),
        ),
{
    if k < FATAL_SIGNAL_COUNT {
        law_first_failure_panics(errors, k);
    } else {
        law_all_handlers_are_installed(errors);
    }
    assert(installed_handlers(errors) =~= fatal_signals().take(k).map_values(
        |signal: FatalSignal| disposition(signal),
    ));
}

proof fn lemma_table_after_first(table: SignalTable, k: int)
    requires
        0 <= k <= FATAL_SIGNAL_COUNT,
    ensures
        only_these_changed(
            table,
            table_after_handlers(
                table,
                fatal_signals().take(k).map_values(|signal: FatalSignal| disposition(signal)),
            ),
            |signum: i32| is_number_of(fatal_signals().take(k), signum),
        ),
    decreases k,
{
    let first = fatal_signals().take(k);
    let handlers = first.map_values(|signal: FatalSignal| disposition(signal));
    if k > 0 {
        let fewer = fatal_signals().take(k - 1);
        let last = fatal_signals()[k - 1];
        lemma_table_after_first(table, k - 1);
        assert(handlers.drop_last() =~= fewer.map_values(
            |signal: FatalSignal| disposition(signal),
        ));
        assert forall|signum: i32| #[trigger] is_number_of(first, signum) <==> is_number_of(
            fewer,
            signum,
        ) || signum == signal_number(last) by {
            if is_number_of(fewer, signum) {
                let i = choose|i: int|
                    0 <= i < fewer.len() && signal_number(#[trigger] fewer[i]) == signum;
                assert(signal_number(first[i]) == signum);
            }
            if signum == signal_number(last) {
                assert(signal_number(first[k - 1]) == signum);
            }
            if is_number_of(first, signum) {
                let i = choose|i: int|
                    0 <= i < first.len() && signal_number(#[trigger] first[i]) == signum;
                if i < k - 1 {
                    assert(signal_number(fewer[i]) == signum);
                }
            }
        }
    }
}

/// A set-up whose first failure is at number `k`, or that has none where `k` is
/// the number of fatal signals, changes the handling of the first `k` fatal
/// signals and of no other signal.
pub proof fn law_setup_changes_what_it_installs(
    table: SignalTable,
    errors: spec_fn(int) -> Option<Seq<char>>,
    k: int,
)
    requires
        0 <= k <= FATAL_SIGNAL_COUNT,
        forall|i: int| 0 <= i < k ==> #[trigger] errors(i) is None,
        k < FATAL_SIGNAL_COUNT ==> errors(k) is Some,
    ensures
        only_these_changed(
            table,
            table_after_setup(table, errors),
            |signum: i32| is_number_of(fatal_signals().take(k), signum),
        ),
{
    lemma_installed_handlers(errors, k);
    lemma_table_after_first(table, k);
}

/// A set-up in which the attempts before number `k` succeed and that of number
/// `k` fails, if there is one, leaves the handler of this module for the first
/// `k` of the signals 11, 4, 7, 8 and 6, in this order, and every other signal
/// handled as before.
pub proof fn law_setup_leaves_the_handlers(
    table: SignalTable,
    errors: spec_fn(int) -> Option<Seq<char>>,
    k: int,
)
    requires
        0 <= k <= 5,
        forall|i: int| 0 <= i < k ==> #[trigger] errors(i) is None,
        k < 5 ==> errors(k) is Some,
    ensures
        has_fatal_handlers(
            table,
            table_after_setup(table, errors),
            |signum: i32|
                (signum == 11 && k > 0) || (signum == 4 && k > 1) || (signum == 7 && k > 2) || (
                signum == 8 && k > 3) || (signum == 6 && k > 4),
        ),
{
    lemma_installed_handlers(errors, k);
    let handlers = installed_handlers(errors);
    assert(handlers.len() == k);
    assert(k > 0 ==> handlers[0] == disposition(FatalSignal::Segv));
    assert(k > 1 ==> handlers[1] == disposition(FatalSignal::Ill));
    assert(k > 2 ==> handlers[2] == disposition(FatalSignal::Bus));
    assert(k > 3 ==> handlers[3] == disposition(FatalSignal::Fpe));
    assert(k > 4 ==> handlers[4] == disposition(FatalSignal::Abrt));
    reveal_with_fuel(table_after_handlers, 6);
}

/// An error keeps all of its words, and only a failure is one.
pub proof fn law_errors_keep_their_words(err: String)
    ensures
        error_text(Err(err)) == Some(err@),
        error_text(Ok(())) is None,
{
}

/// The handler that comes after `installed` ones, by number and name, and what
/// an attempt to install it leads to: after a success the next one is pending,
/// and after a failure the same one, with a panic that names its signal and
/// holds all of the error. Once all five are installed nothing is pending, and
/// no outcome counts.
pub proof fn law_handlers_are_attempted_one_by_one(installed: nat, err: Seq<char>)
    ensures
        installed < 5 ==> pending_handler(installed) == Some(
            Disposition {
                signal: if installed == 0 {
                    FatalSignal::Segv
                } else if installed == 1 {
                    FatalSignal::Ill
                } else if installed == 2 {
                    FatalSignal::Bus
                } else if installed == 3 {
                    FatalSignal::Fpe
                } else {
                    FatalSignal::Abrt
                },
                sa_flags: -0x4000_0000 as i32,
                sa_mask: 0,
            },
        ),
        installed >= 5 ==> pending_handler(installed) is None,
        installed < 5 ==> after_attempt(installed, None) == (installed + 1, None::<Seq<char>>),
        installed < 5 ==> after_attempt(installed, Some(err)) == (
            installed,
            Some(
                "install signal handler "@ + (if installed == 0 {
                    "SIGSEGV"@
                } else if installed == 1 {
                    "SIGILL"@
                } else if installed == 2 {
                    "SIGBUS"@
                } else if installed == 3 {
                    "SIGFPE"@
                } else {
                    "SIGABRT"@
                }) + ": "@ + err,
            ),
        ),
        installed >= 5 ==> after_attempt(installed, None) == (installed, None::<Seq<char>>),
        installed >= 5 ==> after_attempt(installed, Some(err)) == (installed, None::<Seq<char>>),
{
}

proof fn lemma_setup_table(
    table: SignalTable,
    errors: spec_fn(int) -> Option<Seq<char>>,
    succeeds: Outcomes,
)
    requires
        forall|i: int| 0 <= i < FATAL_SIGNAL_COUNT ==> #[trigger] errors(i) is None,
        forall|signum: i32| #[trigger] is_fatal(signum) ==> succeeds(signum),
    ensures
        table_after_setup(table, errors) == installed_table(table, succeeds),
        installed_table(installed_table(table, succeeds), succeeds) == installed_table(
            table,
            succeeds,
        ),
{
    law_all_handlers_are_installed(errors);
    lemma_fatal_numbers(11);
    lemma_fatal_numbers(4);
    lemma_fatal_numbers(7);
    lemma_fatal_numbers(8);
    lemma_fatal_numbers(6);
    reveal_with_fuel(table_after_handlers, 6);
    assert(installed_table(installed_table(table, succeeds), succeeds) =~= installed_table(
        table,
        succeeds,
    ));
}

/// Where every install succeeds, the early initialisation and the later set-up
/// leave the same handling of all signals, so that running one after the other
/// changes nothing.
pub proof fn law_both_setups_leave_the_same(
    table: SignalTable,
    answers: Answers,
    succeeds: Outcomes,
    errors: spec_fn(int) -> Option<Seq<char>>,
)
    requires
        forall|i: int| 0 <= i < FATAL_SIGNAL_COUNT ==> #[trigger] errors(i) is None,
        forall|signum: i32| #[trigger] is_fatal(signum) ==> succeeds(signum),
    ensures
        ({
            let trace = script_trace(early_init_ops(), answers);
            let early = table_after_effects(table, trace, succeeds);
            let late = table_after_setup(table, errors);
            &&& early == late
            &&& table_after_setup(early, errors) == early
            &&& table_after_effects(late, trace, succeeds) == late
        }),
{
    lemma_early_init_table(table, answers, succeeds);
    lemma_setup_table(table, errors, succeeds);
    lemma_setup_table(installed_table(table, succeeds), errors, succeeds);
    lemma_early_init_table(installed_table(table, succeeds), answers, succeeds);
}

} // verus!
