//! Stand-ins for routines of the C library that run while the runtime starts.

use crate::abi::{
    sc_avphys_pages, sc_clk_tck, sc_nprocessors_conf, sc_nprocessors_onln, sc_page_size, sc_phys_pages,
    stderr_fileno, stdout_fileno,
};
use crate::early_log::{early_boot_log, early_boot_log_num, log_ops, push_log, write_op};
use crate::number_line::{
    full_line, law_line_spells_its_number, law_short_prefix_leaves_the_line_whole, spells, NumberLine,
};
use crate::script::{Effect, Op, Phase, Script, SinkSet};
use crate::signals::{
    early_init_ops, has_fatal_handlers, lemma_table_with_installs, run_early_init_for_wrapper,
    table_after_effects, Outcomes, SignalTable,
};
use crate::text::{ascii, ascii_bytes};
use crate::trace::{
    all_writes_say, ends_with, law_entry_sinks_are_reached, law_last_operation_ends_the_run,
    law_log_sinks_are_reached, law_outer_effects_are_fixed, lemma_all_writes_say, lemma_log_then,
    lemma_op_in_run, lemma_writes_say_either, only_logs, op_trace, ops_trace, reaches_log_sinks, script_trace, Answers,
};
use vstd::prelude::*;

verus! {

/// What the entry point of the program does.
pub open spec fn entry_ops() -> Seq<Op<Seq<u8>>> {
    let msg = ascii("NVRC _start: entered\n"@);
    seq![
        write_op(2, msg),
        write_op(1, msg),
        Op::Sinks { set: SinkSet::Entry, msg },
        Op::Do(Effect::StartMain),
    ]
}

/// The entry point of the program, before anything of the C library: leaves a
/// marker on standard error, standard output and the sinks of its own, and
/// hands over to [`wrap_libc_start_main`].
pub fn nvrc_start() -> (script: Script<'static>)
    ensures
        script@ == entry_ops(),
        ({
            let msg = ascii("NVRC _start: entered\n"@);
            script@ == seq![
                Op::Do(Effect::Write { fd: 2, bytes: msg }),
                Op::Do(Effect::Write { fd: 1, bytes: msg }),
                Op::Sinks { set: SinkSet::Entry, msg },
                Op::Do(Effect::StartMain),
            ]
        }),
{
    proof {
        reveal_strlit("NVRC _start: entered\n");
    }
    let msg: &'static [u8] = ascii_bytes("NVRC _start: entered\n");
    let mut script = Script::new();
    script.push(Op::Do(Effect::Write { fd: stderr_fileno() as i64, bytes: msg }));
    script.push(Op::Do(Effect::Write { fd: stdout_fileno() as i64, bytes: msg }));
    script.push(Op::Sinks { set: SinkSet::Entry, msg });
    script.push(Op::Do(Effect::StartMain));
    assert(script@ =~= entry_ops());
    script
}

/// What the start routine does in place of the C runtime's own.
pub open spec fn start_ops() -> Seq<Op<Seq<u8>>> {
    (log_ops(ascii("NVRC wrap: __libc_start_main\n"@)) + early_init_ops()).push(
        Op::Do(Effect::StartMain),
    )
}

proof fn lemma_start_by_number()
    ensures
        ({
            let msg = ascii("NVRC wrap: __libc_start_main\n"@);
            let init = ascii("NVRC early init: installing signal handlers\n"@);
            start_ops() == seq![
                Op::Do(Effect::Write { fd: 1, bytes: msg }),
                Op::Do(Effect::Write { fd: 2, bytes: msg }),
                Op::Sinks { set: SinkSet::Log, msg },
                Op::Do(Effect::Write { fd: 1, bytes: init }),
                Op::Do(Effect::Write { fd: 2, bytes: init }),
                Op::Sinks { set: SinkSet::Log, msg: init },
                Op::Do(Effect::Sigaction { signum: 11, sa_flags: -0x4000_0000 as i32, sa_mask: 0 }),
                Op::Do(Effect::Sigaction { signum: 4, sa_flags: -0x4000_0000 as i32, sa_mask: 0 }),
                Op::Do(Effect::Sigaction { signum: 7, sa_flags: -0x4000_0000 as i32, sa_mask: 0 }),
                Op::Do(Effect::Sigaction { signum: 8, sa_flags: -0x4000_0000 as i32, sa_mask: 0 }),
                Op::Do(Effect::Sigaction { signum: 6, sa_flags: -0x4000_0000 as i32, sa_mask: 0 }),
                Op::Do(Effect::StartMain),
            ]
        }),
{
    let msg = ascii("NVRC wrap: __libc_start_main\n"@);
    let init = ascii("NVRC early init: installing signal handlers\n"@);
    assert(start_ops() =~= seq![
        Op::Do(Effect::Write { fd: 1, bytes: msg }),
        Op::Do(Effect::Write { fd: 2, bytes: msg }),
        Op::Sinks { set: SinkSet::Log, msg },
        Op::Do(Effect::Write { fd: 1, bytes: init }),
        Op::Do(Effect::Write { fd: 2, bytes: init }),
        Op::Sinks { set: SinkSet::Log, msg: init },
        Op::Do(Effect::Sigaction { signum: 11, sa_flags: -0x4000_0000 as i32, sa_mask: 0 }),
        Op::Do(Effect::Sigaction { signum: 4, sa_flags: -0x4000_0000 as i32, sa_mask: 0 }),
        Op::Do(Effect::Sigaction { signum: 7, sa_flags: -0x4000_0000 as i32, sa_mask: 0 }),
        Op::Do(Effect::Sigaction { signum: 8, sa_flags: -0x4000_0000 as i32, sa_mask: 0 }),
        Op::Do(Effect::Sigaction { signum: 6, sa_flags: -0x4000_0000 as i32, sa_mask: 0 }),
        Op::Do(Effect::StartMain),
    ]);
}

/// Takes the place of `__libc_start_main`: leaves a marker in the log, makes
/// the early initialisation, and hands over to the C runtime.
pub fn wrap_libc_start_main() -> (script: Script<'static>)
    ensures
        script@ == start_ops(),
        ({
            let msg = ascii("NVRC wrap: __libc_start_main\n"@);
            let init = ascii("NVRC early init: installing signal handlers\n"@);
            script@ == seq![
                Op::Do(Effect::Write { fd: 1, bytes: msg }),
                Op::Do(Effect::Write { fd: 2, bytes: msg }),
                Op::Sinks { set: SinkSet::Log, msg },
                Op::Do(Effect::Write { fd: 1, bytes: init }),
                Op::Do(Effect::Write { fd: 2, bytes: init }),
                Op::Sinks { set: SinkSet::Log, msg: init },
                Op::Do(Effect::Sigaction { signum: 11, sa_flags: -0x4000_0000 as i32, sa_mask: 0 }),
                Op::Do(Effect::Sigaction { signum: 4, sa_flags: -0x4000_0000 as i32, sa_mask: 0 }),
                Op::Do(Effect::Sigaction { signum: 7, sa_flags: -0x4000_0000 as i32, sa_mask: 0 }),
                Op::Do(Effect::Sigaction { signum: 8, sa_flags: -0x4000_0000 as i32, sa_mask: 0 }),
                Op::Do(Effect::Sigaction { signum: 6, sa_flags: -0x4000_0000 as i32, sa_mask: 0 }),
                Op::Do(Effect::StartMain),
            ]
        }),
{
    proof {
        lemma_start_by_number();
        reveal_strlit("NVRC wrap: __libc_start_main\n");
    }
    let mut script = Script::new();
    push_log(&mut script, ascii_bytes("NVRC wrap: __libc_start_main\n"));
    run_early_init_for_wrapper(&mut script);
    script.push(Op::Do(Effect::StartMain));
    assert(script@ =~= start_ops());
    script
}

/// What the abort routine does in place of the C library's own.
pub open spec fn abort_ops() -> Seq<Op<Seq<u8>>> {
    log_ops(ascii("NVRC wrap: abort\n"@)).push(Op::Do(Effect::RealAbort))
}

/// Takes the place of `abort`: leaves a marker in the log and hands over to
/// the C library.
pub fn wrap_abort() -> (script: Script<'static>)
    ensures
        script@ == abort_ops(),
        ({
            let msg = ascii("NVRC wrap: abort\n"@);
            script@ == seq![
                Op::Do(Effect::Write { fd: 1, bytes: msg }),
                Op::Do(Effect::Write { fd: 2, bytes: msg }),
                Op::Sinks { set: SinkSet::Log, msg },
                Op::Do(Effect::RealAbort),
            ]
        }),
{
    proof {
        reveal_strlit("NVRC wrap: abort\n");
    }
    let mut script = early_boot_log(ascii_bytes("NVRC wrap: abort\n"));
    script.push(Op::Do(Effect::RealAbort));
    script
}

/// The answer to `sysconf` while the C library cannot be asked: a page of
/// 4096 bytes (name 30), one processor online (84) and configured (83), 100
/// clock ticks to the second (2), no pages of memory in all (85) and
/// available (86), and -1 for every other name.
pub open spec fn stub_value(name: i32) -> i64 {
    if name == 30 {
        4096
    } else if name == 84 || name == 83 {
        1
    } else if name == 2 {
        100
    } else if name == 85 || name == 86 {
        0
    } else {
        -1 as i64
    }
}

/// The answer to `sysconf` while the C library cannot be asked.
pub fn sysconf_stub(name: i32) -> (value: i64)
    ensures
        value == stub_value(name),
        value == if name == 30 {
            4096
        } else if name == 84 || name == 83 {
            1
        } else if name == 2 {
            100
        } else if name == 85 || name == 86 {
            0
        } else {
            -1 as i64
        },
{
    if name == sc_page_size() {
        4096
    } else if name == sc_nprocessors_onln() || name == sc_nprocessors_conf() {
        1
    } else if name == sc_clk_tck() {
        100
    } else if name == sc_phys_pages() || name == sc_avphys_pages() {
        0
    } else {
        -1
    }
}

/// What the `sysconf` routine does in place of the C library's own.
pub open spec fn sysconf_ops(name: i32) -> Seq<Op<Seq<u8>>> {
    log_ops(full_line(ascii("NVRC wrap: sysconf "@), name as int)).push(
        Op::IfRealAllowed {
            yes: Effect::RealSysconf { name },
            no: Effect::Return { value: stub_value(name) },
        },
    )
}

/// Takes the place of `sysconf`: logs the name that is asked for, and then asks
/// the C library where it may be asked, or else answers with a value of its
/// own. The line of the log is built in `line`.
pub fn wrap_sysconf<'a>(line: &'a mut NumberLine, name: i32) -> (script: Script<'a>)
    ensures
        final(line)@ == full_line(ascii("NVRC wrap: sysconf "@), name as int),
        script@ == sysconf_ops(name),
        spells(final(line)@, ascii("NVRC wrap: sysconf "@), name as int),
        script@ == seq![
            Op::Do(Effect::Write { fd: 1, bytes: final(line)@ }),
            Op::Do(Effect::Write { fd: 2, bytes: final(line)@ }),
            Op::Sinks { set: SinkSet::Log, msg: final(line)@ },
            Op::IfRealAllowed {
                yes: Effect::RealSysconf { name },
                no: Effect::Return {
                    value: if name == 30 {
                        4096
                    } else if name == 84 || name == 83 {
                        1
                    } else if name == 2 {
                        100
                    } else if name == 85 || name == 86 {
                        0
                    } else {
                        -1 as i64
                    },
                },
            },
        ],
{
    proof {
        reveal_strlit("NVRC wrap: sysconf ");
        law_short_prefix_leaves_the_line_whole(ascii("NVRC wrap: sysconf "@), name as i64);
    }
    let mut script = early_boot_log_num(line, ascii_bytes("NVRC wrap: sysconf "), name as i64);
    script.push(
        Op::IfRealAllowed {
            yes: Effect::RealSysconf { name },
            no: Effect::Return { value: sysconf_stub(name) },
        },
    );
    script
}

/// Logging never keeps a routine from its work: whatever becomes of the sinks,
/// each stand-in ends by doing what it stands in for. For `sysconf` the flag is
/// read after the log, and what it says decides.
pub proof fn law_stand_ins_end_in_their_work(name: i32, answers: Answers)
    ensures
        ends_with(script_trace(entry_ops(), answers), seq![Effect::StartMain]),
        ends_with(script_trace(start_ops(), answers), seq![Effect::StartMain]),
        ends_with(script_trace(abort_ops(), answers), seq![Effect::RealAbort]),
        answers(3, Phase::Asked) != 0 ==> ends_with(
            script_trace(sysconf_ops(name), answers),
            seq![Effect::LoadAllowReal, Effect::RealSysconf { name }],
        ),
        answers(3, Phase::Asked) == 0 ==> ends_with(
            script_trace(sysconf_ops(name), answers),
            seq![Effect::LoadAllowReal, Effect::Return { value: stub_value(name) }],
        ),
{
    law_last_operation_ends_the_run(entry_ops(), answers);
    law_last_operation_ends_the_run(start_ops(), answers);
    law_last_operation_ends_the_run(abort_ops(), answers);
    law_last_operation_ends_the_run(sysconf_ops(name), answers);
}

/// Whatever becomes of the sinks, the start routine logs, then makes the
/// installs for the signals 11, 4, 7, 8 and 6, in this order, and hands over.
/// When it hands over, each of these signals whose install succeeds has the
/// fatal handling, and every other signal is handled as before.
pub proof fn law_handlers_are_in_place_before_main(
    table: SignalTable,
    answers: Answers,
    succeeds: Outcomes,
)
    ensures
        ({
            let trace = script_trace(start_ops(), answers);
            &&& ends_with(
                trace,
                seq![
                    Effect::Sigaction { signum: 11, sa_flags: -0x4000_0000 as i32, sa_mask: 0 },
                    Effect::Sigaction { signum: 4, sa_flags: -0x4000_0000 as i32, sa_mask: 0 },
                    Effect::Sigaction { signum: 7, sa_flags: -0x4000_0000 as i32, sa_mask: 0 },
                    Effect::Sigaction { signum: 8, sa_flags: -0x4000_0000 as i32, sa_mask: 0 },
                    Effect::Sigaction { signum: 6, sa_flags: -0x4000_0000 as i32, sa_mask: 0 },
                    Effect::StartMain,
                ],
            )
            &&& only_logs(trace.take(trace.len() - 6))
            &&& has_fatal_handlers(
                table,
                table_after_effects(table, trace.drop_last(), succeeds),
                succeeds,
            )
            &&& has_fatal_handlers(table, table_after_effects(table, trace, succeeds), succeeds)
        }),
{
    let ops = start_ops();
    let trace = script_trace(ops, answers);
    lemma_start_by_number();
    lemma_table_with_installs(table, ops, answers, succeeds);
    let logs = lemma_log_then(ops, 0, 6, answers);
    let rest = ops_trace(ops, 6, answers);
    assert(trace == logs + rest);
    assert(trace.take(trace.len() - 6) =~= logs);
    assert(trace.skip(trace.len() - 6) =~= rest);
    assert(trace.last() is StartMain);
}

/// The start routine leaves both of its markers with every sink of the log that
/// opens, tries each of the eight for each marker, begins with its own marker on
/// standard output and standard error, and writes nothing else.
pub proof fn law_start_markers_reach_the_log(answers: Answers)
    ensures
        ({
            let trace = script_trace(start_ops(), answers);
            let msg = ascii("NVRC wrap: __libc_start_main\n"@);
            let init = ascii("NVRC early init: installing signal handlers\n"@);
            &&& trace.len() >= 2
            &&& trace[0] == (Effect::Write { fd: 1, bytes: msg })
            &&& trace[1] == (Effect::Write { fd: 2, bytes: msg })
            &&& trace.contains(Effect::Write { fd: 1, bytes: init })
            &&& trace.contains(Effect::Write { fd: 2, bytes: init })
            &&& forall|k: int|
                0 <= k < trace.len() ==> (#[trigger] trace[k] matches Effect::Write {
                    bytes,
                    ..
                } ==> bytes == msg || bytes == init)
        }),
        reaches_log_sinks(
            script_trace(start_ops(), answers),
            ascii("NVRC wrap: __libc_start_main\n"@),
            2,
            answers,
        ),
        reaches_log_sinks(
            script_trace(start_ops(), answers),
            ascii("NVRC early init: installing signal handlers\n"@),
            5,
            answers,
        ),
{
    let ops = start_ops();
    lemma_start_by_number();
    assert(ops[0] is Do && ops[1] is Do && ops[3] is Do && ops[4] is Do);
    law_outer_effects_are_fixed(ops, 2, 0, answers);
    lemma_op_in_run(ops, 0, 3, 0, answers);
    lemma_op_in_run(ops, 0, 4, 0, answers);
    lemma_writes_say_either(
        ops,
        0,
        ascii("NVRC wrap: __libc_start_main\n"@),
        ascii("NVRC early init: installing signal handlers\n"@),
        answers,
    );
    law_log_sinks_are_reached(
        start_ops(),
        2,
        ascii("NVRC wrap: __libc_start_main\n"@),
        answers,
    );
    law_log_sinks_are_reached(
        start_ops(),
        5,
        ascii("NVRC early init: installing signal handlers\n"@),
        answers,
    );
}

/// The abort routine says that it was called, on both streams and on every sink
/// of the log that opens, says nothing else, and then aborts.
pub proof fn law_abort_is_marked(answers: Answers)
    ensures
        ({
            let trace = script_trace(abort_ops(), answers);
            let msg = ascii("NVRC wrap: abort\n"@);
            &&& trace.len() >= 3
            &&& trace[0] == (Effect::Write { fd: 1, bytes: msg })
            &&& trace[1] == (Effect::Write { fd: 2, bytes: msg })
            &&& all_writes_say(trace, msg)
            &&& reaches_log_sinks(trace, msg, 2, answers)
            &&& only_logs(trace.drop_last())
            &&& trace.last() == (Effect::<Seq<u8>>::RealAbort)
        }),
{
    let ops = abort_ops();
    let trace = script_trace(ops, answers);
    let msg = ascii("NVRC wrap: abort\n"@);
    assert(ops.len() == 4);
    assert(ops[0] == write_op(1, msg) && ops[1] == write_op(2, msg));
    assert(ops[2] == (Op::Sinks { set: SinkSet::Log, msg }));
    assert(ops[3] == (Op::<Seq<u8>>::Do(Effect::RealAbort)));
    law_outer_effects_are_fixed(ops, 2, 1, answers);
    lemma_all_writes_say(ops, 0, msg, answers);
    law_log_sinks_are_reached(ops, 2, msg, answers);
    let logs = lemma_log_then(ops, 0, 3, answers);
    assert(ops_trace(ops, 4, answers) =~= Seq::empty());
    assert(ops_trace(ops, 3, answers) =~= seq![Effect::RealAbort]);
    assert(trace == logs + seq![Effect::RealAbort]);
    assert(trace.drop_last() =~= logs);
    assert(trace[1] is Write && trace.last() is RealAbort);
}

/// The entry point leaves its marker on standard error, then on standard output,
/// then with each of its four sinks that opens, leaves no other, and hands over.
pub proof fn law_entry_is_marked(answers: Answers)
    ensures
        ({
            let trace = script_trace(entry_ops(), answers);
            let msg = ascii("NVRC _start: entered\n"@);
            &&& trace.len() >= 3
            &&& trace[0] == (Effect::Write { fd: 2, bytes: msg })
            &&& trace[1] == (Effect::Write { fd: 1, bytes: msg })
            &&& all_writes_say(trace, msg)
            &&& trace.contains(Effect::Open { path: ascii("/proc/kmsg\0"@), flags: 0x80001 })
            &&& trace.contains(Effect::Open { path: ascii("/dev/console\0"@), flags: 0x80001 })
            &&& trace.contains(Effect::Open { path: ascii("/dev/hvc0\0"@), flags: 0x80001 })
            &&& trace.contains(Effect::Open { path: ascii("/dev/hvc1\0"@), flags: 0x80001 })
            &&& forall|i: usize|
                i < 4 && #[trigger] answers(2, Phase::Opened(i)) >= 0 ==> {
                    let fd = answers(2, Phase::Opened(i));
                    trace.contains(Effect::Write { fd, bytes: msg }) && trace.contains(
                        Effect::Close { fd },
                    )
                }
            &&& only_logs(trace.drop_last())
            &&& trace.last() == (Effect::<Seq<u8>>::StartMain)
        }),
{
    let ops = entry_ops();
    let trace = script_trace(ops, answers);
    let msg = ascii("NVRC _start: entered\n"@);
    assert(ops.len() == 4);
    assert(ops[0] == write_op(2, msg) && ops[1] == write_op(1, msg));
    assert(ops[2] == (Op::Sinks { set: SinkSet::Entry, msg }));
    assert(ops[3] == (Op::<Seq<u8>>::Do(Effect::StartMain)));
    law_outer_effects_are_fixed(ops, 2, 1, answers);
    lemma_all_writes_say(ops, 0, msg, answers);
    law_entry_sinks_are_reached(ops, 2, msg, answers);
    let logs = lemma_log_then(ops, 0, 3, answers);
    assert(ops_trace(ops, 4, answers) =~= Seq::empty());
    assert(ops_trace(ops, 3, answers) =~= seq![Effect::StartMain]);
    assert(trace == logs + seq![Effect::StartMain]);
    assert(trace.drop_last() =~= logs);
    assert(trace[1] is Write && trace.last() is StartMain);
}

/// The `sysconf` routine logs the number that it was asked for, in decimal
/// digits, on both streams and on every sink of the log that opens, and says
/// nothing else. Then it reads whether the C library may be asked: where it may,
/// the library is asked for the same number, and where it may not, the answer is
/// the value for that number: a page of 4096 bytes for 30, one processor for 83
/// and 84, 100 ticks for 2, no pages for 85 and 86, and else -1.
pub proof fn law_sysconf_is_logged_and_answered(name: i32, answers: Answers)
    ensures
        ({
            let trace = script_trace(sysconf_ops(name), answers);
            let line = trace[0]->Write_bytes;
            &&& trace.len() >= 4
            &&& spells(line, ascii("NVRC wrap: sysconf "@), name as int)
            &&& trace[0] == (Effect::Write { fd: 1, bytes: line })
            &&& trace[1] == (Effect::Write { fd: 2, bytes: line })
            &&& all_writes_say(trace, line)
            &&& reaches_log_sinks(trace, line, 2, answers)
            &&& only_logs(trace.take(trace.len() - 2))
            &&& trace[trace.len() - 2] == (Effect::<Seq<u8>>::LoadAllowReal)
            &&& answers(3, Phase::Asked) != 0 ==> trace.last() == (Effect::<
                Seq<u8>,
            >::RealSysconf { name })
            &&& answers(3, Phase::Asked) == 0 ==> trace.last() == (Effect::<Seq<u8>>::Return {
                value: if name == 30 {
                    4096
                } else if name == 84 || name == 83 {
                    1
                } else if name == 2 {
                    100
                } else if name == 85 || name == 86 {
                    0
                } else {
                    -1 as i64
                },
            })
        }),
{
    let ops = sysconf_ops(name);
    let trace = script_trace(ops, answers);
    let prefix = ascii("NVRC wrap: sysconf "@);
    let msg = full_line(prefix, name as int);
    reveal_strlit("NVRC wrap: sysconf ");
    law_short_prefix_leaves_the_line_whole(prefix, name as i64);
    law_line_spells_its_number(prefix, name as i64);
    assert(ops.len() == 4);
    assert(ops[0] == write_op(1, msg) && ops[1] == write_op(2, msg));
    assert(ops[2] == (Op::Sinks { set: SinkSet::Log, msg }));
    assert(ops[3] is IfRealAllowed);
    law_outer_effects_are_fixed(ops, 2, 0, answers);
    lemma_all_writes_say(ops, 0, msg, answers);
    law_log_sinks_are_reached(ops, 2, msg, answers);
    let logs = lemma_log_then(ops, 0, 3, answers);
    let rest = ops_trace(ops, 3, answers);
    assert(ops_trace(ops, 4, answers) =~= Seq::empty());
    assert(rest =~= op_trace(ops[3], 3, answers));
    assert(trace == logs + rest);
    assert(trace.take(trace.len() - 2) =~= logs);
    assert(trace[trace.len() - 2] == rest[0] && trace.last() == rest[1]);
    assert(trace[1] is Write && trace[trace.len() - 2] is LoadAllowReal);
}

/// What `sysconf` is answered while the C library cannot be asked depends on the
/// name alone: six names have a value, and every other is refused with -1.
pub proof fn law_stub_values(name: i32)
    ensures
        stub_value(name) == if name == 30 {
            4096
        } else if name == 84 || name == 83 {
            1
        } else if name == 2 {
            100
        } else if name == 85 || name == 86 {
            0
        } else {
            -1 as i64
        },
{
}

} // verus!
