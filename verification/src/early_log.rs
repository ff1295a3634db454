//! Log messages from before the C runtime is up.

use crate::abi::{stderr_fileno, stdout_fileno};
use crate::number_line::{clip, full_line, number_line, spells, NumberLine};
use crate::script::{Effect, Op, Script, SinkSet};
use crate::trace::{
    all_writes_say, law_log_sinks_are_reached, law_outer_effects_are_fixed, lemma_all_writes_say,
    lemma_only_logs, only_logs, reaches_log_sinks, script_trace, Answers,
};
use vstd::prelude::*;

verus! {

/// The operation that writes `msg` to a descriptor of the process.
pub open spec fn write_op(fd: i64, msg: Seq<u8>) -> Op<Seq<u8>> {
    Op::Do(Effect::Write { fd, bytes: msg })
}

/// Writing a message everywhere: standard output, standard error, and the
/// optional sinks of the log.
pub open spec fn log_ops(msg: Seq<u8>) -> Seq<Op<Seq<u8>>> {
    seq![write_op(1, msg), write_op(2, msg), Op::Sinks { set: SinkSet::Log, msg }]
}

/// Writes a message to each of the optional sinks of the log that can be opened.
pub fn raw_write_to_optional_sinks<'a>(msg: &'a [u8]) -> (script: Script<'a>)
    ensures
        script@ == seq![Op::Sinks { set: SinkSet::Log, msg: msg@ }],
{
    let mut script = Script::new();
    script.push(Op::Sinks { set: SinkSet::Log, msg });
    assert(script@ =~= seq![Op::Sinks { set: SinkSet::Log, msg: msg@ }]);
    script
}

/// Appends the operations that write a message everywhere.
pub(crate) fn push_log<'a>(script: &mut Script<'a>, msg: &'a [u8])
    requires
        old(script)@.len() + 3 <= crate::script::SCRIPT_CAPACITY,
    ensures
        final(script)@ == old(script)@ + log_ops(msg@),
{
    script.push(Op::Do(Effect::Write { fd: stdout_fileno() as i64, bytes: msg }));
    script.push(Op::Do(Effect::Write { fd: stderr_fileno() as i64, bytes: msg }));
    script.push(Op::Sinks { set: SinkSet::Log, msg });
    assert(script@ =~= old(script)@ + log_ops(msg@));
}

/// Logs a message before the C runtime is up.
pub fn early_boot_log<'a>(msg: &'a [u8]) -> (script: Script<'a>)
    ensures
        script@ == log_ops(msg@),
        script@ == seq![
            Op::Do(Effect::Write { fd: 1, bytes: msg@ }),
            Op::Do(Effect::Write { fd: 2, bytes: msg@ }),
            Op::Sinks { set: SinkSet::Log, msg: msg@ },
        ],
{
    let mut script = Script::new();
    push_log(&mut script, msg);
    assert(script@ =~= log_ops(msg@));
    script
}

/// Logs `<prefix><num>` and a line feed before the C runtime is up. The line
/// is built in `line`, whatever that held before; what does not fit in it is
/// cut off.
pub fn early_boot_log_num<'a>(line: &'a mut NumberLine, prefix: &[u8], num: i64) -> (script: Script<
    'a,
>)
    ensures
        final(line)@ == clip(full_line(prefix@, num as int)),
        script@ == log_ops(clip(full_line(prefix@, num as int))),
        script@ == seq![
            Op::Do(Effect::Write { fd: 1, bytes: final(line)@ }),
            Op::Do(Effect::Write { fd: 2, bytes: final(line)@ }),
            Op::Sinks { set: SinkSet::Log, msg: final(line)@ },
        ],
        prefix@.len() <= 43 ==> spells(final(line)@, prefix@, num as int),
{
    *line = number_line(prefix, num);
    early_boot_log(line.bytes())
}

/// A log message goes to standard output and then to standard error before any
/// sink is tried, whatever becomes of the sinks.
pub proof fn law_log_reaches_both_streams(msg: Seq<u8>, answers: Answers)
    ensures
        script_trace(log_ops(msg), answers).len() >= 2,
        script_trace(log_ops(msg), answers)[0] == (Effect::Write { fd: 1, bytes: msg }),
        script_trace(log_ops(msg), answers)[1] == (Effect::Write { fd: 2, bytes: msg }),
{
    law_outer_effects_are_fixed(log_ops(msg), 2, 0, answers);
    assert(log_ops(msg)[0] == write_op(1, msg) && log_ops(msg)[1] == write_op(2, msg));
}

/// A log message is the same everywhere. It goes to standard output and then to
/// standard error before any sink is tried, whatever becomes of the sinks; each
/// of the eight sinks is tried; each that opens gets it; and nothing else is
/// ever written.
pub proof fn law_log_says_the_same_everywhere(msg: Seq<u8>, answers: Answers)
    ensures
        script_trace(log_ops(msg), answers).len() >= 2,
        script_trace(log_ops(msg), answers)[0] == (Effect::Write { fd: 1, bytes: msg }),
        script_trace(log_ops(msg), answers)[1] == (Effect::Write { fd: 2, bytes: msg }),
        all_writes_say(script_trace(log_ops(msg), answers), msg),
        reaches_log_sinks(script_trace(log_ops(msg), answers), msg, 2, answers),
        only_logs(script_trace(log_ops(msg), answers)),
{
    let ops = log_ops(msg);
    assert(ops.len() == 3);
    assert(ops[0] == write_op(1, msg) && ops[1] == write_op(2, msg));
    assert(ops[2] == (Op::Sinks { set: SinkSet::Log, msg }));
    law_outer_effects_are_fixed(ops, 2, 0, answers);
    lemma_all_writes_say(ops, 0, msg, answers);
    law_log_sinks_are_reached(ops, 2, msg, answers);
    lemma_only_logs(ops, 0, answers);
}

} // verus!
