//! What a whole run of a script amounts to.

use crate::script::{
    enter, enter_sink, next, open_sink, sink_paths, sink_total, Effect, Op, Phase, RunState, SinkSet,
};
use crate::text::ascii;
use vstd::prelude::*;

verus! {

/// The results that the caller hands back in the course of one run: for each
/// operation and phase, the result of the effect that led there.
pub type Answers = spec_fn(int, Phase) -> i64;

/// What an attempt to open the sink number `i` for the operation `pc` gave.
pub open spec fn descriptor(answers: Answers, pc: int, i: int) -> i64 {
    answers(pc, Phase::Opened(i as usize))
}

/// Every effect of a run from `state` on, in order.
pub open spec fn run_trace(state: RunState, answers: Answers) -> Seq<Effect<Seq<u8>>>
    decreases state.ops.len() - state.pc, phase_rank(state),
{
    let (after, effect) = next(state, answers(state.pc, state.phase));
    if state.wf() && effect is Some {
        seq![effect->0] + run_trace(after, answers)
    } else {
        Seq::empty()
    }
}

/// An upper bound on the effects that the operation at hand still asks for.
pub open spec fn phase_rank(state: RunState) -> int {
    match state.ops[state.pc] {
        Op::Do(_) => 0,
        Op::Sinks { set, .. } => match state.phase {
            Phase::At(i) => 3 * (sink_total(set) - i),
            Phase::Opened(i) => 3 * (sink_total(set) - i) - 1,
            Phase::Wrote(i, _) => 3 * (sink_total(set) - i) - 2,
            Phase::Asked => 0,
        },
        Op::IfRealAllowed { .. } => if state.phase == Phase::Asked {
            0
        } else {
            1
        },
    }
}

/// What is done with what was read: `yes` where the C library may be asked.
pub open spec fn chosen(yes: Effect<Seq<u8>>, no: Effect<Seq<u8>>, answer: i64) -> Effect<Seq<u8>> {
    if answer != 0 {
        yes
    } else {
        no
    }
}

/// What is done with one sink: it is opened, and if that gives a descriptor,
/// the message is written to it and it is closed.
pub open spec fn one_sink(set: SinkSet, msg: Seq<u8>, i: int, fd: i64) -> Seq<Effect<Seq<u8>>> {
    if fd >= 0 {
        seq![open_sink(set, i), Effect::Write { fd, bytes: msg }, Effect::Close { fd }]
    } else {
        seq![open_sink(set, i)]
    }
}

/// What is done with the sinks from number `i` on.
pub open spec fn sinks_trace(set: SinkSet, msg: Seq<u8>, pc: int, i: int, answers: Answers) -> Seq<
    Effect<Seq<u8>>,
>
    decreases sink_total(set) - i,
{
    if i >= sink_total(set) {
        Seq::empty()
    } else {
        one_sink(set, msg, i, descriptor(answers, pc, i)) + sinks_trace(set, msg, pc, i + 1, answers)
    }
}

/// What one operation amounts to.
pub open spec fn op_trace(op: Op<Seq<u8>>, pc: int, answers: Answers) -> Seq<Effect<Seq<u8>>> {
    match op {
        Op::Do(effect) => seq![effect],
        Op::Sinks { set, msg } => sinks_trace(set, msg, pc, 0, answers),
        Op::IfRealAllowed { yes, no } => seq![
            Effect::LoadAllowReal,
            chosen(yes, no, answers(pc, Phase::Asked)),
        ],
    }
}

/// What the operations from number `pc` on amount to.
pub open spec fn ops_trace(ops: Seq<Op<Seq<u8>>>, pc: int, answers: Answers) -> Seq<Effect<Seq<u8>>>
    decreases ops.len() - pc,
{
    if pc >= ops.len() {
        Seq::empty()
    } else {
        op_trace(ops[pc], pc, answers) + ops_trace(ops, pc + 1, answers)
    }
}

/// The effects of a whole run of a script.
pub open spec fn script_trace(ops: Seq<Op<Seq<u8>>>, answers: Answers) -> Seq<Effect<Seq<u8>>> {
    ops_trace(ops, 0, answers)
}

/// What is left to do in `state`, stated over operations and sinks.
spec fn rest_trace(state: RunState, answers: Answers) -> Seq<Effect<Seq<u8>>> {
    if state.pc >= state.ops.len() {
        Seq::empty()
    } else {
        match state.ops[state.pc] {
            Op::Do(_) => ops_trace(state.ops, state.pc, answers),
            Op::Sinks { set, msg } => {
                let later = ops_trace(state.ops, state.pc + 1, answers);
                match state.phase {
                    Phase::At(i) => sinks_trace(set, msg, state.pc, i as int, answers) + later,
                    Phase::Opened(i) => {
                        let fd = descriptor(answers, state.pc, i as int);
                        let sinks = sinks_trace(set, msg, state.pc, i + 1, answers);
                        if fd >= 0 {
                            seq![Effect::Write { fd, bytes: msg }, Effect::Close { fd }] + sinks
                                + later
                        } else {
                            sinks + later
                        }
                    },
                    Phase::Wrote(i, fd) => {
                        seq![Effect::Close { fd }] + sinks_trace(
                            set,
                            msg,
                            state.pc,
                            i + 1,
                            answers,
                        ) + later
                    },
                    Phase::Asked => later,
                }
            },
            Op::IfRealAllowed { yes, no } => if state.phase == Phase::Asked {
                seq![chosen(yes, no, answers(state.pc, Phase::Asked))] + ops_trace(
                    state.ops,
                    state.pc + 1,
                    answers,
                )
            } else {
                ops_trace(state.ops, state.pc, answers)
            },
        }
    }
}

/// At the beginning of an operation all of it is left, and all after it.
proof fn lemma_rest_at_beginning(ops: Seq<Op<Seq<u8>>>, pc: int, answers: Answers)
    requires
        0 <= pc <= ops.len(),
    ensures
        rest_trace(RunState { ops, pc, phase: Phase::At(0) }, answers) == ops_trace(
            ops,
            pc,
            answers,
        ),
{
}

/// Entering an operation takes the first effect of what is left from there.
proof fn lemma_enter(ops: Seq<Op<Seq<u8>>>, pc: int, answers: Answers)
    requires
        0 <= pc <= ops.len(),
    ensures
        enter(ops, pc).0.wf(),
        match enter(ops, pc).1 {
            Some(e) => ops_trace(ops, pc, answers) == seq![e] + rest_trace(
                enter(ops, pc).0,
                answers,
            ),
            None => ops_trace(ops, pc, answers) == Seq::<Effect<Seq<u8>>>::empty(),
        },
{
    if pc < ops.len() {
        let after = enter(ops, pc).0;
        match ops[pc] {
            Op::Do(_) => {
                lemma_rest_at_beginning(ops, pc + 1, answers);
            },
            Op::Sinks { set, msg } => {
                assert(ops_trace(ops, pc, answers) =~= seq![open_sink(set, 0)] + rest_trace(
                    after,
                    answers,
                ));
            },
            Op::IfRealAllowed { .. } => {
                assert(ops_trace(ops, pc, answers) =~= seq![Effect::LoadAllowReal] + rest_trace(
                    after,
                    answers,
                ));
            },
        }
    }
}

/// Going to a sink takes the first effect of what is left from there.
proof fn lemma_enter_sink(state: RunState, i: int, answers: Answers)
    requires
        0 <= state.pc < state.ops.len(),
        state.ops[state.pc] is Sinks,
        0 <= i <= sink_total(state.ops[state.pc]->set),
    ensures
        ({
            let set = state.ops[state.pc]->set;
            let msg = state.ops[state.pc]->msg;
            let (after, effect) = enter_sink(state, set, i);
            let left = sinks_trace(set, msg, state.pc, i, answers) + ops_trace(
                state.ops,
                state.pc + 1,
                answers,
            );
            &&& after.wf()
            &&& match effect {
                Some(e) => left == seq![e] + rest_trace(after, answers),
                None => left == Seq::<Effect<Seq<u8>>>::empty(),
            }
        }),
{
    let set = state.ops[state.pc]->set;
    let msg = state.ops[state.pc]->msg;
    let (after, effect) = enter_sink(state, set, i);
    let later = ops_trace(state.ops, state.pc + 1, answers);
    let left = sinks_trace(set, msg, state.pc, i, answers) + later;
    if i < sink_total(set) {
        assert(left =~= seq![open_sink(set, i)] + rest_trace(after, answers));
    } else {
        lemma_enter(state.ops, state.pc + 1, answers);
        assert(left =~= later);
    }
}

/// Each step takes the first effect of what is left.
proof fn lemma_next(state: RunState, answers: Answers)
    requires
        state.wf(),
    ensures
        ({
            let (after, effect) = next(state, answers(state.pc, state.phase));
            &&& after.wf()
            &&& match effect {
                Some(e) => rest_trace(state, answers) == seq![e] + rest_trace(after, answers),
                None => rest_trace(state, answers) == Seq::<Effect<Seq<u8>>>::empty(),
            }
        }),
{
    let (after, effect) = next(state, answers(state.pc, state.phase));
    if state.pc < state.ops.len() {
        match state.ops[state.pc] {
            Op::Do(_) => {
                lemma_enter(state.ops, state.pc, answers);
            },
            Op::Sinks { .. } => match state.phase {
                Phase::At(i) => {
                    lemma_enter_sink(state, i as int, answers);
                },
                Phase::Opened(i) => {
                    if descriptor(answers, state.pc, i as int) >= 0 {
                        assert(rest_trace(state, answers) =~= seq![effect->0] + rest_trace(
                            after,
                            answers,
                        ));
                    } else {
                        lemma_enter_sink(state, i + 1, answers);
                    }
                },
                Phase::Wrote(_, _) => {
                    assert(rest_trace(state, answers) =~= seq![effect->0] + rest_trace(
                        after,
                        answers,
                    ));
                },
                Phase::Asked => {},
            },
            Op::IfRealAllowed { .. } => if state.phase == Phase::Asked {
                lemma_rest_at_beginning(state.ops, state.pc + 1, answers);
            } else {
                lemma_enter(state.ops, state.pc, answers);
            },
        }
    }
}

proof fn lemma_run_trace(state: RunState, answers: Answers)
    requires
        state.wf(),
    ensures
        run_trace(state, answers) == rest_trace(state, answers),
    decreases state.ops.len() - state.pc, phase_rank(state),
{
    let (after, effect) = next(state, answers(state.pc, state.phase));
    lemma_next(state, answers);
    if effect is Some {
        lemma_run_trace(after, answers);
    }
}

/// A run performs the operations of its script one after the other, and for
/// [`Op::Sinks`] tries each sink in turn, whatever results the effects give.
/// The results of all effects but the opens, and the reading of the flag in
/// [`Op::IfRealAllowed`], are without influence.
pub proof fn law_run_performs_the_script(ops: Seq<Op<Seq<u8>>>, answers: Answers)
    ensures
        run_trace(RunState { ops, pc: 0, phase: Phase::At(0) }, answers) == script_trace(
            ops,
            answers,
        ),
{
    let state = RunState { ops, pc: 0, phase: Phase::At(0) };
    lemma_run_trace(state, answers);
    lemma_rest_at_beginning(ops, 0, answers);
}

/// Whether `part` occurs in `trace` at position `at`.
pub open spec fn occurs_at(part: Seq<Effect<Seq<u8>>>, trace: Seq<Effect<Seq<u8>>>, at: int) -> bool {
    &&& 0 <= at
    &&& at + part.len() <= trace.len()
    &&& trace.subrange(at, at + part.len()) == part
}

proof fn lemma_sink_occurs(set: SinkSet, msg: Seq<u8>, pc: int, from: int, i: int, answers: Answers) -> (at: int)
    requires
        0 <= from <= i < sink_total(set),
    ensures
        occurs_at(
            one_sink(set, msg, i, descriptor(answers, pc, i)),
            sinks_trace(set, msg, pc, from, answers),
            at,
        ),
    decreases i - from,
{
    let whole = sinks_trace(set, msg, pc, from, answers);
    let head = one_sink(set, msg, from, descriptor(answers, pc, from));
    if from == i {
        assert(whole.subrange(0, head.len() as int) =~= head);
        0
    } else {
        let inner = lemma_sink_occurs(set, msg, pc, from + 1, i, answers);
        let part = one_sink(set, msg, i, descriptor(answers, pc, i));
        let rest = sinks_trace(set, msg, pc, from + 1, answers);
        let at = head.len() + inner;
        assert(whole.subrange(at, at + part.len()) =~= rest.subrange(inner, inner + part.len()));
        at
    }
}

/// The sinks are tried on a best-effort basis: no sink is left out because
/// of another, and one that opens gets the message and is closed again
/// before anything else happens.
pub proof fn law_every_sink_is_served(set: SinkSet, msg: Seq<u8>, pc: int, i: int, answers: Answers)
    requires
        0 <= i < sink_total(set),
    ensures
        exists|at: int|
            occurs_at(
                one_sink(set, msg, i, descriptor(answers, pc, i)),
                op_trace(Op::Sinks { set, msg }, pc, answers),
                at,
            ),
{
    let at = lemma_sink_occurs(set, msg, pc, 0, i, answers);
    assert(occurs_at(
        one_sink(set, msg, i, descriptor(answers, pc, i)),
        op_trace(Op::Sinks { set, msg }, pc, answers),
        at,
    ));
}

/// Where in the effects of [`Op::Sinks`] the open of the sink number `i`
/// stands: after the one effect of each sink before it that did not open, and
/// the three of each that did.
pub open spec fn open_position(pc: int, i: int, answers: Answers) -> int
    decreases i,
{
    if i <= 0 {
        0
    } else {
        open_position(pc, i - 1, answers) + (if descriptor(answers, pc, i - 1) >= 0 {
            3int
        } else {
            1int
        })
    }
}

/// Whether the effect number `k` of `trace` is one of those of the sink number
/// `i`: its open, at its place, and where that gave a descriptor, the write of
/// `msg` to that descriptor and the close of that descriptor, which come next.
pub open spec fn effect_of_sink(
    trace: Seq<Effect<Seq<u8>>>,
    k: int,
    set: SinkSet,
    msg: Seq<u8>,
    pc: int,
    i: int,
    answers: Answers,
) -> bool {
    let at = open_position(pc, i, answers);
    let fd = descriptor(answers, pc, i);
    &&& 0 <= at < trace.len()
    &&& trace[at] == open_sink(set, i)
    &&& if fd >= 0 {
        &&& at <= k <= at + 2 < trace.len()
        &&& trace[at + 1] == (Effect::Write { fd, bytes: msg })
        &&& trace[at + 2] == (Effect::<Seq<u8>>::Close { fd })
    } else {
        k == at
    }
}

/// How many effects the sinks from number `from` on come to.
proof fn lemma_sinks_len(set: SinkSet, msg: Seq<u8>, pc: int, from: int, answers: Answers)
    requires
        0 <= from <= sink_total(set),
    ensures
        open_position(pc, from, answers) + sinks_trace(set, msg, pc, from, answers).len()
            == open_position(pc, sink_total(set), answers),
    decreases sink_total(set) - from,
{
    if from < sink_total(set) {
        lemma_sinks_len(set, msg, pc, from + 1, answers);
    }
}

/// The effects of the sink number `i` stand at its place behind `before`, which
/// is what was done with the sinks before number `from`.
proof fn lemma_sink_at_its_place(
    before: Seq<Effect<Seq<u8>>>,
    set: SinkSet,
    msg: Seq<u8>,
    pc: int,
    from: int,
    i: int,
    answers: Answers,
)
    requires
        0 <= from <= i < sink_total(set),
        before.len() == open_position(pc, from, answers),
    ensures
        effect_of_sink(
            before + sinks_trace(set, msg, pc, from, answers),
            open_position(pc, i, answers),
            set,
            msg,
            pc,
            i,
            answers,
        ),
    decreases i - from,
{
    let head = one_sink(set, msg, from, descriptor(answers, pc, from));
    let rest = sinks_trace(set, msg, pc, from + 1, answers);
    let trace = before + sinks_trace(set, msg, pc, from, answers);
    assert(trace =~= (before + head) + rest);
    if from < i {
        lemma_sink_at_its_place(before + head, set, msg, pc, from + 1, i, answers);
    } else {
        let at = open_position(pc, from, answers);
        assert(trace[at] == head[0]);
        if descriptor(answers, pc, from) >= 0 {
            assert(trace[at + 1] == head[1]);
            assert(trace[at + 2] == head[2]);
        }
    }
}

/// Every position belongs to a sink.
proof fn lemma_position_of_a_sink(pc: int, k: int, total: int, answers: Answers) -> (i: int)
    requires
        0 <= k < open_position(pc, total, answers),
    ensures
        0 <= i < total,
        open_position(pc, i, answers) <= k < open_position(pc, i + 1, answers),
    decreases total,
{
    if open_position(pc, total - 1, answers) <= k {
        total - 1
    } else {
        lemma_position_of_a_sink(pc, k, total - 1, answers)
    }
}

/// No descriptor leaks. In the effects of [`Op::Sinks`] every sink is opened at
/// its place, and where that gives a descriptor, the message is written to that
/// very descriptor and that very descriptor is closed before anything else
/// happens.
pub proof fn law_sinks_are_closed(set: SinkSet, msg: Seq<u8>, pc: int, i: int, answers: Answers)
    requires
        0 <= i < sink_total(set),
    ensures
        effect_of_sink(
            op_trace(Op::Sinks { set, msg }, pc, answers),
            open_position(pc, i, answers),
            set,
            msg,
            pc,
            i,
            answers,
        ),
{
    let trace = sinks_trace(set, msg, pc, 0, answers);
    lemma_sink_at_its_place(Seq::empty(), set, msg, pc, 0, i, answers);
    assert(Seq::empty() + trace =~= trace);
}

/// Nothing but that is opened, written or closed: every effect of
/// [`Op::Sinks`] is one of those of some sink.
pub proof fn law_sinks_touch_nothing_else(
    set: SinkSet,
    msg: Seq<u8>,
    pc: int,
    k: int,
    answers: Answers,
)
    requires
        0 <= k < op_trace(Op::Sinks { set, msg }, pc, answers).len(),
    ensures
        exists|i: int|
            0 <= i < sink_total(set) && #[trigger] effect_of_sink(
                op_trace(Op::Sinks { set, msg }, pc, answers),
                k,
                set,
                msg,
                pc,
                i,
                answers,
            ),
{
    lemma_sinks_len(set, msg, pc, 0, answers);
    let i = lemma_position_of_a_sink(pc, k, sink_total(set), answers);
    law_sinks_are_closed(set, msg, pc, i, answers);
    assert(effect_of_sink(
        op_trace(Op::Sinks { set, msg }, pc, answers),
        k,
        set,
        msg,
        pc,
        i,
        answers,
    ));
}

/// Every sink path ends in its only zero byte, as a C string does.
pub proof fn law_sink_paths_are_c_strings(set: SinkSet, i: int)
    requires
        0 <= i < sink_total(set),
    ensures
        sink_paths(set)[i].len() > 0,
        sink_paths(set)[i].last() == 0,
        forall|k: int| 0 <= k < sink_paths(set)[i].len() - 1 ==> sink_paths(set)[i][k] != 0,
{
    reveal_strlit("/dev/console\0");
    reveal_strlit("/dev/kmsg\0");
    reveal_strlit("/dev/ttyS0\0");
    reveal_strlit("/dev/ttyS1\0");
    reveal_strlit("/dev/hvc0\0");
    reveal_strlit("/dev/hvc1\0");
    reveal_strlit("/proc/kmsg\0");
    reveal_strlit("/proc/self/fd/1\0");
    reveal_strlit("/proc/self/fd/2\0");
}

proof fn lemma_tail(ops: Seq<Op<Seq<u8>>>, pc: int, from: int, answers: Answers)
    requires
        0 <= pc <= from <= ops.len(),
        forall|k: int| from <= k < ops.len() ==> #[trigger] ops[k] is Do,
    ensures
        ({
            let trace = ops_trace(ops, pc, answers);
            &&& trace.len() >= ops.len() - from
            &&& pc == from ==> trace.len() == ops.len() - from
            &&& forall|k: int|
                from <= k < ops.len() ==> trace[trace.len() - ops.len() + k] == (
                #[trigger] ops[k])->Do_0
        }),
    decreases ops.len() - pc,
{
    if pc < ops.len() {
        let trace = ops_trace(ops, pc, answers);
        let rest = ops_trace(ops, pc + 1, answers);
        let head = op_trace(ops[pc], pc, answers);
        if pc < from {
            lemma_tail(ops, pc + 1, from, answers);
            assert forall|k: int| from <= k < ops.len() implies trace[trace.len() - ops.len() + k]
                == (#[trigger] ops[k])->Do_0 by {
                assert(trace[trace.len() - ops.len() + k] == rest[rest.len() - ops.len() + k]);
            }
        } else {
            lemma_tail(ops, pc + 1, pc + 1, answers);
            assert(ops[pc] is Do);
            assert forall|k: int| from <= k < ops.len() implies trace[trace.len() - ops.len() + k]
                == (#[trigger] ops[k])->Do_0 by {
                if k > pc {
                    assert(trace[trace.len() - ops.len() + k] == rest[rest.len() - ops.len() + k]);
                }
            }
        }
    }
}

proof fn lemma_lead(ops: Seq<Op<Seq<u8>>>, pc: int, to: int, answers: Answers)
    requires
        0 <= pc <= to <= ops.len(),
        forall|k: int| pc <= k < to ==> #[trigger] ops[k] is Do,
    ensures
        ops_trace(ops, pc, answers).len() >= to - pc,
        forall|k: int|
            pc <= k < to ==> ops_trace(ops, pc, answers)[k - pc] == (#[trigger] ops[k])->Do_0,
    decreases to - pc,
{
    if pc < to {
        let rest = ops_trace(ops, pc + 1, answers);
        assert(ops[pc] is Do);
        lemma_lead(ops, pc + 1, to, answers);
        assert forall|k: int| pc <= k < to implies ops_trace(ops, pc, answers)[k - pc] == (
        #[trigger] ops[k])->Do_0 by {
            if k > pc {
                assert(ops_trace(ops, pc, answers)[k - pc] == rest[k - (pc + 1)]);
            }
        }
    }
}

/// The single effects with which a script begins, the first `lead` ones, begin
/// every run of it; those with which it ends, the last `tail` ones, end every
/// run of it. No result has a say in that.
pub proof fn law_outer_effects_are_fixed(
    ops: Seq<Op<Seq<u8>>>,
    lead: int,
    tail: int,
    answers: Answers,
)
    requires
        0 <= lead <= ops.len(),
        0 <= tail <= ops.len(),
        forall|k: int| 0 <= k < lead ==> #[trigger] ops[k] is Do,
        forall|k: int| ops.len() - tail <= k < ops.len() ==> #[trigger] ops[k] is Do,
    ensures
        script_trace(ops, answers).len() >= lead,
        script_trace(ops, answers).len() >= tail,
        forall|k: int|
            0 <= k < lead ==> script_trace(ops, answers)[k] == (#[trigger] ops[k])->Do_0,
        forall|k: int|
            ops.len() - tail <= k < ops.len() ==> script_trace(ops, answers)[script_trace(
                ops,
                answers,
            ).len() - ops.len() + k] == (#[trigger] ops[k])->Do_0,
{
    lemma_lead(ops, 0, lead, answers);
    lemma_tail(ops, 0, ops.len() - tail, answers);
}

proof fn lemma_last_operation(ops: Seq<Op<Seq<u8>>>, pc: int, answers: Answers)
    requires
        0 <= pc < ops.len(),
    ensures
        ends_with(
            ops_trace(ops, pc, answers),
            op_trace(ops.last(), ops.len() - 1, answers),
        ),
    decreases ops.len() - pc,
{
    let trace = ops_trace(ops, pc, answers);
    let last = op_trace(ops.last(), ops.len() - 1, answers);
    if pc + 1 < ops.len() {
        let rest = ops_trace(ops, pc + 1, answers);
        lemma_last_operation(ops, pc + 1, answers);
        assert(trace.skip(trace.len() - last.len()) =~= rest.skip(rest.len() - last.len()));
    } else {
        assert(ops_trace(ops, pc + 1, answers) =~= Seq::empty());
        assert(trace.skip(trace.len() - last.len()) =~= last);
    }
}

/// Whether `trace` ends with `part`.
pub open spec fn ends_with(trace: Seq<Effect<Seq<u8>>>, part: Seq<Effect<Seq<u8>>>) -> bool {
    &&& part.len() <= trace.len()
    &&& trace.skip(trace.len() - part.len()) == part
}

/// Every run of a script ends with what its last operation amounts to.
pub proof fn law_last_operation_ends_the_run(ops: Seq<Op<Seq<u8>>>, answers: Answers)
    requires
        ops.len() > 0,
    ensures
        ends_with(script_trace(ops, answers), op_trace(ops.last(), ops.len() - 1, answers)),
{
    lemma_last_operation(ops, 0, answers);
}

/// Whether nothing but `msg` is written in `trace`.
pub open spec fn all_writes_say(trace: Seq<Effect<Seq<u8>>>, msg: Seq<u8>) -> bool {
    forall|k: int|
        0 <= k < trace.len() ==> (#[trigger] trace[k] matches Effect::Write { bytes, .. } ==> bytes
            == msg)
}

/// Whether nothing is done in `trace` but to open, write and close.
pub open spec fn only_logs(trace: Seq<Effect<Seq<u8>>>) -> bool {
    forall|k: int|
        0 <= k < trace.len() ==> (#[trigger] trace[k] is Open || trace[k] is Write || trace[k] is Close)
}

/// Whether an operation writes nothing but `msg`.
pub open spec fn says_only(op: Op<Seq<u8>>, msg: Seq<u8>) -> bool {
    match op {
        Op::Do(effect) => effect matches Effect::Write { bytes, .. } ==> bytes == msg,
        Op::Sinks { msg: text, .. } => text == msg,
        Op::IfRealAllowed { yes, no } => !(yes is Write) && !(no is Write),
    }
}

pub(crate) proof fn lemma_sinks_say(set: SinkSet, msg: Seq<u8>, pc: int, i: int, answers: Answers)
    ensures
        all_writes_say(sinks_trace(set, msg, pc, i, answers), msg),
        only_logs(sinks_trace(set, msg, pc, i, answers)),
    decreases sink_total(set) - i,
{
    if i < sink_total(set) {
        let head = one_sink(set, msg, i, descriptor(answers, pc, i));
        let rest = sinks_trace(set, msg, pc, i + 1, answers);
        lemma_sinks_say(set, msg, pc, i + 1, answers);
        assert forall|k: int| 0 <= k < (head + rest).len() implies (#[trigger] (head
            + rest)[k] matches Effect::Write { bytes, .. } ==> bytes == msg) && ((head
            + rest)[k] is Open || (head + rest)[k] is Write || (head + rest)[k] is Close) by {
            if k >= head.len() {
                assert((head + rest)[k] == rest[k - head.len()]);
            }
        }
    }
}

pub(crate) proof fn lemma_all_writes_say(
    ops: Seq<Op<Seq<u8>>>,
    pc: int,
    msg: Seq<u8>,
    answers: Answers,
)
    requires
        0 <= pc <= ops.len(),
        forall|k: int| pc <= k < ops.len() ==> says_only(#[trigger] ops[k], msg),
    ensures
        all_writes_say(ops_trace(ops, pc, answers), msg),
    decreases ops.len() - pc,
{
    if pc < ops.len() {
        let head = op_trace(ops[pc], pc, answers);
        let rest = ops_trace(ops, pc + 1, answers);
        assert(says_only(ops[pc], msg));
        lemma_all_writes_say(ops, pc + 1, msg, answers);
        match ops[pc] {
            Op::Sinks { set, msg: text } => {
                lemma_sinks_say(set, text, pc, 0, answers);
            },
            _ => {},
        }
        assert forall|k: int| 0 <= k < (head + rest).len() implies (#[trigger] (head
            + rest)[k] matches Effect::Write { bytes, .. } ==> bytes == msg) by {
            if k >= head.len() {
                assert((head + rest)[k] == rest[k - head.len()]);
            }
        }
    }
}

/// Where each operation writes one of two messages, the run writes no other.
pub(crate) proof fn lemma_writes_say_either(
    ops: Seq<Op<Seq<u8>>>,
    pc: int,
    first: Seq<u8>,
    second: Seq<u8>,
    answers: Answers,
)
    requires
        0 <= pc <= ops.len(),
        forall|k: int|
            pc <= k < ops.len() ==> (says_only(#[trigger] ops[k], first) || says_only(
                ops[k],
                second,
            )),
    ensures
        forall|k: int|
            0 <= k < ops_trace(ops, pc, answers).len() ==> (#[trigger] ops_trace(
                ops,
                pc,
                answers,
            )[k] matches Effect::Write { bytes, .. } ==> bytes == first || bytes == second),
    decreases ops.len() - pc,
{
    if pc < ops.len() {
        let head = op_trace(ops[pc], pc, answers);
        let rest = ops_trace(ops, pc + 1, answers);
        assert(says_only(ops[pc], first) || says_only(ops[pc], second));
        lemma_writes_say_either(ops, pc + 1, first, second, answers);
        match ops[pc] {
            Op::Sinks { set, msg: text } => {
                lemma_sinks_say(set, text, pc, 0, answers);
            },
            _ => {},
        }
        assert forall|k: int| 0 <= k < (head + rest).len() implies (#[trigger] (head
            + rest)[k] matches Effect::Write { bytes, .. } ==> bytes == first || bytes == second) by {
            if k >= head.len() {
                assert((head + rest)[k] == rest[k - head.len()]);
            }
        }
    }
}

pub(crate) proof fn lemma_only_logs(ops: Seq<Op<Seq<u8>>>, pc: int, answers: Answers)
    requires
        0 <= pc <= ops.len(),
        forall|k: int|
            pc <= k < ops.len() ==> (#[trigger] ops[k] is Sinks || (ops[k] is Do
                && ops[k]->Do_0 is Write)),
    ensures
        only_logs(ops_trace(ops, pc, answers)),
    decreases ops.len() - pc,
{
    if pc < ops.len() {
        let head = op_trace(ops[pc], pc, answers);
        let rest = ops_trace(ops, pc + 1, answers);
        assert(ops[pc] is Sinks || (ops[pc] is Do && ops[pc]->Do_0 is Write));
        lemma_only_logs(ops, pc + 1, answers);
        match ops[pc] {
            Op::Sinks { set, msg } => {
                lemma_sinks_say(set, msg, pc, 0, answers);
            },
            _ => {},
        }
        assert forall|k: int| 0 <= k < (head + rest).len() implies (#[trigger] (head
            + rest)[k] is Open || (head + rest)[k] is Write || (head + rest)[k] is Close) by {
            if k >= head.len() {
                assert((head + rest)[k] == rest[k - head.len()]);
            }
        }
    }
}

/// A script that begins with logging alone, up to the operation `n`, logs and
/// then does what is left.
pub(crate) proof fn lemma_log_then(ops: Seq<Op<Seq<u8>>>, pc: int, n: int, answers: Answers) -> (logs:
    Seq<Effect<Seq<u8>>>)
    requires
        0 <= pc <= n <= ops.len(),
        forall|k: int|
            pc <= k < n ==> (#[trigger] ops[k] is Sinks || (ops[k] is Do
                && ops[k]->Do_0 is Write)),
    ensures
        only_logs(logs),
        ops_trace(ops, pc, answers) == logs + ops_trace(ops, n, answers),
    decreases n - pc,
{
    if pc < n {
        let head = op_trace(ops[pc], pc, answers);
        assert(ops[pc] is Sinks || (ops[pc] is Do && ops[pc]->Do_0 is Write));
        match ops[pc] {
            Op::Sinks { set, msg } => {
                lemma_sinks_say(set, msg, pc, 0, answers);
            },
            _ => {},
        }
        let later = lemma_log_then(ops, pc + 1, n, answers);
        let logs = head + later;
        assert forall|k: int| 0 <= k < logs.len() implies (#[trigger] logs[k] is Open
            || logs[k] is Write || logs[k] is Close) by {
            if k >= head.len() {
                assert(logs[k] == later[k - head.len()]);
            }
        }
        assert(ops_trace(ops, pc, answers) =~= logs + ops_trace(ops, n, answers));
        logs
    } else {
        assert(ops_trace(ops, pc, answers) =~= Seq::empty() + ops_trace(ops, n, answers));
        Seq::empty()
    }
}

/// What one operation does, the run does.
pub(crate) proof fn lemma_op_in_run(
    ops: Seq<Op<Seq<u8>>>,
    pc: int,
    k: int,
    at: int,
    answers: Answers,
)
    requires
        0 <= pc <= k < ops.len(),
        0 <= at < op_trace(ops[k], k, answers).len(),
    ensures
        ops_trace(ops, pc, answers).contains(op_trace(ops[k], k, answers)[at]),
    decreases k - pc,
{
    let head = op_trace(ops[pc], pc, answers);
    let rest = ops_trace(ops, pc + 1, answers);
    let effect = op_trace(ops[k], k, answers)[at];
    if pc == k {
        assert((head + rest)[at] == effect);
    } else {
        lemma_op_in_run(ops, pc + 1, k, at, answers);
        let i = choose|i: int| 0 <= i < rest.len() && rest[i] == effect;
        assert((head + rest)[head.len() + i] == effect);
    }
}

/// Whether in `trace` each of the eight sinks of the log is tried, and each that
/// opens gets `msg` and is closed. The descriptors are those that the opens of
/// the operation `pc` gave.
pub open spec fn reaches_log_sinks(
    trace: Seq<Effect<Seq<u8>>>,
    msg: Seq<u8>,
    pc: int,
    answers: Answers,
) -> bool {
    &&& trace.contains(Effect::Open { path: ascii("/dev/console\0"@), flags: 0x80001 })
    &&& trace.contains(Effect::Open { path: ascii("/dev/kmsg\0"@), flags: 0x80001 })
    &&& trace.contains(Effect::Open { path: ascii("/dev/ttyS0\0"@), flags: 0x80001 })
    &&& trace.contains(Effect::Open { path: ascii("/dev/ttyS1\0"@), flags: 0x80001 })
    &&& trace.contains(Effect::Open { path: ascii("/dev/hvc0\0"@), flags: 0x80001 })
    &&& trace.contains(Effect::Open { path: ascii("/proc/kmsg\0"@), flags: 0x80001 })
    &&& trace.contains(Effect::Open { path: ascii("/proc/self/fd/1\0"@), flags: 0x80001 })
    &&& trace.contains(Effect::Open { path: ascii("/proc/self/fd/2\0"@), flags: 0x80001 })
    &&& forall|i: usize|
        i < 8 && #[trigger] answers(pc, Phase::Opened(i)) >= 0 ==> {
            let fd = answers(pc, Phase::Opened(i));
            trace.contains(Effect::Write { fd, bytes: msg }) && trace.contains(Effect::Close { fd })
        }
}

proof fn lemma_sink_in_run(ops: Seq<Op<Seq<u8>>>, k: int, i: int, answers: Answers)
    requires
        0 <= k < ops.len(),
        ops[k] is Sinks,
        0 <= i < sink_total(ops[k]->set),
    ensures
        ({
            let trace = script_trace(ops, answers);
            let fd = descriptor(answers, k, i);
            &&& trace.contains(open_sink(ops[k]->set, i))
            &&& fd >= 0 ==> trace.contains(Effect::Write { fd, bytes: ops[k]->msg })
                && trace.contains(Effect::Close { fd })
        }),
{
    let at = open_position(k, i, answers);
    let fd = descriptor(answers, k, i);
    law_sinks_are_closed(ops[k]->set, ops[k]->msg, k, i, answers);
    lemma_op_in_run(ops, 0, k, at, answers);
    if fd >= 0 {
        lemma_op_in_run(ops, 0, k, at + 1, answers);
        lemma_op_in_run(ops, 0, k, at + 2, answers);
    }
}

/// An operation that writes to the sinks of the log tries all eight of them, by
/// their paths, and serves each that opens.
pub proof fn law_log_sinks_are_reached(
    ops: Seq<Op<Seq<u8>>>,
    k: int,
    msg: Seq<u8>,
    answers: Answers,
)
    requires
        0 <= k < ops.len(),
        ops[k] == (Op::Sinks { set: SinkSet::Log, msg }),
    ensures
        reaches_log_sinks(script_trace(ops, answers), msg, k, answers),
{
    lemma_sink_in_run(ops, k, 0, answers);
    lemma_sink_in_run(ops, k, 1, answers);
    lemma_sink_in_run(ops, k, 2, answers);
    lemma_sink_in_run(ops, k, 3, answers);
    lemma_sink_in_run(ops, k, 4, answers);
    lemma_sink_in_run(ops, k, 5, answers);
    lemma_sink_in_run(ops, k, 6, answers);
    lemma_sink_in_run(ops, k, 7, answers);
    let trace = script_trace(ops, answers);
    assert forall|i: usize|
        i < 8 && #[trigger] answers(k, Phase::Opened(i)) >= 0 implies trace.contains(
        Effect::Write { fd: answers(k, Phase::Opened(i)), bytes: msg },
    ) && trace.contains(Effect::Close { fd: answers(k, Phase::Opened(i)) }) by {
        lemma_sink_in_run(ops, k, i as int, answers);
    }
}

/// An operation that writes to the sinks of the entry point tries all four of
/// them, by their paths, and serves each that opens.
pub proof fn law_entry_sinks_are_reached(
    ops: Seq<Op<Seq<u8>>>,
    k: int,
    msg: Seq<u8>,
    answers: Answers,
)
    requires
        0 <= k < ops.len(),
        ops[k] == (Op::Sinks { set: SinkSet::Entry, msg }),
    ensures
        ({
            let trace = script_trace(ops, answers);
            &&& trace.contains(Effect::Open { path: ascii("/proc/kmsg\0"@), flags: 0x80001 })
            &&& trace.contains(Effect::Open { path: ascii("/dev/console\0"@), flags: 0x80001 })
            &&& trace.contains(Effect::Open { path: ascii("/dev/hvc0\0"@), flags: 0x80001 })
            &&& trace.contains(Effect::Open { path: ascii("/dev/hvc1\0"@), flags: 0x80001 })
            &&& forall|i: usize|
                i < 4 && #[trigger] answers(k, Phase::Opened(i)) >= 0 ==> {
                    let fd = answers(k, Phase::Opened(i));
                    trace.contains(Effect::Write { fd, bytes: msg }) && trace.contains(
                        Effect::Close { fd },
                    )
                }
        }),
{
    lemma_sink_in_run(ops, k, 0, answers);
    lemma_sink_in_run(ops, k, 1, answers);
    lemma_sink_in_run(ops, k, 2, answers);
    lemma_sink_in_run(ops, k, 3, answers);
    let trace = script_trace(ops, answers);
    assert forall|i: usize|
        i < 4 && #[trigger] answers(k, Phase::Opened(i)) >= 0 implies trace.contains(
        Effect::Write { fd: answers(k, Phase::Opened(i)), bytes: msg },
    ) && trace.contains(Effect::Close { fd: answers(k, Phase::Opened(i)) }) by {
        lemma_sink_in_run(ops, k, i as int, answers);
    }
}

/// At the end of its script a run gives nothing more, whatever is handed to it.
pub proof fn law_a_run_ends(state: RunState, result: i64)
    requires
        state.pc == state.ops.len(),
    ensures
        next(state, result) == (state, None::<Effect<Seq<u8>>>),
{
}

/// A single effect is given as it is, and the run goes on behind it, whatever
/// the result of the effect before.
pub proof fn law_a_single_effect_is_given(state: RunState, effect: Effect<Seq<u8>>, result: i64)
    requires
        state.wf(),
        state.pc < state.ops.len(),
        state.ops[state.pc] == Op::Do(effect),
    ensures
        next(state, result).1 == Some(effect),
        next(state, result).0 == (RunState {
            ops: state.ops,
            pc: state.pc + 1,
            phase: Phase::At(0),
        }),
{
}

/// A sink that opened, with a result of 0 or more, is written to under exactly
/// that descriptor and then closed under exactly that descriptor, whatever the
/// write gives.
pub proof fn law_an_open_sink_is_written_and_closed(
    state: RunState,
    set: SinkSet,
    msg: Seq<u8>,
    i: usize,
    fd: i64,
    written: i64,
)
    requires
        state.wf(),
        state.pc < state.ops.len(),
        state.ops[state.pc] == (Op::Sinks { set, msg }),
        state.phase == Phase::Opened(i),
        fd >= 0,
    ensures
        next(state, fd).1 == Some(Effect::Write { fd, bytes: msg }),
        next(next(state, fd).0, written).1 == Some(Effect::<Seq<u8>>::Close { fd }),
        next(next(state, fd).0, written).0 == (RunState {
            phase: Phase::At((i + 1) as usize),
            ..state
        }),
{
}

/// After a sink that did not open, with a negative result, and after one that
/// was closed, the next is opened. After the last one the run goes on as one
/// does that is at the beginning of the operation behind the sinks.
pub proof fn law_the_next_sink_is_opened(
    state: RunState,
    set: SinkSet,
    msg: Seq<u8>,
    i: usize,
    result: i64,
)
    requires
        state.wf(),
        state.pc < state.ops.len(),
        state.ops[state.pc] == (Op::Sinks { set, msg }),
        (state.phase == Phase::Opened(i) && result < 0) || state.phase == Phase::At((i + 1) as usize),
        i < sink_paths(set).len(),
    ensures
        i + 1 < sink_paths(set).len() ==> next(state, result) == (
            RunState { phase: Phase::Opened((i + 1) as usize), ..state },
            Some(Effect::Open { path: sink_paths(set)[i + 1], flags: 0x80001 }),
        ),
        i + 1 == sink_paths(set).len() ==> next(state, result) == next(
            RunState { ops: state.ops, pc: state.pc + 1, phase: Phase::At(0) },
            result,
        ),
{
}

/// An operation on sinks begins by opening the first one.
pub proof fn law_the_first_sink_is_opened(
    state: RunState,
    set: SinkSet,
    msg: Seq<u8>,
    result: i64,
)
    requires
        state.wf(),
        state.pc < state.ops.len(),
        state.ops[state.pc] == (Op::Sinks { set, msg }),
        state.phase == Phase::At(0),
    ensures
        next(state, result) == (
            RunState { phase: Phase::Opened(0), ..state },
            Some(Effect::Open { path: sink_paths(set)[0], flags: 0x80001 }),
        ),
{
}

/// Where it is asked whether the C library may be asked, the answer decides: 0
/// is no, and everything else is yes.
pub proof fn law_the_answer_decides(
    state: RunState,
    yes: Effect<Seq<u8>>,
    no: Effect<Seq<u8>>,
    before: i64,
    answer: i64,
)
    requires
        state.wf(),
        state.pc < state.ops.len(),
        state.ops[state.pc] == (Op::IfRealAllowed { yes, no }),
        state.phase == Phase::At(0),
    ensures
        next(state, before).1 == Some(Effect::<Seq<u8>>::LoadAllowReal),
        answer == 0 ==> next(next(state, before).0, answer).1 == Some(no),
        answer != 0 ==> next(next(state, before).0, answer).1 == Some(yes),
        next(next(state, before).0, answer).0 == (RunState {
            ops: state.ops,
            pc: state.pc + 1,
            phase: Phase::At(0),
        }),
{
}

/// The sinks by their paths, in the order in which they are tried: eight for the
/// log and four for the entry point.
pub proof fn law_sinks_by_path(set: SinkSet, i: int)
    requires
        0 <= i < sink_paths(set).len(),
    ensures
        sink_paths(SinkSet::Log).len() == 8,
        sink_paths(SinkSet::Entry).len() == 4,
        sink_paths(set)[i] == match set {
            SinkSet::Log => if i == 0 {
                ascii("/dev/console\0"@)
            } else if i == 1 {
                ascii("/dev/kmsg\0"@)
            } else if i == 2 {
                ascii("/dev/ttyS0\0"@)
            } else if i == 3 {
                ascii("/dev/ttyS1\0"@)
            } else if i == 4 {
                ascii("/dev/hvc0\0"@)
            } else if i == 5 {
                ascii("/proc/kmsg\0"@)
            } else if i == 6 {
                ascii("/proc/self/fd/1\0"@)
            } else {
                ascii("/proc/self/fd/2\0"@)
            },
            SinkSet::Entry => if i == 0 {
                ascii("/proc/kmsg\0"@)
            } else if i == 1 {
                ascii("/dev/console\0"@)
            } else if i == 2 {
                ascii("/dev/hvc0\0"@)
            } else {
                ascii("/dev/hvc1\0"@)
            },
        },
{
}

/// What is proved of effects by their views is true of the effects: the view of
/// an effect is that effect, with its bytes.
pub proof fn law_effects_are_what_they_show(
    fd: i64,
    bytes: &[u8],
    flags: i64,
    signum: i32,
    sa_flags: i32,
    sa_mask: u64,
)
    ensures
        (Effect::<&[u8]>::Write { fd, bytes })@ == (Effect::Write { fd, bytes: bytes@ }),
        (Effect::<&[u8]>::Open { path: bytes, flags })@ == (Effect::Open { path: bytes@, flags }),
        (Effect::<&[u8]>::Close { fd })@ == (Effect::<Seq<u8>>::Close { fd }),
        (Effect::<&[u8]>::Sigaction { signum, sa_flags, sa_mask })@ == (Effect::<
            Seq<u8>,
        >::Sigaction { signum, sa_flags, sa_mask }),
        (Effect::<&[u8]>::Exit { code: signum })@ == (Effect::<Seq<u8>>::Exit { code: signum }),
        (Effect::<&[u8]>::StartMain)@ == (Effect::<Seq<u8>>::StartMain),
        (Effect::<&[u8]>::LoadAllowReal)@ == (Effect::<Seq<u8>>::LoadAllowReal),
        (Effect::<&[u8]>::RealSysconf { name: signum })@ == (Effect::<Seq<u8>>::RealSysconf {
            name: signum,
        }),
        (Effect::<&[u8]>::Return { value: fd })@ == (Effect::<Seq<u8>>::Return { value: fd }),
        (Effect::<&[u8]>::RealAbort)@ == (Effect::<Seq<u8>>::RealAbort),
{
}

/// The view of an operation is that operation, with its bytes.
pub proof fn law_operations_are_what_they_show(
    yes: Effect<&[u8]>,
    no: Effect<&[u8]>,
    set: SinkSet,
    msg: &[u8],
)
    ensures
        (Op::Do(yes))@ == Op::Do(yes@),
        (Op::<&[u8]>::Sinks { set, msg })@ == (Op::Sinks { set, msg: msg@ }),
        (Op::IfRealAllowed { yes, no })@ == (Op::IfRealAllowed { yes: yes@, no: no@ }),
{
}

} // verus!
