use nvrc::abi::{raw_close, raw_openat, raw_write};
use nvrc::early_log::{early_boot_log, early_boot_log_num, raw_write_to_optional_sinks};
use nvrc::number_line::{number_line, NumberLine};
use nvrc::script::{
    sink_count, sink_path, system_call, Effect, Run, Script, SinkSet, SINK_FLAGS,
};
use nvrc::start::{nvrc_start, sysconf_stub, wrap_abort, wrap_libc_start_main, wrap_sysconf};

/// Runs a script, answering each open, and each reading of the flag, with the
/// next of `opens`.
fn run<'a>(script: Script<'a>, opens: &[i64]) -> Vec<Effect<&'a [u8]>> {
    let mut run = Run::new(script);
    let mut effects = Vec::new();
    let mut opens = opens.iter();
    let mut result = -1;
    while let Some(effect) = run.step(result) {
        result = match effect {
            Effect::Open { .. } | Effect::LoadAllowReal => *opens.next().unwrap(),
            // Results of other effects must not matter.
            _ => (effects.len() as i64) - 3,
        };
        effects.push(effect);
    }
    assert!(run.step(0).is_none());
    effects
}

fn open(path: &'static [u8]) -> Effect<&'static [u8]> {
    Effect::Open { path, flags: 0x80001 }
}

fn log_sinks() -> [&'static [u8]; 8] {
    [
        b"/dev/console\0",
        b"/dev/kmsg\0",
        b"/dev/ttyS0\0",
        b"/dev/ttyS1\0",
        b"/dev/hvc0\0",
        b"/proc/kmsg\0",
        b"/proc/self/fd/1\0",
        b"/proc/self/fd/2\0",
    ]
}

#[test]
fn sinks_have_the_paths_of_the_consoles() {
    assert_eq!(sink_count(SinkSet::Log), 8);
    for (i, path) in log_sinks().iter().enumerate() {
        assert_eq!(sink_path(SinkSet::Log, i), *path);
        assert_eq!(path.iter().filter(|b| **b == 0).count(), 1);
    }
    assert_eq!(sink_count(SinkSet::Entry), 4);
    assert_eq!(sink_path(SinkSet::Entry, 0), b"/proc/kmsg\0");
    assert_eq!(sink_path(SinkSet::Entry, 1), b"/dev/console\0");
    assert_eq!(sink_path(SinkSet::Entry, 2), b"/dev/hvc0\0");
    assert_eq!(sink_path(SinkSet::Entry, 3), b"/dev/hvc1\0");
}

#[test]
fn sink_flags_are_those_of_libc() {
    assert_eq!(SINK_FLAGS, (libc::O_WRONLY | libc::O_CLOEXEC) as i64);
}

#[test]
fn sinks_that_do_not_open_are_passed_over() {
    let effects = run(raw_write_to_optional_sinks(b"hello\n"), &[-2; 8]);
    let expected: Vec<_> = log_sinks().iter().map(|path| open(path)).collect();
    assert_eq!(effects, expected);
}

#[test]
fn sinks_that_open_are_written_and_closed() {
    let effects = run(raw_write_to_optional_sinks(b"hello\n"), &[3, -2, 0, -13, -1, -1, 7, 9]);
    let msg: &[u8] = b"hello\n";
    let sinks = log_sinks();
    assert_eq!(
        effects,
        vec![
            open(sinks[0]),
            Effect::Write { fd: 3, bytes: msg },
            Effect::Close { fd: 3 },
            open(sinks[1]),
            open(sinks[2]),
            Effect::Write { fd: 0, bytes: msg },
            Effect::Close { fd: 0 },
            open(sinks[3]),
            open(sinks[4]),
            open(sinks[5]),
            open(sinks[6]),
            Effect::Write { fd: 7, bytes: msg },
            Effect::Close { fd: 7 },
            open(sinks[7]),
            Effect::Write { fd: 9, bytes: msg },
            Effect::Close { fd: 9 },
        ]
    );
}

#[test]
fn early_log_writes_stdout_then_stderr_then_sinks() {
    let effects = run(early_boot_log(b"x\n"), &[-1, -1, -1, -1, 5, -1, -1, -1]);
    let msg: &[u8] = b"x\n";
    assert_eq!(effects.len(), 2 + 8 + 2);
    assert_eq!(effects[0], Effect::Write { fd: libc::STDOUT_FILENO as i64, bytes: msg });
    assert_eq!(effects[1], Effect::Write { fd: libc::STDERR_FILENO as i64, bytes: msg });
    assert_eq!(effects[2], open(b"/dev/console\0"));
    assert_eq!(effects[6], open(b"/dev/hvc0\0"));
    assert_eq!(effects[7], Effect::Write { fd: 5, bytes: msg });
    assert_eq!(effects[8], Effect::Close { fd: 5 });
}

#[test]
fn number_lines_are_decimal() {
    assert_eq!(number_line(b"n ", 0).bytes(), b"n 0\n");
    assert_eq!(number_line(b"n ", 7).bytes(), b"n 7\n");
    assert_eq!(number_line(b"n ", 10).bytes(), b"n 10\n");
    assert_eq!(number_line(b"n ", 1234567890).bytes(), b"n 1234567890\n");
    assert_eq!(number_line(b"", -1).bytes(), b"-1\n");
    assert_eq!(number_line(b"", -305).bytes(), b"-305\n");
    assert_eq!(number_line(b"", i64::MAX).bytes(), b"9223372036854775807\n");
    assert_eq!(number_line(b"", i64::MIN + 1).bytes(), b"-9223372036854775807\n");
    assert_eq!(number_line(b"", i64::MIN).bytes(), b"-9223372036854775808\n");
}

#[test]
fn number_lines_read_back() {
    for num in [0, 9, 10, 99, 100, -1, -10, 4096, i64::MAX, i64::MIN] {
        let line = number_line(b"", num);
        let text = std::str::from_utf8(line.bytes()).unwrap();
        assert_eq!(text.trim_end().parse::<i64>(), Ok(num));
    }
}

#[test]
fn number_lines_are_cut_off_at_64_bytes() {
    let prefix = [b'p'; 70];
    assert_eq!(number_line(&prefix, 5).bytes(), &prefix[..64]);
    assert_eq!(number_line(&prefix[..64], 5).bytes(), &prefix[..64]);

    let mut expected = prefix[..63].to_vec();
    expected.push(b'5');
    assert_eq!(number_line(&prefix[..63], 5).bytes(), &expected[..]);
    expected[63] = b'-';
    assert_eq!(number_line(&prefix[..63], -5).bytes(), &expected[..]);

    let mut expected = prefix[..61].to_vec();
    expected.extend_from_slice(b"123");
    assert_eq!(number_line(&prefix[..61], 12345).bytes(), &expected[..]);
}

#[test]
fn number_lines_are_whole_after_short_prefixes() {
    let prefix = [b'p'; 43];
    let line = number_line(&prefix, i64::MIN);
    assert_eq!(line.bytes().len(), 64);
    assert_eq!(line.bytes().last(), Some(&b'\n'));
}

#[test]
fn early_log_num_replaces_the_line() {
    let mut line = number_line(b"stale ", 99);
    let effects = run(early_boot_log_num(&mut line, b"fresh ", -3), &[-1; 8]);
    assert_eq!(effects[0], Effect::Write { fd: 1, bytes: &b"fresh -3\n"[..] });
    assert_eq!(effects[1], Effect::Write { fd: 2, bytes: &b"fresh -3\n"[..] });
    assert_eq!(effects.len(), 10);
    assert_eq!(line.bytes(), b"fresh -3\n");
}

#[test]
fn raw_calls_fill_the_registers() {
    let regs = raw_write(2, b"abc");
    assert_eq!((regs.rax, regs.rdi, regs.rsi, regs.rdx, regs.r10), (1, 2, &b"abc"[..], 3, 0));
    assert_eq!(regs.rax, libc::SYS_write);
    let regs = raw_openat(b"/x\0", 0x80001);
    assert_eq!(
        (regs.rax, regs.rdi, regs.rsi, regs.rdx, regs.r10),
        (257, -100, &b"/x\0"[..], 0x80001, 0)
    );
    assert_eq!((regs.rax, regs.rdi), (libc::SYS_openat, libc::AT_FDCWD as i64));
    let regs = raw_close(9);
    assert_eq!((regs.rax, regs.rdi, regs.rsi, regs.rdx, regs.r10), (3, 9, &b""[..], 0, 0));
    assert_eq!(regs.rax, libc::SYS_close);
}

#[test]
fn effects_are_performed_by_their_system_calls() {
    let regs = system_call(Effect::Write { fd: 5, bytes: &b"hi"[..] }).unwrap();
    assert_eq!((regs.rax, regs.rdi, regs.rsi, regs.rdx, regs.r10), (1, 5, &b"hi"[..], 2, 0));
    let regs = system_call(open(b"/dev/kmsg\0")).unwrap();
    assert_eq!(
        (regs.rax, regs.rdi, regs.rsi, regs.rdx, regs.r10),
        (257, -100, &b"/dev/kmsg\0"[..], 0x80001, 0)
    );
    let regs = system_call(Effect::Close { fd: 8 }).unwrap();
    assert_eq!((regs.rax, regs.rdi, regs.rsi, regs.rdx, regs.r10), (3, 8, &b""[..], 0, 0));
    assert!(system_call(Effect::StartMain).is_none());
    assert!(system_call(Effect::Exit { code: 1 }).is_none());
    assert!(system_call(Effect::LoadAllowReal).is_none());
    let install = Effect::Sigaction { signum: 11, sa_flags: 0, sa_mask: 0 };
    assert!(system_call(install).is_none());
}

#[test]
fn entry_leaves_its_marker_and_starts() {
    let effects = run(nvrc_start(), &[-1, 4, -1, -1]);
    let msg: &[u8] = b"NVRC _start: entered\n";
    assert_eq!(msg.len(), 21);
    assert_eq!(
        effects,
        vec![
            Effect::Write { fd: 2, bytes: msg },
            Effect::Write { fd: 1, bytes: msg },
            open(b"/proc/kmsg\0"),
            open(b"/dev/console\0"),
            Effect::Write { fd: 4, bytes: msg },
            Effect::Close { fd: 4 },
            open(b"/dev/hvc0\0"),
            open(b"/dev/hvc1\0"),
            Effect::StartMain,
        ]
    );
}

#[test]
fn start_logs_initialises_and_starts() {
    let effects = run(wrap_libc_start_main(), &[-1; 16]);
    assert_eq!(effects.len(), 10 + 10 + 5 + 1);
    assert_eq!(
        effects[0],
        Effect::Write { fd: 1, bytes: &b"NVRC wrap: __libc_start_main\n"[..] }
    );
    assert_eq!(
        effects[10],
        Effect::Write { fd: 1, bytes: &b"NVRC early init: installing signal handlers\n"[..] }
    );
    assert_eq!(
        effects[20],
        Effect::Sigaction {
            signum: libc::SIGSEGV,
            sa_flags: libc::SA_RESETHAND | libc::SA_NODEFER,
            sa_mask: 0,
        }
    );
    assert_eq!(effects[25], Effect::StartMain);
}

#[test]
fn abort_logs_and_aborts() {
    let effects = run(wrap_abort(), &[-1; 8]);
    assert_eq!(effects[0], Effect::Write { fd: 1, bytes: &b"NVRC wrap: abort\n"[..] });
    assert_eq!(effects[1], Effect::Write { fd: 2, bytes: &b"NVRC wrap: abort\n"[..] });
    assert_eq!(effects.len(), 11);
    assert_eq!(effects[10], Effect::RealAbort);
}

#[test]
fn sysconf_stubs() {
    assert_eq!(sysconf_stub(libc::_SC_PAGE_SIZE), 4096);
    assert_eq!(sysconf_stub(libc::_SC_NPROCESSORS_ONLN), 1);
    assert_eq!(sysconf_stub(libc::_SC_NPROCESSORS_CONF), 1);
    assert_eq!(sysconf_stub(libc::_SC_CLK_TCK), 100);
    assert_eq!(sysconf_stub(libc::_SC_PHYS_PAGES), 0);
    assert_eq!(sysconf_stub(libc::_SC_AVPHYS_PAGES), 0);
    assert_eq!(sysconf_stub(libc::_SC_OPEN_MAX), -1);
    assert_eq!(sysconf_stub(-1), -1);
}

#[test]
fn sysconf_is_logged_and_answered() {
    let mut line = NumberLine::new();
    let mut answers = [-1; 9];
    answers[8] = 0;
    let effects = run(wrap_sysconf(&mut line, libc::_SC_PAGE_SIZE), &answers);
    assert_eq!(effects[0], Effect::Write { fd: 1, bytes: &b"NVRC wrap: sysconf 30\n"[..] });
    assert_eq!(effects[10..], [Effect::LoadAllowReal, Effect::Return { value: 4096 }]);
    assert_eq!(line.bytes(), b"NVRC wrap: sysconf 30\n");

    let mut line = NumberLine::new();
    answers[8] = 1;
    let effects = run(wrap_sysconf(&mut line, i32::MIN), &answers);
    assert_eq!(
        effects[1],
        Effect::Write { fd: 2, bytes: &b"NVRC wrap: sysconf -2147483648\n"[..] }
    );
    assert_eq!(
        effects[10..],
        [Effect::LoadAllowReal, Effect::RealSysconf { name: i32::MIN }]
    );
}
