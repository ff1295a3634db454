use nvrc::script::{Effect, Run, Script};
use nvrc::signals::{
    early_init, fatal_message, fatal_signal, fatal_signal_handler, fatal_signal_log, handler_flags,
    handler_mask, run_early_init_for_wrapper, set_signal_handlers, FatalSignal, FATAL_SIGNAL_COUNT,
};

fn run(script: Script<'static>, fd: i64) -> Vec<Effect<&'static [u8]>> {
    let mut run = Run::new(script);
    let mut effects = Vec::new();
    while let Some(effect) = run.step(fd) {
        effects.push(effect);
    }
    effects
}

#[test]
fn signal_numbers_and_names() {
    assert_eq!(FatalSignal::Segv.number(), libc::SIGSEGV);
    assert_eq!(FatalSignal::Ill.number(), libc::SIGILL);
    assert_eq!(FatalSignal::Bus.number(), libc::SIGBUS);
    assert_eq!(FatalSignal::Fpe.number(), libc::SIGFPE);
    assert_eq!(FatalSignal::Abrt.number(), libc::SIGABRT);
    assert_eq!(
        [11, 4, 7, 8, 6],
        [
            FatalSignal::Segv.number(),
            FatalSignal::Ill.number(),
            FatalSignal::Bus.number(),
            FatalSignal::Fpe.number(),
            FatalSignal::Abrt.number()
        ]
    );
    assert_eq!(FatalSignal::Segv.name(), "SIGSEGV");
    assert_eq!(FatalSignal::Ill.name(), "SIGILL");
    assert_eq!(FatalSignal::Bus.name(), "SIGBUS");
    assert_eq!(FatalSignal::Fpe.name(), "SIGFPE");
    assert_eq!(FatalSignal::Abrt.name(), "SIGABRT");
}

#[test]
fn handler_flags_are_those_of_libc() {
    assert_eq!(handler_flags(), libc::SA_RESETHAND | libc::SA_NODEFER);
    assert_eq!(handler_flags() as u32, 0xC000_0000);
}

#[test]
fn fatal_messages() {
    assert_eq!(fatal_message(libc::SIGSEGV), b"NVRC fatal signal: SIGSEGV\n");
    assert_eq!(fatal_message(libc::SIGILL), b"NVRC fatal signal: SIGILL\n");
    assert_eq!(fatal_message(libc::SIGBUS), b"NVRC fatal signal: SIGBUS\n");
    assert_eq!(fatal_message(libc::SIGFPE), b"NVRC fatal signal: SIGFPE\n");
    assert_eq!(fatal_message(libc::SIGABRT), b"NVRC fatal signal: SIGABRT\n");
    assert_eq!(fatal_message(libc::SIGTERM), b"NVRC fatal signal: UNKNOWN\n");
    assert_eq!(fatal_message(0), b"NVRC fatal signal: UNKNOWN\n");
    assert_eq!(fatal_message(-5), b"NVRC fatal signal: UNKNOWN\n");
}

#[test]
fn fatal_messages_hold_the_name() {
    for i in 0..FATAL_SIGNAL_COUNT {
        let signal = fatal_signal(i);
        let text = format!("NVRC fatal signal: {}\n", signal.name());
        assert_eq!(fatal_message(signal.number()), text.as_bytes());
    }
}

#[test]
fn fatal_handler_exits_with_the_signal() {
    let effects = run(fatal_signal_handler(libc::SIGSEGV), -1);
    let msg: &[u8] = b"NVRC fatal signal: SIGSEGV\n";
    assert_eq!(effects.len(), 1 + 8 + 1);
    assert_eq!(effects[0], Effect::Write { fd: 2, bytes: msg });
    assert_eq!(effects[9], Effect::Exit { code: 139 });

    let effects = run(fatal_signal_handler(libc::SIGABRT), 3);
    let msg: &[u8] = b"NVRC fatal signal: SIGABRT\n";
    assert_eq!(effects.len(), 1 + 24 + 1);
    assert_eq!(effects[2], Effect::Write { fd: 3, bytes: msg });
    assert_eq!(effects[3], Effect::Close { fd: 3 });
    assert_eq!(effects[25], Effect::Exit { code: 134 });
}

#[test]
fn fatal_log_has_no_exit() {
    let whole = run(fatal_signal_handler(libc::SIGBUS), 6);
    let log = run(fatal_signal_log(libc::SIGBUS), 6);
    assert_eq!(log[..], whole[..whole.len() - 1]);
    assert_eq!(
        run(fatal_signal_log(i32::MAX), -1)[0],
        Effect::Write { fd: 2, bytes: &b"NVRC fatal signal: UNKNOWN\n"[..] }
    );
}

#[test]
fn the_handler_mask_is_empty() {
    assert_eq!(handler_mask(), 0);
}

#[test]
fn early_init_installs_every_handler() {
    let effects = run(early_init(), -1);
    let msg: &[u8] = b"NVRC early init: installing signal handlers\n";
    assert_eq!(effects[0], Effect::Write { fd: 1, bytes: msg });
    assert_eq!(effects[1], Effect::Write { fd: 2, bytes: msg });
    let flags = libc::SA_RESETHAND | libc::SA_NODEFER;
    let installs: Vec<_> = [
        libc::SIGSEGV,
        libc::SIGILL,
        libc::SIGBUS,
        libc::SIGFPE,
        libc::SIGABRT,
    ]
    .iter()
    .map(|signum| Effect::Sigaction { signum: *signum, sa_flags: flags, sa_mask: 0 })
    .collect();
    assert_eq!(effects[10..], installs);

    let mut script = Script::new();
    run_early_init_for_wrapper(&mut script);
    assert_eq!(run(script, -1), effects);
}

#[test]
fn all_handlers_are_installed_in_order() {
    let mut setup = set_signal_handlers();
    let mut signals = Vec::new();
    while let Some(handler) = setup.pending() {
        assert_eq!(handler.sa_flags, handler_flags());
        assert_eq!(handler.sa_mask, 0);
        signals.push(handler.signal);
        assert_eq!(setup.report(Ok(())), Ok(()));
    }
    assert_eq!(
        signals,
        vec![
            FatalSignal::Segv,
            FatalSignal::Ill,
            FatalSignal::Bus,
            FatalSignal::Fpe,
            FatalSignal::Abrt,
        ]
    );
    assert_eq!(setup.report(Err("late".to_string())), Ok(()));
    assert_eq!(setup.pending(), None);
}

#[test]
fn a_failed_handler_is_named() {
    let mut setup = set_signal_handlers();
    assert_eq!(setup.report(Ok(())), Ok(()));
    assert_eq!(setup.report(Ok(())), Ok(()));
    assert_eq!(
        setup.report(Err("EINVAL: Invalid argument".to_string())),
        Err("install signal handler SIGBUS: EINVAL: Invalid argument".to_string())
    );
    assert_eq!(setup.pending().map(|handler| handler.signal), Some(FatalSignal::Bus));
}

#[test]
fn both_setups_install_the_same_handlers() {
    let early = run(early_init(), 4);
    let early: Vec<_> = early[early.len() - FATAL_SIGNAL_COUNT..].to_vec();
    let mut setup = set_signal_handlers();
    let mut late = Vec::new();
    while let Some(handler) = setup.pending() {
        late.push(Effect::Sigaction {
            signum: handler.signal.number(),
            sa_flags: handler.sa_flags,
            sa_mask: handler.sa_mask,
        });
        assert_eq!(setup.report(Ok(())), Ok(()));
    }
    assert_eq!(early, late);
}
