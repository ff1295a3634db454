use nvrc::lockdown::{
    disable_modules_loading, power_off, set_panic_hook, set_panic_hook_with, PanicAction, RebootMode,
};
use std::sync::atomic::{AtomicBool, Ordering};
use std::sync::Arc;

#[test]
fn test_set_panic_hook_with_custom_action() {
    let called = Arc::new(AtomicBool::new(false));
    let called_clone = called.clone();

    let hook = set_panic_hook_with(move || {
        called_clone.store(true, Ordering::SeqCst);
    });
    assert!(!called.load(Ordering::SeqCst)); // Not called yet

    let actions = hook.on_panic("test");
    assert!(!called.load(Ordering::SeqCst));
    assert_eq!(actions.last(), Some(&PanicAction::Shutdown));

    (hook.shutdown)();
    assert!(called.load(Ordering::SeqCst));
}

#[test]
fn test_disable_modules_loading() {
    let write = disable_modules_loading();
    assert_eq!(write.path, "/proc/sys/kernel/modules_disabled");
    assert_eq!(write.contents.trim(), "1");
    assert_eq!(write.contents, "1\n");
    assert_eq!(write.failure, "disable module loading /proc/sys/kernel/modules_disabled");
}

#[test]
fn test_power_off_function_exists() {
    let _: fn() -> RebootMode = power_off;
    assert_eq!(power_off(), RebootMode::PowerOff);
}

#[test]
fn test_set_panic_hook() {
    let hook = set_panic_hook();
    assert_eq!(hook.shutdown, RebootMode::PowerOff);
}

#[test]
fn a_panic_goes_to_every_output() {
    let hook = set_panic_hook();
    assert_eq!(
        hook.on_panic("panicked at src/main.rs:1:1"),
        vec![
            PanicAction::StderrLine("panic (original): panicked at src/main.rs:1:1".to_string()),
            PanicAction::StderrLine("eprintl: panic (new): panicked at src/main.rs:1:1".to_string()),
            PanicAction::StdoutLine("println: panic (new): panicked at src/main.rs:1:1".to_string()),
            PanicAction::WriteFile {
                path: "/dev/console".to_string(),
                contents: "dev-console: panic (new): panicked at src/main.rs:1:1\n".to_string(),
            },
            PanicAction::WriteFile {
                path: "/dev/kmsg".to_string(),
                contents: "<0> dev-kmsg: panic (new): panicked at src/main.rs:1:1\n".to_string(),
            },
            PanicAction::LogError(
                "logger-error: panic (new): panicked at src/main.rs:1:1".to_string()
            ),
            PanicAction::Sync,
            PanicAction::Shutdown,
        ]
    );
}

#[test]
fn a_panic_without_words_still_shuts_down() {
    let actions = set_panic_hook().on_panic("");
    assert_eq!(actions.len(), 8);
    assert_eq!(actions[0], PanicAction::StderrLine("panic (original): ".to_string()));
    assert_eq!(actions[6..], [PanicAction::Sync, PanicAction::Shutdown]);
}

#[test]
fn a_failed_write_of_the_modules_flag_is_one_to_panic_with() {
    let write = disable_modules_loading();
    assert_eq!(write.report(Ok(())), Ok(()));
    assert_eq!(
        write.report(Err("Permission denied (os error 13)".to_string())),
        Err(
            "disable module loading /proc/sys/kernel/modules_disabled: Permission denied (os error 13)"
                .to_string()
        )
    );
}

#[test]
fn a_panic_leaves_the_modules_flag_alone() {
    let flag = disable_modules_loading().path;
    for action in set_panic_hook().on_panic("late") {
        if let PanicAction::WriteFile { path, .. } = action {
            assert_ne!(path, flag);
        }
    }
    assert_eq!(disable_modules_loading().contents, "1\n");
}
