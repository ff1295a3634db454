//! Lockdown primitives for the security of a confidential VM.
//!
//! In production a panic powers the VM off. What is done instead can be
//! chosen with [`set_panic_hook_with`].

use crate::script::{sink_paths, sink_total, SinkSet};
use crate::text::ascii;
use vstd::prelude::*;
use vstd::string::StringExecFns;

verus! {

/// A way to end or restart the system.
#[derive(Clone, Copy, Debug, PartialEq, Eq)]
pub enum RebootMode {
    HaltSystem,
    Kexec,
    PowerOff,
    AutoBoot,
    SwSuspend,
}

/// The default shutdown action: power off the VM.
pub fn power_off() -> (mode: RebootMode)
    ensures
        mode == RebootMode::PowerOff,
{
    RebootMode::PowerOff
}

/// One thing that the panic hook does. `T` is a text. A file that cannot be
/// written is passed over.
#[derive(Clone, Debug, PartialEq, Eq)]
pub enum PanicAction<T> {
    /// Print a line to standard error.
    StderrLine(T),
    /// Print a line to standard output.
    StdoutLine(T),
    /// Replace the contents of a file.
    WriteFile { path: T, contents: T },
    /// Hand a message to the logger as an error.
    LogError(T),
    /// Flush pending writes to disk.
    Sync,
    /// Perform the shutdown action of the hook.
    Shutdown,
}

impl View for PanicAction<String> {
    type V = PanicAction<Seq<char>>;

    open spec fn view(&self) -> PanicAction<Seq<char>> {
        match *self {
            PanicAction::StderrLine(text) => PanicAction::StderrLine(text@),
            PanicAction::StdoutLine(text) => PanicAction::StdoutLine(text@),
            PanicAction::WriteFile { path, contents } => PanicAction::WriteFile {
                path: path@,
                contents: contents@,
            },
            PanicAction::LogError(text) => PanicAction::LogError(text@),
            PanicAction::Sync => PanicAction::Sync,
            PanicAction::Shutdown => PanicAction::Shutdown,
        }
    }
}

/// A panic hook, with the action that shuts the system down.
pub struct PanicHook<S> {
    pub shutdown: S,
}

/// What the hook does about a panic that describes itself as `info`.
pub open spec fn panic_actions(info: Seq<char>) -> Seq<PanicAction<Seq<char>>> {
    let msg = "panic (new): "@ + info;
    seq![
        PanicAction::StderrLine("panic (original): "@ + info),
        PanicAction::StderrLine("eprintl: "@ + msg),
        PanicAction::StdoutLine("println: "@ + msg),
        PanicAction::WriteFile {
            path: "/dev/console"@,
            contents: "dev-console: "@ + msg + "\n"@,
        },
        PanicAction::WriteFile { path: "/dev/kmsg"@, contents: "<0> dev-kmsg: "@ + msg + "\n"@ },
        PanicAction::LogError("logger-error: "@ + msg),
        PanicAction::Sync,
        PanicAction::Shutdown,
    ]
}

fn prefixed(prefix: &str, text: &str) -> (whole: String)
    ensures
        whole@ == prefix@ + text@,
{
    let mut whole = prefix.to_owned();
    whole.append(text);
    whole
}

impl<S> PanicHook<S> {
    /// What is to be done about a panic that describes itself as `info`.
    ///
    /// All outputs are tried, since some may not exist yet: the console may
    /// come from the initramfs, the kernel log needs its device node, and the
    /// logger needs to be set up. `<0>` is the kernel's emergency level.
    pub fn on_panic(&self, info: &str) -> (actions: Vec<PanicAction<String>>)
        ensures
            actions@.map_values(|action: PanicAction<String>| action@) == panic_actions(info@),
            actions@.len() == 8,
            actions@[0] matches PanicAction::StderrLine(text) && text@ == "panic (original): "@
                + info@,
            actions@[1] matches PanicAction::StderrLine(text) && text@ == "eprintl: "@
                + ("panic (new): "@ + info@),
            actions@[2] matches PanicAction::StdoutLine(text) && text@ == "println: "@
                + ("panic (new): "@ + info@),
            actions@[3] matches PanicAction::WriteFile { path, contents } && path@
                == "/dev/console"@ && contents@ == "dev-console: "@ + ("panic (new): "@ + info@)
                + "\n"@,
            actions@[4] matches PanicAction::WriteFile { path, contents } && path@ == "/dev/kmsg"@
                && contents@ == "<0> dev-kmsg: "@ + ("panic (new): "@ + info@) + "\n"@,
            actions@[5] matches PanicAction::LogError(text) && text@ == "logger-error: "@
                + ("panic (new): "@ + info@),
            actions@[6] is Sync,
            actions@[7] is Shutdown,
    {
        let msg = prefixed("panic (new): ", info);
        let original = prefixed("panic (original): ", info);
        let stderr = prefixed("eprintl: ", msg.as_str());
        let stdout = prefixed("println: ", msg.as_str());
        let mut console = prefixed("dev-console: ", msg.as_str());
        console.append("\n");
        let mut kmsg = prefixed("<0> dev-kmsg: ", msg.as_str());
        kmsg.append("\n");
        let logger = prefixed("logger-error: ", msg.as_str());
        let mut actions: Vec<PanicAction<String>> = Vec::new();
        actions.push(PanicAction::StderrLine(original));
        actions.push(PanicAction::StderrLine(stderr));
        actions.push(PanicAction::StdoutLine(stdout));
        actions.push(
            PanicAction::WriteFile { path: "/dev/console".to_owned(), contents: console },
        );
        actions.push(PanicAction::WriteFile { path: "/dev/kmsg".to_owned(), contents: kmsg });
        actions.push(PanicAction::LogError(logger));
        actions.push(PanicAction::Sync);
        actions.push(PanicAction::Shutdown);
        assert(actions@.map_values(|action: PanicAction<String>| action@) =~= panic_actions(info@));
        actions
    }
}

/// A panic hook with a shutdown action of the caller's choice. The action is
/// not performed before a panic comes.
pub fn set_panic_hook_with<S>(shutdown: S) -> (hook: PanicHook<S>)
    ensures
        hook.shutdown == shutdown,
{
    PanicHook { shutdown }
}

/// The panic hook that powers off the VM instead of unwinding.
///
/// In a confidential VM a panic could leave the system in an undefined state
/// and expose data. Powering off ends it cleanly, and the hypervisor sees the
/// VM exit.
pub fn set_panic_hook() -> (hook: PanicHook<RebootMode>)
    ensures
        hook.shutdown == RebootMode::PowerOff,
{
    set_panic_hook_with(power_off())
}

/// Every panic ends in the shutdown action, which is performed once and not
/// before the pending writes were flushed; all that is written is written
/// before that.
pub proof fn law_panic_syncs_and_then_shuts_down(info: Seq<char>)
    ensures
        panic_actions(info).last() == (PanicAction::<Seq<char>>::Shutdown),
        panic_actions(info)[panic_actions(info).len() - 2] == (PanicAction::<Seq<char>>::Sync),
        forall|k: int|
            0 <= k < panic_actions(info).len() - 2 ==> #[trigger] panic_actions(info)[k] != (
            PanicAction::<Seq<char>>::Sync) && panic_actions(info)[k] != (PanicAction::<
                Seq<char>,
            >::Shutdown),
{
}

/// All that a panic says of itself goes to every output, uncut: to standard
/// error as it is, and marked as the hook's own to standard error, standard
/// output, the console, the kernel log at its emergency level and the logger.
pub proof fn law_every_output_gets_the_whole_panic(info: Seq<char>)
    ensures
        panic_actions(info).len() == 8,
        panic_actions(info)[0] == PanicAction::StderrLine("panic (original): "@ + info),
        panic_actions(info)[1] == PanicAction::StderrLine("eprintl: "@ + ("panic (new): "@ + info)),
        panic_actions(info)[2] == PanicAction::StdoutLine("println: "@ + ("panic (new): "@ + info)),
        panic_actions(info)[3] == (PanicAction::WriteFile {
            path: "/dev/console"@,
            contents: "dev-console: "@ + ("panic (new): "@ + info) + "\n"@,
        }),
        panic_actions(info)[4] == (PanicAction::WriteFile {
            path: "/dev/kmsg"@,
            contents: "<0> dev-kmsg: "@ + ("panic (new): "@ + info) + "\n"@,
        }),
        panic_actions(info)[5] == PanicAction::LogError(
            "logger-error: "@ + ("panic (new): "@ + info),
        ),
        panic_actions(info)[6] == (PanicAction::<Seq<char>>::Sync),
        panic_actions(info)[7] == (PanicAction::<Seq<char>>::Shutdown),
{
}

/// The text that an action puts out, where it puts one out.
pub open spec fn put_out(action: PanicAction<Seq<char>>) -> Seq<char> {
    match action {
        PanicAction::StderrLine(text) => text,
        PanicAction::StdoutLine(text) => text,
        PanicAction::WriteFile { contents, .. } => contents,
        PanicAction::LogError(text) => text,
        PanicAction::Sync => Seq::empty(),
        PanicAction::Shutdown => Seq::empty(),
    }
}

/// Each of the six outputs holds all of `info` as one piece.
pub proof fn law_every_output_holds_the_panic(info: Seq<char>, k: int)
    requires
        0 <= k < 6,
    ensures
        exists|start: int|
            0 <= start <= put_out(panic_actions(info)[k]).len() - info.len()
                && #[trigger] put_out(panic_actions(info)[k]).subrange(start, start + info.len())
                == info,
{
    let text = put_out(panic_actions(info)[k]);
    let lead = if k == 0 {
        "panic (original): "@
    } else if k == 1 {
        "eprintl: "@ + "panic (new): "@
    } else if k == 2 {
        "println: "@ + "panic (new): "@
    } else if k == 3 {
        "dev-console: "@ + "panic (new): "@
    } else if k == 4 {
        "<0> dev-kmsg: "@ + "panic (new): "@
    } else {
        "logger-error: "@ + "panic (new): "@
    };
    let start: int = lead.len() as int;
    assert(text.subrange(start, start + info.len()) =~= info);
}

/// Each of the six outputs tells any two panics apart.
pub proof fn law_every_output_tells_panics_apart(info: Seq<char>, other: Seq<char>, k: int)
    requires
        0 <= k < 6,
        panic_actions(info)[k] == panic_actions(other)[k],
    ensures
        info == other,
{
    let new = "panic (new): "@;
    let (lead, tail) = if k == 0 {
        ("panic (original): "@, Seq::<char>::empty())
    } else if k == 1 {
        ("eprintl: "@ + new, Seq::<char>::empty())
    } else if k == 2 {
        ("println: "@ + new, Seq::<char>::empty())
    } else if k == 3 {
        ("dev-console: "@ + new, "\n"@)
    } else if k == 4 {
        ("<0> dev-kmsg: "@ + new, "\n"@)
    } else {
        ("logger-error: "@ + new, Seq::<char>::empty())
    };
    let text = put_out(panic_actions(info)[k]);
    assert(text =~= lead + info + tail);
    assert(put_out(panic_actions(other)[k]) =~= lead + other + tail);
    let start: int = lead.len() as int;
    assert(info.len() == other.len());
    assert(text.subrange(start, start + info.len()) =~= info);
    assert(text.subrange(start, start + info.len()) =~= other);
}

/// What is proved of the actions by their views is true of the actions: the view
/// of an action is that action, with its texts.
pub proof fn law_actions_are_what_they_show(text: String, path: String)
    ensures
        PanicAction::<String>::StderrLine(text)@ == PanicAction::StderrLine(text@),
        PanicAction::<String>::StdoutLine(text)@ == PanicAction::StdoutLine(text@),
        (PanicAction::<String>::WriteFile { path, contents: text })@ == (PanicAction::WriteFile {
            path: path@,
            contents: text@,
        }),
        PanicAction::<String>::LogError(text)@ == PanicAction::LogError(text@),
        PanicAction::<String>::Sync@ == (PanicAction::<Seq<char>>::Sync),
        PanicAction::<String>::Shutdown@ == (PanicAction::<Seq<char>>::Shutdown),
{
}

/// A file to be written, and what to panic with where that fails.
pub struct FileWrite {
    pub path: &'static str,
    pub contents: &'static str,
    pub failure: &'static str,
}

impl FileWrite {
    /// Takes the outcome of the write. A failed write is never passed over: it
    /// gives an error to panic with, in its words.
    pub fn report(&self, outcome: Result<(), String>) -> (go_on: Result<(), String>)
        ensures
            go_on is Err <==> outcome is Err,
            outcome is Err ==> go_on->Err_0@ == self.failure@ + ": "@ + outcome->Err_0@,
    {
        match outcome {
            Ok(_) => Ok(()),
            Err(err) => {
                let mut text = self.failure.to_owned();
                text.append(": ");
                text.append(err.as_str());
                Err(text)
            },
        }
    }
}

/// The file that holds whether module loading is disabled.
pub open spec fn modules_flag() -> Seq<char> {
    "/proc/sys/kernel/modules_disabled"@
}

/// Permanently disables the loading of kernel modules for this boot.
///
/// Once all drivers are loaded, this keeps any further module out. It cannot
/// be undone without a reboot. The outcome of the write goes to
/// [`FileWrite::report`].
pub fn disable_modules_loading() -> (write: FileWrite)
    ensures
        write.path@ == modules_flag(),
        write.contents@ == "1\n"@,
        write.failure@ == "disable module loading "@ + modules_flag(),
        write.path@ == "/proc/sys/kernel/modules_disabled"@,
        write.failure@ == "disable module loading "@ + write.path@,
{
    proof {
        reveal_strlit("/proc/sys/kernel/modules_disabled");
        reveal_strlit("disable module loading ");
        reveal_strlit("disable module loading /proc/sys/kernel/modules_disabled");
    }
    let write = FileWrite {
        path: "/proc/sys/kernel/modules_disabled",
        contents: "1\n",
        failure: "disable module loading /proc/sys/kernel/modules_disabled",
    };
    assert(write.failure@ =~= "disable module loading "@ + modules_flag());
    write
}

/// A write that replaces the contents of a file.
pub struct Replacement {
    pub path: Seq<char>,
    pub contents: Seq<char>,
}

/// Whether a write is one that this library asks for: the one that disables
/// module loading, or one of the panic hook.
pub open spec fn is_own_write(write: Replacement) -> bool {
    ||| write.path == modules_flag() && write.contents == "1\n"@
    ||| exists|info: Seq<char>|
        #[trigger] panic_actions(info).contains(
            PanicAction::WriteFile { path: write.path, contents: write.contents },
        )
}

/// The contents of files after some writes, where each succeeds.
pub open spec fn files_after(
    files: Map<Seq<char>, Seq<char>>,
    writes: Seq<Replacement>,
) -> Map<Seq<char>, Seq<char>>
    decreases writes.len(),
{
    if writes.len() == 0 {
        files
    } else {
        files_after(files, writes.drop_last()).insert(writes.last().path, writes.last().contents)
    }
}

/// Once module loading is disabled, no write that this library asks for takes
/// that back, a further call of [`disable_modules_loading`] and any number of
/// panics included. This takes nothing of the kernel but that it keeps what was
/// written last.
pub proof fn law_modules_stay_disabled(
    files: Map<Seq<char>, Seq<char>>,
    writes: Seq<Replacement>,
)
    requires
        files.dom().contains(modules_flag()),
        files[modules_flag()] == "1\n"@,
        forall|k: int| 0 <= k < writes.len() ==> is_own_write(#[trigger] writes[k]),
    ensures
        files_after(files, writes).dom().contains(modules_flag()),
        files_after(files, writes)[modules_flag()] == "1\n"@,
    decreases writes.len(),
{
    if writes.len() > 0 {
        let last = writes[writes.len() - 1];
        law_modules_stay_disabled(files, writes.drop_last());
        assert(is_own_write(last));
        reveal_strlit("/proc/sys/kernel/modules_disabled");
        reveal_strlit("/dev/console");
        reveal_strlit("/dev/kmsg");
        assert(modules_flag().len() != "/dev/console"@.len());
        assert(modules_flag().len() != "/dev/kmsg"@.len());
    }
}

/// The write that disables module loading does so, whatever was there before.
pub proof fn law_disabling_sets_the_flag(
    files: Map<Seq<char>, Seq<char>>,
    writes: Seq<Replacement>,
)
    requires
        writes.len() > 0,
        writes[0].path == modules_flag() && writes[0].contents == "1\n"@,
        forall|k: int| 0 <= k < writes.len() ==> is_own_write(#[trigger] writes[k]),
    ensures
        files_after(files, writes).dom().contains(modules_flag()),
        files_after(files, writes)[modules_flag()] == "1\n"@,
    decreases writes.len(),
{
    if writes.len() > 1 {
        let last = writes[writes.len() - 1];
        law_disabling_sets_the_flag(files, writes.drop_last());
        law_modules_stay_disabled(files_after(files, writes.drop_last()), seq![last]);
        assert(seq![last].drop_last() =~= Seq::<Replacement>::empty());
        reveal_with_fuel(files_after, 2);
    }
}

/// Something that happens in the system between two states of the flag that
/// says whether module loading is disabled.
pub enum SystemEvent {
    /// Someone wrote a file, and the write succeeded.
    Wrote(Replacement),
    /// Someone asked for a module to be loaded.
    ModuleAsked { loaded: bool },
    /// Anything else, short of a reboot.
    Other,
}

/// Whether an event is a successful write of [`disable_modules_loading`].
pub open spec fn is_disabling(event: SystemEvent) -> bool {
    event == SystemEvent::Wrote(Replacement { path: modules_flag(), contents: "1\n"@ })
}

/// What the kernel promises of the flag: a successful write of 1 sets it, no
/// event but a reboot clears it, and while it is set no module is loaded.
pub open spec fn kernel_step(before: bool, event: SystemEvent, after: bool) -> bool {
    &&& is_disabling(event) ==> after
    &&& before ==> after
    &&& before ==> event != (SystemEvent::ModuleAsked { loaded: true })
}

/// Whether `flags` are the states of the flag in a boot in which `events`
/// happened, by this library's doing or anyone's, under a kernel that keeps
/// its promise.
pub open spec fn is_boot_history(flags: Seq<bool>, events: Seq<SystemEvent>) -> bool {
    &&& flags.len() == events.len() + 1
    &&& forall|k: int|
        0 <= k < events.len() ==> kernel_step(flags[k], #[trigger] events[k], flags[k + 1])
}

/// The flag goes from clear to set at most once in a boot and never back.
pub proof fn law_flag_is_never_cleared(
    flags: Seq<bool>,
    events: Seq<SystemEvent>,
    i: int,
    j: int,
)
    requires
        is_boot_history(flags, events),
        0 <= i <= j <= events.len(),
        flags[i],
    ensures
        flags[j],
    decreases j - i,
{
    if i < j {
        law_flag_is_never_cleared(flags, events, i, j - 1);
        assert(kernel_step(flags[j - 1], events[j - 1], flags[j]));
    }
}

/// After a call of [`disable_modules_loading`] whose write succeeded, the event
/// number `n`, module loading stays disabled for the rest of the boot, whatever
/// happens and whoever does it, a further call included: the flag is set in
/// every later state, and no module is loaded. What this takes of the kernel is
/// [`kernel_step`].
pub proof fn law_disabled_for_the_rest_of_the_boot(
    flags: Seq<bool>,
    events: Seq<SystemEvent>,
    n: int,
    m: int,
)
    requires
        is_boot_history(flags, events),
        0 <= n < m <= events.len(),
        is_disabling(events[n]),
    ensures
        flags[m],
        m < events.len() ==> events[m] != (SystemEvent::ModuleAsked { loaded: true }),
{
    assert(kernel_step(flags[n], events[n], flags[n + 1]));
    law_flag_is_never_cleared(flags, events, n + 1, m);
    if m < events.len() {
        assert(kernel_step(flags[m], events[m], flags[m + 1]));
    }
}

/// No log message is ever written to the file that holds whether module loading
/// is disabled: it is none of the sinks.
pub proof fn law_no_sink_is_the_modules_flag(set: SinkSet, i: int)
    requires
        0 <= i < sink_total(set),
    ensures
        sink_paths(set)[i] != ascii(modules_flag()).push(0),
{
    reveal_strlit("/proc/sys/kernel/modules_disabled");
    reveal_strlit("/dev/console\0");
    reveal_strlit("/dev/kmsg\0");
    reveal_strlit("/dev/ttyS0\0");
    reveal_strlit("/dev/ttyS1\0");
    reveal_strlit("/dev/hvc0\0");
    reveal_strlit("/dev/hvc1\0");
    reveal_strlit("/proc/kmsg\0");
    reveal_strlit("/proc/self/fd/1\0");
    reveal_strlit("/proc/self/fd/2\0");
    assert(sink_paths(set)[i].len() != ascii(modules_flag()).push(0).len());
}

} // verus!
