//! What the init process does from start to hand-over.
//!
//! Each function gives the steps to take, in order; the caller takes them.

use vstd::prelude::*;

verus! {

/// One step of the boot.
#[derive(Clone, Copy, Debug, PartialEq, Eq)]
pub enum Step {
    /// From here on `sysconf` is answered by the C library.
    AllowRealSysconf,
    /// Install the handlers of [`crate::signals::set_signal_handlers`].
    SetSignalHandlers,
    /// Install the hook of [`crate::lockdown::set_panic_hook`].
    SetPanicHook,
    /// Mount the file systems.
    MountSetup,
    /// Send the log to the kernel log.
    KernlogSetup,
    /// Take what the system log holds.
    SyslogPoll,
    /// Remount a file system read-only.
    MountReadonly(&'static str),
    /// Read the settings from the kernel command line.
    ProcessKernelParams,
    /// Load a kernel module.
    LoadModule(&'static str),
    /// Lock the memory clocks.
    NvidiaSmiLmc,
    /// Lock the GPU clocks.
    NvidiaSmiLgc,
    /// Set the power limit.
    NvidiaSmiPl,
    /// Start the persistence daemon.
    NvidiaPersistenced,
    /// Start the host engine.
    NvHostengine,
    /// Start the metrics exporter.
    DcgmExporter,
    /// Start the fabric manager.
    NvFabricmanager,
    /// Write the container device interface description.
    NvidiaCtkCdi,
    /// Set the GPU ready state.
    NvidiaSmiSrs,
    /// See that the daemons are still there.
    CheckDaemons,
    /// Write the file of [`crate::lockdown::disable_modules_loading`].
    DisableModulesLoading,
    /// Fork the agent and go on polling the system log for good.
    ForkAgent,
}

/// The settings of the init process that decide what it does.
pub struct NVRC {
    /// The value of the kernel parameter `nvrc.mode`.
    pub mode: Option<String>,
    /// Whether the fabric manager is to be started, where that is set.
    pub fabricmanager_enabled: Option<bool>,
}

impl Default for NVRC {
    fn default() -> (init: NVRC)
        ensures
            init.mode is None,
            init.fabricmanager_enabled is None,
    {
        NVRC { mode: None, fabricmanager_enabled: None }
    }
}

/// The kinds of VM that can be set up.
#[derive(Clone, Copy, Debug, PartialEq, Eq)]
pub enum Mode {
    Gpu,
    Cpu,
    NvswitchNvl4,
    NvswitchNvl5,
}

/// The steps that set up a VM.
pub open spec fn mode_steps(mode: Mode) -> Seq<Step> {
    match mode {
        Mode::Gpu => seq![
            Step::LoadModule("nvidia"),
            Step::LoadModule("nvidia-uvm"),
            Step::NvidiaSmiLmc,
            Step::NvidiaSmiLgc,
            Step::NvidiaSmiPl,
            Step::NvidiaPersistenced,
            Step::NvHostengine,
            Step::DcgmExporter,
            Step::NvFabricmanager,
            Step::NvidiaCtkCdi,
            Step::NvidiaSmiSrs,
            Step::CheckDaemons,
        ],
        Mode::Cpu => seq![],
        Mode::NvswitchNvl4 => seq![
            Step::LoadModule("nvidia"),
            Step::NvFabricmanager,
            Step::CheckDaemons,
        ],
        Mode::NvswitchNvl5 => seq![
            Step::LoadModule("ib_umad"),
            Step::NvFabricmanager,
            Step::CheckDaemons,
        ],
    }
}

/// The settings that the steps of a mode are taken with.
pub open spec fn mode_settings(mode: Mode, init: NVRC) -> NVRC {
    match mode {
        Mode::Gpu | Mode::Cpu => init,
        Mode::NvswitchNvl4 | Mode::NvswitchNvl5 => NVRC {
            fabricmanager_enabled: Some(true),
            ..init
        },
    }
}

/// VMs with GPU passthrough need driver setup, clock tuning, and monitoring
/// daemons before workloads can use the GPU.
pub fn mode_gpu(init: &mut NVRC) -> (steps: Vec<Step>)
    ensures
        steps@ == mode_steps(Mode::Gpu),
        *final(init) == mode_settings(Mode::Gpu, *old(init)),
        *final(init) == *old(init),
{
    let mut steps: Vec<Step> = Vec::new();
    steps.push(Step::LoadModule("nvidia"));
    steps.push(Step::LoadModule("nvidia-uvm"));

    steps.push(Step::NvidiaSmiLmc);
    steps.push(Step::NvidiaSmiLgc);
    steps.push(Step::NvidiaSmiPl);

    steps.push(Step::NvidiaPersistenced);

    steps.push(Step::NvHostengine);
    steps.push(Step::DcgmExporter);
    steps.push(Step::NvFabricmanager);
    steps.push(Step::NvidiaCtkCdi);
    steps.push(Step::NvidiaSmiSrs);
    steps.push(Step::CheckDaemons);
    assert(steps@ =~= mode_steps(Mode::Gpu));
    steps
}

/// VMs without a GPU need nothing.
pub fn mode_cpu(init: &mut NVRC) -> (steps: Vec<Step>)
    ensures
        steps@ == mode_steps(Mode::Cpu),
        *final(init) == mode_settings(Mode::Cpu, *old(init)),
        steps@.len() == 0,
        *final(init) == *old(init),
{
    Vec::new()
}

/// NVSwitch NVL4 mode for HGX H100/H200/H800 systems (third-gen NVSwitch): the
/// service VM of NVLink 4.0 topologies in shared virtualization. Loads the
/// NVIDIA driver and starts the fabric manager whatever the kernel parameters
/// say. The GPUs are assigned to the service VM.
pub fn mode_nvswitch_nvl4(init: &mut NVRC) -> (steps: Vec<Step>)
    ensures
        steps@ == mode_steps(Mode::NvswitchNvl4),
        *final(init) == mode_settings(Mode::NvswitchNvl4, *old(init)),
        final(init).mode == old(init).mode,
        final(init).fabricmanager_enabled == Some(true),
{
    init.fabricmanager_enabled = Some(true);

    let mut steps: Vec<Step> = Vec::new();
    steps.push(Step::LoadModule("nvidia"));
    steps.push(Step::NvFabricmanager);
    steps.push(Step::CheckDaemons);
    assert(steps@ =~= mode_steps(Mode::NvswitchNvl4));
    steps
}

/// NVSwitch NVL5 mode for HGX B200/B300/B100 systems (fourth-gen NVSwitch): the
/// service VM of NVLink 5.0 topologies with CX7 bridge devices. The GPUs are
/// not attached to it, so the NVIDIA driver is not loaded; `ib_umad` gives
/// access to the bridges. The fabric manager is started whatever the kernel
/// parameters say, and starts the subnet manager itself.
pub fn mode_nvswitch_nvl5(init: &mut NVRC) -> (steps: Vec<Step>)
    ensures
        steps@ == mode_steps(Mode::NvswitchNvl5),
        *final(init) == mode_settings(Mode::NvswitchNvl5, *old(init)),
        final(init).mode == old(init).mode,
        final(init).fabricmanager_enabled == Some(true),
{
    init.fabricmanager_enabled = Some(true);

    let mut steps: Vec<Step> = Vec::new();
    steps.push(Step::LoadModule("ib_umad"));
    steps.push(Step::NvFabricmanager);
    steps.push(Step::CheckDaemons);
    assert(steps@ =~= mode_steps(Mode::NvswitchNvl5));
    steps
}

/// The mode that a setting stands for. Without a setting, and for a name that
/// is not known, it is the GPU mode, since most users expect all of the GPU.
pub open spec fn selected_mode(setting: Option<String>) -> Mode {
    match setting {
        None => Mode::Gpu,
        Some(name) => if name@ == "cpu"@ {
            Mode::Cpu
        } else if name@ == "nvswitch-nvl4"@ {
            Mode::NvswitchNvl4
        } else if name@ == "nvswitch-nvl5"@ {
            Mode::NvswitchNvl5
        } else {
            Mode::Gpu
        },
    }
}

/// The mode that a setting stands for.
pub fn select_mode(setting: &Option<String>) -> (mode: Mode)
    ensures
        mode == selected_mode(*setting),
        setting is None ==> mode == Mode::Gpu,
        mode == Mode::Cpu <==> setting is Some && setting->0@ == "cpu"@,
        mode == Mode::NvswitchNvl4 <==> setting is Some && setting->0@ == "nvswitch-nvl4"@,
        mode == Mode::NvswitchNvl5 <==> setting is Some && setting->0@ == "nvswitch-nvl5"@,
{
    proof {
        reveal_strlit("cpu");
        reveal_strlit("nvswitch-nvl4");
        reveal_strlit("nvswitch-nvl5");
        assert("cpu"@.len() != "nvswitch-nvl4"@.len());
        assert("cpu"@.len() != "nvswitch-nvl5"@.len());
        assert("nvswitch-nvl4"@[12] != "nvswitch-nvl5"@[12]);
    }
    match setting {
        None => Mode::Gpu,
        Some(name) => if name.eq(&"cpu".to_owned()) {
            Mode::Cpu
        } else if name.eq(&"nvswitch-nvl4".to_owned()) {
            Mode::NvswitchNvl4
        } else if name.eq(&"nvswitch-nvl5".to_owned()) {
            Mode::NvswitchNvl5
        } else {
            Mode::Gpu
        },
    }
}

/// The steps up to where the settings are known.
pub open spec fn startup_steps() -> Seq<Step> {
    seq![
        Step::AllowRealSysconf,
        Step::SetSignalHandlers,
        Step::SetPanicHook,
        Step::MountSetup,
        Step::KernlogSetup,
        Step::SyslogPoll,
        Step::MountReadonly("/"),
        Step::ProcessKernelParams,
    ]
}

/// The steps that lock the system down and hand over to the agent.
pub open spec fn handover_steps() -> Seq<Step> {
    seq![Step::DisableModulesLoading, Step::ForkAgent]
}

/// All steps of a boot in which the kernel parameters gave these settings.
pub open spec fn boot_steps(init: NVRC) -> Seq<Step> {
    startup_steps() + mode_steps(selected_mode(init.mode)) + handover_steps()
}

/// The steps up to where the settings are known.
pub fn startup() -> (steps: Vec<Step>)
    ensures
        steps@ == startup_steps(),
        steps@ == seq![
            Step::AllowRealSysconf,
            Step::SetSignalHandlers,
            Step::SetPanicHook,
            Step::MountSetup,
            Step::KernlogSetup,
            Step::SyslogPoll,
            Step::MountReadonly("/"),
            Step::ProcessKernelParams,
        ],
{
    let mut steps: Vec<Step> = Vec::new();
    steps.push(Step::AllowRealSysconf);
    steps.push(Step::SetSignalHandlers);
    steps.push(Step::SetPanicHook);
    steps.push(Step::MountSetup);
    steps.push(Step::KernlogSetup);
    steps.push(Step::SyslogPoll);
    steps.push(Step::MountReadonly("/"));
    steps.push(Step::ProcessKernelParams);
    assert(steps@ =~= startup_steps());
    steps
}

/// The steps from where the settings are known: those of the mode that they
/// select, and the hand-over.
pub fn finish(init: &mut NVRC) -> (steps: Vec<Step>)
    ensures
        steps@ == mode_steps(selected_mode(old(init).mode)) + handover_steps(),
        startup_steps() + steps@ == boot_steps(*old(init)),
        *final(init) == mode_settings(selected_mode(old(init).mode), *old(init)),
        final(init).mode == old(init).mode,
        final(init).fabricmanager_enabled == if old(init).mode is Some && (old(init).mode->0@
            == "nvswitch-nvl4"@ || old(init).mode->0@ == "nvswitch-nvl5"@) {
            Some(true)
        } else {
            old(init).fabricmanager_enabled
        },
{
    let mut steps: Vec<Step> = match select_mode(&init.mode) {
        Mode::Gpu => mode_gpu(init),
        Mode::Cpu => mode_cpu(init),
        Mode::NvswitchNvl4 => mode_nvswitch_nvl4(init),
        Mode::NvswitchNvl5 => mode_nvswitch_nvl5(init),
    };
    let ghost setup = steps@;
    steps.push(Step::DisableModulesLoading);
    steps.push(Step::ForkAgent);
    assert(steps@ =~= setup + handover_steps());
    assert(startup_steps() + steps@ =~= boot_steps(*old(init)));
    steps
}

/// Module loading is disabled once in every boot, after the last module was
/// loaded and right before the agent is forked, which is the last step.
pub proof fn law_no_module_after_lockdown(init: NVRC)
    ensures
        boot_steps(init).len() >= 2,
        boot_steps(init).last() == Step::ForkAgent,
        boot_steps(init)[boot_steps(init).len() - 2] == Step::DisableModulesLoading,
        forall|k: int|
            0 <= k < boot_steps(init).len() && k != boot_steps(init).len() - 2
                ==> #[trigger] boot_steps(init)[k] != Step::DisableModulesLoading,
        forall|k: int|
            boot_steps(init).len() - 2 < k < boot_steps(init).len() ==> !(#[trigger] boot_steps(
                init,
            )[k] is LoadModule),
{
}

/// The signal handlers and the panic hook are in place before any file system
/// is mounted and before any setting is read, in every boot.
pub proof fn law_crashes_are_caught_first(init: NVRC)
    ensures
        boot_steps(init).len() > 3,
        boot_steps(init)[0] == Step::AllowRealSysconf,
        boot_steps(init)[1] == Step::SetSignalHandlers,
        boot_steps(init)[2] == Step::SetPanicHook,
{
}

/// In both NVSwitch modes the fabric manager is enabled and started, whatever
/// the kernel parameters say, and no other setting changes.
pub proof fn law_nvswitch_runs_the_fabric_manager(mode: Mode, init: NVRC)
    requires
        mode == Mode::NvswitchNvl4 || mode == Mode::NvswitchNvl5,
    ensures
        mode_settings(mode, init).fabricmanager_enabled == Some(true),
        mode_settings(mode, init).mode == init.mode,
        mode_steps(mode).contains(Step::NvFabricmanager),
{
    assert(mode_steps(mode)[1] == Step::NvFabricmanager);
}

/// In NVL5 mode the NVIDIA driver is not loaded: `ib_umad` is the only module.
pub proof fn law_nvl5_loads_only_ib_umad(k: int)
    requires
        0 <= k < mode_steps(Mode::NvswitchNvl5).len(),
    ensures
        mode_steps(Mode::NvswitchNvl5)[k] is LoadModule ==> mode_steps(
            Mode::NvswitchNvl5,
        )[k]->LoadModule_0@ == "ib_umad"@,
        mode_steps(Mode::NvswitchNvl5)[k] is LoadModule ==> mode_steps(
            Mode::NvswitchNvl5,
        )[k]->LoadModule_0@ != "nvidia"@,
{
    reveal_strlit("ib_umad");
    reveal_strlit("nvidia");
    assert("ib_umad"@.len() != "nvidia"@.len());
}

/// A mode that is not known by name, and one that is not set, is the GPU mode.
pub proof fn law_gpu_is_the_default(setting: Option<String>)
    requires
        setting is Some ==> setting->0@ != "cpu"@ && setting->0@ != "nvswitch-nvl4"@
            && setting->0@ != "nvswitch-nvl5"@,
    ensures
        selected_mode(setting) == Mode::Gpu,
{
}

/// Each known name selects its own mode.
pub proof fn law_known_names_select_their_modes(name: String)
    ensures
        name@ == "gpu"@ ==> selected_mode(Some(name)) == Mode::Gpu,
        name@ == "cpu"@ ==> selected_mode(Some(name)) == Mode::Cpu,
        name@ == "nvswitch-nvl4"@ ==> selected_mode(Some(name)) == Mode::NvswitchNvl4,
        name@ == "nvswitch-nvl5"@ ==> selected_mode(Some(name)) == Mode::NvswitchNvl5,
{
    reveal_strlit("gpu");
    reveal_strlit("cpu");
    reveal_strlit("nvswitch-nvl4");
    reveal_strlit("nvswitch-nvl5");
    assert("gpu"@[0] != "cpu"@[0]);
    assert("nvswitch-nvl4"@[12] != "nvswitch-nvl5"@[12]);
}

/// In GPU and CPU mode, named or not, no setting changes: what the kernel
/// parameters said of the fabric manager, or that they said nothing, is what its
/// step is taken with.
pub proof fn law_gpu_and_cpu_keep_the_settings(init: NVRC)
    requires
        init.mode is Some ==> init.mode->0@ != "nvswitch-nvl4"@ && init.mode->0@
            != "nvswitch-nvl5"@,
    ensures
        mode_settings(selected_mode(init.mode), init) == init,
        mode_settings(selected_mode(init.mode), init).mode == init.mode,
        mode_settings(selected_mode(init.mode), init).fabricmanager_enabled
            == init.fabricmanager_enabled,
{
}

/// A name of an NVSwitch mode enables the fabric manager, whatever was set, and
/// changes nothing else.
pub proof fn law_nvswitch_names_enable_the_fabric_manager(init: NVRC)
    requires
        init.mode is Some,
        init.mode->0@ == "nvswitch-nvl4"@ || init.mode->0@ == "nvswitch-nvl5"@,
    ensures
        mode_settings(selected_mode(init.mode), init) == (NVRC {
            mode: init.mode,
            fabricmanager_enabled: Some(true),
        }),
{
    law_known_names_select_their_modes(init.mode->0);
}

/// What is set for the fabric manager decides no step: a boot takes the same
/// steps with every value of it.
pub proof fn law_steps_go_by_the_mode_alone(init: NVRC, other: NVRC)
    requires
        init.mode is Some <==> other.mode is Some,
        init.mode is Some ==> init.mode->0@ == other.mode->0@,
    ensures
        boot_steps(init) == boot_steps(other),
{
}

/// A boot without a mode, with `gpu`, or with a name that is not known takes
/// these steps.
pub proof fn law_gpu_boot_step_by_step(init: NVRC)
    requires
        init.mode is Some ==> init.mode->0@ != "cpu"@ && init.mode->0@ != "nvswitch-nvl4"@
            && init.mode->0@ != "nvswitch-nvl5"@,
    ensures
        boot_steps(init) == seq![
            Step::AllowRealSysconf,
            Step::SetSignalHandlers,
            Step::SetPanicHook,
            Step::MountSetup,
            Step::KernlogSetup,
            Step::SyslogPoll,
            Step::MountReadonly("/"),
            Step::ProcessKernelParams,
            Step::LoadModule("nvidia"),
            Step::LoadModule("nvidia-uvm"),
            Step::NvidiaSmiLmc,
            Step::NvidiaSmiLgc,
            Step::NvidiaSmiPl,
            Step::NvidiaPersistenced,
            Step::NvHostengine,
            Step::DcgmExporter,
            Step::NvFabricmanager,
            Step::NvidiaCtkCdi,
            Step::NvidiaSmiSrs,
            Step::CheckDaemons,
            Step::DisableModulesLoading,
            Step::ForkAgent,
        ],
{
    assert(boot_steps(init) =~= seq![
        Step::AllowRealSysconf,
        Step::SetSignalHandlers,
        Step::SetPanicHook,
        Step::MountSetup,
        Step::KernlogSetup,
        Step::SyslogPoll,
        Step::MountReadonly("/"),
        Step::ProcessKernelParams,
        Step::LoadModule("nvidia"),
        Step::LoadModule("nvidia-uvm"),
        Step::NvidiaSmiLmc,
        Step::NvidiaSmiLgc,
        Step::NvidiaSmiPl,
        Step::NvidiaPersistenced,
        Step::NvHostengine,
        Step::DcgmExporter,
        Step::NvFabricmanager,
        Step::NvidiaCtkCdi,
        Step::NvidiaSmiSrs,
        Step::CheckDaemons,
        Step::DisableModulesLoading,
        Step::ForkAgent,
    ]);
}

/// A boot without a GPU sets nothing up.
pub proof fn law_cpu_boot_step_by_step(init: NVRC)
    requires
        init.mode is Some,
        init.mode->0@ == "cpu"@,
    ensures
        boot_steps(init) == seq![
            Step::AllowRealSysconf,
            Step::SetSignalHandlers,
            Step::SetPanicHook,
            Step::MountSetup,
            Step::KernlogSetup,
            Step::SyslogPoll,
            Step::MountReadonly("/"),
            Step::ProcessKernelParams,
            Step::DisableModulesLoading,
            Step::ForkAgent,
        ],
{
    law_known_names_select_their_modes(init.mode->0);
    assert(boot_steps(init) =~= seq![
        Step::AllowRealSysconf,
        Step::SetSignalHandlers,
        Step::SetPanicHook,
        Step::MountSetup,
        Step::KernlogSetup,
        Step::SyslogPoll,
        Step::MountReadonly("/"),
        Step::ProcessKernelParams,
        Step::DisableModulesLoading,
        Step::ForkAgent,
    ]);
}

/// A boot in NVL4 mode loads the NVIDIA driver and starts the fabric manager.
pub proof fn law_nvl4_boot_step_by_step(init: NVRC)
    requires
        init.mode is Some,
        init.mode->0@ == "nvswitch-nvl4"@,
    ensures
        boot_steps(init) == seq![
            Step::AllowRealSysconf,
            Step::SetSignalHandlers,
            Step::SetPanicHook,
            Step::MountSetup,
            Step::KernlogSetup,
            Step::SyslogPoll,
            Step::MountReadonly("/"),
            Step::ProcessKernelParams,
            Step::LoadModule("nvidia"),
            Step::NvFabricmanager,
            Step::CheckDaemons,
            Step::DisableModulesLoading,
            Step::ForkAgent,
        ],
{
    law_known_names_select_their_modes(init.mode->0);
    assert(boot_steps(init) =~= seq![
        Step::AllowRealSysconf,
        Step::SetSignalHandlers,
        Step::SetPanicHook,
        Step::MountSetup,
        Step::KernlogSetup,
        Step::SyslogPoll,
        Step::MountReadonly("/"),
        Step::ProcessKernelParams,
        Step::LoadModule("nvidia"),
        Step::NvFabricmanager,
        Step::CheckDaemons,
        Step::DisableModulesLoading,
        Step::ForkAgent,
    ]);
}

/// A boot in NVL5 mode loads `ib_umad` and starts the fabric manager.
pub proof fn law_nvl5_boot_step_by_step(init: NVRC)
    requires
        init.mode is Some,
        init.mode->0@ == "nvswitch-nvl5"@,
    ensures
        boot_steps(init) == seq![
            Step::AllowRealSysconf,
            Step::SetSignalHandlers,
            Step::SetPanicHook,
            Step::MountSetup,
            Step::KernlogSetup,
            Step::SyslogPoll,
            Step::MountReadonly("/"),
            Step::ProcessKernelParams,
            Step::LoadModule("ib_umad"),
            Step::NvFabricmanager,
            Step::CheckDaemons,
            Step::DisableModulesLoading,
            Step::ForkAgent,
        ],
{
    law_known_names_select_their_modes(init.mode->0);
    assert(boot_steps(init) =~= seq![
        Step::AllowRealSysconf,
        Step::SetSignalHandlers,
        Step::SetPanicHook,
        Step::MountSetup,
        Step::KernlogSetup,
        Step::SyslogPoll,
        Step::MountReadonly("/"),
        Step::ProcessKernelParams,
        Step::LoadModule("ib_umad"),
        Step::NvFabricmanager,
        Step::CheckDaemons,
        Step::DisableModulesLoading,
        Step::ForkAgent,
    ]);
}

} // verus!
