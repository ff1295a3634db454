use nvrc::boot::{
    finish, mode_cpu, mode_gpu, mode_nvswitch_nvl4, mode_nvswitch_nvl5, select_mode, startup, Mode,
    Step, NVRC,
};

fn with_mode(mode: &str) -> NVRC {
    NVRC { mode: Some(mode.to_string()), fabricmanager_enabled: Some(false) }
}

#[test]
fn default_settings_are_unset() {
    let init = NVRC::default();
    assert!(init.mode.is_none());
    assert!(init.fabricmanager_enabled.is_none());
}

#[test]
fn gpu_mode_sets_up_everything_in_order() {
    let mut init = with_mode("gpu");
    assert_eq!(
        mode_gpu(&mut init),
        vec![
            Step::LoadModule("nvidia"),
            Step::LoadModule("nvidia-uvm"),
            Step::NvidiaSmiLmc,
            Step::NvidiaSmiLgc,
            Step::NvidiaSmiPl,
            Step::NvidiaPersistenced,
            Step::NvHostengine,
            Step::DcgmExporter,
            Step::NvFabricmanager,
            Step::NvidiaCtkCdi,
            Step::NvidiaSmiSrs,
            Step::CheckDaemons,
        ]
    );
    assert_eq!(init.fabricmanager_enabled, Some(false));
    assert_eq!(init.mode.as_deref(), Some("gpu"));
}

#[test]
fn cpu_mode_does_nothing() {
    let mut init = with_mode("cpu");
    assert_eq!(mode_cpu(&mut init), vec![]);
    assert_eq!(init.fabricmanager_enabled, Some(false));
}

#[test]
fn nvl4_overrides_the_kernel_parameter() {
    let mut init = with_mode("nvswitch-nvl4");
    assert_eq!(
        mode_nvswitch_nvl4(&mut init),
        vec![Step::LoadModule("nvidia"), Step::NvFabricmanager, Step::CheckDaemons]
    );
    assert_eq!(init.fabricmanager_enabled, Some(true));
    assert_eq!(init.mode.as_deref(), Some("nvswitch-nvl4"));
}

#[test]
fn nvl5_loads_ib_umad_and_not_nvidia() {
    let mut init = NVRC::default();
    let steps = mode_nvswitch_nvl5(&mut init);
    assert_eq!(
        steps,
        vec![Step::LoadModule("ib_umad"), Step::NvFabricmanager, Step::CheckDaemons]
    );
    assert!(!steps.contains(&Step::LoadModule("nvidia")));
    assert_eq!(init.fabricmanager_enabled, Some(true));
    assert!(init.mode.is_none());
}

#[test]
fn modes_are_selected_by_name() {
    assert_eq!(select_mode(&Some("gpu".to_string())), Mode::Gpu);
    assert_eq!(select_mode(&Some("cpu".to_string())), Mode::Cpu);
    assert_eq!(select_mode(&Some("nvswitch-nvl4".to_string())), Mode::NvswitchNvl4);
    assert_eq!(select_mode(&Some("nvswitch-nvl5".to_string())), Mode::NvswitchNvl5);
}

#[test]
fn gpu_is_the_default_mode() {
    assert_eq!(select_mode(&None), Mode::Gpu);
    assert_eq!(select_mode(&Some(String::new())), Mode::Gpu);
    assert_eq!(select_mode(&Some("CPU".to_string())), Mode::Gpu);
    assert_eq!(select_mode(&Some("nvswitch-nvl6".to_string())), Mode::Gpu);
}

#[test]
fn startup_catches_crashes_before_anything_else() {
    assert_eq!(
        startup(),
        vec![
            Step::AllowRealSysconf,
            Step::SetSignalHandlers,
            Step::SetPanicHook,
            Step::MountSetup,
            Step::KernlogSetup,
            Step::SyslogPoll,
            Step::MountReadonly("/"),
            Step::ProcessKernelParams,
        ]
    );
}

#[test]
fn every_boot_disables_modules_before_the_agent() {
    for mode in ["gpu", "cpu", "nvswitch-nvl4", "nvswitch-nvl5", "other"] {
        let mut init = with_mode(mode);
        let steps = finish(&mut init);
        assert_eq!(steps[steps.len() - 2..], [Step::DisableModulesLoading, Step::ForkAgent]);
        assert_eq!(steps.iter().filter(|s| **s == Step::DisableModulesLoading).count(), 1);
    }
}

#[test]
fn finish_runs_the_selected_mode() {
    let mut init = with_mode("cpu");
    assert_eq!(finish(&mut init), vec![Step::DisableModulesLoading, Step::ForkAgent]);
    assert_eq!(init.fabricmanager_enabled, Some(false));
    let mut init = with_mode("nvswitch-nvl5");
    let steps = finish(&mut init);
    assert_eq!(steps[0], Step::LoadModule("ib_umad"));
    assert_eq!(steps.len(), 5);
    assert_eq!(init.fabricmanager_enabled, Some(true));
}
