use lapctl::cli::GpuCommands;
use lapctl::commands::gpu::{
    adjust_for_session, extra_xorg_config, generate_xrandr_script, gpu_command_from_daemon_call,
    gpu_daemon_call, hybrid_config_actions, check_rtd3, GpuConfigError, integrated_config_actions, is_nvidia_vga,
    is_wayland_session, modeset_config, nvidia_config_actions, nvidia_smi_power_report,
    switch_announcement, xorg_amd, xorg_config, xorg_intel, xorg_modesetting, ConfigAction,
    GpuDaemonCall, NvidiaSetup, EXTRA_XORG_PATH, LIGHTDM_CONFIG_PATH, LIGHTDM_SCRIPT_PATH,
    MODESET_PATH, SDDM_XSETUP_BACKUP_PATH, SDDM_XSETUP_PATH, UDEV_PM_PATH, WAYLAND_MARKER_PATH,
    XORG_PATH, BLACKLIST_PATH, UDEV_INTEGRATED_PATH, cleanup_paths,
};
use lapctl::commands::switch::{
    aborts_on_failure, no_reboot_preparation, reset_steps, switch_steps, NoRebootPreparation,
    SwitchStep, SwitchTarget,
};
use lapctl::hardware::gpu::parse_igpu_vendor;
use lapctl::hardware::gpu::{detect_gpu_mode, GpuMode, ModeFiles};

#[test]
fn test_xorg_intel_generation() {
    let output = xorg_intel("01:00.0");
    assert!(output.contains(r#"Identifier "intel""#));
    assert!(output.contains(r#"BusID "01:00.0""#));
}

#[test]
fn test_xorg_amd_generation() {
    let output = xorg_amd("02:00.0");
    assert!(output.contains(r#"Identifier "amdgpu""#));
    assert!(output.contains(r#"BusID "02:00.0""#));
}

#[test]
fn test_xrandr_script() {
    let intel_str = "intel".to_string();
    let script_with_intel = generate_xrandr_script(Some(&intel_str), None);
    assert!(
        script_with_intel.contains(r#"xrandr --setprovideroutputsource "modesetting" NVIDIA-0"#)
    );

    let script_without_igpu = generate_xrandr_script(None, None);
    assert!(
        script_without_igpu.contains(r#"xrandr --setprovideroutputsource "modesetting" NVIDIA-0"#)
    );
}

#[test]
fn xrandr_script_uses_amd_provider_name() {
    let amd = "amd".to_string();
    let script = generate_xrandr_script(Some(&amd), Some("AMD Radeon".to_string()));
    assert!(script.contains(r#"xrandr --setprovideroutputsource "AMD Radeon" NVIDIA-0"#));
    assert!(!script.contains("{}"));
    let fallback = generate_xrandr_script(Some(&amd), None);
    assert!(fallback.contains(r#"--setprovideroutputsource "modesetting" NVIDIA-0"#));
}

#[test]
fn xorg_modesetting_generation() {
    let output = xorg_modesetting("PCI:1:0:0");
    assert!(output.starts_with("# Automatically generated by lapctl\n"));
    assert!(output.contains("    BusID \"PCI:1:0:0\"\nEndSection\n"));
    assert!(output.contains(r#"Inactive "modesetting""#));
}

#[test]
fn xorg_config_by_vendor() {
    let intel = "intel".to_string();
    let other = "via".to_string();
    assert_eq!(xorg_config(Some(&intel), "PCI:1:0:0"), Some(xorg_intel("PCI:1:0:0")));
    assert_eq!(xorg_config(None, "PCI:1:0:0"), Some(xorg_modesetting("PCI:1:0:0")));
    assert_eq!(xorg_config(Some(&other), "PCI:1:0:0"), None);
}

#[test]
fn modeset_texts() {
    assert_eq!(
        modeset_config(Some(2), false),
        "# Automatically generated by lapctl\n\noptions nvidia-drm modeset=1\noptions nvidia \"NVreg_DynamicPowerManagement=0x02\"\noptions nvidia NVreg_UsePageAttributeTable=1 NVreg_InitializeSystemMemoryAllocations=0\n"
    );
    assert_eq!(
        modeset_config(None, true),
        "# Automatically generated by lapctl\n\noptions nvidia-current-drm modeset=1\noptions nvidia-current NVreg_UsePageAttributeTable=1 NVreg_InitializeSystemMemoryAllocations=0\n"
    );
    assert!(modeset_config(Some(3), true).contains("options nvidia-current \"NVreg_DynamicPowerManagement=0x03\""));
}

#[test]
fn extra_xorg_texts() {
    assert_eq!(extra_xorg_config(false, None), None);
    let both = extra_xorg_config(true, Some(28)).unwrap();
    assert!(both.ends_with(
        "    Option \"ForceCompositionPipeline\" \"true\"\n    Option \"Coolbits\" \"28\"\nEndSection\n"
    ));
    let only_coolbits = extra_xorg_config(false, Some(4)).unwrap();
    assert!(!only_coolbits.contains("ForceCompositionPipeline"));
    assert!(only_coolbits.ends_with("    Option \"Coolbits\" \"4\"\nEndSection\n"));
}

fn written_paths(actions: &[ConfigAction]) -> Vec<String> {
    actions
        .iter()
        .filter_map(|a| match a {
            ConfigAction::Write { path, .. } => Some(path.clone()),
            ConfigAction::Backup { .. } => None,
        })
        .collect()
}

fn mode_after(actions: &[ConfigAction]) -> GpuMode {
    let paths = written_paths(actions);
    let has = |p: &str| paths.iter().any(|x| x == p);
    detect_gpu_mode(&ModeFiles {
        blacklist: has("/etc/modprobe.d/blacklist-nvidia.conf"),
        udev_integrated: has("/etc/udev/rules.d/50-remove-nvidia.rules"),
        legacy_udev_integrated: false,
        xorg: has(XORG_PATH),
        wayland_marker: has(WAYLAND_MARKER_PATH),
        modeset: has(MODESET_PATH),
    })
}

fn setup(vendor: Option<&str>, dm: Option<&str>, wayland: bool) -> NvidiaSetup {
    NvidiaSetup {
        pci_bus: "PCI:1:0:0".to_string(),
        igpu_vendor: vendor.map(|v| v.to_string()),
        amd_igpu_name: None,
        display_manager: dm.map(|d| d.to_string()),
        force_comp: false,
        coolbits: None,
        use_nvidia_current: false,
        wayland,
    }
}

#[test]
fn switching_reads_back_the_mode() {
    assert_eq!(mode_after(&integrated_config_actions()), GpuMode::Integrated);
    assert_eq!(mode_after(&hybrid_config_actions(Some(2), false).unwrap()), GpuMode::Hybrid);
    assert_eq!(mode_after(&hybrid_config_actions(None, true).unwrap()), GpuMode::Hybrid);
    assert_eq!(mode_after(&nvidia_config_actions(&setup(Some("intel"), None, false))), GpuMode::Nvidia);
    assert_eq!(mode_after(&nvidia_config_actions(&setup(None, Some("sddm"), true))), GpuMode::Nvidia);
    // Another vendor gets no Xorg file, so the files read back as hybrid.
    assert_eq!(mode_after(&nvidia_config_actions(&setup(Some("via"), None, false))), GpuMode::Hybrid);
}

#[test]
fn hybrid_writes_pm_rules_with_rtd3() {
    let paths = written_paths(&hybrid_config_actions(Some(1), false).unwrap());
    assert_eq!(paths, vec![MODESET_PATH.to_string(), UDEV_PM_PATH.to_string()]);
    let paths = written_paths(&hybrid_config_actions(None, false).unwrap());
    assert_eq!(paths, vec![MODESET_PATH.to_string()]);
}

#[test]
fn nvidia_display_manager_hooks() {
    let sddm = nvidia_config_actions(&setup(Some("intel"), Some("sddm"), false));
    match &sddm[2] {
        ConfigAction::Backup { path, backup } => {
            assert_eq!(path, SDDM_XSETUP_PATH);
            assert_eq!(backup, SDDM_XSETUP_BACKUP_PATH);
        }
        other => panic!("expected a backup, got {:?}", other),
    }
    match &sddm[3] {
        ConfigAction::Write { path, content, executable } => {
            assert_eq!(path, SDDM_XSETUP_PATH);
            assert!(*executable);
            assert!(content.contains(r#"--setprovideroutputsource "modesetting" NVIDIA-0"#));
        }
        other => panic!("expected a write, got {:?}", other),
    }
    let lightdm = written_paths(&nvidia_config_actions(&setup(None, Some("lightdm"), false)));
    assert_eq!(
        lightdm,
        vec![
            MODESET_PATH.to_string(),
            XORG_PATH.to_string(),
            LIGHTDM_SCRIPT_PATH.to_string(),
            LIGHTDM_CONFIG_PATH.to_string()
        ]
    );
    let mut extra = setup(Some("amd"), Some("gdm.service"), false);
    extra.force_comp = true;
    let paths = written_paths(&nvidia_config_actions(&extra));
    assert_eq!(
        paths,
        vec![MODESET_PATH.to_string(), XORG_PATH.to_string(), EXTRA_XORG_PATH.to_string()]
    );
    let wayland = written_paths(&nvidia_config_actions(&setup(Some("amd"), Some("sddm"), true)));
    assert_eq!(wayland, vec![MODESET_PATH.to_string(), WAYLAND_MARKER_PATH.to_string()]);
}

#[test]
fn switch_step_orders() {
    assert_eq!(
        switch_steps(SwitchTarget::Integrated, false),
        vec![
            SwitchStep::AcquireLock,
            SwitchStep::EnsureCache,
            SwitchStep::Cleanup,
            SwitchStep::WriteConfig,
            SwitchStep::SetPersistenced { enable: false },
            SwitchStep::RebuildInitramfs
        ]
    );
    assert_eq!(
        switch_steps(SwitchTarget::Hybrid, true),
        vec![
            SwitchStep::AcquireLock,
            SwitchStep::RescanPci,
            SwitchStep::EnsureCache,
            SwitchStep::Cleanup,
            SwitchStep::PrepareNoReboot,
            SwitchStep::KillGpuProcesses,
            SwitchStep::SetPersistenced { enable: true },
            SwitchStep::WriteConfig
        ]
    );
    let nvidia = switch_steps(SwitchTarget::Nvidia, false);
    assert_eq!(nvidia[0], SwitchStep::AcquireLock);
    assert!(nvidia.contains(&SwitchStep::ReadBusId));
    assert_eq!(nvidia.last(), Some(&SwitchStep::RebuildInitramfs));
}

#[test]
fn gpu_daemon_round_trip() {
    let cmds = vec![
        GpuCommands::Integrated { no_reboot: true },
        GpuCommands::Hybrid { rtd3: Some(3), use_nvidia_current: true, no_reboot: false },
        GpuCommands::Hybrid { rtd3: None, use_nvidia_current: false, no_reboot: true },
        GpuCommands::Nvidia {
            dm: Some("sddm".to_string()),
            force_comp: true,
            coolbits: Some(28),
            use_nvidia_current: false,
            wayland: true,
            no_reboot: false,
        },
        GpuCommands::Nvidia {
            dm: None,
            force_comp: false,
            coolbits: None,
            use_nvidia_current: true,
            wayland: false,
            no_reboot: true,
        },
    ];
    for cmd in cmds {
        let call = gpu_daemon_call(&cmd).unwrap();
        let back = gpu_command_from_daemon_call(call);
        assert_eq!(format!("{:?}", back), format!("{:?}", cmd));
    }
    assert!(gpu_daemon_call(&GpuCommands::Query).is_none());
}

#[test]
fn gpu_daemon_encoding_edges() {
    let big = GpuCommands::Nvidia {
        dm: Some(String::new()),
        force_comp: false,
        coolbits: Some(3_000_000_000),
        use_nvidia_current: false,
        wayland: false,
        no_reboot: false,
    };
    match gpu_daemon_call(&big).unwrap() {
        GpuDaemonCall::Nvidia { dm, coolbits, .. } => {
            assert_eq!(dm, "");
            assert_eq!(coolbits, 3_000_000_000u32 as i32);
        }
        other => panic!("unexpected {:?}", other),
    }
    let hybrid = gpu_command_from_daemon_call(GpuDaemonCall::Hybrid {
        rtd3: 258,
        use_nvidia_current: false,
        no_reboot: false,
    });
    match hybrid {
        GpuCommands::Hybrid { rtd3, .. } => assert_eq!(rtd3, Some(2)),
        other => panic!("unexpected {:?}", other),
    }
}

#[test]
fn wayland_session_adjustment() {
    assert!(is_wayland_session(true, None));
    assert!(is_wayland_session(false, Some("wayland")));
    assert!(!is_wayland_session(false, Some("x11")));
    let cmd = GpuCommands::Nvidia {
        dm: None,
        force_comp: false,
        coolbits: None,
        use_nvidia_current: false,
        wayland: false,
        no_reboot: false,
    };
    let (adjusted, changed) = adjust_for_session(cmd, true);
    assert!(changed);
    match adjusted {
        GpuCommands::Nvidia { wayland, .. } => assert!(wayland),
        other => panic!("unexpected {:?}", other),
    }
    let (same, changed) = adjust_for_session(GpuCommands::Query, true);
    assert!(!changed);
    assert!(matches!(same, GpuCommands::Query));
    assert_eq!(
        switch_announcement(&GpuCommands::Integrated { no_reboot: false }),
        Some("Switching to Integrated GPU mode...")
    );
    assert_eq!(switch_announcement(&GpuCommands::Reset), None);
}

#[test]
fn gpu_power_state_parsing() {
    assert!(is_nvidia_vga("0x10de\n", "0x030000\n"));
    assert!(!is_nvidia_vga("0x10de\n", "0x040300\n"));
    assert!(!is_nvidia_vga("0x8086\n", "0x030000\n"));
    let report = nvidia_smi_power_report(
        "12.34 W, 80.00 W, 80.00 W, 95.00 W, 210 MHz, 1755 MHz\nbad line\n5 W, 6 W, 7 W, 8 W, 9 MHz\n",
    );
    assert_eq!(
        report,
        vec![
            "",
            "  Power Draw: 12.34 W",
            "  Power Limit: 80.00 W",
            "  Default Limit: 80.00 W",
            "  Max Limit: 95.00 W",
            "  Current Clock: 210 MHz",
            "  Max Clock: 1755 MHz",
            "",
            "  Power Draw: 5 W",
            "  Power Limit: 6 W",
            "  Default Limit: 7 W",
            "  Max Limit: 8 W",
            "  Current Clock: 9 MHz",
        ]
    );
}

#[test]
fn cleanup_removes_every_mode_file() {
    let paths = cleanup_paths();
    assert_eq!(paths.len(), 12);
    for p in [BLACKLIST_PATH, UDEV_INTEGRATED_PATH, XORG_PATH, MODESET_PATH, WAYLAND_MARKER_PATH] {
        assert!(paths.contains(&p));
    }
    assert!(paths.contains(&"/lib/udev/rules.d/50-remove-nvidia.rules"));
    assert_eq!(paths[11], "/lib/udev/rules.d/80-nvidia-pm.rules");
    // With every mode file gone, the system reads as hybrid.
    let none = ModeFiles {
        blacklist: false,
        udev_integrated: false,
        legacy_udev_integrated: false,
        xorg: false,
        wayland_marker: false,
        modeset: false,
    };
    assert_eq!(detect_gpu_mode(&none), GpuMode::Hybrid);
}

#[test]
fn every_switch_is_undone_by_cleanup() {
    let cleaned = cleanup_paths();
    let mut switches = vec![
        integrated_config_actions(),
        hybrid_config_actions(Some(2), true).unwrap(),
        hybrid_config_actions(None, false).unwrap(),
    ];
    let mut full = setup(Some("intel"), Some("sddm"), false);
    full.force_comp = true;
    full.coolbits = Some(4);
    switches.push(nvidia_config_actions(&full));
    switches.push(nvidia_config_actions(&setup(Some("amd"), Some("lightdm"), false)));
    switches.push(nvidia_config_actions(&setup(None, None, true)));
    for actions in switches {
        for a in &actions {
            match a {
                ConfigAction::Write { path, .. } => {
                    assert!(cleaned.contains(&path.as_str()) || path == SDDM_XSETUP_PATH, "{}", path)
                }
                ConfigAction::Backup { path, backup } => {
                    assert_eq!(path, SDDM_XSETUP_PATH);
                    assert_eq!(backup, SDDM_XSETUP_BACKUP_PATH);
                }
            }
        }
    }
}

#[test]
fn rtd3_levels_above_three_are_refused() {
    for v in 0..=3u8 {
        assert!(check_rtd3(Some(v)).is_ok());
        assert!(hybrid_config_actions(Some(v), false).is_ok());
    }
    assert!(check_rtd3(None).is_ok());
    assert_eq!(check_rtd3(Some(4)), Err(GpuConfigError::InvalidRtd3 { value: 4 }));
    assert!(matches!(
        hybrid_config_actions(Some(10), false),
        Err(GpuConfigError::InvalidRtd3 { value: 10 })
    ));
    assert!(matches!(
        hybrid_config_actions(Some(255), true),
        Err(GpuConfigError::InvalidRtd3 { value: 255 })
    ));
}

#[test]
fn xorg_layouts_match_their_full_text() {
    assert_eq!(
        xorg_intel("PCI:1:0:0"),
        r#"# Automatically generated by lapctl

Section "ServerLayout"
    Identifier "layout"
    Screen 0 "nvidia"
    Inactive "intel"
EndSection

Section "Device"
    Identifier "nvidia"
    Driver "nvidia"
    BusID "PCI:1:0:0"
EndSection

Section "Screen"
    Identifier "nvidia"
    Device "nvidia"
    Option "AllowEmptyInitialConfiguration"
EndSection

Section "Device"
    Identifier "intel"
    Driver "modesetting"
EndSection

Section "Screen"
    Identifier "intel"
    Device "intel"
EndSection
"#
    );
    assert_eq!(
        xorg_amd("PCI:1:0:0"),
        r#"# Automatically generated by lapctl

Section "ServerLayout"
    Identifier "layout"
    Screen 0 "nvidia"
    Inactive "amdgpu"
EndSection

Section "Device"
    Identifier "nvidia"
    Driver "nvidia"
    BusID "PCI:1:0:0"
EndSection

Section "Screen"
    Identifier "nvidia"
    Device "nvidia"
    Option "AllowEmptyInitialConfiguration"
EndSection

Section "Device"
    Identifier "amdgpu"
    Driver "amdgpu"
EndSection

Section "Screen"
    Identifier "amd"
    Device "amdgpu"
EndSection
"#
    );
    assert_eq!(
        xorg_modesetting("PCI:1:0:0"),
        r#"# Automatically generated by lapctl

Section "ServerLayout"
    Identifier "layout"
    Screen 0 "nvidia"
    Inactive "modesetting"
EndSection

Section "Device"
    Identifier "nvidia"
    Driver "nvidia"
    BusID "PCI:1:0:0"
EndSection

Section "Screen"
    Identifier "nvidia"
    Device "nvidia"
    Option "AllowEmptyInitialConfiguration"
EndSection

Section "Device"
    Identifier "modesetting"
    Driver "modesetting"
EndSection

Section "Screen"
    Identifier "modesetting"
    Device "modesetting"
EndSection
"#
    );
}

#[test]
fn reset_step_orders() {
    assert_eq!(
        reset_steps(GpuMode::Hybrid, false),
        vec![SwitchStep::EnsureCache, SwitchStep::Cleanup, SwitchStep::RemoveCache, SwitchStep::RebuildInitramfs]
    );
    assert_eq!(
        reset_steps(GpuMode::Hybrid, true),
        vec![SwitchStep::Cleanup, SwitchStep::RemoveCache, SwitchStep::RebuildInitramfs]
    );
    assert_eq!(
        reset_steps(GpuMode::Nvidia, false),
        vec![SwitchStep::Cleanup, SwitchStep::RemoveCache, SwitchStep::RebuildInitramfs]
    );
}

#[test]
fn detected_sddm_gets_its_xsetup_script() {
    let dm = lapctl::utils::system::parse_display_manager(
        "FragmentPath=/usr/lib/systemd/system/sddm.service\n",
    );
    let s = NvidiaSetup {
        pci_bus: "PCI:1:0:0".to_string(),
        igpu_vendor: Some("intel".to_string()),
        amd_igpu_name: None,
        display_manager: dm,
        force_comp: false,
        coolbits: None,
        use_nvidia_current: false,
        wayland: false,
    };
    let paths = written_paths(&nvidia_config_actions(&s));
    assert!(paths.contains(&SDDM_XSETUP_PATH.to_string()));
}

#[test]
fn modesetting_layout_is_intel_renamed() {
    for bus in ["PCI:1:0:0", "PCI:0:2:0", ""] {
        assert_eq!(
            xorg_intel(bus).replace("\"intel\"", "\"modesetting\""),
            xorg_modesetting(bus)
        );
    }
    // A bus id that forms the quoted name between the BusID quotes is renamed too.
    assert_ne!(
        xorg_intel("intel").replace("\"intel\"", "\"modesetting\""),
        xorg_modesetting("intel")
    );
}

#[test]
fn probed_vendor_switch_reads_back_nvidia() {
    let lspci = "00:02.0 VGA compatible controller: Advanced Micro Devices, Inc. [AMD/ATI] Renoir\n\
01:00.0 3D controller: NVIDIA Corporation TU117M\n";
    let mut s = setup(None, Some("sddm"), false);
    s.igpu_vendor = parse_igpu_vendor(lspci);
    assert_eq!(s.igpu_vendor, Some("amd".to_string()));
    assert_eq!(mode_after(&nvidia_config_actions(&s)), GpuMode::Nvidia);
}

#[test]
fn switch_failures_and_no_reboot_preparation() {
    assert!(aborts_on_failure(SwitchStep::AcquireLock));
    assert!(aborts_on_failure(SwitchStep::PrepareNoReboot));
    assert!(aborts_on_failure(SwitchStep::WriteConfig));
    assert!(!aborts_on_failure(SwitchStep::RescanPci));
    assert!(!aborts_on_failure(SwitchStep::KillGpuProcesses));
    assert!(!aborts_on_failure(SwitchStep::SetPersistenced { enable: true }));
    assert_eq!(no_reboot_preparation(true, 3), NoRebootPreparation::StopDisplayManager);
    assert_eq!(no_reboot_preparation(false, 2), NoRebootPreparation::TerminateSessions);
    assert_eq!(no_reboot_preparation(false, 0), NoRebootPreparation::Nothing);
}
