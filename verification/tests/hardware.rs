use lapctl::hardware::gpu::{
    detect_gpu_mode, get_current_mode, parse_amd_igpu_name, parse_igpu_vendor,
    parse_nvidia_gpu_pci_addr, parse_nvidia_gpu_pci_bus, GpuMode, ModeFiles, PciBusLookup,
};

const LSPCI: &str = "00:00.0 Host bridge: Intel Corporation Device 9b61 (rev 0c)\n\
00:02.0 VGA compatible controller: Intel Corporation CometLake-U GT2 [UHD Graphics] (rev 02)\n\
01:00.0 3D controller: NVIDIA Corporation GP108M [GeForce MX330] (rev a1)\n";

fn files(blacklist: bool, udev: bool, legacy: bool, xorg: bool, marker: bool, modeset: bool) -> ModeFiles {
    ModeFiles {
        blacklist,
        udev_integrated: udev,
        legacy_udev_integrated: legacy,
        xorg,
        wayland_marker: marker,
        modeset,
    }
}

#[test]
fn current_mode_from_files() {
    assert_eq!(get_current_mode(&files(true, true, false, false, false, false)), "integrated");
    assert_eq!(get_current_mode(&files(true, false, true, true, false, true)), "integrated");
    assert_eq!(get_current_mode(&files(false, false, false, true, false, true)), "nvidia");
    assert_eq!(get_current_mode(&files(false, false, false, false, true, true)), "nvidia");
    assert_eq!(get_current_mode(&files(true, false, false, true, false, false)), "hybrid");
    assert_eq!(detect_gpu_mode(&files(false, false, false, false, false, true)), GpuMode::Hybrid);
}

#[test]
fn nvidia_bus_id() {
    match parse_nvidia_gpu_pci_bus(LSPCI) {
        PciBusLookup::Found(s) => assert_eq!(s, "PCI:1:0:0"),
        other => panic!("unexpected {:?}", other),
    }
    let with_domain = "0000:0a:1f.3 VGA compatible controller: NVIDIA Corporation TU117M\r\n";
    match parse_nvidia_gpu_pci_bus(with_domain) {
        PciBusLookup::Found(s) => assert_eq!(s, "PCI:10:31:3"),
        other => panic!("unexpected {:?}", other),
    }
    let bad_hex = "zz:0g.1 3D controller: NVIDIA Corporation\n";
    match parse_nvidia_gpu_pci_bus(bad_hex) {
        PciBusLookup::Found(s) => assert_eq!(s, "PCI:0:0:1"),
        other => panic!("unexpected {:?}", other),
    }
    assert!(matches!(
        parse_nvidia_gpu_pci_bus("00:02.0 VGA compatible controller: Intel Corporation\n"),
        PciBusLookup::NotFound
    ));
    assert!(matches!(
        parse_nvidia_gpu_pci_bus("NVIDIA 3D controller without address\n"),
        PciBusLookup::Malformed
    ));
    assert!(matches!(parse_nvidia_gpu_pci_bus("01:00 3D controller: NVIDIA\n"), PciBusLookup::Malformed));
}

#[test]
fn nvidia_pci_address() {
    assert_eq!(parse_nvidia_gpu_pci_addr(LSPCI), Some("0000:01:00.0".to_string()));
    assert_eq!(
        parse_nvidia_gpu_pci_addr("0000:01:00.0 VGA compatible controller: NVIDIA Corporation\n"),
        Some("0000:01:00.0".to_string())
    );
    assert_eq!(
        parse_nvidia_gpu_pci_addr("NVIDIA 3D controller\n02:00.0 3D controller: NVIDIA\n"),
        Some("0000:02:00.0".to_string())
    );
    assert_eq!(parse_nvidia_gpu_pci_addr(""), None);
}

#[test]
fn integrated_gpu_vendor() {
    assert_eq!(parse_igpu_vendor(LSPCI), Some("intel".to_string()));
    assert_eq!(
        parse_igpu_vendor("05:00.0 VGA compatible controller: Advanced Micro Devices, Inc. [AMD/ATI] Renoir\n"),
        Some("amd".to_string())
    );
    assert_eq!(
        parse_igpu_vendor("01:00.0 VGA compatible controller: NVIDIA Corporation\n"),
        None
    );
}

#[test]
fn amd_provider_name() {
    assert_eq!(
        parse_amd_igpu_name("Providers: number : 2\nProvider 0: id: 0x54 cap: 0xf name:AMD Radeon Graphics\n"),
        Some("AMD".to_string())
    );
    assert_eq!(
        parse_amd_igpu_name("Provider 1: id: 0x1 name:Unknown AMD/ATI device\n"),
        Some("Unknown AMD/ATI".to_string())
    );
    assert_eq!(parse_amd_igpu_name("Provider 0: id: 0x1 name:modesetting\n"), None);
}
