use lapctl::utils::system::{
    initramfs_command, is_active_output, is_graphical_active_session, is_root_output,
    parse_display_manager, parse_session_ids, DistroFiles,
};

fn distro() -> DistroFiles {
    DistroFiles {
        ostree: false,
        sysroot_ostree: false,
        debian_version: false,
        redhat_release: false,
        zypper: false,
        endeavouros_release: false,
        dracut: false,
        altlinux_release: false,
        arch_release: false,
    }
}

#[test]
fn root_and_service_outputs() {
    assert!(is_root_output("0\n"));
    assert!(!is_root_output("1000\n"));
    assert!(is_active_output("active\n"));
    assert!(!is_active_output("inactive\n"));
}

#[test]
fn display_manager_names() {
    assert_eq!(
        parse_display_manager("FragmentPath=/usr/lib/systemd/system/sddm.service\n"),
        Some("sddm".to_string())
    );
    assert_eq!(
        parse_display_manager("FragmentPath=/usr/lib/systemd/system/lightdm.service"),
        Some("lightdm".to_string())
    );
    assert_eq!(parse_display_manager("FragmentPath=/etc/gdm.service.d\n"), Some("gdm.service.d".to_string()));
    assert_eq!(parse_display_manager("FragmentPath=/dev/null\n"), None);
    assert_eq!(parse_display_manager("FragmentPath=\n"), None);
    assert_eq!(parse_display_manager(""), None);
    assert_eq!(parse_display_manager("Other=x\nFragmentPath=/a/gdm\n"), None);
    assert_eq!(parse_display_manager("FragmentPath=/etc/lightdm/./\n"), Some("lightdm".to_string()));
    assert_eq!(parse_display_manager("FragmentPath=/etc/..\n"), None);
}

#[test]
fn sessions() {
    assert_eq!(
        parse_session_ids("  2 1000 alice seat0 tty2\r\n\n  c1  120 gdm\n"),
        vec!["2".to_string(), "c1".to_string()]
    );
    assert!(is_graphical_active_session("Type=wayland\nState=active\n"));
    assert!(is_graphical_active_session("State=online\nType=x11\n"));
    assert!(!is_graphical_active_session("Type=tty\nState=active\n"));
    assert!(!is_graphical_active_session("Type=x11\nState=closing\n"));
}

#[test]
fn initramfs_commands() {
    let mut f = distro();
    assert!(initramfs_command(&f, false).is_empty());
    assert_eq!(
        initramfs_command(&f, true),
        vec!["systemd-inhibit", "--who=lapctl", "--why", "Rebuilding initramfs", "--"]
    );
    f.arch_release = true;
    assert_eq!(initramfs_command(&f, false), vec!["mkinitcpio", "-P"]);
    f.debian_version = true;
    assert_eq!(initramfs_command(&f, false), vec!["update-initramfs", "-u", "-k", "all"]);
    f.sysroot_ostree = true;
    assert_eq!(
        initramfs_command(&f, true),
        vec![
            "systemd-inhibit",
            "--who=lapctl",
            "--why",
            "Rebuilding initramfs",
            "--",
            "rpm-ostree",
            "initramfs",
            "--enable",
            "--arg=--force"
        ]
    );
    let mut e = distro();
    e.endeavouros_release = true;
    assert!(initramfs_command(&e, false).is_empty());
    e.dracut = true;
    assert_eq!(initramfs_command(&e, false), vec!["dracut-rebuild"]);
}
