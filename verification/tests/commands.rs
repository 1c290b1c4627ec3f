use lapctl::cli::{BatteryCommands, CoolingCommands, PowerCommands, TouchpadCommands};
use lapctl::commands::battery::{
    charge_limit_method, ChargeLimitMethod,
    battery_command_from_daemon, battery_daemon_percent, conservation_limit_text,
    conservation_mode_value, is_battery_name, is_valid_charge_limit,
};
use lapctl::commands::cooling::{
    cooling_command_from_profile, cooling_mode_description, cooling_profile_name, cooling_settings,
};
use lapctl::commands::fan::{
    cooling_device_line, default_fan_label, fan_display_name, fan_policy, fan_speed_line,
    parse_reading,
};
use lapctl::commands::power::{is_cpu_core_name, power_command_from_profile, power_profile_settings};
use lapctl::commands::temperature::{default_sensor_label, is_reported_thermal_zone, sensor_display_name};
use lapctl::commands::touchpad::{execute_local, inhibit_value, is_touchpad_device, touchpad_command_for};

#[test]
fn battery_limits() {
    assert!(!is_valid_charge_limit(0));
    assert!(is_valid_charge_limit(1));
    assert!(is_valid_charge_limit(100));
    assert!(!is_valid_charge_limit(101));
    assert!(is_battery_name("BAT0"));
    assert!(!is_battery_name("AC"));
    assert_eq!(conservation_mode_value(80), "1");
    assert_eq!(conservation_mode_value(100), "0");
    assert_eq!(conservation_limit_text("1\n"), "Conservation Mode (~60%)");
    assert_eq!(conservation_limit_text("0\n"), "100%");
    assert_eq!(battery_daemon_percent(BatteryCommands::Status), None);
    let sent = battery_daemon_percent(BatteryCommands::Limit { percent: 80 }).unwrap();
    assert_eq!(battery_command_from_daemon(sent), BatteryCommands::Limit { percent: 80 });
    assert_eq!(battery_command_from_daemon(300), BatteryCommands::Limit { percent: 44 });
}

#[test]
fn cooling_profiles() {
    for c in [CoolingCommands::Performance, CoolingCommands::Balanced, CoolingCommands::Quiet] {
        assert_eq!(cooling_command_from_profile(cooling_profile_name(c)), Some(c));
    }
    assert_eq!(cooling_command_from_profile("turbo"), None);
    let s = cooling_settings(CoolingCommands::Quiet);
    assert_eq!((s.ideapad_mode, s.asus_mode, s.description), ("2", "2", "Quiet"));
    let s = cooling_settings(CoolingCommands::Performance);
    assert_eq!((s.ideapad_mode, s.asus_mode, s.description), ("1", "1", "Performance"));
    assert_eq!(cooling_mode_description("2\n"), "Quiet / Battery Saving");
    assert_eq!(cooling_mode_description("0"), "Balanced");
    assert_eq!(cooling_mode_description(" 7 \n"), "7");
}

#[test]
fn power_profiles() {
    let s = power_profile_settings(PowerCommands::Balanced).unwrap();
    assert_eq!(
        (s.title, s.platform_profile, s.governor, s.energy_preference),
        ("Balanced", "balanced", "schedutil", "balance_performance")
    );
    let s = power_profile_settings(PowerCommands::BatterySave).unwrap();
    assert_eq!((s.platform_profile, s.governor, s.energy_preference), ("low-power", "powersave", "power"));
    assert!(power_profile_settings(PowerCommands::LimitTdp { watts: 35 }).is_none());
    assert!(is_cpu_core_name("cpu0"));
    assert!(is_cpu_core_name("cpu12"));
    assert!(!is_cpu_core_name("cpufreq"));
    assert!(!is_cpu_core_name("cpu"));
    assert_eq!(power_command_from_profile("battery-save"), Some(PowerCommands::BatterySave));
    assert_eq!(power_command_from_profile("quiet"), None);
}

#[test]
fn touchpad_devices() {
    assert!(execute_local(&TouchpadCommands::Disable));
    assert!(!execute_local(&TouchpadCommands::Enable));
    for c in [TouchpadCommands::Enable, TouchpadCommands::Disable] {
        assert_eq!(touchpad_command_for(execute_local(&c)), c);
    }
    assert_eq!(inhibit_value(true), "1");
    assert_eq!(inhibit_value(false), "0");
    assert!(is_touchpad_device("input5", "SynPS/2 Synaptics TouchPad\n"));
    assert!(is_touchpad_device("input7", "Apple Inc. Magic TRACKPAD"));
    assert!(!is_touchpad_device("input3", "AT Translated Set 2 keyboard"));
    assert!(!is_touchpad_device("event5", "ELAN Touchpad"));
}

#[test]
fn fan_and_temperature_lines() {
    assert_eq!(parse_reading(" 2400\n"), 2400);
    assert_eq!(parse_reading("+7"), 7);
    assert_eq!(parse_reading("-1"), 0);
    assert_eq!(parse_reading("18446744073709551616"), 0);
    assert_eq!(parse_reading("18446744073709551615"), u64::MAX);
    assert_eq!(fan_display_name("acpi_fan"), "CPU Fan");
    assert_eq!(fan_display_name("thinkpad"), "thinkpad");
    assert_eq!(default_fan_label(2), "Fan 2");
    assert_eq!(fan_speed_line("CPU Fan", "Fan 1", 0), "  CPU Fan (Fan 1): Stopped");
    assert_eq!(fan_speed_line("thinkpad", "fan1", 3100), "  thinkpad (fan1): 3100 RPM");
    assert_eq!(fan_policy(0, 5), "Off");
    assert_eq!(fan_policy(5, 5), "Full Speed");
    assert_eq!(fan_policy(2, 5), "Variable");
    assert_eq!(
        cooling_device_line("cooling_device3", "Fan", 1, 4),
        "  cooling_device3 (Fan): Level 1/4 (Variable)"
    );
    assert_eq!(sensor_display_name("k10temp"), "CPU");
    assert_eq!(sensor_display_name("mt7921_phy0"), "WiFi");
    assert_eq!(sensor_display_name("coretemp"), "coretemp");
    assert_eq!(default_sensor_label(3), "Sensor 3");
    assert!(!is_reported_thermal_zone("x86_pkg_temp"));
    assert!(is_reported_thermal_zone("INT3400 Thermal"));
}

#[test]
fn charge_limit_methods() {
    assert_eq!(charge_limit_method(true, true), ChargeLimitMethod::Threshold);
    assert_eq!(charge_limit_method(true, false), ChargeLimitMethod::Threshold);
    assert_eq!(charge_limit_method(false, true), ChargeLimitMethod::ConservationMode);
    assert_eq!(charge_limit_method(false, false), ChargeLimitMethod::Unsupported);
}
