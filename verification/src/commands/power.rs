//! Power profiles: ACPI platform profile, CPU governor and energy
//! performance preference.
use crate::cli::PowerCommands;
use crate::utils::text::{starts_with, str_eq};
use vstd::prelude::*;

verus! {

/// What a power profile writes to sysfs.
pub struct PowerSettings {
    /// Shown before the change: "Setting power profile to {title}".
    pub title: &'static str,
    /// `/sys/firmware/acpi/platform_profile`
    pub platform_profile: &'static str,
    /// `cpufreq/scaling_governor` of every core
    pub governor: &'static str,
    /// `cpufreq/energy_performance_preference` of every core
    pub energy_preference: &'static str,
}

pub open spec fn settings_are(
    s: PowerSettings,
    title: Seq<char>,
    profile: Seq<char>,
    governor: Seq<char>,
    epp: Seq<char>,
) -> bool {
    s.title@ == title && s.platform_profile@ == profile && s.governor@ == governor
        && s.energy_preference@ == epp
}

/// The settings of a profile; none for a TDP limit, which has no profile.
pub fn power_profile_settings(command: PowerCommands) -> (r: Option<PowerSettings>)
    ensures
        match command {
            PowerCommands::Performance => r matches Some(s) && settings_are(
                s,
                "Performance"@,
                "performance"@,
                "performance"@,
                "performance"@,
            ),
            PowerCommands::Balanced => r matches Some(s) && settings_are(
                s,
                "Balanced"@,
                "balanced"@,
                "schedutil"@,
                "balance_performance"@,
            ),
            PowerCommands::BatterySave => r matches Some(s) && settings_are(
                s,
                "Battery Saver"@,
                "low-power"@,
                "powersave"@,
                "power"@,
            ),
            PowerCommands::LimitTdp { .. } => r is None,
        },
{
    match command {
        PowerCommands::Performance => Some(
            PowerSettings {
                title: "Performance",
                platform_profile: "performance",
                governor: "performance",
                energy_preference: "performance",
            },
        ),
        PowerCommands::Balanced => Some(
            PowerSettings {
                title: "Balanced",
                platform_profile: "balanced",
                governor: "schedutil",
                energy_preference: "balance_performance",
            },
        ),
        PowerCommands::BatterySave => Some(
            PowerSettings {
                title: "Battery Saver",
                platform_profile: "low-power",
                governor: "powersave",
                energy_preference: "power",
            },
        ),
        PowerCommands::LimitTdp { .. } => None,
    }
}

/// A `/sys/devices/system/cpu` entry for one core: `cpu` then a digit.
pub fn is_cpu_core_name(name: &str) -> (r: bool)
    ensures
        r == (starts_with(name@, "cpu"@) && name@.len() > 3 && '0' <= name@[3] && name@[3] <= '9'),
{
    let v = crate::utils::text::str_chars(name);
    let p = crate::utils::text::str_chars("cpu");
    assert(v@.subrange(0, v.len() as int) =~= name@);
    if !crate::utils::text::range_starts_with(&v, 0, v.len(), &p) {
        return false;
    }
    v.len() > 3 && '0' <= v[3] && v[3] <= '9'
}

/// The profile the daemon applies for a requested profile name.
pub fn power_command_from_profile(profile: &str) -> (r: Option<PowerCommands>)
    ensures
        r == (if profile@ == "performance"@ {
            Some(PowerCommands::Performance)
        } else if profile@ == "balanced"@ {
            Some(PowerCommands::Balanced)
        } else if profile@ == "battery-save"@ {
            Some(PowerCommands::BatterySave)
        } else {
            None
        }),
{
    if str_eq(profile, "performance") {
        Some(PowerCommands::Performance)
    } else if str_eq(profile, "balanced") {
        Some(PowerCommands::Balanced)
    } else if str_eq(profile, "battery-save") {
        Some(PowerCommands::BatterySave)
    } else {
        None
    }
}

} // verus!
