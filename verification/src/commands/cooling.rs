//! Cooling profiles for Lenovo Ideapad (`fan_mode`) and ASUS
//! (`throttle_thermal_policy`) firmware.
use crate::cli::CoolingCommands;
use crate::utils::text::{str_eq, trim, trim_str};
use vstd::prelude::*;

verus! {

/// What a cooling profile writes.
pub struct CoolingSettings {
    /// Ideapad `fan_mode` value.
    pub ideapad_mode: &'static str,
    /// ASUS `throttle_thermal_policy` value.
    pub asus_mode: &'static str,
    /// Shown before the change: "Setting thermal/cooling profile to {description}".
    pub description: &'static str,
}

/// The firmware values of a cooling profile.
pub fn cooling_settings(command: CoolingCommands) -> (r: CoolingSettings)
    ensures
        match command {
            CoolingCommands::Performance => r.ideapad_mode@ == "1"@ && r.asus_mode@ == "1"@
                && r.description@ == "Performance"@,
            CoolingCommands::Balanced => r.ideapad_mode@ == "0"@ && r.asus_mode@ == "0"@
                && r.description@ == "Balanced"@,
            CoolingCommands::Quiet => r.ideapad_mode@ == "2"@ && r.asus_mode@ == "2"@
                && r.description@ == "Quiet"@,
        },
{
    match command {
        CoolingCommands::Performance => CoolingSettings {
            ideapad_mode: "1",
            asus_mode: "1",
            description: "Performance",
        },
        CoolingCommands::Balanced => CoolingSettings {
            ideapad_mode: "0",
            asus_mode: "0",
            description: "Balanced",
        },
        CoolingCommands::Quiet => CoolingSettings {
            ideapad_mode: "2",
            asus_mode: "2",
            description: "Quiet",
        },
    }
}

pub open spec fn profile_name(command: CoolingCommands) -> Seq<char> {
    match command {
        CoolingCommands::Performance => "performance"@,
        CoolingCommands::Balanced => "balanced"@,
        CoolingCommands::Quiet => "quiet"@,
    }
}

pub open spec fn command_for_profile(profile: Seq<char>) -> Option<CoolingCommands> {
    if profile == "performance"@ {
        Some(CoolingCommands::Performance)
    } else if profile == "balanced"@ {
        Some(CoolingCommands::Balanced)
    } else if profile == "quiet"@ {
        Some(CoolingCommands::Quiet)
    } else {
        None
    }
}

/// The profile name the command line sends to the daemon.
pub fn cooling_profile_name(command: CoolingCommands) -> (r: &'static str)
    ensures
        r@ == profile_name(command),
{
    match command {
        CoolingCommands::Performance => "performance",
        CoolingCommands::Balanced => "balanced",
        CoolingCommands::Quiet => "quiet",
    }
}

/// The profile the daemon applies for a requested name.
pub fn cooling_command_from_profile(profile: &str) -> (r: Option<CoolingCommands>)
    ensures
        r == command_for_profile(profile@),
{
    if str_eq(profile, "performance") {
        Some(CoolingCommands::Performance)
    } else if str_eq(profile, "balanced") {
        Some(CoolingCommands::Balanced)
    } else if str_eq(profile, "quiet") {
        Some(CoolingCommands::Quiet)
    } else {
        None
    }
}

/// A cooling profile sent to the daemon is the one it applies.
pub proof fn lemma_cooling_round_trip(command: CoolingCommands)
    ensures
        command_for_profile(profile_name(command)) == Some(command),
{
    reveal_strlit("performance");
    reveal_strlit("balanced");
    reveal_strlit("quiet");
    match command {
        CoolingCommands::Performance => {},
        CoolingCommands::Balanced => {
            assert("balanced"@ != "performance"@) by {
                assert("balanced"@[0] != "performance"@[0]);
            }
        },
        CoolingCommands::Quiet => {
            assert("quiet"@ != "performance"@) by {
                assert("quiet"@.len() != "performance"@.len());
            }
            assert("quiet"@ != "balanced"@) by {
                assert("quiet"@.len() != "balanced"@.len());
            }
        },
    }
}

/// How `lapctl status` names a firmware cooling mode value.
pub open spec fn mode_description(raw: Seq<char>) -> Seq<char> {
    let m = trim(raw);
    if m == "1"@ {
        "Performance"@
    } else if m == "0"@ {
        "Balanced"@
    } else if m == "2"@ {
        "Quiet / Battery Saving"@
    } else {
        m
    }
}

/// The name of an Ideapad `fan_mode` or ASUS thermal policy value.
pub fn cooling_mode_description(raw: &str) -> (r: String)
    ensures
        r@ == mode_description(raw@),
{
    let m = trim_str(raw);
    if str_eq(m.as_str(), "1") {
        String::from_str("Performance")
    } else if str_eq(m.as_str(), "0") {
        String::from_str("Balanced")
    } else if str_eq(m.as_str(), "2") {
        String::from_str("Quiet / Battery Saving")
    } else {
        m
    }
}

} // verus!
