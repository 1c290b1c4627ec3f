//! Battery charge limits (`charge_control_end_threshold`, or Ideapad
//! conservation mode).
use crate::cli::BatteryCommands;
use crate::utils::text::{starts_with, str_eq, trim, trim_str};
use vstd::prelude::*;

verus! {

/// A charge limit must be a percentage from 1 to 100.
pub fn is_valid_charge_limit(percent: u8) -> (r: bool)
    ensures
        r == (1 <= percent <= 100),
{
    1 <= percent && percent <= 100
}

/// A `/sys/class/power_supply` entry that is a battery.
pub fn is_battery_name(name: &str) -> (r: bool)
    ensures
        r == starts_with(name@, "BAT"@),
{
    let v = crate::utils::text::str_chars(name);
    let p = crate::utils::text::str_chars("BAT");
    assert(v@.subrange(0, v.len() as int) =~= name@);
    crate::utils::text::range_starts_with(&v, 0, v.len(), &p)
}

/// Ideapads cannot set a limit: any limit below 100 turns conservation mode
/// on, and 100 turns it off.
pub fn conservation_mode_value(percent: u8) -> (r: &'static str)
    ensures
        r@ == (if percent < 100 {
            "1"@
        } else {
            "0"@
        }),
{
    if percent < 100 {
        "1"
    } else {
        "0"
    }
}

/// How the charge limit reads when the battery has no threshold file and
/// the Ideapad conservation mode is `mode`.
pub fn conservation_limit_text(mode: &str) -> (r: &'static str)
    ensures
        r@ == (if trim(mode@) == "1"@ {
            "Conservation Mode (~60%)"@
        } else {
            "100%"@
        }),
{
    let m = trim_str(mode);
    if str_eq(m.as_str(), "1") {
        "Conservation Mode (~60%)"
    } else {
        "100%"
    }
}

/// How a battery's charge limit is set.
#[derive(Clone, Copy, Debug, PartialEq, Eq, Structural)]
pub enum ChargeLimitMethod {
    /// Write the percentage to the battery's `charge_control_end_threshold`.
    Threshold,
    /// No threshold file: switch the Ideapad conservation mode instead.
    ConservationMode,
    /// Neither is available: the limit is not supported for this battery.
    Unsupported,
}

/// A battery's threshold file is used when present; otherwise an Ideapad
/// conservation mode switch, when one exists.
pub fn charge_limit_method(threshold_exists: bool, conservation_mode_exists: bool) -> (r:
    ChargeLimitMethod)
    ensures
        r == (if threshold_exists {
            ChargeLimitMethod::Threshold
        } else if conservation_mode_exists {
            ChargeLimitMethod::ConservationMode
        } else {
            ChargeLimitMethod::Unsupported
        }),
{
    if threshold_exists {
        ChargeLimitMethod::Threshold
    } else if conservation_mode_exists {
        ChargeLimitMethod::ConservationMode
    } else {
        ChargeLimitMethod::Unsupported
    }
}

pub open spec fn daemon_percent(command: BatteryCommands) -> Option<u32> {
    match command {
        BatteryCommands::Limit { percent } => Some(percent as u32),
        BatteryCommands::Status => None,
    }
}

pub open spec fn command_from_percent(percent: u32) -> BatteryCommands {
    BatteryCommands::Limit { percent: (percent % 256) as u8 }
}

/// The percentage the command line sends to the daemon; only limits are sent.
pub fn battery_daemon_percent(command: BatteryCommands) -> (r: Option<u32>)
    ensures
        r == daemon_percent(command),
{
    match command {
        BatteryCommands::Limit { percent } => Some(percent as u32),
        BatteryCommands::Status => None,
    }
}

/// The limit the daemon sets for a requested percentage (its low byte).
pub fn battery_command_from_daemon(percent: u32) -> (r: BatteryCommands)
    ensures
        r == command_from_percent(percent),
{
    BatteryCommands::Limit { percent: (percent % 256) as u8 }
}

/// A limit sent to the daemon is the one it sets.
pub proof fn lemma_battery_round_trip(command: BatteryCommands)
    requires
        command is Limit,
    ensures
        daemon_percent(command) matches Some(p) && command_from_percent(p) == command,
{
}

} // verus!
