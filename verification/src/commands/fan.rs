//! Fan speeds from hwmon and fan policies from thermal cooling devices.
use crate::utils::text::{dec, parse_unsigned, parse_unsigned_range, push_dec, str_chars, str_eq, trim, trim_range};
use vstd::prelude::*;

verus! {

/// `raw.trim().parse::<u64>()`, with 0 when it fails.
pub open spec fn reading_value(raw: Seq<char>) -> nat {
    match parse_unsigned(trim(raw), 10, 0xffff_ffff_ffff_ffff) {
        Some(v) => v,
        None => 0,
    }
}

/// A sysfs reading as an unsigned number, 0 when it is not one.
pub fn parse_reading(raw: &str) -> (r: u64)
    ensures
        r == reading_value(raw@),
{
    let v = str_chars(raw);
    let (a, b) = trim_range(&v, 0, v.len());
    assert(v@.subrange(0, v.len() as int) =~= raw@);
    match parse_unsigned_range(&v, a, b, 10, 0xffff_ffff_ffff_ffff) {
        Some(x) => x,
        None => 0,
    }
}

/// How a hwmon chip is shown: `acpi_fan` as "CPU Fan", others by name.
pub fn fan_display_name(hwmon_name: &str) -> (r: String)
    ensures
        r@ == (if hwmon_name@ == "acpi_fan"@ {
            "CPU Fan"@
        } else {
            hwmon_name@
        }),
{
    if str_eq(hwmon_name, "acpi_fan") {
        String::from_str("CPU Fan")
    } else {
        String::from_str(hwmon_name)
    }
}

/// The label of fan `index` when it has no `fan{index}_label`.
pub fn default_fan_label(index: u64) -> (r: String)
    ensures
        r@ == "Fan "@ + dec(index as nat),
{
    let mut r = String::from_str("Fan ");
    push_dec(&mut r, index);
    r
}

/// The report line of one fan.
pub fn fan_speed_line(display_name: &str, label: &str, rpm: u64) -> (r: String)
    ensures
        r@ == "  "@ + display_name@ + " ("@ + label@ + "): "@ + (if rpm == 0 {
            "Stopped"@
        } else {
            dec(rpm as nat) + " RPM"@
        }),
{
    let mut r = String::from_str("  ");
    r.append(display_name);
    r.append(" (");
    r.append(label);
    r.append("): ");
    if rpm == 0 {
        r.append("Stopped");
    } else {
        push_dec(&mut r, rpm);
        r.append(" RPM");
    }
    r
}

/// The policy a fan cooling device's level shows.
pub fn fan_policy(cur_state: u64, max_state: u64) -> (r: &'static str)
    ensures
        r@ == (if cur_state == 0 {
            "Off"@
        } else if cur_state >= max_state {
            "Full Speed"@
        } else {
            "Variable"@
        }),
{
    if cur_state == 0 {
        "Off"
    } else if cur_state >= max_state {
        "Full Speed"
    } else {
        "Variable"
    }
}

/// The report line of a fan cooling device.
pub fn cooling_device_line(name: &str, zone_type: &str, cur_state: u64, max_state: u64) -> (r: String)
    ensures
        r@ == "  "@ + name@ + " ("@ + zone_type@ + "): Level "@ + dec(cur_state as nat) + "/"@ + dec(
            max_state as nat,
        ) + " ("@ + (if cur_state == 0 {
            "Off"@
        } else if cur_state >= max_state {
            "Full Speed"@
        } else {
            "Variable"@
        }) + ")"@,
{
    let mut r = String::from_str("  ");
    r.append(name);
    r.append(" (");
    r.append(zone_type);
    r.append("): Level ");
    push_dec(&mut r, cur_state);
    r.append("/");
    push_dec(&mut r, max_state);
    r.append(" (");
    r.append(fan_policy(cur_state, max_state));
    r.append(")");
    r
}

} // verus!
