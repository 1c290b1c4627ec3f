//! Naming of temperature sensors.
use crate::utils::text::{dec, push_dec, str_eq};
use vstd::prelude::*;

verus! {

pub open spec fn sensor_name(hwmon_name: Seq<char>) -> Seq<char> {
    if hwmon_name == "k10temp"@ {
        "CPU"@
    } else if hwmon_name == "acpitz"@ {
        "ACPI Thermal Zone"@
    } else if hwmon_name == "nvme"@ {
        "NVMe SSD"@
    } else if hwmon_name == "mt7921_phy0"@ {
        "WiFi"@
    } else {
        hwmon_name
    }
}

/// How a hwmon chip is shown.
pub fn sensor_display_name(hwmon_name: &str) -> (r: String)
    ensures
        r@ == sensor_name(hwmon_name@),
{
    if str_eq(hwmon_name, "k10temp") {
        String::from_str("CPU")
    } else if str_eq(hwmon_name, "acpitz") {
        String::from_str("ACPI Thermal Zone")
    } else if str_eq(hwmon_name, "nvme") {
        String::from_str("NVMe SSD")
    } else if str_eq(hwmon_name, "mt7921_phy0") {
        String::from_str("WiFi")
    } else {
        String::from_str(hwmon_name)
    }
}

/// The label of sensor `index` when it has no `temp{index}_label`.
pub fn default_sensor_label(index: u64) -> (r: String)
    ensures
        r@ == "Sensor "@ + dec(index as nat),
{
    let mut r = String::from_str("Sensor ");
    push_dec(&mut r, index);
    r
}

/// Whether a thermal zone is still to be reported: zones of the types
/// `x86_pkg_temp`, `k10temp` and `acpitz` are already shown through hwmon.
pub fn is_reported_thermal_zone(zone_type: &str) -> (r: bool)
    ensures
        r == !(zone_type@ == "x86_pkg_temp"@ || zone_type@ == "k10temp"@ || zone_type@ == "acpitz"@),
{
    !(str_eq(zone_type, "x86_pkg_temp") || str_eq(zone_type, "k10temp") || str_eq(zone_type, "acpitz"))
}

} // verus!
