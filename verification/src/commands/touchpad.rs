//! Enabling and disabling the touchpad through the input `inhibited` switch.
use crate::cli::TouchpadCommands;
use crate::utils::text::{contains, starts_with, str_chars};
use vstd::prelude::*;

verus! {

/// What `str::to_lowercase` gives for `s` (full Unicode case mapping; a
/// function of `s` alone).
pub uninterp spec fn unicode_lowercase(s: Seq<char>) -> Seq<char>;

/// Calls `str::to_lowercase`. Claimed: the result is `unicode_lowercase(s)`.
#[verifier::external_body]
fn to_lowercase(s: &str) -> (r: String)
    ensures
        r@ == unicode_lowercase(s@),
{
    s.to_lowercase()
}

pub open spec fn inhibition_of(command: TouchpadCommands) -> bool {
    command == TouchpadCommands::Disable
}

pub open spec fn command_of_inhibition(inhibited: bool) -> TouchpadCommands {
    if inhibited {
        TouchpadCommands::Disable
    } else {
        TouchpadCommands::Enable
    }
}

/// The value of the `inhibited` switch for a command: inhibited to disable.
pub fn execute_local(command: &TouchpadCommands) -> (inhibited: bool)
    ensures
        inhibited == inhibition_of(*command),
{
    match command {
        TouchpadCommands::Enable => false,
        TouchpadCommands::Disable => true,
    }
}

/// The command the daemon runs for an inhibition request.
pub fn touchpad_command_for(inhibited: bool) -> (r: TouchpadCommands)
    ensures
        r == command_of_inhibition(inhibited),
{
    if inhibited {
        TouchpadCommands::Disable
    } else {
        TouchpadCommands::Enable
    }
}

/// A touchpad command sent to the daemon is the one it runs.
pub proof fn lemma_touchpad_round_trip(c: TouchpadCommands)
    ensures
        command_of_inhibition(inhibition_of(c)) == c,
{
}

/// The text written to an `inhibited` file.
pub fn inhibit_value(inhibited: bool) -> (r: &'static str)
    ensures
        r@ == (if inhibited {
            "1"@
        } else {
            "0"@
        }),
{
    if inhibited {
        "1"
    } else {
        "0"
    }
}

/// An entry of `/sys/class/input` named `input…` whose device name, in
/// lower case, mentions a touchpad or trackpad.
pub fn is_touchpad_device(entry_name: &str, device_name: &str) -> (r: bool)
    ensures
        r == (starts_with(entry_name@, "input"@) && (contains(
            unicode_lowercase(device_name@),
            "touchpad"@,
        ) || contains(unicode_lowercase(device_name@), "trackpad"@))),
{
    let e = str_chars(entry_name);
    let p = str_chars("input");
    assert(e@.subrange(0, e.len() as int) =~= entry_name@);
    if !crate::utils::text::range_starts_with(&e, 0, e.len(), &p) {
        return false;
    }
    let lower = to_lowercase(device_name);
    crate::utils::text::str_contains(lower.as_str(), "touchpad")
        || crate::utils::text::str_contains(lower.as_str(), "trackpad")
}

} // verus!
