//! GPU mode switching: the configuration files each mode needs, the order of
//! the steps of a switch, and the requests exchanged with the daemon.
use crate::cli::{GpuCommands, GpuCommandsView};
use crate::hardware::gpu::{igpu_vendor_finder, spec_gpu_mode, GpuMode, ModeFiles};
use crate::utils::text::{
    contains, dec, first_hit, has_pair_from, lemma_dec_digits, lemma_match_contained,
    lemma_no_char_no_pair, lemma_no_pair_not_contained, lemma_pair_concat,
    lemma_no_pair_no_match, lemma_replace_absent,
    lemma_replace_concat, lemma_replace_whole, lines, match_at, next_line, push_dec,
    range_starts_with, replace, replace_str, split, split_range, starts_with, str_chars, str_eq,
    trim, trim_range, trim_str,
};
use vstd::prelude::*;

verus! {

pub const CACHE_FILE_PATH: &'static str = "/var/cache/lapctl/cache.json";

pub const BLACKLIST_PATH: &'static str = "/etc/modprobe.d/blacklist-nvidia.conf";

pub const BLACKLIST_CONTENT: &'static str = "# Automatically generated by lapctl
blacklist nouveau
blacklist nova_core
blacklist nova_drm
blacklist nvidia
blacklist nvidia_drm
blacklist nvidia_uvm
blacklist nvidia_modeset
blacklist nvidia_current
blacklist nvidia_current_drm
blacklist nvidia_current_uvm
blacklist nvidia_current_modeset
blacklist i2c_nvidia_gpu
alias nouveau off
alias nova_core off
alias nova_drm off
alias nvidia off
alias nvidia_drm off
alias nvidia_uvm off
alias nvidia_modeset off
alias nvidia_current off
alias nvidia_current_drm off
alias nvidia_current_uvm off
alias nvidia_current_modeset off
alias i2c_nvidia_gpu off
";

pub const UDEV_INTEGRATED_PATH: &'static str = "/etc/udev/rules.d/50-remove-nvidia.rules";

pub const UDEV_INTEGRATED: &'static str = "# Automatically generated by lapctl

# Remove NVIDIA USB xHCI Host Controller devices, if present
ACTION==\"add\", SUBSYSTEM==\"pci\", ATTR{vendor}==\"0x10de\", ATTR{class}==\"0x0c0330\", ATTR{power/control}=\"auto\", ATTR{remove}=\"1\"

# Remove NVIDIA USB Type-C UCSI devices, if present
ACTION==\"add\", SUBSYSTEM==\"pci\", ATTR{vendor}==\"0x10de\", ATTR{class}==\"0x0c8000\", ATTR{power/control}=\"auto\", ATTR{remove}=\"1\"

# Remove NVIDIA Audio devices, if present
ACTION==\"add\", SUBSYSTEM==\"pci\", ATTR{vendor}==\"0x10de\", ATTR{class}==\"0x040300\", ATTR{power/control}=\"auto\", ATTR{remove}=\"1\"

# Remove NVIDIA VGA/3D controller devices
ACTION==\"add\", SUBSYSTEM==\"pci\", ATTR{vendor}==\"0x10de\", ATTR{class}==\"0x03[0-9]*\", ATTR{power/control}=\"auto\", ATTR{remove}=\"1\"
";

pub const UDEV_PM_PATH: &'static str = "/etc/udev/rules.d/80-nvidia-pm.rules";

pub const UDEV_PM_CONTENT: &'static str = "# Automatically generated by lapctl

# Remove NVIDIA USB xHCI Host Controller devices, if present
ACTION==\"add\", SUBSYSTEM==\"pci\", ATTR{vendor}==\"0x10de\", ATTR{class}==\"0x0c0330\", ATTR{remove}=\"1\"

# Remove NVIDIA USB Type-C UCSI devices, if present
ACTION==\"add\", SUBSYSTEM==\"pci\", ATTR{vendor}==\"0x10de\", ATTR{class}==\"0x0c8000\", ATTR{remove}=\"1\"

# Remove NVIDIA Audio devices, if present
ACTION==\"add\", SUBSYSTEM==\"pci\", ATTR{vendor}==\"0x10de\", ATTR{class}==\"0x040300\", ATTR{remove}=\"1\"

# Enable runtime PM for NVIDIA VGA/3D controller devices on driver bind
ACTION==\"bind\", SUBSYSTEM==\"pci\", ATTR{vendor}==\"0x10de\", ATTR{class}==\"0x030000\", TEST==\"power/control\", ATTR{power/control}=\"auto\"
ACTION==\"bind\", SUBSYSTEM==\"pci\", ATTR{vendor}==\"0x10de\", ATTR{class}==\"0x030200\", TEST==\"power/control\", ATTR{power/control}=\"auto\"

# Disable runtime PM for NVIDIA VGA/3D controller devices on driver unbind
ACTION==\"unbind\", SUBSYSTEM==\"pci\", ATTR{vendor}==\"0x10de\", ATTR{class}==\"0x030000\", TEST==\"power/control\", ATTR{power/control}=\"on\"
ACTION==\"unbind\", SUBSYSTEM==\"pci\", ATTR{vendor}==\"0x10de\", ATTR{class}==\"0x030200\", TEST==\"power/control\", ATTR{power/control}=\"on\"
";

pub const XORG_PATH: &'static str = "/etc/X11/xorg.conf";

pub const EXTRA_XORG_PATH: &'static str = "/etc/X11/xorg.conf.d/10-nvidia.conf";

pub const MODESET_PATH: &'static str = "/etc/modprobe.d/nvidia.conf";

pub const SDDM_XSETUP_PATH: &'static str = "/usr/share/sddm/scripts/Xsetup";

pub const SDDM_XSETUP_BACKUP_PATH: &'static str = "/usr/share/sddm/scripts/Xsetup.bak";

pub const LIGHTDM_SCRIPT_PATH: &'static str = "/etc/lightdm/nvidia.sh";

pub const LIGHTDM_CONFIG_PATH: &'static str = "/etc/lightdm/lightdm.conf.d/20-nvidia.conf";

pub const WAYLAND_MARKER_PATH: &'static str = "/etc/lapctl-wayland-nvidia";

pub const WAYLAND_MARKER_CONTENT: &'static str = "# Wayland mode marker for lapctl\n";

pub const SDDM_XSETUP_CONTENT: &'static str = "#!/bin/sh
# Xsetup - run as root before the login dialog appears

";

pub const EXTRA_XORG_CONTENT: &'static str = "# Automatically generated by lapctl

Section \"OutputClass\"
    Identifier \"nvidia\"
    MatchDriver \"nvidia-drm\"
    Driver \"nvidia\"
";

pub const FORCE_COMPOSITION_LINE: &'static str = "    Option \"ForceCompositionPipeline\" \"true\"\n";

pub const COOLBITS_LINE_START: &'static str = "    Option \"Coolbits\" \"";

pub const COOLBITS_LINE_END: &'static str = "\"\n";

pub const END_SECTION: &'static str = "EndSection\n";

pub const LIGHTDM_CONFIG_CONTENT: &'static str = "# Automatically generated by lapctl

[Seat:*]
display-setup-script=/etc/lightdm/nvidia.sh
";

pub const NVIDIA_XRANDR_SCRIPT: &'static str = "#!/bin/sh
# Automatically generated by lapctl

current=\"\"

xrandr --setprovideroutputsource \"{}\" NVIDIA-0
xrandr --auto

for next in $(xrandr --listmonitors | grep -E \" *[0-9]+:.*\" | cut -d\" \" -f6); do
  [ -z \"$current\" ] && current=$next && continue
  xrandr --output \"$current\" --auto --output \"$next\" --auto --right-of \"$current\"
  current=$next
done
";

pub const XORG_LAYOUT_0: &'static str = "# Automatically generated by lapctl

Section \"ServerLayout\"
    Identifier \"layout\"
    Screen 0 \"nvidia\"
    Inactive ";

pub const XORG_LAYOUT_1: &'static str = "
EndSection

Section \"Device\"
    Identifier \"nvidia\"
    Driver \"nvidia\"
    BusID ";

pub const XORG_LAYOUT_2: &'static str = "
EndSection

Section \"Screen\"
    Identifier \"nvidia\"
    Device \"nvidia\"
    Option \"AllowEmptyInitialConfiguration\"
EndSection

Section \"Device\"
    Identifier ";

pub const XORG_LAYOUT_3: &'static str = "
    Driver ";

pub const XORG_LAYOUT_4: &'static str = "
EndSection

Section \"Screen\"
    Identifier ";

pub const XORG_LAYOUT_5: &'static str = "
    Device ";

pub const XORG_LAYOUT_6: &'static str = "
EndSection
";

/// `x` in double quotes.
pub open spec fn quoted(x: Seq<char>) -> Seq<char> {
    seq!['"'] + x + seq!['"']
}

/// The Xorg layout with the NVIDIA GPU at `bus_id` driving the screen and
/// the integrated GPU inactive: `igpu` names the integrated GPU's device
/// (and is the layout's inactive screen), `driver` is its driver and
/// `screen` its screen's identifier.
pub open spec fn xorg_layout(igpu: Seq<char>, driver: Seq<char>, screen: Seq<char>, bus_id: Seq<char>) -> Seq<char> {
    XORG_LAYOUT_0@ + quoted(igpu) + XORG_LAYOUT_1@ + quoted(bus_id) + XORG_LAYOUT_2@ + quoted(igpu)
        + XORG_LAYOUT_3@ + quoted(driver) + XORG_LAYOUT_4@ + quoted(screen) + XORG_LAYOUT_5@ + quoted(
        igpu,
    ) + XORG_LAYOUT_6@
}

/// The layout for an Intel integrated GPU (modesetting driver).
pub open spec fn xorg_intel_text(bus_id: Seq<char>) -> Seq<char> {
    xorg_layout("intel"@, "modesetting"@, "intel"@, bus_id)
}

/// The layout for an AMD integrated GPU (its screen is named `amd`).
pub open spec fn xorg_amd_text(bus_id: Seq<char>) -> Seq<char> {
    xorg_layout("amdgpu"@, "amdgpu"@, "amd"@, bus_id)
}

/// The layout for an integrated GPU of unknown vendor.
pub open spec fn xorg_modesetting_text(bus_id: Seq<char>) -> Seq<char> {
    xorg_layout("modesetting"@, "modesetting"@, "modesetting"@, bus_id)
}

fn push_quoted(r: &mut String, x: &str)
    ensures
        final(r)@ == old(r)@ + quoted(x@),
{
    proof {
        reveal_strlit("\"");
    }
    r.append("\"");
    r.append(x);
    r.append("\"");
    assert(r@ =~= old(r)@ + quoted(x@));
}

fn build_xorg_layout(igpu: &str, driver: &str, screen: &str, bus_id: &str) -> (r: String)
    ensures
        r@ == xorg_layout(igpu@, driver@, screen@, bus_id@),
{
    let mut r = String::from_str(XORG_LAYOUT_0);
    push_quoted(&mut r, igpu);
    r.append(XORG_LAYOUT_1);
    push_quoted(&mut r, bus_id);
    r.append(XORG_LAYOUT_2);
    push_quoted(&mut r, igpu);
    r.append(XORG_LAYOUT_3);
    push_quoted(&mut r, driver);
    r.append(XORG_LAYOUT_4);
    push_quoted(&mut r, screen);
    r.append(XORG_LAYOUT_5);
    push_quoted(&mut r, igpu);
    r.append(XORG_LAYOUT_6);
    r
}

/// Xorg configuration with the NVIDIA GPU at `bus_id` driving the screen and
/// the Intel GPU inactive.
pub fn xorg_intel(bus_id: &str) -> (r: String)
    ensures
        r@ == xorg_intel_text(bus_id@),
{
    build_xorg_layout("intel", "modesetting", "intel", bus_id)
}

/// Xorg configuration with the NVIDIA GPU at `bus_id` driving the screen and
/// the AMD GPU inactive.
pub fn xorg_amd(bus_id: &str) -> (r: String)
    ensures
        r@ == xorg_amd_text(bus_id@),
{
    build_xorg_layout("amdgpu", "amdgpu", "amd", bus_id)
}

/// Xorg configuration with the NVIDIA GPU at `bus_id` driving the screen and
/// a generic modesetting GPU inactive.
pub fn xorg_modesetting(bus_id: &str) -> (r: String)
    ensures
        r@ == xorg_modesetting_text(bus_id@),
{
    build_xorg_layout("modesetting", "modesetting", "modesetting", bus_id)
}

/// The fixed pieces of the layout hold no `"i`; each but the first starts
/// a line and each but the last ends with a space.
proof fn lemma_layout_pieces()
    ensures
        !has_pair_from(XORG_LAYOUT_0@, '"', 'i', 0),
        !has_pair_from(XORG_LAYOUT_1@, '"', 'i', 0),
        !has_pair_from(XORG_LAYOUT_2@, '"', 'i', 0),
        !has_pair_from(XORG_LAYOUT_3@, '"', 'i', 0),
        !has_pair_from(XORG_LAYOUT_4@, '"', 'i', 0),
        !has_pair_from(XORG_LAYOUT_5@, '"', 'i', 0),
        !has_pair_from(XORG_LAYOUT_6@, '"', 'i', 0),
        XORG_LAYOUT_0@.len() > 0 && XORG_LAYOUT_0@.last() == ' ',
        XORG_LAYOUT_1@.len() > 0 && XORG_LAYOUT_1@.last() == ' ',
        XORG_LAYOUT_2@.len() > 0 && XORG_LAYOUT_2@.last() == ' ',
        XORG_LAYOUT_3@.len() > 0 && XORG_LAYOUT_3@.last() == ' ',
        XORG_LAYOUT_4@.len() > 0 && XORG_LAYOUT_4@.last() == ' ',
        XORG_LAYOUT_5@.len() > 0 && XORG_LAYOUT_5@.last() == ' ',
        XORG_LAYOUT_1@.len() > 0 && XORG_LAYOUT_1@[0] == '\n',
        XORG_LAYOUT_2@.len() > 0 && XORG_LAYOUT_2@[0] == '\n',
        XORG_LAYOUT_3@.len() > 0 && XORG_LAYOUT_3@[0] == '\n',
        XORG_LAYOUT_4@.len() > 0 && XORG_LAYOUT_4@[0] == '\n',
        XORG_LAYOUT_5@.len() > 0 && XORG_LAYOUT_5@[0] == '\n',
        XORG_LAYOUT_6@.len() > 0 && XORG_LAYOUT_6@[0] == '\n',
{
    reveal_strlit("# Automatically generated by lapctl

Section \"ServerLayout\"
    Identifier \"layout\"
    Screen 0 \"nvidia\"
    Inactive ");
    reveal_strlit("
EndSection

Section \"Device\"
    Identifier \"nvidia\"
    Driver \"nvidia\"
    BusID ");
    reveal_strlit("
EndSection

Section \"Screen\"
    Identifier \"nvidia\"
    Device \"nvidia\"
    Option \"AllowEmptyInitialConfiguration\"
EndSection

Section \"Device\"
    Identifier ");
    reveal_strlit("
    Driver ");
    reveal_strlit("
EndSection

Section \"Screen\"
    Identifier ");
    reveal_strlit("
    Device ");
    reveal_strlit("
EndSection
");
    reveal_with_fuel(has_pair_from, 45);
    let s0 = XORG_LAYOUT_0@;
    assert(s0.len() < 200);
    assert(!has_pair_from(s0, '"', 'i', 160));
    assert(!has_pair_from(s0, '"', 'i', 120));
    assert(!has_pair_from(s0, '"', 'i', 80));
    assert(!has_pair_from(s0, '"', 'i', 40));
    assert(!has_pair_from(s0, '"', 'i', 0));
    let s1 = XORG_LAYOUT_1@;
    assert(s1.len() < 200);
    assert(!has_pair_from(s1, '"', 'i', 160));
    assert(!has_pair_from(s1, '"', 'i', 120));
    assert(!has_pair_from(s1, '"', 'i', 80));
    assert(!has_pair_from(s1, '"', 'i', 40));
    assert(!has_pair_from(s1, '"', 'i', 0));
    let s2 = XORG_LAYOUT_2@;
    assert(s2.len() < 200);
    assert(!has_pair_from(s2, '"', 'i', 160));
    assert(!has_pair_from(s2, '"', 'i', 120));
    assert(!has_pair_from(s2, '"', 'i', 80));
    assert(!has_pair_from(s2, '"', 'i', 40));
    assert(!has_pair_from(s2, '"', 'i', 0));
    let s3 = XORG_LAYOUT_3@;
    assert(s3.len() < 200);
    assert(!has_pair_from(s3, '"', 'i', 160));
    assert(!has_pair_from(s3, '"', 'i', 120));
    assert(!has_pair_from(s3, '"', 'i', 80));
    assert(!has_pair_from(s3, '"', 'i', 40));
    assert(!has_pair_from(s3, '"', 'i', 0));
    let s4 = XORG_LAYOUT_4@;
    assert(s4.len() < 200);
    assert(!has_pair_from(s4, '"', 'i', 160));
    assert(!has_pair_from(s4, '"', 'i', 120));
    assert(!has_pair_from(s4, '"', 'i', 80));
    assert(!has_pair_from(s4, '"', 'i', 40));
    assert(!has_pair_from(s4, '"', 'i', 0));
    let s5 = XORG_LAYOUT_5@;
    assert(s5.len() < 200);
    assert(!has_pair_from(s5, '"', 'i', 160));
    assert(!has_pair_from(s5, '"', 'i', 120));
    assert(!has_pair_from(s5, '"', 'i', 80));
    assert(!has_pair_from(s5, '"', 'i', 40));
    assert(!has_pair_from(s5, '"', 'i', 0));
    let s6 = XORG_LAYOUT_6@;
    assert(s6.len() < 200);
    assert(!has_pair_from(s6, '"', 'i', 160));
    assert(!has_pair_from(s6, '"', 'i', 120));
    assert(!has_pair_from(s6, '"', 'i', 80));
    assert(!has_pair_from(s6, '"', 'i', 40));
    assert(!has_pair_from(s6, '"', 'i', 0));
}

/// The quoted name `"intel"`, character by character.
proof fn lemma_quoted_intel()
    ensures
        quoted("intel"@) =~= seq!['"', 'i', 'n', 't', 'e', 'l', '"'],
        !has_pair_from(quoted("modesetting"@), '"', 'i', 0),
        quoted("modesetting"@).len() > 0 && quoted("modesetting"@).last() == '"',
{
    reveal_strlit("intel");
    reveal_strlit("modesetting");
    reveal_with_fuel(has_pair_from, 15);
    let r = quoted("modesetting"@);
    assert(r =~= seq!['"', 'm', 'o', 'd', 'e', 's', 'e', 't', 't', 'i', 'n', 'g', '"']);
}

/// No `"intel"` starts in `a` and ends in `b` when `a` ends with a space,
/// or ends with a quote and `b` starts a new line.
proof fn lemma_no_straddle(a: Seq<char>, b: Seq<char>)
    requires
        a.len() > 0,
        a.last() == ' ' || (a.last() == '"' && b.len() > 0 && b[0] == '\n'),
    ensures
        forall|j: int|
            0 <= j < a.len() && j + 7 > a.len() ==> !match_at(
                a + b,
                seq!['"', 'i', 'n', 't', 'e', 'l', '"'],
                j,
            ),
{
    let q = seq!['"', 'i', 'n', 't', 'e', 'l', '"'];
    assert forall|j: int| 0 <= j < a.len() && j + 7 > a.len() implies !match_at(a + b, q, j) by {
        if match_at(a + b, q, j) {
            let k = a.len() - 1 - j;
            assert((a + b).subrange(j, j + 7)[k] == (a + b)[a.len() - 1]);
            assert((a + b)[a.len() - 1] == a.last());
            if a.last() == '"' {
                assert(k == 0);
                assert((a + b).subrange(j, j + 7)[1] == (a + b)[a.len() as int]);
                assert((a + b)[a.len() as int] == b[0]);
            }
        }
    }
}

proof fn lemma_rename_step(a: Seq<char>, b: Seq<char>, ra: Seq<char>, rb: Seq<char>)
    requires
        a.len() > 0,
        a.last() == ' ' || (a.last() == '"' && b.len() > 0 && b[0] == '\n'),
        replace(a, quoted("intel"@), quoted("modesetting"@)) == ra,
        replace(b, quoted("intel"@), quoted("modesetting"@)) == rb,
    ensures
        replace(a + b, quoted("intel"@), quoted("modesetting"@)) == ra + rb,
        b.len() > 0 ==> (a + b).last() == b.last(),
        (a + b).len() > 0,
{
    lemma_quoted_intel();
    lemma_no_straddle(a, b);
    lemma_replace_concat(a, b, quoted("intel"@), quoted("modesetting"@));
}

proof fn lemma_piece_unchanged(s: Seq<char>)
    requires
        !has_pair_from(s, '"', 'i', 0),
    ensures
        replace(s, quoted("intel"@), quoted("modesetting"@)) == s,
{
    lemma_quoted_intel();
    lemma_no_pair_no_match(s, quoted("intel"@), 0);
    lemma_replace_absent(s, quoted("intel"@), quoted("modesetting"@));
}

/// The generic modesetting layout is the Intel one with every `"intel"`
/// replaced by `"modesetting"` (device, inactive screen and screen), for
/// every bus id that does not form `"intel"` between the BusID quotes.
pub proof fn lemma_modesetting_layout_is_intel_renamed(bus_id: Seq<char>)
    requires
        !contains(quoted(bus_id), quoted("intel"@)),
    ensures
        replace(xorg_intel_text(bus_id), quoted("intel"@), quoted("modesetting"@))
            == xorg_modesetting_text(bus_id),
{
    let q = quoted("intel"@);
    let r = quoted("modesetting"@);
    let qb = quoted(bus_id);
    lemma_layout_pieces();
    lemma_quoted_intel();
    let l0 = XORG_LAYOUT_0@;
    let l1 = XORG_LAYOUT_1@;
    let l2 = XORG_LAYOUT_2@;
    let l3 = XORG_LAYOUT_3@;
    let l4 = XORG_LAYOUT_4@;
    let l5 = XORG_LAYOUT_5@;
    let l6 = XORG_LAYOUT_6@;
    lemma_piece_unchanged(l0);
    lemma_piece_unchanged(l1);
    lemma_piece_unchanged(l2);
    lemma_piece_unchanged(l3);
    lemma_piece_unchanged(l4);
    lemma_piece_unchanged(l5);
    lemma_piece_unchanged(l6);
    lemma_piece_unchanged(r);
    lemma_replace_whole(q, r);
    assert(replace(qb, q, r) == qb);
    assert(qb.len() > 0 && qb.last() == '"');
    assert(q.last() == '"');
    lemma_rename_step(l0, q, l0, r);
    let a1 = l0 + q;
    lemma_rename_step(a1, l1, l0 + r, l1);
    let a2 = a1 + l1;
    lemma_rename_step(a2, qb, l0 + r + l1, qb);
    let a3 = a2 + qb;
    lemma_rename_step(a3, l2, l0 + r + l1 + qb, l2);
    let a4 = a3 + l2;
    lemma_rename_step(a4, q, l0 + r + l1 + qb + l2, r);
    let a5 = a4 + q;
    lemma_rename_step(a5, l3, l0 + r + l1 + qb + l2 + r, l3);
    let a6 = a5 + l3;
    lemma_rename_step(a6, r, l0 + r + l1 + qb + l2 + r + l3, r);
    let a7 = a6 + r;
    lemma_rename_step(a7, l4, l0 + r + l1 + qb + l2 + r + l3 + r, l4);
    let a8 = a7 + l4;
    lemma_rename_step(a8, q, l0 + r + l1 + qb + l2 + r + l3 + r + l4, r);
    let a9 = a8 + q;
    lemma_rename_step(a9, l5, l0 + r + l1 + qb + l2 + r + l3 + r + l4 + r, l5);
    let a10 = a9 + l5;
    lemma_rename_step(a10, q, l0 + r + l1 + qb + l2 + r + l3 + r + l4 + r + l5, r);
    let a11 = a10 + q;
    lemma_rename_step(a11, l6, l0 + r + l1 + qb + l2 + r + l3 + r + l4 + r + l5 + r, l6);
}

/// The output source the xrandr script hands to the NVIDIA GPU.
pub open spec fn xrandr_source(igpu_vendor: Option<Seq<char>>, amd_igpu_name: Option<Seq<char>>) -> Seq<char> {
    match igpu_vendor {
        Some(v) => if v == "amd"@ {
            match amd_igpu_name {
                Some(n) => n,
                None => "modesetting"@,
            }
        } else {
            "modesetting"@
        },
        None => "modesetting"@,
    }
}

/// Whether the xrandr script needs the AMD provider name from `xrandr`.
pub fn needs_amd_provider_name(igpu_vendor: Option<&String>) -> (r: bool)
    ensures
        r == (igpu_vendor matches Some(v) && v@ == "amd"@),
{
    match igpu_vendor {
        Some(v) => str_eq(v.as_str(), "amd"),
        None => false,
    }
}

/// The display-setup script that makes the NVIDIA GPU the output source
/// provider; `amd_igpu_name` is the AMD provider name that `xrandr` lists.
pub fn generate_xrandr_script(igpu_vendor: Option<&String>, amd_igpu_name: Option<String>) -> (r:
    String)
    ensures
        r@ == replace(
            NVIDIA_XRANDR_SCRIPT@,
            "{}"@,
            xrandr_source(igpu_vendor.deep_view(), amd_igpu_name.deep_view()),
        ),
{
    let source = if needs_amd_provider_name(igpu_vendor) {
        match amd_igpu_name {
            Some(n) => n,
            None => String::from_str("modesetting"),
        }
    } else {
        String::from_str("modesetting")
    };
    proof {
        reveal_strlit("{}");
    }
    replace_str(NVIDIA_XRANDR_SCRIPT, "{}", source.as_str())
}

pub const MODESET_DEFAULT: &'static str = "# Automatically generated by lapctl\n\noptions nvidia-drm modeset=1\noptions nvidia NVreg_UsePageAttributeTable=1 NVreg_InitializeSystemMemoryAllocations=0\n";

pub const MODESET_CURRENT: &'static str = "# Automatically generated by lapctl\n\noptions nvidia-current-drm modeset=1\noptions nvidia-current NVreg_UsePageAttributeTable=1 NVreg_InitializeSystemMemoryAllocations=0\n";

pub const MODESET_RTD3_DEFAULT_HEAD: &'static str = "# Automatically generated by lapctl\n\noptions nvidia-drm modeset=1\noptions nvidia \"NVreg_DynamicPowerManagement=0x0";

pub const MODESET_RTD3_DEFAULT_TAIL: &'static str = "\"\noptions nvidia NVreg_UsePageAttributeTable=1 NVreg_InitializeSystemMemoryAllocations=0\n";

pub const MODESET_RTD3_CURRENT_HEAD: &'static str = "# Automatically generated by lapctl\n\noptions nvidia-current-drm modeset=1\noptions nvidia-current \"NVreg_DynamicPowerManagement=0x0";

pub const MODESET_RTD3_CURRENT_TAIL: &'static str = "\"\noptions nvidia-current NVreg_UsePageAttributeTable=1 NVreg_InitializeSystemMemoryAllocations=0\n";

/// Kernel module options: DRM modesetting, and with `rtd3` the runtime D3
/// power management level, for the `nvidia` or `nvidia-current` modules.
pub open spec fn modeset_text(rtd3: Option<u8>, use_nvidia_current: bool) -> Seq<char> {
    match rtd3 {
        Some(v) => if use_nvidia_current {
            MODESET_RTD3_CURRENT_HEAD@ + dec(v as nat) + MODESET_RTD3_CURRENT_TAIL@
        } else {
            MODESET_RTD3_DEFAULT_HEAD@ + dec(v as nat) + MODESET_RTD3_DEFAULT_TAIL@
        },
        None => if use_nvidia_current {
            MODESET_CURRENT@
        } else {
            MODESET_DEFAULT@
        },
    }
}

#[verifier::spinoff_prover]
proof fn lemma_pairs_extra_xorg_content()
    ensures
        !has_pair_from(EXTRA_XORG_CONTENT@, '"', 'F', 0),
        !has_pair_from(EXTRA_XORG_CONTENT@, '"', 'C', 0),
{
    reveal_strlit("# Automatically generated by lapctl

Section \"OutputClass\"
    Identifier \"nvidia\"
    MatchDriver \"nvidia-drm\"
    Driver \"nvidia\"
");
    reveal_with_fuel(has_pair_from, 30);
    assert(!has_pair_from(EXTRA_XORG_CONTENT@, '"', 'F', 125));
    assert(!has_pair_from(EXTRA_XORG_CONTENT@, '"', 'F', 100));
    assert(!has_pair_from(EXTRA_XORG_CONTENT@, '"', 'F', 75));
    assert(!has_pair_from(EXTRA_XORG_CONTENT@, '"', 'F', 50));
    assert(!has_pair_from(EXTRA_XORG_CONTENT@, '"', 'F', 25));
    assert(!has_pair_from(EXTRA_XORG_CONTENT@, '"', 'F', 0));
    assert(!has_pair_from(EXTRA_XORG_CONTENT@, '"', 'C', 125));
    assert(!has_pair_from(EXTRA_XORG_CONTENT@, '"', 'C', 100));
    assert(!has_pair_from(EXTRA_XORG_CONTENT@, '"', 'C', 75));
    assert(!has_pair_from(EXTRA_XORG_CONTENT@, '"', 'C', 50));
    assert(!has_pair_from(EXTRA_XORG_CONTENT@, '"', 'C', 25));
    assert(!has_pair_from(EXTRA_XORG_CONTENT@, '"', 'C', 0));
}

#[verifier::spinoff_prover]
proof fn lemma_pairs_modeset_default()
    ensures
        !has_pair_from(MODESET_DEFAULT@, '-', 'c', 0),
        !has_pair_from(MODESET_DEFAULT@, '_', 'D', 0),
{
    reveal_strlit("# Automatically generated by lapctl\n\noptions nvidia-drm modeset=1\noptions nvidia NVreg_UsePageAttributeTable=1 NVreg_InitializeSystemMemoryAllocations=0\n");
    reveal_with_fuel(has_pair_from, 30);
    assert(!has_pair_from(MODESET_DEFAULT@, '-', 'c', 150));
    assert(!has_pair_from(MODESET_DEFAULT@, '-', 'c', 125));
    assert(!has_pair_from(MODESET_DEFAULT@, '-', 'c', 100));
    assert(!has_pair_from(MODESET_DEFAULT@, '-', 'c', 75));
    assert(!has_pair_from(MODESET_DEFAULT@, '-', 'c', 50));
    assert(!has_pair_from(MODESET_DEFAULT@, '-', 'c', 25));
    assert(!has_pair_from(MODESET_DEFAULT@, '-', 'c', 0));
    assert(!has_pair_from(MODESET_DEFAULT@, '_', 'D', 150));
    assert(!has_pair_from(MODESET_DEFAULT@, '_', 'D', 125));
    assert(!has_pair_from(MODESET_DEFAULT@, '_', 'D', 100));
    assert(!has_pair_from(MODESET_DEFAULT@, '_', 'D', 75));
    assert(!has_pair_from(MODESET_DEFAULT@, '_', 'D', 50));
    assert(!has_pair_from(MODESET_DEFAULT@, '_', 'D', 25));
    assert(!has_pair_from(MODESET_DEFAULT@, '_', 'D', 0));
}

#[verifier::spinoff_prover]
proof fn lemma_pairs_modeset_current()
    ensures
        !has_pair_from(MODESET_CURRENT@, '_', 'D', 0),
{
    reveal_strlit("# Automatically generated by lapctl\n\noptions nvidia-current-drm modeset=1\noptions nvidia-current NVreg_UsePageAttributeTable=1 NVreg_InitializeSystemMemoryAllocations=0\n");
    reveal_with_fuel(has_pair_from, 30);
    assert(!has_pair_from(MODESET_CURRENT@, '_', 'D', 150));
    assert(!has_pair_from(MODESET_CURRENT@, '_', 'D', 125));
    assert(!has_pair_from(MODESET_CURRENT@, '_', 'D', 100));
    assert(!has_pair_from(MODESET_CURRENT@, '_', 'D', 75));
    assert(!has_pair_from(MODESET_CURRENT@, '_', 'D', 50));
    assert(!has_pair_from(MODESET_CURRENT@, '_', 'D', 25));
    assert(!has_pair_from(MODESET_CURRENT@, '_', 'D', 0));
}

#[verifier::spinoff_prover]
proof fn lemma_pairs_modeset_rtd3_default_head()
    ensures
        !has_pair_from(MODESET_RTD3_DEFAULT_HEAD@, '-', 'c', 0),
{
    reveal_strlit("# Automatically generated by lapctl\n\noptions nvidia-drm modeset=1\noptions nvidia \"NVreg_DynamicPowerManagement=0x0");
    reveal_with_fuel(has_pair_from, 30);
    assert(!has_pair_from(MODESET_RTD3_DEFAULT_HEAD@, '-', 'c', 100));
    assert(!has_pair_from(MODESET_RTD3_DEFAULT_HEAD@, '-', 'c', 75));
    assert(!has_pair_from(MODESET_RTD3_DEFAULT_HEAD@, '-', 'c', 50));
    assert(!has_pair_from(MODESET_RTD3_DEFAULT_HEAD@, '-', 'c', 25));
    assert(!has_pair_from(MODESET_RTD3_DEFAULT_HEAD@, '-', 'c', 0));
}

#[verifier::spinoff_prover]
proof fn lemma_pairs_modeset_rtd3_default_tail()
    ensures
        !has_pair_from(MODESET_RTD3_DEFAULT_TAIL@, '-', 'c', 0),
        !has_pair_from(MODESET_RTD3_DEFAULT_TAIL@, '_', 'D', 0),
{
    reveal_strlit("\"\noptions nvidia NVreg_UsePageAttributeTable=1 NVreg_InitializeSystemMemoryAllocations=0\n");
    reveal_with_fuel(has_pair_from, 30);
    assert(!has_pair_from(MODESET_RTD3_DEFAULT_TAIL@, '-', 'c', 75));
    assert(!has_pair_from(MODESET_RTD3_DEFAULT_TAIL@, '-', 'c', 50));
    assert(!has_pair_from(MODESET_RTD3_DEFAULT_TAIL@, '-', 'c', 25));
    assert(!has_pair_from(MODESET_RTD3_DEFAULT_TAIL@, '-', 'c', 0));
    assert(!has_pair_from(MODESET_RTD3_DEFAULT_TAIL@, '_', 'D', 75));
    assert(!has_pair_from(MODESET_RTD3_DEFAULT_TAIL@, '_', 'D', 50));
    assert(!has_pair_from(MODESET_RTD3_DEFAULT_TAIL@, '_', 'D', 25));
    assert(!has_pair_from(MODESET_RTD3_DEFAULT_TAIL@, '_', 'D', 0));
}

#[verifier::spinoff_prover]
proof fn lemma_pairs_modeset_rtd3_current_tail()
    ensures
        !has_pair_from(MODESET_RTD3_CURRENT_TAIL@, '_', 'D', 0),
{
    reveal_strlit("\"\noptions nvidia-current NVreg_UsePageAttributeTable=1 NVreg_InitializeSystemMemoryAllocations=0\n");
    reveal_with_fuel(has_pair_from, 30);
    assert(!has_pair_from(MODESET_RTD3_CURRENT_TAIL@, '_', 'D', 75));
    assert(!has_pair_from(MODESET_RTD3_CURRENT_TAIL@, '_', 'D', 50));
    assert(!has_pair_from(MODESET_RTD3_CURRENT_TAIL@, '_', 'D', 25));
    assert(!has_pair_from(MODESET_RTD3_CURRENT_TAIL@, '_', 'D', 0));
}

/// Facts about the modeset texts that the law below needs.
proof fn lemma_modeset_pieces()
    ensures
        !has_pair_from(MODESET_DEFAULT@, '-', 'c', 0),
        !has_pair_from(MODESET_DEFAULT@, '_', 'D', 0),
        !has_pair_from(MODESET_CURRENT@, '_', 'D', 0),
        !has_pair_from(MODESET_RTD3_DEFAULT_HEAD@, '-', 'c', 0),
        !has_pair_from(MODESET_RTD3_DEFAULT_TAIL@, '-', 'c', 0),
        !has_pair_from(MODESET_RTD3_DEFAULT_TAIL@, '_', 'D', 0),
        !has_pair_from(MODESET_RTD3_CURRENT_TAIL@, '_', 'D', 0),
        MODESET_DEFAULT@.subrange(37, 65) == "options nvidia-drm modeset=1"@,
        MODESET_RTD3_DEFAULT_HEAD@.subrange(37, 65) == "options nvidia-drm modeset=1"@,
        MODESET_CURRENT@.subrange(37, 73) == "options nvidia-current-drm modeset=1"@,
        MODESET_RTD3_CURRENT_HEAD@.subrange(37, 73) == "options nvidia-current-drm modeset=1"@,
        MODESET_RTD3_DEFAULT_HEAD@.len() == 114,
        MODESET_DEFAULT@.len() == 153,
        MODESET_CURRENT@.len() == 169,
        "options nvidia-drm modeset=1"@.len() == 28,
        "options nvidia-current-drm modeset=1"@.len() == 36,
        MODESET_RTD3_DEFAULT_HEAD@.subrange(82, 114) == "NVreg_DynamicPowerManagement=0x0"@,
        MODESET_RTD3_CURRENT_HEAD@.len() == 130,
        MODESET_RTD3_CURRENT_HEAD@.subrange(98, 130) == "NVreg_DynamicPowerManagement=0x0"@,
        MODESET_RTD3_DEFAULT_HEAD@.last() == '0',
        MODESET_RTD3_CURRENT_HEAD@.last() == '0',
        MODESET_RTD3_DEFAULT_TAIL@.len() > 0 && MODESET_RTD3_DEFAULT_TAIL@[0] == '"',
        MODESET_RTD3_CURRENT_TAIL@.len() > 0 && MODESET_RTD3_CURRENT_TAIL@[0] == '"',
        "nvidia-current"@.len() == 14 && "nvidia-current"@[6] == '-' && "nvidia-current"@[7] == 'c',
        "NVreg_DynamicPowerManagement"@.len() == 28 && "NVreg_DynamicPowerManagement"@[5] == '_'
            && "NVreg_DynamicPowerManagement"@[6] == 'D',
        "\""@ == seq!['"'],
{
    reveal_strlit("# Automatically generated by lapctl\n\noptions nvidia-drm modeset=1\noptions nvidia NVreg_UsePageAttributeTable=1 NVreg_InitializeSystemMemoryAllocations=0\n");
    reveal_strlit("# Automatically generated by lapctl\n\noptions nvidia-current-drm modeset=1\noptions nvidia-current NVreg_UsePageAttributeTable=1 NVreg_InitializeSystemMemoryAllocations=0\n");
    reveal_strlit("# Automatically generated by lapctl\n\noptions nvidia-drm modeset=1\noptions nvidia \"NVreg_DynamicPowerManagement=0x0");
    reveal_strlit("\"\noptions nvidia NVreg_UsePageAttributeTable=1 NVreg_InitializeSystemMemoryAllocations=0\n");
    reveal_strlit("# Automatically generated by lapctl\n\noptions nvidia-current-drm modeset=1\noptions nvidia-current \"NVreg_DynamicPowerManagement=0x0");
    reveal_strlit("\"\noptions nvidia-current NVreg_UsePageAttributeTable=1 NVreg_InitializeSystemMemoryAllocations=0\n");
    reveal_strlit("options nvidia-drm modeset=1");
    reveal_strlit("options nvidia-current-drm modeset=1");
    reveal_strlit("NVreg_DynamicPowerManagement=0x0");
    reveal_strlit("nvidia-current");
    reveal_strlit("NVreg_DynamicPowerManagement");
    reveal_strlit("\"");
    assert(MODESET_DEFAULT@.subrange(37, 65) =~= "options nvidia-drm modeset=1"@);
    assert(MODESET_RTD3_DEFAULT_HEAD@.subrange(37, 65) =~= "options nvidia-drm modeset=1"@);
    assert(MODESET_CURRENT@.subrange(37, 73) =~= "options nvidia-current-drm modeset=1"@);
    assert(MODESET_RTD3_CURRENT_HEAD@.subrange(37, 73) =~= "options nvidia-current-drm modeset=1"@);
    assert(MODESET_RTD3_DEFAULT_HEAD@.subrange(82, 114) =~= "NVreg_DynamicPowerManagement=0x0"@);
    assert(MODESET_RTD3_CURRENT_HEAD@.subrange(98, 130) =~= "NVreg_DynamicPowerManagement=0x0"@);
    assert("\""@ =~= seq!['"']);
    lemma_pairs_modeset_default();
    lemma_pairs_modeset_current();
    lemma_pairs_modeset_rtd3_default_head();
    lemma_pairs_modeset_rtd3_default_tail();
    lemma_pairs_modeset_rtd3_current_tail();
}

/// A text `head + dec(v) + tail` holds no pair that none of its parts
/// holds, when the pair starts with neither a digit nor the head's last
/// character.
proof fn lemma_dec_between_no_pair(head: Seq<char>, v: nat, tail: Seq<char>, a: char, b: char)
    requires
        !has_pair_from(head, a, b, 0),
        !has_pair_from(tail, a, b, 0),
        !('0' <= a <= '9'),
        head.len() > 0 && head.last() != a,
    ensures
        !has_pair_from(head + dec(v) + tail, a, b, 0),
{
    lemma_dec_digits(v);
    lemma_no_char_no_pair(dec(v), a, b);
    lemma_pair_concat(head, dec(v), a, b);
    lemma_pair_concat(head + dec(v), tail, a, b);
}

/// The modeset options name the `nvidia-current` modules exactly when they
/// were asked for, and otherwise enable DRM modesetting for `nvidia-drm`;
/// runtime D3 power management is set exactly when an RTD3 level is given,
/// and then to that level.
pub proof fn lemma_modeset_follows_flags(rtd3: Option<u8>, use_nvidia_current: bool)
    ensures
        contains(modeset_text(rtd3, use_nvidia_current), "nvidia-current"@) <==> use_nvidia_current,
        !use_nvidia_current ==> contains(
            modeset_text(rtd3, use_nvidia_current),
            "options nvidia-drm modeset=1"@,
        ),
        use_nvidia_current ==> contains(
            modeset_text(rtd3, use_nvidia_current),
            "options nvidia-current-drm modeset=1"@,
        ),
        contains(modeset_text(rtd3, use_nvidia_current), "NVreg_DynamicPowerManagement"@) <==> rtd3 is Some,
        rtd3 matches Some(v) ==> contains(
            modeset_text(rtd3, use_nvidia_current),
            "NVreg_DynamicPowerManagement=0x0"@ + dec(v as nat) + "\""@,
        ),
{
    lemma_modeset_pieces();
    let t = modeset_text(rtd3, use_nvidia_current);
    let cur = "nvidia-current"@;
    let drm = "options nvidia-drm modeset=1"@;
    let cdrm = "options nvidia-current-drm modeset=1"@;
    let dpm = "NVreg_DynamicPowerManagement"@;
    let dpm0 = "NVreg_DynamicPowerManagement=0x0"@;
    match rtd3 {
        None => {
            if use_nvidia_current {
                lemma_match_contained(t, cdrm, 37);
                assert(t.subrange(45, 59) =~= cur) by {
                    assert(cdrm.subrange(8, 22) =~= cur) by {
                        reveal_strlit("options nvidia-current-drm modeset=1");
                        reveal_strlit("nvidia-current");
                    }
                    assert(t.subrange(45, 59) =~= t.subrange(37, 73).subrange(8, 22));
                }
                lemma_match_contained(t, cur, 45);
            } else {
                lemma_match_contained(t, drm, 37);
                lemma_no_pair_not_contained(t, cur, 6);
            }
            lemma_no_pair_not_contained(t, dpm, 5);
        },
        Some(v) => {
            let d = dec(v as nat);
            let (head, tail) = if use_nvidia_current {
                (MODESET_RTD3_CURRENT_HEAD@, MODESET_RTD3_CURRENT_TAIL@)
            } else {
                (MODESET_RTD3_DEFAULT_HEAD@, MODESET_RTD3_DEFAULT_TAIL@)
            };
            assert(t == head + d + tail);
            let at: int = if use_nvidia_current { 98 } else { 82 };
            let p = dpm0 + d + "\""@;
            assert(t.subrange(at, at + p.len()) =~= p) by {
                assert(head.subrange(at, head.len() as int) =~= dpm0);
                assert(tail[0] == '"');
            }
            lemma_match_contained(t, p, at);
            assert(t.subrange(at, at + 28) =~= dpm) by {
                assert(dpm0.subrange(0, 28) =~= dpm) by {
                    reveal_strlit("NVreg_DynamicPowerManagement=0x0");
                    reveal_strlit("NVreg_DynamicPowerManagement");
                }
                assert(t.subrange(at, at + 28) =~= p.subrange(0, 28));
            }
            lemma_match_contained(t, dpm, at);
            if use_nvidia_current {
                assert(t.subrange(37, 73) =~= cdrm);
                lemma_match_contained(t, cdrm, 37);
                assert(t.subrange(45, 59) =~= cur) by {
                    assert(cdrm.subrange(8, 22) =~= cur) by {
                        reveal_strlit("options nvidia-current-drm modeset=1");
                        reveal_strlit("nvidia-current");
                    }
                    assert(t.subrange(45, 59) =~= t.subrange(37, 73).subrange(8, 22));
                }
                lemma_match_contained(t, cur, 45);
            } else {
                assert(t.subrange(37, 65) =~= drm);
                lemma_match_contained(t, drm, 37);
                lemma_dec_between_no_pair(head, v as nat, tail, '-', 'c');
                lemma_no_pair_not_contained(t, cur, 6);
            }
        },
    }
}

/// The content of `MODESET_PATH`.
pub fn modeset_config(rtd3: Option<u8>, use_nvidia_current: bool) -> (r: String)
    ensures
        r@ == modeset_text(rtd3, use_nvidia_current),
{
    match rtd3 {
        Some(v) => {
            let mut r = String::from_str(
                if use_nvidia_current {
                    MODESET_RTD3_CURRENT_HEAD
                } else {
                    MODESET_RTD3_DEFAULT_HEAD
                },
            );
            push_dec(&mut r, v as u64);
            r.append(
                if use_nvidia_current {
                    MODESET_RTD3_CURRENT_TAIL
                } else {
                    MODESET_RTD3_DEFAULT_TAIL
                },
            );
            r
        },
        None => String::from_str(
            if use_nvidia_current {
                MODESET_CURRENT
            } else {
                MODESET_DEFAULT
            },
        ),
    }
}

/// The extra Xorg output class: present only with ForceCompositionPipeline
/// or Coolbits.
pub open spec fn extra_xorg_text(force_comp: bool, coolbits: Option<u32>) -> Option<Seq<char>> {
    if force_comp || coolbits is Some {
        Some(
            EXTRA_XORG_CONTENT@ + (if force_comp {
                FORCE_COMPOSITION_LINE@
            } else {
                Seq::<char>::empty()
            }) + (match coolbits {
                Some(cb) => COOLBITS_LINE_START@ + dec(cb as nat) + COOLBITS_LINE_END@,
                None => Seq::<char>::empty(),
            }) + END_SECTION@,
        )
    } else {
        None
    }
}

/// The content of `EXTRA_XORG_PATH`, when one is written.
pub fn extra_xorg_config(force_comp: bool, coolbits: Option<u32>) -> (r: Option<String>)
    ensures
        r.deep_view() == extra_xorg_text(force_comp, coolbits),
{
    if !(force_comp || coolbits.is_some()) {
        return None;
    }
    let mut r = String::from_str(EXTRA_XORG_CONTENT);
    if force_comp {
        r.append(FORCE_COMPOSITION_LINE);
    }
    if let Some(cb) = coolbits {
        r.append(COOLBITS_LINE_START);
        push_dec(&mut r, cb as u64);
        r.append(COOLBITS_LINE_END);
    }
    r.append(END_SECTION);
    assert(r@ =~= extra_xorg_text(force_comp, coolbits).unwrap());
    Some(r)
}

/// Facts about the pieces of the extra Xorg text that the law below needs.
proof fn lemma_extra_xorg_pieces()
    ensures
        FORCE_COMPOSITION_LINE@.len() == 45,
        FORCE_COMPOSITION_LINE@[11] == '"' && FORCE_COMPOSITION_LINE@[12] == 'F',
        COOLBITS_LINE_START@.len() == 23,
        COOLBITS_LINE_START@[11] == '"' && COOLBITS_LINE_START@[12] == 'C',
        COOLBITS_LINE_START@.last() == '"' && COOLBITS_LINE_START@[0] == ' ',
        COOLBITS_LINE_END@.len() == 2 && COOLBITS_LINE_END@[0] == '"',
        !has_pair_from(EXTRA_XORG_CONTENT@, '"', 'F', 0),
        !has_pair_from(EXTRA_XORG_CONTENT@, '"', 'C', 0),
        !has_pair_from(FORCE_COMPOSITION_LINE@, '"', 'C', 0),
        !has_pair_from(COOLBITS_LINE_START@, '"', 'F', 0),
        !has_pair_from(COOLBITS_LINE_END@, '"', 'F', 0),
        !has_pair_from(COOLBITS_LINE_END@, '"', 'C', 0),
        !has_pair_from(END_SECTION@, '"', 'F', 0),
        !has_pair_from(END_SECTION@, '"', 'C', 0),
        EXTRA_XORG_CONTENT@.len() > 0 && EXTRA_XORG_CONTENT@.last() == '\n',
        FORCE_COMPOSITION_LINE@.last() == '\n',
        COOLBITS_LINE_END@.last() == '\n',
        END_SECTION@.len() > 0 && END_SECTION@[0] == 'E',
{
    reveal_strlit("# Automatically generated by lapctl

Section \"OutputClass\"
    Identifier \"nvidia\"
    MatchDriver \"nvidia-drm\"
    Driver \"nvidia\"
");
    reveal_strlit("    Option \"ForceCompositionPipeline\" \"true\"\n");
    reveal_strlit("    Option \"Coolbits\" \"");
    reveal_strlit("\"\n");
    reveal_strlit("EndSection\n");
    lemma_pairs_extra_xorg_content();
    reveal_with_fuel(has_pair_from, 50);
    assert(!has_pair_from(FORCE_COMPOSITION_LINE@, '"', 'C', 0));
    assert(!has_pair_from(COOLBITS_LINE_START@, '"', 'F', 0));
}

/// The digits of a number hold no quote.
proof fn lemma_dec_no_quote_pair(n: nat, b: char)
    ensures
        !has_pair_from(dec(n), '"', b, 0),
        dec(n).len() > 0 && dec(n)[0] != 'F' && dec(n)[0] != 'C' && dec(n).last() != '"',
{
    lemma_dec_digits(n);
    lemma_no_char_no_pair(dec(n), '"', b);
}

/// The extra Xorg configuration is written exactly when ForceCompositionPipeline
/// or Coolbits is asked for; it enables ForceCompositionPipeline exactly when
/// that was asked for, whatever the Coolbits value, and sets Coolbits to the
/// given value exactly when one was given.
pub proof fn lemma_extra_xorg_options_follow_flags(force_comp: bool, coolbits: Option<u32>)
    ensures
        extra_xorg_text(force_comp, coolbits) is Some <==> (force_comp || coolbits is Some),
        extra_xorg_text(force_comp, coolbits) matches Some(t) ==> (contains(t, FORCE_COMPOSITION_LINE@)
            <==> force_comp),
        extra_xorg_text(force_comp, coolbits) matches Some(t) ==> (contains(t, COOLBITS_LINE_START@)
            <==> coolbits is Some),
        coolbits matches Some(cb) ==> (extra_xorg_text(force_comp, coolbits) matches Some(t)
            && contains(t, COOLBITS_LINE_START@ + dec(cb as nat) + COOLBITS_LINE_END@)),
{
    lemma_extra_xorg_pieces();
    let e = EXTRA_XORG_CONTENT@;
    let f = FORCE_COMPOSITION_LINE@;
    let cs = COOLBITS_LINE_START@;
    let ce = COOLBITS_LINE_END@;
    let end = END_SECTION@;
    let empty = Seq::<char>::empty();
    if force_comp || coolbits is Some {
        let fpart = if force_comp { f } else { empty };
        let cpart = match coolbits {
            Some(cb) => cs + dec(cb as nat) + ce,
            None => empty,
        };
        let t = e + fpart + cpart + end;
        assert(extra_xorg_text(force_comp, coolbits) == Some(t));
        // the Coolbits part
        if let Some(cb) = coolbits {
            let d = dec(cb as nat);
            lemma_dec_no_quote_pair(cb as nat, 'F');
            lemma_dec_no_quote_pair(cb as nat, 'C');
            lemma_pair_concat(cs, d, '"', 'F');
            lemma_pair_concat(cs + d, ce, '"', 'F');
            assert(!has_pair_from(cpart, '"', 'F', 0));
            assert(cpart.len() > 0 && cpart.last() == '\n' && cpart[0] == ' ');
            let cl = cs + d + ce;
            assert((e + fpart + cpart + end).subrange(
                (e + fpart).len() as int,
                (e + fpart).len() + cl.len() as int,
            ) =~= cl);
            lemma_match_contained(t, cl, (e + fpart).len() as int);
            assert((e + fpart + cpart + end).subrange(
                (e + fpart).len() as int,
                (e + fpart).len() + cs.len() as int,
            ) =~= cs);
            lemma_match_contained(t, cs, (e + fpart).len() as int);
        } else {
            assert(cpart =~= empty);
            assert(!has_pair_from(cpart, '"', 'C', 0));
        }
        // the ForceCompositionPipeline part
        if force_comp {
            assert(t.subrange(e.len() as int, e.len() + f.len() as int) =~= f);
            lemma_match_contained(t, f, e.len() as int);
        } else {
            assert(fpart =~= empty);
            assert(e + fpart =~= e);
            lemma_pair_concat(e, cpart, '"', 'F');
            lemma_pair_concat(e + cpart, end, '"', 'F');
            assert(t =~= e + cpart + end);
            lemma_no_pair_not_contained(t, f, 11);
        }
        if coolbits is None {
            lemma_pair_concat(e, fpart, '"', 'C');
            assert(e + fpart + cpart =~= e + fpart);
            lemma_pair_concat(e + fpart, end, '"', 'C');
            lemma_no_pair_not_contained(t, cs, 11);
        }
    }
}

/// The Xorg configuration for the integrated GPU vendor: none for a vendor
/// other than Intel or AMD.
pub open spec fn xorg_text(igpu_vendor: Option<Seq<char>>, bus_id: Seq<char>) -> Option<Seq<char>> {
    match igpu_vendor {
        Some(v) => if v == "intel"@ {
            Some(xorg_intel_text(bus_id))
        } else if v == "amd"@ {
            Some(xorg_amd_text(bus_id))
        } else {
            None
        },
        None => Some(xorg_modesetting_text(bus_id)),
    }
}

/// The content of `XORG_PATH`, when one is written.
pub fn xorg_config(igpu_vendor: Option<&String>, bus_id: &str) -> (r: Option<String>)
    ensures
        r.deep_view() == xorg_text(igpu_vendor.deep_view(), bus_id@),
{
    match igpu_vendor {
        Some(v) => if str_eq(v.as_str(), "intel") {
            Some(xorg_intel(bus_id))
        } else if str_eq(v.as_str(), "amd") {
            Some(xorg_amd(bus_id))
        } else {
            None
        },
        None => Some(xorg_modesetting(bus_id)),
    }
}

/// A change to a configuration file.
#[derive(Debug)]
pub enum ConfigAction {
    /// Write `content` to `path`, and make it executable when asked.
    Write { path: String, content: String, executable: bool },
    /// When `path` exists, copy its content to `backup`.
    Backup { path: String, backup: String },
}

pub enum ConfigActionView {
    Write { path: Seq<char>, content: Seq<char>, executable: bool },
    Backup { path: Seq<char>, backup: Seq<char> },
}

impl View for ConfigAction {
    type V = ConfigActionView;

    open spec fn view(&self) -> ConfigActionView {
        match self {
            ConfigAction::Write { path, content, executable } => ConfigActionView::Write {
                path: path@,
                content: content@,
                executable: *executable,
            },
            ConfigAction::Backup { path, backup } => ConfigActionView::Backup {
                path: path@,
                backup: backup@,
            },
        }
    }
}

pub open spec fn action_views(v: Seq<ConfigAction>) -> Seq<ConfigActionView> {
    v.map_values(|a: ConfigAction| a@)
}

pub open spec fn write_view(path: Seq<char>, content: Seq<char>, executable: bool) -> ConfigActionView {
    ConfigActionView::Write { path, content, executable }
}

fn push_write(v: &mut Vec<ConfigAction>, path: &str, content: String, executable: bool)
    ensures
        action_views(final(v)@) == action_views(old(v)@).push(write_view(path@, content@, executable)),
{
    let a = ConfigAction::Write { path: String::from_str(path), content, executable };
    v.push(a);
    assert(action_views(v@) =~= action_views(old(v)@).push(write_view(path@, content@, executable)));
}

/// Files written when switching to integrated mode.
pub open spec fn integrated_actions() -> Seq<ConfigActionView> {
    seq![
        write_view(BLACKLIST_PATH@, BLACKLIST_CONTENT@, false),
        write_view(UDEV_INTEGRATED_PATH@, UDEV_INTEGRATED@, false),
    ]
}

/// Files written when switching to hybrid mode.
pub open spec fn hybrid_actions(rtd3: Option<u8>, use_nvidia_current: bool) -> Seq<ConfigActionView> {
    seq![write_view(MODESET_PATH@, modeset_text(rtd3, use_nvidia_current), false)] + (if rtd3 is Some {
        seq![write_view(UDEV_PM_PATH@, UDEV_PM_CONTENT@, false)]
    } else {
        Seq::<ConfigActionView>::empty()
    })
}

/// The display manager hook of NVIDIA mode: sddm's Xsetup (after a backup
/// of it) or a lightdm display-setup script.
pub open spec fn display_manager_actions(display_manager: Option<Seq<char>>, script: Seq<char>) -> Seq<
    ConfigActionView,
> {
    match display_manager {
        Some(d) => if d == "sddm"@ {
            seq![
                ConfigActionView::Backup { path: SDDM_XSETUP_PATH@, backup: SDDM_XSETUP_BACKUP_PATH@ },
                write_view(SDDM_XSETUP_PATH@, script, true),
            ]
        } else if d == "lightdm"@ {
            seq![
                write_view(LIGHTDM_SCRIPT_PATH@, script, true),
                write_view(LIGHTDM_CONFIG_PATH@, LIGHTDM_CONFIG_CONTENT@, false),
            ]
        } else {
            Seq::<ConfigActionView>::empty()
        },
        None => Seq::<ConfigActionView>::empty(),
    }
}

pub open spec fn optional_write(path: Seq<char>, content: Option<Seq<char>>) -> Seq<ConfigActionView> {
    match content {
        Some(c) => seq![write_view(path, c, false)],
        None => Seq::<ConfigActionView>::empty(),
    }
}

/// What NVIDIA mode needs on the display stack.
pub struct NvidiaSetup {
    /// Xorg `BusID` of the NVIDIA GPU.
    pub pci_bus: String,
    /// `intel` or `amd`, when detected.
    pub igpu_vendor: Option<String>,
    /// AMD provider name from `xrandr`, when needed and found.
    pub amd_igpu_name: Option<String>,
    /// The display manager given or detected.
    pub display_manager: Option<String>,
    pub force_comp: bool,
    pub coolbits: Option<u32>,
    pub use_nvidia_current: bool,
    pub wayland: bool,
}

/// Files written when switching to NVIDIA mode.
pub open spec fn nvidia_actions(s: NvidiaSetup) -> Seq<ConfigActionView> {
    seq![write_view(MODESET_PATH@, modeset_text(None, s.use_nvidia_current), false)] + if s.wayland {
        seq![write_view(WAYLAND_MARKER_PATH@, WAYLAND_MARKER_CONTENT@, false)]
    } else {
        optional_write(XORG_PATH@, xorg_text(s.igpu_vendor.deep_view(), s.pci_bus@)) + optional_write(
            EXTRA_XORG_PATH@,
            extra_xorg_text(s.force_comp, s.coolbits),
        ) + display_manager_actions(
            s.display_manager.deep_view(),
            replace(
                NVIDIA_XRANDR_SCRIPT@,
                "{}"@,
                xrandr_source(s.igpu_vendor.deep_view(), s.amd_igpu_name.deep_view()),
            ),
        )
    }
}

/// The files to write for integrated mode.
pub fn integrated_config_actions() -> (r: Vec<ConfigAction>)
    ensures
        action_views(r@) == integrated_actions(),
{
    let mut r: Vec<ConfigAction> = Vec::new();
    push_write(&mut r, BLACKLIST_PATH, String::from_str(BLACKLIST_CONTENT), false);
    push_write(&mut r, UDEV_INTEGRATED_PATH, String::from_str(UDEV_INTEGRATED), false);
    assert(action_views(r@) =~= integrated_actions());
    r
}

/// Why a GPU mode configuration is refused.
#[derive(Clone, Copy, Debug, PartialEq, Eq, Structural)]
pub enum GpuConfigError {
    /// `--rtd3` takes the runtime D3 levels 0, 1, 2 and 3 only.
    InvalidRtd3 { value: u8 },
}

/// An RTD3 level above 3, which `--rtd3` does not take.
pub open spec fn rtd3_out_of_range(rtd3: Option<u8>) -> bool {
    rtd3 matches Some(v) && v > 3
}

/// Refuses an RTD3 level above 3.
pub fn check_rtd3(rtd3: Option<u8>) -> (r: Result<(), GpuConfigError>)
    ensures
        rtd3_out_of_range(rtd3) ==> r == Err::<(), GpuConfigError>(
            GpuConfigError::InvalidRtd3 { value: rtd3->0 },
        ),
        !rtd3_out_of_range(rtd3) ==> r is Ok,
{
    match rtd3 {
        Some(v) => if v > 3 {
            Err(GpuConfigError::InvalidRtd3 { value: v })
        } else {
            Ok(())
        },
        None => Ok(()),
    }
}

/// The files to write for hybrid mode; an RTD3 level above 3 is refused
/// before any action is produced.
pub fn hybrid_config_actions(rtd3: Option<u8>, use_nvidia_current: bool) -> (r: Result<
    Vec<ConfigAction>,
    GpuConfigError,
>)
    ensures
        rtd3_out_of_range(rtd3) ==> (r matches Err(e) && e == (GpuConfigError::InvalidRtd3 {
            value: rtd3->0,
        })),
        !rtd3_out_of_range(rtd3) ==> (r matches Ok(a) && action_views(a@) == hybrid_actions(
            rtd3,
            use_nvidia_current,
        )),
{
    if let Err(e) = check_rtd3(rtd3) {
        return Err(e);
    }
    let mut r: Vec<ConfigAction> = Vec::new();
    push_write(&mut r, MODESET_PATH, modeset_config(rtd3, use_nvidia_current), false);
    if rtd3.is_some() {
        push_write(&mut r, UDEV_PM_PATH, String::from_str(UDEV_PM_CONTENT), false);
    }
    assert(action_views(r@) =~= hybrid_actions(rtd3, use_nvidia_current));
    Ok(r)
}

/// Whether NVIDIA mode will write an xrandr script that needs the AMD
/// provider name.
pub fn nvidia_needs_amd_provider_name(
    igpu_vendor: Option<&String>,
    display_manager: Option<&String>,
    wayland: bool,
) -> (r: bool)
    ensures
        r == (!wayland && (igpu_vendor matches Some(v) && v@ == "amd"@) && (
        display_manager matches Some(d) && (d@ == "sddm"@ || d@ == "lightdm"@))),
{
    if wayland || !needs_amd_provider_name(igpu_vendor) {
        return false;
    }
    match display_manager {
        Some(d) => str_eq(d.as_str(), "sddm") || str_eq(d.as_str(), "lightdm"),
        None => false,
    }
}

/// The files to write for NVIDIA mode.
pub fn nvidia_config_actions(s: &NvidiaSetup) -> (r: Vec<ConfigAction>)
    ensures
        action_views(r@) == nvidia_actions(*s),
{
    let mut r: Vec<ConfigAction> = Vec::new();
    push_write(&mut r, MODESET_PATH, modeset_config(None, s.use_nvidia_current), false);
    let ghost first = action_views(r@);
    if s.wayland {
        push_write(&mut r, WAYLAND_MARKER_PATH, String::from_str(WAYLAND_MARKER_CONTENT), false);
        assert(action_views(r@) =~= nvidia_actions(*s));
        return r;
    }
    if let Some(c) = xorg_config(s.igpu_vendor.as_ref(), s.pci_bus.as_str()) {
        push_write(&mut r, XORG_PATH, c, false);
    }
    let ghost after_xorg = action_views(r@);
    assert(after_xorg =~= first + optional_write(
        XORG_PATH@,
        xorg_text(s.igpu_vendor.deep_view(), s.pci_bus@),
    ));
    if let Some(c) = extra_xorg_config(s.force_comp, s.coolbits) {
        push_write(&mut r, EXTRA_XORG_PATH, c, false);
    }
    let ghost after_extra = action_views(r@);
    assert(after_extra =~= after_xorg + optional_write(
        EXTRA_XORG_PATH@,
        extra_xorg_text(s.force_comp, s.coolbits),
    ));
    if let Some(d) = &s.display_manager {
        if str_eq(d.as_str(), "sddm") {
            let b = ConfigAction::Backup {
                path: String::from_str(SDDM_XSETUP_PATH),
                backup: String::from_str(SDDM_XSETUP_BACKUP_PATH),
            };
            r.push(b);
            let ghost with_backup = action_views(r@);
            assert(with_backup =~= after_extra.push(
                ConfigActionView::Backup { path: SDDM_XSETUP_PATH@, backup: SDDM_XSETUP_BACKUP_PATH@ },
            ));
            let script_text = generate_xrandr_script(s.igpu_vendor.as_ref(), clone_opt(&s.amd_igpu_name));
            push_write(&mut r, SDDM_XSETUP_PATH, script_text, true);
        } else if str_eq(d.as_str(), "lightdm") {
            let script_text = generate_xrandr_script(s.igpu_vendor.as_ref(), clone_opt(&s.amd_igpu_name));
            push_write(&mut r, LIGHTDM_SCRIPT_PATH, script_text, true);
            push_write(&mut r, LIGHTDM_CONFIG_PATH, String::from_str(LIGHTDM_CONFIG_CONTENT), false);
        }
    }
    assert(action_views(r@) =~= nvidia_actions(*s));
    r
}

fn clone_opt(o: &Option<String>) -> (r: Option<String>)
    ensures
        r.deep_view() == o.deep_view(),
{
    match o {
        Some(x) => Some(x.clone()),
        None => None,
    }
}

/// A GPU switch request as sent to the daemon over D-Bus, where absent
/// values are `-1` or the empty string.
#[derive(Debug)]
pub enum GpuDaemonCall {
    Integrated { no_reboot: bool },
    Hybrid { rtd3: i32, use_nvidia_current: bool, no_reboot: bool },
    Nvidia {
        dm: String,
        force_comp: bool,
        coolbits: i32,
        use_nvidia_current: bool,
        wayland: bool,
        no_reboot: bool,
    },
}

pub enum GpuDaemonCallView {
    Integrated { no_reboot: bool },
    Hybrid { rtd3: i32, use_nvidia_current: bool, no_reboot: bool },
    Nvidia {
        dm: Seq<char>,
        force_comp: bool,
        coolbits: i32,
        use_nvidia_current: bool,
        wayland: bool,
        no_reboot: bool,
    },
}

impl View for GpuDaemonCall {
    type V = GpuDaemonCallView;

    open spec fn view(&self) -> GpuDaemonCallView {
        match self {
            GpuDaemonCall::Integrated { no_reboot } => GpuDaemonCallView::Integrated {
                no_reboot: *no_reboot,
            },
            GpuDaemonCall::Hybrid { rtd3, use_nvidia_current, no_reboot } => GpuDaemonCallView::Hybrid {
                rtd3: *rtd3,
                use_nvidia_current: *use_nvidia_current,
                no_reboot: *no_reboot,
            },
            GpuDaemonCall::Nvidia { dm, force_comp, coolbits, use_nvidia_current, wayland, no_reboot } =>
                GpuDaemonCallView::Nvidia {
                dm: dm@,
                force_comp: *force_comp,
                coolbits: *coolbits,
                use_nvidia_current: *use_nvidia_current,
                wayland: *wayland,
                no_reboot: *no_reboot,
            },
        }
    }
}

/// `v as i32`: the two's complement reinterpretation of a `u32`.
pub open spec fn u32_as_i32(v: u32) -> i32 {
    if v <= 0x7fff_ffff {
        v as i32
    } else {
        (v - 0x1_0000_0000) as i32
    }
}

/// The daemon request for a switch command; none for other commands.
pub open spec fn encode_gpu_call(c: GpuCommandsView) -> Option<GpuDaemonCallView> {
    match c {
        GpuCommandsView::Integrated { no_reboot } => Some(GpuDaemonCallView::Integrated { no_reboot }),
        GpuCommandsView::Hybrid { rtd3, use_nvidia_current, no_reboot } => Some(
            GpuDaemonCallView::Hybrid {
                rtd3: match rtd3 {
                    Some(v) => v as i32,
                    None => -1i32,
                },
                use_nvidia_current,
                no_reboot,
            },
        ),
        GpuCommandsView::Nvidia { dm, force_comp, coolbits, use_nvidia_current, wayland, no_reboot } =>
            Some(
            GpuDaemonCallView::Nvidia {
                dm: match dm {
                    Some(d) => d,
                    None => Seq::<char>::empty(),
                },
                force_comp,
                coolbits: match coolbits {
                    Some(v) => u32_as_i32(v),
                    None => -1i32,
                },
                use_nvidia_current,
                wayland,
                no_reboot,
            },
        ),
        _ => None,
    }
}

/// The switch command the daemon runs for a request: negative numbers and
/// the empty string mean absent; `rtd3` keeps its low byte.
pub open spec fn decode_gpu_call(c: GpuDaemonCallView) -> GpuCommandsView {
    match c {
        GpuDaemonCallView::Integrated { no_reboot } => GpuCommandsView::Integrated { no_reboot },
        GpuDaemonCallView::Hybrid { rtd3, use_nvidia_current, no_reboot } => GpuCommandsView::Hybrid {
            rtd3: if rtd3 < 0 {
                None
            } else {
                Some((rtd3 % 256) as u8)
            },
            use_nvidia_current,
            no_reboot,
        },
        GpuDaemonCallView::Nvidia { dm, force_comp, coolbits, use_nvidia_current, wayland, no_reboot } =>
            GpuCommandsView::Nvidia {
            dm: if dm.len() == 0 {
                None
            } else {
                Some(dm)
            },
            force_comp,
            coolbits: if coolbits < 0 {
                None
            } else {
                Some(coolbits as u32)
            },
            use_nvidia_current,
            wayland,
            no_reboot,
        },
    }
}

/// The request that the command line sends to the daemon for `cmd`.
pub fn gpu_daemon_call(cmd: &GpuCommands) -> (r: Option<GpuDaemonCall>)
    ensures
        match r {
            Some(c) => encode_gpu_call(cmd@) == Some(c@),
            None => encode_gpu_call(cmd@) is None,
        },
{
    match cmd {
        GpuCommands::Integrated { no_reboot } => Some(GpuDaemonCall::Integrated { no_reboot: *no_reboot }),
        GpuCommands::Hybrid { rtd3, use_nvidia_current, no_reboot } => Some(
            GpuDaemonCall::Hybrid {
                rtd3: match rtd3 {
                    Some(v) => *v as i32,
                    None => -1,
                },
                use_nvidia_current: *use_nvidia_current,
                no_reboot: *no_reboot,
            },
        ),
        GpuCommands::Nvidia { dm, force_comp, coolbits, use_nvidia_current, wayland, no_reboot } => {
            let d = match dm {
                Some(d) => d.clone(),
                None => String::new(),
            };
            let cb: i32 = match coolbits {
                Some(v) => if *v <= 0x7fff_ffff {
                    *v as i32
                } else {
                    ((*v as i64) - 0x1_0000_0000) as i32
                },
                None => -1,
            };
            Some(
                GpuDaemonCall::Nvidia {
                    dm: d,
                    force_comp: *force_comp,
                    coolbits: cb,
                    use_nvidia_current: *use_nvidia_current,
                    wayland: *wayland,
                    no_reboot: *no_reboot,
                },
            )
        },
        _ => None,
    }
}

/// The switch command that the daemon runs for a request.
pub fn gpu_command_from_daemon_call(call: GpuDaemonCall) -> (r: GpuCommands)
    ensures
        r@ == decode_gpu_call(call@),
{
    match call {
        GpuDaemonCall::Integrated { no_reboot } => GpuCommands::Integrated { no_reboot },
        GpuDaemonCall::Hybrid { rtd3, use_nvidia_current, no_reboot } => GpuCommands::Hybrid {
            rtd3: if rtd3 < 0 {
                None
            } else {
                Some((rtd3 % 256) as u8)
            },
            use_nvidia_current,
            no_reboot,
        },
        GpuDaemonCall::Nvidia { dm, force_comp, coolbits, use_nvidia_current, wayland, no_reboot } => {
            let empty = dm.as_str().is_empty();
            GpuCommands::Nvidia {
                dm: if empty {
                    None
                } else {
                    Some(dm)
                },
                force_comp,
                coolbits: if coolbits < 0 {
                    None
                } else {
                    Some(coolbits as u32)
                },
                use_nvidia_current,
                wayland,
                no_reboot,
            }
        },
    }
}

/// A switch command sent to the daemon reaches it unchanged, provided its
/// Coolbits value fits in an `i32` and its display manager is not empty.
pub proof fn lemma_gpu_call_round_trip(c: GpuCommandsView)
    requires
        c is Integrated || c is Hybrid || c is Nvidia,
        c matches GpuCommandsView::Nvidia { coolbits, .. } ==> (coolbits matches Some(v) ==> v
            <= 0x7fff_ffff),
        c matches GpuCommandsView::Nvidia { dm, .. } ==> (dm matches Some(d) ==> d.len() > 0),
    ensures
        encode_gpu_call(c) matches Some(call) && decode_gpu_call(call) == c,
{
    match c {
        GpuCommandsView::Hybrid { rtd3, .. } => {
            if let Some(v) = rtd3 {
                assert((v as i32) % 256 == v);
            }
        },
        GpuCommandsView::Nvidia { dm, coolbits, .. } => {
            if let Some(v) = coolbits {
                assert(u32_as_i32(v) as u32 == v);
            }
        },
        _ => {},
    }
}

/// The NVIDIA kernel modules, in the order a switch to integrated mode
/// unloads them.
pub fn nvidia_modules_to_unload() -> (r: Vec<&'static str>)
    ensures
        r@.len() == 4,
        r@[0]@ == "nvidia_uvm"@,
        r@[1]@ == "nvidia_modeset"@,
        r@[2]@ == "nvidia_drm"@,
        r@[3]@ == "nvidia"@,
{
    let mut r: Vec<&'static str> = Vec::new();
    r.push("nvidia_uvm");
    r.push("nvidia_modeset");
    r.push("nvidia_drm");
    r.push("nvidia");
    r
}

pub const LEGACY_EXTRA_XORG_PATH: &'static str = "/etc/X11/xorg.conf.d/90-nvidia.conf";

pub const LEGACY_UDEV_INTEGRATED_PATH: &'static str = "/lib/udev/rules.d/50-remove-nvidia.rules";

pub const LEGACY_UDEV_PM_PATH: &'static str = "/lib/udev/rules.d/80-nvidia-pm.rules";

/// Every file a mode switch may have written, current and legacy
/// locations: a switch removes them all before writing its own.
pub open spec fn mode_file_paths() -> Seq<Seq<char>> {
    seq![
        BLACKLIST_PATH@,
        UDEV_INTEGRATED_PATH@,
        UDEV_PM_PATH@,
        XORG_PATH@,
        EXTRA_XORG_PATH@,
        MODESET_PATH@,
        LIGHTDM_SCRIPT_PATH@,
        LIGHTDM_CONFIG_PATH@,
        WAYLAND_MARKER_PATH@,
        LEGACY_EXTRA_XORG_PATH@,
        LEGACY_UDEV_INTEGRATED_PATH@,
        LEGACY_UDEV_PM_PATH@,
    ]
}

/// The files that cleanup removes, in order.
pub fn cleanup_paths() -> (r: Vec<&'static str>)
    ensures
        crate::utils::system::str_views(r@) == mode_file_paths(),
{
    let mut r: Vec<&'static str> = Vec::new();
    r.push(BLACKLIST_PATH);
    r.push(UDEV_INTEGRATED_PATH);
    r.push(UDEV_PM_PATH);
    r.push(XORG_PATH);
    r.push(EXTRA_XORG_PATH);
    r.push(MODESET_PATH);
    r.push(LIGHTDM_SCRIPT_PATH);
    r.push(LIGHTDM_CONFIG_PATH);
    r.push(WAYLAND_MARKER_PATH);
    r.push(LEGACY_EXTRA_XORG_PATH);
    r.push(LEGACY_UDEV_INTEGRATED_PATH);
    r.push(LEGACY_UDEV_PM_PATH);
    assert(crate::utils::system::str_views(r@) =~= mode_file_paths());
    r
}

/// The cached NVIDIA bus id.
#[derive(Debug)]
pub struct Cache {
    pub nvidia_gpu_pci_bus: String,
}

/// A cache record for `bus_id`.
pub fn create_cache_obj(bus_id: String) -> (r: Cache)
    ensures
        r.nvidia_gpu_pci_bus == bus_id,
{
    Cache { nvidia_gpu_pci_bus: bus_id }
}

/// Where the NVIDIA bus id comes from when the cache is read.
#[derive(Clone, Copy, Debug, PartialEq, Eq, Structural)]
pub enum CacheSource {
    /// The cache file.
    File,
    /// `lspci`, since the system is in hybrid mode.
    Lspci,
    /// Nowhere: `CACHE_MISSING_MESSAGE`.
    Missing,
}

pub const CACHE_MISSING_MESSAGE: &'static str = "No cache present. Operation requires that the system be in the hybrid Optimus mode";

/// The cache file when it exists; else `lspci`, in hybrid mode only.
pub fn cache_source(cache_file_exists: bool, mode: GpuMode) -> (r: CacheSource)
    ensures
        r == (if cache_file_exists {
            CacheSource::File
        } else if mode == GpuMode::Hybrid {
            CacheSource::Lspci
        } else {
            CacheSource::Missing
        }),
{
    if cache_file_exists {
        CacheSource::File
    } else if mode == GpuMode::Hybrid {
        CacheSource::Lspci
    } else {
        CacheSource::Missing
    }
}

/// Why a program cannot be run on the discrete GPU.
#[derive(Clone, Copy, Debug, PartialEq, Eq, Structural)]
pub enum DgpuRunError {
    /// "No command specified."
    NoCommand,
    /// "GPU run is only supported in Hybrid mode."
    NotHybrid,
}

/// Whether `command` can be run on the discrete GPU in `mode`.
pub fn check_dgpu_run(command: &Vec<String>, mode: GpuMode) -> (r: Result<(), DgpuRunError>)
    ensures
        r == (if command.len() == 0 {
            Err(DgpuRunError::NoCommand)
        } else if mode != GpuMode::Hybrid {
            Err(DgpuRunError::NotHybrid)
        } else {
            Ok(())
        }),
{
    if command.len() == 0 {
        Err(DgpuRunError::NoCommand)
    } else if mode != GpuMode::Hybrid {
        Err(DgpuRunError::NotHybrid)
    } else {
        Ok(())
    }
}

/// The environment that offloads a program to the NVIDIA GPU (PRIME render
/// offload).
pub fn dgpu_offload_env() -> (r: Vec<(&'static str, &'static str)>)
    ensures
        r@.len() == 3,
        r@[0].0@ == "__NV_PRIME_RENDER_OFFLOAD"@ && r@[0].1@ == "1"@,
        r@[1].0@ == "__GLX_VENDOR_LIBRARY_NAME"@ && r@[1].1@ == "nvidia"@,
        r@[2].0@ == "__VK_LAYER_NV_optimus"@ && r@[2].1@ == "NVIDIA_only"@,
{
    let mut r: Vec<(&'static str, &'static str)> = Vec::new();
    r.push(("__NV_PRIME_RENDER_OFFLOAD", "1"));
    r.push(("__GLX_VENDOR_LIBRARY_NAME", "nvidia"));
    r.push(("__VK_LAYER_NV_optimus", "NVIDIA_only"));
    r
}

/// Whether the session is a Wayland one: `WAYLAND_DISPLAY` is set, or
/// `XDG_SESSION_TYPE` is `wayland`.
pub fn is_wayland_session(wayland_display_set: bool, session_type: Option<&str>) -> (r: bool)
    ensures
        r == (wayland_display_set || (session_type matches Some(t) && t@ == "wayland"@)),
{
    wayland_display_set || match session_type {
        Some(t) => str_eq(t, "wayland"),
        None => false,
    }
}

/// A switch to NVIDIA mode in a Wayland session is set up for Wayland;
/// the flag tells whether the session decided it.
pub open spec fn session_adjusted(c: GpuCommandsView, wayland_session: bool) -> GpuCommandsView {
    match c {
        GpuCommandsView::Nvidia { dm, force_comp, coolbits, use_nvidia_current, wayland, no_reboot } =>
            if !wayland && wayland_session {
            GpuCommandsView::Nvidia { dm, force_comp, coolbits, use_nvidia_current, wayland: true, no_reboot }
        } else {
            c
        },
        _ => c,
    }
}

/// `cmd`, with a switch to NVIDIA mode set up for Wayland when the session
/// is a Wayland one; the flag tells whether that changed it.
pub fn adjust_for_session(cmd: GpuCommands, wayland_session: bool) -> (r: (GpuCommands, bool))
    ensures
        r.0@ == session_adjusted(cmd@, wayland_session),
        r.1 == (cmd@ is Nvidia && cmd@->Nvidia_wayland == false && wayland_session),
{
    match cmd {
        GpuCommands::Nvidia { dm, force_comp, coolbits, use_nvidia_current, wayland, no_reboot } => {
            if !wayland && wayland_session {
                (GpuCommands::Nvidia { dm, force_comp, coolbits, use_nvidia_current, wayland: true, no_reboot }, true)
            } else {
                (GpuCommands::Nvidia { dm, force_comp, coolbits, use_nvidia_current, wayland, no_reboot }, false)
            }
        },
        other => (other, false),
    }
}

/// The line announcing a mode switch.
pub fn switch_announcement(cmd: &GpuCommands) -> (r: Option<&'static str>)
    ensures
        match cmd@ {
            GpuCommandsView::Integrated { .. } => r matches Some(m) && m@ == "Switching to Integrated GPU mode..."@,
            GpuCommandsView::Hybrid { .. } => r matches Some(m) && m@ == "Switching to Hybrid GPU mode..."@,
            GpuCommandsView::Nvidia { .. } => r matches Some(m) && m@ == "Switching to NVIDIA-only GPU mode..."@,
            _ => r is None,
        },
{
    match cmd {
        GpuCommands::Integrated { .. } => Some("Switching to Integrated GPU mode..."),
        GpuCommands::Hybrid { .. } => Some("Switching to Hybrid GPU mode..."),
        GpuCommands::Nvidia { .. } => Some("Switching to NVIDIA-only GPU mode..."),
        _ => None,
    }
}

/// A PCI device whose vendor is NVIDIA (`0x10de`) and whose class is a VGA
/// controller (`0x0300…`), from its sysfs `vendor` and `class` files.
pub fn is_nvidia_vga(vendor: &str, class: &str) -> (r: bool)
    ensures
        r == (trim(vendor@) == "0x10de"@ && starts_with(trim(class@), "0x0300"@)),
{
    let v = trim_str(vendor);
    let c = str_chars(class);
    let (a, b) = trim_range(&c, 0, c.len());
    assert(c@.subrange(0, c.len() as int) =~= class@);
    let p = str_chars("0x0300");
    str_eq(v.as_str(), "0x10de") && range_starts_with(&c, a, b, &p)
}

/// `label` followed by the trimmed `value`.
pub open spec fn labelled(label: Seq<char>, value: Seq<char>) -> Seq<char> {
    label + trim(value)
}

/// The report lines for one `nvidia-smi` CSV line: nothing unless it has
/// at least five fields.
pub open spec fn smi_line_report(l: Seq<char>) -> Seq<Seq<char>> {
    let parts = split(l, ", "@);
    if parts.len() >= 5 {
        seq![
            Seq::<char>::empty(),
            labelled("  Power Draw: "@, parts[0]),
            labelled("  Power Limit: "@, parts[1]),
            labelled("  Default Limit: "@, parts[2]),
            labelled("  Max Limit: "@, parts[3]),
            labelled("  Current Clock: "@, parts[4]),
        ] + (if parts.len() > 5 {
            seq![labelled("  Max Clock: "@, parts[5])]
        } else {
            Seq::<Seq<char>>::empty()
        })
    } else {
        Seq::<Seq<char>>::empty()
    }
}

pub open spec fn smi_report(ls: Seq<Seq<char>>) -> Seq<Seq<char>>
    decreases ls.len(),
{
    if ls.len() == 0 {
        Seq::<Seq<char>>::empty()
    } else {
        smi_line_report(ls[0]) + smi_report(ls.drop_first())
    }
}

fn push_labelled(r: &mut Vec<String>, label: &str, value: &String)
    ensures
        final(r).deep_view() == old(r).deep_view().push(labelled(label@, value@)),
{
    let mut s = String::from_str(label);
    let t = trim_str(value.as_str());
    s.append(t.as_str());
    r.push(s);
    assert(r.deep_view() =~= old(r).deep_view().push(labelled(label@, value@)));
}

/// The power report lines for `nvidia-smi --query-gpu=power.draw,power.limit,
/// power.default_limit,power.max_limit,clocks.current.graphics,
/// clocks.max.graphics --format=csv,noheader` output.
pub fn nvidia_smi_power_report(stdout: &str) -> (r: Vec<String>)
    ensures
        r.deep_view() == smi_report(lines(stdout@)),
{
    let v = str_chars(stdout);
    let sep = str_chars(", ");
    proof {
        reveal_strlit(", ");
    }
    let mut r: Vec<String> = Vec::new();
    let mut pos: usize = 0;
    assert(v@.skip(0) =~= v@);
    while pos < v.len()
        invariant
            pos <= v.len(),
            v@ == stdout@,
            sep@ == ", "@,
            sep@.len() > 0,
            smi_report(lines(stdout@)) == r.deep_view() + smi_report(lines(v@.skip(pos as int))),
        decreases v.len() - pos,
    {
        let (e, next) = next_line(&v, pos);
        let ghost line = v@.subrange(pos as int, e as int);
        let ghost rest = lines(v@.skip(next as int));
        assert((seq![line] + rest).drop_first() =~= rest);
        assert((seq![line] + rest)[0] == line);
        let ghost before = r.deep_view();
        let parts = split_range(&v, pos, e, &sep);
        assert(parts.deep_view().len() == parts.len());
        if parts.len() >= 5 {
            r.push(String::new());
            assert(r.deep_view() =~= before.push(Seq::<char>::empty()));
            push_labelled(&mut r, "  Power Draw: ", &parts[0]);
            push_labelled(&mut r, "  Power Limit: ", &parts[1]);
            push_labelled(&mut r, "  Default Limit: ", &parts[2]);
            push_labelled(&mut r, "  Max Limit: ", &parts[3]);
            push_labelled(&mut r, "  Current Clock: ", &parts[4]);
            if parts.len() > 5 {
                push_labelled(&mut r, "  Max Clock: ", &parts[5]);
            }
            assert(r.deep_view() =~= before + smi_line_report(line));
        } else {
            assert(r.deep_view() =~= before + smi_line_report(line));
        }
        pos = next;
    }
    assert(v@.skip(pos as int) =~= Seq::<char>::empty());
    assert(r.deep_view() =~= r.deep_view() + smi_report(lines(v@.skip(pos as int))));
    r
}

/// Whether the actions write `path`.
pub open spec fn writes(a: Seq<ConfigActionView>, path: Seq<char>) -> bool
    decreases a.len(),
{
    a.len() > 0 && ((a[0] matches ConfigActionView::Write { path: p, .. } && p == path) || writes(
        a.drop_first(),
        path,
    ))
}

proof fn lemma_writes_concat(a: Seq<ConfigActionView>, b: Seq<ConfigActionView>, path: Seq<char>)
    ensures
        writes(a + b, path) == (writes(a, path) || writes(b, path)),
    decreases a.len(),
{
    if a.len() > 0 {
        assert((a + b).drop_first() =~= a.drop_first() + b);
        assert((a + b)[0] == a[0]);
        lemma_writes_concat(a.drop_first(), b, path);
    } else {
        assert(a + b =~= b);
    }
}

proof fn lemma_writes_single(x: ConfigActionView, path: Seq<char>)
    ensures
        writes(seq![x], path) == (x matches ConfigActionView::Write { path: p, .. } && p == path),
{
    assert(seq![x].drop_first() =~= Seq::<ConfigActionView>::empty());
    assert(!writes(Seq::<ConfigActionView>::empty(), path));
    assert(seq![x][0] == x);
}

/// The mode files present after the files of every mode were removed and
/// `a` was applied.
pub open spec fn files_after(a: Seq<ConfigActionView>) -> ModeFiles {
    ModeFiles {
        blacklist: writes(a, BLACKLIST_PATH@),
        udev_integrated: writes(a, UDEV_INTEGRATED_PATH@),
        legacy_udev_integrated: false,
        xorg: writes(a, XORG_PATH@),
        wayland_marker: writes(a, WAYLAND_MARKER_PATH@),
        modeset: writes(a, MODESET_PATH@),
    }
}

proof fn lemma_path_lengths()
    ensures
        BLACKLIST_PATH@.len() == 37,
        UDEV_INTEGRATED_PATH@.len() == 40,
        UDEV_PM_PATH@.len() == 36,
        XORG_PATH@.len() == 18,
        EXTRA_XORG_PATH@.len() == 35,
        MODESET_PATH@.len() == 27,
        SDDM_XSETUP_PATH@.len() == 30,
        LIGHTDM_SCRIPT_PATH@.len() == 22,
        LIGHTDM_CONFIG_PATH@.len() == 42,
        WAYLAND_MARKER_PATH@.len() == 26,
{
    reveal_strlit("/etc/modprobe.d/blacklist-nvidia.conf");
    reveal_strlit("/etc/udev/rules.d/50-remove-nvidia.rules");
    reveal_strlit("/etc/udev/rules.d/80-nvidia-pm.rules");
    reveal_strlit("/etc/X11/xorg.conf");
    reveal_strlit("/etc/X11/xorg.conf.d/10-nvidia.conf");
    reveal_strlit("/etc/modprobe.d/nvidia.conf");
    reveal_strlit("/usr/share/sddm/scripts/Xsetup");
    reveal_strlit("/etc/lightdm/nvidia.sh");
    reveal_strlit("/etc/lightdm/lightdm.conf.d/20-nvidia.conf");
    reveal_strlit("/etc/lapctl-wayland-nvidia");
}

/// Cleanup removes every file that mode detection looks at, so after a
/// reset (cleanup, nothing written) the system reads as hybrid.
pub proof fn lemma_reset_reads_hybrid()
    ensures
        mode_file_paths().contains(BLACKLIST_PATH@),
        mode_file_paths().contains(UDEV_INTEGRATED_PATH@),
        mode_file_paths().contains(LEGACY_UDEV_INTEGRATED_PATH@),
        mode_file_paths().contains(XORG_PATH@),
        mode_file_paths().contains(WAYLAND_MARKER_PATH@),
        mode_file_paths().contains(MODESET_PATH@),
        spec_gpu_mode(files_after(Seq::<ConfigActionView>::empty())) == GpuMode::Hybrid,
{
    let p = mode_file_paths();
    assert(p[0] == BLACKLIST_PATH@);
    assert(p[1] == UDEV_INTEGRATED_PATH@);
    assert(p[10] == LEGACY_UDEV_INTEGRATED_PATH@);
    assert(p[3] == XORG_PATH@);
    assert(p[8] == WAYLAND_MARKER_PATH@);
    assert(p[5] == MODESET_PATH@);
}

/// An action that cleanup undoes: it writes a file that cleanup removes,
/// or sddm's Xsetup, whose backup cleanup restores and removes.
pub open spec fn undone_by_cleanup(a: ConfigActionView) -> bool {
    match a {
        ConfigActionView::Write { path, .. } => mode_file_paths().contains(path) || path
            == SDDM_XSETUP_PATH@,
        ConfigActionView::Backup { path, backup } => path == SDDM_XSETUP_PATH@ && backup
            == SDDM_XSETUP_BACKUP_PATH@,
    }
}

pub open spec fn all_undone_by_cleanup(a: Seq<ConfigActionView>) -> bool {
    forall|i: int| 0 <= i < a.len() ==> #[trigger] undone_by_cleanup(a[i])
}

proof fn lemma_undone_concat(a: Seq<ConfigActionView>, b: Seq<ConfigActionView>)
    requires
        all_undone_by_cleanup(a),
        all_undone_by_cleanup(b),
    ensures
        all_undone_by_cleanup(a + b),
{
    assert forall|i: int| 0 <= i < (a + b).len() implies #[trigger] undone_by_cleanup((a + b)[i]) by {
        if i < a.len() {
            assert((a + b)[i] == a[i]);
        } else {
            assert((a + b)[i] == b[i - a.len()]);
        }
    }
}

proof fn lemma_mode_file_written(path: Seq<char>, content: Seq<char>, executable: bool, k: int)
    requires
        0 <= k < mode_file_paths().len(),
        mode_file_paths()[k] == path,
    ensures
        all_undone_by_cleanup(seq![write_view(path, content, executable)]),
{
    assert(undone_by_cleanup(seq![write_view(path, content, executable)][0]));
}

/// Whatever a switch writes, a later cleanup (the first step of the next
/// switch, or a reset) removes or restores: no switch leaves a file behind
/// that another mode would not clear.
pub proof fn lemma_switches_undone_by_cleanup(rtd3: Option<u8>, use_nvidia_current: bool, s: NvidiaSetup)
    ensures
        all_undone_by_cleanup(integrated_actions()),
        all_undone_by_cleanup(hybrid_actions(rtd3, use_nvidia_current)),
        all_undone_by_cleanup(nvidia_actions(s)),
{
    let p = mode_file_paths();
    let empty = Seq::<ConfigActionView>::empty();
    // integrated
    lemma_mode_file_written(BLACKLIST_PATH@, BLACKLIST_CONTENT@, false, 0);
    lemma_mode_file_written(UDEV_INTEGRATED_PATH@, UDEV_INTEGRATED@, false, 1);
    lemma_undone_concat(
        seq![write_view(BLACKLIST_PATH@, BLACKLIST_CONTENT@, false)],
        seq![write_view(UDEV_INTEGRATED_PATH@, UDEV_INTEGRATED@, false)],
    );
    assert(integrated_actions() =~= seq![write_view(BLACKLIST_PATH@, BLACKLIST_CONTENT@, false)] + seq![
        write_view(UDEV_INTEGRATED_PATH@, UDEV_INTEGRATED@, false),
    ]);
    // hybrid
    let m = seq![write_view(MODESET_PATH@, modeset_text(rtd3, use_nvidia_current), false)];
    lemma_mode_file_written(MODESET_PATH@, modeset_text(rtd3, use_nvidia_current), false, 5);
    lemma_mode_file_written(UDEV_PM_PATH@, UDEV_PM_CONTENT@, false, 2);
    assert(all_undone_by_cleanup(empty));
    let t = if rtd3 is Some {
        seq![write_view(UDEV_PM_PATH@, UDEV_PM_CONTENT@, false)]
    } else {
        empty
    };
    lemma_undone_concat(m, t);
    assert(hybrid_actions(rtd3, use_nvidia_current) == m + t);
    // nvidia
    let n = seq![write_view(MODESET_PATH@, modeset_text(None, s.use_nvidia_current), false)];
    lemma_mode_file_written(MODESET_PATH@, modeset_text(None, s.use_nvidia_current), false, 5);
    if s.wayland {
        let w = seq![write_view(WAYLAND_MARKER_PATH@, WAYLAND_MARKER_CONTENT@, false)];
        lemma_mode_file_written(WAYLAND_MARKER_PATH@, WAYLAND_MARKER_CONTENT@, false, 8);
        lemma_undone_concat(n, w);
        assert(nvidia_actions(s) == n + w);
    } else {
        let xt = xorg_text(s.igpu_vendor.deep_view(), s.pci_bus@);
        let et = extra_xorg_text(s.force_comp, s.coolbits);
        let x = optional_write(XORG_PATH@, xt);
        let e = optional_write(EXTRA_XORG_PATH@, et);
        if let Some(c) = xt {
            lemma_mode_file_written(XORG_PATH@, c, false, 3);
        }
        if let Some(c) = et {
            lemma_mode_file_written(EXTRA_XORG_PATH@, c, false, 4);
        }
        let script = replace(
            NVIDIA_XRANDR_SCRIPT@,
            "{}"@,
            xrandr_source(s.igpu_vendor.deep_view(), s.amd_igpu_name.deep_view()),
        );
        let d = display_manager_actions(s.display_manager.deep_view(), script);
        if d.len() == 2 {
            assert(undone_by_cleanup(d[0]) && undone_by_cleanup(d[1])) by {
                assert(p[6] == LIGHTDM_SCRIPT_PATH@);
                assert(p[7] == LIGHTDM_CONFIG_PATH@);
            }
        }
        assert(all_undone_by_cleanup(d));
        lemma_undone_concat(x, e);
        lemma_undone_concat(x + e, d);
        lemma_undone_concat(n, x + e + d);
        assert(nvidia_actions(s) =~= n + (x + e + d));
    }
}

/// After a switch to integrated mode, the files describe integrated mode.
pub proof fn lemma_integrated_switch_reads_back()
    ensures
        spec_gpu_mode(files_after(integrated_actions())) == GpuMode::Integrated,
{
    let a = integrated_actions();
    assert(a =~= seq![a[0]] + seq![a[1]]);
    lemma_writes_concat(seq![a[0]], seq![a[1]], BLACKLIST_PATH@);
    lemma_writes_single(a[0], BLACKLIST_PATH@);
    lemma_writes_concat(seq![a[0]], seq![a[1]], UDEV_INTEGRATED_PATH@);
    lemma_writes_single(a[1], UDEV_INTEGRATED_PATH@);
}

/// After a switch to hybrid mode, the files describe hybrid mode.
pub proof fn lemma_hybrid_switch_reads_back(rtd3: Option<u8>, use_nvidia_current: bool)
    ensures
        spec_gpu_mode(files_after(hybrid_actions(rtd3, use_nvidia_current))) == GpuMode::Hybrid,
{
    lemma_path_lengths();
    let m = seq![write_view(MODESET_PATH@, modeset_text(rtd3, use_nvidia_current), false)];
    let t = if rtd3 is Some {
        seq![write_view(UDEV_PM_PATH@, UDEV_PM_CONTENT@, false)]
    } else {
        Seq::<ConfigActionView>::empty()
    };
    assert(hybrid_actions(rtd3, use_nvidia_current) == m + t);
    lemma_writes_concat(m, t, BLACKLIST_PATH@);
    lemma_writes_concat(m, t, XORG_PATH@);
    lemma_writes_concat(m, t, WAYLAND_MARKER_PATH@);
    lemma_writes_single(m[0], BLACKLIST_PATH@);
    lemma_writes_single(m[0], XORG_PATH@);
    lemma_writes_single(m[0], WAYLAND_MARKER_PATH@);
    if rtd3 is Some {
        lemma_writes_single(t[0], BLACKLIST_PATH@);
        lemma_writes_single(t[0], XORG_PATH@);
        lemma_writes_single(t[0], WAYLAND_MARKER_PATH@);
    }
}

proof fn lemma_dm_actions_paths(d: Option<Seq<char>>, script: Seq<char>, path: Seq<char>)
    requires
        path == BLACKLIST_PATH@ || path == UDEV_INTEGRATED_PATH@,
    ensures
        !writes(display_manager_actions(d, script), path),
{
    lemma_path_lengths();
    let a = display_manager_actions(d, script);
    if a.len() == 2 {
        assert(a =~= seq![a[0]] + seq![a[1]]);
        lemma_writes_concat(seq![a[0]], seq![a[1]], path);
        lemma_writes_single(a[0], path);
        lemma_writes_single(a[1], path);
    }
}

proof fn lemma_optional_write(path: Seq<char>, content: Option<Seq<char>>, q: Seq<char>)
    ensures
        writes(optional_write(path, content), q) == (content is Some && path == q),
{
    if let Some(c) = content {
        lemma_writes_single(write_view(path, c, false), q);
    }
}

/// After a switch to NVIDIA mode, the files describe NVIDIA mode, provided
/// the session is a Wayland one or the integrated GPU is Intel, AMD or not
/// detected (for another vendor no Xorg configuration is written).
pub proof fn lemma_nvidia_switch_reads_back(s: NvidiaSetup)
    requires
        s.wayland || s.igpu_vendor is None || (s.igpu_vendor matches Some(v) && (v@ == "intel"@
            || v@ == "amd"@)),
    ensures
        spec_gpu_mode(files_after(nvidia_actions(s))) == GpuMode::Nvidia,
{
    lemma_path_lengths();
    let m = seq![write_view(MODESET_PATH@, modeset_text(None, s.use_nvidia_current), false)];
    lemma_writes_single(m[0], BLACKLIST_PATH@);
    lemma_writes_single(m[0], MODESET_PATH@);
    if s.wayland {
        let w = seq![write_view(WAYLAND_MARKER_PATH@, WAYLAND_MARKER_CONTENT@, false)];
        assert(nvidia_actions(s) == m + w);
        lemma_writes_concat(m, w, BLACKLIST_PATH@);
        lemma_writes_concat(m, w, WAYLAND_MARKER_PATH@);
        lemma_writes_concat(m, w, MODESET_PATH@);
        lemma_writes_single(w[0], BLACKLIST_PATH@);
        lemma_writes_single(w[0], WAYLAND_MARKER_PATH@);
    } else {
        let x = optional_write(XORG_PATH@, xorg_text(s.igpu_vendor.deep_view(), s.pci_bus@));
        let e = optional_write(EXTRA_XORG_PATH@, extra_xorg_text(s.force_comp, s.coolbits));
        let script = replace(
            NVIDIA_XRANDR_SCRIPT@,
            "{}"@,
            xrandr_source(s.igpu_vendor.deep_view(), s.amd_igpu_name.deep_view()),
        );
        let d = display_manager_actions(s.display_manager.deep_view(), script);
        assert(nvidia_actions(s) =~= m + (x + e + d));
        assert(xorg_text(s.igpu_vendor.deep_view(), s.pci_bus@) is Some);
        lemma_writes_concat(m, x + e + d, BLACKLIST_PATH@);
        lemma_writes_concat(m, x + e + d, XORG_PATH@);
        lemma_writes_concat(m, x + e + d, MODESET_PATH@);
        lemma_writes_concat(x + e, d, BLACKLIST_PATH@);
        lemma_writes_concat(x, e, BLACKLIST_PATH@);
        lemma_writes_concat(x + e, d, XORG_PATH@);
        lemma_writes_concat(x, e, XORG_PATH@);
        lemma_optional_write(XORG_PATH@, xorg_text(s.igpu_vendor.deep_view(), s.pci_bus@), BLACKLIST_PATH@);
        lemma_optional_write(XORG_PATH@, xorg_text(s.igpu_vendor.deep_view(), s.pci_bus@), XORG_PATH@);
        lemma_optional_write(EXTRA_XORG_PATH@, extra_xorg_text(s.force_comp, s.coolbits), BLACKLIST_PATH@);
        lemma_dm_actions_paths(s.display_manager.deep_view(), script, BLACKLIST_PATH@);
    }
}

proof fn lemma_probed_vendor(ls: Seq<Seq<char>>)
    ensures
        first_hit(ls, igpu_vendor_finder()) matches Some(v) ==> (v == "intel"@ || v == "amd"@),
    decreases ls.len(),
{
    if ls.len() > 0 {
        lemma_probed_vendor(ls.drop_first());
    }
}

/// After a switch to NVIDIA mode whose integrated GPU vendor is the one
/// `parse_igpu_vendor` reads from `lspci` output (or in a Wayland
/// session), the files describe NVIDIA mode: the probe only ever names
/// Intel or AMD, or nothing.
pub proof fn lemma_probed_nvidia_switch_reads_back(lspci_output: Seq<char>, s: NvidiaSetup)
    requires
        s.wayland || s.igpu_vendor.deep_view() == first_hit(lines(lspci_output), igpu_vendor_finder()),
    ensures
        spec_gpu_mode(files_after(nvidia_actions(s))) == GpuMode::Nvidia,
{
    lemma_probed_vendor(lines(lspci_output));
    lemma_nvidia_switch_reads_back(s);
}

proof fn lemma_dm_writes(d: Option<Seq<char>>, script: Seq<char>, q: Seq<char>)
    ensures
        writes(display_manager_actions(d, script), q) == ((d == Some("sddm"@) && q == SDDM_XSETUP_PATH@)
            || (d == Some("lightdm"@) && (q == LIGHTDM_SCRIPT_PATH@ || q == LIGHTDM_CONFIG_PATH@))),
{
    reveal_strlit("sddm");
    reveal_strlit("lightdm");
    lemma_path_lengths();
    assert("sddm"@ != "lightdm"@) by {
        assert("sddm"@.len() != "lightdm"@.len());
    }
    let a = display_manager_actions(d, script);
    if a.len() == 2 {
        assert(a =~= seq![a[0]] + seq![a[1]]);
        lemma_writes_concat(seq![a[0]], seq![a[1]], q);
        lemma_writes_single(a[0], q);
        lemma_writes_single(a[1], q);
    } else {
        assert(a =~= Seq::<ConfigActionView>::empty());
        assert(!writes(a, q));
    }
}

/// A switch to hybrid mode writes the modeset options, and the runtime power
/// management udev rule exactly when an RTD3 level is given; it writes no
/// file of another mode.
pub proof fn lemma_hybrid_files_follow_flags(rtd3: Option<u8>, use_nvidia_current: bool)
    ensures
        writes(hybrid_actions(rtd3, use_nvidia_current), MODESET_PATH@),
        writes(hybrid_actions(rtd3, use_nvidia_current), UDEV_PM_PATH@) <==> rtd3 is Some,
        !writes(hybrid_actions(rtd3, use_nvidia_current), BLACKLIST_PATH@),
        !writes(hybrid_actions(rtd3, use_nvidia_current), XORG_PATH@),
        !writes(hybrid_actions(rtd3, use_nvidia_current), WAYLAND_MARKER_PATH@),
{
    lemma_path_lengths();
    let m = seq![write_view(MODESET_PATH@, modeset_text(rtd3, use_nvidia_current), false)];
    let t = if rtd3 is Some {
        seq![write_view(UDEV_PM_PATH@, UDEV_PM_CONTENT@, false)]
    } else {
        Seq::<ConfigActionView>::empty()
    };
    assert(hybrid_actions(rtd3, use_nvidia_current) == m + t);
    assert(!writes(Seq::<ConfigActionView>::empty(), UDEV_PM_PATH@));
    let qs = seq![MODESET_PATH@, UDEV_PM_PATH@, BLACKLIST_PATH@, XORG_PATH@, WAYLAND_MARKER_PATH@];
    assert forall|i: int| 0 <= i < qs.len() implies writes(m + t, #[trigger] qs[i]) == (writes(
        m,
        qs[i],
    ) || writes(t, qs[i])) by {
        lemma_writes_concat(m, t, qs[i]);
    }
    assert forall|i: int| 0 <= i < qs.len() implies writes(m, #[trigger] qs[i]) == (qs[i]
        == MODESET_PATH@) by {
        lemma_writes_single(m[0], qs[i]);
    }
    if rtd3 is Some {
        assert forall|i: int| 0 <= i < qs.len() implies writes(t, #[trigger] qs[i]) == (qs[i]
            == UDEV_PM_PATH@) by {
            lemma_writes_single(t[0], qs[i]);
        }
    }
    assert(qs[0] == MODESET_PATH@ && qs[1] == UDEV_PM_PATH@ && qs[2] == BLACKLIST_PATH@
        && qs[3] == XORG_PATH@ && qs[4] == WAYLAND_MARKER_PATH@);
}

/// A switch to NVIDIA mode writes the modeset options; in a Wayland session
/// it writes the Wayland marker and no Xorg file; otherwise it writes the
/// Xorg layout unless the integrated GPU is of an unknown vendor, the extra
/// Xorg options exactly when ForceCompositionPipeline or Coolbits is asked
/// for, sddm's Xsetup exactly for sddm, and the lightdm hook exactly for
/// lightdm.
pub proof fn lemma_nvidia_files_follow_setup(s: NvidiaSetup)
    ensures
        writes(nvidia_actions(s), MODESET_PATH@),
        writes(nvidia_actions(s), WAYLAND_MARKER_PATH@) <==> s.wayland,
        writes(nvidia_actions(s), XORG_PATH@) <==> (!s.wayland && (s.igpu_vendor is None || (
        s.igpu_vendor matches Some(v) && (v@ == "intel"@ || v@ == "amd"@)))),
        writes(nvidia_actions(s), EXTRA_XORG_PATH@) <==> (!s.wayland && (s.force_comp
            || s.coolbits is Some)),
        writes(nvidia_actions(s), SDDM_XSETUP_PATH@) <==> (!s.wayland && s.display_manager.deep_view()
            == Some("sddm"@)),
        writes(nvidia_actions(s), LIGHTDM_SCRIPT_PATH@) <==> (!s.wayland
            && s.display_manager.deep_view() == Some("lightdm"@)),
{
    lemma_path_lengths();
    let m = seq![write_view(MODESET_PATH@, modeset_text(None, s.use_nvidia_current), false)];
    let qs = seq![
        MODESET_PATH@,
        WAYLAND_MARKER_PATH@,
        XORG_PATH@,
        EXTRA_XORG_PATH@,
        SDDM_XSETUP_PATH@,
        LIGHTDM_SCRIPT_PATH@,
    ];
    assert(qs[0] == MODESET_PATH@ && qs[1] == WAYLAND_MARKER_PATH@ && qs[2] == XORG_PATH@ && qs[3]
        == EXTRA_XORG_PATH@ && qs[4] == SDDM_XSETUP_PATH@ && qs[5] == LIGHTDM_SCRIPT_PATH@);
    assert forall|i: int| 0 <= i < qs.len() implies writes(m, #[trigger] qs[i]) == (qs[i]
        == MODESET_PATH@) by {
        lemma_writes_single(m[0], qs[i]);
    }
    if s.wayland {
        let w = seq![write_view(WAYLAND_MARKER_PATH@, WAYLAND_MARKER_CONTENT@, false)];
        assert(nvidia_actions(s) == m + w);
        assert forall|i: int| 0 <= i < qs.len() implies writes(m + w, #[trigger] qs[i]) == (qs[i]
            == MODESET_PATH@ || qs[i] == WAYLAND_MARKER_PATH@) by {
            lemma_writes_concat(m, w, qs[i]);
            lemma_writes_single(w[0], qs[i]);
        }
    } else {
        let xt = xorg_text(s.igpu_vendor.deep_view(), s.pci_bus@);
        let et = extra_xorg_text(s.force_comp, s.coolbits);
        let x = optional_write(XORG_PATH@, xt);
        let e = optional_write(EXTRA_XORG_PATH@, et);
        let script = replace(
            NVIDIA_XRANDR_SCRIPT@,
            "{}"@,
            xrandr_source(s.igpu_vendor.deep_view(), s.amd_igpu_name.deep_view()),
        );
        let d = display_manager_actions(s.display_manager.deep_view(), script);
        assert(nvidia_actions(s) =~= m + (x + e + d));
        lemma_extra_xorg_options_follow_flags(s.force_comp, s.coolbits);
        assert(xt is Some <==> (s.igpu_vendor is None || (s.igpu_vendor matches Some(v) && (v@
            == "intel"@ || v@ == "amd"@))));
        assert forall|i: int| 0 <= i < qs.len() implies writes(m + (x + e + d), #[trigger] qs[i])
            == (qs[i] == MODESET_PATH@ || (xt is Some && qs[i] == XORG_PATH@) || (et is Some && qs[i]
            == EXTRA_XORG_PATH@) || writes(d, qs[i])) by {
            lemma_writes_concat(m, x + e + d, qs[i]);
            lemma_writes_concat(x + e, d, qs[i]);
            lemma_writes_concat(x, e, qs[i]);
            lemma_optional_write(XORG_PATH@, xt, qs[i]);
            lemma_optional_write(EXTRA_XORG_PATH@, et, qs[i]);
        }
        assert forall|i: int| 0 <= i < qs.len() implies writes(d, #[trigger] qs[i]) == ((
        s.display_manager.deep_view() == Some("sddm"@) && qs[i] == SDDM_XSETUP_PATH@) || (
        s.display_manager.deep_view() == Some("lightdm"@) && (qs[i] == LIGHTDM_SCRIPT_PATH@ || qs[i]
            == LIGHTDM_CONFIG_PATH@))) by {
            lemma_dm_writes(s.display_manager.deep_view(), script, qs[i]);
        }
    }
}

} // verus!
