//! GPU detection: the graphics mode from the configuration files present,
//! and the NVIDIA / integrated GPU facts read from `lspci` and `xrandr`.
use crate::utils::pattern::{compile_pattern, first_match, regex_compiles, regex_first_match};
use crate::utils::text::{
    contains, count_char, dec, first_hit, first_token, first_token_range, lemma_first_hit_cons,
    lemma_lines_end, lines, next_line, parse_unsigned, parse_unsigned_range, push_dec, push_range,
    range_contains, range_count_char, replace, replace_str, split, split_range, str_chars,
    substring, trim, trim_range,
};
use vstd::prelude::*;

verus! {

/// Which of the files that a GPU switch writes are present.
pub struct ModeFiles {
    /// `/etc/modprobe.d/blacklist-nvidia.conf`
    pub blacklist: bool,
    /// `/etc/udev/rules.d/50-remove-nvidia.rules`
    pub udev_integrated: bool,
    /// `/lib/udev/rules.d/50-remove-nvidia.rules`
    pub legacy_udev_integrated: bool,
    /// `/etc/X11/xorg.conf`
    pub xorg: bool,
    /// `/etc/lapctl-wayland-nvidia`
    pub wayland_marker: bool,
    /// `/etc/modprobe.d/nvidia.conf`
    pub modeset: bool,
}

/// The graphics mode the system is configured for.
#[derive(Clone, Copy, Debug, PartialEq, Eq, Structural)]
pub enum GpuMode {
    Integrated,
    Nvidia,
    Hybrid,
}

pub open spec fn spec_gpu_mode(f: ModeFiles) -> GpuMode {
    if f.blacklist && (f.udev_integrated || f.legacy_udev_integrated) {
        GpuMode::Integrated
    } else if (f.xorg || f.wayland_marker) && f.modeset {
        GpuMode::Nvidia
    } else {
        GpuMode::Hybrid
    }
}

pub open spec fn mode_name(m: GpuMode) -> Seq<char> {
    match m {
        GpuMode::Integrated => "integrated"@,
        GpuMode::Nvidia => "nvidia"@,
        GpuMode::Hybrid => "hybrid"@,
    }
}

/// The mode that the present files describe.
pub fn detect_gpu_mode(files: &ModeFiles) -> (m: GpuMode)
    ensures
        m == spec_gpu_mode(*files),
{
    if files.blacklist && (files.udev_integrated || files.legacy_udev_integrated) {
        GpuMode::Integrated
    } else if (files.xorg || files.wayland_marker) && files.modeset {
        GpuMode::Nvidia
    } else {
        GpuMode::Hybrid
    }
}

/// The name of a mode: `integrated`, `nvidia` or `hybrid`.
pub fn gpu_mode_name(m: GpuMode) -> (r: String)
    ensures
        r@ == mode_name(m),
{
    match m {
        GpuMode::Integrated => String::from_str("integrated"),
        GpuMode::Nvidia => String::from_str("nvidia"),
        GpuMode::Hybrid => String::from_str("hybrid"),
    }
}

/// The name of the mode that the present files describe.
pub fn get_current_mode(files: &ModeFiles) -> (r: String)
    ensures
        r@ == mode_name(spec_gpu_mode(*files)),
{
    gpu_mode_name(detect_gpu_mode(files))
}

/// An `lspci` line that describes an NVIDIA display adapter.
pub open spec fn is_nvidia_gpu_line(l: Seq<char>) -> bool {
    contains(l, "NVIDIA"@) && (contains(l, "VGA compatible controller"@) || contains(
        l,
        "3D controller"@,
    ))
}

/// The PCI address on an NVIDIA line: its first word, when it holds a `:`,
/// with the `0000:` domain added when it has only one `:`.
pub open spec fn pci_addr_in_line(l: Seq<char>) -> Option<Seq<char>> {
    if is_nvidia_gpu_line(l) {
        match first_token(l) {
            Some(t) => if contains(t, ":"@) {
                Some(
                    if count_char(t, ':') == 1 {
                        "0000:"@ + t
                    } else {
                        t
                    },
                )
            } else {
                None
            },
            None => None,
        }
    } else {
        None
    }
}

pub open spec fn pci_addr_finder() -> spec_fn(Seq<char>) -> Option<Seq<char>> {
    |l: Seq<char>| pci_addr_in_line(l)
}

/// Characters of the markers that identify an NVIDIA adapter line.
struct NvidiaMarkers {
    nvidia: Vec<char>,
    vga: Vec<char>,
    three_d: Vec<char>,
}

impl NvidiaMarkers {
    fn new() -> (r: NvidiaMarkers)
        ensures
            r.nvidia@ == "NVIDIA"@,
            r.vga@ == "VGA compatible controller"@,
            r.three_d@ == "3D controller"@,
    {
        NvidiaMarkers {
            nvidia: str_chars("NVIDIA"),
            vga: str_chars("VGA compatible controller"),
            three_d: str_chars("3D controller"),
        }
    }

    fn is_gpu_line(&self, v: &Vec<char>, a: usize, b: usize) -> (r: bool)
        requires
            a <= b <= v.len(),
            self.nvidia@ == "NVIDIA"@,
            self.vga@ == "VGA compatible controller"@,
            self.three_d@ == "3D controller"@,
        ensures
            r == is_nvidia_gpu_line(v@.subrange(a as int, b as int)),
    {
        range_contains(v, a, b, &self.nvidia) && (range_contains(v, a, b, &self.vga)
            || range_contains(v, a, b, &self.three_d))
    }
}

/// The PCI address (`0000:01:00.0`) of the NVIDIA GPU in `lspci` output.
pub fn parse_nvidia_gpu_pci_addr(lspci_output: &str) -> (r: Option<String>)
    ensures
        r.deep_view() == first_hit(lines(lspci_output@), pci_addr_finder()),
{
    let v = str_chars(lspci_output);
    let m = NvidiaMarkers::new();
    let colon = str_chars(":");
    let mut pos: usize = 0;
    assert(v@.skip(0) =~= v@);
    while pos < v.len()
        invariant
            pos <= v.len(),
            v@ == lspci_output@,
            m.nvidia@ == "NVIDIA"@,
            m.vga@ == "VGA compatible controller"@,
            m.three_d@ == "3D controller"@,
            colon@ == ":"@,
            first_hit(lines(lspci_output@), pci_addr_finder()) == first_hit(
                lines(v@.skip(pos as int)),
                pci_addr_finder(),
            ),
        decreases v.len() - pos,
    {
        let (e, next) = next_line(&v, pos);
        let ghost line = v@.subrange(pos as int, e as int);
        proof {
            lemma_first_hit_cons(line, lines(v@.skip(next as int)), pci_addr_finder());
        }
        if m.is_gpu_line(&v, pos, e) {
            if let Some((x, y)) = first_token_range(&v, pos, e) {
                if range_contains(&v, x, y, &colon) {
                    let mut r = String::new();
                    if range_count_char(&v, x, y, ':') == 1 {
                        r.append("0000:");
                    }
                    push_range(&mut r, &v, x, y);
                    return Some(r);
                }
            }
        }
        pos = next;
    }
    proof {
        lemma_lines_end(v@);
    }
    None
}

/// `from_str_radix(s, 16)` for `u32`, with 0 when it fails.
pub open spec fn hex_or_zero(s: Seq<char>) -> nat {
    match parse_unsigned(s, 16, 0xffff_ffff) {
        Some(v) => v,
        None => 0,
    }
}

/// The Xorg `BusID` (`PCI:bus:device:function`, in decimal) of an NVIDIA
/// line; `None` when its address is not of the form `bus:device.function`.
pub open spec fn pci_bus_of_line(l: Seq<char>) -> Option<Seq<char>> {
    match first_token(l) {
        None => None,
        Some(t) => pci_bus_of_token(t),
    }
}

/// The Xorg `BusID` for a PCI address such as `0000:01:00.0`.
pub open spec fn pci_bus_of_token(t: Seq<char>) -> Option<Seq<char>> {
    let id = replace(t, "0000:"@, Seq::<char>::empty());
    let parts = split(id, ":"@);
    if parts.len() < 2 {
        None
    } else {
        let df = split(parts[1], "."@);
        if df.len() < 2 {
            None
        } else {
            Some(
                "PCI:"@ + dec(hex_or_zero(parts[0])) + ":"@ + dec(hex_or_zero(df[0])) + ":"@ + dec(
                    hex_or_zero(df[1]),
                ),
            )
        }
    }
}

pub open spec fn pci_bus_finder() -> spec_fn(Seq<char>) -> Option<Option<Seq<char>>> {
    |l: Seq<char>|
        if is_nvidia_gpu_line(l) {
            Some(pci_bus_of_line(l))
        } else {
            None
        }
}

/// What the first NVIDIA line of `lspci` output gives as Xorg `BusID`.
#[derive(Debug)]
pub enum PciBusLookup {
    /// The bus id, e.g. `PCI:1:0:0`.
    Found(String),
    /// No NVIDIA display adapter is listed.
    NotFound,
    /// The first NVIDIA line's address is not `bus:device.function`.
    Malformed,
}

fn hex_or_zero_of(s: &String) -> (r: u64)
    ensures
        r == hex_or_zero(s@),
{
    let v = str_chars(s.as_str());
    assert(v@.subrange(0, v.len() as int) =~= s@);
    match parse_unsigned_range(&v, 0, v.len(), 16, 0xffff_ffff) {
        Some(x) => x,
        None => 0,
    }
}

fn bus_of_token(v: &Vec<char>, x: usize, y: usize) -> (r: Option<String>)
    requires
        x <= y <= v.len(),
    ensures
        r.deep_view() == pci_bus_of_token(v@.subrange(x as int, y as int)),
{
    let ghost t = v@.subrange(x as int, y as int);
    let tok = substring(v, x, y);
    proof {
        reveal_strlit("0000:");
        reveal_strlit("");
        reveal_strlit(":");
        reveal_strlit(".");
    }
    let id = replace_str(tok.as_str(), "0000:", "");
    let idc = str_chars(id.as_str());
    let colon = str_chars(":");
    let dot = str_chars(".");
    assert(idc@.subrange(0, idc.len() as int) =~= idc@);
    assert(""@ =~= Seq::<char>::empty());
    assert(tok@ == t);
    assert(id@ == replace(t, "0000:"@, Seq::<char>::empty()));
    let parts = split_range(&idc, 0, idc.len(), &colon);
    assert(parts.deep_view() == split(id@, ":"@));
    assert(parts.deep_view().len() == parts.len());
    if parts.len() < 2 {
        return None;
    }
    let p1 = str_chars(parts[1].as_str());
    assert(p1@.subrange(0, p1.len() as int) =~= p1@);
    let df = split_range(&p1, 0, p1.len(), &dot);
    assert(parts.deep_view()[1] == parts[1]@);
    assert(df.deep_view().len() == df.len());
    if df.len() < 2 {
        return None;
    }
    let mut r = String::from_str("PCI:");
    push_dec(&mut r, hex_or_zero_of(&parts[0]));
    r.append(":");
    push_dec(&mut r, hex_or_zero_of(&df[0]));
    r.append(":");
    push_dec(&mut r, hex_or_zero_of(&df[1]));
    assert(parts.deep_view()[0] == parts[0]@);
    assert(df.deep_view()[0] == df[0]@);
    assert(df.deep_view()[1] == df[1]@);
    Some(r)
}

/// The Xorg `BusID` of the NVIDIA GPU in `lspci` output.
pub fn parse_nvidia_gpu_pci_bus(lspci_output: &str) -> (r: PciBusLookup)
    ensures
        match r {
            PciBusLookup::Found(s) => first_hit(lines(lspci_output@), pci_bus_finder()) == Some(
                Some(s@),
            ),
            PciBusLookup::NotFound => first_hit(lines(lspci_output@), pci_bus_finder()) is None,
            PciBusLookup::Malformed => first_hit(lines(lspci_output@), pci_bus_finder()) == Some(
                None::<Seq<char>>,
            ),
        },
{
    let v = str_chars(lspci_output);
    let m = NvidiaMarkers::new();
    let mut pos: usize = 0;
    assert(v@.skip(0) =~= v@);
    while pos < v.len()
        invariant
            pos <= v.len(),
            v@ == lspci_output@,
            m.nvidia@ == "NVIDIA"@,
            m.vga@ == "VGA compatible controller"@,
            m.three_d@ == "3D controller"@,
            first_hit(lines(lspci_output@), pci_bus_finder()) == first_hit(
                lines(v@.skip(pos as int)),
                pci_bus_finder(),
            ),
        decreases v.len() - pos,
    {
        let (e, next) = next_line(&v, pos);
        let ghost line = v@.subrange(pos as int, e as int);
        proof {
            lemma_first_hit_cons(line, lines(v@.skip(next as int)), pci_bus_finder());
        }
        if m.is_gpu_line(&v, pos, e) {
            match first_token_range(&v, pos, e) {
                None => {
                    return PciBusLookup::Malformed;
                },
                Some((x, y)) => {
                    return match bus_of_token(&v, x, y) {
                        Some(s) => PciBusLookup::Found(s),
                        None => PciBusLookup::Malformed,
                    };
                },
            }
        }
        pos = next;
    }
    proof {
        lemma_lines_end(v@);
    }
    PciBusLookup::NotFound
}

/// The integrated GPU vendor an `lspci` display-controller line names.
pub open spec fn igpu_vendor_of_line(l: Seq<char>) -> Option<Seq<char>> {
    if contains(l, "VGA compatible controller"@) || contains(l, "Display controller"@) {
        if contains(l, "Intel"@) {
            Some("intel"@)
        } else if contains(l, "ATI"@) || contains(l, "AMD"@) {
            Some("amd"@)
        } else {
            None
        }
    } else {
        None
    }
}

pub open spec fn igpu_vendor_finder() -> spec_fn(Seq<char>) -> Option<Seq<char>> {
    |l: Seq<char>| igpu_vendor_of_line(l)
}

/// `intel` or `amd`, after the first display controller line of `lspci`
/// output that names one of them.
pub fn parse_igpu_vendor(lspci_output: &str) -> (r: Option<String>)
    ensures
        r.deep_view() == first_hit(lines(lspci_output@), igpu_vendor_finder()),
{
    let v = str_chars(lspci_output);
    let vga = str_chars("VGA compatible controller");
    let display = str_chars("Display controller");
    let intel = str_chars("Intel");
    let ati = str_chars("ATI");
    let amd = str_chars("AMD");
    let mut pos: usize = 0;
    assert(v@.skip(0) =~= v@);
    while pos < v.len()
        invariant
            pos <= v.len(),
            v@ == lspci_output@,
            vga@ == "VGA compatible controller"@,
            display@ == "Display controller"@,
            intel@ == "Intel"@,
            ati@ == "ATI"@,
            amd@ == "AMD"@,
            first_hit(lines(lspci_output@), igpu_vendor_finder()) == first_hit(
                lines(v@.skip(pos as int)),
                igpu_vendor_finder(),
            ),
        decreases v.len() - pos,
    {
        let (e, next) = next_line(&v, pos);
        let ghost line = v@.subrange(pos as int, e as int);
        proof {
            lemma_first_hit_cons(line, lines(v@.skip(next as int)), igpu_vendor_finder());
        }
        if range_contains(&v, pos, e, &vga) || range_contains(&v, pos, e, &display) {
            if range_contains(&v, pos, e, &intel) {
                return Some(String::from_str("intel"));
            } else if range_contains(&v, pos, e, &ati) || range_contains(&v, pos, e, &amd) {
                return Some(String::from_str("amd"));
            }
        }
        pos = next;
    }
    proof {
        lemma_lines_end(v@);
    }
    None
}

/// The pattern that finds the AMD provider in `xrandr --listproviders`.
pub open spec fn amd_provider_pattern() -> Seq<char> {
    "name:.*(ATI|AMD|AMD/ATI)"@
}

/// The AMD provider name: the first match of `amd_provider_pattern`, less
/// its leading `name:`, trimmed.
pub open spec fn spec_amd_igpu_name(xrandr_output: Seq<char>) -> Option<Seq<char>> {
    if !regex_compiles(amd_provider_pattern()) {
        None
    } else {
        match regex_first_match(amd_provider_pattern(), xrandr_output) {
            Some(m) => if m.len() >= 5 {
                Some(trim(m.skip(5)))
            } else {
                None
            },
            None => None,
        }
    }
}

/// The AMD integrated GPU's provider name in `xrandr --listproviders` output.
pub fn parse_amd_igpu_name(xrandr_output: &str) -> (r: Option<String>)
    ensures
        r.deep_view() == spec_amd_igpu_name(xrandr_output@),
{
    let re = match compile_pattern("name:.*(ATI|AMD|AMD/ATI)") {
        Ok(re) => re,
        Err(_) => {
            return None;
        },
    };
    match first_match(&re, xrandr_output) {
        Some(m) => {
            let v = str_chars(m.as_str());
            if v.len() < 5 {
                return None;
            }
            let (a, b) = trim_range(&v, 5, v.len());
            assert(v@.subrange(5, v.len() as int) =~= v@.skip(5));
            Some(substring(&v, a, b))
        },
        None => None,
    }
}

} // verus!
