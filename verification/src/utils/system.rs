//! Reading the answers of system tools (`id`, `systemctl`, `loginctl`) and
//! choosing the initramfs rebuild command for the distribution.
use crate::utils::text::{
    first_token, first_token_range, lines, next_line, push_range, range_eq, range_starts_with,
    split, split_range, starts_with, str_chars, str_eq, substring, trim, trim_str,
};
use vstd::prelude::*;

verus! {

/// `id -u` printed 0: the process runs as root.
pub fn is_root_output(id_output: &str) -> (r: bool)
    ensures
        r == (trim(id_output@) == "0"@),
{
    let t = trim_str(id_output);
    str_eq(t.as_str(), "0")
}

/// `systemctl is-active` printed `active`.
pub fn is_active_output(systemctl_output: &str) -> (r: bool)
    ensures
        r == (trim(systemctl_output@) == "active"@),
{
    let t = trim_str(systemctl_output);
    str_eq(t.as_str(), "active")
}

/// Components that do not name a file: empty ones and `.`.
pub open spec fn is_skipped_component(c: Seq<char>) -> bool {
    c.len() == 0 || c == "."@
}

/// The last component that names something.
pub open spec fn last_component(cs: Seq<Seq<char>>) -> Option<Seq<char>>
    decreases cs.len(),
{
    if cs.len() == 0 {
        None
    } else if is_skipped_component(cs.last()) {
        last_component(cs.drop_last())
    } else {
        Some(cs.last())
    }
}

/// `Path::file_name` for a Unix path: its last normal component; none when
/// the path ends in `..` or has no component.
pub open spec fn file_name(path: Seq<char>) -> Option<Seq<char>> {
    match last_component(split(path, "/"@)) {
        Some(c) => if c == ".."@ {
            None
        } else {
            Some(c)
        },
        None => None,
    }
}

/// A unit file name without its `.service` suffix: the name that `--dm`
/// takes and that the NVIDIA switch compares (`gdm`, `sddm`, `lightdm`).
pub open spec fn unit_name(f: Seq<char>) -> Seq<char> {
    if f.len() >= 8 && f.skip(f.len() - 8) == ".service"@ {
        f.take(f.len() - 8)
    } else {
        f
    }
}

/// The name of a unit file name, without a `.service` suffix.
fn strip_service_suffix(f: &String) -> (r: String)
    ensures
        r@ == unit_name(f@),
{
    let v = str_chars(f.as_str());
    let suffix = str_chars(".service");
    proof {
        reveal_strlit(".service");
    }
    if v.len() >= 8 && range_eq(&v, v.len() - 8, v.len(), &suffix) {
        assert(v@.subrange(v.len() - 8, v.len() as int) =~= v@.skip(v.len() - 8));
        let r = substring(&v, 0, v.len() - 8);
        assert(r@ =~= f@.take(f@.len() - 8));
        r
    } else {
        proof {
            if f@.len() >= 8 {
                assert(v@.subrange(v.len() - 8, v.len() as int) =~= v@.skip(v.len() - 8));
            }
        }
        f.clone()
    }
}

/// The display manager, from the first line of `systemctl show -p
/// FragmentPath display-manager.service`: the unit file's name without its
/// `.service` suffix.
pub open spec fn spec_display_manager(output: Seq<char>) -> Option<Seq<char>> {
    let ls = lines(output);
    if ls.len() == 0 {
        None
    } else {
        let l = ls[0];
        if starts_with(l, "FragmentPath="@) {
            let path = l.skip("FragmentPath="@.len() as int);
            if path.len() == 0 || path == "/dev/null"@ {
                None
            } else {
                match file_name(path) {
                    Some(f) => Some(unit_name(f)),
                    None => None,
                }
            }
        } else {
            None
        }
    }
}

/// The display manager named by `systemctl show -p FragmentPath
/// display-manager.service` output.
pub fn parse_display_manager(systemctl_output: &str) -> (r: Option<String>)
    ensures
        r.deep_view() == spec_display_manager(systemctl_output@),
{
    let v = str_chars(systemctl_output);
    if v.len() == 0 {
        assert(lines(systemctl_output@) =~= Seq::<Seq<char>>::empty());
        return None;
    }
    let (e, _next) = next_line(&v, 0);
    assert(v@.skip(0) =~= v@);
    let ghost l = v@.subrange(0, e as int);
    let prefix = str_chars("FragmentPath=");
    if !range_starts_with(&v, 0, e, &prefix) {
        return None;
    }
    let start = prefix.len();
    let ghost path = l.skip(prefix@.len() as int);
    assert(path =~= v@.subrange(start as int, e as int));
    let devnull = str_chars("/dev/null");
    if start == e || range_eq(&v, start, e, &devnull) {
        return None;
    }
    let slash = str_chars("/");
    proof {
        reveal_strlit("/");
    }
    let parts = split_range(&v, start, e, &slash);
    assert(parts.deep_view().len() == parts.len());
    let mut j: usize = parts.len();
    assert(parts.deep_view().take(j as int) =~= parts.deep_view());
    assert(spec_display_manager(systemctl_output@) == (match file_name(path) {
        Some(f) => Some(unit_name(f)),
        None => None,
    }));
    assert(parts.deep_view() == split(path, "/"@));
    while j > 0
        invariant
            j <= parts.len(),
            parts.deep_view().len() == parts.len(),
            spec_display_manager(systemctl_output@) == (match file_name(path) {
                Some(f) => Some(unit_name(f)),
                None => None,
            }),
            parts.deep_view() == split(path, "/"@),
            last_component(parts.deep_view()) == last_component(parts.deep_view().take(j as int)),
        decreases j,
    {
        let ghost pre = parts.deep_view().take(j as int);
        assert(pre.last() == parts[j - 1]@);
        assert(pre.drop_last() =~= parts.deep_view().take(j - 1));
        let c = &parts[j - 1];
        if !(c.as_str().is_empty() || str_eq(c.as_str(), ".")) {
            if str_eq(c.as_str(), "..") {
                return None;
            }
            return Some(strip_service_suffix(c));
        }
        j = j - 1;
    }
    assert(parts.deep_view().take(0) =~= Seq::<Seq<char>>::empty());
    None
}

/// The first word of each line that has one.
pub open spec fn session_ids(ls: Seq<Seq<char>>) -> Seq<Seq<char>>
    decreases ls.len(),
{
    if ls.len() == 0 {
        Seq::<Seq<char>>::empty()
    } else {
        (match first_token(ls[0]) {
            Some(t) => seq![t],
            None => Seq::<Seq<char>>::empty(),
        }) + session_ids(ls.drop_first())
    }
}

/// The session ids in `loginctl list-sessions --no-legend` output.
pub fn parse_session_ids(list_output: &str) -> (r: Vec<String>)
    ensures
        r.deep_view() == session_ids(lines(list_output@)),
{
    let v = str_chars(list_output);
    let mut r: Vec<String> = Vec::new();
    let mut pos: usize = 0;
    assert(v@.skip(0) =~= v@);
    while pos < v.len()
        invariant
            pos <= v.len(),
            v@ == list_output@,
            session_ids(lines(list_output@)) == r.deep_view() + session_ids(lines(v@.skip(pos as int))),
        decreases v.len() - pos,
    {
        let (e, next) = next_line(&v, pos);
        let ghost line = v@.subrange(pos as int, e as int);
        let ghost rest = lines(v@.skip(next as int));
        assert((seq![line] + rest).drop_first() =~= rest);
        assert((seq![line] + rest)[0] == line);
        let ghost before = r.deep_view();
        match first_token_range(&v, pos, e) {
            Some((x, y)) => {
                r.push(substring(&v, x, y));
                assert(r.deep_view() =~= before + seq![v@.subrange(x as int, y as int)]);
            },
            None => {},
        }
        pos = next;
    }
    assert(v@.skip(pos as int) =~= Seq::<char>::empty());
    assert(r.deep_view() =~= r.deep_view() + session_ids(lines(v@.skip(pos as int))));
    r
}

/// Whether some line satisfies `f`.
pub open spec fn any_line(ls: Seq<Seq<char>>, f: spec_fn(Seq<char>) -> bool) -> bool
    decreases ls.len(),
{
    ls.len() > 0 && (f(ls[0]) || any_line(ls.drop_first(), f))
}

/// A `Type=` line naming an X11 or Wayland session.
pub open spec fn is_graphical_line(l: Seq<char>) -> bool {
    starts_with(l, "Type="@) && (l.skip(5) == "x11"@ || l.skip(5) == "wayland"@)
}

/// A `State=` line (that is not a `Type=` line) naming an active or online
/// session.
pub open spec fn is_active_line(l: Seq<char>) -> bool {
    !starts_with(l, "Type="@) && starts_with(l, "State="@) && (l.skip(6) == "active"@ || l.skip(6)
        == "online"@)
}

pub open spec fn graphical_line() -> spec_fn(Seq<char>) -> bool {
    |l: Seq<char>| is_graphical_line(l)
}

pub open spec fn active_line() -> spec_fn(Seq<char>) -> bool {
    |l: Seq<char>| is_active_line(l)
}

/// `loginctl show-session ID -p Type -p State` output describes an active
/// graphical session.
pub fn is_graphical_active_session(show_output: &str) -> (r: bool)
    ensures
        r == (any_line(lines(show_output@), graphical_line()) && any_line(
            lines(show_output@),
            active_line(),
        )),
{
    proof {
        reveal_strlit("Type=");
        reveal_strlit("State=");
    }
    let v = str_chars(show_output);
    let type_p = str_chars("Type=");
    let state_p = str_chars("State=");
    let x11 = str_chars("x11");
    let wayland = str_chars("wayland");
    let active = str_chars("active");
    let online = str_chars("online");
    let mut graphical = false;
    let mut is_active = false;
    let mut pos: usize = 0;
    assert(v@.skip(0) =~= v@);
    while pos < v.len()
        invariant
            pos <= v.len(),
            v@ == show_output@,
            type_p@ == "Type="@,
            state_p@ == "State="@,
            type_p@.len() == 5,
            state_p@.len() == 6,
            x11@ == "x11"@,
            wayland@ == "wayland"@,
            active@ == "active"@,
            online@ == "online"@,
            any_line(lines(show_output@), graphical_line()) == (graphical || any_line(
                lines(v@.skip(pos as int)),
                graphical_line(),
            )),
            any_line(lines(show_output@), active_line()) == (is_active || any_line(
                lines(v@.skip(pos as int)),
                active_line(),
            )),
        decreases v.len() - pos,
    {
        let (e, next) = next_line(&v, pos);
        let ghost line = v@.subrange(pos as int, e as int);
        let ghost rest = lines(v@.skip(next as int));
        assert((seq![line] + rest).drop_first() =~= rest);
        assert((seq![line] + rest)[0] == line);
        if range_starts_with(&v, pos, e, &type_p) {
            assert(line.skip(5) =~= v@.subrange(pos + 5, e as int));
            if range_eq(&v, pos + 5, e, &x11) || range_eq(&v, pos + 5, e, &wayland) {
                graphical = true;
            }
        } else if range_starts_with(&v, pos, e, &state_p) {
            assert(line.skip(6) =~= v@.subrange(pos + 6, e as int));
            if range_eq(&v, pos + 6, e, &active) || range_eq(&v, pos + 6, e, &online) {
                is_active = true;
            }
        }
        pos = next;
    }
    assert(v@.skip(pos as int) =~= Seq::<char>::empty());
    graphical && is_active
}

/// Which distribution markers are present.
pub struct DistroFiles {
    /// `/ostree`
    pub ostree: bool,
    /// `/sysroot/ostree`
    pub sysroot_ostree: bool,
    /// `/etc/debian_version`
    pub debian_version: bool,
    /// `/etc/redhat-release`
    pub redhat_release: bool,
    /// `/usr/bin/zypper`
    pub zypper: bool,
    /// `/usr/lib/endeavouros-release`
    pub endeavouros_release: bool,
    /// `/usr/bin/dracut`
    pub dracut: bool,
    /// `/etc/altlinux-release`
    pub altlinux_release: bool,
    /// `/etc/arch-release`
    pub arch_release: bool,
}

pub open spec fn str_views(v: Seq<&'static str>) -> Seq<Seq<char>> {
    Seq::new(v.len(), |i: int| v[i]@)
}

/// The distribution's initramfs rebuild command.
pub open spec fn base_initramfs_command(f: DistroFiles) -> Seq<Seq<char>> {
    if f.ostree || f.sysroot_ostree {
        seq!["rpm-ostree"@, "initramfs"@, "--enable"@, "--arg=--force"@]
    } else if f.debian_version {
        seq!["update-initramfs"@, "-u"@, "-k"@, "all"@]
    } else if f.redhat_release || f.zypper {
        seq!["dracut"@, "--force"@, "--regenerate-all"@]
    } else if f.endeavouros_release && f.dracut {
        seq!["dracut-rebuild"@]
    } else if f.altlinux_release {
        seq!["make-initrd"@]
    } else if f.arch_release {
        seq!["mkinitcpio"@, "-P"@]
    } else {
        Seq::<Seq<char>>::empty()
    }
}

/// The rebuild command, run under `systemd-inhibit` when that is available
/// (then never empty).
pub open spec fn initramfs_command_spec(f: DistroFiles, has_systemd_inhibit: bool) -> Seq<Seq<char>> {
    if has_systemd_inhibit {
        seq!["systemd-inhibit"@, "--who=lapctl"@, "--why"@, "Rebuilding initramfs"@, "--"@]
            + base_initramfs_command(f)
    } else {
        base_initramfs_command(f)
    }
}

fn push_strs(v: &mut Vec<&'static str>, items: &[&'static str])
    ensures
        str_views(final(v)@) == str_views(old(v)@) + str_views(items@),
{
    let mut i: usize = 0;
    while i < items.len()
        invariant
            i <= items.len(),
            str_views(v@) == str_views(old(v)@) + str_views(items@.subrange(0, i as int)),
        decreases items.len() - i,
    {
        let ghost before = v@;
        v.push(items[i]);
        assert(str_views(v@) =~= str_views(before).push(items@[i as int]@));
        assert(str_views(items@.subrange(0, i + 1)) =~= str_views(items@.subrange(0, i as int)).push(
            items@[i as int]@,
        ));
        i = i + 1;
    }
    assert(items@.subrange(0, items.len() as int) =~= items@);
}

/// The command that rebuilds the initramfs; empty when the distribution is
/// not recognised and `systemd-inhibit` is missing.
pub fn initramfs_command(files: &DistroFiles, has_systemd_inhibit: bool) -> (r: Vec<&'static str>)
    ensures
        str_views(r@) == initramfs_command_spec(*files, has_systemd_inhibit),
{
    let mut r: Vec<&'static str> = Vec::new();
    if has_systemd_inhibit {
        push_strs(&mut r, &["systemd-inhibit", "--who=lapctl", "--why", "Rebuilding initramfs", "--"]);
    }
    if files.ostree || files.sysroot_ostree {
        push_strs(&mut r, &["rpm-ostree", "initramfs", "--enable", "--arg=--force"]);
    } else if files.debian_version {
        push_strs(&mut r, &["update-initramfs", "-u", "-k", "all"]);
    } else if files.redhat_release || files.zypper {
        push_strs(&mut r, &["dracut", "--force", "--regenerate-all"]);
    } else if files.endeavouros_release && files.dracut {
        push_strs(&mut r, &["dracut-rebuild"]);
    } else if files.altlinux_release {
        push_strs(&mut r, &["make-initrd"]);
    } else if files.arch_release {
        push_strs(&mut r, &["mkinitcpio", "-P"]);
    }
    assert(str_views(r@) =~= initramfs_command_spec(*files, has_systemd_inhibit));
    r
}

} // verus!
