//! Host-specific choices for a Linux host: KVM acceleration, the GTK display,
//! distribution-provided firmware, and the QEMU emulator for the native
//! architecture.

use vstd::prelude::*;
use std::path::PathBuf;

verus! {

/// Name of the QEMU hardware accelerator, used in `-machine ...,accel=<name>`.
pub fn acceleration_name() -> (res: &'static str)
    ensures
        res@ == "kvm"@,
{
    "kvm"
}

/// The standalone QEMU flag that enables acceleration.
pub fn acceleration_flag() -> (res: &'static str)
    ensures
        res@ == "-enable-kvm"@,
{
    "-enable-kvm"
}

/// Whether PCI / GPU passthrough is supportable: VFIO and IOMMU exist on Linux.
pub fn passthrough_supported() -> (res: bool)
    ensures
        res,
{
    true
}

/// Default display backend for newly created VMs.
pub fn default_display() -> (res: &'static str)
    ensures
        res@ == "gtk"@,
{
    "gtk"
}

/// Display backends in order of preference, the host-native one first.
pub open spec fn display_preference() -> Seq<Seq<char>> {
    seq!["gtk"@, "sdl"@, "spice-app"@, "vnc"@, "none"@]
}

/// Preferred ordering of display backends, most-preferred first.
pub fn preferred_display_order() -> (res: Vec<&'static str>)
    ensures
        res@.map_values(|s: &str| s@) == display_preference(),
{
    let res = vec!["gtk", "sdl", "spice-app", "vnc", "none"];
    proof {
        assert(res@.map_values(|s: &str| s@) =~= display_preference());
    }
    res
}

/// Firmware code images to probe beyond the distribution list: none on Linux.
pub fn ovmf_code_candidates() -> (res: Vec<String>)
    ensures
        res@.len() == 0,
{
    Vec::new()
}

/// Firmware variable templates to probe beyond the distribution list: none
/// on Linux.
pub fn ovmf_vars_candidates() -> (res: Vec<String>)
    ensures
        res@.len() == 0,
{
    Vec::new()
}

/// Directories where Homebrew and MacPorts install QEMU's data files.
pub open spec fn qemu_share_dirs() -> Seq<Seq<char>> {
    seq!["/opt/homebrew/share/qemu"@, "/usr/local/share/qemu"@, "/opt/local/share/qemu"@]
}

/// `dir/name` for each share directory (outer) and each name (inner).
pub open spec fn firmware_paths(names: Seq<Seq<char>>) -> Seq<Seq<char>> {
    Seq::new(
        (qemu_share_dirs().len() * names.len()) as nat,
        |k: int| qemu_share_dirs()[k / names.len() as int] + "/"@ + names[k % names.len() as int],
    )
}

/// Candidate firmware paths: each file name joined onto each QEMU data
/// directory used by Homebrew and MacPorts.
pub fn firmware_files(names: &[&str]) -> (res: Vec<String>)
    requires
        names@.len() * 3 <= usize::MAX,
    ensures
        res@.map_values(|s: String| s@) == firmware_paths(names@.map_values(|n: &str| n@)),
{
    let dirs = ["/opt/homebrew/share/qemu", "/usr/local/share/qemu", "/opt/local/share/qemu"];
    let ghost ns = names@.map_values(|n: &str| n@);
    let ghost target = firmware_paths(ns);
    let mut out: Vec<String> = Vec::new();
    let mut d: usize = 0;
    while d < 3
        invariant
            d <= 3,
            dirs@.map_values(|s: &str| s@) == qemu_share_dirs(),
            ns == names@.map_values(|n: &str| n@),
            target == firmware_paths(ns),
            names@.len() * 3 <= usize::MAX,
            out@.map_values(|s: String| s@) == target.take(d * names@.len()),
        decreases 3 - d,
    {
        let mut j: usize = 0;
        while j < names.len()
            invariant
                d < 3,
                j <= names@.len(),
                dirs@.map_values(|s: &str| s@) == qemu_share_dirs(),
                ns == names@.map_values(|n: &str| n@),
                target == firmware_paths(ns),
                names@.len() * 3 <= usize::MAX,
                out@.map_values(|s: String| s@) == target.take(d * names@.len() + j),
            decreases names@.len() - j,
        {
            let mut p = String::from_str(dirs[d]);
            p.append("/");
            p.append(names[j]);
            let ghost before = out@;
            out.push(p);
            proof {
                let k = d * names@.len() + j;
                assert(k / names@.len() as int == d) by (nonlinear_arith)
                    requires
                        k == d * names@.len() + j,
                        0 <= j < names@.len(),
                ;
                assert(k % names@.len() as int == j) by (nonlinear_arith)
                    requires
                        k == d * names@.len() + j,
                        0 <= j < names@.len(),
                ;
                assert(k < target.len()) by (nonlinear_arith)
                    requires
                        k == d * names@.len() + j,
                        0 <= j < names@.len(),
                        d < 3,
                        target.len() == 3 * names@.len(),
                ;
                assert(dirs@.map_values(|s: &str| s@)[d as int] == dirs@[d as int]@);
                assert(ns[j as int] == names@[j as int]@);
                assert(target[k] == qemu_share_dirs()[d as int] + "/"@ + ns[j as int]);
                assert(target.len() == 3 * names@.len());
                assert(target.take(k).len() == k);
                assert(before.map_values(|s: String| s@).len() == before.len());
                assert(before.len() == k);
                assert(out@ == before.push(p));
                assert(out@.len() == k + 1);
                assert(out@[k] == p);
                assert(p@ == qemu_share_dirs()[d as int] + "/"@ + ns[j as int]);
                assert(out@[k]@ == target[k]);
                assert forall|i: int| 0 <= i < k implies out@[i]@ == target[i] by {
                    assert(out@[i] == before[i]);
                    assert(before.map_values(|s: String| s@)[i] == target.take(k)[i]);
                }
                assert(out@.map_values(|s: String| s@) =~= target.take(k + 1));
            }
            j += 1;
        }
        proof {
            assert((d + 1) * names@.len() == d * names@.len() + names@.len()) by (nonlinear_arith);
        }
        d += 1;
    }
    proof {
        assert(target.len() == 3 * names@.len());
        assert(target.take(3 * names@.len() as int) =~= target);
    }
    out
}

/// Default QEMU emulator for the host's native architecture.
pub fn native_emulator() -> (res: &'static str)
    ensures
        res@ == "qemu-system-x86_64"@,
{
    "qemu-system-x86_64"
}

/// Extra QEMU data directories to probe for firmware: none on Linux.
pub fn qemu_data_dirs() -> (res: Vec<PathBuf>)
    ensures
        res@.len() == 0,
{
    Vec::new()
}

} // verus!
