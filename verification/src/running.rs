//! Which VMs are running: QEMU processes matched to VMs by their working
//! directory (launch scripts start QEMU in the VM's directory) or, where that
//! cannot be read, by the VM's disk path on the command line.

use vstd::prelude::*;
use std::path::Path;
use crate::text::{contains, has_infix};

verus! {

/// Whether two paths given as text are equal as `Path`s (compared component
/// by component, so `"a/b/"` equals `"a/b"`).
pub uninterp spec fn same_path(a: Seq<char>, b: Seq<char>) -> bool;

/// `Path == Path` on two paths given as text: the result is named
/// `same_path`, a function of the two texts alone.
#[verifier::external_body]
fn paths_equal(a: &str, b: &str) -> (res: bool)
    ensures
        res == same_path(a@, b@),
{
    Path::new(a) == Path::new(b)
}

/// Where a VM lives, as the process matching reads it.
#[derive(Debug, Clone)]
pub struct VmLocation {
    /// The VM's id (its directory name).
    pub id: String,
    /// The VM's directory, as text.
    pub path: String,
    /// The full path of its primary disk, where it has one that is valid text.
    pub disk: Option<String>,
}

/// A running QEMU process.
#[derive(Debug, Clone)]
pub struct QemuProcess {
    pub pid: u32,
    /// Its working directory, where it could be read.
    pub cwd: Option<String>,
    /// Its command line.
    pub cmdline: String,
}

/// Whether a process belongs to a VM: its working directory is the VM's
/// directory; where the working directory is unknown, its command line holds
/// the VM's (non-empty) disk path.
pub open spec fn process_matches(vm: VmLocation, p: QemuProcess) -> bool {
    match p.cwd {
        Some(cwd) => same_path(cwd@, vm.path@),
        None => match vm.disk {
            Some(d) => d@.len() > 0 && has_infix(p.cmdline@, d@),
            None => false,
        },
    }
}

/// The pid of the first process that belongs to the VM, if any.
pub open spec fn first_matching_pid(vm: VmLocation, ps: Seq<QemuProcess>) -> Option<u32>
    decreases ps.len(),
{
    if ps.len() == 0 {
        None
    } else if process_matches(vm, ps[0]) {
        Some(ps[0].pid)
    } else {
        first_matching_pid(vm, ps.drop_first())
    }
}

/// The running VMs, in the VMs' order: each VM's id with the pid of the first
/// process that belongs to it.
pub open spec fn running_pairs(vms: Seq<VmLocation>, ps: Seq<QemuProcess>) -> Seq<(Seq<char>, u32)>
    decreases vms.len(),
{
    if vms.len() == 0 {
        Seq::empty()
    } else {
        let rest = running_pairs(vms.drop_last(), ps);
        match first_matching_pid(vms.last(), ps) {
            Some(pid) => rest.push((vms.last().id@, pid)),
            None => rest,
        }
    }
}

/// Whether a process belongs to a VM.
pub fn belongs_to(vm: &VmLocation, p: &QemuProcess) -> (res: bool)
    ensures
        res == process_matches(*vm, *p),
{
    match &p.cwd {
        Some(cwd) => paths_equal(cwd.as_str(), vm.path.as_str()),
        None => match &vm.disk {
            Some(d) => !d.as_str().is_empty() && contains(p.cmdline.as_str(), d.as_str()),
            None => false,
        },
    }
}

fn matching_pid(vm: &VmLocation, processes: &[QemuProcess]) -> (res: Option<u32>)
    ensures
        res == first_matching_pid(*vm, processes@),
{
    let mut j: usize = 0;
    proof {
        assert(processes@.skip(0) =~= processes@);
    }
    while j < processes.len()
        invariant
            j <= processes@.len(),
            first_matching_pid(*vm, processes@) == first_matching_pid(*vm, processes@.skip(j as int)),
        decreases processes@.len() - j,
    {
        proof {
            assert(processes@.skip(j as int)[0] == processes@[j as int]);
            assert(processes@.skip(j as int).drop_first() =~= processes@.skip(j + 1));
        }
        if belongs_to(vm, &processes[j]) {
            return Some(processes[j].pid);
        }
        j += 1;
    }
    None
}

/// Matches QEMU processes to VMs: for each VM, in order, its id and the pid
/// of the first process that belongs to it.
pub fn match_running_vms(vms: &[VmLocation], processes: &[QemuProcess]) -> (res: Vec<(String, u32)>)
    ensures
        res@.map_values(|e: (String, u32)| (e.0@, e.1)) == running_pairs(vms@, processes@),
{
    let mut res: Vec<(String, u32)> = Vec::new();
    let mut i: usize = 0;
    while i < vms.len()
        invariant
            i <= vms@.len(),
            res@.map_values(|e: (String, u32)| (e.0@, e.1)) == running_pairs(vms@.take(i as int), processes@),
        decreases vms@.len() - i,
    {
        proof {
            assert(vms@.take(i + 1).drop_last() == vms@.take(i as int));
            assert(vms@.take(i + 1).last() == vms@[i as int]);
        }
        match matching_pid(&vms[i], processes) {
            Some(pid) => {
                let ghost before = res@;
                res.push((vms[i].id.clone(), pid));
                proof {
                    assert(res@.map_values(|e: (String, u32)| (e.0@, e.1)) =~= before.map_values(
                        |e: (String, u32)| (e.0@, e.1),
                    ).push((vms@[i as int].id@, pid)));
                }
            },
            None => {},
        }
        i += 1;
    }
    proof {
        assert(vms@.take(vms@.len() as int) == vms@);
    }
    res
}

} // verus!
