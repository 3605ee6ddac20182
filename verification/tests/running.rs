use vm_curator::running::{belongs_to, match_running_vms, QemuProcess, VmLocation};

fn vm(id: &str, path: &str, disk: Option<&str>) -> VmLocation {
    VmLocation { id: id.to_string(), path: path.to_string(), disk: disk.map(|d| d.to_string()) }
}

fn process(pid: u32, cwd: Option<&str>, cmdline: &str) -> QemuProcess {
    QemuProcess { pid, cwd: cwd.map(|c| c.to_string()), cmdline: cmdline.to_string() }
}

#[test]
fn process_matched_by_working_directory() {
    let vms = vec![
        vm("debian", "/vms/debian", Some("/vms/debian/disk.qcow2")),
        vm("arch", "/vms/arch", Some("/vms/arch/disk.qcow2")),
    ];
    let processes = vec![
        process(100, Some("/vms/arch/"), "qemu-system-x86_64 -drive file=disk.qcow2"),
        process(200, Some("/home/user"), "qemu-system-x86_64 -drive file=/vms/debian/disk.qcow2"),
    ];
    let running = match_running_vms(&vms, &processes);
    assert_eq!(running, vec![("arch".to_string(), 100)]);
}

#[test]
fn disk_path_used_only_without_working_directory() {
    let vms = vec![vm("debian", "/vms/debian", Some("/vms/debian/disk.qcow2"))];
    let processes = vec![
        process(300, None, "qemu-system-x86_64 -drive file=/vms/debian/disk.qcow2,if=virtio"),
        process(301, None, "qemu-system-x86_64 -drive file=/vms/debian/disk.qcow2"),
    ];
    assert_eq!(match_running_vms(&vms, &processes), vec![("debian".to_string(), 300)]);
}

#[test]
fn empty_disk_path_never_matches() {
    let with_empty_disk = vm("empty", "/vms/empty", Some(""));
    let without_disk = vm("none", "/vms/none", None);
    let p = process(400, None, "qemu-system-x86_64");
    assert!(!belongs_to(&with_empty_disk, &p));
    assert!(!belongs_to(&without_disk, &p));
    assert!(match_running_vms(&[with_empty_disk, without_disk], &[p]).is_empty());
}
