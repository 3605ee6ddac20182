use vm_curator::config::Config;
use vm_curator::fs::{btrfs_from_mounts, chattr_failure_is_error, chattr_outcome, stat_reports_btrfs, ChattrOutcome};
use vm_curator::platform::{
    acceleration_flag, acceleration_name, default_display, firmware_files, native_emulator,
    ovmf_code_candidates, ovmf_vars_candidates, passthrough_supported, preferred_display_order,
    qemu_data_dirs,
};
use vm_curator::shared_folders::{
    add_shared_folder, folder_list_height, generate_mount_tag, mount_tier, remove_shared_folder,
    SharedFolder,
};

#[test]
fn stat_output_for_btrfs() {
    assert!(stat_reports_btrfs("9123683e\n"));
    assert!(stat_reports_btrfs("  9123683E "));
    assert!(!stat_reports_btrfs("ef53\n"));
}

#[test]
fn mounts_choose_the_most_specific_mount_point() {
    let mounts = "/dev/sda2 / ext4 rw,relatime 0 0\n/dev/sdb1 /home btrfs rw 0 0\n/dev/sdb2 /home/user/vms xfs rw 0 0\nbroken line\n";
    assert!(btrfs_from_mounts(mounts, "/home/user/docs"));
    assert!(!btrfs_from_mounts(mounts, "/home/user/vms/win10"));
    assert!(!btrfs_from_mounts(mounts, "/var/lib"));
    assert!(!btrfs_from_mounts("", "/home"));
    assert!(btrfs_from_mounts("/dev/sdb1 / btrfs rw 0 0\n", "/anything"));
}

#[test]
fn chattr_errors_that_matter() {
    assert!(!chattr_failure_is_error("chattr: Operation not supported while setting flags"));
    assert!(!chattr_failure_is_error("chattr: Inappropriate ioctl for device"));
    assert!(chattr_failure_is_error("chattr: Permission denied"));
}

#[test]
fn linux_platform_choices() {
    assert_eq!(acceleration_name(), "kvm");
    assert_eq!(acceleration_flag(), "-enable-kvm");
    assert!(passthrough_supported());
    assert_eq!(default_display(), "gtk");
    assert_eq!(preferred_display_order(), vec!["gtk", "sdl", "spice-app", "vnc", "none"]);
    assert!(ovmf_code_candidates().is_empty());
    assert!(ovmf_vars_candidates().is_empty());
    assert_eq!(native_emulator(), "qemu-system-x86_64");
    assert!(qemu_data_dirs().is_empty());
}

#[test]
fn firmware_paths_cover_every_directory() {
    let files = firmware_files(&["a.fd", "b.fd"]);
    assert_eq!(
        files,
        vec![
            "/opt/homebrew/share/qemu/a.fd",
            "/opt/homebrew/share/qemu/b.fd",
            "/usr/local/share/qemu/a.fd",
            "/usr/local/share/qemu/b.fd",
            "/opt/local/share/qemu/a.fd",
            "/opt/local/share/qemu/b.fd",
        ]
    );
    assert!(firmware_files(&[]).is_empty());
}

#[test]
fn mount_tags() {
    assert_eq!(generate_mount_tag("/home/user/My Documents"), "host_my_documents");
    assert_eq!(generate_mount_tag("/data/__Shared--Files__/"), "host_shared_files");
    assert_eq!(generate_mount_tag("/"), "host_shared");
    assert_eq!(generate_mount_tag("/tmp/!!!"), "host_shared");
}

#[test]
fn mount_tiers() {
    assert_eq!(mount_tier("windows-xp", "qemu-system-i386", Some("windows")), "not_supported");
    assert_eq!(mount_tier("mac-os9", "qemu-system-ppc", Some("classic-mac")), "not_supported");
    assert_eq!(mount_tier("windows-server-2022", "qemu-system-x86_64", None), "windows");
    assert_eq!(mount_tier("linux-debian", "qemu-system-x86_64", Some("linux")), "linux");
    assert_eq!(mount_tier("gparted", "qemu-system-x86_64", Some("utilities")), "linux");
    assert_eq!(mount_tier("freebsd", "qemu-system-x86_64", Some("bsd")), "bsd");
    assert_eq!(mount_tier("custom", "qemu-system-x86_64", None), "unknown");
}

#[test]
fn config_defaults() {
    let c = Config::default();
    assert_eq!(c.snapshot_prefix, "snapshot");
    assert_eq!(c.default_memory_mb, 4096);
    assert_eq!(c.default_disk_size_gb, 64);
    assert_eq!(c.default_display, "gtk");
    assert!(c.vm_library_path.ends_with("vm-space"));
    assert!(c.metadata_path.ends_with("vm-curator/metadata"));
    assert!(Config::config_file_path().ends_with("vm-curator/config.toml"));
}

#[test]
fn folder_list_height_is_bounded() {
    assert_eq!(folder_list_height(0), 2);
    assert_eq!(folder_list_height(3), 3);
    assert_eq!(folder_list_height(10), 6);
    assert_eq!(folder_list_height(65536), 0);
}

#[test]
fn shared_folders_get_unique_tags() {
    let mut folders: Vec<SharedFolder> = Vec::new();
    add_shared_folder(&mut folders, "/home/u/ISOs".to_string());
    add_shared_folder(&mut folders, "/mnt/isos".to_string());
    add_shared_folder(&mut folders, "/home/u/ISOs".to_string());
    add_shared_folder(&mut folders, "/srv/isos".to_string());
    let tags: Vec<&str> = folders.iter().map(|f| f.mount_tag.as_str()).collect();
    assert_eq!(tags, vec!["host_isos", "host_isos_2", "host_isos_3"]);
    let mut selected = 2;
    remove_shared_folder(&mut folders, &mut selected);
    assert_eq!(folders.len(), 2);
    assert_eq!(selected, 1);
    let mut selected = 0;
    remove_shared_folder(&mut folders, &mut selected);
    assert_eq!(folders[0].host_path, "/mnt/isos");
    assert_eq!(selected, 0);
    let mut selected = 5;
    remove_shared_folder(&mut folders, &mut selected);
    assert_eq!(folders.len(), 1);
    assert_eq!(selected, 5);
}

#[test]
fn chattr_outcomes() {
    assert_eq!(chattr_outcome(true, ""), ChattrOutcome::Disabled);
    assert_eq!(
        chattr_outcome(false, "chattr: Inappropriate ioctl for device while reading flags"),
        ChattrOutcome::NotSupported
    );
    assert_eq!(chattr_outcome(false, "chattr: Permission denied"), ChattrOutcome::Failed);
}
