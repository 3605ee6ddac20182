use vm_curator::hardware::pci::{parse_iommu_group, sort_by_address, vfio_modules_listed};
use vm_curator::hardware::PciDevice;
use vm_curator::selection::{
    auto_select_gpu, display_options, move_pci_highlight, network_backend_options,
    relevant_pci_indices, restore_pci_selections, toggle_pci_device, toggle_selection,
};
use vm_curator::shared_folders::unique_mount_tag;

fn device(address: &str, class_code: u32, boot: bool) -> PciDevice {
    PciDevice {
        address: address.to_string(),
        vendor_id: 0x10de,
        device_id: 0x2684,
        class_code,
        vendor_name: String::new(),
        device_name: String::new(),
        driver: None,
        iommu_group: Some(1),
        is_boot_vga: boot,
        subsystem_vendor_id: 0,
        subsystem_device_id: 0,
    }
}

#[test]
fn toggling_twice_restores_the_selection() {
    let mut sel = vec![3, 1];
    toggle_selection(&mut sel, 2);
    assert_eq!(sel, vec![3, 1, 2]);
    toggle_selection(&mut sel, 2);
    assert_eq!(sel, vec![3, 1]);
    toggle_selection(&mut sel, 3);
    assert_eq!(sel, vec![1]);
}

#[test]
fn boot_vga_cannot_be_selected() {
    let devices = vec![device("0000:00:02.0", 0x030000, true), device("0000:01:00.0", 0x030000, false)];
    let mut sel = Vec::new();
    toggle_pci_device(&devices, &mut sel, 0);
    assert!(sel.is_empty());
    toggle_pci_device(&devices, &mut sel, 1);
    assert_eq!(sel, vec![1]);
}

#[test]
fn gpu_is_selected_with_its_audio_function() {
    let devices = vec![
        device("0000:00:02.0", 0x030000, true),
        device("0000:01:00.0", 0x030000, false),
        device("0000:01:00.1", 0x040300, false),
    ];
    assert_eq!(auto_select_gpu(&devices, 1, &[]), vec![1, 2]);
    assert!(auto_select_gpu(&devices, 0, &[]).is_empty());
    assert!(auto_select_gpu(&devices, 7, &[]).is_empty());
}

#[test]
fn saved_arguments_restore_the_selection() {
    let devices = vec![device("0000:01:00.0", 0x030000, false), device("0000:01:00.1", 0x040300, false)];
    let args = vec![
        "-device".to_string(),
        "vfio-pci,host=0000:01:00.1".to_string(),
        "-device".to_string(),
        "vfio-pci,host=0000:01:00.0,multifunction=on".to_string(),
        "vfio-pci,host=0000:09:00.0".to_string(),
    ];
    assert_eq!(restore_pci_selections(&args, &devices), vec![1, 0]);
}

#[test]
fn display_options_follow_preference() {
    let detected = vec![
        "none".to_string(),
        "spice".to_string(),
        "egl-headless".to_string(),
        "gtk".to_string(),
        "egl-headless".to_string(),
    ];
    assert_eq!(display_options(Some(&detected)), vec!["gtk", "none", "egl-headless"]);
    assert_eq!(display_options(None), vec!["gtk", "sdl", "spice-app", "vnc", "none"]);
    assert_eq!(display_options(Some(&vec![])), vec!["gtk", "sdl", "spice-app", "vnc", "none"]);
}

#[test]
fn network_options() {
    let names: Vec<&str> = network_backend_options(true, true, false, true).iter().map(|o| o.0).collect();
    assert_eq!(names, vec!["user", "passt", "bridge", "none"]);
    assert_eq!(network_backend_options(false, true, true, true)[1].1, "Bridge - Full network, own IP");
    assert_eq!(network_backend_options(false, true, true, false)[1].1, "Bridge - Requires one-time setup");
    assert_eq!(network_backend_options(false, false, false, false).len(), 2);
}

#[test]
fn mount_tags_are_made_unique() {
    let existing = vec!["host_music".to_string(), "host_music_2".to_string()];
    assert_eq!(unique_mount_tag("host_music", &existing), "host_music_3");
    assert_eq!(unique_mount_tag("host_docs", &existing), "host_docs");
}

#[test]
fn devices_sorted_by_address() {
    let devices = vec![
        device("0000:01:00.1", 0x040300, false),
        device("0000:00:02.0", 0x030000, true),
        device("0000:01:00.0", 0x030000, false),
    ];
    let sorted: Vec<String> = sort_by_address(devices).into_iter().map(|d| d.address).collect();
    assert_eq!(sorted, vec!["0000:00:02.0", "0000:01:00.0", "0000:01:00.1"]);
}

#[test]
fn host_module_and_group_parsing() {
    assert!(vfio_modules_listed("vfio_pci 16384 0 - Live\n"));
    assert!(!vfio_modules_listed("kvm 1 0 - Live\n"));
    assert_eq!(parse_iommu_group("14"), Some(14));
    assert_eq!(parse_iommu_group("x"), None);
}

#[test]
fn pci_list_shows_gpu_devices_only_with_gpu_passthrough() {
    let mut bridge = device("0000:00:00.0", 0x060000, false);
    bridge.iommu_group = Some(0);
    let mut gpu = device("0000:01:00.0", 0x030000, false);
    gpu.iommu_group = Some(5);
    let mut gpu_usb = device("0000:01:00.2", 0x0c0330, false);
    gpu_usb.iommu_group = Some(5);
    let mut sensor = device("0000:01:00.3", 0x118000, false);
    sensor.iommu_group = Some(5);
    let mut nic = device("0000:03:00.0", 0x020000, false);
    nic.iommu_group = Some(7);
    let mut lone_nic = device("0000:04:00.0", 0x020000, false);
    lone_nic.iommu_group = None;
    let devices = vec![bridge, gpu, gpu_usb, sensor, nic, lone_nic];
    assert_eq!(relevant_pci_indices(&devices, false), vec![2, 4]);
    assert_eq!(relevant_pci_indices(&devices, true), vec![1, 2, 3, 4]);
    assert!(relevant_pci_indices(&[], true).is_empty());
}

#[test]
fn pci_highlight_moves_through_listed_devices() {
    let relevant = [2, 4, 7];
    assert_eq!(move_pci_highlight(&relevant, 4, true), 7);
    assert_eq!(move_pci_highlight(&relevant, 7, true), 7);
    assert_eq!(move_pci_highlight(&relevant, 4, false), 2);
    assert_eq!(move_pci_highlight(&relevant, 2, false), 2);
    assert_eq!(move_pci_highlight(&relevant, 5, false), 2);
    assert_eq!(move_pci_highlight(&[], 5, true), 5);
}
