use vm_curator::hardware::pci::{
    find_gpu_audio_pair, generate_passthrough_args, get_class_description, get_pci_names,
    is_device_in_gpu_group, parse_sysfs_hex_u16, parse_sysfs_hex_u32, read_pci_device,
    SysfsPciAttributes,
};
use vm_curator::hardware::PciDevice;

fn device(
    address: &str,
    vendor_id: u16,
    device_id: u16,
    class_code: u32,
    group: Option<u32>,
    boot_vga: bool,
) -> PciDevice {
    PciDevice {
        address: address.to_string(),
        vendor_id,
        device_id,
        class_code,
        vendor_name: String::new(),
        device_name: String::new(),
        driver: None,
        iommu_group: group,
        is_boot_vga: boot_vga,
        subsystem_vendor_id: 0,
        subsystem_device_id: 0,
    }
}

#[test]
fn pci_test_pci_device_is_gpu() {
    let device = PciDevice {
        address: "0000:01:00.0".to_string(),
        vendor_id: 0x10de,
        device_id: 0x2684,
        class_code: 0x030000,
        vendor_name: "NVIDIA".to_string(),
        device_name: "GeForce RTX 4090".to_string(),
        driver: Some("nvidia".to_string()),
        iommu_group: Some(1),
        is_boot_vga: false,
        subsystem_vendor_id: 0,
        subsystem_device_id: 0,
    };

    assert!(device.is_gpu());
    assert!(device.is_vga());
    assert!(device.is_nvidia());
    assert!(device.can_passthrough());
}

#[test]
fn test_pci_device_is_gpu() {
    let device = PciDevice {
        address: "0000:01:00.0".to_string(),
        vendor_id: 0x10de,
        device_id: 0x2684,
        class_code: 0x030000,
        vendor_name: "NVIDIA".to_string(),
        device_name: "GeForce RTX 4090".to_string(),
        driver: Some("nvidia".to_string()),
        iommu_group: Some(1),
        is_boot_vga: false,
        subsystem_vendor_id: 0,
        subsystem_device_id: 0,
    };

    assert!(device.is_gpu());
    assert!(device.is_vga());
    assert!(device.is_nvidia());
    assert!(device.can_passthrough());
}

#[test]
fn pci_test_pci_device_boot_vga_cannot_passthrough() {
    let device = PciDevice {
        address: "0000:00:02.0".to_string(),
        vendor_id: 0x8086,
        device_id: 0x1234,
        class_code: 0x030000,
        vendor_name: "Intel".to_string(),
        device_name: "UHD Graphics".to_string(),
        driver: Some("i915".to_string()),
        iommu_group: Some(0),
        is_boot_vga: true,
        subsystem_vendor_id: 0,
        subsystem_device_id: 0,
    };

    assert!(device.is_gpu());
    assert!(!device.can_passthrough());
}

#[test]
fn test_pci_device_boot_vga_cannot_passthrough() {
    let device = PciDevice {
        address: "0000:00:02.0".to_string(),
        vendor_id: 0x8086,
        device_id: 0x1234,
        class_code: 0x030000,
        vendor_name: "Intel".to_string(),
        device_name: "UHD Graphics".to_string(),
        driver: Some("i915".to_string()),
        iommu_group: Some(0),
        is_boot_vga: true,
        subsystem_vendor_id: 0,
        subsystem_device_id: 0,
    };

    assert!(device.is_gpu());
    assert!(!device.can_passthrough());
}

#[test]
fn pci_test_generate_passthrough_args() {
    let devices = vec![
        PciDevice {
            address: "0000:01:00.0".to_string(),
            vendor_id: 0x10de,
            device_id: 0x2684,
            class_code: 0x030000,
            vendor_name: "NVIDIA".to_string(),
            device_name: "GeForce RTX 4090".to_string(),
            driver: Some("vfio-pci".to_string()),
            iommu_group: Some(1),
            is_boot_vga: false,
            subsystem_vendor_id: 0,
            subsystem_device_id: 0,
        },
        PciDevice {
            address: "0000:01:00.1".to_string(),
            vendor_id: 0x10de,
            device_id: 0x228b,
            class_code: 0x040300,
            vendor_name: "NVIDIA".to_string(),
            device_name: "HD Audio Controller".to_string(),
            driver: Some("vfio-pci".to_string()),
            iommu_group: Some(1),
            is_boot_vga: false,
            subsystem_vendor_id: 0,
            subsystem_device_id: 0,
        },
    ];

    let args = generate_passthrough_args(&devices);

    assert_eq!(args.len(), 4); // 2 devices, each with 2 args
    assert!(args[1].contains("multifunction=on")); // Primary GPU
    assert!(!args[1].contains("x-vga")); // No x-vga (incompatible with modern NVIDIA)
    assert!(!args[3].contains("x-vga")); // Audio device also no x-vga
}

#[test]
fn test_generate_passthrough_args() {
    let devices = vec![
        PciDevice {
            address: "0000:01:00.0".to_string(),
            vendor_id: 0x10de,
            device_id: 0x2684,
            class_code: 0x030000,
            vendor_name: "NVIDIA".to_string(),
            device_name: "GeForce RTX 4090".to_string(),
            driver: Some("vfio-pci".to_string()),
            iommu_group: Some(1),
            is_boot_vga: false,
            subsystem_vendor_id: 0,
            subsystem_device_id: 0,
        },
        PciDevice {
            address: "0000:01:00.1".to_string(),
            vendor_id: 0x10de,
            device_id: 0x228b,
            class_code: 0x040300,
            vendor_name: "NVIDIA".to_string(),
            device_name: "HD Audio Controller".to_string(),
            driver: Some("vfio-pci".to_string()),
            iommu_group: Some(1),
            is_boot_vga: false,
            subsystem_vendor_id: 0,
            subsystem_device_id: 0,
        },
    ];

    let args = generate_passthrough_args(&devices);

    assert_eq!(args.len(), 4); // 2 devices, each with 2 args
    assert!(args[1].contains("multifunction=on")); // Primary GPU
    assert!(!args[1].contains("x-vga")); // No x-vga (incompatible with modern NVIDIA)
    assert!(!args[3].contains("x-vga")); // Audio device also no x-vga
}

fn gpu_device(address: &str, vendor_id: u16, device_id: u16) -> PciDevice {
    PciDevice {
        address: address.to_string(),
        vendor_id,
        device_id,
        class_code: 0x030000,
        vendor_name: String::new(),
        device_name: String::new(),
        driver: None,
        iommu_group: Some(1),
        is_boot_vga: true,
        subsystem_vendor_id: 0,
        subsystem_device_id: 0,
    }
}

#[test]
fn integrated_gpu_detection() {
    // Known AMD APUs (Rembrandt 680M among them)
    assert!(gpu_device("0000:e4:00.0", 0x1002, 0x1681).is_integrated_gpu());
    assert!(gpu_device("0000:04:00.0", 0x1002, 0x15bf).is_integrated_gpu());

    // AMD discrete cards are not flagged
    assert!(!gpu_device("0000:03:00.0", 0x1002, 0x744c).is_integrated_gpu());

    // Intel iGPU always sits at 00:02.0; Arc dGPUs live elsewhere
    assert!(gpu_device("0000:00:02.0", 0x8086, 0x9a49).is_integrated_gpu());
    assert!(!gpu_device("0000:03:00.0", 0x8086, 0x56a0).is_integrated_gpu());

    // NVIDIA is never integrated
    assert!(!gpu_device("0000:01:00.0", 0x10de, 0x2684).is_integrated_gpu());

    // A non-GPU AMD device with a coincidental APU device ID is not flagged
    let mut audio = gpu_device("0000:e4:00.1", 0x1002, 0x1681);
    audio.class_code = 0x040300;
    assert!(!audio.is_integrated_gpu());
}

#[test]
fn passthrough_args_are_exact() {
    let gpu = device("0000:01:00.0", 0x10de, 0x2684, 0x030000, Some(1), false);
    let audio = device("0000:01:00.1", 0x10de, 0x228b, 0x040300, Some(1), false);
    let args = generate_passthrough_args(&[gpu, audio]);
    assert_eq!(
        args,
        vec![
            "-device",
            "vfio-pci,host=0000:01:00.0,multifunction=on",
            "-device",
            "vfio-pci,host=0000:01:00.1",
        ]
    );
}

#[test]
fn passthrough_args_primary_is_first_vga() {
    let audio = device("0000:01:00.1", 0x10de, 0x228b, 0x040300, Some(1), false);
    let gpu = device("0000:01:00.0", 0x10de, 0x2684, 0x030000, Some(1), false);
    let args = generate_passthrough_args(&[audio, gpu]);
    assert_eq!(args[1], "vfio-pci,host=0000:01:00.1");
    assert_eq!(args[3], "vfio-pci,host=0000:01:00.0,multifunction=on");
    assert!(generate_passthrough_args(&[]).is_empty());
}

#[test]
fn sysfs_hex_parsing() {
    assert_eq!(parse_sysfs_hex_u16("0x10de\n"), Some(0x10de));
    assert_eq!(parse_sysfs_hex_u16("10de"), Some(0x10de));
    assert_eq!(parse_sysfs_hex_u16("0xzz"), None);
    assert_eq!(parse_sysfs_hex_u32("0x030000"), Some(0x030000));
    assert_eq!(parse_sysfs_hex_u16("0x1ffff"), None);
}

#[test]
fn read_device_from_sysfs_attributes() {
    let attrs = SysfsPciAttributes {
        vendor: Some("0x10de\n".to_string()),
        device: Some("0x2684\n".to_string()),
        class: Some("0x030000\n".to_string()),
        subsystem_vendor: Some("0x1043".to_string()),
        subsystem_device: Some("0x88e2".to_string()),
        driver: Some("nvidia".to_string()),
        iommu_group: Some(14),
        boot_vga: Some("0\n".to_string()),
    };
    let d = read_pci_device("0000:01:00.0", &attrs).expect("device should be read");
    assert_eq!(d.vendor_id, 0x10de);
    assert_eq!(d.device_id, 0x2684);
    assert_eq!(d.class_code, 0x030000);
    assert_eq!(d.vendor_name, "NVIDIA");
    assert_eq!(d.device_name, "GeForce RTX 4090");
    assert_eq!(d.iommu_group, Some(14));
    assert!(!d.is_boot_vga);

    let missing = SysfsPciAttributes {
        vendor: None,
        device: Some("0x2684".to_string()),
        class: Some("0x030000".to_string()),
        subsystem_vendor: None,
        subsystem_device: None,
        driver: None,
        iommu_group: None,
        boot_vga: None,
    };
    assert!(read_pci_device("0000:01:00.0", &missing).is_none());
}

#[test]
fn names_and_class_descriptions() {
    let (vendor, name) = get_pci_names(0x8086, 0x9999, 0x0c0330);
    assert_eq!(vendor, "Intel");
    assert_eq!(name, "USB Controller");
    assert_eq!(get_class_description(0x030000), "VGA Controller");
    assert_eq!(get_class_description(0x040300), "Audio Device");
}

#[test]
fn gpu_audio_pair_and_group_membership() {
    let gpu = device("0000:01:00.0", 0x10de, 0x2684, 0x030000, Some(3), false);
    let audio = device("0000:01:00.1", 0x10de, 0x228b, 0x040300, Some(3), false);
    let nic = device("0000:05:00.0", 0x8086, 0x15f3, 0x020000, Some(7), false);
    let all = vec![gpu.clone(), audio.clone(), nic.clone()];
    let pair = find_gpu_audio_pair(&gpu, &all, &[]).expect("audio function should pair");
    assert_eq!(pair.address, "0000:01:00.1");
    assert!(is_device_in_gpu_group(&audio, &all));
    assert!(!is_device_in_gpu_group(&nic, &all));
    assert!(!is_device_in_gpu_group(&gpu, &all));
}

#[test]
fn device_classification_helpers() {
    let mut gpu = device("0000:01:00.0", 0x10de, 0x2684, 0x030000, Some(1), false);
    gpu.vendor_name = "NVIDIA".to_string();
    gpu.driver = Some("vfio-pci".to_string());
    assert!(gpu.is_vfio_bound());
    assert!(!gpu.is_passthrough_candidate());
    let usb_controller = device("0000:05:00.0", 0x1022, 0x43f7, 0x0c0330, Some(9), false);
    assert!(usb_controller.is_passthrough_candidate());
    assert_eq!(usb_controller.short_vendor(), "Unknown");
    assert!(!gpu.can_single_gpu_passthrough());
    assert_eq!(gpu.short_vendor(), "NVIDIA");
    let host_bridge = device("0000:00:00.0", 0x8086, 0x4660, 0x060000, Some(0), false);
    assert!(host_bridge.is_infrastructure());
    assert!(!host_bridge.is_passthrough_candidate());
    let boot = device("0000:00:02.0", 0x8086, 0x9a49, 0x030000, Some(0), true);
    assert!(boot.can_single_gpu_passthrough());
}
