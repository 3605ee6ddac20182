use vm_curator::hardware::single_gpu::{
    check_single_gpu_support, config_file_content, detect_display_manager, detect_gpu_driver,
    parse_config, DisplayManager, GpuDriver,
};
use vm_curator::hardware::{PciDevice, SingleGpuConfig};

fn device(address: &str, vendor_id: u16, class_code: u32, driver: Option<&str>, boot: bool) -> PciDevice {
    PciDevice {
        address: address.to_string(),
        vendor_id,
        device_id: 0x1681,
        class_code,
        vendor_name: "AMD/ATI".to_string(),
        device_name: "Radeon 680M".to_string(),
        driver: driver.map(|d| d.to_string()),
        iommu_group: Some(10),
        is_boot_vga: boot,
        subsystem_vendor_id: 0,
        subsystem_device_id: 0,
    }
}

#[test]
fn test_display_manager_service_names() {
    assert_eq!(DisplayManager::Gdm.service_name(), "gdm");
    assert_eq!(DisplayManager::Sddm.service_name(), "sddm");
    assert_eq!(DisplayManager::Lightdm.service_name(), "lightdm");
}

#[test]
fn single_gpu_test_display_manager_service_names() {
    assert_eq!(DisplayManager::Gdm.service_name(), "gdm");
    assert_eq!(DisplayManager::Sddm.service_name(), "sddm");
    assert_eq!(DisplayManager::Lightdm.service_name(), "lightdm");
}

#[test]
fn single_gpu_test_gpu_driver_modules() {
    assert_eq!(GpuDriver::Nvidia.module_name(), "nvidia");
    assert!(!GpuDriver::Nvidia.dependent_modules().is_empty());
}

#[test]
fn test_gpu_driver_modules() {
    assert_eq!(GpuDriver::Nvidia.module_name(), "nvidia");
    assert!(!GpuDriver::Nvidia.dependent_modules().is_empty());
}

#[test]
fn display_manager_names_round_trip() {
    assert!(matches!(DisplayManager::from_service_name("sddm"), DisplayManager::Sddm));
    match DisplayManager::from_service_name("ly") {
        DisplayManager::Unknown(n) => assert_eq!(n, "ly"),
        _ => panic!("ly is not a known display manager"),
    }
    assert!(matches!(GpuDriver::from_module_name("amdgpu"), GpuDriver::Amdgpu));
}

#[test]
fn gpu_driver_is_detected_from_the_bound_driver() {
    let gpu = device("0000:e4:00.0", 0x1002, 0x030000, Some("amdgpu"), true);
    assert!(matches!(detect_gpu_driver(&gpu), GpuDriver::Amdgpu));
    let unbound = device("0000:e4:00.0", 0x10de, 0x030000, None, true);
    assert!(matches!(detect_gpu_driver(&unbound), GpuDriver::Nvidia));
}

#[test]
fn display_manager_detection_prefers_active_services() {
    let dm = detect_display_manager(&[false, true, false], None, None, None, None);
    assert!(matches!(dm, DisplayManager::Sddm));
    let dm = detect_display_manager(
        &[false, false, false],
        Some("graphical.target"),
        Some("/usr/lib/systemd/system/lightdm.service"),
        Some("lightdm.service"),
        None,
    );
    assert!(matches!(dm, DisplayManager::Lightdm));
    let none = detect_display_manager(&[false, false, false], None, None, None, None);
    assert!(matches!(none, DisplayManager::Unknown(ref n) if n == "display-manager"));
}

#[test]
fn single_gpu_support_needs_iommu_vfio_and_boot_vga() {
    let gpu = device("0000:e4:00.0", 0x1002, 0x030000, Some("amdgpu"), true);
    let ok = check_single_gpu_support(true, true, Some(vec![gpu]), DisplayManager::Gdm);
    assert!(ok.is_supported());
    let no_iommu = check_single_gpu_support(false, true, Some(vec![]), DisplayManager::Gdm);
    assert!(!no_iommu.is_supported());
}

#[test]
fn config_file_round_trips() {
    let gpu = device("0000:e4:00.0", 0x1002, 0x030000, Some("amdgpu"), true);
    let audio = device("0000:e4:00.1", 0x1002, 0x040300, Some("snd_hda_intel"), false);
    let all = vec![gpu.clone(), audio.clone()];
    let config = SingleGpuConfig::new(gpu, &all, vec![], DisplayManager::Sddm);
    assert_eq!(config.audio.as_ref().map(|a| a.address.clone()), Some("0000:e4:00.1".to_string()));

    let text = config_file_content(&config);
    assert!(text.starts_with("# Single GPU Passthrough Configuration\n"));
    assert!(text.contains("[gpu]\n"));
    assert!(text.contains("[audio]\n"));

    let loaded = parse_config(&text).expect("config should load");
    assert_eq!(loaded.gpu.address, "0000:e4:00.0");
    assert_eq!(loaded.gpu.vendor_id, 0x1002);
    assert_eq!(loaded.gpu.device_name, "Radeon 680M");
    assert_eq!(loaded.audio.map(|a| a.address), Some("0000:e4:00.1".to_string()));
    assert!(matches!(loaded.original_driver, GpuDriver::Amdgpu));
    assert!(matches!(loaded.display_manager, DisplayManager::Sddm));
}

#[test]
fn config_without_gpu_section_does_not_load() {
    assert!(parse_config("").is_none());
    assert!(parse_config("[audio]\naddress = \"0000:01:00.1\"\n").is_none());
}

#[test]
fn single_gpu_support_default_finds_nothing() {
    let s = vm_curator::hardware::SingleGpuSupport::default();
    assert!(!s.iommu_enabled && !s.vfio_available && !s.has_single_gpu);
    assert!(s.boot_vga.is_none() && s.display_manager.is_none());
    assert!(!s.is_supported());
}

#[test]
fn config_names_with_inner_quote_round_trip() {
    let gpu = device("0000:01:00.0", 0x10de, 0x030000, Some("nvidia"), true);
    let all = vec![gpu.clone()];
    let mut config = SingleGpuConfig::new(gpu, &all, vec![], DisplayManager::Gdm);
    config.original_driver = GpuDriver::Other("my\"drv".to_string());
    config.display_manager = DisplayManager::Unknown("odd\"dm".to_string());
    let loaded = parse_config(&config_file_content(&config)).expect("config should load");
    assert!(matches!(loaded.original_driver, GpuDriver::Other(ref n) if n == "my\"drv"));
    assert!(matches!(loaded.display_manager, DisplayManager::Unknown(ref n) if n == "odd\"dm"));
}

#[test]
fn gpu_rom_round_trips_through_config_file() {
    let gpu = PciDevice {
        address: "0000:e4:00.0".to_string(),
        vendor_id: 0x1002,
        device_id: 0x1681,
        vendor_name: "AMD/ATI".to_string(),
        device_name: "Radeon 680M".to_string(),
        class_code: 0x030000,
        driver: Some("amdgpu".to_string()),
        iommu_group: Some(10),
        is_boot_vga: true,
        subsystem_vendor_id: 0,
        subsystem_device_id: 0,
    };
    let config = SingleGpuConfig {
        gpu,
        audio: None,
        iommu_group_devices: Vec::new(),
        original_driver: GpuDriver::Amdgpu,
        display_manager: DisplayManager::Gdm,
        gpu_rom: Some("/home/user/vbios.rom".to_string()),
    };

    // A set ROM round-trips.
    let loaded = parse_config(&config_file_content(&config)).expect("config should load");
    assert_eq!(loaded.gpu_rom.as_deref(), Some("/home/user/vbios.rom"));
    assert_eq!(loaded.gpu.address, "0000:e4:00.0");

    // An unset ROM round-trips as None (key omitted).
    let config_none = SingleGpuConfig { gpu_rom: None, ..config };
    let text = config_file_content(&config_none);
    assert!(!text.contains("gpu_rom"));
    let loaded_none = parse_config(&text).expect("config should load");
    assert_eq!(loaded_none.gpu_rom, None);
}
