use vm_curator::gpu_setup::{
    handle_multi_gpu_key, handle_single_gpu_setup_key, single_gpu_candidate, MultiGpuCommand,
    SingleGpuSetupCommand,
};
use vm_curator::hardware::PciDevice;
use vm_curator::navigation::{MenuKey, Screen};

fn device(address: &str, class_code: u32, group: Option<u32>, boot: bool) -> PciDevice {
    PciDevice {
        address: address.to_string(),
        vendor_id: 0x10de,
        device_id: 0x2684,
        class_code,
        vendor_name: "NVIDIA".to_string(),
        device_name: "RTX 4090".to_string(),
        driver: Some("nvidia".to_string()),
        iommu_group: group,
        is_boot_vga: boot,
        subsystem_vendor_id: 0,
        subsystem_device_id: 0,
    }
}

#[test]
fn setup_highlight_moves_within_entries() {
    let mut selected: usize = 0;
    assert_eq!(handle_single_gpu_setup_key(&mut selected, MenuKey::Down, false), SingleGpuSetupCommand::Nothing);
    assert_eq!(selected, 1);
    handle_single_gpu_setup_key(&mut selected, MenuKey::Char('j'), false);
    assert_eq!(selected, 1);
    handle_single_gpu_setup_key(&mut selected, MenuKey::Char('k'), false);
    assert_eq!(selected, 0);
    handle_single_gpu_setup_key(&mut selected, MenuKey::Up, false);
    assert_eq!(selected, 0);
}

#[test]
fn setup_enter_acts_on_highlighted_entry() {
    let mut selected: usize = 0;
    assert_eq!(
        handle_single_gpu_setup_key(&mut selected, MenuKey::Enter, false),
        SingleGpuSetupCommand::GenerateScripts
    );
    selected = 1;
    assert_eq!(
        handle_single_gpu_setup_key(&mut selected, MenuKey::Char(' '), false),
        SingleGpuSetupCommand::DeleteScripts
    );
    selected = 5;
    assert_eq!(
        handle_single_gpu_setup_key(&mut selected, MenuKey::Enter, false),
        SingleGpuSetupCommand::Nothing
    );
}

#[test]
fn setup_shortcuts_and_escape() {
    let mut selected: usize = 1;
    assert_eq!(
        handle_single_gpu_setup_key(&mut selected, MenuKey::Char('G'), false),
        SingleGpuSetupCommand::GenerateScripts
    );
    assert_eq!(
        handle_single_gpu_setup_key(&mut selected, MenuKey::Char('d'), false),
        SingleGpuSetupCommand::DeleteScripts
    );
    assert_eq!(
        handle_single_gpu_setup_key(&mut selected, MenuKey::Down, true),
        SingleGpuSetupCommand::Back
    );
    assert_eq!(selected, 1);
    assert_eq!(
        handle_single_gpu_setup_key(&mut selected, MenuKey::Char('x'), false),
        SingleGpuSetupCommand::Nothing
    );
}

#[test]
fn multi_gpu_keys() {
    assert_eq!(handle_multi_gpu_key(MenuKey::Char('p'), false), MultiGpuCommand::Open(Screen::PciPassthrough));
    assert_eq!(handle_multi_gpu_key(MenuKey::Char('S'), false), MultiGpuCommand::Open(Screen::Settings));
    assert_eq!(handle_multi_gpu_key(MenuKey::Enter, true), MultiGpuCommand::Back);
    assert_eq!(handle_multi_gpu_key(MenuKey::Char('q'), false), MultiGpuCommand::Nothing);
}

#[test]
fn candidate_prefers_gpu_ready_for_single_gpu_passthrough() {
    let devices = vec![
        device("0000:00:1f.3", 0x040300, Some(3), false),
        device("0000:00:02.0", 0x030000, None, true),
        device("0000:01:00.0", 0x030000, Some(12), true),
    ];
    assert_eq!(single_gpu_candidate(&devices), Some(2));
}

#[test]
fn candidate_falls_back_to_boot_vga_without_iommu_group() {
    let devices = vec![
        device("0000:00:1f.3", 0x040300, Some(3), false),
        device("0000:00:02.0", 0x030000, None, true),
    ];
    assert_eq!(single_gpu_candidate(&devices), Some(1));
}

#[test]
fn candidate_none_without_boot_vga() {
    let devices = vec![device("0000:01:00.0", 0x030000, Some(12), false)];
    assert_eq!(single_gpu_candidate(&devices), None);
    assert_eq!(single_gpu_candidate(&[]), None);
}
