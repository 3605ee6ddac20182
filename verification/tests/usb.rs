use vm_curator::hardware::passthrough::{
    generate_usb_passthrough_args, generate_usb_passthrough_by_bus, PassthroughConfig,
};
use vm_curator::hardware::usb::{
    generate_udev_rules, select_usb_devices, udev_install_outcome, usb_version_from_device,
    LinkSpeed,
};
use vm_curator::hardware::{UdevInstallResult, UsbDevice, UsbVersion};

fn usb(vendor_id: u16, product_id: u16, vendor: &str, product: &str, class: u8) -> UsbDevice {
    UsbDevice {
        vendor_id,
        product_id,
        vendor_name: vendor.to_string(),
        product_name: product.to_string(),
        bus_num: 1,
        dev_num: 3,
        device_class: class,
        usb_version: UsbVersion::Usb2,
    }
}

#[test]
fn test_usb_device_display() {
    let device = UsbDevice {
        vendor_id: 0x046d,
        product_id: 0xc077,
        vendor_name: "Logitech".to_string(),
        product_name: "M105 Mouse".to_string(),
        bus_num: 1,
        dev_num: 3,
        device_class: 0,
        usb_version: UsbVersion::Usb2,
    };

    assert_eq!(device.display_name(), "Logitech M105 Mouse");
    assert!(!device.is_hub());
}

#[test]
fn test_usb_version_from_speed() {
    assert_eq!(UsbVersion::from_speed("1.5"), UsbVersion::Usb1);
    assert_eq!(UsbVersion::from_speed("12"), UsbVersion::Usb1);
    assert_eq!(UsbVersion::from_speed("480"), UsbVersion::Usb2);
    assert_eq!(UsbVersion::from_speed("5000"), UsbVersion::Usb3);
    assert_eq!(UsbVersion::from_speed("10000"), UsbVersion::Usb3);
    assert_eq!(UsbVersion::from_speed("20000"), UsbVersion::Usb3);
    // Unknown speed defaults to USB 2.0
    assert_eq!(UsbVersion::from_speed("unknown"), UsbVersion::Usb2);
}

#[test]
fn test_usb_version_from_bcd() {
    assert_eq!(UsbVersion::from_bcd_usb(0x0100), UsbVersion::Usb1);
    assert_eq!(UsbVersion::from_bcd_usb(0x0110), UsbVersion::Usb1);
    assert_eq!(UsbVersion::from_bcd_usb(0x0200), UsbVersion::Usb2);
    assert_eq!(UsbVersion::from_bcd_usb(0x0210), UsbVersion::Usb2);
    assert_eq!(UsbVersion::from_bcd_usb(0x0300), UsbVersion::Usb3);
    assert_eq!(UsbVersion::from_bcd_usb(0x0310), UsbVersion::Usb3);
    assert_eq!(UsbVersion::from_bcd_usb(0x0320), UsbVersion::Usb3);
}

#[test]
fn test_usb_version_is_usb3() {
    assert!(!UsbVersion::Usb1.is_usb3());
    assert!(!UsbVersion::Usb2.is_usb3());
    assert!(UsbVersion::Usb3.is_usb3());
}

#[test]
fn usb_version_of_enumerated_device() {
    assert_eq!(usb_version_from_device(LinkSpeed::Super, 2, 0, 0), UsbVersion::Usb3);
    assert_eq!(usb_version_from_device(LinkSpeed::Unknown, 3, 1, 0), UsbVersion::Usb3);
    assert_eq!(usb_version_from_device(LinkSpeed::Full, 2, 0, 0), UsbVersion::Usb1);
}

#[test]
fn usb_display_name_falls_back_to_ids() {
    let anonymous = usb(0x1234, 0xabcd, "", "", 0);
    assert_eq!(anonymous.display_name(), "USB Device 1234:abcd");
    let hub = usb(0x1d6b, 0x0002, "Linux Foundation", "2.0 root hub", 9);
    assert!(hub.is_hub());
}

#[test]
fn usb_selection_drops_hubs() {
    let hub = usb(0x1d6b, 0x0002, "Linux Foundation", "2.0 root hub", 9);
    let mouse = usb(0x046d, 0xc077, "Logitech", "M105 Mouse", 0);
    let picked = select_usb_devices(vec![hub, mouse]);
    assert_eq!(picked.len(), 1);
    assert_eq!(picked[0].product_id, 0xc077);
}

#[test]
fn usb_qemu_arguments() {
    let mouse = usb(0x046d, 0xc077, "Logitech", "M105 Mouse", 0);
    assert_eq!(
        mouse.to_qemu_args(),
        vec!["-device", "usb-host,vendorid=0x046d,productid=0xc077"]
    );
    let args = generate_usb_passthrough_args(&[mouse]);
    assert!(args.iter().any(|a| a.contains("vendorid=0x046d")));
    let by_bus = generate_usb_passthrough_by_bus(&[usb(0x046d, 0xc077, "Logitech", "M105", 0)]);
    assert!(by_bus.iter().any(|a| a.contains("hostbus=1") && a.contains("hostaddr=3")));
    let cfg = PassthroughConfig::default();
    assert!(cfg.to_qemu_args().is_empty());
}

#[test]
fn udev_rules_have_header_and_vendor_rule() {
    let mouse = usb(0x046d, 0xc077, "Logitech", "M105 Mouse", 0);
    let rules = generate_udev_rules(&[mouse]);
    assert!(rules.starts_with("# USB Passthrough rules for QEMU (managed by vm-curator)\n"));
    assert!(rules.contains("046d"));
}

#[test]
fn udev_install_outcomes() {
    assert!(matches!(udev_install_outcome(Some(true), true), UdevInstallResult::Success));
    assert!(matches!(udev_install_outcome(Some(true), false), UdevInstallResult::NeedsReboot));
    assert!(matches!(udev_install_outcome(Some(false), true), UdevInstallResult::PermissionDenied));
    match udev_install_outcome(None, false) {
        UdevInstallResult::Error(m) => assert_eq!(m, "No suitable privilege escalation method found"),
        _ => panic!("expected an error"),
    }
}
