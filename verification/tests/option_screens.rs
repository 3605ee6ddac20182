use vm_curator::hardware::{UdevInstallResult, UsbDevice, UsbVersion};
use vm_curator::navigation::{ConfirmAction, MenuKey, Navigation, Screen};
use vm_curator::option_screens::{
    chosen_usb_devices, display_changed_status, handle_boot_options_key,
    handle_display_options_key, handle_usb_devices_key, udev_status, usb_saved_status, BootChoice,
    BootOptionsCommand, UsbScreenCommand,
};

fn nav_on(screen: Screen) -> Navigation {
    let mut nav = Navigation::new();
    nav.push_screen(Screen::Management);
    nav.push_screen(screen);
    nav
}

fn usb(vendor_id: u16, product_id: u16) -> UsbDevice {
    UsbDevice {
        vendor_id,
        product_id,
        vendor_name: "Logitech".to_string(),
        product_name: "Receiver".to_string(),
        bus_num: 1,
        dev_num: 4,
        device_class: 0,
        usb_version: UsbVersion::Usb2,
    }
}

#[test]
fn boot_options_normal_boot_replaces_screen_with_confirmation() {
    let mut nav = nav_on(Screen::BootOptions);
    let cmd = handle_boot_options_key(&mut nav, MenuKey::Char('1'), false);
    assert_eq!(cmd, BootOptionsCommand::Launch(BootChoice::Normal));
    assert_eq!(nav.screen, Screen::Confirm(ConfirmAction::LaunchVm));
    assert_eq!(nav.screen_stack, vec![Screen::MainMenu, Screen::Management]);
}

#[test]
fn boot_options_enter_picks_highlighted_entry() {
    let mut nav = nav_on(Screen::BootOptions);
    handle_boot_options_key(&mut nav, MenuKey::Down, false);
    assert_eq!(nav.selected_menu_item, 1);
    let cmd = handle_boot_options_key(&mut nav, MenuKey::Enter, false);
    assert_eq!(cmd, BootOptionsCommand::Launch(BootChoice::Install));
    assert_eq!(nav.screen, Screen::Confirm(ConfirmAction::LaunchVm));
}

#[test]
fn boot_options_iso_opens_file_browser() {
    let mut nav = nav_on(Screen::BootOptions);
    let cmd = handle_boot_options_key(&mut nav, MenuKey::Char('3'), false);
    assert_eq!(cmd, BootOptionsCommand::BrowseIso);
    assert_eq!(nav.screen, Screen::FileBrowser);
    assert_eq!(nav.screen_stack.last(), Some(&Screen::BootOptions));
}

#[test]
fn boot_options_highlight_stops_at_last_entry() {
    let mut nav = nav_on(Screen::BootOptions);
    for _ in 0..5 {
        handle_boot_options_key(&mut nav, MenuKey::Char('j'), false);
    }
    assert_eq!(nav.selected_menu_item, 2);
    handle_boot_options_key(&mut nav, MenuKey::Other, true);
    assert_eq!(nav.screen, Screen::Management);
}

#[test]
fn display_options_pick_and_escape() {
    let mut nav = nav_on(Screen::DisplayOptions);
    assert_eq!(handle_display_options_key(&mut nav, 5, MenuKey::Char('2'), false), Some(1));
    assert_eq!(nav.screen, Screen::Management);
    assert_eq!(nav.selected_menu_item, 3);

    let mut nav = nav_on(Screen::DisplayOptions);
    assert_eq!(handle_display_options_key(&mut nav, 2, MenuKey::Char('4'), false), None);
    assert_eq!(nav.screen, Screen::DisplayOptions);
    assert_eq!(handle_display_options_key(&mut nav, 2, MenuKey::Enter, true), None);
    assert_eq!(nav.screen, Screen::Management);
    assert_eq!(nav.selected_menu_item, 3);
}

#[test]
fn display_changed_status_warns_without_viewer() {
    assert_eq!(display_changed_status("gtk", false), "Display changed to gtk");
    assert_eq!(
        display_changed_status("spice-app", false),
        "Display changed to spice-app. Warning: virt-viewer/remote-viewer not found!"
    );
    assert_eq!(display_changed_status("spice-app", true), "Display changed to spice-app");
}

#[test]
fn usb_screen_moves_toggles_and_saves() {
    let mut nav = nav_on(Screen::UsbDevices);
    let mut chosen: Vec<usize> = Vec::new();
    for _ in 0..4 {
        handle_usb_devices_key(&mut nav, &mut chosen, 3, MenuKey::Down, false);
    }
    assert_eq!(nav.selected_menu_item, 2);
    handle_usb_devices_key(&mut nav, &mut chosen, 3, MenuKey::Char(' '), false);
    handle_usb_devices_key(&mut nav, &mut chosen, 3, MenuKey::Up, false);
    handle_usb_devices_key(&mut nav, &mut chosen, 3, MenuKey::Enter, false);
    assert_eq!(chosen, vec![2, 1]);
    handle_usb_devices_key(&mut nav, &mut chosen, 3, MenuKey::Enter, false);
    assert_eq!(chosen, vec![2]);
    assert_eq!(handle_usb_devices_key(&mut nav, &mut chosen, 3, MenuKey::Char('S'), false), UsbScreenCommand::Save);
    assert_eq!(
        handle_usb_devices_key(&mut nav, &mut chosen, 3, MenuKey::Char('u'), false),
        UsbScreenCommand::InstallRules
    );
    handle_usb_devices_key(&mut nav, &mut chosen, 3, MenuKey::Other, true);
    assert_eq!(nav.screen, Screen::Management);
    assert_eq!(nav.selected_menu_item, 2);
}

#[test]
fn usb_screen_install_needs_a_choice() {
    let mut nav = nav_on(Screen::UsbDevices);
    let mut chosen: Vec<usize> = Vec::new();
    assert_eq!(
        handle_usb_devices_key(&mut nav, &mut chosen, 0, MenuKey::Char('U'), false),
        UsbScreenCommand::ChooseFirst
    );
    handle_usb_devices_key(&mut nav, &mut chosen, 0, MenuKey::Char('j'), false);
    assert_eq!(nav.selected_menu_item, 0);
}

#[test]
fn chosen_devices_in_choice_order_skipping_missing() {
    let devices = vec![usb(0x046d, 0xc52b), usb(0x1050, 0x0407), usb(0x0781, 0x5581)];
    let picked = chosen_usb_devices(&devices, &[2, 7, 0]);
    let ids: Vec<(u16, u16)> = picked.iter().map(|d| (d.vendor_id, d.product_id)).collect();
    assert_eq!(ids, vec![(0x0781, 0x5581), (0x046d, 0xc52b)]);
}

#[test]
fn usb_status_lines() {
    assert_eq!(usb_saved_status(2), "Saved 2 USB device(s) to launch.sh");
    assert_eq!(usb_saved_status(0), "Cleared USB passthrough from launch.sh");
    assert_eq!(
        udev_status(&UdevInstallResult::Success),
        "USB permissions installed! Devices should now work without sudo."
    );
    assert_eq!(
        udev_status(&UdevInstallResult::Error("no pkexec".to_string())),
        "Error installing rules: no pkexec"
    );
    assert_eq!(
        udev_status(&UdevInstallResult::PermissionDenied),
        "Permission denied. Authentication cancelled or failed."
    );
}
