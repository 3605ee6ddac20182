use vm_curator::hardware::{UsbDevice, UsbVersion};
use vm_curator::management::{
    handle_management_key, restore_usb_selections, ManagementCommand, MenuAction,
};
use vm_curator::navigation::{ConfirmAction, MenuKey, Navigation, Screen, TextInputContext};

fn on_management() -> Navigation {
    let mut nav = Navigation::new();
    nav.push_screen(Screen::Management);
    nav
}

fn menu() -> Vec<MenuAction> {
    vec![
        MenuAction::BootOptions,
        MenuAction::Snapshots,
        MenuAction::UsbPassthrough,
        MenuAction::ChangeDisplay,
        MenuAction::RenameVm,
        MenuAction::StopVm,
        MenuAction::DeleteVm,
    ]
}

fn usb(vendor_id: u16, product_id: u16, dev_num: u8) -> UsbDevice {
    UsbDevice {
        vendor_id,
        product_id,
        vendor_name: "Vendor".to_string(),
        product_name: "Product".to_string(),
        bus_num: 1,
        dev_num,
        device_class: 0,
        usb_version: UsbVersion::Usb2,
    }
}

#[test]
fn digit_opens_screen_directly() {
    let mut nav = on_management();
    let cmd = handle_management_key(&mut nav, &menu(), true, MenuKey::Char('1'), false);
    assert_eq!(cmd, ManagementCommand::Opened(Screen::BootOptions));
    assert_eq!(nav.screen, Screen::BootOptions);
    assert_eq!(nav.selected_menu_item, 0);

    let mut nav = on_management();
    let cmd = handle_management_key(&mut nav, &menu(), true, MenuKey::Char('5'), false);
    assert_eq!(cmd, ManagementCommand::Opened(Screen::TextInput(TextInputContext::RenameVm)));

    let mut nav = on_management();
    let cmd = handle_management_key(&mut nav, &menu(), true, MenuKey::Char('7'), false);
    assert_eq!(cmd, ManagementCommand::Opened(Screen::Confirm(ConfirmAction::DeleteVm)));
    assert_eq!(nav.screen_stack.last(), Some(&Screen::Management));
}

#[test]
fn screens_that_read_the_host_open_after_loading() {
    let mut nav = on_management();
    let cmd = handle_management_key(&mut nav, &menu(), true, MenuKey::Char('2'), false);
    assert_eq!(cmd, ManagementCommand::LoadThenOpen(Screen::Snapshots));
    assert_eq!(nav.screen, Screen::Management);

    let cmd = handle_management_key(&mut nav, &menu(), true, MenuKey::Char('3'), false);
    assert_eq!(cmd, ManagementCommand::LoadThenOpen(Screen::UsbDevices));
}

#[test]
fn enter_acts_on_highlight_and_stop_is_decided_by_host() {
    let mut nav = on_management();
    for _ in 0..5 {
        handle_management_key(&mut nav, &menu(), true, MenuKey::Down, false);
    }
    assert_eq!(nav.selected_menu_item, 5);
    let cmd = handle_management_key(&mut nav, &menu(), true, MenuKey::Enter, false);
    assert_eq!(cmd, ManagementCommand::StopVm);
    assert_eq!(nav.screen, Screen::Management);
}

#[test]
fn nothing_without_vm_or_entry() {
    let mut nav = on_management();
    assert_eq!(
        handle_management_key(&mut nav, &menu(), false, MenuKey::Char('1'), false),
        ManagementCommand::Nothing
    );
    assert_eq!(
        handle_management_key(&mut nav, &menu(), true, MenuKey::Char('9'), false),
        ManagementCommand::Nothing
    );
    assert_eq!(nav.screen, Screen::Management);
    handle_management_key(&mut nav, &menu(), true, MenuKey::Other, true);
    assert_eq!(nav.screen, Screen::MainMenu);
}

#[test]
fn highlight_stays_within_menu() {
    let mut nav = on_management();
    for _ in 0..20 {
        handle_management_key(&mut nav, &menu(), true, MenuKey::Char('j'), false);
    }
    assert_eq!(nav.selected_menu_item, 6);
    handle_management_key(&mut nav, &menu(), true, MenuKey::Char('k'), false);
    assert_eq!(nav.selected_menu_item, 5);
}

#[test]
fn usb_selection_restored_from_saved_ids() {
    let devices = vec![usb(0x046d, 0xc52b, 2), usb(0x1050, 0x0407, 3), usb(0x046d, 0xc52b, 4)];
    let saved = [(0x1050, 0x0407), (0x046d, 0xc52b), (0xdead, 0xbeef)];
    assert_eq!(restore_usb_selections(&saved, &devices), vec![1, 0]);
    assert_eq!(restore_usb_selections(&[], &devices), Vec::<usize>::new());
}
