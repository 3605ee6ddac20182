//! The boot options, display options and USB device screens: what their keys
//! do to the screen history and the highlight, what they ask of the host, and
//! the status lines they leave.

use vstd::prelude::*;
use crate::hardware::usb::{UdevInstallResult, UsbDevice};
use crate::navigation::{opened, went_back, ConfirmAction, MenuKey, Navigation, Screen};
use crate::selection::{toggle_selection, toggled};
use crate::text::{contains, dec, dec_string, has_infix};

verus! {

/// How a VM is booted.
#[derive(Debug, Clone, Copy, PartialEq, Eq)]
pub enum BootChoice {
    /// From its disk.
    Normal,
    /// From its installation media.
    Install,
}

/// What the boot options screen asks of its host after a key.
#[derive(Debug, Clone, Copy, PartialEq, Eq)]
pub enum BootOptionsCommand {
    Nothing,
    /// Remember the boot choice; the launch confirmation is now open.
    Launch(BootChoice),
    /// Fill the file browser (now open) with ISO images to boot from.
    BrowseIso,
}

/// The boot option a key picks: the digits `1` to `3` pick theirs, Enter the
/// highlighted one.
pub open spec fn picked_item(key: MenuKey, selected: int) -> int {
    match key {
        MenuKey::Char(c) => c as int - '1' as int,
        _ => selected,
    }
}

/// Whether `c` is one of the digits `'1'` to `last`.
pub open spec fn is_pick_digit(c: char, last: char) -> bool {
    '1' <= c <= last
}

/// The boot options menu: Esc goes back, `j`/`k` or the arrows move over its
/// three entries, and Enter or a digit picks normal boot, installation boot
/// (both open the launch confirmation in place of this screen) or booting
/// from an ISO image (which opens the file browser).
pub open spec fn boot_options_after(nav: Navigation, key: MenuKey, esc: bool) -> (
    Screen,
    Seq<Screen>,
    int,
    BootOptionsCommand,
) {
    let sel = nav.selected_menu_item as int;
    let back = went_back(nav.screen, nav.screen_stack@);
    if esc {
        (back.0, back.1, sel, BootOptionsCommand::Nothing)
    } else if key is Down || key == MenuKey::Char('j') {
        (nav.screen, nav.screen_stack@, if sel + 1 < 3 { sel + 1 } else { sel }, BootOptionsCommand::Nothing)
    } else if key is Up || key == MenuKey::Char('k') {
        (nav.screen, nav.screen_stack@, if sel > 0 { sel - 1 } else { sel }, BootOptionsCommand::Nothing)
    } else if key is Enter || (key matches MenuKey::Char(c) && is_pick_digit(c, '3')) {
        let item = picked_item(key, sel);
        if item == 0 || item == 1 {
            let confirm = opened(back.0, back.1, Screen::Confirm(ConfirmAction::LaunchVm));
            (
                confirm.0,
                confirm.1,
                0,
                BootOptionsCommand::Launch(
                    if item == 0 {
                        BootChoice::Normal
                    } else {
                        BootChoice::Install
                    },
                ),
            )
        } else if item == 2 {
            let browser = opened(nav.screen, nav.screen_stack@, Screen::FileBrowser);
            (browser.0, browser.1, 0, BootOptionsCommand::BrowseIso)
        } else {
            (nav.screen, nav.screen_stack@, sel, BootOptionsCommand::Nothing)
        }
    } else {
        (nav.screen, nav.screen_stack@, sel, BootOptionsCommand::Nothing)
    }
}

/// A key on the boot options screen (`esc` for the Escape key).
pub fn handle_boot_options_key(nav: &mut Navigation, key: MenuKey, esc: bool) -> (cmd:
    BootOptionsCommand)
    ensures
        (final(nav).screen, final(nav).screen_stack@, final(nav).selected_menu_item as int, cmd)
            == boot_options_after(*old(nav), key, esc),
{
    if esc {
        nav.pop_screen();
        return BootOptionsCommand::Nothing;
    }
    match key {
        MenuKey::Down | MenuKey::Char('j') => {
            nav.menu_next(3);
            BootOptionsCommand::Nothing
        },
        MenuKey::Up | MenuKey::Char('k') => {
            nav.menu_prev();
            BootOptionsCommand::Nothing
        },
        MenuKey::Enter | MenuKey::Char('1') | MenuKey::Char('2') | MenuKey::Char('3') => {
            let item: usize = match key {
                MenuKey::Char('1') => 0,
                MenuKey::Char('2') => 1,
                MenuKey::Char('3') => 2,
                _ => nav.selected_menu_item,
            };
            if item == 0 || item == 1 {
                nav.pop_screen();
                nav.push_screen(Screen::Confirm(ConfirmAction::LaunchVm));
                if item == 0 {
                    BootOptionsCommand::Launch(BootChoice::Normal)
                } else {
                    BootOptionsCommand::Launch(BootChoice::Install)
                }
            } else if item == 2 {
                nav.push_screen(Screen::FileBrowser);
                BootOptionsCommand::BrowseIso
            } else {
                BootOptionsCommand::Nothing
            }
        },
        _ => BootOptionsCommand::Nothing,
    }
}

/// Position of the "Change Display" entry in the management menu, where
/// the highlight returns on leaving the display options.
pub open spec fn change_display_entry() -> int {
    3
}

/// The display options menu over `option_count` backends: Esc goes back,
/// `j`/`k` or the arrows move, and Enter or a digit `1` to `4` picks a
/// backend that exists, which is to be applied; both leave the highlight on
/// "Change Display" in the management menu.
pub open spec fn display_options_after(nav: Navigation, option_count: int, key: MenuKey, esc: bool) -> (
    Screen,
    Seq<Screen>,
    int,
    Option<usize>,
) {
    let sel = nav.selected_menu_item as int;
    let back = went_back(nav.screen, nav.screen_stack@);
    if esc {
        (back.0, back.1, change_display_entry(), None)
    } else if key is Down || key == MenuKey::Char('j') {
        (nav.screen, nav.screen_stack@, if sel + 1 < option_count { sel + 1 } else { sel }, None)
    } else if key is Up || key == MenuKey::Char('k') {
        (nav.screen, nav.screen_stack@, if sel > 0 { sel - 1 } else { sel }, None)
    } else if key is Enter || (key matches MenuKey::Char(c) && is_pick_digit(c, '4')) {
        let item = picked_item(key, sel);
        if 0 <= item < option_count {
            (back.0, back.1, change_display_entry(), Some(item as usize))
        } else {
            (nav.screen, nav.screen_stack@, sel, None)
        }
    } else {
        (nav.screen, nav.screen_stack@, sel, None)
    }
}

/// A key on the display options screen, which offers `option_count`
/// backends (`esc` for the Escape key); the result is the position of the
/// backend to apply, if one was picked.
pub fn handle_display_options_key(
    nav: &mut Navigation,
    option_count: usize,
    key: MenuKey,
    esc: bool,
) -> (picked: Option<usize>)
    ensures
        (final(nav).screen, final(nav).screen_stack@, final(nav).selected_menu_item as int, picked)
            == display_options_after(*old(nav), option_count as int, key, esc),
{
    if esc {
        nav.selected_menu_item = 3;
        nav.pop_screen();
        return None;
    }
    match key {
        MenuKey::Down | MenuKey::Char('j') => {
            nav.menu_next(option_count);
            None
        },
        MenuKey::Up | MenuKey::Char('k') => {
            nav.menu_prev();
            None
        },
        MenuKey::Enter | MenuKey::Char('1') | MenuKey::Char('2') | MenuKey::Char('3') | MenuKey::Char(
            '4',
        ) => {
            let item: usize = match key {
                MenuKey::Char('1') => 0,
                MenuKey::Char('2') => 1,
                MenuKey::Char('3') => 2,
                MenuKey::Char('4') => 3,
                _ => nav.selected_menu_item,
            };
            if item < option_count {
                nav.selected_menu_item = 3;
                nav.pop_screen();
                Some(item)
            } else {
                None
            }
        },
        _ => None,
    }
}

/// The status line after switching the display backend to `name`, with a
/// warning where a SPICE backend was chosen and no SPICE viewer is installed.
pub open spec fn display_changed_text(name: Seq<char>, viewer_available: bool) -> Seq<char> {
    if has_infix(name, "spice"@) && !viewer_available {
        "Display changed to "@ + name + ". Warning: virt-viewer/remote-viewer not found!"@
    } else {
        "Display changed to "@ + name
    }
}

/// The status line after switching the display backend to `name`.
pub fn display_changed_status(name: &str, viewer_available: bool) -> (res: String)
    ensures
        res@ == display_changed_text(name@, viewer_available),
{
    let mut s = String::from_str("Display changed to ");
    s.append(name);
    if contains(name, "spice") && !viewer_available {
        s.append(". Warning: virt-viewer/remote-viewer not found!");
    }
    proof {
        reveal_strlit("Display changed to ");
        reveal_strlit(". Warning: virt-viewer/remote-viewer not found!");
        reveal_strlit("spice");
    }
    s
}

/// What the USB device screen asks of its host after a key.
#[derive(Debug, Clone, Copy, PartialEq, Eq)]
pub enum UsbScreenCommand {
    Nothing,
    /// Write the chosen devices (see `chosen_usb_devices`) to the launch script.
    Save,
    /// Install udev rules for the chosen devices.
    InstallRules,
    /// `u` was pressed with no device chosen: tell the user to choose first.
    ChooseFirst,
}

/// Position of the "USB Passthrough" entry in the management menu, where
/// the highlight returns on leaving the USB device screen.
pub open spec fn usb_entry() -> int {
    2
}

/// The USB device screen over `device_count` devices, `chosen` being the
/// positions chosen for passthrough: Esc goes back (the highlight returns to
/// "USB Passthrough"), `j`/`k` or the arrows move, space or Enter toggles
/// the highlighted device, `s` saves and `u` installs udev rules for the
/// chosen devices.
pub open spec fn usb_screen_after(
    nav: Navigation,
    chosen: Seq<usize>,
    device_count: int,
    key: MenuKey,
    esc: bool,
) -> (Screen, Seq<Screen>, int, Seq<usize>, UsbScreenCommand) {
    let sel = nav.selected_menu_item as int;
    let back = went_back(nav.screen, nav.screen_stack@);
    let last = if device_count > 0 { device_count - 1 } else { 0 };
    if esc {
        (back.0, back.1, usb_entry(), chosen, UsbScreenCommand::Nothing)
    } else if key is Down || key == MenuKey::Char('j') {
        (nav.screen, nav.screen_stack@, if sel + 1 < last { sel + 1 } else { last }, chosen, UsbScreenCommand::Nothing)
    } else if key is Up || key == MenuKey::Char('k') {
        (nav.screen, nav.screen_stack@, if sel > 0 { sel - 1 } else { sel }, chosen, UsbScreenCommand::Nothing)
    } else if key is Enter || key == MenuKey::Char(' ') {
        (nav.screen, nav.screen_stack@, sel, toggled(chosen, nav.selected_menu_item), UsbScreenCommand::Nothing)
    } else if key == MenuKey::Char('s') || key == MenuKey::Char('S') {
        (nav.screen, nav.screen_stack@, sel, chosen, UsbScreenCommand::Save)
    } else if key == MenuKey::Char('u') || key == MenuKey::Char('U') {
        (
            nav.screen,
            nav.screen_stack@,
            sel,
            chosen,
            if chosen.len() == 0 {
                UsbScreenCommand::ChooseFirst
            } else {
                UsbScreenCommand::InstallRules
            },
        )
    } else {
        (nav.screen, nav.screen_stack@, sel, chosen, UsbScreenCommand::Nothing)
    }
}

/// A key on the USB device screen, which lists `device_count` devices
/// (`esc` for the Escape key).
pub fn handle_usb_devices_key(
    nav: &mut Navigation,
    chosen: &mut Vec<usize>,
    device_count: usize,
    key: MenuKey,
    esc: bool,
) -> (cmd: UsbScreenCommand)
    ensures
        (
            final(nav).screen,
            final(nav).screen_stack@,
            final(nav).selected_menu_item as int,
            final(chosen)@,
            cmd,
        ) == usb_screen_after(*old(nav), old(chosen)@, device_count as int, key, esc),
{
    if esc {
        nav.selected_menu_item = 2;
        nav.pop_screen();
        return UsbScreenCommand::Nothing;
    }
    match key {
        MenuKey::Down | MenuKey::Char('j') => {
            let last: usize = if device_count > 0 { device_count - 1 } else { 0 };
            if nav.selected_menu_item < last && nav.selected_menu_item + 1 < last {
                nav.selected_menu_item = nav.selected_menu_item + 1;
            } else {
                nav.selected_menu_item = last;
            }
            UsbScreenCommand::Nothing
        },
        MenuKey::Up | MenuKey::Char('k') => {
            nav.menu_prev();
            UsbScreenCommand::Nothing
        },
        MenuKey::Enter | MenuKey::Char(' ') => {
            toggle_selection(chosen, nav.selected_menu_item);
            UsbScreenCommand::Nothing
        },
        MenuKey::Char('s') | MenuKey::Char('S') => UsbScreenCommand::Save,
        MenuKey::Char('u') | MenuKey::Char('U') => {
            if chosen.len() == 0 {
                UsbScreenCommand::ChooseFirst
            } else {
                UsbScreenCommand::InstallRules
            }
        },
        _ => UsbScreenCommand::Nothing,
    }
}

/// The devices at the chosen positions, in the order they were chosen;
/// positions past the list are skipped.
pub open spec fn chosen_devices(devices: Seq<UsbDevice>, chosen: Seq<usize>) -> Seq<UsbDevice>
    decreases chosen.len(),
{
    if chosen.len() == 0 {
        Seq::empty()
    } else {
        let rest = chosen_devices(devices, chosen.drop_last());
        if chosen.last() < devices.len() {
            rest.push(devices[chosen.last() as int])
        } else {
            rest
        }
    }
}

/// The devices to pass through: those at the chosen positions.
pub fn chosen_usb_devices(devices: &[UsbDevice], chosen: &[usize]) -> (res: Vec<UsbDevice>)
    ensures
        res@ == chosen_devices(devices@, chosen@),
{
    let mut out: Vec<UsbDevice> = Vec::new();
    let mut i: usize = 0;
    while i < chosen.len()
        invariant
            i <= chosen@.len(),
            out@ == chosen_devices(devices@, chosen@.take(i as int)),
        decreases chosen@.len() - i,
    {
        proof {
            assert(chosen@.take(i + 1).drop_last() == chosen@.take(i as int));
            assert(chosen@.take(i + 1).last() == chosen@[i as int]);
        }
        let k = chosen[i];
        if k < devices.len() {
            out.push(devices[k].clone());
        }
        i += 1;
    }
    proof {
        assert(chosen@.take(chosen@.len() as int) == chosen@);
    }
    out
}

/// The status line after saving `count` USB devices to the launch script.
pub open spec fn usb_saved_text(count: nat) -> Seq<char> {
    if count > 0 {
        "Saved "@ + dec(count) + " USB device(s) to launch.sh"@
    } else {
        "Cleared USB passthrough from launch.sh"@
    }
}

/// The status line after saving `count` USB devices to the launch script.
pub fn usb_saved_status(count: usize) -> (res: String)
    ensures
        res@ == usb_saved_text(count as nat),
{
    proof {
        reveal_strlit("Saved ");
        reveal_strlit(" USB device(s) to launch.sh");
        reveal_strlit("Cleared USB passthrough from launch.sh");
    }
    if count > 0 {
        let mut s = String::from_str("Saved ");
        let n = dec_string(count as u64);
        s.append(n.as_str());
        s.append(" USB device(s) to launch.sh");
        s
    } else {
        String::from_str("Cleared USB passthrough from launch.sh")
    }
}

/// The status line after installing udev rules.
pub open spec fn udev_status_text(result: UdevInstallResult) -> Seq<char> {
    match result {
        UdevInstallResult::Success => "USB permissions installed! Devices should now work without sudo."@,
        UdevInstallResult::NeedsReboot => "Rules installed. Please unplug/replug devices or reboot."@,
        UdevInstallResult::PermissionDenied => "Permission denied. Authentication cancelled or failed."@,
        UdevInstallResult::Error(e) => "Error installing rules: "@ + e@,
    }
}

/// The status line after installing udev rules.
pub fn udev_status(result: &UdevInstallResult) -> (res: String)
    ensures
        res@ == udev_status_text(*result),
{
    proof {
        reveal_strlit("USB permissions installed! Devices should now work without sudo.");
        reveal_strlit("Rules installed. Please unplug/replug devices or reboot.");
        reveal_strlit("Permission denied. Authentication cancelled or failed.");
        reveal_strlit("Error installing rules: ");
    }
    match result {
        UdevInstallResult::Success => String::from_str(
            "USB permissions installed! Devices should now work without sudo.",
        ),
        UdevInstallResult::NeedsReboot => String::from_str(
            "Rules installed. Please unplug/replug devices or reboot.",
        ),
        UdevInstallResult::PermissionDenied => String::from_str(
            "Permission denied. Authentication cancelled or failed.",
        ),
        UdevInstallResult::Error(e) => {
            let mut s = String::from_str("Error installing rules: ");
            s.append(e.as_str());
            s
        },
    }
}

} // verus!
