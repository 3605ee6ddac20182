//! The VM management menu: what each of its entries opens, what its keys do,
//! and which USB devices a saved passthrough setting chooses again.

use vstd::prelude::*;
use crate::hardware::usb::UsbDevice;
use crate::navigation::{opened, went_back, ConfirmAction, MenuKey, Navigation, Screen, TextInputContext};

verus! {

/// What an entry of the management menu does.
#[derive(Debug, Clone, Copy, PartialEq, Eq, Structural)]
pub enum MenuAction {
    StopVm,
    BootOptions,
    Snapshots,
    UsbPassthrough,
    PciPassthrough,
    SharedFolders,
    NetworkSettings,
    MultiGpuPassthrough,
    SingleGpuPassthrough,
    ChangeDisplay,
    EditNotes,
    RenameVm,
    ResetVm,
    DeleteVm,
    EditRawConfig,
}

/// The screen an entry opens (stopping a VM opens one only after the stop
/// decision, see `stop_decision`).
pub open spec fn action_screen(a: MenuAction) -> Screen {
    match a {
        MenuAction::StopVm => Screen::Confirm(ConfirmAction::StopVm),
        MenuAction::BootOptions => Screen::BootOptions,
        MenuAction::Snapshots => Screen::Snapshots,
        MenuAction::UsbPassthrough => Screen::UsbDevices,
        MenuAction::PciPassthrough => Screen::PciPassthrough,
        MenuAction::SharedFolders => Screen::SharedFolders,
        MenuAction::NetworkSettings => Screen::NetworkSettings,
        MenuAction::MultiGpuPassthrough => Screen::MultiGpuSetup,
        MenuAction::SingleGpuPassthrough => Screen::SingleGpuSetup,
        MenuAction::ChangeDisplay => Screen::DisplayOptions,
        MenuAction::EditNotes => Screen::EditNotes,
        MenuAction::RenameVm => Screen::TextInput(TextInputContext::RenameVm),
        MenuAction::ResetVm => Screen::Confirm(ConfirmAction::ResetVm),
        MenuAction::DeleteVm => Screen::Confirm(ConfirmAction::DeleteVm),
        MenuAction::EditRawConfig => Screen::RawScript,
    }
}

/// Entries whose screen shows what must first be read from the host
/// (snapshots, USB and PCI devices), which can fail: the screen opens only
/// once that succeeded.
pub open spec fn loads_first(a: MenuAction) -> bool {
    match a {
        MenuAction::Snapshots | MenuAction::UsbPassthrough | MenuAction::PciPassthrough
        | MenuAction::MultiGpuPassthrough | MenuAction::SingleGpuPassthrough => true,
        _ => false,
    }
}

/// The screen an entry opens.
pub fn screen_for(a: MenuAction) -> (s: Screen)
    ensures
        s == action_screen(a),
{
    match a {
        MenuAction::StopVm => Screen::Confirm(ConfirmAction::StopVm),
        MenuAction::BootOptions => Screen::BootOptions,
        MenuAction::Snapshots => Screen::Snapshots,
        MenuAction::UsbPassthrough => Screen::UsbDevices,
        MenuAction::PciPassthrough => Screen::PciPassthrough,
        MenuAction::SharedFolders => Screen::SharedFolders,
        MenuAction::NetworkSettings => Screen::NetworkSettings,
        MenuAction::MultiGpuPassthrough => Screen::MultiGpuSetup,
        MenuAction::SingleGpuPassthrough => Screen::SingleGpuSetup,
        MenuAction::ChangeDisplay => Screen::DisplayOptions,
        MenuAction::EditNotes => Screen::EditNotes,
        MenuAction::RenameVm => Screen::TextInput(TextInputContext::RenameVm),
        MenuAction::ResetVm => Screen::Confirm(ConfirmAction::ResetVm),
        MenuAction::DeleteVm => Screen::Confirm(ConfirmAction::DeleteVm),
        MenuAction::EditRawConfig => Screen::RawScript,
    }
}

/// What the management menu asks of its host after a key.
#[derive(Debug, Clone, PartialEq, Eq)]
pub enum ManagementCommand {
    Nothing,
    /// Stop the selected VM (see `stop_decision`).
    StopVm,
    /// Read what the screen shows; where that succeeds, open it.
    LoadThenOpen(Screen),
    /// The screen is now open: fill in what it shows of the VM (notes, launch
    /// script, the name to edit, shared folders, network settings).
    Opened(Screen),
}

/// Whether `c` is one of the digits `1` to `9`.
pub open spec fn is_entry_digit(c: char) -> bool {
    '1' <= c <= '9'
}

/// The entry a key picks: the digits `1` to `9` pick theirs, Enter the
/// highlighted one.
pub open spec fn picked_entry(key: MenuKey, selected: int) -> int {
    match key {
        MenuKey::Char(c) => c as int - '1' as int,
        _ => selected,
    }
}

/// The management menu over `actions` (the entries shown for the selected
/// VM; `has_vm` is false where no VM is selected): Esc goes back, `j`/`k` or
/// the arrows move, and Enter or a digit acts on an entry that exists, where
/// a VM is selected.
pub open spec fn management_after(
    nav: Navigation,
    actions: Seq<MenuAction>,
    has_vm: bool,
    key: MenuKey,
    esc: bool,
) -> (Screen, Seq<Screen>, int, ManagementCommand) {
    let sel = nav.selected_menu_item as int;
    let stay = (nav.screen, nav.screen_stack@, sel, ManagementCommand::Nothing);
    if esc {
        let back = went_back(nav.screen, nav.screen_stack@);
        (back.0, back.1, sel, ManagementCommand::Nothing)
    } else if key is Down || key == MenuKey::Char('j') {
        (nav.screen, nav.screen_stack@, if sel + 1 < actions.len() { sel + 1 } else { sel }, ManagementCommand::Nothing)
    } else if key is Up || key == MenuKey::Char('k') {
        (nav.screen, nav.screen_stack@, if sel > 0 { sel - 1 } else { sel }, ManagementCommand::Nothing)
    } else if key is Enter || (key matches MenuKey::Char(c) && is_entry_digit(c)) {
        let i = picked_entry(key, sel);
        if has_vm && 0 <= i < actions.len() {
            let a = actions[i];
            if a == MenuAction::StopVm {
                (nav.screen, nav.screen_stack@, sel, ManagementCommand::StopVm)
            } else if loads_first(a) {
                (nav.screen, nav.screen_stack@, sel, ManagementCommand::LoadThenOpen(action_screen(a)))
            } else {
                let o = opened(nav.screen, nav.screen_stack@, action_screen(a));
                (o.0, o.1, 0, ManagementCommand::Opened(action_screen(a)))
            }
        } else {
            stay
        }
    } else {
        stay
    }
}

/// A key on the management menu (`esc` for the Escape key).
pub fn handle_management_key(
    nav: &mut Navigation,
    actions: &[MenuAction],
    has_vm: bool,
    key: MenuKey,
    esc: bool,
) -> (cmd: ManagementCommand)
    ensures
        (final(nav).screen, final(nav).screen_stack@, final(nav).selected_menu_item as int, cmd)
            == management_after(*old(nav), actions@, has_vm, key, esc),
{
    if esc {
        nav.pop_screen();
        return ManagementCommand::Nothing;
    }
    match key {
        MenuKey::Down | MenuKey::Char('j') => {
            nav.menu_next(actions.len());
            ManagementCommand::Nothing
        },
        MenuKey::Up | MenuKey::Char('k') => {
            nav.menu_prev();
            ManagementCommand::Nothing
        },
        MenuKey::Enter | MenuKey::Char('1') | MenuKey::Char('2') | MenuKey::Char('3')
        | MenuKey::Char('4') | MenuKey::Char('5') | MenuKey::Char('6') | MenuKey::Char('7')
        | MenuKey::Char('8') | MenuKey::Char('9') => {
            let i: usize = match key {
                MenuKey::Char('1') => 0,
                MenuKey::Char('2') => 1,
                MenuKey::Char('3') => 2,
                MenuKey::Char('4') => 3,
                MenuKey::Char('5') => 4,
                MenuKey::Char('6') => 5,
                MenuKey::Char('7') => 6,
                MenuKey::Char('8') => 7,
                MenuKey::Char('9') => 8,
                _ => nav.selected_menu_item,
            };
            if !has_vm || i >= actions.len() {
                return ManagementCommand::Nothing;
            }
            let a = actions[i];
            match a {
                MenuAction::StopVm => ManagementCommand::StopVm,
                MenuAction::Snapshots | MenuAction::UsbPassthrough | MenuAction::PciPassthrough
                | MenuAction::MultiGpuPassthrough | MenuAction::SingleGpuPassthrough => {
                    ManagementCommand::LoadThenOpen(screen_for(a))
                },
                _ => {
                    nav.push_screen(screen_for(a));
                    ManagementCommand::Opened(screen_for(a))
                },
            }
        },
        _ => ManagementCommand::Nothing,
    }
}

/// Whether a device has the given vendor and product ids.
pub open spec fn usb_matches(d: UsbDevice, vendor_id: u16, product_id: u16) -> bool {
    d.vendor_id == vendor_id && d.product_id == product_id
}

/// Whether `i` is the first position of a device with the given ids.
pub open spec fn first_usb_match_at(ds: Seq<UsbDevice>, vendor_id: u16, product_id: u16, i: int) -> bool {
    &&& 0 <= i < ds.len()
    &&& usb_matches(ds[i], vendor_id, product_id)
    &&& forall|j: int| 0 <= j < i ==> !usb_matches(#[trigger] ds[j], vendor_id, product_id)
}

/// The first position of a device with the given ids, if any.
pub open spec fn first_usb_match(ds: Seq<UsbDevice>, vendor_id: u16, product_id: u16) -> Option<int> {
    if exists|i: int| first_usb_match_at(ds, vendor_id, product_id, i) {
        Some(choose|i: int| first_usb_match_at(ds, vendor_id, product_id, i))
    } else {
        None
    }
}

/// The positions chosen again from saved (vendor, product) ids: for each
/// saved pair in turn, the first device with those ids, where there is one.
pub open spec fn usb_restored(saved: Seq<(u16, u16)>, ds: Seq<UsbDevice>) -> Seq<usize>
    decreases saved.len(),
{
    if saved.len() == 0 {
        Seq::empty()
    } else {
        let rest = usb_restored(saved.drop_last(), ds);
        match first_usb_match(ds, saved.last().0, saved.last().1) {
            Some(i) => rest.push(i as usize),
            None => rest,
        }
    }
}

proof fn lemma_first_match_unique(ds: Seq<UsbDevice>, v: u16, p: u16, i: int, k: int)
    requires
        first_usb_match_at(ds, v, p, i),
        first_usb_match_at(ds, v, p, k),
    ensures
        i == k,
{
    if i < k {
        assert(!usb_matches(ds[i], v, p));
    }
    if k < i {
        assert(!usb_matches(ds[k], v, p));
    }
}

fn find_usb(devices: &[UsbDevice], vendor_id: u16, product_id: u16) -> (res: Option<usize>)
    ensures
        match res {
            Some(i) => first_usb_match(devices@, vendor_id, product_id) == Some(i as int),
            None => first_usb_match(devices@, vendor_id, product_id) is None,
        },
{
    let mut i: usize = 0;
    while i < devices.len()
        invariant
            i <= devices@.len(),
            forall|j: int| 0 <= j < i ==> !usb_matches(#[trigger] devices@[j], vendor_id, product_id),
        decreases devices@.len() - i,
    {
        if devices[i].vendor_id == vendor_id && devices[i].product_id == product_id {
            proof {
                assert(first_usb_match_at(devices@, vendor_id, product_id, i as int));
                let k = choose|k: int| first_usb_match_at(devices@, vendor_id, product_id, k);
                lemma_first_match_unique(devices@, vendor_id, product_id, i as int, k);
            }
            return Some(i);
        }
        i += 1;
    }
    proof {
        assert forall|k: int| !first_usb_match_at(devices@, vendor_id, product_id, k) by {
            if first_usb_match_at(devices@, vendor_id, product_id, k) {
                assert(!usb_matches(devices@[k], vendor_id, product_id));
            }
        }
    }
    None
}

/// The devices to choose again from a saved USB passthrough setting, given
/// as (vendor, product) ids.
pub fn restore_usb_selections(saved: &[(u16, u16)], devices: &[UsbDevice]) -> (res: Vec<usize>)
    ensures
        res@ == usb_restored(saved@, devices@),
{
    let mut res: Vec<usize> = Vec::new();
    let mut i: usize = 0;
    while i < saved.len()
        invariant
            i <= saved@.len(),
            res@ == usb_restored(saved@.take(i as int), devices@),
        decreases saved@.len() - i,
    {
        proof {
            assert(saved@.take(i + 1).drop_last() == saved@.take(i as int));
            assert(saved@.take(i + 1).last() == saved@[i as int]);
        }
        let (v, p) = saved[i];
        match find_usb(devices, v, p) {
            Some(k) => res.push(k),
            None => {},
        }
        i += 1;
    }
    proof {
        assert(saved@.take(saved@.len() as int) == saved@);
    }
    res
}

} // verus!
