//! The single GPU and multi-GPU setup screens: the highlighted entry, what
//! their keys ask of the host, and which GPU a single GPU setup is prepared
//! for.

use vstd::prelude::*;
use crate::hardware::pci::{is_gpu_class, PciDevice};
use crate::navigation::{MenuKey, Screen};

verus! {

/// Entries that can be highlighted on the single GPU setup screen.
#[derive(Debug, Clone, Copy, PartialEq, Eq)]
pub enum SetupField {
    GenerateScripts,
    DeleteScripts,
}

/// The entries of the single GPU setup screen, top to bottom.
pub open spec fn setup_fields() -> Seq<SetupField> {
    seq![SetupField::GenerateScripts, SetupField::DeleteScripts]
}

/// What the single GPU setup screen asks of its host after a key.
#[derive(Debug, Clone, Copy, PartialEq, Eq)]
pub enum SingleGpuSetupCommand {
    Nothing,
    /// Leave the screen (the host also resets the management menu's highlight).
    Back,
    /// Generate the start and restore scripts for the selected VM.
    GenerateScripts,
    /// Delete the selected VM's scripts.
    DeleteScripts,
}

/// The command of the entry at `selected`, where there is one.
pub open spec fn field_command(selected: int) -> SingleGpuSetupCommand {
    if 0 <= selected < setup_fields().len() {
        match setup_fields()[selected] {
            SetupField::GenerateScripts => SingleGpuSetupCommand::GenerateScripts,
            SetupField::DeleteScripts => SingleGpuSetupCommand::DeleteScripts,
        }
    } else {
        SingleGpuSetupCommand::Nothing
    }
}

/// Esc leaves; Enter or space acts on the highlighted entry; `g` generates
/// and `d` deletes the scripts, whatever is highlighted.
pub open spec fn setup_key_command(selected: int, key: MenuKey, esc: bool) -> SingleGpuSetupCommand {
    if esc {
        SingleGpuSetupCommand::Back
    } else if key is Enter || key == MenuKey::Char(' ') {
        field_command(selected)
    } else if key == MenuKey::Char('g') || key == MenuKey::Char('G') {
        SingleGpuSetupCommand::GenerateScripts
    } else if key == MenuKey::Char('d') || key == MenuKey::Char('D') {
        SingleGpuSetupCommand::DeleteScripts
    } else {
        SingleGpuSetupCommand::Nothing
    }
}

/// `k` or Up moves the highlight up, `j` or Down moves it down, within the
/// entries.
pub open spec fn setup_selected_after(selected: int, key: MenuKey, esc: bool) -> int {
    if esc {
        selected
    } else if key is Up || key == MenuKey::Char('k') {
        if selected > 0 {
            selected - 1
        } else {
            selected
        }
    } else if key is Down || key == MenuKey::Char('j') {
        if selected < setup_fields().len() - 1 {
            selected + 1
        } else {
            selected
        }
    } else {
        selected
    }
}

/// A key on the single GPU setup screen (`esc` for the Escape key), with the
/// highlighted entry `selected`.
pub fn handle_single_gpu_setup_key(selected: &mut usize, key: MenuKey, esc: bool) -> (cmd:
    SingleGpuSetupCommand)
    ensures
        cmd == setup_key_command(*old(selected) as int, key, esc),
        *final(selected) == setup_selected_after(*old(selected) as int, key, esc),
{
    if esc {
        return SingleGpuSetupCommand::Back;
    }
    let field_count: usize = 2;
    match key {
        MenuKey::Up | MenuKey::Char('k') => {
            if *selected > 0 {
                *selected = *selected - 1;
            }
            SingleGpuSetupCommand::Nothing
        },
        MenuKey::Down | MenuKey::Char('j') => {
            if *selected < field_count - 1 {
                *selected = *selected + 1;
            }
            SingleGpuSetupCommand::Nothing
        },
        MenuKey::Enter | MenuKey::Char(' ') => {
            if *selected == 0 {
                SingleGpuSetupCommand::GenerateScripts
            } else if *selected == 1 {
                SingleGpuSetupCommand::DeleteScripts
            } else {
                SingleGpuSetupCommand::Nothing
            }
        },
        MenuKey::Char('g') | MenuKey::Char('G') => SingleGpuSetupCommand::GenerateScripts,
        MenuKey::Char('d') | MenuKey::Char('D') => SingleGpuSetupCommand::DeleteScripts,
        _ => SingleGpuSetupCommand::Nothing,
    }
}

/// What the multi-GPU setup screen asks of its host after a key.
#[derive(Debug, Clone, PartialEq, Eq)]
pub enum MultiGpuCommand {
    Nothing,
    /// Leave the screen (the host also resets the management menu's highlight).
    Back,
    /// Open a screen over this one.
    Open(Screen),
}

/// Esc leaves; `p` opens PCI passthrough and `s` the settings.
pub open spec fn multi_gpu_command(key: MenuKey, esc: bool) -> MultiGpuCommand {
    if esc {
        MultiGpuCommand::Back
    } else if key == MenuKey::Char('p') || key == MenuKey::Char('P') {
        MultiGpuCommand::Open(Screen::PciPassthrough)
    } else if key == MenuKey::Char('s') || key == MenuKey::Char('S') {
        MultiGpuCommand::Open(Screen::Settings)
    } else {
        MultiGpuCommand::Nothing
    }
}

/// A key on the multi-GPU setup screen (`esc` for the Escape key).
pub fn handle_multi_gpu_key(key: MenuKey, esc: bool) -> (cmd: MultiGpuCommand)
    ensures
        cmd == multi_gpu_command(key, esc),
{
    if esc {
        return MultiGpuCommand::Back;
    }
    match key {
        MenuKey::Char('p') | MenuKey::Char('P') => MultiGpuCommand::Open(Screen::PciPassthrough),
        MenuKey::Char('s') | MenuKey::Char('S') => MultiGpuCommand::Open(Screen::Settings),
        _ => MultiGpuCommand::Nothing,
    }
}

/// A boot VGA GPU in an IOMMU group: one that single GPU passthrough can take.
pub open spec fn single_gpu_ready(d: PciDevice) -> bool {
    d.is_boot_vga && is_gpu_class(d.class_code) && d.iommu_group is Some
}

/// The GPU that a single GPU setup is prepared for: the first device that
/// single GPU passthrough can take or, where none can, the first boot VGA
/// device even without an IOMMU group; `None` where there is no boot VGA
/// device.
pub fn single_gpu_candidate(devices: &[PciDevice]) -> (res: Option<usize>)
    ensures
        match res {
            Some(i) => {
                &&& i < devices@.len()
                &&& (single_gpu_ready(devices@[i as int]) && forall|j: int|
                    0 <= j < i ==> !single_gpu_ready(#[trigger] devices@[j]))
                    || (devices@[i as int].is_boot_vga && (forall|j: int|
                    0 <= j < devices@.len() ==> !single_gpu_ready(#[trigger] devices@[j]))
                    && forall|j: int| 0 <= j < i ==> !(#[trigger] devices@[j]).is_boot_vga)
            },
            None => forall|j: int|
                0 <= j < devices@.len() ==> !(#[trigger] devices@[j]).is_boot_vga,
        },
{
    let mut i: usize = 0;
    while i < devices.len()
        invariant
            i <= devices@.len(),
            forall|j: int| 0 <= j < i ==> !single_gpu_ready(#[trigger] devices@[j]),
        decreases devices@.len() - i,
    {
        if devices[i].can_single_gpu_passthrough() {
            return Some(i);
        }
        i = i + 1;
    }
    let mut k: usize = 0;
    while k < devices.len()
        invariant
            k <= devices@.len(),
            forall|j: int| 0 <= j < devices@.len() ==> !single_gpu_ready(#[trigger] devices@[j]),
            forall|j: int| 0 <= j < k ==> !(#[trigger] devices@[j]).is_boot_vga,
        decreases devices@.len() - k,
    {
        if devices[k].is_boot_vga {
            return Some(k);
        }
        k = k + 1;
    }
    None
}

} // verus!
