//! PCI device model, GPU classification and VFIO passthrough arguments.

use vstd::prelude::*;
use crate::text::{
    chars_of, count_char, count_char_in, dec, ends_with, has_suffix, find_char, hex, index_of, join, join_strings,
    lemma_index_of_bounds, parse_unsigned, parse_unsigned_range, push_dec, push_hex, slice_range,
    str_eq, string_of, trim, trim_range, trim_start_all, trim_start_all_range, trim_ws, views,
};
use self::class_codes::{
    AUDIO_DEVICE, CONTROLLER_3D, DISPLAY_CONTROLLER, ENCRYPTION, HOST_BRIDGE, INSTRUMENTATION,
    ISA_BRIDGE, NETWORK_CONTROLLER, NVME_CONTROLLER, OTHER_BRIDGE, PCI_BRIDGE, PCI_BRIDGE_SUB,
    SATA_CONTROLLER, SERIAL_CONTROLLER, SIGNAL_PROC, SMBUS, USB_CONTROLLER, VGA_COMPATIBLE,
};

pub mod class_codes;

verus! {

/// Device IDs of the graphics cores of AMD APUs (Carrizo through Strix Halo).
pub open spec fn is_amd_apu_device(device_id: u16) -> bool {
    ||| device_id == 0x9874
    ||| device_id == 0x98e4
    ||| device_id == 0x15dd
    ||| device_id == 0x15d8
    ||| device_id == 0x1636
    ||| device_id == 0x1638
    ||| device_id == 0x164c
    ||| device_id == 0x15e7
    ||| device_id == 0x163f
    ||| device_id == 0x1681
    ||| device_id == 0x1506
    ||| device_id == 0x164e
    ||| device_id == 0x15bf
    ||| device_id == 0x15c8
    ||| device_id == 0x13c0
    ||| device_id == 0x150e
    ||| device_id == 0x1586
}

/// Whether `device_id` is the graphics core of an AMD APU.
pub fn amd_apu_device(device_id: u16) -> (res: bool)
    ensures
        res == is_amd_apu_device(device_id),
{
    match device_id {
        0x9874 | 0x98e4 | 0x15dd | 0x15d8 | 0x1636 | 0x1638 | 0x164c | 0x15e7 | 0x163f | 0x1681
        | 0x1506 | 0x164e | 0x15bf | 0x15c8 | 0x13c0 | 0x150e | 0x1586 => true,
        _ => false,
    }
}

/// A PCI device discovered on the system.
#[derive(Debug)]
pub struct PciDevice {
    /// PCI address in format "0000:01:00.0"
    pub address: String,
    /// Vendor ID (e.g., 0x10de for NVIDIA)
    pub vendor_id: u16,
    /// Device ID
    pub device_id: u16,
    /// PCI class code (e.g., 0x030000 for VGA)
    pub class_code: u32,
    /// Human-readable vendor name
    pub vendor_name: String,
    /// Human-readable device name
    pub device_name: String,
    /// Current kernel driver (e.g., "nvidia", "vfio-pci")
    pub driver: Option<String>,
    /// IOMMU group number
    pub iommu_group: Option<u32>,
    /// Whether this is the boot VGA device
    pub is_boot_vga: bool,
    /// Subsystem vendor ID
    pub subsystem_vendor_id: u16,
    /// Subsystem device ID
    pub subsystem_device_id: u16,
}

/// A copy of an optional string.
pub fn clone_opt_string(o: &Option<String>) -> (r: Option<String>)
    ensures
        r == *o,
{
    match o {
        Some(s) => Some(s.clone()),
        None => None,
    }
}

impl Clone for PciDevice {
    fn clone(&self) -> (res: Self)
        ensures
            res == *self,
    {
        PciDevice {
            address: self.address.clone(),
            vendor_id: self.vendor_id,
            device_id: self.device_id,
            class_code: self.class_code,
            vendor_name: self.vendor_name.clone(),
            device_name: self.device_name.clone(),
            driver: clone_opt_string(&self.driver),
            iommu_group: self.iommu_group,
            is_boot_vga: self.is_boot_vga,
            subsystem_vendor_id: self.subsystem_vendor_id,
            subsystem_device_id: self.subsystem_device_id,
        }
    }
}

/// Class code without its programming interface byte.
pub open spec fn class_base(c: u32) -> u32 {
    c & 0xFFFF00
}

/// Base class byte moved to the top (`c & 0xFF0000`).
pub open spec fn class_main(c: u32) -> u32 {
    c & 0xFF0000
}

/// GPU classes: VGA, 3D and display controllers.
pub open spec fn is_gpu_class(c: u32) -> bool {
    class_base(c) == VGA_COMPATIBLE || class_base(c) == CONTROLLER_3D || class_base(c)
        == DISPLAY_CONTROLLER
}

/// Storage classes: NVMe, SATA and every mass-storage controller.
pub open spec fn is_storage_class(c: u32) -> bool {
    class_base(c) == NVME_CONTROLLER || class_base(c) == SATA_CONTROLLER || class_main(c)
        == 0x010000
}

/// Classes of host infrastructure that is never passed through.
pub open spec fn is_infrastructure_class(c: u32) -> bool {
    class_main(c) == 0x060000 || class_base(c) == SMBUS || class_base(c) == SIGNAL_PROC
        || class_base(c) == ENCRYPTION || class_base(c) == INSTRUMENTATION
}

/// Description of a class code as `PciDevice::class_description` gives it.
pub open spec fn device_class_text(c: u32) -> Seq<char> {
    let b = class_base(c);
    if b == VGA_COMPATIBLE {
        "VGA Controller"@
    } else if b == CONTROLLER_3D {
        "3D Controller"@
    } else if b == DISPLAY_CONTROLLER {
        "Display Controller"@
    } else if b == AUDIO_DEVICE {
        "Audio Device"@
    } else if b == USB_CONTROLLER {
        "USB Controller"@
    } else if b == NETWORK_CONTROLLER {
        "Network Controller"@
    } else if b == NVME_CONTROLLER {
        "NVMe Controller"@
    } else if b == SATA_CONTROLLER {
        "SATA Controller"@
    } else if b == SERIAL_CONTROLLER {
        "Serial Controller"@
    } else if b == HOST_BRIDGE {
        "Host Bridge"@
    } else if b == ISA_BRIDGE {
        "ISA Bridge"@
    } else if b == PCI_BRIDGE || b == PCI_BRIDGE_SUB {
        "PCI Bridge"@
    } else if b == OTHER_BRIDGE {
        "Bridge Device"@
    } else if b == SMBUS {
        "SMBus Controller"@
    } else if b == SIGNAL_PROC {
        "Signal Processor"@
    } else if b == ENCRYPTION {
        "Encryption Controller"@
    } else {
        "PCI Device"@
    }
}

/// A device worth passing through on its own: a USB, network, storage or
/// audio controller in an IOMMU group (no GPU, no infrastructure).
pub open spec fn passthrough_candidate(d: PciDevice) -> bool {
    &&& !is_infrastructure_class(d.class_code)
    &&& !is_gpu_class(d.class_code)
    &&& d.iommu_group is Some
    &&& (class_base(d.class_code) == USB_CONTROLLER || class_base(d.class_code) == NETWORK_CONTROLLER
        || is_storage_class(d.class_code) || class_base(d.class_code) == AUDIO_DEVICE)
}

/// Name of a device as `PciDevice::display_name` gives it.
pub open spec fn pci_display_name(d: PciDevice) -> Seq<char> {
    if d.device_name@.len() > 0 {
        if d.vendor_name@.len() > 0 {
            d.vendor_name@ + " "@ + d.device_name@
        } else {
            d.device_name@
        }
    } else {
        "PCI Device "@ + hex(d.vendor_id as nat, 4) + ":"@ + hex(d.device_id as nat, 4)
    }
}

/// Arguments of `PciDevice::to_qemu_args`.
pub open spec fn pci_qemu_args(d: PciDevice, is_primary_gpu: bool) -> Seq<Seq<char>> {
    seq![
        "-device"@,
        "vfio-pci,host="@ + d.address@ + (if is_primary_gpu && is_gpu_class(d.class_code) {
            ",multifunction=on"@
        } else {
            seq![]
        }),
    ]
}

impl PciDevice {
    /// Whether this is a GPU (VGA, 3D controller, or display controller).
    pub fn is_gpu(&self) -> (res: bool)
        ensures
            res == is_gpu_class(self.class_code),
    {
        let class_base = self.class_code & 0xFFFF00;
        class_base == VGA_COMPATIBLE || class_base == CONTROLLER_3D || class_base
            == DISPLAY_CONTROLLER
    }

    /// Whether this is a VGA-compatible controller.
    pub fn is_vga(&self) -> (res: bool)
        ensures
            res == (class_base(self.class_code) == VGA_COMPATIBLE),
    {
        (self.class_code & 0xFFFF00) == VGA_COMPATIBLE
    }

    /// Whether this is an audio device (likely a GPU's audio companion).
    pub fn is_audio(&self) -> (res: bool)
        ensures
            res == (class_base(self.class_code) == AUDIO_DEVICE),
    {
        (self.class_code & 0xFFFF00) == AUDIO_DEVICE
    }

    /// Whether this is a USB controller.
    pub fn is_usb_controller(&self) -> (res: bool)
        ensures
            res == (class_base(self.class_code) == USB_CONTROLLER),
    {
        (self.class_code & 0xFFFF00) == USB_CONTROLLER
    }

    /// Whether this is a network controller.
    pub fn is_network_controller(&self) -> (res: bool)
        ensures
            res == (class_base(self.class_code) == NETWORK_CONTROLLER),
    {
        (self.class_code & 0xFFFF00) == NETWORK_CONTROLLER
    }

    /// Whether this is a storage controller (NVMe, SATA, any mass storage class).
    pub fn is_storage_controller(&self) -> (res: bool)
        ensures
            res == is_storage_class(self.class_code),
    {
        let class_base = self.class_code & 0xFFFF00;
        class_base == NVME_CONTROLLER || class_base == SATA_CONTROLLER || (self.class_code
            & 0xFF0000) == 0x010000
    }

    /// Whether this is an infrastructure device (bridge, SMBus, etc.).
    pub fn is_infrastructure(&self) -> (res: bool)
        ensures
            res == is_infrastructure_class(self.class_code),
    {
        let class_base = self.class_code & 0xFFFF00;
        let class_main = self.class_code & 0xFF0000;
        class_main == 0x060000 || class_base == SMBUS || class_base == SIGNAL_PROC || class_base
            == ENCRYPTION || class_base == INSTRUMENTATION
    }

    /// Whether this device suits non-GPU passthrough (USB, network, storage or
    /// audio controller in an IOMMU group).
    pub fn is_passthrough_candidate(&self) -> (res: bool)
        ensures
            res == passthrough_candidate(*self),
    {
        !self.is_infrastructure() && !self.is_gpu() && self.iommu_group.is_some() && (
        self.is_usb_controller() || self.is_network_controller() || self.is_storage_controller()
            || self.is_audio())
    }

    /// Whether this is an NVIDIA device.
    pub fn is_nvidia(&self) -> (res: bool)
        ensures
            res == (self.vendor_id == 0x10de),
    {
        self.vendor_id == 0x10de
    }

    /// Whether this is an AMD/ATI device.
    pub fn is_amd(&self) -> (res: bool)
        ensures
            res == (self.vendor_id == 0x1002),
    {
        self.vendor_id == 0x1002
    }

    /// Whether this GPU is integrated in the CPU: an AMD APU graphics core,
    /// or the Intel graphics core, which always sits at 00:02.0 (NVIDIA GPUs
    /// are always discrete).
    pub fn is_integrated_gpu(&self) -> (res: bool)
        ensures
            res == (is_gpu_class(self.class_code) && ((self.vendor_id == 0x1002
                && is_amd_apu_device(self.device_id)) || (self.vendor_id == 0x8086 && has_suffix(
                self.address@,
                ":00:02.0"@,
            )))),
    {
        if !self.is_gpu() {
            return false;
        }
        if self.vendor_id == 0x1002 {
            amd_apu_device(self.device_id)
        } else if self.vendor_id == 0x8086 {
            ends_with(self.address.as_str(), ":00:02.0")
        } else {
            false
        }
    }

    /// Whether this is an Intel device.
    pub fn is_intel(&self) -> (res: bool)
        ensures
            res == (self.vendor_id == 0x8086),
    {
        self.vendor_id == 0x8086
    }

    /// Display string: "vendor device", the device name alone, or the IDs.
    pub fn display_name(&self) -> (res: String)
        ensures
            res@ == pci_display_name(*self),
    {
        if self.device_name.as_str().unicode_len() > 0 {
            if self.vendor_name.as_str().unicode_len() > 0 {
                let mut s = self.vendor_name.clone();
                s.append(" ");
                s.append(self.device_name.as_str());
                s
            } else {
                self.device_name.clone()
            }
        } else {
            let mut s = String::from_str("PCI Device ");
            push_hex(&mut s, self.vendor_id as u64, 4);
            s.append(":");
            push_hex(&mut s, self.device_id as u64, 4);
            s
        }
    }

    /// Short vendor name.
    pub fn short_vendor(&self) -> (res: &str)
        ensures
            res@ == (if self.vendor_id == 0x10de {
                "NVIDIA"@
            } else if self.vendor_id == 0x1002 {
                "AMD"@
            } else if self.vendor_id == 0x8086 {
                "Intel"@
            } else if self.vendor_name@.len() > 0 {
                self.vendor_name@
            } else {
                "Unknown"@
            }),
    {
        if self.is_nvidia() {
            "NVIDIA"
        } else if self.is_amd() {
            "AMD"
        } else if self.is_intel() {
            "Intel"
        } else if self.vendor_name.as_str().unicode_len() > 0 {
            self.vendor_name.as_str()
        } else {
            "Unknown"
        }
    }

    /// Description of the device class.
    pub fn class_description(&self) -> (res: &'static str)
        ensures
            res@ == device_class_text(self.class_code),
    {
        let b = self.class_code & 0xFFFF00;
        if b == VGA_COMPATIBLE {
            "VGA Controller"
        } else if b == CONTROLLER_3D {
            "3D Controller"
        } else if b == DISPLAY_CONTROLLER {
            "Display Controller"
        } else if b == AUDIO_DEVICE {
            "Audio Device"
        } else if b == USB_CONTROLLER {
            "USB Controller"
        } else if b == NETWORK_CONTROLLER {
            "Network Controller"
        } else if b == NVME_CONTROLLER {
            "NVMe Controller"
        } else if b == SATA_CONTROLLER {
            "SATA Controller"
        } else if b == SERIAL_CONTROLLER {
            "Serial Controller"
        } else if b == HOST_BRIDGE {
            "Host Bridge"
        } else if b == ISA_BRIDGE {
            "ISA Bridge"
        } else if b == PCI_BRIDGE || b == PCI_BRIDGE_SUB {
            "PCI Bridge"
        } else if b == OTHER_BRIDGE {
            "Bridge Device"
        } else if b == SMBUS {
            "SMBus Controller"
        } else if b == SIGNAL_PROC {
            "Signal Processor"
        } else if b == ENCRYPTION {
            "Encryption Controller"
        } else {
            "PCI Device"
        }
    }

    /// Whether the device is bound to the vfio-pci driver.
    pub fn is_vfio_bound(&self) -> (res: bool)
        ensures
            res == (self.driver matches Some(d) && d@ == "vfio-pci"@),
    {
        match &self.driver {
            Some(d) => str_eq(d.as_str(), "vfio-pci"),
            None => false,
        }
    }

    /// Whether passthrough is possible (not boot VGA, in an IOMMU group).
    pub fn can_passthrough(&self) -> (res: bool)
        ensures
            res == (!self.is_boot_vga && self.iommu_group is Some),
    {
        !self.is_boot_vga && self.iommu_group.is_some()
    }

    /// Whether this is a boot VGA GPU in an IOMMU group (single GPU passthrough).
    pub fn can_single_gpu_passthrough(&self) -> (res: bool)
        ensures
            res == (self.is_boot_vga && is_gpu_class(self.class_code) && self.iommu_group is Some),
    {
        self.is_boot_vga && self.is_gpu() && self.iommu_group.is_some()
    }

    /// QEMU vfio-pci arguments; a primary GPU is presented as multifunction.
    pub fn to_qemu_args(&self, is_primary_gpu: bool) -> (res: Vec<String>)
        ensures
            views(res@) == pci_qemu_args(*self, is_primary_gpu),
    {
        let mut args: Vec<String> = Vec::new();
        args.push(String::from_str("-device"));
        let mut device_str = String::from_str("vfio-pci,host=");
        device_str.append(self.address.as_str());
        if is_primary_gpu && self.is_gpu() {
            device_str.append(",multifunction=on");
        }
        args.push(device_str);
        proof {
            assert(views(args@) =~= pci_qemu_args(*self, is_primary_gpu));
        }
        args
    }
}

} // verus!

verus! {

/// Vendor name for well-known PCI vendor IDs, empty otherwise.
pub open spec fn known_vendor_name(vendor_id: u16) -> Seq<char> {
    match vendor_id {
        0x10de => "NVIDIA"@,
        0x1002 => "AMD/ATI"@,
        0x8086 => "Intel"@,
        0x1022 => "AMD"@,
        0x14e4 => "Broadcom"@,
        0x10ec => "Realtek"@,
        0x1b4b => "Marvell"@,
        0x144d => "Samsung"@,
        0x15b7 => "SanDisk"@,
        0x1987 => "Phison"@,
        0x1c5c => "SK hynix"@,
        0x126f => "Silicon Motion"@,
        0x1e0f => "KIOXIA"@,
        _ => seq![],
    }
}

/// Marketing names of common NVIDIA and AMD GPUs and their audio functions.
pub open spec fn known_device_name(vendor_id: u16, device_id: u16) -> Option<Seq<char>> {
    if vendor_id == 0x10de {
        match device_id {
            0x2B84 => Some("GeForce RTX 5090"@),
            0x2B85 => Some("GeForce RTX 5080"@),
            0x2B86 => Some("GeForce RTX 5070 Ti"@),
            0x2B87 => Some("GeForce RTX 5070"@),
            0x2B88 => Some("GeForce RTX 5060 Ti"@),
            0x2B89 => Some("GeForce RTX 5060"@),
            0x2684 => Some("GeForce RTX 4090"@),
            0x2702 => Some("GeForce RTX 4080 SUPER"@),
            0x2704 => Some("GeForce RTX 4080"@),
            0x2705 => Some("GeForce RTX 4070 Ti SUPER"@),
            0x2782 => Some("GeForce RTX 4070 Ti"@),
            0x2783 => Some("GeForce RTX 4070 SUPER"@),
            0x2786 => Some("GeForce RTX 4070"@),
            0x2860 => Some("GeForce RTX 4060"@),
            0x2882 => Some("GeForce RTX 4060 Ti"@),
            0x2204 => Some("GeForce RTX 3090"@),
            0x2206 => Some("GeForce RTX 3080"@),
            0x2208 => Some("GeForce RTX 3080 Ti"@),
            0x2484 => Some("GeForce RTX 3070"@),
            0x2488 => Some("GeForce RTX 3070 Ti"@),
            0x2504 => Some("GeForce RTX 3060 Ti"@),
            0x2544 => Some("GeForce RTX 3060"@),
            0x1E04 => Some("GeForce RTX 2080 Ti"@),
            0x1E82 => Some("GeForce RTX 2080"@),
            0x1E84 => Some("GeForce RTX 2070 SUPER"@),
            0x1F02 => Some("GeForce RTX 2070"@),
            0x1F07 => Some("GeForce RTX 2060 SUPER"@),
            0x1F08 => Some("GeForce RTX 2060"@),
            0x10f9 | 0x10f8 | 0x10f7 | 0x228b | 0x22bd => Some("HD Audio Controller"@),
            _ => None,
        }
    } else if vendor_id == 0x1002 {
        match device_id {
            0x744c => Some("Radeon RX 7900 XTX"@),
            0x7448 => Some("Radeon RX 7900 XT"@),
            0x747e => Some("Radeon RX 7900 GRE"@),
            0x7470 => Some("Radeon RX 7800 XT"@),
            0x7480 => Some("Radeon RX 7700 XT"@),
            0x73bf => Some("Radeon RX 6900 XT"@),
            0x73a5 => Some("Radeon RX 6800 XT"@),
            0x73a3 => Some("Radeon RX 6800"@),
            0x73df => Some("Radeon RX 6700 XT"@),
            0x7500 => Some("Radeon RX 9070 XT"@),
            0x7501 => Some("Radeon RX 9070"@),
            0x7502 => Some("Radeon RX 9600 XT"@),
            0x7503 => Some("Radeon RX 9600"@),
            0xab38 | 0xab28 => Some("HD Audio Controller"@),
            _ => None,
        }
    } else {
        None
    }
}

/// Generic description of a class code used when no device name is known.
pub open spec fn class_text(class_code: u32) -> Seq<char> {
    let b = class_base(class_code);
    if b == VGA_COMPATIBLE {
        "VGA Controller"@
    } else if b == CONTROLLER_3D {
        "3D Controller"@
    } else if b == DISPLAY_CONTROLLER {
        "Display Controller"@
    } else if b == AUDIO_DEVICE {
        "Audio Device"@
    } else if b == USB_CONTROLLER {
        "USB Controller"@
    } else if b == NETWORK_CONTROLLER {
        "Network Controller"@
    } else if b == NVME_CONTROLLER {
        "NVMe Controller"@
    } else {
        match (class_code >> 16) & 0xFF {
            0x01 => "Storage Controller"@,
            0x02 => "Network Controller"@,
            0x03 => "Display Controller"@,
            0x04 => "Multimedia Controller"@,
            0x05 => "Memory Controller"@,
            0x06 => "Bridge"@,
            0x07 => "Communication Controller"@,
            0x08 => "System Peripheral"@,
            0x09 => "Input Device"@,
            0x0a => "Docking Station"@,
            0x0b => "Processor"@,
            0x0c => "Serial Bus Controller"@,
            0x0d => "Wireless Controller"@,
            0x0e => "Intelligent I/O"@,
            0x0f => "Satellite Controller"@,
            0x10 => "Encryption Controller"@,
            0x11 => "Signal Processing"@,
            _ => "Unknown Device"@,
        }
    }
}

/// Known name of a device, if it is one of the common GPUs.
pub fn get_known_device_name(vendor_id: u16, device_id: u16) -> (res: Option<String>)
    ensures
        match known_device_name(vendor_id, device_id) {
            Some(n) => res matches Some(r) && r@ == n,
            None => res is None,
        },
{
    if vendor_id == 0x10de {
        let name = match device_id {
            0x2B84 => "GeForce RTX 5090",
            0x2B85 => "GeForce RTX 5080",
            0x2B86 => "GeForce RTX 5070 Ti",
            0x2B87 => "GeForce RTX 5070",
            0x2B88 => "GeForce RTX 5060 Ti",
            0x2B89 => "GeForce RTX 5060",
            0x2684 => "GeForce RTX 4090",
            0x2702 => "GeForce RTX 4080 SUPER",
            0x2704 => "GeForce RTX 4080",
            0x2705 => "GeForce RTX 4070 Ti SUPER",
            0x2782 => "GeForce RTX 4070 Ti",
            0x2783 => "GeForce RTX 4070 SUPER",
            0x2786 => "GeForce RTX 4070",
            0x2860 => "GeForce RTX 4060",
            0x2882 => "GeForce RTX 4060 Ti",
            0x2204 => "GeForce RTX 3090",
            0x2206 => "GeForce RTX 3080",
            0x2208 => "GeForce RTX 3080 Ti",
            0x2484 => "GeForce RTX 3070",
            0x2488 => "GeForce RTX 3070 Ti",
            0x2504 => "GeForce RTX 3060 Ti",
            0x2544 => "GeForce RTX 3060",
            0x1E04 => "GeForce RTX 2080 Ti",
            0x1E82 => "GeForce RTX 2080",
            0x1E84 => "GeForce RTX 2070 SUPER",
            0x1F02 => "GeForce RTX 2070",
            0x1F07 => "GeForce RTX 2060 SUPER",
            0x1F08 => "GeForce RTX 2060",
            0x10f9 | 0x10f8 | 0x10f7 | 0x228b | 0x22bd => "HD Audio Controller",
            _ => {
                return None;
            },
        };
        return Some(String::from_str(name));
    }
    if vendor_id == 0x1002 {
        let name = match device_id {
            0x744c => "Radeon RX 7900 XTX",
            0x7448 => "Radeon RX 7900 XT",
            0x747e => "Radeon RX 7900 GRE",
            0x7470 => "Radeon RX 7800 XT",
            0x7480 => "Radeon RX 7700 XT",
            0x73bf => "Radeon RX 6900 XT",
            0x73a5 => "Radeon RX 6800 XT",
            0x73a3 => "Radeon RX 6800",
            0x73df => "Radeon RX 6700 XT",
            0x7500 => "Radeon RX 9070 XT",
            0x7501 => "Radeon RX 9070",
            0x7502 => "Radeon RX 9600 XT",
            0x7503 => "Radeon RX 9600",
            0xab38 | 0xab28 => "HD Audio Controller",
            _ => {
                return None;
            },
        };
        return Some(String::from_str(name));
    }
    None
}

/// Generic description of a class code.
pub fn get_class_description(class_code: u32) -> (res: &'static str)
    ensures
        res@ == class_text(class_code),
{
    let b = class_code & 0xFFFF00;
    if b == VGA_COMPATIBLE {
        "VGA Controller"
    } else if b == CONTROLLER_3D {
        "3D Controller"
    } else if b == DISPLAY_CONTROLLER {
        "Display Controller"
    } else if b == AUDIO_DEVICE {
        "Audio Device"
    } else if b == USB_CONTROLLER {
        "USB Controller"
    } else if b == NETWORK_CONTROLLER {
        "Network Controller"
    } else if b == NVME_CONTROLLER {
        "NVMe Controller"
    } else {
        match (class_code >> 16) & 0xFF {
            0x01 => "Storage Controller",
            0x02 => "Network Controller",
            0x03 => "Display Controller",
            0x04 => "Multimedia Controller",
            0x05 => "Memory Controller",
            0x06 => "Bridge",
            0x07 => "Communication Controller",
            0x08 => "System Peripheral",
            0x09 => "Input Device",
            0x0a => "Docking Station",
            0x0b => "Processor",
            0x0c => "Serial Bus Controller",
            0x0d => "Wireless Controller",
            0x0e => "Intelligent I/O",
            0x0f => "Satellite Controller",
            0x10 => "Encryption Controller",
            0x11 => "Signal Processing",
            _ => "Unknown Device",
        }
    }
}

/// Vendor and device names: the known names, or the class description.
pub fn get_pci_names(vendor_id: u16, device_id: u16, class_code: u32) -> (res: (String, String))
    ensures
        res.0@ == known_vendor_name(vendor_id),
        res.1@ == (match known_device_name(vendor_id, device_id) {
            Some(n) => n,
            None => class_text(class_code),
        }),
{
    let vendor_name = match vendor_id {
        0x10de => String::from_str("NVIDIA"),
        0x1002 => String::from_str("AMD/ATI"),
        0x8086 => String::from_str("Intel"),
        0x1022 => String::from_str("AMD"),
        0x14e4 => String::from_str("Broadcom"),
        0x10ec => String::from_str("Realtek"),
        0x1b4b => String::from_str("Marvell"),
        0x144d => String::from_str("Samsung"),
        0x15b7 => String::from_str("SanDisk"),
        0x1987 => String::from_str("Phison"),
        0x1c5c => String::from_str("SK hynix"),
        0x126f => String::from_str("Silicon Motion"),
        0x1e0f => String::from_str("KIOXIA"),
        _ => String::new(),
    };
    let device_name = match get_known_device_name(vendor_id, device_id) {
        Some(n) => n,
        None => String::from_str(get_class_description(class_code)),
    };
    (vendor_name, device_name)
}

} // verus!

verus! {

/// Status of multi-GPU passthrough prerequisites.
#[derive(Debug)]
pub struct MultiGpuPassthroughStatus {
    /// IOMMU is enabled in kernel
    pub iommu_enabled: bool,
    /// VFIO modules are loaded
    pub vfio_loaded: bool,
    /// Number of available GPUs (excluding boot VGA)
    pub available_gpus: usize,
    /// List of GPUs that can be passed through
    pub passthrough_gpus: Vec<PciDevice>,
    /// Boot VGA device (cannot be passed through)
    pub boot_vga: Option<PciDevice>,
    /// Error messages for any failed checks
    pub errors: Vec<String>,
    /// Warning messages
    pub warnings: Vec<String>,
}

/// The problems that keep multi-GPU passthrough from being ready, in order.
pub open spec fn multi_gpu_issues(s: MultiGpuPassthroughStatus) -> Seq<Seq<char>> {
    (if !s.iommu_enabled {
        seq!["IOMMU disabled"@]
    } else {
        seq![]
    }) + (if !s.vfio_loaded {
        seq!["VFIO not loaded"@]
    } else {
        seq![]
    }) + (if s.passthrough_gpus@.len() == 0 {
        seq!["No passthrough GPUs"@]
    } else {
        seq![]
    })
}

/// Multi-GPU passthrough is ready: IOMMU on, VFIO loaded, a spare GPU.
pub open spec fn multi_gpu_ready(s: MultiGpuPassthroughStatus) -> bool {
    s.iommu_enabled && s.vfio_loaded && s.passthrough_gpus@.len() > 0
}

/// Text of `MultiGpuPassthroughStatus::summary`.
pub open spec fn multi_gpu_summary(s: MultiGpuPassthroughStatus) -> Seq<char> {
    if multi_gpu_ready(s) {
        let n = s.passthrough_gpus@.len();
        "Ready ("@ + dec(n) + " GPU"@ + (if n == 1 {
            seq![]
        } else {
            "s"@
        }) + " available)"@
    } else {
        "Not ready: "@ + join(multi_gpu_issues(s), ", "@)
    }
}

impl MultiGpuPassthroughStatus {
    /// Whether all prerequisites for GPU passthrough are met.
    pub fn is_ready(&self) -> (res: bool)
        ensures
            res == multi_gpu_ready(*self),
    {
        self.iommu_enabled && self.vfio_loaded && self.passthrough_gpus.len() > 0
    }

    /// A one-line status message.
    pub fn summary(&self) -> (res: String)
        ensures
            res@ == multi_gpu_summary(*self),
    {
        if self.is_ready() {
            let n = self.passthrough_gpus.len();
            let mut s = String::from_str("Ready (");
            push_dec(&mut s, n as u64);
            s.append(" GPU");
            if n != 1 {
                s.append("s");
            }
            s.append(" available)");
            proof {
                assert(s@ =~= multi_gpu_summary(*self));
            }
            s
        } else {
            let mut issues: Vec<String> = Vec::new();
            if !self.iommu_enabled {
                issues.push(String::from_str("IOMMU disabled"));
            }
            if !self.vfio_loaded {
                issues.push(String::from_str("VFIO not loaded"));
            }
            if self.passthrough_gpus.len() == 0 {
                issues.push(String::from_str("No passthrough GPUs"));
            }
            proof {
                assert(views(issues@) =~= multi_gpu_issues(*self));
            }
            let mut s = String::from_str("Not ready: ");
            s.append(join_strings(&issues, ", ").as_str());
            s
        }
    }
}

/// GPUs that can be handed to a guest: not the boot VGA, in an IOMMU group.
pub open spec fn passthrough_gpus_of(ds: Seq<PciDevice>) -> Seq<PciDevice>
    decreases ds.len(),
{
    if ds.len() == 0 {
        seq![]
    } else {
        let rest = passthrough_gpus_of(ds.drop_last());
        let d = ds.last();
        if is_gpu_class(d.class_code) && !d.is_boot_vga && d.iommu_group is Some {
            rest.push(d)
        } else {
            rest
        }
    }
}

/// A GPU that is not the boot VGA device and sits in an IOMMU group.
pub open spec fn spare_gpu(d: PciDevice) -> bool {
    is_gpu_class(d.class_code) && !d.is_boot_vga && d.iommu_group is Some
}

/// `spare_gpu` as a predicate over devices.
pub open spec fn spare_gpu_pred() -> spec_fn(PciDevice) -> bool {
    |d: PciDevice| spare_gpu(d)
}

/// The GPUs offered for passthrough are exactly the input devices, in order,
/// that are of a GPU class, not the boot VGA device, and in an IOMMU group:
/// the boot VGA GPU is never among them.
pub proof fn lemma_passthrough_gpus_are_spare_gpus(ds: Seq<PciDevice>)
    ensures
        passthrough_gpus_of(ds) == ds.filter(spare_gpu_pred()),
        forall|i: int|
            0 <= i < passthrough_gpus_of(ds).len() ==> {
                let g = #[trigger] passthrough_gpus_of(ds)[i];
                &&& is_gpu_class(g.class_code)
                &&& !g.is_boot_vga
                &&& g.iommu_group is Some
            },
    decreases ds.len(),
{
    reveal_with_fuel(Seq::filter, 1);
    if ds.len() > 0 {
        lemma_passthrough_gpus_are_spare_gpus(ds.drop_last());
    }
    assert(passthrough_gpus_of(ds) == ds.filter(spare_gpu_pred()));
    ds.filter_lemma(spare_gpu_pred());
}

/// The last boot VGA GPU of the list.
pub open spec fn boot_vga_of(ds: Seq<PciDevice>) -> Option<PciDevice>
    decreases ds.len(),
{
    if ds.len() == 0 {
        None
    } else {
        let d = ds.last();
        if is_gpu_class(d.class_code) && d.is_boot_vga {
            Some(d)
        } else {
            boot_vga_of(ds.drop_last())
        }
    }
}

/// One warning per GPU that is not the boot VGA and has no IOMMU group.
pub open spec fn gpu_group_warnings(ds: Seq<PciDevice>) -> Seq<Seq<char>>
    decreases ds.len(),
{
    if ds.len() == 0 {
        seq![]
    } else {
        let rest = gpu_group_warnings(ds.drop_last());
        let d = ds.last();
        if is_gpu_class(d.class_code) && !d.is_boot_vga && d.iommu_group is None {
            rest.push("GPU "@ + d.address@ + " has no IOMMU group - passthrough not possible"@)
        } else {
            rest
        }
    }
}

/// Error reported when the IOMMU is off.
pub open spec fn iommu_error_text() -> Seq<char> {
    "IOMMU is not enabled. Add intel_iommu=on or amd_iommu=on to kernel parameters."@
}

/// Error reported when the VFIO modules are not loaded.
pub open spec fn vfio_error_text() -> Seq<char> {
    "VFIO modules not loaded. Run: sudo modprobe vfio-pci"@
}

/// Error reported when the boot GPU is the only one.
pub open spec fn single_gpu_error_text() -> Seq<char> {
    "Only one GPU found (boot VGA). Need a secondary GPU for passthrough."@
}

/// Multi-GPU passthrough prerequisites, from the IOMMU and VFIO probes and the
/// enumerated PCI devices (`None` when enumeration failed).
pub fn check_multi_gpu_passthrough_status(
    iommu_enabled: bool,
    vfio_loaded: bool,
    devices: Option<Vec<PciDevice>>,
) -> (status: MultiGpuPassthroughStatus)
    ensures
        status.iommu_enabled == iommu_enabled,
        status.vfio_loaded == vfio_loaded,
        ({
            let ds = match devices {
                Some(v) => v@,
                None => Seq::<PciDevice>::empty(),
            };
            &&& status.passthrough_gpus@ == passthrough_gpus_of(ds)
            &&& status.boot_vga == boot_vga_of(ds)
            &&& views(status.warnings@) == gpu_group_warnings(ds)
            &&& status.available_gpus == passthrough_gpus_of(ds).len()
            &&& views(status.errors@) == (if !iommu_enabled {
                seq![iommu_error_text()]
            } else {
                seq![]
            }) + (if !vfio_loaded {
                seq![vfio_error_text()]
            } else {
                seq![]
            }) + (if passthrough_gpus_of(ds).len() == 0 && boot_vga_of(ds) is Some {
                seq![single_gpu_error_text()]
            } else {
                seq![]
            })
        }),
{
    let mut errors: Vec<String> = Vec::new();
    if !iommu_enabled {
        errors.push(
            String::from_str(
                "IOMMU is not enabled. Add intel_iommu=on or amd_iommu=on to kernel parameters.",
            ),
        );
    }
    if !vfio_loaded {
        errors.push(String::from_str("VFIO modules not loaded. Run: sudo modprobe vfio-pci"));
    }
    let ghost ds = match devices {
        Some(ref v) => v@,
        None => Seq::<PciDevice>::empty(),
    };
    let ds_vec = match devices {
        Some(v) => v,
        None => Vec::new(),
    };
    let mut gpus: Vec<PciDevice> = Vec::new();
    let mut boot_vga: Option<PciDevice> = None;
    let mut warnings: Vec<String> = Vec::new();
    let mut i: usize = 0;
    while i < ds_vec.len()
        invariant
            i <= ds_vec.len(),
            ds_vec@ == ds,
            gpus@ == passthrough_gpus_of(ds.take(i as int)),
            boot_vga == boot_vga_of(ds.take(i as int)),
            views(warnings@) == gpu_group_warnings(ds.take(i as int)),
        decreases ds_vec.len() - i,
    {
        let device = &ds_vec[i];
        proof {
            assert(ds.take(i + 1).drop_last() == ds.take(i as int));
            assert(ds.take(i + 1).last() == ds[i as int]);
        }
        if device.is_gpu() {
            if device.is_boot_vga {
                boot_vga = Some(device.clone());
            } else if device.iommu_group.is_some() {
                gpus.push(device.clone());
            } else {
                let mut w = String::from_str("GPU ");
                w.append(device.address.as_str());
                w.append(" has no IOMMU group - passthrough not possible");
                warnings.push(w);
                proof {
                    assert(views(warnings@) =~= gpu_group_warnings(ds.take(i + 1)));
                }
            }
        }
        proof {
            assert(views(warnings@) =~= gpu_group_warnings(ds.take(i + 1)));
        }
        i += 1;
    }
    proof {
        assert(ds.take(ds_vec.len() as int) == ds);
    }
    let available = gpus.len();
    if available == 0 && boot_vga.is_some() {
        errors.push(
            String::from_str("Only one GPU found (boot VGA). Need a secondary GPU for passthrough."),
        );
    }
    proof {
        assert(views(errors@) =~= (if !iommu_enabled {
            seq![iommu_error_text()]
        } else {
            seq![]
        }) + (if !vfio_loaded {
            seq![vfio_error_text()]
        } else {
            seq![]
        }) + (if passthrough_gpus_of(ds).len() == 0 && boot_vga_of(ds) is Some {
            seq![single_gpu_error_text()]
        } else {
            seq![]
        }));
    }
    MultiGpuPassthroughStatus {
        iommu_enabled,
        vfio_loaded,
        available_gpus: available,
        passthrough_gpus: gpus,
        boot_vga,
        errors,
        warnings,
    }
}

} // verus!

verus! {

/// The multimedia audio class.
pub open spec fn is_audio_class(c: u32) -> bool {
    class_base(c) == AUDIO_DEVICE
}

/// First audio device of the IOMMU group other than the GPU itself.
pub open spec fn group_audio_of(gpu: PciDevice, group: Seq<PciDevice>) -> Option<PciDevice>
    decreases group.len(),
{
    if group.len() == 0 {
        None
    } else if is_audio_class(group[0].class_code) && group[0].address@ != gpu.address@ {
        Some(group[0])
    } else {
        group_audio_of(gpu, group.drop_first())
    }
}

/// First audio device at exactly `addr`.
pub open spec fn audio_at(ds: Seq<PciDevice>, addr: Seq<char>) -> Option<PciDevice>
    decreases ds.len(),
{
    if ds.len() == 0 {
        None
    } else if ds[0].address@ == addr && is_audio_class(ds[0].class_code) {
        Some(ds[0])
    } else {
        audio_at(ds.drop_first(), addr)
    }
}

/// Function 1 next to a GPU address with exactly one `'.'` ("01:00.0" gives "01:00.1").
pub open spec fn adjacent_audio_address(addr: Seq<char>) -> Option<Seq<char>> {
    if count_char(addr, '.') == 1 {
        Some(addr.take(index_of(addr, '.')) + ".1"@)
    } else {
        None
    }
}

/// The audio device paired with a GPU: one in its IOMMU group, else the
/// function-1 device at the adjacent address.
pub open spec fn gpu_audio_pair(
    gpu: PciDevice,
    all: Seq<PciDevice>,
    group: Seq<PciDevice>,
) -> Option<PciDevice> {
    if gpu.iommu_group is Some && group_audio_of(gpu, group) is Some {
        group_audio_of(gpu, group)
    } else {
        match adjacent_audio_address(gpu.address@) {
            Some(a) => audio_at(all, a),
            None => None,
        }
    }
}

/// The audio device paired with `gpu`; `group_devices` are the devices of the
/// GPU's IOMMU group (consulted only when the GPU has one).
pub fn find_gpu_audio_pair(
    gpu: &PciDevice,
    all_devices: &[PciDevice],
    group_devices: &[PciDevice],
) -> (res: Option<PciDevice>)
    ensures
        res == gpu_audio_pair(*gpu, all_devices@, group_devices@),
{
    if gpu.iommu_group.is_some() {
        let mut i: usize = 0;
        proof {
            assert(group_devices@.skip(0) == group_devices@);
        }
        while i < group_devices.len()
            invariant
                i <= group_devices@.len(),
                gpu.iommu_group is Some,
                group_audio_of(*gpu, group_devices@) == group_audio_of(
                    *gpu,
                    group_devices@.skip(i as int),
                ),
            decreases group_devices@.len() - i,
        {
            let dev = &group_devices[i];
            proof {
                assert(group_devices@.skip(i as int)[0] == group_devices@[i as int]);
                assert(group_devices@.skip(i as int).drop_first() == group_devices@.skip(i + 1));
            }
            if dev.is_audio() && dev.address != gpu.address {
                return Some(dev.clone());
            }
            i += 1;
        }
        proof {
            assert(group_devices@.skip(i as int).len() == 0);
        }
    }
    let addr = chars_of(gpu.address.as_str());
    if count_char_in(&addr, '.') != 1 {
        return None;
    }
    let dot = find_char(&addr, 0, addr.len(), '.');
    proof {
        assert(addr@.subrange(0, addr@.len() as int) == addr@);
        lemma_index_of_bounds(addr@, '.');
    }
    let mut audio_addr = string_of(slice_range(&addr, 0, dot).as_slice());
    audio_addr.append(".1");
    proof {
        assert(audio_addr@ == adjacent_audio_address(gpu.address@)->0);
    }
    let mut j: usize = 0;
    proof {
        assert(all_devices@.skip(0) == all_devices@);
    }
    while j < all_devices.len()
        invariant
            j <= all_devices@.len(),
            adjacent_audio_address(gpu.address@) == Some(audio_addr@),
            !(gpu.iommu_group is Some && group_audio_of(*gpu, group_devices@) is Some),
            audio_at(all_devices@, audio_addr@) == audio_at(all_devices@.skip(j as int), audio_addr@),
        decreases all_devices@.len() - j,
    {
        let dev = &all_devices[j];
        proof {
            assert(all_devices@.skip(j as int)[0] == all_devices@[j as int]);
            assert(all_devices@.skip(j as int).drop_first() == all_devices@.skip(j + 1));
        }
        if dev.address == audio_addr && dev.is_audio() {
            return Some(dev.clone());
        }
        j += 1;
    }
    proof {
        assert(all_devices@.skip(j as int).len() == 0);
    }
    None
}

/// Index of the first VGA controller, or the length when there is none.
pub open spec fn first_vga_index(ds: Seq<PciDevice>) -> int
    decreases ds.len(),
{
    if ds.len() == 0 {
        0
    } else if class_base(ds[0].class_code) == VGA_COMPATIBLE {
        0
    } else {
        1 + first_vga_index(ds.drop_first())
    }
}

/// Arguments for every device, the one at `primary` marked as primary GPU.
pub open spec fn passthrough_args_of(ds: Seq<PciDevice>, primary: int) -> Seq<Seq<char>>
    decreases ds.len(),
{
    if ds.len() == 0 {
        seq![]
    } else {
        passthrough_args_of(ds.drop_last(), primary) + pci_qemu_args(
            ds.last(),
            ds.len() - 1 == primary,
        )
    }
}

/// The passthrough arguments are two per device, in the devices' order:
/// `-device` and the device's `vfio-pci` option, which is marked
/// multifunction only for the device at `primary` (where it is a GPU).
pub proof fn lemma_passthrough_args_per_device(ds: Seq<PciDevice>, primary: int)
    ensures
        passthrough_args_of(ds, primary).len() == 2 * ds.len(),
        forall|i: int|
            #![trigger ds[i]]
            0 <= i < ds.len() ==> passthrough_args_of(ds, primary).subrange(2 * i, 2 * i + 2)
                == pci_qemu_args(ds[i], i == primary),
    decreases ds.len(),
{
    if ds.len() > 0 {
        let init = ds.drop_last();
        lemma_passthrough_args_per_device(init, primary);
        let a = passthrough_args_of(init, primary);
        let last = pci_qemu_args(ds.last(), ds.len() - 1 == primary);
        let full = a + last;
        assert(passthrough_args_of(ds, primary) == full);
        assert forall|i: int| #![trigger ds[i]] 0 <= i < ds.len() implies full.subrange(2 * i, 2 * i + 2)
            == pci_qemu_args(ds[i], i == primary) by {
            if i < ds.len() - 1 {
                assert(init[i] == ds[i]);
                assert(full.subrange(2 * i, 2 * i + 2) =~= a.subrange(2 * i, 2 * i + 2));
            } else {
                assert(full.subrange(2 * i, 2 * i + 2) =~= last);
            }
        }
    }
}

/// QEMU arguments passing every device through; the first VGA controller is
/// the primary GPU.
pub fn generate_passthrough_args(devices: &[PciDevice]) -> (res: Vec<String>)
    ensures
        views(res@) == passthrough_args_of(devices@, first_vga_index(devices@)),
{
    let mut p: usize = 0;
    proof {
        assert(devices@.skip(0) == devices@);
    }
    while p < devices.len() && !devices[p].is_vga()
        invariant
            p <= devices@.len(),
            first_vga_index(devices@) == p + first_vga_index(devices@.skip(p as int)),
        decreases devices@.len() - p,
    {
        proof {
            assert(devices@.skip(p as int)[0] == devices@[p as int]);
            assert(devices@.skip(p as int).drop_first() == devices@.skip(p + 1));
        }
        p += 1;
    }
    proof {
        if p < devices@.len() {
            assert(devices@.skip(p as int)[0] == devices@[p as int]);
        }
    }
    let ghost primary = first_vga_index(devices@);
    let mut args: Vec<String> = Vec::new();
    let mut i: usize = 0;
    while i < devices.len()
        invariant
            i <= devices@.len(),
            primary == p,
            views(args@) == passthrough_args_of(devices@.take(i as int), primary),
        decreases devices@.len() - i,
    {
        let a = devices[i].to_qemu_args(i == p);
        let mut k: usize = 0;
        let ghost before = views(args@);
        while k < a.len()
            invariant
                k <= a@.len(),
                views(args@) == before + views(a@).take(k as int),
            decreases a@.len() - k,
        {
            let ghost prev = views(args@);
            args.push(a[k].clone());
            proof {
                assert(views(args@) =~= prev.push(a@[k as int]@));
                assert(views(a@).take(k + 1) == views(a@).take(k as int).push(a@[k as int]@));
                assert(views(args@) =~= before + views(a@).take(k + 1));
            }
            k += 1;
        }
        proof {
            assert(views(a@).take(a@.len() as int) == views(a@));
            assert(devices@.take(i + 1).drop_last() == devices@.take(i as int));
            assert(devices@.take(i + 1).last() == devices@[i as int]);
        }
        i += 1;
    }
    proof {
        assert(devices@.take(devices@.len() as int) == devices@);
    }
    args
}

} // verus!

verus! {

/// Value of a sysfs hexadecimal attribute: trimmed, every leading "0x"
/// removed, then read in base 16 (None when it does not parse or fit).
pub open spec fn sysfs_hex(text: Seq<char>, max: int) -> Option<int> {
    parse_unsigned(trim_start_all(trim_ws(text), "0x"@), 16, max)
}

fn parse_sysfs_hex(text: &str, max: u64) -> (res: Option<u64>)
    requires
        max <= u32::MAX,
    ensures
        match sysfs_hex(text@, max as int) {
            Some(v) => res matches Some(r) && r as int == v,
            None => res is None,
        },
        res matches Some(v) ==> v <= max,
{
    let cs = chars_of(text);
    let (a, b) = trim_range(&cs, 0, cs.len());
    proof {
        assert(cs@.subrange(0, cs@.len() as int) == cs@);
        reveal_strlit("0x");
    }
    let a2 = trim_start_all_range(&cs, a, b, "0x");
    parse_unsigned_range(&cs, a2, b, 16, max)
}

/// A sysfs attribute read as `u16` hexadecimal (`vendor`, `device`, ...).
pub fn parse_sysfs_hex_u16(text: &str) -> (res: Option<u16>)
    ensures
        match sysfs_hex(text@, 0xffff) {
            Some(v) => res matches Some(r) && r as int == v,
            None => res is None,
        },
{
    match parse_sysfs_hex(text, 0xffff) {
        Some(v) => Some(v as u16),
        None => None,
    }
}

/// A sysfs attribute read as `u32` hexadecimal (`class`).
pub fn parse_sysfs_hex_u32(text: &str) -> (res: Option<u32>)
    ensures
        match sysfs_hex(text@, 0xffff_ffff) {
            Some(v) => res matches Some(r) && r as int == v,
            None => res is None,
        },
{
    match parse_sysfs_hex(text, 0xffff_ffff) {
        Some(v) => Some(v as u32),
        None => None,
    }
}

/// The raw attributes of one PCI device as found under `/sys/bus/pci/devices`;
/// `None` marks an attribute that could not be read.
pub struct SysfsPciAttributes {
    pub vendor: Option<String>,
    pub device: Option<String>,
    pub class: Option<String>,
    pub subsystem_vendor: Option<String>,
    pub subsystem_device: Option<String>,
    /// Name of the bound driver (last component of the `driver` link)
    pub driver: Option<String>,
    /// Number of the IOMMU group (last component of the `iommu_group` link)
    pub iommu_group: Option<u32>,
    pub boot_vga: Option<String>,
}

/// Hex value of an attribute that may be missing.
pub open spec fn attr_hex(o: Option<String>, max: int) -> Option<int> {
    match o {
        Some(t) => sysfs_hex(t@, max),
        None => None,
    }
}

/// A `boot_vga` attribute reads as set when its trimmed text is "1".
pub open spec fn attr_flag(o: Option<String>) -> bool {
    match o {
        Some(t) => trim_ws(t@) == "1"@,
        None => false,
    }
}

fn attr_u16(o: &Option<String>) -> (res: Option<u16>)
    ensures
        match attr_hex(*o, 0xffff) {
            Some(v) => res matches Some(r) && r as int == v,
            None => res is None,
        },
{
    match o {
        Some(t) => parse_sysfs_hex_u16(t.as_str()),
        None => None,
    }
}

/// Builds the device at `address` from its sysfs attributes; `None` when the
/// vendor, device or class attribute is missing or not hexadecimal.
pub fn read_pci_device(address: &str, attrs: &SysfsPciAttributes) -> (res: Option<PciDevice>)
    ensures
        res is Some <==> (attr_hex(attrs.vendor, 0xffff) is Some && attr_hex(attrs.device, 0xffff)
            is Some && attr_hex(attrs.class, 0xffff_ffff) is Some),
        res matches Some(d) ==> {
            &&& d.address@ == address@
            &&& d.vendor_id == attr_hex(attrs.vendor, 0xffff)->0
            &&& d.device_id == attr_hex(attrs.device, 0xffff)->0
            &&& d.class_code == attr_hex(attrs.class, 0xffff_ffff)->0
            &&& d.subsystem_vendor_id == (match attr_hex(attrs.subsystem_vendor, 0xffff) {
                Some(v) => v,
                None => 0,
            })
            &&& d.subsystem_device_id == (match attr_hex(attrs.subsystem_device, 0xffff) {
                Some(v) => v,
                None => 0,
            })
            &&& d.driver == attrs.driver
            &&& d.iommu_group == attrs.iommu_group
            &&& d.is_boot_vga == attr_flag(attrs.boot_vga)
            &&& d.vendor_name@ == known_vendor_name(d.vendor_id)
            &&& d.device_name@ == (match known_device_name(d.vendor_id, d.device_id) {
                Some(n) => n,
                None => class_text(d.class_code),
            })
        },
{
    let vendor_id = match attr_u16(&attrs.vendor) {
        Some(v) => v,
        None => {
            return None;
        },
    };
    let device_id = match attr_u16(&attrs.device) {
        Some(v) => v,
        None => {
            return None;
        },
    };
    let class_code = match &attrs.class {
        Some(t) => match parse_sysfs_hex_u32(t.as_str()) {
            Some(v) => v,
            None => {
                return None;
            },
        },
        None => {
            return None;
        },
    };
    let subsystem_vendor_id = match attr_u16(&attrs.subsystem_vendor) {
        Some(v) => v,
        None => 0,
    };
    let subsystem_device_id = match attr_u16(&attrs.subsystem_device) {
        Some(v) => v,
        None => 0,
    };
    let is_boot_vga = match &attrs.boot_vga {
        Some(t) => str_eq(trim(t.as_str()).as_str(), "1"),
        None => false,
    };
    let (vendor_name, device_name) = get_pci_names(vendor_id, device_id, class_code);
    Some(
        PciDevice {
            address: String::from_str(address),
            vendor_id,
            device_id,
            class_code,
            vendor_name,
            device_name,
            driver: clone_opt_string(&attrs.driver),
            iommu_group: attrs.iommu_group,
            is_boot_vga,
            subsystem_vendor_id,
            subsystem_device_id,
        },
    )
}

} // verus!

verus! {

/// A PCI device with its text fields as character sequences.
pub struct PciDeviceView {
    pub address: Seq<char>,
    pub vendor_id: u16,
    pub device_id: u16,
    pub class_code: u32,
    pub vendor_name: Seq<char>,
    pub device_name: Seq<char>,
    pub driver: Option<Seq<char>>,
    pub iommu_group: Option<u32>,
    pub is_boot_vga: bool,
    pub subsystem_vendor_id: u16,
    pub subsystem_device_id: u16,
}

/// View of an optional string.
pub open spec fn opt_view(o: Option<String>) -> Option<Seq<char>> {
    match o {
        Some(s) => Some(s@),
        None => None,
    }
}

impl View for PciDevice {
    type V = PciDeviceView;

    open spec fn view(&self) -> PciDeviceView {
        PciDeviceView {
            address: self.address@,
            vendor_id: self.vendor_id,
            device_id: self.device_id,
            class_code: self.class_code,
            vendor_name: self.vendor_name@,
            device_name: self.device_name@,
            driver: opt_view(self.driver),
            iommu_group: self.iommu_group,
            is_boot_vga: self.is_boot_vga,
            subsystem_vendor_id: self.subsystem_vendor_id,
            subsystem_device_id: self.subsystem_device_id,
        }
    }
}

} // verus!

verus! {

/// Whether `device` shares its IOMMU group with a GPU other than itself.
pub open spec fn in_gpu_group(device: PciDevice, all: Seq<PciDevice>) -> bool {
    match device.iommu_group {
        Some(g) => exists|i: int|
            0 <= i < all.len() && is_gpu_class(#[trigger] all[i].class_code) && all[i].iommu_group
                == Some(g) && all[i].address@ != device.address@,
        None => false,
    }
}

/// Whether a device is in the same IOMMU group as some other GPU (such
/// devices must be passed through with the GPU).
pub fn is_device_in_gpu_group(device: &PciDevice, all_devices: &[PciDevice]) -> (res: bool)
    ensures
        res == in_gpu_group(*device, all_devices@),
{
    if let Some(group) = device.iommu_group {
        let mut i: usize = 0;
        while i < all_devices.len()
            invariant
                i <= all_devices@.len(),
                device.iommu_group == Some(group),
                forall|j: int|
                    0 <= j < i ==> !(is_gpu_class(#[trigger] all_devices@[j].class_code)
                        && all_devices@[j].iommu_group == Some(group) && all_devices@[j].address@
                        != device.address@),
            decreases all_devices@.len() - i,
        {
            let d = &all_devices[i];
            if d.is_gpu() && d.iommu_group == Some(group) && !str_eq(
                d.address.as_str(),
                device.address.as_str(),
            ) {
                return true;
            }
            i += 1;
        }
    }
    false
}

} // verus!

verus! {

proof fn lemma_args_layout_at(ds: Seq<PciDevice>, primary: int)
    ensures
        passthrough_args_of(ds, primary).len() == 2 * ds.len(),
        forall|i: int|
            0 <= i < ds.len() ==> #[trigger] passthrough_args_of(ds, primary)[2 * i] == "-device"@,
        forall|i: int|
            0 <= i < ds.len() ==> passthrough_args_of(ds, primary)[2 * i + 1] == pci_qemu_args(
                #[trigger] ds[i],
                i == primary,
            )[1],
    decreases ds.len(),
{
    if ds.len() > 0 {
        let p = ds.drop_last();
        lemma_args_layout_at(p, primary);
        let a = passthrough_args_of(ds, primary);
        let n = ds.len() - 1;
        let b = passthrough_args_of(p, primary);
        let c = pci_qemu_args(ds.last(), n == primary);
        assert(a == b + c);
        assert(b.len() == 2 * n);
        assert(c[0] == "-device"@);
        assert forall|i: int| 0 <= i < ds.len() implies #[trigger] a[2 * i] == "-device"@ by {
            if i < n {
                assert(a[2 * i] == b[2 * i]);
            } else {
                assert(a[2 * i] == c[0]);
            }
        }
        assert forall|i: int| 0 <= i < ds.len() implies a[2 * i + 1] == pci_qemu_args(
            #[trigger] ds[i],
            i == primary,
        )[1] by {
            if i < n {
                assert(p[i] == ds[i]);
                assert(a[2 * i + 1] == b[2 * i + 1]);
            } else {
                assert(a[2 * i + 1] == c[1]);
            }
        }
    }
}

/// Passing devices through gives two arguments per device, in device order:
/// "-device", then "vfio-pci,host=" and the device's address, followed by
/// ",multifunction=on" for the first VGA controller when it is a GPU, and by
/// nothing else.
pub proof fn lemma_passthrough_args_layout(ds: Seq<PciDevice>)
    ensures
        passthrough_args_of(ds, first_vga_index(ds)).len() == 2 * ds.len(),
        forall|i: int|
            0 <= i < ds.len() ==> passthrough_args_of(ds, first_vga_index(ds))[2 * i]
                == "-device"@ && passthrough_args_of(ds, first_vga_index(ds))[2 * i + 1]
                == "vfio-pci,host="@ + (#[trigger] ds[i]).address@ + (if i == first_vga_index(ds)
                && is_gpu_class(ds[i].class_code) {
                ",multifunction=on"@
            } else {
                seq![]
            }),
{
    lemma_args_layout_at(ds, first_vga_index(ds));
}

} // verus!

verus! {

/// Inserting at position `i` adds one copy of `a` to the multiset.
pub(crate) proof fn lemma_insert_to_multiset<A>(s: Seq<A>, i: int, a: A)
    requires
        0 <= i <= s.len(),
    ensures
        s.insert(i, a).to_multiset() == s.to_multiset().insert(a),
{
    broadcast use vstd::seq_lib::group_to_multiset_ensures;

    let t = s.insert(i, a);
    assert(t.remove(i) =~= s);
    assert(t[i] == a);
    assert(t.contains(a));
    assert(t.to_multiset() =~= s.to_multiset().insert(a));
}

/// Devices in address order (as enumeration lists them); devices with equal
/// addresses keep their order.
pub fn sort_by_address(devices: Vec<PciDevice>) -> (res: Vec<PciDevice>)
    ensures
        res@.to_multiset() == devices@.to_multiset(),
        forall|a: int, b: int|
            0 <= a < b < res.len() ==> crate::text::lex_le(res@[a].address@, res@[b].address@),
{
    broadcast use vstd::seq_lib::group_to_multiset_ensures;

    let ghost orig = devices@;
    let mut rest = devices;
    let mut res: Vec<PciDevice> = Vec::new();
    while rest.len() > 0
        invariant
            res@.to_multiset().add(rest@.to_multiset()) == orig.to_multiset(),
            forall|a: int, b: int|
                0 <= a < b < res.len() ==> crate::text::lex_le(res@[a].address@, res@[b].address@),
        decreases rest.len(),
    {
        let ghost before = rest@;
        let d = rest.remove(0);
        let ghost dv = d;
        proof {
            assert(rest@ == before.remove(0));
            assert(before[0] == dv);
            vstd::seq_lib::to_multiset_remove(before, 0);
            assert(before.contains(dv));
            before.to_multiset_ensures();
        }
        let mut pos: usize = 0;
        while pos < res.len() && crate::text::str_le(res[pos].address.as_str(), d.address.as_str())
            invariant
                pos <= res.len(),
                forall|k: int| 0 <= k < pos ==> crate::text::lex_le(res@[k].address@, d.address@),
            decreases res.len() - pos,
        {
            pos += 1;
        }
        let ghost old_res = res@;
        proof {
            if pos < res.len() {
                crate::text::lemma_lex_total(old_res[pos as int].address@, dv.address@);
            }
        }
        res.insert(pos, d);
        proof {
            lemma_insert_to_multiset(old_res, pos as int, dv);
            assert(res@.to_multiset().add(rest@.to_multiset()) =~= orig.to_multiset());
            assert forall|a: int, b: int| 0 <= a < b < res.len() implies crate::text::lex_le(
                res@[a].address@,
                res@[b].address@,
            ) by {
                if b < pos {
                    assert(res@[a] == old_res[a] && res@[b] == old_res[b]);
                } else if b == pos {
                    assert(res@[a] == old_res[a]);
                } else if a > pos {
                    assert(res@[a] == old_res[a - 1] && res@[b] == old_res[b - 1]);
                } else if a == pos {
                    assert(res@[b] == old_res[b - 1]);
                    if b - 1 > pos {
                        assert(crate::text::lex_le(old_res[pos as int].address@, old_res[b - 1].address@));
                    } else {
                        crate::text::lemma_lex_refl(old_res[pos as int].address@);
                    }
                    crate::text::lemma_lex_trans(
                        dv.address@,
                        old_res[pos as int].address@,
                        old_res[b - 1].address@,
                    );
                } else {
                    assert(res@[a] == old_res[a] && res@[b] == old_res[b - 1]);
                }
            }
        }
    }
    proof {
        assert(rest@.to_multiset() =~= vstd::multiset::Multiset::empty());
        assert(res@.to_multiset().add(vstd::multiset::Multiset::empty()) =~= res@.to_multiset());
    }
    res
}

/// Whether `/proc/modules` lists the vfio-pci module (under either spelling).
pub fn vfio_modules_listed(modules: &str) -> (res: bool)
    ensures
        res == (crate::text::has_infix(modules@, "vfio_pci"@) || crate::text::has_infix(
            modules@,
            "vfio-pci"@,
        )),
{
    crate::text::contains(modules, "vfio_pci") || crate::text::contains(modules, "vfio-pci")
}

/// The IOMMU group number that names a group directory (`str::parse::<u32>`).
pub fn parse_iommu_group(name: &str) -> (res: Option<u32>)
    ensures
        match crate::text::parse_u32_spec(name@) {
            Some(v) => res == Some(v as u32),
            None => res is None,
        },
{
    let cs = chars_of(name);
    proof {
        assert(cs@.subrange(0, cs@.len() as int) =~= name@);
    }
    match parse_unsigned_range(&cs, 0, cs.len(), 10, 0xffff_ffff) {
        Some(v) => Some(v as u32),
        None => None,
    }
}

} // verus!
