//! PCI class codes (class, subclass and programming interface, 24 bits).

use vstd::prelude::*;

verus! {

/// VGA-compatible controller
pub const VGA_COMPATIBLE: u32 = 0x030000;
/// 3D controller (non-VGA)
pub const CONTROLLER_3D: u32 = 0x030200;
/// Display controller
pub const DISPLAY_CONTROLLER: u32 = 0x038000;
/// Audio device
pub const AUDIO_DEVICE: u32 = 0x040300;
/// USB controller
pub const USB_CONTROLLER: u32 = 0x0c0300;
/// Network controller (Ethernet)
pub const NETWORK_CONTROLLER: u32 = 0x020000;
/// NVMe controller
pub const NVME_CONTROLLER: u32 = 0x010802;
/// SATA controller
pub const SATA_CONTROLLER: u32 = 0x010600;
/// Serial controller
pub const SERIAL_CONTROLLER: u32 = 0x070000;
/// Host bridge
pub const HOST_BRIDGE: u32 = 0x060000;
/// ISA bridge
pub const ISA_BRIDGE: u32 = 0x060100;
/// PCI bridge
pub const PCI_BRIDGE: u32 = 0x060400;
/// PCI-to-PCI bridge (subtractive decode)
pub const PCI_BRIDGE_SUB: u32 = 0x060401;
/// Other bridge
pub const OTHER_BRIDGE: u32 = 0x068000;
/// SMBus controller
pub const SMBUS: u32 = 0x0c0500;
/// Signal processing controller
pub const SIGNAL_PROC: u32 = 0x118000;
/// Encryption controller
pub const ENCRYPTION: u32 = 0x108000;
/// Non-essential instrumentation
pub const INSTRUMENTATION: u32 = 0x130000;

} // verus!
