//! Host hardware: PCI and USB devices, passthrough planning and single-GPU
//! passthrough configuration.

pub mod pci;

pub use pci::PciDevice;
pub mod usb;

pub use usb::{UdevInstallResult, UsbDevice, UsbVersion};
pub mod passthrough;
pub mod pci_script;
pub mod single_gpu;

pub use single_gpu::{SingleGpuConfig, SingleGpuSupport};
