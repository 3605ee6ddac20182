//! Operating-system metadata: QEMU profiles, OS descriptions, the VM
//! hierarchy and help texts.

pub mod keyed;
pub mod qemu_profiles;
pub mod os_info;
pub mod shared_folders_help;
pub mod hierarchy;
