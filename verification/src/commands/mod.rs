//! What the library computes around the host's QEMU tools: the arguments
//! handed to `qemu-img`, and the reading of what QEMU and `lsmod` print.

pub mod qemu_img;
pub mod qemu_system;
