//! Core library of a terminal manager for QEMU/KVM virtual machines: PCI/USB
//! passthrough planning, GPU passthrough configuration files, OS metadata and
//! QEMU profile stores, launch-argument generation and small parsers for the
//! output of host tools.

pub mod text;
pub mod commands;
pub mod config;
pub mod fs;
pub mod hardware;
pub mod metadata;
pub mod navigation;
pub mod paths;
pub mod platform;
pub mod selection;
pub mod shared_folders;
pub mod settings;
pub mod vm_list;
pub mod editor;
pub mod launch_script;
pub mod file_browser;
pub mod gpu_setup;
pub mod option_screens;
pub mod management;
pub mod running;
pub mod network_settings;
pub mod confirm;
