# vm_curator

The core of a terminal manager for QEMU/KVM virtual machines, written in
Verus: the functions in `src/` carry contracts that Verus proves; the few
calls into the standard library and outside crates (regex, serde_json,
dirs) go through small trusted items whose contracts are stated beside
them.

- `src/hardware/` — PCI devices and their classification, VFIO passthrough
  arguments and the launch-script section that binds devices to vfio-pci,
  USB devices and udev rules, and single-GPU passthrough with its
  configuration file (saving and loading it gives the configuration back).
- `src/metadata/` — QEMU profiles, OS descriptions and shared-folder help
  (stores keyed by id, where a later entry overrides an earlier one), and the
  VM hierarchy with its case-insensitive patterns.
- `src/commands/`, `src/fs.rs`, `src/platform.rs` — arguments for
  `qemu-img`, the reading of QEMU, `lsmod`, `stat` and `/proc/mounts`
  output, and the host choices of a Linux host.
- `src/selection.rs`, `src/shared_folders.rs` — device selections, display
  and network options, mount tags and mount-instruction tiers.
- `src/settings.rs`, `src/navigation.rs`, `src/config.rs` — the settings
  screen as a state machine over the configuration (rows shown, highlight
  moves, what each key does), and the screen history.
- `src/launch_script.rs` — setting the display backend of a launch
  script's `-display` options.
- `src/editor.rs` — the line editor for launch scripts and notes, with
  byte-offset columns as `String` indexes them, and what each key does.
- `src/file_browser.rs` — which entries of a directory the file browser
  lists for each mode, in which order, and what choosing one does.
- `src/vm_list.rs` — the VM list: VMs grouped by family and subcategory,
  sorted by release date or name, the rows shown and what a click selects.
- `src/gpu_setup.rs` — the single GPU and multi-GPU setup screens' keys and
  the GPU that a single GPU setup is prepared for.
- `src/management.rs` — the VM management menu: what each entry opens and
  the USB devices a saved setting chooses again.
- `src/network_settings.rs` — the network settings screen: adapter, backend,
  bridge, MAC address and port forwards, in its four keyboard modes.
- `src/confirm.rs` — what a confirmed action does: the screens it closes,
  what is refused while the VM runs, and what the host carries out.
- `src/running.rs` — which QEMU process belongs to which VM.
- `src/option_screens.rs` — the boot options, display options and USB device
  screens: their keys, the devices chosen and their status lines.
- `src/text.rs` — the text operations the rest is built from, each with its
  specification.

`app/` holds what touches the host: sysfs, libusb, processes, files, and the
TOML forms of the library's types. `tests/` runs the library on concrete
values.
