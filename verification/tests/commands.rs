use std::path::PathBuf;
use vm_curator::commands::qemu_img::{
    convert_disk_args, create_disk_args, info_args, parse_format_from_info_json, path_to_str,
};
use vm_curator::commands::qemu_system::{
    emulator_candidates, kvm_module_from_lsmod, list_available_emulators, parse_display_backends,
    version_line,
};

#[test]
fn parse_format_qcow2() {
    let json = r#"{"virtual-size":42949672960,"filename":"disk.qcow2","format":"qcow2","actual-size":200704}"#;
    assert_eq!(parse_format_from_info_json(json), Some("qcow2".to_string()));
}

#[test]
fn parse_format_raw() {
    let json = r#"{"format":"raw","virtual-size":1048576}"#;
    assert_eq!(parse_format_from_info_json(json), Some("raw".to_string()));
}

#[test]
fn parse_format_missing_field() {
    let json = r#"{"virtual-size":1048576,"filename":"disk.img"}"#;
    assert_eq!(parse_format_from_info_json(json), None);
}

#[test]
fn parse_format_non_string_field() {
    let json = r#"{"format":123}"#;
    assert_eq!(parse_format_from_info_json(json), None);
}

#[test]
fn parse_format_malformed_json() {
    assert_eq!(parse_format_from_info_json("not json at all"), None);
    assert_eq!(parse_format_from_info_json(""), None);
}

#[test]
fn path_to_str_valid_utf8() {
    let path = PathBuf::from("/tmp/disk.qcow2");
    assert_eq!(path_to_str(&path).unwrap(), "/tmp/disk.qcow2");
}

#[test]
fn qemu_img_arguments() {
    assert_eq!(
        create_disk_args("/vm/disk.qcow2", "qcow2", "64G"),
        vec!["create", "-f", "qcow2", "/vm/disk.qcow2", "64G"]
    );
    assert_eq!(
        convert_disk_args("/in.dmg", "/out.qcow2", "qcow2"),
        vec!["convert", "-O", "qcow2", "/in.dmg", "/out.qcow2"]
    );
    assert_eq!(info_args("/vm/disk.img"), vec!["info", "--output=json", "/vm/disk.img"]);
}

#[test]
fn available_emulators_keep_order() {
    assert_eq!(emulator_candidates().len(), 6);
    assert_eq!(
        list_available_emulators(&[true, false, true]),
        vec!["qemu-system-x86_64", "qemu-system-ppc"]
    );
    assert!(list_available_emulators(&[]).is_empty());
    assert_eq!(list_available_emulators(&[false, false, false, false, false, true, true]), vec!["qemu-system-aarch64"]);
}

#[test]
fn version_first_line() {
    assert_eq!(
        version_line("QEMU emulator version 8.2.0\nCopyright (c) 2003-2023\n"),
        "QEMU emulator version 8.2.0"
    );
    assert_eq!(version_line(""), "Unknown");
}

#[test]
fn display_backends_are_parsed() {
    let out = "Available display backend types:\nnone\ngtk\nsdl\negl-headless\nvnc\n\n";
    assert_eq!(parse_display_backends(out, ""), vec!["none", "gtk", "sdl", "egl-headless", "vnc"]);
    assert_eq!(parse_display_backends("", "Available:\n  spice-app  \nfoo: bar\n"), vec!["spice-app"]);
}

#[test]
fn display_backends_stop_before_usage_paragraph() {
    let out = "Available display backend types:\nnone\ngtk\nsdl\n\nSome display backends support suboptions, which can be set with\n   -display backend,option=value,option=value...\nFor a short list of the suboptions for each display, see the top-level -help output; more detail is in the documentation.\n";
    assert_eq!(parse_display_backends(out, ""), vec!["none", "gtk", "sdl"]);
    let leading_blank = "\nAvailable display backend types:\n\nvnc\n\nSome text\n";
    assert_eq!(parse_display_backends(leading_blank, ""), vec!["vnc"]);
}

#[test]
fn kvm_module_from_lsmod_output() {
    let lsmod = "Module                  Size  Used by\nkvm_amd               208896  0\nkvm                  1396736  1 kvm_amd\n";
    assert_eq!(kvm_module_from_lsmod(lsmod), "kvm_amd");
    assert_eq!(kvm_module_from_lsmod("Module Size Used by\n"), "kvm");
}
