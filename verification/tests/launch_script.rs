use vm_curator::launch_script::update_display_option;

#[test]
fn display_backend_is_replaced() {
    assert_eq!(
        update_display_option("qemu-system-x86_64 -display gtk -m 4096\n", "sdl"),
        "qemu-system-x86_64 -display sdl -m 4096\n"
    );
}

#[test]
fn gl_suffix_is_kept() {
    assert_eq!(
        update_display_option("qemu -display gtk,gl=on -m 1", "spice-app"),
        "qemu -display spice-app,gl=on -m 1"
    );
}

#[test]
fn hyphenated_backends_and_several_options() {
    assert_eq!(
        update_display_option("a -display  spice-app\nb -display gtk,gl=on\n", "sdl"),
        "a -display sdl\nb -display sdl,gl=on\n"
    );
}

#[test]
fn script_without_display_is_unchanged() {
    assert_eq!(update_display_option("qemu -m 1024 -vga std", "sdl"), "qemu -m 1024 -vga std");
    assert_eq!(update_display_option("", "sdl"), "");
}

#[test]
fn multibyte_text_before_the_option() {
    assert_eq!(update_display_option("# é café\n-display gtk", "sdl"), "# é café\n-display sdl");
}
