use vm_curator::config::Config;
use vm_curator::settings::{
    apply_edit, build_visible_items, clamp_selection, cycle_setting, handle_settings_key,
    home_relative, key_hints, select_next, select_previous, settings_row_text, toggle_radio,
    toggle_setting, GpuCheck,
    SettingsCommand, SettingsItem, SettingsKey, SettingsState,
};

fn browsing(selected: usize) -> SettingsState {
    SettingsState { selected, editing: false, edit_buffer: String::new() }
}

#[test]
fn settings_item_labels_and_kinds() {
    assert_eq!(SettingsItem::DefaultMemory.display_name(), "Default Memory (MB)");
    assert_eq!(SettingsItem::SingleGpuRunSetup.display_name(), "[Run System Setup]");
    assert_eq!(SettingsItem::MultiGpuShowWarnings.help_key(), "show_gpu_warnings");
    assert_eq!(SettingsItem::SingleGpuShowWarnings.help_key(), "show_gpu_warnings");
    assert!(SettingsItem::DefaultEnableKvm.is_toggle());
    assert!(!SettingsItem::DefaultMemory.is_toggle());
    assert!(SettingsItem::EnableSingleGpuPassthrough.is_radio());
    assert!(SettingsItem::GpuPassthroughHeader.is_header());
    assert!(SettingsItem::SingleGpuRunSetup.is_action());
    assert!(SettingsItem::DefaultDisplay.is_cycle());
    assert_eq!(SettingsItem::DefaultDisplay.cycle_options(), Some(&["gtk", "sdl", "spice"][..]));
    assert_eq!(SettingsItem::DefaultMemory.cycle_options(), None);
}

#[test]
fn settings_values_as_text() {
    let mut config = Config::default();
    config.default_memory_mb = 8192;
    assert_eq!(SettingsItem::DefaultMemory.get_value(&config), "8192");
    assert_eq!(SettingsItem::DefaultEnableKvm.get_value(&config), "Yes");
    assert_eq!(SettingsItem::SingleGpuAutoTty.get_value(&config), "No");
    assert_eq!(SettingsItem::DefaultDisplay.get_value(&config), "gtk");
    assert_eq!(SettingsItem::EnableMultiGpuPassthrough.get_value(&config), "");
}

#[test]
fn sub_settings_shown_only_under_enabled_mode() {
    let mut config = Config::default();
    assert_eq!(build_visible_items(&config).len(), 11);
    config.enable_multi_gpu_passthrough = true;
    let rows = build_visible_items(&config);
    assert_eq!(rows.len(), 14);
    assert_eq!(rows[10].item, SettingsItem::MultiGpuIvshmemSize);
    assert_eq!(rows[10].indent, 2);
    config.enable_multi_gpu_passthrough = false;
    config.single_gpu_enabled = true;
    let rows = build_visible_items(&config);
    assert_eq!(rows.len(), 14);
    assert_eq!(rows[11].item, SettingsItem::SingleGpuRunSetup);
    assert!(rows[11].is_action);
    assert!(rows[7].is_header);
}

#[test]
fn moving_skips_the_section_header() {
    let config = Config::default();
    let rows = build_visible_items(&config);
    assert_eq!(select_next(&rows, 6), 8);
    assert_eq!(select_previous(&rows, 8), 6);
    assert_eq!(select_previous(&rows, 0), 0);
    assert_eq!(select_next(&rows, 10), 10);
    assert_eq!(clamp_selection(11, 13), 10);
    assert_eq!(clamp_selection(0, 3), 0);
    assert_eq!(clamp_selection(11, 4), 4);
}

#[test]
fn radio_modes_exclude_each_other() {
    let mut config = Config::default();
    assert_eq!(toggle_radio(&mut config, SettingsItem::EnableMultiGpuPassthrough), GpuCheck::MultiGpu);
    assert!(config.enable_multi_gpu_passthrough && !config.single_gpu_enabled);
    assert_eq!(toggle_radio(&mut config, SettingsItem::EnableSingleGpuPassthrough), GpuCheck::SingleGpu);
    assert!(!config.enable_multi_gpu_passthrough && config.single_gpu_enabled);
    assert_eq!(toggle_radio(&mut config, SettingsItem::GpuPassthroughDisabled), GpuCheck::Clear);
    assert!(!config.enable_multi_gpu_passthrough && !config.single_gpu_enabled);
    assert_eq!(toggle_radio(&mut config, SettingsItem::DefaultMemory), GpuCheck::Keep);
}

#[test]
fn toggling_twice_restores_setting() {
    let mut config = Config::default();
    toggle_setting(&mut config, SettingsItem::SingleGpuShowWarnings);
    assert!(!config.show_gpu_warnings);
    toggle_setting(&mut config, SettingsItem::MultiGpuShowWarnings);
    assert!(config.show_gpu_warnings);
    toggle_setting(&mut config, SettingsItem::DefaultEnableKvm);
    toggle_setting(&mut config, SettingsItem::DefaultEnableKvm);
    assert!(config.default_enable_kvm);
}

#[test]
fn display_cycles_through_backends() {
    let mut config = Config::default();
    assert!(cycle_setting(&mut config, SettingsItem::DefaultDisplay));
    assert_eq!(config.default_display, "sdl");
    cycle_setting(&mut config, SettingsItem::DefaultDisplay);
    assert_eq!(config.default_display, "spice");
    cycle_setting(&mut config, SettingsItem::DefaultDisplay);
    assert_eq!(config.default_display, "gtk");
    config.default_display = "vnc".to_string();
    cycle_setting(&mut config, SettingsItem::DefaultDisplay);
    assert_eq!(config.default_display, "sdl");
    assert!(!cycle_setting(&mut config, SettingsItem::DefaultMemory));
}

#[test]
fn edits_are_parsed_and_bounded() {
    let mut config = Config::default();
    apply_edit(&mut config, SettingsItem::DefaultCpuCores, "0");
    assert_eq!(config.default_cpu_cores, 1);
    apply_edit(&mut config, SettingsItem::DefaultDiskSize, " 128 ");
    assert_eq!(config.default_disk_size_gb, 128);
    apply_edit(&mut config, SettingsItem::MultiGpuIvshmemSize, "8");
    assert_eq!(config.default_ivshmem_size_mb, 16);
    apply_edit(&mut config, SettingsItem::MultiGpuIvshmemSize, "1024");
    assert_eq!(config.default_ivshmem_size_mb, 512);
    apply_edit(&mut config, SettingsItem::DefaultMemory, "lots");
    assert_eq!(config.default_memory_mb, 4096);
    apply_edit(&mut config, SettingsItem::DefaultMemory, "+2048");
    assert_eq!(config.default_memory_mb, 2048);
    apply_edit(&mut config, SettingsItem::DefaultMemory, "4294967296");
    assert_eq!(config.default_memory_mb, 2048);
    apply_edit(&mut config, SettingsItem::DefaultDisplay, "  spice ");
    assert_eq!(config.default_display, "spice");
}

#[test]
fn home_relative_library_path() {
    assert_eq!(home_relative("~/vms"), Some("vms".to_string()));
    assert_eq!(home_relative("/srv/vms"), None);
    assert_eq!(home_relative("~vms"), None);
}

#[test]
fn editing_memory_through_keys() {
    let mut config = Config::default();
    let mut state = browsing(1);
    assert_eq!(handle_settings_key(&mut state, &mut config, SettingsKey::Enter), SettingsCommand::Nothing);
    assert!(state.editing);
    assert_eq!(state.edit_buffer, "4096");
    for _ in 0..4 {
        handle_settings_key(&mut state, &mut config, SettingsKey::Backspace);
    }
    assert_eq!(state.edit_buffer, "");
    handle_settings_key(&mut state, &mut config, SettingsKey::Backspace);
    assert_eq!(state.edit_buffer, "");
    for c in "8192".chars() {
        handle_settings_key(&mut state, &mut config, SettingsKey::Char(c));
    }
    assert_eq!(handle_settings_key(&mut state, &mut config, SettingsKey::Enter), SettingsCommand::Save);
    assert!(!state.editing);
    assert_eq!(state.edit_buffer, "");
    assert_eq!(config.default_memory_mb, 8192);
}

#[test]
fn editing_library_path_is_handed_to_host() {
    let mut config = Config::default();
    let mut state = SettingsState { selected: 0, editing: true, edit_buffer: " ~/vms ".to_string() };
    let cmd = handle_settings_key(&mut state, &mut config, SettingsKey::Enter);
    assert_eq!(cmd, SettingsCommand::SetLibraryPath("~/vms".to_string()));
    assert!(!state.editing);
}

#[test]
fn escape_cancels_edit_or_leaves_screen() {
    let mut config = Config::default();
    let mut state = SettingsState { selected: 2, editing: true, edit_buffer: "12".to_string() };
    assert_eq!(handle_settings_key(&mut state, &mut config, SettingsKey::Esc), SettingsCommand::Nothing);
    assert!(!state.editing);
    assert_eq!(state.edit_buffer, "");
    assert_eq!(config.default_cpu_cores, 2);
    assert_eq!(handle_settings_key(&mut state, &mut config, SettingsKey::Esc), SettingsCommand::Back);
}

#[test]
fn choosing_single_gpu_shows_its_settings() {
    let mut config = Config::default();
    let mut state = browsing(10);
    let cmd = handle_settings_key(&mut state, &mut config, SettingsKey::Char(' '));
    assert_eq!(cmd, SettingsCommand::SaveAndCheck(GpuCheck::SingleGpu));
    assert!(config.single_gpu_enabled);
    assert_eq!(build_visible_items(&config).len(), 14);
    handle_settings_key(&mut state, &mut config, SettingsKey::Char('j'));
    assert_eq!(state.selected, 11);
    let cmd = handle_settings_key(&mut state, &mut config, SettingsKey::Enter);
    assert_eq!(cmd, SettingsCommand::RunAction(SettingsItem::SingleGpuRunSetup));
    // Back to "Disabled": the single-GPU rows go and the highlight is kept in range.
    let mut state = browsing(13);
    handle_settings_key(&mut state, &mut config, SettingsKey::Char('k'));
    assert_eq!(state.selected, 12);
    let mut state2 = browsing(8);
    let cmd = handle_settings_key(&mut state2, &mut config, SettingsKey::Enter);
    assert_eq!(cmd, SettingsCommand::SaveAndCheck(GpuCheck::Clear));
    assert_eq!(build_visible_items(&config).len(), 11);
    let mut state3 = browsing(13);
    handle_settings_key(&mut state3, &mut config, SettingsKey::Other);
    assert_eq!(state3.selected, 10);
}

#[test]
fn header_row_does_nothing() {
    let mut config = Config::default();
    let mut state = browsing(7);
    assert_eq!(handle_settings_key(&mut state, &mut config, SettingsKey::Enter), SettingsCommand::Nothing);
    assert!(!state.editing);
    let mut state = browsing(5);
    assert_eq!(handle_settings_key(&mut state, &mut config, SettingsKey::Enter), SettingsCommand::Save);
    assert!(!config.default_enable_kvm);
    let mut state = browsing(4);
    assert_eq!(handle_settings_key(&mut state, &mut config, SettingsKey::Enter), SettingsCommand::Save);
    assert_eq!(config.default_display, "sdl");
}

#[test]
fn row_texts_and_key_hints() {
    let mut config = Config::default();
    config.single_gpu_enabled = true;
    let rows = build_visible_items(&config);
    assert_eq!(settings_row_text(&rows[1], &config, false, ""), "Default Memory (MB) : 4096");
    assert_eq!(settings_row_text(&rows[1], &config, true, "81"), "Default Memory (MB) : 81|");
    assert_eq!(settings_row_text(&rows[7], &config, false, ""), "--- GPU Passthrough ---");
    assert_eq!(settings_row_text(&rows[8], &config, false, ""), "  ( ) Disabled");
    assert_eq!(settings_row_text(&rows[10], &config, false, ""), "  (*) Single GPU");
    assert_eq!(settings_row_text(&rows[11], &config, false, ""), "    [Run System Setup]");
    assert_eq!(settings_row_text(&rows[12], &config, false, ""), "    Auto TTY Switch (Experimental) : No");
    assert_eq!(key_hints(true, Some(&rows[1])), "[Enter] Save  [Esc] Cancel");
    assert_eq!(key_hints(false, Some(&rows[7])), "[j/k] Navigate  [Esc] Back");
    assert_eq!(key_hints(false, Some(&rows[4])), "[Enter/Space] Cycle  [j/k] Navigate  [Esc] Back");
    assert_eq!(key_hints(false, Some(&rows[5])), "[Enter/Space] Toggle  [j/k] Navigate  [Esc] Back");
    assert_eq!(key_hints(false, Some(&rows[11])), "[Enter] Run  [j/k] Navigate  [Esc] Back");
    assert_eq!(key_hints(false, None), "[Enter] Edit  [j/k] Navigate  [Esc] Back");
}
