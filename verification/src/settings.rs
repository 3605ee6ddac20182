//! The settings screen: which rows it shows for a configuration, how the
//! highlighted row moves, and what each key does to the configuration.

use vstd::prelude::*;
use std::path::PathBuf;
use crate::config::Config;
use crate::hardware::pci::MultiGpuPassthroughStatus;
use crate::hardware::single_gpu::SingleGpuSupport;
use crate::paths::{home_dir, joined, path_display, path_from, path_join, path_of_text, path_shown};
use crate::text::{
    chars_of, dec, dec_string, drop_last_char, has_prefix, parse_u32_spec, parse_unsigned_range,
    push_char, slice_range,
    starts_with, string_of, trim, trim_ws,
};

verus! {

/// Settings items that can be configured.
#[derive(Debug, Clone, Copy, PartialEq, Eq, Structural)]
pub enum SettingsItem {
    VmLibraryPath,
    DefaultMemory,
    DefaultCpuCores,
    DefaultDiskSize,
    DefaultDisplay,
    DefaultEnableKvm,
    ConfirmBeforeLaunch,
    /// Section label of the GPU passthrough radio group (not selectable).
    GpuPassthroughHeader,
    GpuPassthroughDisabled,
    EnableMultiGpuPassthrough,
    MultiGpuIvshmemSize,
    MultiGpuShowWarnings,
    MultiGpuAutoLaunchLookingGlass,
    EnableSingleGpuPassthrough,
    /// Action button: runs the single-GPU system setup.
    SingleGpuRunSetup,
    SingleGpuAutoTty,
    SingleGpuShowWarnings,
}

impl SettingsItem {
    /// The label shown for the item.
    pub open spec fn label(self) -> Seq<char> {
        match self {
            SettingsItem::VmLibraryPath => "VM Library Path"@,
            SettingsItem::DefaultMemory => "Default Memory (MB)"@,
            SettingsItem::DefaultCpuCores => "Default CPU Cores"@,
            SettingsItem::DefaultDiskSize => "Default Disk Size (GB)"@,
            SettingsItem::DefaultDisplay => "Default Display"@,
            SettingsItem::DefaultEnableKvm => "Enable KVM by Default"@,
            SettingsItem::ConfirmBeforeLaunch => "Confirm Before Launch"@,
            SettingsItem::GpuPassthroughHeader => "GPU Passthrough"@,
            SettingsItem::GpuPassthroughDisabled => "Disabled"@,
            SettingsItem::EnableMultiGpuPassthrough => "Multiple GPUs"@,
            SettingsItem::MultiGpuIvshmemSize => "IVSHMEM Size (MB)"@,
            SettingsItem::MultiGpuShowWarnings => "Show GPU Warnings"@,
            SettingsItem::MultiGpuAutoLaunchLookingGlass => "Auto-launch Looking Glass"@,
            SettingsItem::EnableSingleGpuPassthrough => "Single GPU"@,
            SettingsItem::SingleGpuRunSetup => "[Run System Setup]"@,
            SettingsItem::SingleGpuAutoTty => "Auto TTY Switch (Experimental)"@,
            SettingsItem::SingleGpuShowWarnings => "Show GPU Warnings"@,
        }
    }

    /// The key of the item's help text.
    pub open spec fn help_text_key(self) -> Seq<char> {
        match self {
            SettingsItem::VmLibraryPath => "vm_library_path"@,
            SettingsItem::DefaultMemory => "default_memory"@,
            SettingsItem::DefaultCpuCores => "default_cpu_cores"@,
            SettingsItem::DefaultDiskSize => "default_disk_size"@,
            SettingsItem::DefaultDisplay => "default_display"@,
            SettingsItem::DefaultEnableKvm => "default_enable_kvm"@,
            SettingsItem::ConfirmBeforeLaunch => "confirm_before_launch"@,
            SettingsItem::GpuPassthroughHeader => "gpu_passthrough_header"@,
            SettingsItem::GpuPassthroughDisabled => "gpu_passthrough_disabled"@,
            SettingsItem::EnableMultiGpuPassthrough => "enable_multi_gpu_passthrough"@,
            SettingsItem::MultiGpuIvshmemSize => "multi_gpu_ivshmem_size"@,
            SettingsItem::MultiGpuShowWarnings => "show_gpu_warnings"@,
            SettingsItem::SingleGpuShowWarnings => "show_gpu_warnings"@,
            SettingsItem::MultiGpuAutoLaunchLookingGlass => "auto_launch_looking_glass"@,
            SettingsItem::EnableSingleGpuPassthrough => "enable_single_gpu_passthrough"@,
            SettingsItem::SingleGpuRunSetup => "single_gpu_run_setup"@,
            SettingsItem::SingleGpuAutoTty => "single_gpu_auto_tty"@,
        }
    }

    /// A yes/no setting that Enter or Space flips.
    pub open spec fn toggles(self) -> bool {
        ||| self is DefaultEnableKvm
        ||| self is ConfirmBeforeLaunch
        ||| self is MultiGpuShowWarnings
        ||| self is MultiGpuAutoLaunchLookingGlass
        ||| self is SingleGpuAutoTty
        ||| self is SingleGpuShowWarnings
    }

    /// One of the mutually exclusive GPU passthrough modes.
    pub open spec fn radio(self) -> bool {
        ||| self is GpuPassthroughDisabled
        ||| self is EnableMultiGpuPassthrough
        ||| self is EnableSingleGpuPassthrough
    }

    /// Get the display name for this setting.
    pub fn display_name(&self) -> (res: &'static str)
        ensures
            res@ == self.label(),
    {
        match self {
            SettingsItem::VmLibraryPath => "VM Library Path",
            SettingsItem::DefaultMemory => "Default Memory (MB)",
            SettingsItem::DefaultCpuCores => "Default CPU Cores",
            SettingsItem::DefaultDiskSize => "Default Disk Size (GB)",
            SettingsItem::DefaultDisplay => "Default Display",
            SettingsItem::DefaultEnableKvm => "Enable KVM by Default",
            SettingsItem::ConfirmBeforeLaunch => "Confirm Before Launch",
            SettingsItem::GpuPassthroughHeader => "GPU Passthrough",
            SettingsItem::GpuPassthroughDisabled => "Disabled",
            SettingsItem::EnableMultiGpuPassthrough => "Multiple GPUs",
            SettingsItem::MultiGpuIvshmemSize => "IVSHMEM Size (MB)",
            SettingsItem::MultiGpuShowWarnings => "Show GPU Warnings",
            SettingsItem::MultiGpuAutoLaunchLookingGlass => "Auto-launch Looking Glass",
            SettingsItem::EnableSingleGpuPassthrough => "Single GPU",
            SettingsItem::SingleGpuRunSetup => "[Run System Setup]",
            SettingsItem::SingleGpuAutoTty => "Auto TTY Switch (Experimental)",
            SettingsItem::SingleGpuShowWarnings => "Show GPU Warnings",
        }
    }

    /// Check if this is a boolean toggle setting.
    pub fn is_toggle(&self) -> (res: bool)
        ensures
            res == self.toggles(),
    {
        matches!(
            self,
            SettingsItem::DefaultEnableKvm | SettingsItem::ConfirmBeforeLaunch
                | SettingsItem::MultiGpuShowWarnings | SettingsItem::MultiGpuAutoLaunchLookingGlass
                | SettingsItem::SingleGpuAutoTty | SettingsItem::SingleGpuShowWarnings
        )
    }

    /// Check if this is a radio button (mutually exclusive with the others).
    pub fn is_radio(&self) -> (res: bool)
        ensures
            res == self.radio(),
    {
        matches!(
            self,
            SettingsItem::GpuPassthroughDisabled | SettingsItem::EnableMultiGpuPassthrough
                | SettingsItem::EnableSingleGpuPassthrough
        )
    }

    /// Check if this is a cycle setting (the display backend).
    pub fn is_cycle(&self) -> (res: bool)
        ensures
            res == (*self is DefaultDisplay),
    {
        matches!(self, SettingsItem::DefaultDisplay)
    }

    /// Check if this is a section header (not editable).
    pub fn is_header(&self) -> (res: bool)
        ensures
            res == (*self is GpuPassthroughHeader),
    {
        matches!(self, SettingsItem::GpuPassthroughHeader)
    }

    /// Check if this is an action button.
    pub fn is_action(&self) -> (res: bool)
        ensures
            res == (*self is SingleGpuRunSetup),
    {
        matches!(self, SettingsItem::SingleGpuRunSetup)
    }

    /// The options a cycle setting steps through, in order.
    pub fn cycle_options(&self) -> (res: Option<&'static [&'static str]>)
        ensures
            res is Some <==> *self is DefaultDisplay,
            res matches Some(o) ==> o@.len() == 3 && o@[0]@ == "gtk"@ && o@[1]@ == "sdl"@
                && o@[2]@ == "spice"@,
    {
        match self {
            SettingsItem::DefaultDisplay => Some(&["gtk", "sdl", "spice"]),
            _ => None,
        }
    }

    /// The key under which the item's help text is looked up.
    pub fn help_key(&self) -> (res: &'static str)
        ensures
            res@ == self.help_text_key(),
    {
        match self {
            SettingsItem::VmLibraryPath => "vm_library_path",
            SettingsItem::DefaultMemory => "default_memory",
            SettingsItem::DefaultCpuCores => "default_cpu_cores",
            SettingsItem::DefaultDiskSize => "default_disk_size",
            SettingsItem::DefaultDisplay => "default_display",
            SettingsItem::DefaultEnableKvm => "default_enable_kvm",
            SettingsItem::ConfirmBeforeLaunch => "confirm_before_launch",
            SettingsItem::GpuPassthroughHeader => "gpu_passthrough_header",
            SettingsItem::GpuPassthroughDisabled => "gpu_passthrough_disabled",
            SettingsItem::EnableMultiGpuPassthrough => "enable_multi_gpu_passthrough",
            SettingsItem::MultiGpuIvshmemSize => "multi_gpu_ivshmem_size",
            SettingsItem::MultiGpuShowWarnings | SettingsItem::SingleGpuShowWarnings => "show_gpu_warnings",
            SettingsItem::MultiGpuAutoLaunchLookingGlass => "auto_launch_looking_glass",
            SettingsItem::EnableSingleGpuPassthrough => "enable_single_gpu_passthrough",
            SettingsItem::SingleGpuRunSetup => "single_gpu_run_setup",
            SettingsItem::SingleGpuAutoTty => "single_gpu_auto_tty",
        }
    }
}

} // verus!

verus! {

/// "Yes" or "No".
pub open spec fn yes_no(b: bool) -> Seq<char> {
    if b {
        "Yes"@
    } else {
        "No"@
    }
}

impl SettingsItem {
    /// The value shown beside the item (the library path as `Path::display`
    /// writes it).
    pub open spec fn value_text(self, config: Config) -> Seq<char> {
        match self {
            SettingsItem::VmLibraryPath => path_shown(config.vm_library_path),
            SettingsItem::DefaultMemory => dec(config.default_memory_mb as nat),
            SettingsItem::DefaultCpuCores => dec(config.default_cpu_cores as nat),
            SettingsItem::DefaultDiskSize => dec(config.default_disk_size_gb as nat),
            SettingsItem::DefaultDisplay => config.default_display@,
            SettingsItem::DefaultEnableKvm => yes_no(config.default_enable_kvm),
            SettingsItem::ConfirmBeforeLaunch => yes_no(config.confirm_before_launch),
            SettingsItem::MultiGpuIvshmemSize => dec(config.default_ivshmem_size_mb as nat),
            SettingsItem::MultiGpuShowWarnings => yes_no(config.show_gpu_warnings),
            SettingsItem::MultiGpuAutoLaunchLookingGlass => yes_no(config.looking_glass_auto_launch),
            SettingsItem::SingleGpuAutoTty => yes_no(config.single_gpu_auto_tty),
            SettingsItem::SingleGpuShowWarnings => yes_no(config.show_gpu_warnings),
            _ => Seq::empty(),
        }
    }

    /// Get the current value as a string.
    pub fn get_value(&self, config: &Config) -> (res: String)
        ensures
            res@ == self.value_text(*config),
    {
        match self {
            SettingsItem::VmLibraryPath => path_display(&config.vm_library_path),
            SettingsItem::DefaultMemory => dec_string(config.default_memory_mb as u64),
            SettingsItem::DefaultCpuCores => dec_string(config.default_cpu_cores as u64),
            SettingsItem::DefaultDiskSize => dec_string(config.default_disk_size_gb as u64),
            SettingsItem::DefaultDisplay => config.default_display.clone(),
            SettingsItem::DefaultEnableKvm => bool_to_yes_no(config.default_enable_kvm),
            SettingsItem::ConfirmBeforeLaunch => bool_to_yes_no(config.confirm_before_launch),
            SettingsItem::MultiGpuIvshmemSize => dec_string(config.default_ivshmem_size_mb as u64),
            SettingsItem::MultiGpuShowWarnings => bool_to_yes_no(config.show_gpu_warnings),
            SettingsItem::MultiGpuAutoLaunchLookingGlass => bool_to_yes_no(
                config.looking_glass_auto_launch,
            ),
            SettingsItem::SingleGpuAutoTty => bool_to_yes_no(config.single_gpu_auto_tty),
            SettingsItem::SingleGpuShowWarnings => bool_to_yes_no(config.show_gpu_warnings),
            _ => String::new(),
        }
    }
}

fn bool_to_yes_no(b: bool) -> (res: String)
    ensures
        res@ == yes_no(b),
{
    if b {
        String::from_str("Yes")
    } else {
        String::from_str("No")
    }
}

/// A row of the settings list: its item, its indentation level and what
/// kind of row it is.
#[derive(Debug, Clone, Copy, PartialEq, Eq, Structural)]
pub struct VisibleItem {
    pub item: SettingsItem,
    pub indent: usize,
    pub is_header: bool,
    pub is_radio: bool,
    pub is_action: bool,
}

/// The row for `item` at level `indent`.
pub open spec fn row(item: SettingsItem, indent: usize) -> VisibleItem {
    VisibleItem {
        item,
        indent,
        is_header: item is GpuPassthroughHeader,
        is_radio: item.radio(),
        is_action: item is SingleGpuRunSetup,
    }
}

/// The rows shown: the general settings, then the GPU passthrough group
/// with each mode's own settings under it while that mode is on.
pub open spec fn visible_rows(multi_gpu: bool, single_gpu: bool) -> Seq<VisibleItem> {
    seq![
        row(SettingsItem::VmLibraryPath, 0),
        row(SettingsItem::DefaultMemory, 0),
        row(SettingsItem::DefaultCpuCores, 0),
        row(SettingsItem::DefaultDiskSize, 0),
        row(SettingsItem::DefaultDisplay, 0),
        row(SettingsItem::DefaultEnableKvm, 0),
        row(SettingsItem::ConfirmBeforeLaunch, 0),
        row(SettingsItem::GpuPassthroughHeader, 0),
        row(SettingsItem::GpuPassthroughDisabled, 1),
        row(SettingsItem::EnableMultiGpuPassthrough, 1),
    ] + (if multi_gpu {
        seq![
            row(SettingsItem::MultiGpuIvshmemSize, 2),
            row(SettingsItem::MultiGpuShowWarnings, 2),
            row(SettingsItem::MultiGpuAutoLaunchLookingGlass, 2),
        ]
    } else {
        Seq::empty()
    }) + seq![row(SettingsItem::EnableSingleGpuPassthrough, 1)] + (if single_gpu {
        seq![
            row(SettingsItem::SingleGpuRunSetup, 2),
            row(SettingsItem::SingleGpuAutoTty, 2),
            row(SettingsItem::SingleGpuShowWarnings, 2),
        ]
    } else {
        Seq::empty()
    })
}

/// The rows of the settings screen for `config`.
pub open spec fn rows_for(config: Config) -> Seq<VisibleItem> {
    visible_rows(config.enable_multi_gpu_passthrough, config.single_gpu_enabled)
}

fn make_visible(item: SettingsItem, indent: usize) -> (res: VisibleItem)
    ensures
        res == row(item, indent),
{
    VisibleItem {
        is_header: item.is_header(),
        is_radio: item.is_radio(),
        is_action: item.is_action(),
        item,
        indent,
    }
}

/// Build the list of visible rows for the current configuration.
pub fn build_visible_items(config: &Config) -> (res: Vec<VisibleItem>)
    ensures
        res@ == rows_for(*config),
{
    let mut items = Vec::new();
    items.push(make_visible(SettingsItem::VmLibraryPath, 0));
    items.push(make_visible(SettingsItem::DefaultMemory, 0));
    items.push(make_visible(SettingsItem::DefaultCpuCores, 0));
    items.push(make_visible(SettingsItem::DefaultDiskSize, 0));
    items.push(make_visible(SettingsItem::DefaultDisplay, 0));
    items.push(make_visible(SettingsItem::DefaultEnableKvm, 0));
    items.push(make_visible(SettingsItem::ConfirmBeforeLaunch, 0));
    items.push(make_visible(SettingsItem::GpuPassthroughHeader, 0));
    items.push(make_visible(SettingsItem::GpuPassthroughDisabled, 1));
    items.push(make_visible(SettingsItem::EnableMultiGpuPassthrough, 1));
    if config.enable_multi_gpu_passthrough {
        items.push(make_visible(SettingsItem::MultiGpuIvshmemSize, 2));
        items.push(make_visible(SettingsItem::MultiGpuShowWarnings, 2));
        items.push(make_visible(SettingsItem::MultiGpuAutoLaunchLookingGlass, 2));
    }
    items.push(make_visible(SettingsItem::EnableSingleGpuPassthrough, 1));
    if config.single_gpu_enabled {
        items.push(make_visible(SettingsItem::SingleGpuRunSetup, 2));
        items.push(make_visible(SettingsItem::SingleGpuAutoTty, 2));
        items.push(make_visible(SettingsItem::SingleGpuShowWarnings, 2));
    }
    proof {
        assert(items@ =~= rows_for(*config));
    }
    items
}

} // verus!

verus! {

/// Row `i` exists and can be highlighted (it is no section header).
pub open spec fn selectable(rows: Seq<VisibleItem>, i: int) -> bool {
    0 <= i < rows.len() && !rows[i].is_header
}

/// Walking up from row `i`: the first row at or above it that can be
/// highlighted, or the top row.
pub open spec fn walk_up(rows: Seq<VisibleItem>, i: int) -> int
    decreases i,
{
    if i <= 0 || selectable(rows, i) {
        i
    } else {
        walk_up(rows, i - 1)
    }
}

/// Walking down from row `i`: the first row at or below it that can be
/// highlighted, or row `last`.
pub open spec fn walk_down(rows: Seq<VisibleItem>, i: int, last: int) -> int
    decreases last - i,
{
    if i >= last || selectable(rows, i) {
        i
    } else {
        walk_down(rows, i + 1, last)
    }
}

/// The index of the last row (0 for an empty list).
pub open spec fn last_row(rows: Seq<VisibleItem>) -> int {
    if rows.len() == 0 {
        0
    } else {
        rows.len() - 1
    }
}

/// The highlighted row after moving up from `selected`.
pub open spec fn row_above(rows: Seq<VisibleItem>, selected: int) -> int {
    if selected > 0 {
        walk_up(rows, selected - 1)
    } else {
        selected
    }
}

/// The highlighted row after moving down from `selected`.
pub open spec fn row_below(rows: Seq<VisibleItem>, selected: int) -> int {
    if selected < last_row(rows) {
        walk_down(rows, selected + 1, last_row(rows))
    } else {
        selected
    }
}

/// The highlight kept within the list: past its end it moves to the last row.
pub open spec fn clamped(len: int, selected: int) -> int {
    if selected >= len {
        if len == 0 {
            0
        } else {
            len - 1
        }
    } else {
        selected
    }
}

/// Move the highlight up, skipping section headers.
pub fn select_previous(rows: &Vec<VisibleItem>, selected: usize) -> (res: usize)
    ensures
        res == row_above(rows@, selected as int),
{
    let mut sel = selected;
    if sel > 0 {
        sel -= 1;
        while sel > 0
            invariant
                0 <= sel < selected,
                walk_up(rows@, sel as int) == walk_up(rows@, selected - 1),
            ensures
                sel == walk_up(rows@, selected - 1),
            decreases sel,
        {
            if sel < rows.len() && !rows[sel].is_header {
                break;
            }
            sel -= 1;
        }
    }
    sel
}

/// Move the highlight down, skipping section headers.
pub fn select_next(rows: &Vec<VisibleItem>, selected: usize) -> (res: usize)
    ensures
        res == row_below(rows@, selected as int),
{
    let last: usize = if rows.len() == 0 {
        0
    } else {
        rows.len() - 1
    };
    let mut sel = selected;
    if sel < last {
        sel += 1;
        while sel < last
            invariant
                selected < sel <= last,
                last == last_row(rows@),
                walk_down(rows@, sel as int, last as int) == walk_down(
                    rows@,
                    selected + 1,
                    last as int,
                ),
            ensures
                sel == walk_down(rows@, selected + 1, last as int),
            decreases last - sel,
        {
            if sel < rows.len() && !rows[sel].is_header {
                break;
            }
            sel += 1;
        }
    }
    sel
}

/// Keep the highlight within a list of `len` rows.
pub fn clamp_selection(len: usize, selected: usize) -> (res: usize)
    ensures
        res == clamped(len as int, selected as int),
{
    if selected >= len {
        if len == 0 {
            0
        } else {
            len - 1
        }
    } else {
        selected
    }
}

/// Moving the highlight never stops on a section header: it lands on a row
/// that can be highlighted, or on the first or last row, and every row it
/// passes over is a header (or past the end of the list).
pub proof fn lemma_moves_skip_headers(rows: Seq<VisibleItem>, selected: int)
    requires
        0 <= selected,
    ensures
        selected > 0 ==> {
            let r = row_above(rows, selected);
            &&& 0 <= r < selected
            &&& r == 0 || selectable(rows, r)
            &&& forall|k: int| r < k < selected ==> !selectable(rows, k)
        },
        selected < last_row(rows) ==> {
            let r = row_below(rows, selected);
            &&& selected < r <= last_row(rows)
            &&& r == last_row(rows) || selectable(rows, r)
            &&& forall|k: int| selected < k < r ==> !selectable(rows, k)
        },
{
    if selected > 0 {
        lemma_walk_up(rows, selected - 1);
    }
    if selected < last_row(rows) {
        lemma_walk_down(rows, selected + 1, last_row(rows));
    }
}

proof fn lemma_walk_up(rows: Seq<VisibleItem>, i: int)
    requires
        0 <= i,
    ensures
        0 <= walk_up(rows, i) <= i,
        walk_up(rows, i) == 0 || selectable(rows, walk_up(rows, i)),
        forall|k: int| walk_up(rows, i) < k <= i ==> !selectable(rows, k),
    decreases i,
{
    if i > 0 && !selectable(rows, i) {
        lemma_walk_up(rows, i - 1);
    }
}

proof fn lemma_walk_down(rows: Seq<VisibleItem>, i: int, last: int)
    requires
        i <= last,
    ensures
        i <= walk_down(rows, i, last) <= last,
        walk_down(rows, i, last) == last || selectable(rows, walk_down(rows, i, last)),
        forall|k: int| i <= k < walk_down(rows, i, last) ==> !selectable(rows, k),
    decreases last - i,
{
    if i < last && !selectable(rows, i) {
        lemma_walk_down(rows, i + 1, last);
    }
}

} // verus!

verus! {

/// The result of a GPU passthrough check, shown beside the settings list.
#[derive(Debug)]
pub enum GpuValidationResult {
    MultiGpu(MultiGpuPassthroughStatus),
    SingleGpu(SingleGpuSupport),
}

/// Which GPU passthrough check the screen shows after a mode was chosen.
#[derive(Debug, Clone, Copy, PartialEq, Eq, Structural)]
pub enum GpuCheck {
    /// No mode: the check panel is cleared.
    Clear,
    /// Check the host for multi-GPU passthrough.
    MultiGpu,
    /// Check the host for single-GPU passthrough.
    SingleGpu,
    /// The panel stays as it is.
    Keep,
}

/// `c` with the two GPU passthrough modes set to `multi` and `single`.
pub open spec fn with_gpu_modes(c: Config, multi: bool, single: bool) -> Config {
    Config { enable_multi_gpu_passthrough: multi, single_gpu_enabled: single, ..c }
}

/// The configuration after the radio row `item` was chosen.
pub open spec fn after_radio(c: Config, item: SettingsItem) -> Config {
    match item {
        SettingsItem::GpuPassthroughDisabled => with_gpu_modes(c, false, false),
        SettingsItem::EnableMultiGpuPassthrough => with_gpu_modes(c, true, false),
        SettingsItem::EnableSingleGpuPassthrough => with_gpu_modes(c, false, true),
        _ => c,
    }
}

/// The check that choosing the radio row `item` asks for.
pub open spec fn radio_check(item: SettingsItem) -> GpuCheck {
    match item {
        SettingsItem::GpuPassthroughDisabled => GpuCheck::Clear,
        SettingsItem::EnableMultiGpuPassthrough => GpuCheck::MultiGpu,
        SettingsItem::EnableSingleGpuPassthrough => GpuCheck::SingleGpu,
        _ => GpuCheck::Keep,
    }
}

/// The configuration after the yes/no setting `item` was flipped.
pub open spec fn after_toggle(c: Config, item: SettingsItem) -> Config {
    match item {
        SettingsItem::DefaultEnableKvm => Config { default_enable_kvm: !c.default_enable_kvm, ..c },
        SettingsItem::ConfirmBeforeLaunch => Config {
            confirm_before_launch: !c.confirm_before_launch,
            ..c
        },
        SettingsItem::MultiGpuShowWarnings => Config { show_gpu_warnings: !c.show_gpu_warnings, ..c },
        SettingsItem::SingleGpuShowWarnings => Config { show_gpu_warnings: !c.show_gpu_warnings, ..c },
        SettingsItem::MultiGpuAutoLaunchLookingGlass => Config {
            looking_glass_auto_launch: !c.looking_glass_auto_launch,
            ..c
        },
        SettingsItem::SingleGpuAutoTty => Config { single_gpu_auto_tty: !c.single_gpu_auto_tty, ..c },
        _ => c,
    }
}

/// Choose a GPU passthrough mode: the chosen mode is switched on and the
/// other off (both off for "Disabled").
pub fn toggle_radio(config: &mut Config, item: SettingsItem) -> (check: GpuCheck)
    ensures
        *final(config) == after_radio(*old(config), item),
        check == radio_check(item),
{
    match item {
        SettingsItem::GpuPassthroughDisabled => {
            config.enable_multi_gpu_passthrough = false;
            config.single_gpu_enabled = false;
            GpuCheck::Clear
        },
        SettingsItem::EnableMultiGpuPassthrough => {
            config.enable_multi_gpu_passthrough = true;
            config.single_gpu_enabled = false;
            GpuCheck::MultiGpu
        },
        SettingsItem::EnableSingleGpuPassthrough => {
            config.single_gpu_enabled = true;
            config.enable_multi_gpu_passthrough = false;
            GpuCheck::SingleGpu
        },
        _ => GpuCheck::Keep,
    }
}

/// Flip a yes/no setting.
pub fn toggle_setting(config: &mut Config, item: SettingsItem)
    ensures
        *final(config) == after_toggle(*old(config), item),
{
    match item {
        SettingsItem::DefaultEnableKvm => {
            config.default_enable_kvm = !config.default_enable_kvm;
        },
        SettingsItem::ConfirmBeforeLaunch => {
            config.confirm_before_launch = !config.confirm_before_launch;
        },
        SettingsItem::MultiGpuShowWarnings | SettingsItem::SingleGpuShowWarnings => {
            config.show_gpu_warnings = !config.show_gpu_warnings;
        },
        SettingsItem::MultiGpuAutoLaunchLookingGlass => {
            config.looking_glass_auto_launch = !config.looking_glass_auto_launch;
        },
        SettingsItem::SingleGpuAutoTty => {
            config.single_gpu_auto_tty = !config.single_gpu_auto_tty;
        },
        _ => {},
    }
}

/// Choosing a radio row leaves exactly the chosen GPU passthrough mode on:
/// the two modes are never on together.
pub proof fn lemma_radio_modes_exclusive(c: Config, item: SettingsItem)
    requires
        item.radio(),
    ensures
        !(after_radio(c, item).enable_multi_gpu_passthrough && after_radio(c, item).single_gpu_enabled),
        after_radio(c, item).enable_multi_gpu_passthrough <==> item is EnableMultiGpuPassthrough,
        after_radio(c, item).single_gpu_enabled <==> item is EnableSingleGpuPassthrough,
{
}

/// Flipping a yes/no setting twice gives back the configuration.
pub proof fn lemma_toggle_setting_twice(c: Config, item: SettingsItem)
    ensures
        after_toggle(after_toggle(c, item), item) == c,
{
}

} // verus!

verus! {

/// The display backend after `current` in the cycle gtk, sdl, spice (a
/// backend outside the cycle counts as gtk).
pub open spec fn next_display(current: Seq<char>) -> Seq<char> {
    if current == "gtk"@ {
        "sdl"@
    } else if current == "sdl"@ {
        "spice"@
    } else if current == "spice"@ {
        "gtk"@
    } else {
        "sdl"@
    }
}

/// `new` is `old` with the display backend set to `display`.
pub open spec fn display_set(old: Config, new: Config, display: Seq<char>) -> bool {
    &&& new.default_display@ == display
    &&& new == Config { default_display: new.default_display, ..old }
}

/// Step a cycle setting to its next option; true when `item` is one (the
/// configuration then changed and is to be saved).
pub fn cycle_setting(config: &mut Config, item: SettingsItem) -> (changed: bool)
    ensures
        changed == (item is DefaultDisplay),
        changed ==> display_set(*old(config), *final(config), next_display(old(config).default_display@)),
        !changed ==> *final(config) == *old(config),
{
    proof {
        lemma_display_names_distinct();
    }
    match item.cycle_options() {
        Some(options) => {
            let current = item.get_value(config);
            let mut current_idx: usize = 0;
            let mut i: usize = 0;
            while i < options.len()
                invariant_except_break
                    current_idx == 0,
                invariant
                    options@.len() == 3,
                    options@[0]@ == "gtk"@,
                    options@[1]@ == "sdl"@,
                    options@[2]@ == "spice"@,
                    i <= 3,
                    forall|k: int| 0 <= k < i ==> options@[k]@ != current@,
                ensures
                    i < 3 ==> current_idx == i && options@[i as int]@ == current@,
                    i == 3 ==> current_idx == 0 && forall|k: int|
                        0 <= k < 3 ==> options@[k]@ != current@,
                decreases 3 - i,
            {
                if crate::text::str_eq(current.as_str(), options[i]) {
                    current_idx = i;
                    break;
                }
                i += 1;
            }
            let next_idx = (current_idx + 1) % options.len();
            match item {
                SettingsItem::DefaultDisplay => {
                    config.default_display = String::from_str(options[next_idx]);
                },
                _ => {},
            }
            true
        },
        None => false,
    }
}

/// Cycling the display backend three times from one of the listed backends
/// comes back to it.
pub proof fn lemma_cycle_display_returns(d: Seq<char>)
    requires
        d == "gtk"@ || d == "sdl"@ || d == "spice"@,
    ensures
        next_display(next_display(next_display(d))) == d,
{
    lemma_display_names_distinct();
}

proof fn lemma_display_names_distinct()
    ensures
        "gtk"@ != "sdl"@,
        "gtk"@ != "spice"@,
        "sdl"@ != "spice"@,
{
    reveal_strlit("gtk");
    reveal_strlit("sdl");
    reveal_strlit("spice");
    assert("gtk"@[0] != "sdl"@[0]);
    assert("gtk"@.len() != "spice"@.len());
    assert("sdl"@.len() != "spice"@.len());
}

} // verus!

verus! {

/// `v` clamped into `lo..=hi`.
pub open spec fn clamp_to(v: int, lo: int, hi: int) -> int {
    if v < lo {
        lo
    } else if v > hi {
        hi
    } else {
        v
    }
}

/// `new` is `old` after the edited text `v` was applied to `item`: a number
/// that does not parse leaves the configuration as it was; core and disk
/// counts are at least 1, the IVSHMEM size is kept within 16..=512 MB.
pub open spec fn edited(old: Config, new: Config, item: SettingsItem, v: Seq<char>) -> bool {
    match item {
        SettingsItem::DefaultMemory => new == match parse_u32_spec(v) {
            Some(n) => Config { default_memory_mb: n as u32, ..old },
            None => old,
        },
        SettingsItem::DefaultCpuCores => new == match parse_u32_spec(v) {
            Some(n) => Config { default_cpu_cores: clamp_to(n, 1, n) as u32, ..old },
            None => old,
        },
        SettingsItem::DefaultDiskSize => new == match parse_u32_spec(v) {
            Some(n) => Config { default_disk_size_gb: clamp_to(n, 1, n) as u32, ..old },
            None => old,
        },
        SettingsItem::DefaultDisplay => display_set(old, new, v),
        SettingsItem::MultiGpuIvshmemSize => new == match parse_u32_spec(v) {
            Some(n) => Config { default_ivshmem_size_mb: clamp_to(n, 16, 512) as u32, ..old },
            None => old,
        },
        _ => new == old,
    }
}

/// `str::parse::<u32>()`.
fn parse_u32(s: &str) -> (res: Option<u32>)
    ensures
        match parse_u32_spec(s@) {
            Some(n) => res matches Some(r) && r as int == n,
            None => res is None,
        },
{
    let cs = chars_of(s);
    proof {
        assert(cs@.subrange(0, cs@.len() as int) == cs@);
    }
    match parse_unsigned_range(&cs, 0, cs.len(), 10, 0xffff_ffff) {
        Some(v) => Some(v as u32),
        None => None,
    }
}

/// Apply the edited text (trimmed) to a setting other than the library
/// path, whose new path needs the file system (see `library_path_input`).
pub fn apply_edit(config: &mut Config, item: SettingsItem, input: &str)
    requires
        !(item is VmLibraryPath),
    ensures
        edited(*old(config), *final(config), item, trim_ws(input@)),
{
    let value = trim(input);
    match item {
        SettingsItem::DefaultMemory => {
            if let Some(mb) = parse_u32(value.as_str()) {
                config.default_memory_mb = mb;
            }
        },
        SettingsItem::DefaultCpuCores => {
            if let Some(cores) = parse_u32(value.as_str()) {
                config.default_cpu_cores = if cores < 1 {
                    1
                } else {
                    cores
                };
            }
        },
        SettingsItem::DefaultDiskSize => {
            if let Some(gb) = parse_u32(value.as_str()) {
                config.default_disk_size_gb = if gb < 1 {
                    1
                } else {
                    gb
                };
            }
        },
        SettingsItem::DefaultDisplay => {
            config.default_display = value;
        },
        SettingsItem::MultiGpuIvshmemSize => {
            if let Some(mb) = parse_u32(value.as_str()) {
                config.default_ivshmem_size_mb = if mb < 16 {
                    16
                } else if mb > 512 {
                    512
                } else {
                    mb
                };
            }
        },
        _ => {},
    }
}

/// The part after a leading `~/` of a library path typed by the user, which
/// is taken relative to the home directory.
pub fn home_relative(value: &str) -> (res: Option<String>)
    ensures
        has_prefix(value@, "~/"@) ==> (res matches Some(r) && r@ == value@.skip(2)),
        !has_prefix(value@, "~/"@) ==> res is None,
{
    proof {
        reveal_strlit("~/");
    }
    if starts_with(value, "~/") {
        let cs = chars_of(value);
        Some(string_of(slice_range(&cs, 2, cs.len()).as_slice()))
    } else {
        None
    }
}

/// The library path for the typed text: under the home directory for a
/// text starting with `~/` (where the home directory is known), else the
/// text itself.
pub fn library_path_input(value: &str) -> (res: PathBuf)
    ensures
        !has_prefix(value@, "~/"@) ==> res == path_of_text(value@),
        has_prefix(value@, "~/"@) ==> res == path_of_text(value@) || exists|home: PathBuf|
            res == joined(home, value@.skip(2)),
{
    let path = path_from(value);
    match home_relative(value) {
        Some(rest) => match home_dir() {
            Some(home) => {
                let r = path_join(&home, rest.as_str());
                proof {
                    assert(r == joined(home, value@.skip(2)));
                }
                r
            },
            None => path,
        },
        None => path,
    }
}

} // verus!

verus! {

/// A key pressed on the settings screen.
#[derive(Debug, Clone, Copy, PartialEq, Eq, Structural)]
pub enum SettingsKey {
    Enter,
    Esc,
    Backspace,
    Up,
    Down,
    Char(char),
    Other,
}

/// What the host of the settings screen does after a key.
#[derive(Debug, Clone, PartialEq, Eq)]
pub enum SettingsCommand {
    /// Nothing beyond the state change.
    Nothing,
    /// Leave the screen.
    Back,
    /// Save the configuration.
    Save,
    /// Save the configuration and update the GPU check panel.
    SaveAndCheck(GpuCheck),
    /// Run the action of an action row.
    RunAction(SettingsItem),
    /// Set the library path from this text (see `library_path_input`),
    /// creating the directory where it does not exist, then save and clear
    /// the edit buffer.
    SetLibraryPath(String),
}

/// The settings screen's own state: the highlighted row, and whether a
/// value is being edited, with its text so far.
#[derive(Debug)]
pub struct SettingsState {
    pub selected: usize,
    pub editing: bool,
    pub edit_buffer: String,
}

/// Up: the arrow or `k`.
pub open spec fn is_up(key: SettingsKey) -> bool {
    key is Up || key == SettingsKey::Char('k')
}

/// Down: the arrow or `j`.
pub open spec fn is_down(key: SettingsKey) -> bool {
    key is Down || key == SettingsKey::Char('j')
}

/// Activate the highlighted row: Enter or Space.
pub open spec fn is_activate(key: SettingsKey) -> bool {
    key is Enter || key == SettingsKey::Char(' ')
}

/// The highlighted row after the key, before it is kept within the list.
pub open spec fn moved_selection(s: SettingsState, c: Config, key: SettingsKey) -> int {
    if !s.editing && is_up(key) {
        row_above(rows_for(c), s.selected as int)
    } else if !s.editing && is_down(key) {
        row_below(rows_for(c), s.selected as int)
    } else {
        s.selected as int
    }
}

/// Editing state, buffer and configuration unchanged, with command `cmd`.
pub open spec fn only_command(
    s: SettingsState,
    c: Config,
    s2: SettingsState,
    c2: Config,
    cmd: SettingsCommand,
    expected: SettingsCommand,
) -> bool {
    &&& s2.editing == s.editing
    &&& s2.edit_buffer@ == s.edit_buffer@
    &&& c2 == c
    &&& cmd == expected
}

/// A key while a value is being edited: Enter applies the text (trimmed)
/// to the highlighted setting, Esc drops it, Backspace and characters edit it.
pub open spec fn edit_key_handled(
    s: SettingsState,
    c: Config,
    key: SettingsKey,
    s2: SettingsState,
    c2: Config,
    cmd: SettingsCommand,
) -> bool {
    let rows = rows_for(c);
    let v = trim_ws(s.edit_buffer@);
    match key {
        SettingsKey::Enter => {
            &&& !s2.editing
            &&& if s.selected < rows.len() {
                let item = rows[s.selected as int].item;
                if item is VmLibraryPath {
                    &&& c2 == c
                    &&& s2.edit_buffer@ == s.edit_buffer@
                    &&& (cmd matches SettingsCommand::SetLibraryPath(p) && p@ == v)
                } else {
                    &&& edited(c, c2, item, v)
                    &&& s2.edit_buffer@ == Seq::<char>::empty()
                    &&& cmd == SettingsCommand::Save
                }
            } else {
                &&& c2 == c
                &&& s2.edit_buffer@ == s.edit_buffer@
                &&& cmd == SettingsCommand::Nothing
            }
        },
        SettingsKey::Esc => {
            &&& !s2.editing
            &&& s2.edit_buffer@ == Seq::<char>::empty()
            &&& c2 == c
            &&& cmd == SettingsCommand::Nothing
        },
        SettingsKey::Backspace => {
            &&& s2.editing
            &&& s2.edit_buffer@ == (if s.edit_buffer@.len() > 0 {
                s.edit_buffer@.drop_last()
            } else {
                s.edit_buffer@
            })
            &&& c2 == c
            &&& cmd == SettingsCommand::Nothing
        },
        SettingsKey::Char(ch) => {
            &&& s2.editing
            &&& s2.edit_buffer@ == s.edit_buffer@.push(ch)
            &&& c2 == c
            &&& cmd == SettingsCommand::Nothing
        },
        _ => only_command(s, c, s2, c2, cmd, SettingsCommand::Nothing),
    }
}

/// A key while browsing: Esc leaves, Enter or Space acts on the highlighted
/// row by its kind (header: nothing; action: run it; radio: choose the
/// mode; yes/no: flip; display: cycle; any other: start editing its value).
pub open spec fn browse_key_handled(
    s: SettingsState,
    c: Config,
    key: SettingsKey,
    s2: SettingsState,
    c2: Config,
    cmd: SettingsCommand,
) -> bool {
    let rows = rows_for(c);
    if key is Esc {
        only_command(s, c, s2, c2, cmd, SettingsCommand::Back)
    } else if is_activate(key) && s.selected < rows.len() {
        let vi = rows[s.selected as int];
        if vi.is_header {
            only_command(s, c, s2, c2, cmd, SettingsCommand::Nothing)
        } else if vi.is_action {
            only_command(s, c, s2, c2, cmd, SettingsCommand::RunAction(vi.item))
        } else if vi.is_radio {
            &&& c2 == after_radio(c, vi.item)
            &&& only_command(s, c2, s2, c2, cmd, SettingsCommand::SaveAndCheck(radio_check(vi.item)))
        } else if vi.item.toggles() {
            &&& c2 == after_toggle(c, vi.item)
            &&& only_command(s, c2, s2, c2, cmd, SettingsCommand::Save)
        } else if vi.item is DefaultDisplay {
            &&& display_set(c, c2, next_display(c.default_display@))
            &&& only_command(s, c2, s2, c2, cmd, SettingsCommand::Save)
        } else {
            &&& s2.editing
            &&& s2.edit_buffer@ == vi.item.value_text(c)
            &&& c2 == c
            &&& cmd == SettingsCommand::Nothing
        }
    } else {
        only_command(s, c, s2, c2, cmd, SettingsCommand::Nothing)
    }
}

/// The whole effect of a key on the screen's state and the configuration.
pub open spec fn key_handled(
    s: SettingsState,
    c: Config,
    key: SettingsKey,
    s2: SettingsState,
    c2: Config,
    cmd: SettingsCommand,
) -> bool {
    &&& s2.selected == clamped(rows_for(c2).len() as int, moved_selection(s, c, key))
    &&& if s.editing {
        edit_key_handled(s, c, key, s2, c2, cmd)
    } else {
        browse_key_handled(s, c, key, s2, c2, cmd)
    }
}

/// Handle one key on the settings screen.
pub fn handle_settings_key(state: &mut SettingsState, config: &mut Config, key: SettingsKey) -> (cmd:
    SettingsCommand)
    ensures
        key_handled(*old(state), *old(config), key, *final(state), *final(config), cmd),
{
    let rows = build_visible_items(config);
    let mut cmd = SettingsCommand::Nothing;
    if state.editing {
        match key {
            SettingsKey::Enter => {
                if state.selected < rows.len() {
                    let item = rows[state.selected].item;
                    match item {
                        SettingsItem::VmLibraryPath => {
                            cmd = SettingsCommand::SetLibraryPath(trim(state.edit_buffer.as_str()));
                        },
                        _ => {
                            apply_edit(config, item, state.edit_buffer.as_str());
                            state.edit_buffer = String::new();
                            cmd = SettingsCommand::Save;
                        },
                    }
                }
                state.editing = false;
            },
            SettingsKey::Esc => {
                state.editing = false;
                state.edit_buffer = String::new();
            },
            SettingsKey::Backspace => {
                drop_last_char(&mut state.edit_buffer);
            },
            SettingsKey::Char(c) => {
                push_char(&mut state.edit_buffer, c);
            },
            _ => {},
        }
    } else {
        match key {
            SettingsKey::Esc => {
                cmd = SettingsCommand::Back;
            },
            SettingsKey::Up | SettingsKey::Char('k') => {
                state.selected = select_previous(&rows, state.selected);
            },
            SettingsKey::Down | SettingsKey::Char('j') => {
                state.selected = select_next(&rows, state.selected);
            },
            SettingsKey::Enter | SettingsKey::Char(' ') => {
                if state.selected < rows.len() {
                    let vi = rows[state.selected];
                    if vi.is_header {
                    } else if vi.is_action {
                        cmd = SettingsCommand::RunAction(vi.item);
                    } else if vi.is_radio {
                        let check = toggle_radio(config, vi.item);
                        cmd = SettingsCommand::SaveAndCheck(check);
                    } else if vi.item.is_toggle() {
                        toggle_setting(config, vi.item);
                        cmd = SettingsCommand::Save;
                    } else if vi.item.is_cycle() {
                        if cycle_setting(config, vi.item) {
                            cmd = SettingsCommand::Save;
                        }
                    } else {
                        state.edit_buffer = vi.item.get_value(config);
                        state.editing = true;
                    }
                }
            },
            _ => {},
        }
    }
    let rows_after = build_visible_items(config);
    state.selected = clamp_selection(rows_after.len(), state.selected);
    cmd
}

} // verus!

verus! {

/// The settings of the multi-GPU mode.
pub open spec fn multi_gpu_sub(item: SettingsItem) -> bool {
    ||| item is MultiGpuIvshmemSize
    ||| item is MultiGpuShowWarnings
    ||| item is MultiGpuAutoLaunchLookingGlass
}

/// The settings and the action of the single-GPU mode.
pub open spec fn single_gpu_sub(item: SettingsItem) -> bool {
    ||| item is SingleGpuRunSetup
    ||| item is SingleGpuAutoTty
    ||| item is SingleGpuShowWarnings
}

/// Whether some row of `rows` is for `item`.
pub open spec fn shows(rows: Seq<VisibleItem>, item: SettingsItem) -> bool {
    exists|i: int| 0 <= i < rows.len() && #[trigger] rows[i].item == item
}

/// A mode's own settings are listed exactly while that mode is on; every
/// other item is always listed.
pub proof fn lemma_sub_settings_follow_mode(multi: bool, single: bool, item: SettingsItem)
    ensures
        multi_gpu_sub(item) ==> (shows(visible_rows(multi, single), item) <==> multi),
        single_gpu_sub(item) ==> (shows(visible_rows(multi, single), item) <==> single),
        !multi_gpu_sub(item) && !single_gpu_sub(item) ==> shows(visible_rows(multi, single), item),
{
    let rows = visible_rows(multi, single);
    let n: int = if multi {
        3
    } else {
        0
    };
    if shows(rows, item) {
        let i = choose|i: int| 0 <= i < rows.len() && #[trigger] rows[i].item == item;
        assert(0 <= i < rows.len() && rows[i].item == item);
        if multi_gpu_sub(item) {
            assert(10 <= i < 10 + n);
        }
        if single_gpu_sub(item) {
            assert(i >= 11 + n);
        }
    }
    if multi && multi_gpu_sub(item) {
        let i: int = match item {
            SettingsItem::MultiGpuIvshmemSize => 10,
            SettingsItem::MultiGpuShowWarnings => 11,
            _ => 12,
        };
        assert(rows[i].item == item);
    }
    if single && single_gpu_sub(item) {
        let i: int = match item {
            SettingsItem::SingleGpuRunSetup => 11 + n,
            SettingsItem::SingleGpuAutoTty => 12 + n,
            _ => 13 + n,
        };
        assert(rows[i].item == item);
    }
    if !multi_gpu_sub(item) && !single_gpu_sub(item) {
        let i: int = match item {
            SettingsItem::VmLibraryPath => 0,
            SettingsItem::DefaultMemory => 1,
            SettingsItem::DefaultCpuCores => 2,
            SettingsItem::DefaultDiskSize => 3,
            SettingsItem::DefaultDisplay => 4,
            SettingsItem::DefaultEnableKvm => 5,
            SettingsItem::ConfirmBeforeLaunch => 6,
            SettingsItem::GpuPassthroughHeader => 7,
            SettingsItem::GpuPassthroughDisabled => 8,
            SettingsItem::EnableMultiGpuPassthrough => 9,
            _ => 10 + n,
        };
        assert(rows[i].item == item);
    }
}

/// After any key the highlight is on a row of the list.
pub proof fn lemma_highlight_stays_in_list(
    s: SettingsState,
    c: Config,
    key: SettingsKey,
    s2: SettingsState,
    c2: Config,
    cmd: SettingsCommand,
)
    requires
        key_handled(s, c, key, s2, c2, cmd),
    ensures
        s2.selected < rows_for(c2).len(),
{
    assert(rows_for(c2).len() >= 11);
    if !s.editing && is_up(key) && s.selected > 0 {
        lemma_moves_skip_headers(rows_for(c), s.selected as int);
    }
}

} // verus!

verus! {

/// The indentation of a row: two spaces per level.
pub open spec fn indent_text(level: nat) -> Seq<char>
    decreases level,
{
    if level == 0 {
        Seq::empty()
    } else {
        indent_text((level - 1) as nat) + "  "@
    }
}

/// Whether the radio row `item` is the chosen GPU passthrough mode.
pub open spec fn radio_on(item: SettingsItem, c: Config) -> bool {
    match item {
        SettingsItem::GpuPassthroughDisabled => !c.enable_multi_gpu_passthrough
            && !c.single_gpu_enabled,
        SettingsItem::EnableMultiGpuPassthrough => c.enable_multi_gpu_passthrough,
        SettingsItem::EnableSingleGpuPassthrough => c.single_gpu_enabled,
        _ => false,
    }
}

/// The text of a row: a header between dashes, an action by its name, a
/// radio row with its mark, any other row with its value (the edited text
/// and a cursor bar while it is edited, no value where it is empty).
pub open spec fn row_text(vi: VisibleItem, c: Config, editing_here: bool, buffer: Seq<char>) -> Seq<
    char,
> {
    let ind = indent_text(vi.indent as nat);
    let name = vi.item.label();
    if vi.is_header {
        ind + "--- "@ + name + " ---"@
    } else if vi.is_action {
        ind + name
    } else if vi.is_radio {
        ind + (if radio_on(vi.item, c) {
            "(*)"@
        } else {
            "( )"@
        }) + " "@ + name
    } else {
        let value = if editing_here {
            buffer
        } else {
            vi.item.value_text(c)
        };
        if editing_here {
            ind + name + " : "@ + value + "|"@
        } else if value.len() == 0 {
            ind + name
        } else {
            ind + name + " : "@ + value
        }
    }
}

/// The text of a settings row (`editing_here`: its value is being edited,
/// with `buffer` typed so far).
pub fn settings_row_text(vi: &VisibleItem, config: &Config, editing_here: bool, buffer: &str) -> (res:
    String)
    ensures
        res@ == row_text(*vi, *config, editing_here, buffer@),
{
    let mut out = String::new();
    let mut k: usize = 0;
    while k < vi.indent
        invariant
            k <= vi.indent,
            out@ == indent_text(k as nat),
        decreases vi.indent - k,
    {
        out.append("  ");
        k += 1;
    }
    let name = vi.item.display_name();
    if vi.is_header {
        out.append("--- ");
        out.append(name);
        out.append(" ---");
    } else if vi.is_action {
        out.append(name);
    } else if vi.is_radio {
        let on = match vi.item {
            SettingsItem::GpuPassthroughDisabled => !config.enable_multi_gpu_passthrough
                && !config.single_gpu_enabled,
            SettingsItem::EnableMultiGpuPassthrough => config.enable_multi_gpu_passthrough,
            SettingsItem::EnableSingleGpuPassthrough => config.single_gpu_enabled,
            _ => false,
        };
        out.append(if on {
            "(*)"
        } else {
            "( )"
        });
        out.append(" ");
        out.append(name);
    } else {
        let value = if editing_here {
            String::from_str(buffer)
        } else {
            vi.item.get_value(config)
        };
        out.append(name);
        if editing_here {
            out.append(" : ");
            out.append(value.as_str());
            out.append("|");
        } else if !value.as_str().is_empty() {
            out.append(" : ");
            out.append(value.as_str());
        }
    }
    proof {
        let ind = indent_text(vi.indent as nat);
        assert(ind + "--- "@ + vi.item.label() + " ---"@ =~= ind + "--- "@ + vi.item.label()
            + " ---"@);
    }
    out
}

/// The key hints of the status bar for the highlighted row (none where
/// no row is highlighted).
pub open spec fn hint_text(editing: bool, current: Option<VisibleItem>) -> Seq<char> {
    if editing {
        "[Enter] Save  [Esc] Cancel"@
    } else if current matches Some(vi) && vi.is_header {
        "[j/k] Navigate  [Esc] Back"@
    } else if current matches Some(vi) && vi.is_action {
        "[Enter] Run  [j/k] Navigate  [Esc] Back"@
    } else if current matches Some(vi) && vi.is_radio {
        "[Enter/Space] Select  [j/k] Navigate  [Esc] Back"@
    } else if current matches Some(vi) && vi.item.toggles() {
        "[Enter/Space] Toggle  [j/k] Navigate  [Esc] Back"@
    } else if current matches Some(vi) && vi.item is DefaultDisplay {
        "[Enter/Space] Cycle  [j/k] Navigate  [Esc] Back"@
    } else {
        "[Enter] Edit  [j/k] Navigate  [Esc] Back"@
    }
}

/// The key hints of the status bar.
pub fn key_hints(editing: bool, current: Option<&VisibleItem>) -> (res: &'static str)
    ensures
        res@ == hint_text(
            editing,
            match current {
                Some(vi) => Some(*vi),
                None => None,
            },
        ),
{
    if editing {
        "[Enter] Save  [Esc] Cancel"
    } else {
        match current {
            Some(vi) => if vi.is_header {
                "[j/k] Navigate  [Esc] Back"
            } else if vi.is_action {
                "[Enter] Run  [j/k] Navigate  [Esc] Back"
            } else if vi.is_radio {
                "[Enter/Space] Select  [j/k] Navigate  [Esc] Back"
            } else if vi.item.is_toggle() {
                "[Enter/Space] Toggle  [j/k] Navigate  [Esc] Back"
            } else if vi.item.is_cycle() {
                "[Enter/Space] Cycle  [j/k] Navigate  [Esc] Back"
            } else {
                "[Enter] Edit  [j/k] Navigate  [Esc] Back"
            },
            None => "[Enter] Edit  [j/k] Navigate  [Esc] Back",
        }
    }
}

} // verus!
