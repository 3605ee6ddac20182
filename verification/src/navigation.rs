//! Where the user is in the interface (the current screen, the screens to
//! go back to, the highlighted menu entry) and what the keys and clicks of
//! the main screen, dialogs, search box and snapshot list do.

use vstd::prelude::*;
use crate::text::{
    alnum, dec, drop_last_char, is_alphanumeric, pad_zeros, push_char, push_padded_digits,
};

verus! {

/// Actions that need confirmation.
#[derive(Debug, Clone, PartialEq, Eq)]
pub enum ConfirmAction {
    LaunchVm,
    ResetVm,
    DeleteVm,
    DeleteSnapshot(String),
    RestoreSnapshot(String),
    DiscardScriptChanges,
    DiscardNotesChanges,
    StopVm,
    ForceStopVm,
}

/// Context for text input dialogs.
#[derive(Debug, Clone, PartialEq, Eq)]
pub enum TextInputContext {
    SnapshotName,
    RenameVm,
}

/// Input mode for text entry.
#[derive(Debug, Clone, PartialEq, Eq)]
pub enum InputMode {
    Normal,
    Editing,
}

/// File browser mode (determines the file filter and behavior).
#[derive(Debug, Clone, Copy, PartialEq, Eq)]
pub enum FileBrowserMode {
    Iso,
    RecoveryImage,
    Disk,
    Directory,
    ImportConfig,
    Bios,
    Floppy,
}

impl Default for FileBrowserMode {
    fn default() -> (res: Self)
        ensures
            res == FileBrowserMode::Iso,
    {
        FileBrowserMode::Iso
    }
}

/// Application screens.
#[derive(Debug, Clone, PartialEq, Eq)]
pub enum Screen {
    /// Main VM list
    MainMenu,
    /// VM management options
    Management,
    /// Configuration view
    Configuration,
    /// Raw launch script view
    RawScript,
    /// Detailed info (history, blurbs)
    DetailedInfo,
    /// Snapshot management
    Snapshots,
    /// Boot options
    BootOptions,
    /// Display options
    DisplayOptions,
    /// USB device selection
    UsbDevices,
    /// PCI device selection for passthrough
    PciPassthrough,
    /// Shared folder management (virtio-9p)
    SharedFolders,
    /// Single GPU passthrough setup
    SingleGpuSetup,
    /// Single GPU passthrough instructions dialog
    SingleGpuInstructions,
    /// Multi-GPU passthrough setup (Looking Glass)
    MultiGpuSetup,
    /// Confirmation dialog
    Confirm(ConfirmAction),
    /// Help screen
    Help,
    /// Search/filter
    Search,
    /// File browser
    FileBrowser,
    /// Text input dialog
    TextInput(TextInputContext),
    /// Error dialog (scrollable)
    ErrorDialog,
    /// VM creation wizard
    CreateWizard,
    /// Custom OS metadata entry during the wizard
    CreateWizardCustomOs,
    /// ISO download progress screen
    CreateWizardDownload,
    /// Network settings (backend + port forwarding)
    NetworkSettings,
    /// Application settings
    Settings,
    /// VM import wizard
    ImportWizard,
    /// Notes editor
    EditNotes,
}

/// The current screen, the screens below it, and the highlighted menu entry.
#[derive(Debug)]
pub struct Navigation {
    /// Current screen
    pub screen: Screen,
    /// Screens to go back to, the most recent last
    pub screen_stack: Vec<Screen>,
    /// Highlighted entry of the current menu
    pub selected_menu_item: usize,
}

/// The screen and history after opening `next`.
pub open spec fn opened(screen: Screen, stack: Seq<Screen>, next: Screen) -> (Screen, Seq<Screen>) {
    (next, stack.push(screen))
}

/// The screen and history after going back (unchanged at the first screen).
pub open spec fn went_back(screen: Screen, stack: Seq<Screen>) -> (Screen, Seq<Screen>) {
    if stack.len() > 0 {
        (stack.last(), stack.drop_last())
    } else {
        (screen, stack)
    }
}

impl Navigation {
    /// Starts at the main VM list.
    pub fn new() -> (res: Self)
        ensures
            res.screen == Screen::MainMenu,
            res.screen_stack@.len() == 0,
            res.selected_menu_item == 0,
    {
        Navigation { screen: Screen::MainMenu, screen_stack: Vec::new(), selected_menu_item: 0 }
    }

    /// Opens `screen` over the current one, highlighting its first entry.
    pub fn push_screen(&mut self, screen: Screen)
        ensures
            (final(self).screen, final(self).screen_stack@) == opened(
                old(self).screen,
                old(self).screen_stack@,
                screen,
            ),
            final(self).selected_menu_item == 0,
    {
        let mut previous = screen;
        std::mem::swap(&mut previous, &mut self.screen);
        self.screen_stack.push(previous);
        self.selected_menu_item = 0;
    }

    /// Goes back to the previous screen, where there is one.
    pub fn pop_screen(&mut self)
        ensures
            (final(self).screen, final(self).screen_stack@) == went_back(
                old(self).screen,
                old(self).screen_stack@,
            ),
            final(self).selected_menu_item == old(self).selected_menu_item,
    {
        match self.screen_stack.pop() {
            Some(prev) => {
                self.screen = prev;
            },
            None => {},
        }
    }

    /// Moves the highlight up one entry, stopping at the first.
    pub fn menu_prev(&mut self)
        ensures
            final(self).selected_menu_item == if old(self).selected_menu_item > 0 {
                (old(self).selected_menu_item - 1) as usize
            } else {
                0
            },
            final(self).screen == old(self).screen,
            final(self).screen_stack@ == old(self).screen_stack@,
    {
        if self.selected_menu_item > 0 {
            self.selected_menu_item -= 1;
        }
    }

    /// Moves the highlight down one entry of a menu of `max_items`, stopping
    /// at the last.
    pub fn menu_next(&mut self, max_items: usize)
        ensures
            final(self).selected_menu_item == if old(self).selected_menu_item + 1 < max_items {
                (old(self).selected_menu_item + 1) as usize
            } else {
                old(self).selected_menu_item
            },
            final(self).screen == old(self).screen,
            final(self).screen_stack@ == old(self).screen_stack@,
    {
        if max_items > 0 && self.selected_menu_item < max_items - 1 {
            self.selected_menu_item += 1;
        }
    }
}

/// Going back after opening a screen returns to the screen and the history
/// from before.
pub proof fn lemma_back_after_open(screen: Screen, stack: Seq<Screen>, next: Screen)
    ensures
        ({
            let (s, h) = opened(screen, stack, next);
            went_back(s, h)
        }) == (screen, stack),
{
    assert(stack.push(screen).drop_last() =~= stack);
}

} // verus!

verus! {

/// The button of a confirmation dialog under a click.
#[derive(Debug, Clone, Copy, PartialEq, Eq, Structural)]
pub enum ConfirmButton {
    Yes,
    No,
    Neither,
}

/// `a - b`, or 0 where `b` is larger.
pub open spec fn sat_sub(a: int, b: int) -> int {
    if a >= b {
        a - b
    } else {
        0
    }
}

/// The confirmation dialog on a `width` × `height` terminal: at most 50 × 8
/// cells (4 less than the terminal), centred; returns (x, y, width, height).
pub open spec fn confirm_dialog_area(width: int, height: int) -> (int, int, int, int) {
    let dw = if 50 <= sat_sub(width, 4) {
        50
    } else {
        sat_sub(width, 4)
    };
    let dh = if 8 <= sat_sub(height, 4) {
        8
    } else {
        sat_sub(height, 4)
    };
    (sat_sub(width, dw) / 2, sat_sub(height, dh) / 2, dw, dh)
}

/// The button under a click: the dialog's last two inner rows hold "Yes"
/// in the left half of the inner width and "No" in the right half.
pub open spec fn confirm_button_at(width: int, height: int, x: int, y: int) -> ConfirmButton {
    let (dx, dy, dw, dh) = confirm_dialog_area(width, height);
    let inner_x = dx + 1;
    let inner_w = sat_sub(dw, 2);
    let buttons_y = dy + 1 + sat_sub(sat_sub(dh, 2), 2);
    let center_x = inner_x + inner_w / 2;
    if buttons_y <= y < buttons_y + 2 {
        if inner_x <= x < center_x {
            ConfirmButton::Yes
        } else if center_x <= x < inner_x + inner_w {
            ConfirmButton::No
        } else {
            ConfirmButton::Neither
        }
    } else {
        ConfirmButton::Neither
    }
}

/// Whether a click falls outside the dialog (which cancels it).
pub open spec fn outside_confirm_dialog(width: int, height: int, x: int, y: int) -> bool {
    let (dx, dy, dw, dh) = confirm_dialog_area(width, height);
    x < dx || x >= dx + dw || y < dy || y >= dy + dh
}

/// What a click at (`x`, `y`) does on a confirmation dialog: the button it
/// hits, and whether it falls outside the dialog.
pub fn confirm_click(width: u16, height: u16, x: u16, y: u16) -> (res: (ConfirmButton, bool))
    ensures
        res.0 == confirm_button_at(width as int, height as int, x as int, y as int),
        res.1 == outside_confirm_dialog(width as int, height as int, x as int, y as int),
{
    let dialog_width: u16 = if 50 <= width.saturating_sub(4) {
        50
    } else {
        width.saturating_sub(4)
    };
    let dialog_height: u16 = if 8 <= height.saturating_sub(4) {
        8
    } else {
        height.saturating_sub(4)
    };
    let dialog_x = width.saturating_sub(dialog_width) / 2;
    let dialog_y = height.saturating_sub(dialog_height) / 2;
    let inner_x = dialog_x + 1;
    let inner_y = dialog_y + 1;
    let inner_width = dialog_width.saturating_sub(2);
    let inner_height = dialog_height.saturating_sub(2);
    let buttons_y = inner_y + inner_height.saturating_sub(2);
    let mut button = ConfirmButton::Neither;
    if y >= buttons_y && y < buttons_y + 2 {
        let center_x = inner_x + inner_width / 2;
        if x >= inner_x && x < center_x {
            button = ConfirmButton::Yes;
        } else if x >= center_x && x < inner_x + inner_width {
            button = ConfirmButton::No;
        }
    }
    let outside = x < dialog_x || x >= dialog_x + dialog_width || y < dialog_y || y >= dialog_y
        + dialog_height;
    (button, outside)
}

} // verus!

verus! {

/// The screens on which text is typed, where `q` is a character and not
/// the quit key.
pub open spec fn takes_text(screen: Screen) -> bool {
    ||| screen is Search
    ||| screen is TextInput
    ||| screen is RawScript
    ||| screen is EditNotes
    ||| screen is CreateWizard
    ||| screen is CreateWizardCustomOs
    ||| screen is NetworkSettings
    ||| screen is ImportWizard
}

/// Whether a key quits the application: Ctrl+C anywhere, `q` or `Q`
/// (whatever the modifiers) outside the screens where text is typed.
/// `key` is the character of a character key, none for any other key.
pub fn is_quit_key(screen: &Screen, key: Option<char>, ctrl: bool) -> (res: bool)
    ensures
        res == ((key == Some('c') && ctrl) || ((key == Some('q') || key == Some('Q'))
            && !takes_text(*screen))),
{
    match key {
        Some(c) => {
            if c == 'c' && ctrl {
                true
            } else if c == 'q' || c == 'Q' {
                !matches!(
                    screen,
                    Screen::Search | Screen::TextInput(_) | Screen::RawScript | Screen::EditNotes
                        | Screen::CreateWizard | Screen::CreateWizardCustomOs
                        | Screen::NetworkSettings | Screen::ImportWizard
                )
            } else {
                false
            }
        },
        None => false,
    }
}

} // verus!

verus! {

/// What a stop request for the selected VM leads to.
#[derive(Debug, Clone, Copy, PartialEq, Eq, Structural)]
pub enum StopDecision {
    /// Ask to confirm a graceful stop.
    ConfirmStop,
    /// The stop was sent over 10 seconds ago: ask to confirm a forced stop.
    ConfirmForceStop,
    /// The stop was sent less than 10 seconds ago: wait.
    StillStopping,
    /// The VM is not running.
    NotRunning,
}

/// Ten seconds in nanoseconds.
pub const FORCE_STOP_AFTER_NANOS: u128 = 10_000_000_000;

/// What a stop request does, given whether the VM runs and how many
/// nanoseconds ago a stop was sent to it (none if none was).
pub fn stop_decision(running: bool, stop_sent_nanos_ago: Option<u128>) -> (res: StopDecision)
    ensures
        res == (if !running {
            StopDecision::NotRunning
        } else {
            match stop_sent_nanos_ago {
                None => StopDecision::ConfirmStop,
                Some(n) => if n > FORCE_STOP_AFTER_NANOS {
                    StopDecision::ConfirmForceStop
                } else {
                    StopDecision::StillStopping
                },
            }
        }),
{
    if !running {
        StopDecision::NotRunning
    } else {
        match stop_sent_nanos_ago {
            None => StopDecision::ConfirmStop,
            Some(n) => if n > FORCE_STOP_AFTER_NANOS {
                StopDecision::ConfirmForceStop
            } else {
                StopDecision::StillStopping
            },
        }
    }
}

} // verus!

verus! {

/// A key in a text input dialog.
#[derive(Debug, Clone, Copy, PartialEq, Eq, Structural)]
pub enum TextKey {
    Enter,
    Esc,
    Backspace,
    Char(char),
    Other,
}

/// What the host does after a key in a text input dialog.
#[derive(Debug, Clone, PartialEq, Eq)]
pub enum TextInputCommand {
    /// Keep the dialog open.
    Stay,
    /// Close the dialog without acting.
    Close,
    /// Close the dialog and act on the entered text (take the snapshot, or
    /// rename the VM).
    Submit(String),
}

/// The characters a dialog accepts: letters, digits, `-`, `_` and `.` for
/// snapshot names; also spaces and parentheses for VM names.
pub open spec fn accepts_char(context: TextInputContext, c: char) -> bool {
    ||| alnum(c)
    ||| c == '-'
    ||| c == '_'
    ||| c == '.'
    ||| (context is RenameVm && (c == ' ' || c == '(' || c == ')'))
}

/// Handle a key in a text input dialog on `buffer`.
pub fn handle_text_input_key(context: &TextInputContext, buffer: &mut String, key: TextKey) -> (cmd:
    TextInputCommand)
    ensures
        match key {
            TextKey::Esc => final(buffer)@.len() == 0 && cmd == TextInputCommand::Close,
            TextKey::Enter => final(buffer)@.len() == 0 && (if old(buffer)@.len() == 0 {
                cmd == TextInputCommand::Close
            } else {
                cmd matches TextInputCommand::Submit(t) && t@ == old(buffer)@
            }),
            TextKey::Backspace => cmd == TextInputCommand::Stay && final(buffer)@ == (
            if old(buffer)@.len() > 0 {
                old(buffer)@.drop_last()
            } else {
                old(buffer)@
            }),
            TextKey::Char(c) => cmd == TextInputCommand::Stay && final(buffer)@ == (
            if accepts_char(*context, c) {
                old(buffer)@.push(c)
            } else {
                old(buffer)@
            }),
            TextKey::Other => cmd == TextInputCommand::Stay && final(buffer)@ == old(buffer)@,
        },
{
    match key {
        TextKey::Esc => {
            *buffer = String::new();
            TextInputCommand::Close
        },
        TextKey::Enter => {
            let input = buffer.clone();
            *buffer = String::new();
            if input.as_str().is_empty() {
                TextInputCommand::Close
            } else {
                TextInputCommand::Submit(input)
            }
        },
        TextKey::Backspace => {
            drop_last_char(buffer);
            TextInputCommand::Stay
        },
        TextKey::Char(c) => {
            let allowed = match context {
                TextInputContext::SnapshotName => is_alphanumeric(c) || c == '-' || c == '_' || c
                    == '.',
                TextInputContext::RenameVm => is_alphanumeric(c) || c == '-' || c == '_' || c == '.'
                    || c == ' ' || c == '(' || c == ')',
            };
            if allowed {
                push_char(buffer, c);
            }
            TextInputCommand::Stay
        },
        TextKey::Other => TextInputCommand::Stay,
    }
}

} // verus!

verus! {

/// A key on the main screen.
#[derive(Debug, Clone, Copy, PartialEq, Eq, Structural)]
pub enum MenuKey {
    Char(char),
    Up,
    Down,
    PageUp,
    PageDown,
    Enter,
    Other,
}

/// What the main screen asks of its host after a key.
#[derive(Debug, Clone, PartialEq, Eq)]
pub enum MainMenuCommand {
    Nothing,
    /// Open a screen over the main one.
    Open(Screen),
    /// Launch the selected VM without asking.
    Launch,
    /// Start the search (typing goes to the search box).
    Search,
    /// Start the VM creation wizard.
    CreateVm,
    /// Start the VM import wizard.
    ImportVm,
    /// Stop the selected VM (see `stop_decision`).
    StopVm,
}

/// The main screen's own state: the selected VM (its position in the list
/// order) and how far its information panel is scrolled.
#[derive(Debug, Clone, Copy, PartialEq, Eq, Structural)]
pub struct MainMenuState {
    pub selected_vm: usize,
    pub info_scroll: u16,
}

/// The state after a key on the main screen, for a list of `vm_count` VMs.
pub open spec fn main_menu_state_after(s: MainMenuState, key: MenuKey, vm_count: nat) -> MainMenuState {
    if key is Down || key == MenuKey::Char('j') {
        if vm_count > 0 && s.selected_vm + 1 < vm_count {
            MainMenuState { selected_vm: (s.selected_vm + 1) as usize, info_scroll: 0 }
        } else {
            s
        }
    } else if key is Up || key == MenuKey::Char('k') {
        if vm_count > 0 && s.selected_vm > 0 {
            MainMenuState { selected_vm: (s.selected_vm - 1) as usize, info_scroll: 0 }
        } else {
            s
        }
    } else if key is PageDown {
        MainMenuState {
            info_scroll: if s.info_scroll + 5 > u16::MAX {
                u16::MAX
            } else {
                (s.info_scroll + 5) as u16
            },
            ..s
        }
    } else if key is PageUp {
        MainMenuState {
            info_scroll: if s.info_scroll >= 5 {
                (s.info_scroll - 5) as u16
            } else {
                0
            },
            ..s
        }
    } else {
        s
    }
}

/// The command after a key on the main screen: `has_vm` tells whether a VM
/// is selected, `confirm_launch` whether launching asks first.
pub open spec fn main_menu_command(key: MenuKey, has_vm: bool, confirm_launch: bool) -> MainMenuCommand {
    match key {
        MenuKey::Enter => if !has_vm {
            MainMenuCommand::Nothing
        } else if confirm_launch {
            MainMenuCommand::Open(Screen::Confirm(ConfirmAction::LaunchVm))
        } else {
            MainMenuCommand::Launch
        },
        MenuKey::Char(c) => if (c == 'm' || c == 'M') {
            if has_vm {
                MainMenuCommand::Open(Screen::Management)
            } else {
                MainMenuCommand::Nothing
            }
        } else if c == '/' {
            MainMenuCommand::Search
        } else if c == '?' {
            MainMenuCommand::Open(Screen::Help)
        } else if c == 'c' || c == 'C' {
            MainMenuCommand::CreateVm
        } else if c == 'i' || c == 'I' {
            MainMenuCommand::ImportVm
        } else if c == 's' || c == 'S' {
            MainMenuCommand::Open(Screen::Settings)
        } else if (c == 'x' || c == 'X') && has_vm {
            MainMenuCommand::StopVm
        } else {
            MainMenuCommand::Nothing
        },
        _ => MainMenuCommand::Nothing,
    }
}

/// Handle a key on the main screen.
pub fn handle_main_menu_key(
    state: &mut MainMenuState,
    key: MenuKey,
    vm_count: usize,
    has_vm: bool,
    confirm_launch: bool,
) -> (cmd: MainMenuCommand)
    ensures
        *final(state) == main_menu_state_after(*old(state), key, vm_count as nat),
        cmd == main_menu_command(key, has_vm, confirm_launch),
{
    match key {
        MenuKey::Down | MenuKey::Char('j') => {
            if vm_count > 0 && state.selected_vm < vm_count - 1 {
                state.selected_vm = state.selected_vm + 1;
                state.info_scroll = 0;
            }
            MainMenuCommand::Nothing
        },
        MenuKey::Up | MenuKey::Char('k') => {
            if vm_count > 0 && state.selected_vm > 0 {
                state.selected_vm = state.selected_vm - 1;
                state.info_scroll = 0;
            }
            MainMenuCommand::Nothing
        },
        MenuKey::PageDown => {
            state.info_scroll = state.info_scroll.saturating_add(5);
            MainMenuCommand::Nothing
        },
        MenuKey::PageUp => {
            state.info_scroll = state.info_scroll.saturating_sub(5);
            MainMenuCommand::Nothing
        },
        MenuKey::Enter => {
            if !has_vm {
                MainMenuCommand::Nothing
            } else if confirm_launch {
                MainMenuCommand::Open(Screen::Confirm(ConfirmAction::LaunchVm))
            } else {
                MainMenuCommand::Launch
            }
        },
        MenuKey::Char(c) => {
            if c == 'm' || c == 'M' {
                if has_vm {
                    MainMenuCommand::Open(Screen::Management)
                } else {
                    MainMenuCommand::Nothing
                }
            } else if c == '/' {
                MainMenuCommand::Search
            } else if c == '?' {
                MainMenuCommand::Open(Screen::Help)
            } else if c == 'c' || c == 'C' {
                MainMenuCommand::CreateVm
            } else if c == 'i' || c == 'I' {
                MainMenuCommand::ImportVm
            } else if c == 's' || c == 'S' {
                MainMenuCommand::Open(Screen::Settings)
            } else if (c == 'x' || c == 'X') && has_vm {
                MainMenuCommand::StopVm
            } else {
                MainMenuCommand::Nothing
            }
        },
        MenuKey::Other => MainMenuCommand::Nothing,
    }
}

} // verus!

verus! {

/// What the snapshot screen asks of its host after a key.
#[derive(Debug, Clone, PartialEq, Eq)]
pub enum SnapshotCommand {
    Nothing,
    /// Leave the screen.
    Back,
    /// Ask for the name of a new snapshot (with a warning where the VM is
    /// running, as the snapshot may then be inconsistent).
    NameNewSnapshot { vm_running: bool },
    /// Open a screen over this one (a confirmation).
    Open(Screen),
}

/// The snapshot screen: `j`/`k` or the arrows move the highlight over the
/// snapshots `names`; `c` asks for a new snapshot's name (where a VM is
/// selected); `r` and `d` ask to confirm restoring or deleting the
/// highlighted snapshot; Esc leaves.
pub fn handle_snapshots_key(
    selected: &mut usize,
    names: &[String],
    key: MenuKey,
    has_vm: bool,
    vm_running: bool,
) -> (cmd: SnapshotCommand)
    ensures
        (key is Down || key == MenuKey::Char('j')) ==> cmd == SnapshotCommand::Nothing
            && *final(selected) == (if *old(selected) + 1 < names@.len() {
            *old(selected) + 1
        } else {
            *old(selected) as int
        }),
        (key is Up || key == MenuKey::Char('k')) ==> cmd == SnapshotCommand::Nothing
            && *final(selected) == (if *old(selected) > 0 {
            *old(selected) - 1
        } else {
            *old(selected) as int
        }),
        !(key is Down || key == MenuKey::Char('j') || key is Up || key == MenuKey::Char('k'))
            ==> *final(selected) == *old(selected),
        key == MenuKey::Char('c') ==> cmd == (if has_vm {
            SnapshotCommand::NameNewSnapshot { vm_running }
        } else {
            SnapshotCommand::Nothing
        }),
        key == MenuKey::Char('r') ==> (if *old(selected) < names@.len() {
            cmd matches SnapshotCommand::Open(Screen::Confirm(ConfirmAction::RestoreSnapshot(n)))
                && n@ == names@[*old(selected) as int]@
        } else {
            cmd == SnapshotCommand::Nothing
        }),
        key == MenuKey::Char('d') ==> (if *old(selected) < names@.len() {
            cmd matches SnapshotCommand::Open(Screen::Confirm(ConfirmAction::DeleteSnapshot(n)))
                && n@ == names@[*old(selected) as int]@
        } else {
            cmd == SnapshotCommand::Nothing
        }),
        !(key is Down || key is Up || key is Char) ==> cmd == SnapshotCommand::Nothing,
{
    match key {
        MenuKey::Down | MenuKey::Char('j') => {
            if names.len() > 0 && *selected < names.len() - 1 {
                *selected = *selected + 1;
            }
            SnapshotCommand::Nothing
        },
        MenuKey::Up | MenuKey::Char('k') => {
            if *selected > 0 {
                *selected = *selected - 1;
            }
            SnapshotCommand::Nothing
        },
        MenuKey::Char('c') => {
            if has_vm {
                SnapshotCommand::NameNewSnapshot { vm_running }
            } else {
                SnapshotCommand::Nothing
            }
        },
        MenuKey::Char('r') => {
            if *selected < names.len() {
                SnapshotCommand::Open(
                    Screen::Confirm(ConfirmAction::RestoreSnapshot(names[*selected].clone())),
                )
            } else {
                SnapshotCommand::Nothing
            }
        },
        MenuKey::Char('d') => {
            if *selected < names.len() {
                SnapshotCommand::Open(
                    Screen::Confirm(ConfirmAction::DeleteSnapshot(names[*selected].clone())),
                )
            } else {
                SnapshotCommand::Nothing
            }
        },
        _ => SnapshotCommand::Nothing,
    }
}

/// The name suggested for a new snapshot taken at the given local time:
/// `snapshot-YYYYMMDD-HHMMSS`, each field zero-padded.
pub open spec fn snapshot_name_at(
    year: nat,
    month: nat,
    day: nat,
    hour: nat,
    minute: nat,
    second: nat,
) -> Seq<char> {
    "snapshot-"@ + pad_zeros(dec(year), 4) + pad_zeros(dec(month), 2) + pad_zeros(dec(day), 2)
        + "-"@ + pad_zeros(dec(hour), 2) + pad_zeros(dec(minute), 2) + pad_zeros(dec(second), 2)
}

/// The name suggested for a new snapshot taken at the given local time.
pub fn default_snapshot_name(year: u32, month: u32, day: u32, hour: u32, minute: u32, second: u32) -> (res:
    String)
    ensures
        res@ == snapshot_name_at(
            year as nat,
            month as nat,
            day as nat,
            hour as nat,
            minute as nat,
            second as nat,
        ),
{
    let mut s = String::from_str("snapshot-");
    push_padded_digits(&mut s, year as u64, 10, 4);
    push_padded_digits(&mut s, month as u64, 10, 2);
    push_padded_digits(&mut s, day as u64, 10, 2);
    push_char(&mut s, '-');
    push_padded_digits(&mut s, hour as u64, 10, 2);
    push_padded_digits(&mut s, minute as u64, 10, 2);
    push_padded_digits(&mut s, second as u64, 10, 2);
    proof {
        reveal_strlit("-");
        assert(s@ =~= snapshot_name_at(
            year as nat,
            month as nat,
            day as nat,
            hour as nat,
            minute as nat,
            second as nat,
        ));
    }
    s
}

/// The answer to a confirmation dialog given by a key: `Some(true)` for
/// `y` or Enter, `Some(false)` for `n` or Esc, none for any other key.
pub fn confirm_answer(key: MenuKey, esc: bool) -> (res: Option<bool>)
    ensures
        res == (if esc || key == MenuKey::Char('n') {
            Some(false)
        } else if key == MenuKey::Char('y') || key is Enter {
            Some(true)
        } else {
            None::<bool>
        }),
{
    if esc || key == MenuKey::Char('n') {
        Some(false)
    } else if key == MenuKey::Char('y') || matches!(key, MenuKey::Enter) {
        Some(true)
    } else {
        None
    }
}

/// The error dialog's scroll after a key: down with `j` or Down, up with
/// `k` or Up, each by one line and within 0..=65535.
pub fn error_scroll_after(scroll: u16, key: MenuKey) -> (res: u16)
    ensures
        res == (if key is Down || key == MenuKey::Char('j') {
            if scroll < u16::MAX {
                (scroll + 1) as u16
            } else {
                scroll
            }
        } else if key is Up || key == MenuKey::Char('k') {
            if scroll > 0 {
                (scroll - 1) as u16
            } else {
                scroll
            }
        } else {
            scroll
        }),
{
    match key {
        MenuKey::Down | MenuKey::Char('j') => scroll.saturating_add(1),
        MenuKey::Up | MenuKey::Char('k') => scroll.saturating_sub(1),
        _ => scroll,
    }
}

} // verus!

verus! {

/// What the search box asks of its host after a key.
#[derive(Debug, Clone, Copy, PartialEq, Eq, Structural)]
pub enum SearchCommand {
    /// Keep the search box open, filtering the list again where the query
    /// changed.
    Stay { refilter: bool },
    /// Close the search box, filtering the list again where the query was
    /// cleared.
    Close { refilter: bool },
}

/// Handle a key in the search box: Esc clears the query and closes, Enter
/// closes keeping it, Backspace and characters edit it.
pub fn handle_search_key(query: &mut String, key: TextKey) -> (cmd: SearchCommand)
    ensures
        match key {
            TextKey::Esc => final(query)@.len() == 0 && cmd == SearchCommand::Close { refilter: true },
            TextKey::Enter => final(query)@ == old(query)@ && cmd == SearchCommand::Close {
                refilter: false,
            },
            TextKey::Backspace => cmd == SearchCommand::Stay { refilter: true } && final(query)@ == (
            if old(query)@.len() > 0 {
                old(query)@.drop_last()
            } else {
                old(query)@
            }),
            TextKey::Char(c) => cmd == SearchCommand::Stay { refilter: true }
                && final(query)@ == old(query)@.push(c),
            TextKey::Other => cmd == SearchCommand::Stay { refilter: false }
                && final(query)@ == old(query)@,
        },
{
    match key {
        TextKey::Esc => {
            *query = String::new();
            SearchCommand::Close { refilter: true }
        },
        TextKey::Enter => SearchCommand::Close { refilter: false },
        TextKey::Backspace => {
            drop_last_char(query);
            SearchCommand::Stay { refilter: true }
        },
        TextKey::Char(c) => {
            push_char(query, c);
            SearchCommand::Stay { refilter: true }
        },
        TextKey::Other => SearchCommand::Stay { refilter: false },
    }
}

} // verus!
