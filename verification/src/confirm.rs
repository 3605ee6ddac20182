//! What a confirmed action does: which screens close, what is refused while
//! the VM runs, and what the host is asked to carry out.

use vstd::prelude::*;
use crate::navigation::{went_back, ConfirmAction, Navigation, Screen};

verus! {

/// What the host carries out once an action is confirmed.
#[derive(Debug, Clone, PartialEq, Eq)]
pub enum ConfirmEffect {
    Nothing,
    /// Show this status line; nothing else is done.
    Status(String),
    /// Launch the selected VM.
    Launch,
    /// Reset the selected VM to a fresh state.
    Reset,
    /// Delete the selected VM.
    Delete,
    /// Restore this snapshot of the VM's primary disk, in the background.
    RestoreSnapshot(String),
    /// Delete this snapshot of the VM's primary disk, in the background.
    DeleteSnapshot(String),
    /// Throw away the editor's changes (the editor is now closed).
    DiscardEdits,
    /// Ask the QEMU process with this pid to shut down.
    Stop(u32),
    /// Kill the QEMU process with this pid.
    ForceStop(u32),
}

/// What is known of an effect.
pub enum ConfirmEffectView {
    Nothing,
    Status(Seq<char>),
    Launch,
    Reset,
    Delete,
    RestoreSnapshot(Seq<char>),
    DeleteSnapshot(Seq<char>),
    DiscardEdits,
    Stop(u32),
    ForceStop(u32),
}

impl View for ConfirmEffect {
    type V = ConfirmEffectView;

    open spec fn view(&self) -> ConfirmEffectView {
        match self {
            ConfirmEffect::Nothing => ConfirmEffectView::Nothing,
            ConfirmEffect::Status(s) => ConfirmEffectView::Status(s@),
            ConfirmEffect::Launch => ConfirmEffectView::Launch,
            ConfirmEffect::Reset => ConfirmEffectView::Reset,
            ConfirmEffect::Delete => ConfirmEffectView::Delete,
            ConfirmEffect::RestoreSnapshot(n) => ConfirmEffectView::RestoreSnapshot(n@),
            ConfirmEffect::DeleteSnapshot(n) => ConfirmEffectView::DeleteSnapshot(n@),
            ConfirmEffect::DiscardEdits => ConfirmEffectView::DiscardEdits,
            ConfirmEffect::Stop(p) => ConfirmEffectView::Stop(*p),
            ConfirmEffect::ForceStop(p) => ConfirmEffectView::ForceStop(*p),
        }
    }
}

/// The status line for resetting a running VM.
pub open spec fn reset_refused_text() -> Seq<char> {
    "Error: Cannot reset VM while it is running. Please shut down the VM first."@
}

/// The status line for restoring a snapshot of a running VM.
pub open spec fn restore_refused_text() -> Seq<char> {
    "Error: Cannot restore snapshot while VM is running. Please shut down the VM first."@
}

/// The status line for deleting a snapshot of a running VM.
pub open spec fn delete_snapshot_refused_text() -> Seq<char> {
    "Error: Cannot delete snapshot while VM is running. Please shut down the VM first."@
}

/// The screen and history after going back twice.
pub open spec fn went_back_twice(screen: Screen, stack: Seq<Screen>) -> (Screen, Seq<Screen>) {
    let once = went_back(screen, stack);
    went_back(once.0, once.1)
}

/// A confirmed action, with the selected VM's presence (`has_vm`), display
/// name, the pid of its QEMU process where it runs, and whether it has a
/// primary disk. Launching, stopping and force-stopping close the dialog;
/// resetting or deleting the VM and discarding an editor's changes close the
/// dialog and the screen below it; restoring or deleting a snapshot close the
/// dialog. A VM that runs is not launched again, reset, or touched in its
/// snapshots; a VM that does not run is not stopped.
pub open spec fn confirm_after(
    nav: Navigation,
    action: ConfirmAction,
    has_vm: bool,
    vm_name: Seq<char>,
    running_pid: Option<u32>,
    has_primary_disk: bool,
) -> (Screen, Seq<Screen>, ConfirmEffectView) {
    let once = went_back(nav.screen, nav.screen_stack@);
    let twice = went_back_twice(nav.screen, nav.screen_stack@);
    let running = running_pid is Some;
    match action {
        ConfirmAction::LaunchVm => (once.0, once.1, if !has_vm {
            ConfirmEffectView::Nothing
        } else if running {
            ConfirmEffectView::Status(vm_name + " is already running"@)
        } else {
            ConfirmEffectView::Launch
        }),
        ConfirmAction::ResetVm => (twice.0, twice.1, if !has_vm {
            ConfirmEffectView::Nothing
        } else if running {
            ConfirmEffectView::Status(reset_refused_text())
        } else {
            ConfirmEffectView::Reset
        }),
        ConfirmAction::DeleteVm => (twice.0, twice.1, if has_vm {
            ConfirmEffectView::Delete
        } else {
            ConfirmEffectView::Nothing
        }),
        ConfirmAction::RestoreSnapshot(n) => (once.0, once.1, if !has_vm {
            ConfirmEffectView::Nothing
        } else if running {
            ConfirmEffectView::Status(restore_refused_text())
        } else if has_primary_disk {
            ConfirmEffectView::RestoreSnapshot(n@)
        } else {
            ConfirmEffectView::Nothing
        }),
        ConfirmAction::DeleteSnapshot(n) => (once.0, once.1, if !has_vm {
            ConfirmEffectView::Nothing
        } else if running {
            ConfirmEffectView::Status(delete_snapshot_refused_text())
        } else if has_primary_disk {
            ConfirmEffectView::DeleteSnapshot(n@)
        } else {
            ConfirmEffectView::Nothing
        }),
        ConfirmAction::DiscardScriptChanges | ConfirmAction::DiscardNotesChanges => (
            twice.0,
            twice.1,
            ConfirmEffectView::DiscardEdits,
        ),
        ConfirmAction::StopVm => (once.0, once.1, if !has_vm {
            ConfirmEffectView::Nothing
        } else {
            match running_pid {
                Some(pid) => ConfirmEffectView::Stop(pid),
                None => ConfirmEffectView::Status(vm_name + " is not running"@),
            }
        }),
        ConfirmAction::ForceStopVm => (once.0, once.1, if !has_vm {
            ConfirmEffectView::Nothing
        } else {
            match running_pid {
                Some(pid) => ConfirmEffectView::ForceStop(pid),
                None => ConfirmEffectView::Nothing,
            }
        }),
    }
}

fn named_status(vm_name: &str, tail: &str) -> (res: String)
    ensures
        res@ == vm_name@ + tail@,
{
    let mut s = String::from_str(vm_name);
    s.append(tail);
    s
}

/// Carries out the screen changes of a confirmed action and says what the
/// host is to do (see `confirm_after`).
pub fn confirm_step(
    nav: &mut Navigation,
    action: &ConfirmAction,
    has_vm: bool,
    vm_name: &str,
    running_pid: Option<u32>,
    has_primary_disk: bool,
) -> (eff: ConfirmEffect)
    ensures
        (final(nav).screen, final(nav).screen_stack@, eff@) == confirm_after(
            *old(nav),
            *action,
            has_vm,
            vm_name@,
            running_pid,
            has_primary_disk,
        ),
        final(nav).selected_menu_item == old(nav).selected_menu_item,
{
    proof {
        reveal_strlit(" is already running");
        reveal_strlit(" is not running");
        reveal_strlit("Error: Cannot reset VM while it is running. Please shut down the VM first.");
        reveal_strlit(
            "Error: Cannot restore snapshot while VM is running. Please shut down the VM first.",
        );
        reveal_strlit(
            "Error: Cannot delete snapshot while VM is running. Please shut down the VM first.",
        );
    }
    let running = running_pid.is_some();
    match action {
        ConfirmAction::LaunchVm => {
            nav.pop_screen();
            if !has_vm {
                ConfirmEffect::Nothing
            } else if running {
                ConfirmEffect::Status(named_status(vm_name, " is already running"))
            } else {
                ConfirmEffect::Launch
            }
        },
        ConfirmAction::ResetVm => {
            nav.pop_screen();
            nav.pop_screen();
            if !has_vm {
                ConfirmEffect::Nothing
            } else if running {
                ConfirmEffect::Status(
                    String::from_str(
                        "Error: Cannot reset VM while it is running. Please shut down the VM first.",
                    ),
                )
            } else {
                ConfirmEffect::Reset
            }
        },
        ConfirmAction::DeleteVm => {
            nav.pop_screen();
            nav.pop_screen();
            if has_vm {
                ConfirmEffect::Delete
            } else {
                ConfirmEffect::Nothing
            }
        },
        ConfirmAction::RestoreSnapshot(n) => {
            nav.pop_screen();
            if !has_vm {
                ConfirmEffect::Nothing
            } else if running {
                ConfirmEffect::Status(
                    String::from_str(
                        "Error: Cannot restore snapshot while VM is running. Please shut down the VM first.",
                    ),
                )
            } else if has_primary_disk {
                ConfirmEffect::RestoreSnapshot(n.clone())
            } else {
                ConfirmEffect::Nothing
            }
        },
        ConfirmAction::DeleteSnapshot(n) => {
            nav.pop_screen();
            if !has_vm {
                ConfirmEffect::Nothing
            } else if running {
                ConfirmEffect::Status(
                    String::from_str(
                        "Error: Cannot delete snapshot while VM is running. Please shut down the VM first.",
                    ),
                )
            } else if has_primary_disk {
                ConfirmEffect::DeleteSnapshot(n.clone())
            } else {
                ConfirmEffect::Nothing
            }
        },
        ConfirmAction::DiscardScriptChanges | ConfirmAction::DiscardNotesChanges => {
            nav.pop_screen();
            nav.pop_screen();
            ConfirmEffect::DiscardEdits
        },
        ConfirmAction::StopVm => {
            nav.pop_screen();
            if !has_vm {
                ConfirmEffect::Nothing
            } else {
                match running_pid {
                    Some(pid) => ConfirmEffect::Stop(pid),
                    None => ConfirmEffect::Status(named_status(vm_name, " is not running")),
                }
            }
        },
        ConfirmAction::ForceStopVm => {
            nav.pop_screen();
            if !has_vm {
                ConfirmEffect::Nothing
            } else {
                match running_pid {
                    Some(pid) => ConfirmEffect::ForceStop(pid),
                    None => ConfirmEffect::Nothing,
                }
            }
        },
    }
}

} // verus!
