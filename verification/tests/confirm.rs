use vm_curator::confirm::{confirm_step, ConfirmEffect};
use vm_curator::navigation::{ConfirmAction, Navigation, Screen};

fn nav_with(below: Screen, action: ConfirmAction) -> Navigation {
    let mut nav = Navigation::new();
    nav.push_screen(Screen::Management);
    nav.push_screen(below);
    nav.push_screen(Screen::Confirm(action));
    nav
}

#[test]
fn launch_closes_dialog_and_refuses_running_vm() {
    let mut nav = nav_with(Screen::BootOptions, ConfirmAction::LaunchVm);
    let eff = confirm_step(&mut nav, &ConfirmAction::LaunchVm, true, "Debian", None, true);
    assert_eq!(eff, ConfirmEffect::Launch);
    assert_eq!(nav.screen, Screen::BootOptions);

    let mut nav = nav_with(Screen::BootOptions, ConfirmAction::LaunchVm);
    let eff = confirm_step(&mut nav, &ConfirmAction::LaunchVm, true, "Debian", Some(42), true);
    assert_eq!(eff, ConfirmEffect::Status("Debian is already running".to_string()));
}

#[test]
fn reset_closes_two_screens_and_is_refused_while_running() {
    let mut nav = nav_with(Screen::Management, ConfirmAction::ResetVm);
    let eff = confirm_step(&mut nav, &ConfirmAction::ResetVm, true, "Arch", Some(7), true);
    assert_eq!(
        eff,
        ConfirmEffect::Status(
            "Error: Cannot reset VM while it is running. Please shut down the VM first.".to_string()
        )
    );
    assert_eq!(nav.screen, Screen::Management);
    assert_eq!(nav.screen_stack, vec![Screen::MainMenu]);

    let mut nav = nav_with(Screen::Management, ConfirmAction::DeleteVm);
    assert_eq!(confirm_step(&mut nav, &ConfirmAction::DeleteVm, true, "Arch", None, true), ConfirmEffect::Delete);
    assert_eq!(nav.screen, Screen::Management);
}

#[test]
fn snapshots_need_a_stopped_vm_with_a_disk() {
    let restore = ConfirmAction::RestoreSnapshot("before-update".to_string());
    let mut nav = nav_with(Screen::Snapshots, restore.clone());
    assert_eq!(
        confirm_step(&mut nav, &restore, true, "Arch", None, true),
        ConfirmEffect::RestoreSnapshot("before-update".to_string())
    );
    assert_eq!(nav.screen, Screen::Snapshots);

    let delete = ConfirmAction::DeleteSnapshot("old".to_string());
    let mut nav = nav_with(Screen::Snapshots, delete.clone());
    assert_eq!(
        confirm_step(&mut nav, &delete, true, "Arch", Some(3), true),
        ConfirmEffect::Status(
            "Error: Cannot delete snapshot while VM is running. Please shut down the VM first.".to_string()
        )
    );
    let mut nav = nav_with(Screen::Snapshots, delete.clone());
    assert_eq!(confirm_step(&mut nav, &delete, true, "Arch", None, false), ConfirmEffect::Nothing);
}

#[test]
fn stop_and_force_stop_use_the_pid() {
    let mut nav = nav_with(Screen::Management, ConfirmAction::StopVm);
    assert_eq!(confirm_step(&mut nav, &ConfirmAction::StopVm, true, "Win", Some(99), true), ConfirmEffect::Stop(99));
    assert_eq!(nav.screen, Screen::Management);
    let mut nav = nav_with(Screen::Management, ConfirmAction::StopVm);
    assert_eq!(
        confirm_step(&mut nav, &ConfirmAction::StopVm, true, "Win", None, true),
        ConfirmEffect::Status("Win is not running".to_string())
    );
    let mut nav = nav_with(Screen::Management, ConfirmAction::ForceStopVm);
    assert_eq!(
        confirm_step(&mut nav, &ConfirmAction::ForceStopVm, true, "Win", Some(5), true),
        ConfirmEffect::ForceStop(5)
    );
    let mut nav = nav_with(Screen::Management, ConfirmAction::ForceStopVm);
    assert_eq!(confirm_step(&mut nav, &ConfirmAction::ForceStopVm, false, "", Some(5), true), ConfirmEffect::Nothing);
}

#[test]
fn discarding_edits_closes_the_editor() {
    let mut nav = nav_with(Screen::RawScript, ConfirmAction::DiscardScriptChanges);
    assert_eq!(
        confirm_step(&mut nav, &ConfirmAction::DiscardScriptChanges, true, "Arch", None, true),
        ConfirmEffect::DiscardEdits
    );
    assert_eq!(nav.screen, Screen::Management);
}
