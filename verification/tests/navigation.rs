use vm_curator::navigation::{
    confirm_answer, confirm_click, default_snapshot_name, error_scroll_after, handle_main_menu_key,
    handle_search_key, handle_snapshots_key, SearchCommand, SnapshotCommand, handle_text_input_key, MainMenuCommand, MainMenuState,
    MenuKey, is_quit_key, stop_decision, ConfirmAction, ConfirmButton,
    FileBrowserMode, Navigation, Screen, StopDecision, TextInputCommand, TextInputContext, TextKey,
};

#[test]
fn back_after_open_returns_to_the_previous_screen() {
    let mut nav = Navigation::new();
    assert_eq!(nav.screen, Screen::MainMenu);
    nav.menu_next(5);
    nav.menu_next(5);
    assert_eq!(nav.selected_menu_item, 2);
    nav.push_screen(Screen::Management);
    assert_eq!(nav.selected_menu_item, 0);
    nav.push_screen(Screen::Confirm(ConfirmAction::DeleteSnapshot("s1".to_string())));
    nav.pop_screen();
    assert_eq!(nav.screen, Screen::Management);
    nav.pop_screen();
    assert_eq!(nav.screen, Screen::MainMenu);
    assert!(nav.screen_stack.is_empty());
    nav.pop_screen();
    assert_eq!(nav.screen, Screen::MainMenu);
}

#[test]
fn menu_highlight_stays_in_bounds() {
    let mut nav = Navigation::new();
    nav.menu_prev();
    assert_eq!(nav.selected_menu_item, 0);
    nav.menu_next(2);
    nav.menu_next(2);
    assert_eq!(nav.selected_menu_item, 1);
    nav.menu_next(0);
    assert_eq!(nav.selected_menu_item, 1);
    nav.menu_prev();
    assert_eq!(nav.selected_menu_item, 0);
    assert_eq!(FileBrowserMode::default(), FileBrowserMode::Iso);
}

#[test]
fn confirm_dialog_clicks() {
    assert_eq!(confirm_click(100, 40, 30, 21), (ConfirmButton::Yes, false));
    assert_eq!(confirm_click(100, 40, 60, 22), (ConfirmButton::No, false));
    assert_eq!(confirm_click(100, 40, 30, 18), (ConfirmButton::Neither, false));
    assert_eq!(confirm_click(100, 40, 80, 21), (ConfirmButton::Neither, true));
    assert_eq!(confirm_click(100, 40, 0, 0), (ConfirmButton::Neither, true));
}

#[test]
fn quit_keys() {
    assert!(is_quit_key(&Screen::MainMenu, Some('q'), false));
    assert!(is_quit_key(&Screen::Management, Some('Q'), true));
    assert!(!is_quit_key(&Screen::RawScript, Some('q'), false));
    assert!(!is_quit_key(&Screen::TextInput(TextInputContext::RenameVm), Some('q'), false));
    assert!(is_quit_key(&Screen::RawScript, Some('c'), true));
    assert!(!is_quit_key(&Screen::MainMenu, Some('c'), false));
    assert!(!is_quit_key(&Screen::MainMenu, None, true));
}

#[test]
fn stop_requests() {
    assert_eq!(stop_decision(false, None), StopDecision::NotRunning);
    assert_eq!(stop_decision(true, None), StopDecision::ConfirmStop);
    assert_eq!(stop_decision(true, Some(10_000_000_000)), StopDecision::StillStopping);
    assert_eq!(stop_decision(true, Some(10_000_000_001)), StopDecision::ConfirmForceStop);
}

#[test]
fn text_input_filters_characters_by_context() {
    let mut buf = String::new();
    for c in "snap 1(ok)é".chars() {
        assert_eq!(
            handle_text_input_key(&TextInputContext::SnapshotName, &mut buf, TextKey::Char(c)),
            TextInputCommand::Stay
        );
    }
    assert_eq!(buf, "snap1oké");
    let mut name = String::new();
    for c in "My VM (old)!".chars() {
        handle_text_input_key(&TextInputContext::RenameVm, &mut name, TextKey::Char(c));
    }
    assert_eq!(name, "My VM (old)");
    handle_text_input_key(&TextInputContext::RenameVm, &mut name, TextKey::Backspace);
    assert_eq!(name, "My VM (old");
    assert_eq!(
        handle_text_input_key(&TextInputContext::RenameVm, &mut name, TextKey::Enter),
        TextInputCommand::Submit("My VM (old".to_string())
    );
    assert_eq!(name, "");
    assert_eq!(
        handle_text_input_key(&TextInputContext::RenameVm, &mut name, TextKey::Enter),
        TextInputCommand::Close
    );
    buf = "x".to_string();
    assert_eq!(
        handle_text_input_key(&TextInputContext::SnapshotName, &mut buf, TextKey::Esc),
        TextInputCommand::Close
    );
    assert_eq!(buf, "");
}

#[test]
fn main_menu_keys() {
    let mut st = MainMenuState { selected_vm: 0, info_scroll: 7 };
    assert_eq!(handle_main_menu_key(&mut st, MenuKey::Down, 3, true, true), MainMenuCommand::Nothing);
    assert_eq!(st, MainMenuState { selected_vm: 1, info_scroll: 0 });
    handle_main_menu_key(&mut st, MenuKey::Char('j'), 3, true, true);
    handle_main_menu_key(&mut st, MenuKey::Char('j'), 3, true, true);
    assert_eq!(st.selected_vm, 2);
    handle_main_menu_key(&mut st, MenuKey::PageDown, 3, true, true);
    assert_eq!(st.info_scroll, 5);
    handle_main_menu_key(&mut st, MenuKey::PageUp, 3, true, true);
    handle_main_menu_key(&mut st, MenuKey::PageUp, 3, true, true);
    assert_eq!(st.info_scroll, 0);
    assert_eq!(
        handle_main_menu_key(&mut st, MenuKey::Enter, 3, true, true),
        MainMenuCommand::Open(Screen::Confirm(ConfirmAction::LaunchVm))
    );
    assert_eq!(handle_main_menu_key(&mut st, MenuKey::Enter, 3, true, false), MainMenuCommand::Launch);
    assert_eq!(handle_main_menu_key(&mut st, MenuKey::Enter, 0, false, true), MainMenuCommand::Nothing);
    assert_eq!(
        handle_main_menu_key(&mut st, MenuKey::Char('M'), 3, true, true),
        MainMenuCommand::Open(Screen::Management)
    );
    assert_eq!(handle_main_menu_key(&mut st, MenuKey::Char('/'), 3, true, true), MainMenuCommand::Search);
    assert_eq!(handle_main_menu_key(&mut st, MenuKey::Char('x'), 3, false, true), MainMenuCommand::Nothing);
    assert_eq!(handle_main_menu_key(&mut st, MenuKey::Char('X'), 3, true, true), MainMenuCommand::StopVm);
    assert_eq!(
        handle_main_menu_key(&mut st, MenuKey::Char('s'), 3, true, true),
        MainMenuCommand::Open(Screen::Settings)
    );
    let mut top = MainMenuState { selected_vm: 0, info_scroll: 65533 };
    handle_main_menu_key(&mut top, MenuKey::PageDown, 0, false, true);
    assert_eq!(top.info_scroll, 65535);
    handle_main_menu_key(&mut top, MenuKey::Up, 0, false, true);
    assert_eq!(top.selected_vm, 0);
}

#[test]
fn snapshot_screen_keys() {
    let names = vec!["a".to_string(), "b".to_string()];
    let mut sel = 0;
    assert_eq!(handle_snapshots_key(&mut sel, &names, MenuKey::Down, true, false), SnapshotCommand::Nothing);
    assert_eq!(sel, 1);
    handle_snapshots_key(&mut sel, &names, MenuKey::Char('j'), true, false);
    assert_eq!(sel, 1);
    assert_eq!(
        handle_snapshots_key(&mut sel, &names, MenuKey::Char('r'), true, false),
        SnapshotCommand::Open(Screen::Confirm(ConfirmAction::RestoreSnapshot("b".to_string())))
    );
    handle_snapshots_key(&mut sel, &names, MenuKey::Up, true, false);
    assert_eq!(
        handle_snapshots_key(&mut sel, &names, MenuKey::Char('d'), true, false),
        SnapshotCommand::Open(Screen::Confirm(ConfirmAction::DeleteSnapshot("a".to_string())))
    );
    assert_eq!(
        handle_snapshots_key(&mut sel, &names, MenuKey::Char('c'), true, true),
        SnapshotCommand::NameNewSnapshot { vm_running: true }
    );
    assert_eq!(handle_snapshots_key(&mut sel, &[], MenuKey::Char('r'), true, true), SnapshotCommand::Nothing);
    assert_eq!(default_snapshot_name(2024, 3, 7, 9, 5, 0), "snapshot-20240307-090500");
}

#[test]
fn confirm_and_error_dialog_keys() {
    assert_eq!(confirm_answer(MenuKey::Char('y'), false), Some(true));
    assert_eq!(confirm_answer(MenuKey::Enter, false), Some(true));
    assert_eq!(confirm_answer(MenuKey::Char('n'), false), Some(false));
    assert_eq!(confirm_answer(MenuKey::Other, true), Some(false));
    assert_eq!(confirm_answer(MenuKey::Char('x'), false), None);
    assert_eq!(error_scroll_after(0, MenuKey::Up), 0);
    assert_eq!(error_scroll_after(0, MenuKey::Char('j')), 1);
    assert_eq!(error_scroll_after(65535, MenuKey::Down), 65535);
    assert_eq!(error_scroll_after(4, MenuKey::Other), 4);
}

#[test]
fn search_box_keys() {
    let mut q = String::new();
    assert_eq!(handle_search_key(&mut q, TextKey::Char('w')), SearchCommand::Stay { refilter: true });
    handle_search_key(&mut q, TextKey::Char('i'));
    assert_eq!(q, "wi");
    handle_search_key(&mut q, TextKey::Backspace);
    assert_eq!(q, "w");
    assert_eq!(handle_search_key(&mut q, TextKey::Enter), SearchCommand::Close { refilter: false });
    assert_eq!(q, "w");
    assert_eq!(handle_search_key(&mut q, TextKey::Esc), SearchCommand::Close { refilter: true });
    assert_eq!(q, "");
}
