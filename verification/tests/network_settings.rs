use vm_curator::network_settings::{
    accept_checked_mac, handle_network_settings_key, network_model_names, set_generated_mac,
    AddPfStep, NetCommand, NetKey, NetworkSettingsState, PortForward, PortProtocol,
};

fn state(backend: &str) -> NetworkSettingsState {
    NetworkSettingsState {
        model: "e1000".to_string(),
        backend: backend.to_string(),
        bridge_name: None,
        port_forwards: Vec::new(),
        selected_field: 0,
        editing_port_forwards: false,
        pf_selected: 0,
        adding_pf: None,
        mac_address: None,
        mac_edit_buffer: String::new(),
        editing_mac: false,
    }
}

fn backends() -> Vec<String> {
    vec!["user".to_string(), "passt".to_string(), "bridge".to_string(), "none".to_string()]
}

fn press(s: &mut NetworkSettingsState, key: NetKey) -> NetCommand {
    handle_network_settings_key(s, &backends(), &["br0".to_string(), "br1".to_string()], key)
}

#[test]
fn model_cycles_with_wraparound() {
    let mut s = state("user");
    press(&mut s, NetKey::Right);
    assert_eq!(s.model, "rtl8139");
    press(&mut s, NetKey::Left);
    press(&mut s, NetKey::Left);
    assert_eq!(s.model, "virtio");
    press(&mut s, NetKey::Left);
    assert_eq!(s.model, "none");
    s.model = "unknown".to_string();
    press(&mut s, NetKey::Right);
    assert_eq!(s.model, "e1000");
    assert_eq!(network_model_names().len(), 6);
}

#[test]
fn choosing_bridge_backend_picks_first_bridge() {
    let mut s = state("passt");
    s.selected_field = 1;
    press(&mut s, NetKey::Right);
    assert_eq!(s.backend, "bridge");
    assert_eq!(s.bridge_name.as_deref(), Some("br0"));
    s.selected_field = 3;
    press(&mut s, NetKey::Right);
    assert_eq!(s.bridge_name.as_deref(), Some("br1"));
    press(&mut s, NetKey::Right);
    assert_eq!(s.bridge_name.as_deref(), Some("br0"));

    let mut s = state("passt");
    s.selected_field = 1;
    handle_network_settings_key(&mut s, &backends(), &[], NetKey::Right);
    assert_eq!(s.bridge_name.as_deref(), Some("qemubr0"));
}

#[test]
fn fields_shown_depend_on_backend() {
    let mut s = state("none");
    for _ in 0..5 {
        press(&mut s, NetKey::Down);
    }
    assert_eq!(s.selected_field, 1);
    let mut s = state("user");
    for _ in 0..5 {
        press(&mut s, NetKey::Char('j'));
    }
    assert_eq!(s.selected_field, 3);
    press(&mut s, NetKey::Char('k'));
    assert_eq!(s.selected_field, 2);
}

#[test]
fn enter_opens_port_forwards_or_applies() {
    let mut s = state("user");
    s.selected_field = 3;
    assert_eq!(press(&mut s, NetKey::Enter), NetCommand::Nothing);
    assert!(s.editing_port_forwards);
    let mut s = state("user");
    assert_eq!(press(&mut s, NetKey::Enter), NetCommand::Apply);
    assert_eq!(press(&mut s, NetKey::Esc), NetCommand::Back);
}

#[test]
fn presets_are_not_duplicated() {
    let mut s = state("user");
    s.editing_port_forwards = true;
    press(&mut s, NetKey::Char('1'));
    press(&mut s, NetKey::Char('1'));
    press(&mut s, NetKey::Char('5'));
    assert_eq!(
        s.port_forwards,
        vec![
            PortForward { protocol: PortProtocol::Tcp, host_port: 2222, guest_port: 22 },
            PortForward { protocol: PortProtocol::Tcp, host_port: 15900, guest_port: 5900 },
        ]
    );
    press(&mut s, NetKey::Down);
    assert_eq!(s.pf_selected, 1);
    press(&mut s, NetKey::Delete);
    assert_eq!(s.port_forwards.len(), 1);
    assert_eq!(s.pf_selected, 0);
    press(&mut s, NetKey::Esc);
    assert!(!s.editing_port_forwards);
}

#[test]
fn adding_a_port_forward_step_by_step() {
    let mut s = state("user");
    s.editing_port_forwards = true;
    press(&mut s, NetKey::Char('a'));
    assert_eq!(s.adding_pf.as_ref().map(|a| a.step), Some(AddPfStep::Protocol));
    press(&mut s, NetKey::Right);
    press(&mut s, NetKey::Enter);
    press(&mut s, NetKey::Enter);
    assert_eq!(s.adding_pf.as_ref().map(|a| a.step), Some(AddPfStep::HostPort));
    for c in "70000".chars() {
        press(&mut s, NetKey::Char(c));
    }
    press(&mut s, NetKey::Enter);
    assert_eq!(s.adding_pf.as_ref().map(|a| a.step), Some(AddPfStep::HostPort));
    press(&mut s, NetKey::Backspace);
    press(&mut s, NetKey::Backspace);
    press(&mut s, NetKey::Char('x'));
    press(&mut s, NetKey::Enter);
    assert_eq!(s.adding_pf.as_ref().map(|a| a.step), Some(AddPfStep::GuestPort));
    press(&mut s, NetKey::Char('5'));
    press(&mut s, NetKey::Char('3'));
    press(&mut s, NetKey::Enter);
    assert!(s.adding_pf.is_none());
    assert_eq!(
        s.port_forwards,
        vec![PortForward { protocol: PortProtocol::Udp, host_port: 700, guest_port: 53 }]
    );
}

#[test]
fn mac_typing_and_checking() {
    let mut s = state("user");
    s.selected_field = 2;
    press(&mut s, NetKey::Enter);
    assert!(s.editing_mac);
    for c in "52:54:00:AB:cd:EF:99".chars() {
        press(&mut s, NetKey::Char(c));
    }
    assert_eq!(s.mac_edit_buffer, "52:54:00:AB:cd:EF");
    press(&mut s, NetKey::Char('g'));
    assert_eq!(s.mac_edit_buffer, "52:54:00:AB:cd:EF");
    let cmd = press(&mut s, NetKey::Enter);
    assert_eq!(cmd, NetCommand::CheckMac("52:54:00:AB:cd:EF".to_string()));
    assert_eq!(accept_checked_mac(&mut s, "52:54:00:AB:cd:EF", true), None);
    assert_eq!(s.mac_address.as_deref(), Some("52:54:00:ab:cd:ef"));
    assert!(!s.editing_mac);
}

#[test]
fn invalid_mac_keeps_typing() {
    let mut s = state("user");
    s.editing_mac = true;
    s.mac_edit_buffer = " 12:34 ".to_string();
    assert_eq!(press(&mut s, NetKey::Enter), NetCommand::CheckMac("12:34".to_string()));
    assert_eq!(
        accept_checked_mac(&mut s, "12:34", false),
        Some("Invalid MAC address: 12:34".to_string())
    );
    assert!(s.editing_mac);
    s.mac_edit_buffer = "   ".to_string();
    s.mac_address = Some("52:54:00:00:00:01".to_string());
    assert_eq!(press(&mut s, NetKey::Enter), NetCommand::Nothing);
    assert_eq!(s.mac_address, None);
    assert!(!s.editing_mac);
}

#[test]
fn mac_field_keys() {
    let mut s = state("passt");
    s.selected_field = 2;
    assert_eq!(press(&mut s, NetKey::Char('r')), NetCommand::GenerateMac);
    set_generated_mac(&mut s, "52:54:00:12:34:56".to_string());
    assert_eq!(s.mac_edit_buffer, "52:54:00:12:34:56");
    press(&mut s, NetKey::Char('c'));
    assert_eq!(s.mac_address, None);
    assert_eq!(s.mac_edit_buffer, "");
    let mut s = state("none");
    s.selected_field = 2;
    assert_eq!(press(&mut s, NetKey::Char('r')), NetCommand::Nothing);
}
