//! The network settings screen: the adapter model, the backend, the bridge,
//! the MAC address and the port forwards of a VM, edited with the keyboard.
//! The screen has four modes: the settings themselves, the MAC address being
//! typed, the port forward list, and a port forward being added.

use vstd::prelude::*;
use crate::editor::{byte_len, utf8_width, width_of};
use crate::text::{
    chars_of, drop_last_char, lowercase, parse_unsigned, parse_unsigned_range, push_char, str_eq,
    to_lowercase, trim, trim_ws,
};

verus! {

/// Transport protocol of a port forward.
#[derive(Debug, Clone, Copy, PartialEq, Eq, Structural)]
pub enum PortProtocol {
    Tcp,
    Udp,
}

/// A host port forwarded to a guest port.
#[derive(Debug, Clone, Copy, PartialEq, Eq, Structural)]
pub struct PortForward {
    pub protocol: PortProtocol,
    pub host_port: u16,
    pub guest_port: u16,
}

/// The step of adding a port forward: protocol, then host port, then guest
/// port.
#[derive(Debug, Clone, Copy, PartialEq, Eq, Structural)]
pub enum AddPfStep {
    Protocol,
    HostPort,
    GuestPort,
}

/// A port forward being added.
#[derive(Debug, Clone)]
pub struct AddingPortForward {
    pub step: AddPfStep,
    pub protocol: PortProtocol,
    pub host_port_input: String,
    pub guest_port_input: String,
}

/// What is known of a port forward being added.
#[verifier::ext_equal]
pub struct AddingView {
    pub step: AddPfStep,
    pub protocol: PortProtocol,
    pub host: Seq<char>,
    pub guest: Seq<char>,
}

impl View for AddingPortForward {
    type V = AddingView;

    open spec fn view(&self) -> AddingView {
        AddingView {
            step: self.step,
            protocol: self.protocol,
            host: self.host_port_input@,
            guest: self.guest_port_input@,
        }
    }
}

/// The state of the network settings screen.
#[derive(Debug, Clone)]
pub struct NetworkSettingsState {
    /// Emulated adapter model (one of `network_models`).
    pub model: String,
    /// Backend id ("user", "passt", "bridge" or "none").
    pub backend: String,
    /// Host bridge, for the bridge backend.
    pub bridge_name: Option<String>,
    pub port_forwards: Vec<PortForward>,
    /// Highlighted field: 0 adapter, 1 backend, 2 MAC address, 3 bridge or
    /// port forwards.
    pub selected_field: usize,
    /// Whether the port forward list has the keyboard.
    pub editing_port_forwards: bool,
    /// Highlighted port forward.
    pub pf_selected: usize,
    /// The port forward being added, if any.
    pub adding_pf: Option<AddingPortForward>,
    /// MAC address of the adapter (`None`: chosen by QEMU).
    pub mac_address: Option<String>,
    /// The MAC address as typed.
    pub mac_edit_buffer: String,
    /// Whether the MAC address is being typed.
    pub editing_mac: bool,
}

/// What is known of the network settings screen's state.
#[verifier::ext_equal]
pub struct NetworkSettingsView {
    pub model: Seq<char>,
    pub backend: Seq<char>,
    pub bridge_name: Option<Seq<char>>,
    pub port_forwards: Seq<PortForward>,
    pub selected_field: usize,
    pub editing_port_forwards: bool,
    pub pf_selected: usize,
    pub adding_pf: Option<AddingView>,
    pub mac_address: Option<Seq<char>>,
    pub mac_edit_buffer: Seq<char>,
    pub editing_mac: bool,
}

/// The view of an optional text.
pub open spec fn opt_text(o: Option<String>) -> Option<Seq<char>> {
    match o {
        Some(s) => Some(s@),
        None => None,
    }
}

impl View for NetworkSettingsState {
    type V = NetworkSettingsView;

    open spec fn view(&self) -> NetworkSettingsView {
        NetworkSettingsView {
            model: self.model@,
            backend: self.backend@,
            bridge_name: opt_text(self.bridge_name),
            port_forwards: self.port_forwards@,
            selected_field: self.selected_field,
            editing_port_forwards: self.editing_port_forwards,
            pf_selected: self.pf_selected,
            adding_pf: match self.adding_pf {
                Some(a) => Some(a@),
                None => None,
            },
            mac_address: opt_text(self.mac_address),
            mac_edit_buffer: self.mac_edit_buffer@,
            editing_mac: self.editing_mac,
        }
    }
}

/// A key on the network settings screen.
#[derive(Debug, Clone, Copy, PartialEq, Eq, Structural)]
pub enum NetKey {
    Char(char),
    Up,
    Down,
    Left,
    Right,
    Enter,
    Esc,
    Backspace,
    Delete,
    Other,
}

/// What the network settings screen asks of its host after a key.
#[derive(Debug, Clone, PartialEq, Eq)]
pub enum NetCommand {
    Nothing,
    /// Leave the screen, dropping the changes.
    Back,
    /// Write the settings to the VM's launch script and leave the screen.
    Apply,
    /// Check whether the typed MAC address (trimmed) is valid, then call
    /// `accept_checked_mac`.
    CheckMac(String),
    /// Generate a random MAC address, then call `set_generated_mac`.
    GenerateMac,
}

/// The adapter models offered, in the order the arrows cycle through them.
pub open spec fn network_models() -> Seq<Seq<char>> {
    seq!["virtio"@, "e1000"@, "rtl8139"@, "ne2k_pci"@, "pcnet"@, "none"@]
}

/// The adapter models offered.
pub fn network_model_names() -> (res: Vec<String>)
    ensures
        res@.map_values(|s: String| s@) == network_models(),
        res@.len() == 6,
{
    let res = vec![
        String::from_str("virtio"),
        String::from_str("e1000"),
        String::from_str("rtl8139"),
        String::from_str("ne2k_pci"),
        String::from_str("pcnet"),
        String::from_str("none"),
    ];
    proof {
        reveal_strlit("virtio");
        reveal_strlit("e1000");
        reveal_strlit("rtl8139");
        reveal_strlit("ne2k_pci");
        reveal_strlit("pcnet");
        reveal_strlit("none");
        assert(res@.map_values(|s: String| s@) =~= network_models());
    }
    res
}

/// A port number as typed: decimal, with an optional leading `+`, at most 65535.
pub open spec fn port_value(s: Seq<char>) -> Option<int> {
    parse_unsigned(s, 10, 0xffff)
}

/// The other protocol.
pub open spec fn flipped(p: PortProtocol) -> PortProtocol {
    match p {
        PortProtocol::Tcp => PortProtocol::Udp,
        PortProtocol::Udp => PortProtocol::Tcp,
    }
}

/// `char::is_ascii_digit`.
pub open spec fn ascii_digit(c: char) -> bool {
    '0' <= c <= '9'
}

/// `char::is_ascii_hexdigit`.
pub open spec fn ascii_hexdigit(c: char) -> bool {
    ('0' <= c <= '9') || ('a' <= c <= 'f') || ('A' <= c <= 'F')
}

/// A text with its last character removed, where it has one.
pub open spec fn popped(s: Seq<char>) -> Seq<char> {
    if s.len() > 0 {
        s.drop_last()
    } else {
        s
    }
}

/// Adding a port forward: Esc cancels; Enter moves from the protocol to the
/// host port, from a valid host port to the guest port, and with two valid
/// ports adds the forward; the arrows switch the protocol; digits and
/// Backspace edit the port being typed.
pub open spec fn adding_after(a: AddingView, fs: Seq<PortForward>, key: NetKey) -> (
    Option<AddingView>,
    Seq<PortForward>,
) {
    match key {
        NetKey::Esc => (None, fs),
        NetKey::Enter => match a.step {
            AddPfStep::Protocol => (Some(AddingView { step: AddPfStep::HostPort, ..a }), fs),
            AddPfStep::HostPort => if port_value(a.host) is Some {
                (Some(AddingView { step: AddPfStep::GuestPort, ..a }), fs)
            } else {
                (Some(a), fs)
            },
            AddPfStep::GuestPort => match (port_value(a.host), port_value(a.guest)) {
                (Some(h), Some(g)) => (
                    None,
                    fs.push(PortForward { protocol: a.protocol, host_port: h as u16, guest_port: g as u16 }),
                ),
                _ => (Some(a), fs),
            },
        },
        NetKey::Left | NetKey::Right => if a.step is Protocol {
            (Some(AddingView { protocol: flipped(a.protocol), ..a }), fs)
        } else {
            (Some(a), fs)
        },
        NetKey::Char(c) => if ascii_digit(c) && a.step is HostPort {
            (Some(AddingView { host: a.host.push(c), ..a }), fs)
        } else if ascii_digit(c) && a.step is GuestPort {
            (Some(AddingView { guest: a.guest.push(c), ..a }), fs)
        } else {
            (Some(a), fs)
        },
        NetKey::Backspace => if a.step is HostPort {
            (Some(AddingView { host: popped(a.host), ..a }), fs)
        } else if a.step is GuestPort {
            (Some(AddingView { guest: popped(a.guest), ..a }), fs)
        } else {
            (Some(a), fs)
        },
        _ => (Some(a), fs),
    }
}

fn port_of(s: &String) -> (res: Option<u16>)
    ensures
        match port_value(s@) {
            Some(v) => res matches Some(r) && r as int == v,
            None => res is None,
        },
{
    let cs = chars_of(s.as_str());
    proof {
        assert(cs@.subrange(0, cs@.len() as int) =~= cs@);
    }
    match parse_unsigned_range(&cs, 0, cs.len(), 10, 0xffff) {
        Some(v) => Some(v as u16),
        None => None,
    }
}

/// A key while a port forward is being added; the result says whether the
/// adding goes on.
fn adding_key(adding: &mut AddingPortForward, forwards: &mut Vec<PortForward>, key: NetKey) -> (still: bool)
    ensures
        (if still {
            Some(final(adding)@)
        } else {
            None
        }, final(forwards)@) == adding_after(old(adding)@, old(forwards)@, key),
{
    match key {
        NetKey::Esc => false,
        NetKey::Enter => match adding.step {
            AddPfStep::Protocol => {
                adding.step = AddPfStep::HostPort;
                true
            },
            AddPfStep::HostPort => {
                if port_of(&adding.host_port_input).is_some() {
                    adding.step = AddPfStep::GuestPort;
                }
                true
            },
            AddPfStep::GuestPort => {
                match (port_of(&adding.host_port_input), port_of(&adding.guest_port_input)) {
                    (Some(h), Some(g)) => {
                        forwards.push(PortForward { protocol: adding.protocol, host_port: h, guest_port: g });
                        false
                    },
                    _ => true,
                }
            },
        },
        NetKey::Left | NetKey::Right => {
            if adding.step == AddPfStep::Protocol {
                adding.protocol = match adding.protocol {
                    PortProtocol::Tcp => PortProtocol::Udp,
                    PortProtocol::Udp => PortProtocol::Tcp,
                };
            }
            true
        },
        NetKey::Char(c) => {
            if '0' <= c && c <= '9' {
                match adding.step {
                    AddPfStep::HostPort => push_char(&mut adding.host_port_input, c),
                    AddPfStep::GuestPort => push_char(&mut adding.guest_port_input, c),
                    AddPfStep::Protocol => {},
                }
            }
            true
        },
        NetKey::Backspace => {
            match adding.step {
                AddPfStep::HostPort => drop_last_char(&mut adding.host_port_input),
                AddPfStep::GuestPort => drop_last_char(&mut adding.guest_port_input),
                AddPfStep::Protocol => {},
            }
            true
        },
        _ => true,
    }
}

/// The preset forwards of the digit keys (all TCP): SSH, RDP, HTTP, HTTPS
/// and VNC.
pub open spec fn preset(c: char) -> Option<(u16, u16)> {
    if c == '1' {
        Some((2222u16, 22u16))
    } else if c == '2' {
        Some((13389u16, 3389u16))
    } else if c == '3' {
        Some((8080u16, 80u16))
    } else if c == '4' {
        Some((8443u16, 443u16))
    } else if c == '5' {
        Some((15900u16, 5900u16))
    } else {
        None
    }
}

/// Whether a forward with these host and guest ports is listed.
pub open spec fn has_forward(fs: Seq<PortForward>, host: u16, guest: u16) -> bool {
    exists|i: int| 0 <= i < fs.len() && (#[trigger] fs[i]).host_port == host && fs[i].guest_port == guest
}

/// A preset added, unless a forward with the same ports is already listed.
pub open spec fn with_preset(fs: Seq<PortForward>, host: u16, guest: u16) -> Seq<PortForward> {
    if has_forward(fs, host, guest) {
        fs
    } else {
        fs.push(PortForward { protocol: PortProtocol::Tcp, host_port: host, guest_port: guest })
    }
}

/// The forward list after removing the highlighted forward, and the
/// highlight after it (kept on the list where it can be).
pub open spec fn after_delete(fs: Seq<PortForward>, sel: usize) -> (Seq<PortForward>, usize) {
    if fs.len() > 0 && sel < fs.len() {
        let rest = fs.remove(sel as int);
        (rest, if sel >= rest.len() && sel > 0 { (sel - 1) as usize } else { sel })
    } else {
        (fs, sel)
    }
}

/// A fresh port forward to add: TCP, no port typed yet.
pub open spec fn fresh_adding() -> AddingView {
    AddingView { step: AddPfStep::Protocol, protocol: PortProtocol::Tcp, host: Seq::empty(), guest: Seq::empty() }
}

/// The port forward list: Esc returns to the settings, `j`/`k` or the arrows
/// move, `a` or Enter start adding a forward, `d` or Delete remove the
/// highlighted one, and the digits `1` to `5` add a preset.
pub open spec fn pf_list_after(v: NetworkSettingsView, key: NetKey) -> NetworkSettingsView {
    let last = if v.port_forwards.len() > 0 { v.port_forwards.len() - 1 } else { 0 };
    if key is Esc {
        NetworkSettingsView { editing_port_forwards: false, ..v }
    } else if key is Down || key == NetKey::Char('j') {
        NetworkSettingsView { pf_selected: if v.pf_selected < last { (v.pf_selected + 1) as usize } else { v.pf_selected }, ..v }
    } else if key is Up || key == NetKey::Char('k') {
        NetworkSettingsView { pf_selected: if v.pf_selected > 0 { (v.pf_selected - 1) as usize } else { v.pf_selected }, ..v }
    } else if key is Enter || key == NetKey::Char('a') {
        NetworkSettingsView { adding_pf: Some(fresh_adding()), ..v }
    } else if key is Delete || key == NetKey::Char('d') {
        let d = after_delete(v.port_forwards, v.pf_selected);
        NetworkSettingsView { port_forwards: d.0, pf_selected: d.1, ..v }
    } else if key matches NetKey::Char(c) && preset(c) is Some {
        let p = preset(key->Char_0).unwrap();
        NetworkSettingsView { port_forwards: with_preset(v.port_forwards, p.0, p.1), ..v }
    } else {
        v
    }
}

fn add_preset(forwards: &mut Vec<PortForward>, host: u16, guest: u16)
    ensures
        final(forwards)@ == with_preset(old(forwards)@, host, guest),
{
    let mut i: usize = 0;
    while i < forwards.len()
        invariant
            i <= forwards@.len(),
            forwards@ == old(forwards)@,
            forall|j: int| 0 <= j < i ==> !((#[trigger] forwards@[j]).host_port == host && forwards@[j].guest_port == guest),
        decreases forwards@.len() - i,
    {
        if forwards[i].host_port == host && forwards[i].guest_port == guest {
            return;
        }
        i += 1;
    }
    forwards.push(PortForward { protocol: PortProtocol::Tcp, host_port: host, guest_port: guest });
}

fn pf_list_key(state: &mut NetworkSettingsState, key: NetKey)
    requires
        old(state).editing_port_forwards,
        old(state).adding_pf is None,
    ensures
        final(state)@ == pf_list_after(old(state)@, key),
{
    match key {
        NetKey::Esc => {
            state.editing_port_forwards = false;
        },
        NetKey::Down | NetKey::Char('j') => {
            let n = state.port_forwards.len();
            let last: usize = if n > 0 { n - 1 } else { 0 };
            if state.pf_selected < last {
                state.pf_selected = state.pf_selected + 1;
            }
        },
        NetKey::Up | NetKey::Char('k') => {
            if state.pf_selected > 0 {
                state.pf_selected = state.pf_selected - 1;
            }
        },
        NetKey::Enter | NetKey::Char('a') => {
            state.adding_pf = Some(
                AddingPortForward {
                    step: AddPfStep::Protocol,
                    protocol: PortProtocol::Tcp,
                    host_port_input: String::new(),
                    guest_port_input: String::new(),
                },
            );
        },
        NetKey::Delete | NetKey::Char('d') => {
            if state.port_forwards.len() > 0 && state.pf_selected < state.port_forwards.len() {
                state.port_forwards.remove(state.pf_selected);
                if state.pf_selected >= state.port_forwards.len() && state.pf_selected > 0 {
                    state.pf_selected = state.pf_selected - 1;
                }
            }
        },
        NetKey::Char('1') => add_preset(&mut state.port_forwards, 2222, 22),
        NetKey::Char('2') => add_preset(&mut state.port_forwards, 13389, 3389),
        NetKey::Char('3') => add_preset(&mut state.port_forwards, 8080, 80),
        NetKey::Char('4') => add_preset(&mut state.port_forwards, 8443, 443),
        NetKey::Char('5') => add_preset(&mut state.port_forwards, 15900, 5900),
        _ => {},
    }
    proof {
        assert(final(state)@ =~= pf_list_after(old(state)@, key));
    }
}

/// The longest MAC address text: six pairs of hex digits and five colons.
pub open spec fn mac_text_limit() -> int {
    17
}

/// Typing the MAC address: Esc restores the saved address; Enter on an empty
/// text clears the address, and on any other text asks the host to check it;
/// Backspace deletes; hex digits and `:` are typed while the text is shorter
/// than 17 bytes.
pub open spec fn mac_edit_after(v: NetworkSettingsView, key: NetKey) -> (NetworkSettingsView, Option<Seq<char>>) {
    match key {
        NetKey::Esc => (NetworkSettingsView {
            mac_edit_buffer: match v.mac_address {
                Some(m) => m,
                None => Seq::empty(),
            },
            editing_mac: false,
            ..v
        }, None),
        NetKey::Enter => if trim_ws(v.mac_edit_buffer).len() == 0 {
            (NetworkSettingsView { mac_address: None, mac_edit_buffer: Seq::empty(), editing_mac: false, ..v }, None)
        } else {
            (v, Some(trim_ws(v.mac_edit_buffer)))
        },
        NetKey::Backspace => (NetworkSettingsView { mac_edit_buffer: popped(v.mac_edit_buffer), ..v }, None),
        NetKey::Char(c) => if (ascii_hexdigit(c) || c == ':') && byte_len(v.mac_edit_buffer) < mac_text_limit() {
            (NetworkSettingsView { mac_edit_buffer: v.mac_edit_buffer.push(c), ..v }, None)
        } else {
            (v, None)
        },
        _ => (v, None),
    }
}

/// Whether the text is shorter than `limit` bytes in UTF-8.
fn shorter_than(s: &str, limit: usize) -> (res: bool)
    ensures
        res == (byte_len(s@) < limit),
{
    let cs = chars_of(s);
    if limit == 0 {
        proof {
            lemma_byte_len_prefix(cs@, 0);
            assert(cs@.take(0) =~= Seq::<char>::empty());
        }
        return false;
    }
    let mut total: usize = 0;
    let mut i: usize = 0;
    proof {
        assert(cs@.take(0) =~= Seq::<char>::empty());
    }
    while i < cs.len()
        invariant
            i <= cs@.len(),
            cs@ == s@,
            total == byte_len(cs@.take(i as int)),
            total < limit,
        decreases cs@.len() - i,
    {
        proof {
            assert(cs@.take(i + 1).drop_last() == cs@.take(i as int));
            assert(cs@.take(i + 1).last() == cs@[i as int]);
        }
        let w = width_of(cs[i]);
        if w >= limit - total {
            proof {
                lemma_byte_len_prefix(cs@, i + 1);
            }
            return false;
        }
        total = total + w;
        i += 1;
    }
    proof {
        assert(cs@.take(cs@.len() as int) == cs@);
    }
    true
}

proof fn lemma_byte_len_prefix(s: Seq<char>, k: int)
    requires
        0 <= k <= s.len(),
    ensures
        byte_len(s.take(k)) <= byte_len(s),
    decreases s.len() - k,
{
    if k < s.len() {
        lemma_byte_len_prefix(s, k + 1);
        assert(s.take(k + 1).drop_last() == s.take(k));
        assert(utf8_width(s.take(k + 1).last()) >= 1);
    } else {
        assert(s.take(k) == s);
    }
}

fn mac_edit_key(state: &mut NetworkSettingsState, key: NetKey) -> (cmd: NetCommand)
    requires
        old(state).editing_mac,
    ensures
        (final(state)@, match cmd {
            NetCommand::CheckMac(t) => Some(t@),
            _ => None,
        }) == mac_edit_after(old(state)@, key),
        cmd is Nothing || cmd is CheckMac,
{
    match key {
        NetKey::Esc => {
            state.mac_edit_buffer = match &state.mac_address {
                Some(m) => m.clone(),
                None => String::new(),
            };
            state.editing_mac = false;
        },
        NetKey::Enter => {
            let t = trim(state.mac_edit_buffer.as_str());
            if t.as_str().is_empty() {
                state.mac_address = None;
                state.mac_edit_buffer = String::new();
                state.editing_mac = false;
            } else {
                return NetCommand::CheckMac(t);
            }
        },
        NetKey::Backspace => drop_last_char(&mut state.mac_edit_buffer),
        NetKey::Char(c) => {
            let hex = ('0' <= c && c <= '9') || ('a' <= c && c <= 'f') || ('A' <= c && c <= 'F');
            if (hex || c == ':') && shorter_than(state.mac_edit_buffer.as_str(), 17) {
                push_char(&mut state.mac_edit_buffer, c);
            }
        },
        _ => {},
    }
    proof {
        assert(final(state)@ =~= mac_edit_after(old(state)@, key).0);
    }
    NetCommand::Nothing
}

/// The status line for a MAC address the host found invalid.
pub open spec fn invalid_mac_text(text: Seq<char>) -> Seq<char> {
    "Invalid MAC address: "@ + text
}

/// Ends typing the MAC address once the host has checked `text` (the
/// trimmed text of a `CheckMac`): a valid address is kept in lower case;
/// for an invalid one the state is unchanged and the status line to show is
/// returned.
pub fn accept_checked_mac(state: &mut NetworkSettingsState, text: &str, valid: bool) -> (status: Option<String>)
    ensures
        valid ==> status is None && final(state)@ == (NetworkSettingsView {
            mac_address: Some(lowercase(text@)),
            mac_edit_buffer: lowercase(text@),
            editing_mac: false,
            ..old(state)@
        }),
        !valid ==> (status matches Some(s) && s@ == invalid_mac_text(text@)) && final(state)@ == old(state)@,
{
    if valid {
        let m = to_lowercase(text);
        state.mac_edit_buffer = m.clone();
        state.mac_address = Some(m);
        state.editing_mac = false;
        proof {
            assert(final(state)@ =~= (NetworkSettingsView {
                mac_address: Some(lowercase(text@)),
                mac_edit_buffer: lowercase(text@),
                editing_mac: false,
                ..old(state)@
            }));
        }
        None
    } else {
        let mut s = String::from_str("Invalid MAC address: ");
        s.append(text);
        proof {
            reveal_strlit("Invalid MAC address: ");
        }
        Some(s)
    }
}

/// Keeps a generated MAC address (after a `GenerateMac`).
pub fn set_generated_mac(state: &mut NetworkSettingsState, mac: String)
    ensures
        final(state)@ == (NetworkSettingsView {
            mac_address: Some(mac@),
            mac_edit_buffer: mac@,
            ..old(state)@
        }),
{
    state.mac_edit_buffer = mac.clone();
    state.mac_address = Some(mac);
    proof {
        assert(final(state)@ =~= (NetworkSettingsView { mac_address: Some(mac@), mac_edit_buffer: mac@, ..old(state)@ }));
    }
}

/// Whether `i` is the first position of `cur` in `opts`.
pub open spec fn first_pos_at(opts: Seq<Seq<char>>, cur: Seq<char>, i: int) -> bool {
    &&& 0 <= i < opts.len()
    &&& opts[i] == cur
    &&& forall|j: int| 0 <= j < i ==> #[trigger] opts[j] != cur
}

/// The position of `cur` among `opts`, or 0 where it is not there.
pub open spec fn position_or_first(opts: Seq<Seq<char>>, cur: Seq<char>) -> int {
    if exists|i: int| first_pos_at(opts, cur, i) {
        choose|i: int| first_pos_at(opts, cur, i)
    } else {
        0
    }
}

/// The next (`forward`) or previous option after `cur`, wrapping around.
pub open spec fn cycled(opts: Seq<Seq<char>>, cur: Seq<char>, forward: bool) -> Seq<char> {
    let i = position_or_first(opts, cur);
    let n = opts.len();
    opts[if forward {
        if i + 1 < n { i + 1 } else { 0 }
    } else {
        if i > 0 { i - 1 } else { n - 1 }
    }]
}

fn position_in(opts: &[String], cur: &str) -> (pos: usize)
    requires
        opts@.len() > 0,
    ensures
        pos as int == position_or_first(opts@.map_values(|s: String| s@), cur@),
        pos < opts@.len(),
{
    let ghost vs = opts@.map_values(|s: String| s@);
    let mut i: usize = 0;
    while i < opts.len()
        invariant
            i <= opts@.len(),
            vs == opts@.map_values(|s: String| s@),
            forall|j: int| 0 <= j < i ==> #[trigger] vs[j] != cur@,
        decreases opts@.len() - i,
    {
        if str_eq(opts[i].as_str(), cur) {
            proof {
                assert(first_pos_at(vs, cur@, i as int));
                let k = choose|k: int| first_pos_at(vs, cur@, k);
                if k < i {
                    assert(vs[k] != cur@);
                }
                if k > i {
                    assert(vs[i as int] == cur@);
                }
            }
            return i;
        }
        i += 1;
    }
    proof {
        assert forall|k: int| !first_pos_at(vs, cur@, k) by {
            if first_pos_at(vs, cur@, k) {
                assert(vs[k] != cur@);
            }
        }
    }
    0
}

fn cycle_in(opts: &[String], cur: &str, forward: bool) -> (res: String)
    requires
        opts@.len() > 0,
    ensures
        res@ == cycled(opts@.map_values(|s: String| s@), cur@, forward),
{
    let pos = position_in(opts, cur);
    let n = opts.len();
    let next: usize = if forward {
        if pos + 1 < n { pos + 1 } else { 0 }
    } else {
        if pos > 0 { pos - 1 } else { n - 1 }
    };
    opts[next].clone()
}

/// The fields shown: the port forwards for the NAT backends, the bridge for
/// the bridge backend, and no MAC address without networking; the result is
/// the last field's position.
pub open spec fn last_field(backend: Seq<char>) -> usize {
    if backend == "none"@ {
        1
    } else if backend == "user"@ || backend == "passt"@ || backend == "bridge"@ {
        3
    } else {
        2
    }
}

/// The settings themselves: Esc leaves, `j`/`k` or the arrows move between
/// the fields shown, Left and Right cycle the adapter model, the backend (a
/// newly chosen bridge backend gets the first system bridge, or "qemubr0")
/// or the bridge; on the MAC field `r` asks for a random address, `c`
/// clears it and Enter starts typing it; Enter on the port forwards opens
/// their list; Enter elsewhere applies the settings.
pub open spec fn settings_after(
    v: NetworkSettingsView,
    backends: Seq<Seq<char>>,
    bridges: Seq<Seq<char>>,
    key: NetKey,
) -> (NetworkSettingsView, NetCommand) {
    let on_mac = v.selected_field == 2 && v.backend != "none"@;
    let nat_backend = v.backend == "user"@ || v.backend == "passt"@;
    if key is Esc {
        (v, NetCommand::Back)
    } else if key is Down || key == NetKey::Char('j') {
        (NetworkSettingsView { selected_field: if v.selected_field < last_field(v.backend) { (v.selected_field + 1) as usize } else { v.selected_field }, ..v }, NetCommand::Nothing)
    } else if key is Up || key == NetKey::Char('k') {
        (NetworkSettingsView { selected_field: if v.selected_field > 0 { (v.selected_field - 1) as usize } else { v.selected_field }, ..v }, NetCommand::Nothing)
    } else if key == NetKey::Char('r') {
        (v, if on_mac { NetCommand::GenerateMac } else { NetCommand::Nothing })
    } else if key == NetKey::Char('c') {
        (if on_mac { NetworkSettingsView { mac_address: None, mac_edit_buffer: Seq::empty(), ..v } } else { v }, NetCommand::Nothing)
    } else if key is Left || key is Right {
        let forward = key is Right;
        if v.selected_field == 0 {
            (NetworkSettingsView { model: cycled(network_models(), v.model, forward), ..v }, NetCommand::Nothing)
        } else if v.selected_field == 1 {
            let b = cycled(backends, v.backend, forward);
            let bridge = if b == "bridge"@ && v.bridge_name is None {
                Some(if bridges.len() > 0 { bridges[0] } else { "qemubr0"@ })
            } else {
                v.bridge_name
            };
            (NetworkSettingsView { backend: b, bridge_name: bridge, ..v }, NetCommand::Nothing)
        } else if v.selected_field == 3 && v.backend == "bridge"@ && bridges.len() > 0 {
            let cur = match v.bridge_name {
                Some(n) => n,
                None => Seq::empty(),
            };
            (NetworkSettingsView { bridge_name: Some(cycled(bridges, cur, forward)), ..v }, NetCommand::Nothing)
        } else {
            (v, NetCommand::Nothing)
        }
    } else if key is Enter {
        if on_mac {
            (NetworkSettingsView {
                mac_edit_buffer: match v.mac_address {
                    Some(m) => m,
                    None => Seq::empty(),
                },
                editing_mac: true,
                ..v
            }, NetCommand::Nothing)
        } else if v.selected_field == 3 && nat_backend {
            (NetworkSettingsView { editing_port_forwards: true, pf_selected: 0, ..v }, NetCommand::Nothing)
        } else {
            (v, NetCommand::Apply)
        }
    } else {
        (v, NetCommand::Nothing)
    }
}

fn settings_key(state: &mut NetworkSettingsState, backends: &[String], bridges: &[String], key: NetKey) -> (cmd: NetCommand)
    requires
        backends@.len() > 0,
    ensures
        (final(state)@, cmd) == settings_after(
            old(state)@,
            backends@.map_values(|s: String| s@),
            bridges@.map_values(|s: String| s@),
            key,
        ),
{
    proof {
        reveal_strlit("none");
        reveal_strlit("user");
        reveal_strlit("passt");
        reveal_strlit("bridge");
        reveal_strlit("qemubr0");
    }
    let ghost bv = bridges@.map_values(|s: String| s@);
    let no_net = str_eq(state.backend.as_str(), "none");
    let nat_backend = str_eq(state.backend.as_str(), "user") || str_eq(state.backend.as_str(), "passt");
    let is_bridge = str_eq(state.backend.as_str(), "bridge");
    let last: usize = if no_net {
        1
    } else if nat_backend || is_bridge {
        3
    } else {
        2
    };
    let on_mac = state.selected_field == 2 && !no_net;
    let cmd = match key {
        NetKey::Esc => NetCommand::Back,
        NetKey::Down | NetKey::Char('j') => {
            if state.selected_field < last {
                state.selected_field = state.selected_field + 1;
            }
            NetCommand::Nothing
        },
        NetKey::Up | NetKey::Char('k') => {
            if state.selected_field > 0 {
                state.selected_field = state.selected_field - 1;
            }
            NetCommand::Nothing
        },
        NetKey::Char('r') => {
            if on_mac {
                NetCommand::GenerateMac
            } else {
                NetCommand::Nothing
            }
        },
        NetKey::Char('c') => {
            if on_mac {
                state.mac_address = None;
                state.mac_edit_buffer = String::new();
            }
            NetCommand::Nothing
        },
        NetKey::Left | NetKey::Right => {
            let forward = match key {
                NetKey::Right => true,
                _ => false,
            };
            if state.selected_field == 0 {
                let models = network_model_names();
                state.model = cycle_in(models.as_slice(), state.model.as_str(), forward);
            } else if state.selected_field == 1 {
                let b = cycle_in(backends, state.backend.as_str(), forward);
                if str_eq(b.as_str(), "bridge") && state.bridge_name.is_none() {
                    let first = if bridges.len() > 0 {
                        bridges[0].clone()
                    } else {
                        String::from_str("qemubr0")
                    };
                    proof {
                        if bridges@.len() > 0 {
                            assert(bv[0] == bridges@[0]@);
                        }
                        assert(first@ == (if bv.len() > 0 { bv[0] } else { "qemubr0"@ }));
                    }
                    state.bridge_name = Some(first);
                }
                state.backend = b;
            } else if state.selected_field == 3 && is_bridge && bridges.len() > 0 {
                proof {
                    reveal_strlit("");
                    assert(""@ =~= Seq::<char>::empty());
                }
                let next = match &state.bridge_name {
                    Some(n) => cycle_in(bridges, n.as_str(), forward),
                    None => cycle_in(bridges, "", forward),
                };
                proof {
                    assert(next@ == cycled(bv, match old(state)@.bridge_name {
                        Some(n) => n,
                        None => Seq::empty(),
                    }, forward));
                }
                state.bridge_name = Some(next);
            }
            NetCommand::Nothing
        },
        NetKey::Enter => {
            if on_mac {
                state.mac_edit_buffer = match &state.mac_address {
                    Some(m) => m.clone(),
                    None => String::new(),
                };
                state.editing_mac = true;
                NetCommand::Nothing
            } else if state.selected_field == 3 && nat_backend {
                state.editing_port_forwards = true;
                state.pf_selected = 0;
                NetCommand::Nothing
            } else {
                NetCommand::Apply
            }
        },
        _ => NetCommand::Nothing,
    };
    proof {
        assert(final(state)@ =~= settings_after(
            old(state)@,
            backends@.map_values(|s: String| s@),
            bv,
            key,
        ).0);
    }
    cmd
}

/// The screen after a key, in whichever mode it is: adding a port forward,
/// the port forward list, typing the MAC address, or the settings.
pub open spec fn network_key_after(
    v: NetworkSettingsView,
    backends: Seq<Seq<char>>,
    bridges: Seq<Seq<char>>,
    key: NetKey,
) -> (NetworkSettingsView, Option<Seq<char>>, NetCommand) {
    if v.editing_port_forwards {
        match v.adding_pf {
            Some(a) => {
                let r = adding_after(a, v.port_forwards, key);
                (NetworkSettingsView { adding_pf: r.0, port_forwards: r.1, ..v }, None, NetCommand::Nothing)
            },
            None => (pf_list_after(v, key), None, NetCommand::Nothing),
        }
    } else if v.editing_mac {
        let r = mac_edit_after(v, key);
        (r.0, r.1, NetCommand::Nothing)
    } else {
        let r = settings_after(v, backends, bridges, key);
        (r.0, None, r.1)
    }
}

/// A key on the network settings screen. `backends` are the ids of the
/// backends offered (see `network_backend_options`, which always offers
/// some) and `bridges` the host's bridges. Where the result is `CheckMac`,
/// its text is the trimmed MAC address typed.
pub fn handle_network_settings_key(
    state: &mut NetworkSettingsState,
    backends: &[String],
    bridges: &[String],
    key: NetKey,
) -> (cmd: NetCommand)
    requires
        backends@.len() > 0,
    ensures
        ({
            let r = network_key_after(
                old(state)@,
                backends@.map_values(|s: String| s@),
                bridges@.map_values(|s: String| s@),
                key,
            );
            &&& final(state)@ == r.0
            &&& match r.1 {
                Some(t) => cmd matches NetCommand::CheckMac(c) && c@ == t,
                None => cmd == r.2,
            }
        }),
{
    if state.editing_port_forwards {
        match state.adding_pf.take() {
            Some(mut adding) => {
                let ghost before = adding@;
                let still = adding_key(&mut adding, &mut state.port_forwards, key);
                if still {
                    state.adding_pf = Some(adding);
                }
                proof {
                    assert(final(state)@ =~= network_key_after(
                        old(state)@,
                        backends@.map_values(|s: String| s@),
                        bridges@.map_values(|s: String| s@),
                        key,
                    ).0);
                }
                return NetCommand::Nothing;
            },
            None => {
                pf_list_key(state, key);
                return NetCommand::Nothing;
            },
        }
    }
    if state.editing_mac {
        return mac_edit_key(state, key);
    }
    settings_key(state, backends, bridges, key)
}

/// A preset key pressed twice adds its forward once: the list after the
/// second press is the list after the first.
pub proof fn lemma_preset_added_once(v: NetworkSettingsView, c: char)
    requires
        v.editing_port_forwards,
        v.adding_pf is None,
        preset(c) is Some,
    ensures
        pf_list_after(pf_list_after(v, NetKey::Char(c)), NetKey::Char(c)) == pf_list_after(v, NetKey::Char(c)),
{
    let p = preset(c).unwrap();
    let once = with_preset(v.port_forwards, p.0, p.1);
    if !has_forward(v.port_forwards, p.0, p.1) {
        let last = (once.len() - 1) as int;
        assert(once[last].host_port == p.0 && once[last].guest_port == p.1);
        assert(has_forward(once, p.0, p.1));
    }
    assert(has_forward(once, p.0, p.1));
}

proof fn lemma_position_of_distinct(opts: Seq<Seq<char>>, k: int)
    requires
        0 <= k < opts.len(),
        forall|i: int, j: int| 0 <= i < j < opts.len() ==> opts[i] != opts[j],
    ensures
        position_or_first(opts, opts[k]) == k,
{
    assert(first_pos_at(opts, opts[k], k));
    let q = choose|q: int| first_pos_at(opts, opts[k], q);
    if q < k {
        assert(opts[q] != opts[k]);
    }
    if q > k {
        assert(opts[k] != opts[k]);
    }
}

/// Cycling the adapter model one way and back returns to it, for a model
/// among those offered.
pub proof fn lemma_model_cycle_returns(model: Seq<char>, forward: bool)
    requires
        network_models().contains(model),
    ensures
        cycled(network_models(), cycled(network_models(), model, forward), !forward) == model,
{
    let ms = network_models();
    assert(forall|i: int, j: int| 0 <= i < j < ms.len() ==> ms[i] != ms[j]) by {
        reveal_strlit("virtio");
        reveal_strlit("e1000");
        reveal_strlit("rtl8139");
        reveal_strlit("ne2k_pci");
        reveal_strlit("pcnet");
        reveal_strlit("none");
        assert(ms[0][0] == 'v' && ms[1][0] == 'e' && ms[2][0] == 'r' && ms[3][0] == 'n' && ms[4][0] == 'p' && ms[5][0] == 'n');
        assert(ms[3][1] == 'e' && ms[5][1] == 'o');
    }
    let k = choose|k: int| 0 <= k < ms.len() && ms[k] == model;
    lemma_position_of_distinct(ms, k);
    let n = ms.len() as int;
    let next = if forward {
        if k + 1 < n { k + 1 } else { 0 }
    } else {
        if k > 0 { k - 1 } else { n - 1 }
    };
    lemma_position_of_distinct(ms, next);
}

} // verus!
