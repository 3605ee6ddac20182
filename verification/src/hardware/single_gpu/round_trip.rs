//! The configuration file written by `config_file_content` reads back, through
//! `parse_config`, as the configuration it was written from.

use vstd::prelude::*;
use crate::hardware::pci::PciDeviceView;
use crate::text::{
    hex, dec, is_digit_char, is_ws, join_lines, lemma_dec_parse, lemma_digit_text_no_0x,
    lemma_hex_parse, lemma_index_of_is, lemma_lines_join, lines, replace_char, split_once,
    strip_cr, trim_char, trim_end_ws, trim_start_ws, trim_ws,
};
use super::{
    config_lines, device_field_lines, rom_lines, dm_of_name, dm_service_name, driver_module_name,
    driver_of_name, escape_quotes, group_value, hex16_value, hex32_value, parse_config_spec,
    quoted_line, scan_assign, scan_from, scan_line, scan_lines, scan_start, ScanState,
    SingleGpuConfigView,
};

verus! {

/// Neither a double quote nor a line break occurs in `s`.
pub open spec fn plain_text(s: Seq<char>) -> bool {
    forall|i: int| 0 <= i < s.len() ==> s[i] != '"' && s[i] != '\n'
}

/// A text that reads back from between quotes: no line break, and no double
/// quote at either end (one inside is kept).
pub open spec fn quotable(s: Seq<char>) -> bool {
    &&& forall|i: int| 0 <= i < s.len() ==> s[i] != '\n'
    &&& (s.len() > 0 ==> s[0] != '"' && s.last() != '"')
}

/// The text fields of a device can be written to the file and read back.
pub open spec fn device_persistable(d: PciDeviceView) -> bool {
    &&& plain_text(d.address)
    &&& plain_text(d.vendor_name)
    &&& plain_text(d.device_name)
    &&& (d.driver matches Some(v) ==> plain_text(v))
}

/// A configuration the file format can hold: a GPU address, plain text
/// fields, and driver and display manager names that read back as themselves.
pub open spec fn config_persistable(c: SingleGpuConfigView) -> bool {
    &&& c.gpu.address.len() > 0
    &&& device_persistable(c.gpu)
    &&& (c.audio matches Some(a) ==> device_persistable(a))
    &&& quotable(driver_module_name(c.original_driver))
    &&& quotable(dm_service_name(c.display_manager))
    &&& driver_of_name(driver_module_name(c.original_driver)) == c.original_driver
    &&& dm_of_name(dm_service_name(c.display_manager)) == c.display_manager
    &&& (c.gpu_rom matches Some(r) ==> quotable(r))
}

/// A device as the file records it: no subsystem IDs, the given boot-VGA flag.
pub open spec fn persisted_device(d: PciDeviceView, boot_vga: bool) -> PciDeviceView {
    PciDeviceView { is_boot_vga: boot_vga, subsystem_vendor_id: 0, subsystem_device_id: 0, ..d }
}

/// A configuration as the file records it: without subsystem IDs, the audio
/// device's boot-VGA flag and the list of IOMMU group devices.
pub open spec fn persisted_config(c: SingleGpuConfigView) -> SingleGpuConfigView {
    SingleGpuConfigView {
        gpu: persisted_device(c.gpu, c.gpu.is_boot_vga),
        audio: match c.audio {
            Some(a) => Some(persisted_device(a, false)),
            None => None,
        },
        iommu_group_devices: seq![],
        ..c
    }
}

proof fn lemma_scan_append(st: ScanState, a: Seq<Seq<char>>, b: Seq<Seq<char>>)
    ensures
        scan_from(st, a + b) == scan_from(scan_from(st, a), b),
    decreases b.len(),
{
    if b.len() == 0 {
        assert(a + b =~= a);
    } else {
        assert((a + b).drop_last() =~= a + b.drop_last());
        assert((a + b).last() == b.last());
        lemma_scan_append(st, a, b.drop_last());
    }
}

proof fn lemma_scan_one(st: ScanState, l: Seq<char>)
    ensures
        scan_from(st, seq![l]) == scan_line(st, l),
{
    assert(seq![l].drop_last() =~= Seq::<Seq<char>>::empty());
    assert(scan_from(st, Seq::<Seq<char>>::empty()) == st);
}

proof fn lemma_trim_plain(s: Seq<char>)
    requires
        s.len() > 0,
        !is_ws(s[0]),
        !is_ws(s.last()),
    ensures
        trim_ws(s) == s,
{
    assert(trim_start_ws(s) == s);
}

proof fn lemma_no_quote_trim(s: Seq<char>)
    requires
        plain_text(s),
    ensures
        trim_char(seq!['"'] + s + seq!['"'], '"') == s,
        escape_quotes(s) == s,
{
    let q = seq!['"'] + s + seq!['"'];
    assert(q.drop_first() =~= s + seq!['"']);
    let t = s + seq!['"'];
    assert(q[0] == '"');
    assert(trim_char(q, '"') == trim_char(t, '"'));
    if s.len() > 0 {
        assert(s[0] != '"');
        assert(s[s.len() - 1] != '"');
        assert(t[0] == s[0]);
        assert(t.last() == '"');
        assert(t.drop_last() =~= s);
        assert(trim_char(t, '"') == trim_char(s, '"'));
        assert(trim_char(s, '"') == s);
    } else {
        assert(t[0] == '"');
        assert(t.drop_first() =~= s);
        assert(trim_char(t, '"') == trim_char(s, '"'));
    }
    lemma_replace_absent(s);
}

proof fn lemma_quoted_trim(s: Seq<char>)
    requires
        quotable(s),
    ensures
        trim_char(seq!['"'] + s + seq!['"'], '"') == s,
{
    let q = seq!['"'] + s + seq!['"'];
    assert(q.drop_first() =~= s + seq!['"']);
    let t = s + seq!['"'];
    assert(q[0] == '"');
    assert(trim_char(q, '"') == trim_char(t, '"'));
    if s.len() > 0 {
        assert(t[0] == s[0]);
        assert(t.last() == '"');
        assert(t.drop_last() =~= s);
        assert(trim_char(t, '"') == trim_char(s, '"'));
        assert(trim_char(s, '"') == s);
    } else {
        assert(t[0] == '"');
        assert(t.drop_first() =~= s);
        assert(trim_char(t, '"') == trim_char(s, '"'));
    }
}

proof fn lemma_replace_absent(s: Seq<char>)
    requires
        plain_text(s),
    ensures
        replace_char(s, '"', "\\\""@) == s,
    decreases s.len(),
{
    if s.len() > 0 {
        assert(plain_text(s.drop_last())) by {
            assert forall|i: int| 0 <= i < s.drop_last().len() implies s.drop_last()[i] != '"'
                && s.drop_last()[i] != '\n' by {
                assert(s.drop_last()[i] == s[i]);
            }
        }
        lemma_replace_absent(s.drop_last());
        assert(s.drop_last().push(s.last()) =~= s);
    }
}

/// Reading `key = rhs` records `key` with `rhs` stripped of surrounding quotes.
proof fn lemma_scan_kv(st: ScanState, k: Seq<char>, rhs: Seq<char>)
    requires
        k.len() > 0,
        !is_ws(k[0]),
        k[0] != '#',
        k[0] != '[',
        !is_ws(k.last()),
        forall|i: int| 0 <= i < k.len() ==> k[i] != '=',
        rhs.len() > 0,
        !is_ws(rhs[0]),
        !is_ws(rhs.last()),
    ensures
        scan_line(st, k + " = "@ + rhs) == scan_assign(st, k, trim_char(rhs, '"')),
{
    reveal_strlit(" = ");
    let n = k.len() as int;
    let line = k + " = "@ + rhs;
    assert(line[0] == k[0]);
    assert(line.last() == rhs.last());
    lemma_trim_plain(line);
    assert(line[n + 1] == '=');
    assert forall|j: int| 0 <= j < n + 1 implies line[j] != '=' by {
        if j < k.len() {
            assert(line[j] == k[j]);
        } else {
            assert(line[j] == ' ');
        }
    }
    lemma_index_of_is(line, '=', n + 1);
    let kk = line.take(n + 1);
    let vv = line.skip(n + 2);
    assert(kk =~= k.push(' '));
    assert(vv =~= seq![' '] + rhs);
    assert(split_once(line, '=') == Some((kk, vv)));
    assert(trim_start_ws(kk) == kk);
    assert(kk.drop_last() =~= k);
    assert(trim_end_ws(k) == k);
    assert(trim_ws(kk) == k);
    assert(vv.drop_first() =~= rhs);
    assert(trim_start_ws(rhs) == rhs);
    assert(trim_ws(vv) == rhs);
}

proof fn lemma_scan_section(st: ScanState, name: Seq<char>)
    ensures
        scan_line(st, seq!['['] + name + seq![']']) == (ScanState { section: name, ..st }),
{
    let line = seq!['['] + name + seq![']'];
    assert(line[0] == '[');
    assert(line.last() == ']');
    lemma_trim_plain(line);
    assert(line.subrange(1, line.len() - 1) =~= name);
}

proof fn lemma_scan_skipped(st: ScanState, l: Seq<char>)
    requires
        l.len() == 0 || l[0] == '#',
        l.len() == 0 || !is_ws(l.last()),
    ensures
        scan_line(st, l) == st,
{
    if l.len() > 0 {
        lemma_trim_plain(l);
    }
}

} // verus!

verus! {

proof fn lemma_scan_two(st: ScanState, a: Seq<Seq<char>>, l: Seq<char>)
    ensures
        scan_from(st, a + seq![l]) == scan_line(scan_from(st, a), l),
{
    lemma_scan_append(st, a, seq![l]);
    lemma_scan_one(scan_from(st, a), l);
}

proof fn lemma_scan_six(
    st: ScanState,
    q0: Seq<char>,
    q1: Seq<char>,
    q2: Seq<char>,
    q3: Seq<char>,
    q4: Seq<char>,
    q5: Seq<char>,
)
    ensures
        scan_from(st, seq![q0, q1, q2, q3, q4, q5]) == scan_line(
            scan_line(scan_line(scan_line(scan_line(scan_line(st, q0), q1), q2), q3), q4),
            q5,
        ),
{
    let a1 = seq![q0];
    let a2 = a1 + seq![q1];
    let a3 = a2 + seq![q2];
    let a4 = a3 + seq![q3];
    let a5 = a4 + seq![q4];
    let a6 = a5 + seq![q5];
    assert(a6 =~= seq![q0, q1, q2, q3, q4, q5]);
    lemma_scan_one(st, q0);
    lemma_scan_two(st, a1, q1);
    lemma_scan_two(st, a2, q2);
    lemma_scan_two(st, a3, q3);
    lemma_scan_two(st, a4, q4);
    lemma_scan_two(st, a5, q5);
}

/// A key the reader recognises as such.
pub open spec fn good_key(k: Seq<char>) -> bool {
    &&& k.len() > 0
    &&& !is_ws(k[0])
    &&& k[0] != '#'
    &&& k[0] != '['
    &&& !is_ws(k.last())
    &&& forall|i: int| 0 <= i < k.len() ==> k[i] != '='
}

proof fn lemma_scan_quoted(st: ScanState, k: Seq<char>, v: Seq<char>)
    requires
        good_key(k),
        plain_text(v),
    ensures
        scan_line(st, quoted_line(k, v)) == scan_assign(st, k, v),
{
    reveal_strlit(" = \"");
    reveal_strlit(" = ");
    reveal_strlit("\"");
    let rhs = seq!['"'] + v + seq!['"'];
    assert(quoted_line(k, v) =~= k + " = "@ + rhs);
    assert(rhs[0] == '"');
    assert(rhs.last() == '"');
    lemma_scan_kv(st, k, rhs);
    lemma_no_quote_trim(v);
}

proof fn lemma_scan_quoted_name(st: ScanState, k: Seq<char>, v: Seq<char>)
    requires
        good_key(k),
        quotable(v),
    ensures
        scan_line(st, quoted_line(k, v)) == scan_assign(st, k, v),
{
    reveal_strlit(" = \"");
    reveal_strlit(" = ");
    reveal_strlit("\"");
    let rhs = seq!['"'] + v + seq!['"'];
    assert(quoted_line(k, v) =~= k + " = "@ + rhs);
    assert(rhs[0] == '"');
    assert(rhs.last() == '"');
    lemma_scan_kv(st, k, rhs);
    lemma_quoted_trim(v);
}

proof fn lemma_scan_plain_value(st: ScanState, k: Seq<char>, rhs: Seq<char>)
    requires
        good_key(k),
        rhs.len() > 0,
        is_digit_char(rhs[0]) || rhs[0] == 't' || rhs[0] == 'f',
        is_digit_char(rhs.last()) || rhs.last() == 'e',
    ensures
        scan_line(st, k + " = "@ + rhs) == scan_assign(st, k, rhs),
{
    lemma_scan_kv(st, k, rhs);
    assert(trim_char(rhs, '"') == rhs);
}

proof fn lemma_hex_value_plain(v: nat, w: nat, max: int)
    requires
        v <= max,
    ensures
        plain_text("0x"@ + hex(v, w)),
        crate::text::parse_unsigned(crate::text::trim_start_all("0x"@ + hex(v, w), "0x"@), 16, max)
            == Some(v as int),
{
    reveal_strlit("0x");
    lemma_hex_parse(v, w, max);
    lemma_digit_text_no_0x(hex(v, w));
    let s = "0x"@ + hex(v, w);
    assert forall|i: int| 0 <= i < s.len() implies s[i] != '"' && s[i] != '\n' by {
        if i >= 2 {
            assert(s[i] == hex(v, w)[i - 2]);
            assert(is_digit_char(hex(v, w)[i - 2]));
        }
    }
}

proof fn lemma_keys()
    ensures
        good_key("address"@),
        good_key("vendor_id"@),
        good_key("device_id"@),
        good_key("vendor_name"@),
        good_key("device_name"@),
        good_key("class_code"@),
        good_key("driver"@),
        good_key("iommu_group"@),
        good_key("is_boot_vga"@),
        good_key("original_driver"@),
        good_key("display_manager"@),
{
    reveal_strlit("address");
    reveal_strlit("vendor_id");
    reveal_strlit("device_id");
    reveal_strlit("vendor_name");
    reveal_strlit("device_name");
    reveal_strlit("class_code");
    reveal_strlit("driver");
    reveal_strlit("iommu_group");
    reveal_strlit("is_boot_vga");
    reveal_strlit("original_driver");
    reveal_strlit("display_manager");
}

/// The literals of the file format differ from one another.
proof fn lemma_literal_facts()
    ensures
        "address"@ != "vendor_id"@,
        "address"@ != "device_id"@,
        "address"@ != "vendor_name"@,
        "address"@ != "device_name"@,
        "address"@ != "class_code"@,
        "address"@ != "driver"@,
        "address"@ != "iommu_group"@,
        "address"@ != "is_boot_vga"@,
        "vendor_id"@ != "device_id"@,
        "vendor_id"@ != "vendor_name"@,
        "vendor_id"@ != "device_name"@,
        "vendor_id"@ != "class_code"@,
        "vendor_id"@ != "driver"@,
        "vendor_id"@ != "iommu_group"@,
        "vendor_id"@ != "is_boot_vga"@,
        "device_id"@ != "vendor_name"@,
        "device_id"@ != "device_name"@,
        "device_id"@ != "class_code"@,
        "device_id"@ != "driver"@,
        "device_id"@ != "iommu_group"@,
        "device_id"@ != "is_boot_vga"@,
        "vendor_name"@ != "device_name"@,
        "vendor_name"@ != "class_code"@,
        "vendor_name"@ != "driver"@,
        "vendor_name"@ != "iommu_group"@,
        "vendor_name"@ != "is_boot_vga"@,
        "device_name"@ != "class_code"@,
        "device_name"@ != "driver"@,
        "device_name"@ != "iommu_group"@,
        "device_name"@ != "is_boot_vga"@,
        "class_code"@ != "driver"@,
        "class_code"@ != "iommu_group"@,
        "class_code"@ != "is_boot_vga"@,
        "driver"@ != "iommu_group"@,
        "driver"@ != "is_boot_vga"@,
        "iommu_group"@ != "is_boot_vga"@,
        "original_driver"@ != "display_manager"@,
        "gpu"@ != "audio"@,
        "gpu"@ != "settings"@,
        "audio"@ != "settings"@,
        "true"@ != "false"@,
        "gpu"@ == seq!['g', 'p', 'u'],
        "audio"@ == seq!['a', 'u', 'd', 'i', 'o'],
        "settings"@ == seq!['s', 'e', 't', 't', 'i', 'n', 'g', 's'],
        "# Single GPU Passthrough Configuration"@[0] == '#',
        "# Generated by vm-curator - do not edit manually"@[0] == '#',
        !is_ws("# Single GPU Passthrough Configuration"@.last()),
        !is_ws("# Generated by vm-curator - do not edit manually"@.last()),
        "[gpu]"@ == seq!['['] + "gpu"@ + seq![']'],
        "[audio]"@ == seq!['['] + "audio"@ + seq![']'],
        "[settings]"@ == seq!['['] + "settings"@ + seq![']'],
        "iommu_group = "@ == "iommu_group"@ + " = "@,
        "is_boot_vga = "@ == "is_boot_vga"@ + " = "@,
{
    reveal_strlit("address");
    reveal_strlit("vendor_id");
    reveal_strlit("device_id");
    reveal_strlit("vendor_name");
    reveal_strlit("device_name");
    reveal_strlit("class_code");
    reveal_strlit("driver");
    reveal_strlit("iommu_group");
    reveal_strlit("is_boot_vga");
    reveal_strlit("original_driver");
    reveal_strlit("display_manager");
    reveal_strlit("gpu");
    reveal_strlit("audio");
    reveal_strlit("settings");
    reveal_strlit("true");
    reveal_strlit("false");
    reveal_strlit("[gpu]");
    reveal_strlit("[audio]");
    reveal_strlit("[settings]");
    reveal_strlit(" = ");
    reveal_strlit("iommu_group = ");
    reveal_strlit("is_boot_vga = ");
    reveal_strlit("# Single GPU Passthrough Configuration");
    reveal_strlit("# Generated by vm-curator - do not edit manually");
    assert("address"@.len() == 7);
    assert("vendor_id"@.len() == 9);
    assert("device_id"@.len() == 9);
    assert("vendor_name"@.len() == 11);
    assert("device_name"@.len() == 11);
    assert("class_code"@.len() == 10);
    assert("driver"@.len() == 6);
    assert("iommu_group"@.len() == 11);
    assert("is_boot_vga"@.len() == 11);
    assert("vendor_id"@[0] != "device_id"@[0]);
    assert("vendor_name"@[0] != "device_name"@[0]);
    assert("vendor_name"@[0] != "iommu_group"@[0]);
    assert("vendor_name"@[0] != "is_boot_vga"@[0]);
    assert("device_name"@[0] != "iommu_group"@[0]);
    assert("device_name"@[0] != "is_boot_vga"@[0]);
    assert("iommu_group"@[1] != "is_boot_vga"@[1]);
    assert("original_driver"@[0] != "display_manager"@[0]);
    assert("gpu"@.len() == 3);
    assert("audio"@.len() == 5);
    assert("settings"@.len() == 8);
    assert("true"@.len() == 4);
    assert("false"@.len() == 5);
    assert("gpu"@ =~= seq!['g', 'p', 'u']);
    assert("audio"@ =~= seq!['a', 'u', 'd', 'i', 'o']);
    assert("settings"@ =~= seq!['s', 'e', 't', 't', 'i', 'n', 'g', 's']);
    assert("[gpu]"@ =~= seq!['['] + "gpu"@ + seq![']']);
    assert("[audio]"@ =~= seq!['['] + "audio"@ + seq![']']);
    assert("[settings]"@ =~= seq!['['] + "settings"@ + seq![']']);
    assert("iommu_group = "@ =~= "iommu_group"@ + " = "@);
    assert("is_boot_vga = "@ =~= "is_boot_vga"@ + " = "@);
}


} // verus!

verus! {

/// State after reading a device's lines into the `[gpu]` section.
pub open spec fn gpu_read(st: ScanState, d: PciDeviceView) -> ScanState {
    ScanState {
        gpu_address: d.address,
        gpu_vendor_id: d.vendor_id,
        gpu_device_id: d.device_id,
        gpu_vendor_name: d.vendor_name,
        gpu_device_name: d.device_name,
        gpu_class: d.class_code,
        gpu_driver: if d.driver is Some {
            d.driver
        } else {
            st.gpu_driver
        },
        gpu_iommu_group: if d.iommu_group is Some {
            d.iommu_group
        } else {
            st.gpu_iommu_group
        },
        ..st
    }
}

/// State after reading a device's lines into the `[audio]` section.
pub open spec fn audio_read(st: ScanState, d: PciDeviceView) -> ScanState {
    ScanState {
        audio_address: Some(d.address),
        audio_vendor_id: d.vendor_id,
        audio_device_id: d.device_id,
        audio_vendor_name: d.vendor_name,
        audio_device_name: d.device_name,
        audio_class: d.class_code,
        audio_driver: if d.driver is Some {
            d.driver
        } else {
            st.audio_driver
        },
        audio_iommu_group: if d.iommu_group is Some {
            d.iommu_group
        } else {
            st.audio_iommu_group
        },
        ..st
    }
}

proof fn lemma_device_values(d: PciDeviceView)
    requires
        device_persistable(d),
    ensures
        plain_text("0x"@ + hex(d.vendor_id as nat, 4)),
        plain_text("0x"@ + hex(d.device_id as nat, 4)),
        plain_text("0x"@ + hex(d.class_code as nat, 6)),
        hex16_value("0x"@ + hex(d.vendor_id as nat, 4)) == d.vendor_id,
        hex16_value("0x"@ + hex(d.device_id as nat, 4)) == d.device_id,
        hex32_value("0x"@ + hex(d.class_code as nat, 6)) == d.class_code,
        escape_quotes(d.vendor_name) == d.vendor_name,
        escape_quotes(d.device_name) == d.device_name,
        d.iommu_group matches Some(g) ==> {
            &&& group_value(dec(g as nat)) == Some(g)
            &&& dec(g as nat).len() > 0
            &&& is_digit_char(dec(g as nat)[0])
            &&& is_digit_char(dec(g as nat).last())
        },
{
    lemma_hex_value_plain(d.vendor_id as nat, 4, 0xffff);
    lemma_hex_value_plain(d.device_id as nat, 4, 0xffff);
    lemma_hex_value_plain(d.class_code as nat, 6, 0xffff_ffff);
    lemma_no_quote_trim(d.vendor_name);
    lemma_no_quote_trim(d.device_name);
    if d.iommu_group is Some {
        let g = d.iommu_group->0;
        lemma_dec_parse(g as nat, 0xffff_ffff);
        let t = dec(g as nat);
        assert(is_digit_char(t[0]));
        assert(is_digit_char(t[t.len() - 1]));
    }
}

proof fn lemma_scan_device_lines(st: ScanState, d: PciDeviceView)
    requires
        st.section == "gpu"@ || st.section == "audio"@,
        device_persistable(d),
    ensures
        st.section == "gpu"@ ==> scan_from(st, device_field_lines(d)) == gpu_read(st, d),
        st.section == "audio"@ ==> scan_from(st, device_field_lines(d)) == audio_read(st, d),
{
    lemma_keys();
    lemma_literal_facts();
    lemma_device_values(d);
    let q0 = quoted_line("address"@, d.address);
    let q1 = quoted_line("vendor_id"@, "0x"@ + hex(d.vendor_id as nat, 4));
    let q2 = quoted_line("device_id"@, "0x"@ + hex(d.device_id as nat, 4));
    let q3 = quoted_line("vendor_name"@, escape_quotes(d.vendor_name));
    let q4 = quoted_line("device_name"@, escape_quotes(d.device_name));
    let q5 = quoted_line("class_code"@, "0x"@ + hex(d.class_code as nat, 6));
    let six = seq![q0, q1, q2, q3, q4, q5];
    let o1 = match d.driver {
        Some(v) => seq![quoted_line("driver"@, v)],
        None => Seq::<Seq<char>>::empty(),
    };
    let o2 = match d.iommu_group {
        Some(g) => seq!["iommu_group = "@ + dec(g as nat)],
        None => Seq::<Seq<char>>::empty(),
    };
    assert(device_field_lines(d) == six + o1 + o2);
    lemma_scan_append(st, six + o1, o2);
    lemma_scan_append(st, six, o1);
    lemma_scan_six(st, q0, q1, q2, q3, q4, q5);
    let s1 = scan_line(st, q0);
    lemma_scan_quoted(st, "address"@, d.address);
    let s2 = scan_line(s1, q1);
    lemma_scan_quoted(s1, "vendor_id"@, "0x"@ + hex(d.vendor_id as nat, 4));
    let s3 = scan_line(s2, q2);
    lemma_scan_quoted(s2, "device_id"@, "0x"@ + hex(d.device_id as nat, 4));
    let s4 = scan_line(s3, q3);
    lemma_scan_quoted(s3, "vendor_name"@, d.vendor_name);
    let s5 = scan_line(s4, q4);
    lemma_scan_quoted(s4, "device_name"@, d.device_name);
    let s6 = scan_line(s5, q5);
    lemma_scan_quoted(s5, "class_code"@, "0x"@ + hex(d.class_code as nat, 6));
    assert(scan_from(st, six) == s6);
    let s7 = scan_from(s6, o1);
    match d.driver {
        Some(v) => {
            lemma_scan_one(s6, quoted_line("driver"@, v));
            lemma_scan_quoted(s6, "driver"@, v);
        },
        None => {},
    }
    match d.iommu_group {
        Some(g) => {
            lemma_scan_one(s7, "iommu_group = "@ + dec(g as nat));
            lemma_scan_plain_value(s7, "iommu_group"@, dec(g as nat));
        },
        None => {},
    }
}

} // verus!

verus! {

/// A line that `str::lines` gives back unchanged after joining.
pub open spec fn line_ok(l: Seq<char>) -> bool {
    &&& forall|i: int| 0 <= i < l.len() ==> l[i] != '\n'
    &&& (l.len() == 0 || l.last() != '\r')
}

/// Every line is free of newlines and of a trailing carriage return.
pub open spec fn all_lines_ok(ls: Seq<Seq<char>>) -> bool {
    forall|i: int| 0 <= i < ls.len() ==> line_ok(#[trigger] ls[i])
}

proof fn lemma_all_ok_concat(a: Seq<Seq<char>>, b: Seq<Seq<char>>)
    requires
        all_lines_ok(a),
        all_lines_ok(b),
    ensures
        all_lines_ok(a + b),
{
    assert forall|i: int| 0 <= i < (a + b).len() implies line_ok(#[trigger] (a + b)[i]) by {
        if i < a.len() {
            assert((a + b)[i] == a[i]);
        } else {
            assert((a + b)[i] == b[i - a.len()]);
        }
    }
}

proof fn lemma_line_ok_kv(k: Seq<char>, mid: Seq<char>, v: Seq<char>, tail: Seq<char>)
    requires
        line_ok(k),
        line_ok(mid),
        forall|i: int| 0 <= i < v.len() ==> v[i] != '\n',
        line_ok(tail),
        tail.len() > 0,
    ensures
        line_ok(k + mid + v + tail),
{
    let l = k + mid + v + tail;
    assert forall|i: int| 0 <= i < l.len() implies l[i] != '\n' by {
        if i < k.len() {
            assert(l[i] == k[i]);
        } else if i < k.len() + mid.len() {
            assert(l[i] == mid[i - k.len()]);
        } else if i < k.len() + mid.len() + v.len() {
            assert(l[i] == v[i - k.len() - mid.len()]);
        } else {
            assert(l[i] == tail[i - k.len() - mid.len() - v.len()]);
        }
    }
    assert(l.last() == tail.last());
}

proof fn lemma_literal_lines_ok()
    ensures
        line_ok("address"@),
        line_ok("vendor_id"@),
        line_ok("device_id"@),
        line_ok("vendor_name"@),
        line_ok("device_name"@),
        line_ok("class_code"@),
        line_ok("driver"@),
        line_ok("original_driver"@),
        line_ok("display_manager"@),
        line_ok(" = \""@),
        line_ok("\""@),
        "\""@.len() > 0,
        line_ok("iommu_group = "@),
        line_ok("is_boot_vga = "@),
        line_ok("true"@),
        line_ok("false"@),
        line_ok("# Single GPU Passthrough Configuration"@),
        line_ok("# Generated by vm-curator - do not edit manually"@),
        line_ok("[gpu]"@),
        line_ok("[audio]"@),
        line_ok("[settings]"@),
        line_ok(Seq::<char>::empty()),
{
    reveal_strlit("address");
    reveal_strlit("vendor_id");
    reveal_strlit("device_id");
    reveal_strlit("vendor_name");
    reveal_strlit("device_name");
    reveal_strlit("class_code");
    reveal_strlit("driver");
    reveal_strlit("original_driver");
    reveal_strlit("display_manager");
    reveal_strlit(" = \"");
    reveal_strlit("\"");
    reveal_strlit("iommu_group = ");
    reveal_strlit("is_boot_vga = ");
    reveal_strlit("true");
    reveal_strlit("false");
    reveal_strlit("# Single GPU Passthrough Configuration");
    reveal_strlit("# Generated by vm-curator - do not edit manually");
    reveal_strlit("[gpu]");
    reveal_strlit("[audio]");
    reveal_strlit("[settings]");
}

proof fn lemma_quoted_ok(k: Seq<char>, v: Seq<char>)
    requires
        line_ok(k),
        forall|i: int| 0 <= i < v.len() ==> v[i] != '\n',
    ensures
        line_ok(quoted_line(k, v)),
{
    lemma_literal_lines_ok();
    lemma_line_ok_kv(k, " = \""@, v, "\""@);
}

proof fn lemma_device_lines_ok(d: PciDeviceView)
    requires
        device_persistable(d),
    ensures
        all_lines_ok(device_field_lines(d)),
{
    lemma_literal_lines_ok();
    lemma_device_values(d);
    lemma_quoted_ok("address"@, d.address);
    lemma_quoted_ok("vendor_id"@, "0x"@ + hex(d.vendor_id as nat, 4));
    lemma_quoted_ok("device_id"@, "0x"@ + hex(d.device_id as nat, 4));
    lemma_quoted_ok("vendor_name"@, d.vendor_name);
    lemma_quoted_ok("device_name"@, d.device_name);
    lemma_quoted_ok("class_code"@, "0x"@ + hex(d.class_code as nat, 6));
    let six = seq![
        quoted_line("address"@, d.address),
        quoted_line("vendor_id"@, "0x"@ + hex(d.vendor_id as nat, 4)),
        quoted_line("device_id"@, "0x"@ + hex(d.device_id as nat, 4)),
        quoted_line("vendor_name"@, escape_quotes(d.vendor_name)),
        quoted_line("device_name"@, escape_quotes(d.device_name)),
        quoted_line("class_code"@, "0x"@ + hex(d.class_code as nat, 6)),
    ];
    assert(all_lines_ok(six));
    let o1 = match d.driver {
        Some(v) => seq![quoted_line("driver"@, v)],
        None => Seq::<Seq<char>>::empty(),
    };
    let o2 = match d.iommu_group {
        Some(g) => seq!["iommu_group = "@ + dec(g as nat)],
        None => Seq::<Seq<char>>::empty(),
    };
    match d.driver {
        Some(v) => {
            lemma_quoted_ok("driver"@, v);
        },
        None => {},
    }
    assert(all_lines_ok(o1));
    match d.iommu_group {
        Some(g) => {
            let t = dec(g as nat);
            lemma_dec_parse(g as nat, 0xffff_ffff);
            let l = "iommu_group = "@ + t;
            assert forall|i: int| 0 <= i < l.len() implies l[i] != '\n' by {
                if i >= "iommu_group = "@.len() {
                    assert(l[i] == t[i - "iommu_group = "@.len()]);
                    assert(is_digit_char(t[i - "iommu_group = "@.len()]));
                }
            }
            assert(l.last() == t[t.len() - 1]);
            assert(is_digit_char(t[t.len() - 1]));
        },
        None => {},
    }
    assert(all_lines_ok(o2));
    lemma_all_ok_concat(six, o1);
    lemma_all_ok_concat(six + o1, o2);
    assert(device_field_lines(d) == six + o1 + o2);
}

} // verus!

verus! {

proof fn lemma_scan_pair(st: ScanState, q0: Seq<char>, q1: Seq<char>)
    ensures
        scan_from(st, seq![q0, q1]) == scan_line(scan_line(st, q0), q1),
{
    assert(seq![q0, q1] =~= seq![q0] + seq![q1]);
    lemma_scan_one(st, q0);
    lemma_scan_two(st, seq![q0], q1);
}

proof fn lemma_scan_four(st: ScanState, q0: Seq<char>, q1: Seq<char>, q2: Seq<char>, q3: Seq<char>)
    ensures
        scan_from(st, seq![q0, q1, q2, q3]) == scan_line(
            scan_line(scan_line(scan_line(st, q0), q1), q2),
            q3,
        ),
{
    let a2 = seq![q0, q1];
    let a3 = a2 + seq![q2];
    let a4 = a3 + seq![q3];
    assert(a4 =~= seq![q0, q1, q2, q3]);
    lemma_scan_pair(st, q0, q1);
    lemma_scan_two(st, a2, q2);
    lemma_scan_two(st, a3, q3);
}

proof fn lemma_rom_key()
    ensures
        good_key("gpu_rom"@),
        line_ok("gpu_rom"@),
        "gpu_rom"@ != "original_driver"@,
        "gpu_rom"@ != "display_manager"@,
{
    reveal_strlit("gpu_rom");
    reveal_strlit("original_driver");
    reveal_strlit("display_manager");
    assert("gpu_rom"@[0] != "original_driver"@[0]);
    assert("gpu_rom"@[0] != "display_manager"@[0]);
}

/// Writing a single GPU configuration as file text and reading the text back
/// gives the configuration again, except for what the file does not record
/// (subsystem IDs, the audio device's boot-VGA flag, the IOMMU group's device
/// list): provided the GPU address is not empty, no text field of a device
/// holds a double quote or a line break, the driver and display manager names
/// read back as themselves, and those names and the GPU ROM path (where set)
/// hold no line break and neither start nor end with a double quote.
pub proof fn lemma_config_round_trip(c: SingleGpuConfigView)
    requires
        config_persistable(c),
    ensures
        parse_config_spec(join_lines(config_lines(c))) == Some(persisted_config(c)),
{
    lemma_literal_lines_ok();
    lemma_literal_facts();
    lemma_keys();
    let e = Seq::<char>::empty();
    let c1 = "# Single GPU Passthrough Configuration"@;
    let c2 = "# Generated by vm-curator - do not edit manually"@;
    let h = seq![c1, c2, e, "[gpu]"@];
    let l2 = device_field_lines(c.gpu);
    let tf = if c.gpu.is_boot_vga {
        "true"@
    } else {
        "false"@
    };
    let l3 = seq!["is_boot_vga = "@ + tf];
    let l4 = match c.audio {
        Some(a) => seq![e, "[audio]"@] + device_field_lines(a),
        None => Seq::<Seq<char>>::empty(),
    };
    let od = quoted_line("original_driver"@, driver_module_name(c.original_driver));
    let dm = quoted_line("display_manager"@, dm_service_name(c.display_manager));
    let l5 = seq![e, "[settings]"@, od, dm];
    let l6 = rom_lines(c.gpu_rom);
    lemma_rom_key();
    assert(config_lines(c) == h + l2 + l3 + l4 + l5 + l6);
    // every line survives joining and splitting
    assert(all_lines_ok(h));
    lemma_device_lines_ok(c.gpu);
    reveal_strlit("true");
    reveal_strlit("false");
    lemma_line_ok_kv("is_boot_vga = "@, e, e, tf);
    assert("is_boot_vga = "@ + e + e + tf =~= "is_boot_vga = "@ + tf);
    assert(all_lines_ok(l3));
    match c.audio {
        Some(a) => {
            lemma_device_lines_ok(a);
            assert(all_lines_ok(seq![e, "[audio]"@]));
            lemma_all_ok_concat(seq![e, "[audio]"@], device_field_lines(a));
        },
        None => {},
    }
    assert(all_lines_ok(l4));
    lemma_quoted_ok("original_driver"@, driver_module_name(c.original_driver));
    lemma_quoted_ok("display_manager"@, dm_service_name(c.display_manager));
    assert(all_lines_ok(l5));
    match c.gpu_rom {
        Some(r) => {
            lemma_quoted_ok("gpu_rom"@, r);
        },
        None => {},
    }
    assert(all_lines_ok(l6));
    lemma_all_ok_concat(h, l2);
    lemma_all_ok_concat(h + l2, l3);
    lemma_all_ok_concat(h + l2 + l3, l4);
    lemma_all_ok_concat(h + l2 + l3 + l4, l5);
    lemma_all_ok_concat(h + l2 + l3 + l4 + l5, l6);
    let ls = config_lines(c);
    assert forall|i: int| 0 <= i < ls.len() implies !(#[trigger] ls[i]).contains('\n') && strip_cr(
        ls[i],
    ) == ls[i] by {
        assert(line_ok(ls[i]));
    }
    lemma_lines_join(ls);
    // reading the lines
    let st0 = scan_start();
    lemma_scan_append(st0, h, l2);
    lemma_scan_append(st0, h + l2, l3);
    lemma_scan_append(st0, h + l2 + l3, l4);
    lemma_scan_append(st0, h + l2 + l3 + l4, l5);
    lemma_scan_append(st0, h + l2 + l3 + l4 + l5, l6);
    lemma_scan_four(st0, c1, c2, e, "[gpu]"@);
    lemma_scan_skipped(st0, c1);
    lemma_scan_skipped(st0, c2);
    lemma_scan_skipped(st0, e);
    lemma_scan_section(st0, "gpu"@);
    let sa = ScanState { section: "gpu"@, ..st0 };
    assert(scan_from(st0, h) == sa);
    lemma_scan_device_lines(sa, c.gpu);
    let sb = gpu_read(sa, c.gpu);
    lemma_scan_one(sb, "is_boot_vga = "@ + tf);
    lemma_scan_plain_value(sb, "is_boot_vga"@, tf);
    let sc = ScanState { gpu_is_boot_vga: c.gpu.is_boot_vga, ..sb };
    assert(scan_from(sb, l3) == sc);
    let sd = match c.audio {
        Some(a) => audio_read(ScanState { section: "audio"@, ..sc }, a),
        None => sc,
    };
    match c.audio {
        Some(a) => {
            lemma_scan_append(sc, seq![e, "[audio]"@], device_field_lines(a));
            lemma_scan_pair(sc, e, "[audio]"@);
            lemma_scan_skipped(sc, e);
            lemma_scan_section(sc, "audio"@);
            lemma_scan_device_lines(ScanState { section: "audio"@, ..sc }, a);
        },
        None => {
            assert(scan_from(sc, l4) == sc);
        },
    }
    assert(scan_from(sc, l4) == sd);
    lemma_scan_four(sd, e, "[settings]"@, od, dm);
    lemma_scan_skipped(sd, e);
    lemma_scan_section(sd, "settings"@);
    let se = ScanState { section: "settings"@, ..sd };
    lemma_scan_quoted_name(se, "original_driver"@, driver_module_name(c.original_driver));
    let sf = ScanState { original_driver: driver_module_name(c.original_driver), ..se };
    lemma_scan_quoted_name(sf, "display_manager"@, dm_service_name(c.display_manager));
    let sg = ScanState { display_manager: dm_service_name(c.display_manager), ..sf };
    assert(scan_from(sd, l5) == sg);
    let sh = ScanState { gpu_rom: c.gpu_rom, ..sg };
    match c.gpu_rom {
        Some(r) => {
            lemma_scan_one(sg, quoted_line("gpu_rom"@, r));
            lemma_scan_quoted_name(sg, "gpu_rom"@, r);
        },
        None => {
            assert(scan_from(sg, l6) == sg);
        },
    }
    assert(scan_from(sg, l6) == sh);
    assert(scan_lines(lines(join_lines(ls))) == sh);
    assert(parse_config_spec(join_lines(ls)) == Some(persisted_config(c)));
}

} // verus!
