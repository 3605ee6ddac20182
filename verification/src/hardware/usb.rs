//! USB device model, version classification, passthrough candidates and udev
//! rules for handing devices to unprivileged QEMU processes.

use vstd::prelude::*;
use crate::text::{chars_of, hex, push_hex, range_eq, trim_range, trim_ws, views};

verus! {

/// USB version/speed classification.
#[derive(Debug, Clone, Copy, PartialEq, Eq, Structural)]
pub enum UsbVersion {
    /// USB 1.0/1.1 (Low/Full speed - 1.5/12 Mbps)
    Usb1,
    /// USB 2.0 (High speed - 480 Mbps)
    Usb2,
    /// USB 3.0+ (SuperSpeed - 5/10/20 Gbps)
    Usb3,
}

impl Default for UsbVersion {
    fn default() -> (r: Self)
        ensures
            r == UsbVersion::Usb2,
    {
        UsbVersion::Usb2
    }
}

/// Version for a sysfs `speed` value (Mbps), USB 2.0 when unknown.
pub open spec fn usb_version_of_speed(speed: Seq<char>) -> UsbVersion {
    let t = trim_ws(speed);
    if t == "1.5"@ || t == "12"@ {
        UsbVersion::Usb1
    } else if t == "480"@ {
        UsbVersion::Usb2
    } else if t == "5000"@ || t == "10000"@ || t == "20000"@ {
        UsbVersion::Usb3
    } else {
        UsbVersion::Usb2
    }
}

/// Version for a `bcdUSB` value (0x0300 and up is USB 3).
pub open spec fn usb_version_of_bcd(bcd: u16) -> UsbVersion {
    if bcd >= 0x0300 {
        UsbVersion::Usb3
    } else if bcd >= 0x0200 {
        UsbVersion::Usb2
    } else {
        UsbVersion::Usb1
    }
}

impl UsbVersion {
    /// Version from a sysfs speed attribute value (in Mbps).
    pub fn from_speed(speed: &str) -> (res: Self)
        ensures
            res == usb_version_of_speed(speed@),
    {
        let cs = chars_of(speed);
        let (a, b) = trim_range(&cs, 0, cs.len());
        proof {
            assert(cs@.subrange(0, cs@.len() as int) == cs@);
        }
        if range_eq(&cs, a, b, "1.5") || range_eq(&cs, a, b, "12") {
            UsbVersion::Usb1
        } else if range_eq(&cs, a, b, "480") {
            UsbVersion::Usb2
        } else if range_eq(&cs, a, b, "5000") || range_eq(&cs, a, b, "10000") || range_eq(
            &cs,
            a,
            b,
            "20000",
        ) {
            UsbVersion::Usb3
        } else {
            UsbVersion::Usb2
        }
    }

    /// Version from the bcdUSB descriptor field (e.g. 0x0300 for USB 3.0).
    pub fn from_bcd_usb(bcd: u16) -> (res: Self)
        ensures
            res == usb_version_of_bcd(bcd),
    {
        if bcd >= 0x0300 {
            UsbVersion::Usb3
        } else if bcd >= 0x0200 {
            UsbVersion::Usb2
        } else {
            UsbVersion::Usb1
        }
    }

    /// Whether this is USB 3.0 or higher.
    pub fn is_usb3(&self) -> (res: bool)
        ensures
            res == (*self == UsbVersion::Usb3),
    {
        match self {
            UsbVersion::Usb3 => true,
            _ => false,
        }
    }
}

/// Negotiated link speed of a USB device, as libusb reports it.
#[derive(Debug, Clone, Copy, PartialEq, Eq, Structural)]
pub enum LinkSpeed {
    Low,
    Full,
    High,
    Super,
    SuperPlus,
    Unknown,
}

/// `bcdUSB` assembled from a descriptor's version triple.
pub open spec fn bcd_of(major: u8, minor: u8, sub_minor: u8) -> int {
    major * 256 + (minor % 16) * 16 + sub_minor % 16
}

/// Version of a device from its link speed, falling back to the descriptor's
/// USB version (major, minor, sub-minor) when the speed is unknown.
pub fn usb_version_from_device(speed: LinkSpeed, major: u8, minor: u8, sub_minor: u8) -> (res:
    UsbVersion)
    ensures
        res == (match speed {
            LinkSpeed::Low | LinkSpeed::Full => UsbVersion::Usb1,
            LinkSpeed::High => UsbVersion::Usb2,
            LinkSpeed::Super | LinkSpeed::SuperPlus => UsbVersion::Usb3,
            LinkSpeed::Unknown => usb_version_of_bcd(bcd_of(major, minor, sub_minor) as u16),
        }),
{
    match speed {
        LinkSpeed::Low | LinkSpeed::Full => UsbVersion::Usb1,
        LinkSpeed::High => UsbVersion::Usb2,
        LinkSpeed::Super | LinkSpeed::SuperPlus => UsbVersion::Usb3,
        LinkSpeed::Unknown => {
            let bcd: u16 = ((major as u16) << 8) | (((minor & 0x0f) as u16) << 4) | (sub_minor
                & 0x0f) as u16;
            assert(bcd == bcd_of(major, minor, sub_minor)) by (bit_vector)
                requires
                    bcd == ((major as u16) << 8) | (((minor & 0x0f) as u16) << 4) | (sub_minor
                        & 0x0f) as u16,
            ;
            UsbVersion::from_bcd_usb(bcd)
        },
    }
}

/// A USB device.
#[derive(Debug)]
pub struct UsbDevice {
    pub vendor_id: u16,
    pub product_id: u16,
    pub vendor_name: String,
    pub product_name: String,
    /// Bus number
    pub bus_num: u8,
    /// Device number on the bus
    pub dev_num: u8,
    pub device_class: u8,
    /// USB version/speed classification
    pub usb_version: UsbVersion,
}

impl Clone for UsbDevice {
    fn clone(&self) -> (res: Self)
        ensures
            res == *self,
    {
        UsbDevice {
            vendor_id: self.vendor_id,
            product_id: self.product_id,
            vendor_name: self.vendor_name.clone(),
            product_name: self.product_name.clone(),
            bus_num: self.bus_num,
            dev_num: self.dev_num,
            device_class: self.device_class,
            usb_version: self.usb_version,
        }
    }
}

/// Name of a device as `UsbDevice::display_name` gives it.
pub open spec fn usb_display_name(d: UsbDevice) -> Seq<char> {
    if d.product_name@.len() > 0 {
        if d.vendor_name@.len() > 0 {
            d.vendor_name@ + " "@ + d.product_name@
        } else {
            d.product_name@
        }
    } else {
        "USB Device "@ + hex(d.vendor_id as nat, 4) + ":"@ + hex(d.product_id as nat, 4)
    }
}

/// Arguments of `UsbDevice::to_qemu_args`: a usb-host device matched by IDs.
pub open spec fn usb_qemu_args(d: UsbDevice) -> Seq<Seq<char>> {
    seq![
        "-device"@,
        "usb-host,vendorid=0x"@ + hex(d.vendor_id as nat, 4) + ",productid=0x"@ + hex(
            d.product_id as nat,
            4,
        ),
    ]
}

impl UsbDevice {
    /// Whether this is a hub (class 0x09).
    pub fn is_hub(&self) -> (res: bool)
        ensures
            res == (self.device_class == 0x09),
    {
        self.device_class == 0x09
    }

    /// Display string: "vendor product", the product alone, or the IDs.
    pub fn display_name(&self) -> (res: String)
        ensures
            res@ == usb_display_name(*self),
    {
        if self.product_name.as_str().unicode_len() > 0 {
            if self.vendor_name.as_str().unicode_len() > 0 {
                let mut s = self.vendor_name.clone();
                s.append(" ");
                s.append(self.product_name.as_str());
                s
            } else {
                self.product_name.clone()
            }
        } else {
            let mut s = String::from_str("USB Device ");
            push_hex(&mut s, self.vendor_id as u64, 4);
            s.append(":");
            push_hex(&mut s, self.product_id as u64, 4);
            s
        }
    }

    /// QEMU arguments passing this device through by vendor and product ID.
    pub fn to_qemu_args(&self) -> (res: Vec<String>)
        ensures
            views(res@) == usb_qemu_args(*self),
    {
        let mut args: Vec<String> = Vec::new();
        args.push(String::from_str("-device"));
        let mut s = String::from_str("usb-host,vendorid=0x");
        push_hex(&mut s, self.vendor_id as u64, 4);
        s.append(",productid=0x");
        push_hex(&mut s, self.product_id as u64, 4);
        args.push(s);
        proof {
            assert(views(args@) =~= usb_qemu_args(*self));
        }
        args
    }
}

/// Devices offered for passthrough: neither the Linux virtual root hubs
/// (vendor 0x1d6b) nor hubs, in their original order.
pub open spec fn usb_candidates(ds: Seq<UsbDevice>) -> Seq<UsbDevice>
    decreases ds.len(),
{
    if ds.len() == 0 {
        seq![]
    } else {
        let rest = usb_candidates(ds.drop_last());
        let d = ds.last();
        if d.vendor_id != 0x1d6b && d.device_class != 0x09 {
            rest.push(d)
        } else {
            rest
        }
    }
}

/// Keeps the devices that can be passed through (drops root hubs and hubs).
pub fn select_usb_devices(devices: Vec<UsbDevice>) -> (res: Vec<UsbDevice>)
    ensures
        res@ == usb_candidates(devices@),
{
    let mut out: Vec<UsbDevice> = Vec::new();
    let mut i: usize = 0;
    while i < devices.len()
        invariant
            i <= devices.len(),
            out@ == usb_candidates(devices@.take(i as int)),
        decreases devices.len() - i,
    {
        proof {
            assert(devices@.take(i + 1).drop_last() == devices@.take(i as int));
            assert(devices@.take(i + 1).last() == devices@[i as int]);
        }
        let d = &devices[i];
        if d.vendor_id != 0x1d6b && !d.is_hub() {
            out.push(d.clone());
        }
        i += 1;
    }
    proof {
        assert(devices@.take(devices.len() as int) == devices@);
    }
    out
}

/// Result of udev rule installation.
#[derive(Debug)]
pub enum UdevInstallResult {
    Success,
    NeedsReboot,
    PermissionDenied,
    Error(String),
}

/// Header of the generated udev rules file.
pub open spec fn udev_header() -> Seq<char> {
    "# USB Passthrough rules for QEMU (managed by vm-curator)\n"@
        + "# These rules allow non-root users to access USB devices for VM passthrough\n\n"@
}

/// Rule block granting access to all devices of one vendor.
pub open spec fn udev_vendor_block(d: UsbDevice) -> Seq<char> {
    "# "@ + (if d.vendor_name@.len() == 0 {
        "Vendor "@ + hex(d.vendor_id as nat, 4)
    } else {
        d.vendor_name@
    }) + " devices\n"@ + "SUBSYSTEM==\"usb\", ATTR{idVendor}==\""@ + hex(d.vendor_id as nat, 4)
        + "\", MODE=\"0666\"\n\n"@
}

/// Some device of `ds` has vendor `v`.
pub open spec fn has_vendor(ds: Seq<UsbDevice>, v: u16) -> bool {
    exists|j: int| 0 <= j < ds.len() && (#[trigger] ds[j]).vendor_id == v
}

/// One block per vendor, at the first device of that vendor.
pub open spec fn udev_blocks(ds: Seq<UsbDevice>) -> Seq<char>
    decreases ds.len(),
{
    if ds.len() == 0 {
        seq![]
    } else {
        udev_blocks(ds.drop_last()) + (if has_vendor(ds.drop_last(), ds.last().vendor_id) {
            seq![]
        } else {
            udev_vendor_block(ds.last())
        })
    }
}

fn seen_contains(seen: &Vec<u16>, v: u16) -> (res: bool)
    ensures
        res == seen@.contains(v),
{
    let mut i: usize = 0;
    while i < seen.len()
        invariant
            i <= seen.len(),
            forall|j: int| 0 <= j < i ==> seen@[j] != v,
        decreases seen.len() - i,
    {
        if seen[i] == v {
            return true;
        }
        i += 1;
    }
    false
}

/// udev rules granting unprivileged access to the devices' vendors.
pub fn generate_udev_rules(devices: &[UsbDevice]) -> (res: String)
    ensures
        res@ == udev_header() + udev_blocks(devices@),
{
    let mut rules = String::from_str("# USB Passthrough rules for QEMU (managed by vm-curator)\n");
    rules.append("# These rules allow non-root users to access USB devices for VM passthrough\n\n");
    let mut seen: Vec<u16> = Vec::new();
    let mut i: usize = 0;
    while i < devices.len()
        invariant
            i <= devices@.len(),
            rules@ == udev_header() + udev_blocks(devices@.take(i as int)),
            forall|v: u16| seen@.contains(v) <==> has_vendor(devices@.take(i as int), v),
        decreases devices@.len() - i,
    {
        let d = &devices[i];
        let ghost pre = devices@.take(i as int);
        let ghost now = devices@.take(i + 1);
        proof {
            assert(now.drop_last() == pre);
            assert(now.last() == devices@[i as int]);
        }
        let ghost before = rules@;
        let ghost old_seen = seen@;
        if !seen_contains(&seen, d.vendor_id) {
            seen.push(d.vendor_id);
            rules.append("# ");
            if d.vendor_name.as_str().unicode_len() == 0 {
                rules.append("Vendor ");
                push_hex(&mut rules, d.vendor_id as u64, 4);
            } else {
                rules.append(d.vendor_name.as_str());
            }
            rules.append(" devices\n");
            rules.append("SUBSYSTEM==\"usb\", ATTR{idVendor}==\"");
            push_hex(&mut rules, d.vendor_id as u64, 4);
            rules.append("\", MODE=\"0666\"\n\n");
            proof {
                assert(rules@ =~= before + udev_vendor_block(*d));
            }
        } else {
            proof {
                assert(rules@ =~= before + Seq::<char>::empty());
            }
        }
        proof {
            assert(seen@ == old_seen || seen@ == old_seen.push(d.vendor_id));
            assert(seen@.contains(d.vendor_id)) by {
                if seen@ == old_seen.push(d.vendor_id) {
                    assert(seen@[seen@.len() - 1] == d.vendor_id);
                }
            }
            assert forall|v: u16| seen@.contains(v) <==> has_vendor(now, v) by {
                if v != d.vendor_id && seen@ == old_seen.push(d.vendor_id) {
                    if seen@.contains(v) {
                        let k = choose|k: int| 0 <= k < seen@.len() && seen@[k] == v;
                        assert(old_seen[k] == v);
                    }
                    if old_seen.contains(v) {
                        let k = choose|k: int| 0 <= k < old_seen.len() && old_seen[k] == v;
                        assert(seen@[k] == v);
                    }
                }
                if has_vendor(pre, v) {
                    let j = choose|j: int| 0 <= j < pre.len() && (#[trigger] pre[j]).vendor_id == v;
                    assert(now[j] == pre[j]);
                }
                if has_vendor(now, v) {
                    let j = choose|j: int| 0 <= j < now.len() && (#[trigger] now[j]).vendor_id == v;
                    if j < pre.len() {
                        assert(pre[j] == now[j]);
                    }
                }
                if seen@.contains(v) && v == d.vendor_id {
                    assert(now[i as int] == *d);
                }
            }
            assert(rules@ =~= udev_header() + udev_blocks(now));
        }
        i += 1;
    }
    proof {
        assert(devices@.take(devices@.len() as int) == devices@);
    }
    rules
}

/// Outcome of an installation attempt: `installed` is the copy's result
/// (`None` when no privilege escalation tool was found), `reloaded` whether
/// udev reloaded its rules afterwards.
pub fn udev_install_outcome(installed: Option<bool>, reloaded: bool) -> (res: UdevInstallResult)
    ensures
        match installed {
            Some(true) => if reloaded {
                res is Success
            } else {
                res is NeedsReboot
            },
            Some(false) => res is PermissionDenied,
            None => res matches UdevInstallResult::Error(m) && m@
                == "No suitable privilege escalation method found"@,
        },
{
    match installed {
        Some(true) => {
            if reloaded {
                UdevInstallResult::Success
            } else {
                UdevInstallResult::NeedsReboot
            }
        },
        Some(false) => UdevInstallResult::PermissionDenied,
        None => UdevInstallResult::Error(
            String::from_str("No suitable privilege escalation method found"),
        ),
    }
}

/// The blocks of `bs`, one after another.
pub open spec fn blocks_text(bs: Seq<UsbDevice>) -> Seq<char>
    decreases bs.len(),
{
    if bs.len() == 0 {
        seq![]
    } else {
        blocks_text(bs.drop_last()) + udev_vendor_block(bs.last())
    }
}

/// `d` is the first device of its vendor in `ds`.
pub open spec fn first_of_vendor(ds: Seq<UsbDevice>, d: UsbDevice) -> bool {
    exists|i: int|
        0 <= i < ds.len() && ds[i] == d && forall|m: int| 0 <= m < i ==> (#[trigger] ds[m]).vendor_id != d.vendor_id
}

/// No two devices of `bs` share a vendor.
#[verifier::opaque]
pub open spec fn distinct_vendors(bs: Seq<UsbDevice>) -> bool {
    forall|a: int, b: int| 0 <= a < b < bs.len() ==> (#[trigger] bs[a]).vendor_id != (#[trigger] bs[b]).vendor_id
}

/// The vendor of every device of `ds` is the vendor of some device of `bs`.
#[verifier::opaque]
pub open spec fn covers_vendors(ds: Seq<UsbDevice>, bs: Seq<UsbDevice>) -> bool {
    forall|j: int| 0 <= j < ds.len() ==> has_vendor(bs, (#[trigger] ds[j]).vendor_id)
}

/// Every device of `bs` is the first device of its vendor in `ds`.
#[verifier::opaque]
pub open spec fn all_first_of_vendor(ds: Seq<UsbDevice>, bs: Seq<UsbDevice>) -> bool {
    forall|k: int| 0 <= k < bs.len() ==> first_of_vendor(ds, #[trigger] bs[k])
}

/// What the rule blocks are made of: one block per vendor present, for the
/// vendor's first device.
pub open spec fn one_block_per_vendor(ds: Seq<UsbDevice>, bs: Seq<UsbDevice>) -> bool {
    &&& udev_blocks(ds) == blocks_text(bs)
    &&& distinct_vendors(bs)
    &&& covers_vendors(ds, bs)
    &&& all_first_of_vendor(ds, bs)
}

proof fn lemma_first_of_vendor_prefix(ds: Seq<UsbDevice>, b: UsbDevice)
    requires
        ds.len() > 0,
        first_of_vendor(ds.drop_last(), b),
    ensures
        first_of_vendor(ds, b),
{
    let init = ds.drop_last();
    let i = choose|i: int|
        0 <= i < init.len() && init[i] == b && forall|m: int| 0 <= m < i ==> (#[trigger] init[m]).vendor_id != b.vendor_id;
    assert(ds[i] == init[i]);
    assert forall|m: int| 0 <= m < i implies (#[trigger] ds[m]).vendor_id != b.vendor_id by {
        assert(ds[m] == init[m]);
    }
}

proof fn lemma_all_first_prefix(ds: Seq<UsbDevice>, b0: Seq<UsbDevice>)
    requires
        ds.len() > 0,
        all_first_of_vendor(ds.drop_last(), b0),
    ensures
        all_first_of_vendor(ds, b0),
{
    reveal(all_first_of_vendor);
    assert forall|k: int| 0 <= k < b0.len() implies first_of_vendor(ds, #[trigger] b0[k]) by {
        lemma_first_of_vendor_prefix(ds, b0[k]);
    }
}

proof fn lemma_covers_seen(ds: Seq<UsbDevice>, b0: Seq<UsbDevice>)
    requires
        ds.len() > 0,
        covers_vendors(ds.drop_last(), b0),
        has_vendor(ds.drop_last(), ds.last().vendor_id),
    ensures
        covers_vendors(ds, b0),
{
    reveal(covers_vendors);
    let init = ds.drop_last();
    let j0 = choose|j: int| 0 <= j < init.len() && (#[trigger] init[j]).vendor_id == ds.last().vendor_id;
    assert(has_vendor(b0, init[j0].vendor_id));
    assert forall|j: int| 0 <= j < ds.len() implies has_vendor(b0, (#[trigger] ds[j]).vendor_id) by {
        if j < init.len() {
            assert(ds[j] == init[j]);
            assert(has_vendor(b0, init[j].vendor_id));
        }
    }
}

proof fn lemma_covers_new(ds: Seq<UsbDevice>, b0: Seq<UsbDevice>)
    requires
        ds.len() > 0,
        covers_vendors(ds.drop_last(), b0),
    ensures
        covers_vendors(ds, b0.push(ds.last())),
{
    reveal(covers_vendors);
    let init = ds.drop_last();
    let bs = b0.push(ds.last());
    assert forall|j: int| 0 <= j < ds.len() implies has_vendor(bs, (#[trigger] ds[j]).vendor_id) by {
        if j < init.len() {
            assert(ds[j] == init[j]);
            assert(has_vendor(b0, init[j].vendor_id));
            let k = choose|k: int| 0 <= k < b0.len() && (#[trigger] b0[k]).vendor_id == init[j].vendor_id;
            assert(bs[k] == b0[k]);
        } else {
            assert(bs[bs.len() - 1] == ds.last());
        }
    }
}

proof fn lemma_distinct_new(ds: Seq<UsbDevice>, b0: Seq<UsbDevice>)
    requires
        ds.len() > 0,
        distinct_vendors(b0),
        all_first_of_vendor(ds.drop_last(), b0),
        !has_vendor(ds.drop_last(), ds.last().vendor_id),
    ensures
        distinct_vendors(b0.push(ds.last())),
{
    reveal(distinct_vendors);
    reveal(all_first_of_vendor);
    let init = ds.drop_last();
    let bs = b0.push(ds.last());
    assert forall|a: int, b: int| 0 <= a < b < bs.len() implies (#[trigger] bs[a]).vendor_id != (#[trigger] bs[b]).vendor_id by {
        assert(bs[a] == b0[a]);
        if b == bs.len() - 1 {
            assert(first_of_vendor(init, b0[a]));
            let i = choose|i: int|
                0 <= i < init.len() && init[i] == b0[a] && forall|m: int| 0 <= m < i ==> (#[trigger] init[m]).vendor_id != b0[a].vendor_id;
            assert(init[i].vendor_id == b0[a].vendor_id);
        } else {
            assert(bs[b] == b0[b]);
        }
    }
}

proof fn lemma_all_first_new(ds: Seq<UsbDevice>, b0: Seq<UsbDevice>)
    requires
        ds.len() > 0,
        all_first_of_vendor(ds.drop_last(), b0),
        !has_vendor(ds.drop_last(), ds.last().vendor_id),
    ensures
        all_first_of_vendor(ds, b0.push(ds.last())),
{
    lemma_all_first_prefix(ds, b0);
    reveal(all_first_of_vendor);
    let init = ds.drop_last();
    let d = ds.last();
    let bs = b0.push(d);
    assert forall|k: int| 0 <= k < bs.len() implies first_of_vendor(ds, #[trigger] bs[k]) by {
        if k < b0.len() {
            assert(bs[k] == b0[k]);
        } else {
            assert(bs[k] == d);
            let i = ds.len() - 1;
            assert(ds[i] == d);
            assert forall|m: int| 0 <= m < i implies (#[trigger] ds[m]).vendor_id != d.vendor_id by {
                assert(ds[m] == init[m]);
            }
        }
    }
}

proof fn vendor_representatives(ds: Seq<UsbDevice>) -> (bs: Seq<UsbDevice>)
    ensures
        one_block_per_vendor(ds, bs),
    decreases ds.len(),
{
    if ds.len() == 0 {
        reveal(distinct_vendors);
        reveal(covers_vendors);
        reveal(all_first_of_vendor);
        Seq::<UsbDevice>::empty()
    } else {
        let init = ds.drop_last();
        let b0 = vendor_representatives(init);
        if has_vendor(init, ds.last().vendor_id) {
            lemma_covers_seen(ds, b0);
            lemma_all_first_prefix(ds, b0);
            assert(udev_blocks(init) + Seq::<char>::empty() =~= udev_blocks(init));
            b0
        } else {
            let bs = b0.push(ds.last());
            lemma_covers_new(ds, b0);
            lemma_distinct_new(ds, b0);
            lemma_all_first_new(ds, b0);
            assert(bs.drop_last() =~= b0);
            assert(blocks_text(bs) == blocks_text(b0) + udev_vendor_block(ds.last()));
            bs
        }
    }
}

/// The udev rules hold one block per vendor among the devices, and only
/// those: after the header, the blocks of a list of devices `bs` whose
/// vendors are pairwise distinct, which holds a device of the vendor of every
/// device, each being the first device of its vendor.
pub proof fn lemma_udev_rules_one_block_per_vendor(ds: Seq<UsbDevice>)
    ensures
        exists|bs: Seq<UsbDevice>|
            {
                &&& udev_blocks(ds) == blocks_text(bs)
                &&& forall|a: int, b: int|
                    0 <= a < b < bs.len() ==> (#[trigger] bs[a]).vendor_id != (#[trigger] bs[b]).vendor_id
                &&& forall|j: int| 0 <= j < ds.len() ==> has_vendor(bs, (#[trigger] ds[j]).vendor_id)
                &&& forall|k: int| 0 <= k < bs.len() ==> first_of_vendor(ds, #[trigger] bs[k])
            },
{
    reveal(distinct_vendors);
    reveal(covers_vendors);
    reveal(all_first_of_vendor);
    let bs = vendor_representatives(ds);
}

} // verus!
