//! QEMU arguments for USB and PCI passthrough.

use vstd::prelude::*;
use super::usb::{usb_qemu_args, UsbDevice};
use crate::text::{dec, push_dec, views};

verus! {

/// Arguments of every device, in order.
pub open spec fn usb_devices_args(ds: Seq<UsbDevice>) -> Seq<Seq<char>>
    decreases ds.len(),
{
    if ds.len() == 0 {
        seq![]
    } else {
        usb_devices_args(ds.drop_last()) + usb_qemu_args(ds.last())
    }
}

/// `-usb` followed by the devices' arguments; nothing for no devices.
pub open spec fn usb_passthrough_args(ds: Seq<UsbDevice>) -> Seq<Seq<char>> {
    if ds.len() == 0 {
        seq![]
    } else {
        seq!["-usb"@] + usb_devices_args(ds)
    }
}

/// Arguments addressing every device by bus and device number.
pub open spec fn usb_bus_args(ds: Seq<UsbDevice>) -> Seq<Seq<char>>
    decreases ds.len(),
{
    if ds.len() == 0 {
        seq![]
    } else {
        usb_bus_args(ds.drop_last()) + seq![
            "-device"@,
            "usb-host,hostbus="@ + dec(ds.last().bus_num as nat) + ",hostaddr="@ + dec(
                ds.last().dev_num as nat,
            ),
        ]
    }
}

/// Appends all of `extra` to `args`.
pub fn extend_strings(args: &mut Vec<String>, extra: &Vec<String>)
    ensures
        views(final(args)@) == views(old(args)@) + views(extra@),
{
    let ghost start = views(args@);
    let mut k: usize = 0;
    while k < extra.len()
        invariant
            k <= extra.len(),
            views(args@) == start + views(extra@).take(k as int),
        decreases extra.len() - k,
    {
        let ghost prev = views(args@);
        args.push(extra[k].clone());
        proof {
            assert(views(args@) =~= prev.push(extra@[k as int]@));
            assert(views(extra@).take(k + 1) == views(extra@).take(k as int).push(extra@[k as int]@));
        }
        k += 1;
    }
    proof {
        assert(views(extra@).take(extra.len() as int) == views(extra@));
    }
}

/// QEMU arguments for USB passthrough by vendor/product ID.
pub fn generate_usb_passthrough_args(devices: &[UsbDevice]) -> (res: Vec<String>)
    ensures
        views(res@) == usb_passthrough_args(devices@),
{
    let mut args: Vec<String> = Vec::new();
    if devices.len() == 0 {
        proof {
            assert(views(args@) =~= Seq::<Seq<char>>::empty());
        }
        return args;
    }
    args.push(String::from_str("-usb"));
    let mut i: usize = 0;
    while i < devices.len()
        invariant
            i <= devices@.len(),
            views(args@) == seq!["-usb"@] + usb_devices_args(devices@.take(i as int)),
        decreases devices@.len() - i,
    {
        proof {
            assert(devices@.take(i + 1).drop_last() == devices@.take(i as int));
            assert(devices@.take(i + 1).last() == devices@[i as int]);
        }
        let a = devices[i].to_qemu_args();
        extend_strings(&mut args, &a);
        proof {
            assert(views(args@) =~= seq!["-usb"@] + usb_devices_args(devices@.take(i + 1)));
        }
        i += 1;
    }
    proof {
        assert(devices@.take(devices@.len() as int) == devices@);
    }
    args
}

/// QEMU arguments for USB passthrough by bus and device number.
pub fn generate_usb_passthrough_by_bus(devices: &[UsbDevice]) -> (res: Vec<String>)
    ensures
        views(res@) == (if devices@.len() == 0 {
            seq![]
        } else {
            seq!["-usb"@] + usb_bus_args(devices@)
        }),
{
    let mut args: Vec<String> = Vec::new();
    if devices.len() == 0 {
        proof {
            assert(views(args@) =~= Seq::<Seq<char>>::empty());
        }
        return args;
    }
    args.push(String::from_str("-usb"));
    let mut i: usize = 0;
    while i < devices.len()
        invariant
            i <= devices@.len(),
            views(args@) == seq!["-usb"@] + usb_bus_args(devices@.take(i as int)),
        decreases devices@.len() - i,
    {
        proof {
            assert(devices@.take(i + 1).drop_last() == devices@.take(i as int));
            assert(devices@.take(i + 1).last() == devices@[i as int]);
        }
        let ghost prev = views(args@);
        let mut s = String::from_str("usb-host,hostbus=");
        push_dec(&mut s, devices[i].bus_num as u64);
        s.append(",hostaddr=");
        push_dec(&mut s, devices[i].dev_num as u64);
        let ghost sv = s@;
        args.push(String::from_str("-device"));
        args.push(s);
        proof {
            assert(views(args@) =~= prev.push("-device"@).push(sv));
            assert(views(args@) =~= seq!["-usb"@] + usb_bus_args(devices@.take(i + 1)));
        }
        i += 1;
    }
    proof {
        assert(devices@.take(devices@.len() as int) == devices@);
    }
    args
}

/// Passthrough configuration for a VM.
#[derive(Debug)]
pub struct PassthroughConfig {
    pub usb_devices: Vec<UsbDevice>,
    /// PCI addresses to pass through with vfio-pci
    pub pci_devices: Vec<String>,
}

impl Default for PassthroughConfig {
    fn default() -> (r: Self)
        ensures
            r.usb_devices@.len() == 0,
            r.pci_devices@.len() == 0,
    {
        PassthroughConfig { usb_devices: Vec::new(), pci_devices: Vec::new() }
    }
}

/// `-device vfio-pci,host=<addr>` for every address.
pub open spec fn pci_address_args(addrs: Seq<Seq<char>>) -> Seq<Seq<char>>
    decreases addrs.len(),
{
    if addrs.len() == 0 {
        seq![]
    } else {
        pci_address_args(addrs.drop_last()) + seq!["-device"@, "vfio-pci,host="@ + addrs.last()]
    }
}

impl PassthroughConfig {
    /// USB passthrough arguments followed by vfio-pci devices.
    pub fn to_qemu_args(&self) -> (res: Vec<String>)
        ensures
            views(res@) == usb_passthrough_args(self.usb_devices@) + pci_address_args(
                views(self.pci_devices@),
            ),
    {
        let mut args = generate_usb_passthrough_args(self.usb_devices.as_slice());
        let ghost base = views(args@);
        let mut i: usize = 0;
        while i < self.pci_devices.len()
            invariant
                i <= self.pci_devices@.len(),
                base == usb_passthrough_args(self.usb_devices@),
                views(args@) == base + pci_address_args(views(self.pci_devices@).take(i as int)),
            decreases self.pci_devices@.len() - i,
        {
            proof {
                let vs = views(self.pci_devices@);
                assert(vs.take(i + 1).drop_last() == vs.take(i as int));
                assert(vs.take(i + 1).last() == self.pci_devices@[i as int]@);
            }
            let ghost prev = views(args@);
            let mut s = String::from_str("vfio-pci,host=");
            s.append(self.pci_devices[i].as_str());
            let ghost sv = s@;
            args.push(String::from_str("-device"));
            args.push(s);
            proof {
                assert(views(args@) =~= prev.push("-device"@).push(sv));
                assert(views(args@) =~= base + pci_address_args(
                    views(self.pci_devices@).take(i + 1),
                ));
            }
            i += 1;
        }
        proof {
            assert(views(self.pci_devices@).take(self.pci_devices@.len() as int) == views(
                self.pci_devices@,
            ));
        }
        args
    }
}

} // verus!
