//! The choices a user makes in the device and option lists: which devices
//! are selected for passthrough, and which display and network backends are
//! offered.

use vstd::prelude::*;
use crate::hardware::pci::{
    class_base, find_gpu_audio_pair, gpu_audio_pair, in_gpu_group, is_device_in_gpu_group,
    is_gpu_class, passthrough_candidate, PciDevice,
};
use crate::hardware::pci::class_codes::AUDIO_DEVICE;
use crate::text::{chars_of, is_whitespace, is_ws, str_eq, string_of, slice_range, views};

verus! {

/// Position of the first `x` in `s`, or -1.
pub open spec fn first_index(s: Seq<usize>, x: usize) -> int
    decreases s.len(),
{
    if s.len() == 0 {
        -1
    } else if s[0] == x {
        0
    } else if first_index(s.drop_first(), x) < 0 {
        -1
    } else {
        1 + first_index(s.drop_first(), x)
    }
}

proof fn lemma_first_index(s: Seq<usize>, x: usize)
    ensures
        -1 <= first_index(s, x) < s.len(),
        first_index(s, x) >= 0 ==> s[first_index(s, x)] == x,
        first_index(s, x) < 0 <==> !s.contains(x),
        forall|j: int| 0 <= j < first_index(s, x) ==> s[j] != x,
    decreases s.len(),
{
    if s.len() > 0 {
        lemma_first_index(s.drop_first(), x);
        if s[0] != x {
            if s.drop_first().contains(x) {
                let j = choose|j: int| 0 <= j < s.drop_first().len() && s.drop_first()[j] == x;
                assert(s[j + 1] == x);
            }
            if s.contains(x) {
                let j = choose|j: int| 0 <= j < s.len() && s[j] == x;
                assert(s.drop_first()[j - 1] == x);
            }
            assert forall|j: int| 0 <= j < first_index(s, x) implies s[j] != x by {
                if j > 0 {
                    assert(s[j] == s.drop_first()[j - 1]);
                }
            }
        }
    }
}

/// A selection with `index` toggled: removed (its first occurrence) where
/// present, appended otherwise.
pub open spec fn toggled(s: Seq<usize>, index: usize) -> Seq<usize> {
    if s.contains(index) {
        s.remove(first_index(s, index))
    } else {
        s.push(index)
    }
}

/// Toggles `index` in a selection of list positions.
pub fn toggle_selection(selected: &mut Vec<usize>, index: usize)
    ensures
        final(selected)@ == toggled(old(selected)@, index),
{
    proof {
        lemma_first_index(selected@, index);
    }
    let mut i: usize = 0;
    while i < selected.len()
        invariant
            i <= selected.len(),
            selected@ == old(selected)@,
            forall|j: int| 0 <= j < i ==> selected@[j] != index,
        decreases selected.len() - i,
    {
        if selected[i] == index {
            proof {
                lemma_first_index(selected@, index);
                assert(first_index(selected@, index) == i) by {
                    if first_index(selected@, index) < i {
                        assert(selected@[first_index(selected@, index)] == index);
                    }
                    if first_index(selected@, index) > i {
                        assert(selected@[i as int] == index);
                    }
                    assert(selected@.contains(index));
                }
            }
            selected.remove(i);
            return;
        }
        i += 1;
    }
    proof {
        assert(!selected@.contains(index));
        lemma_first_index(selected@, index);
    }
    selected.push(index);
}

/// Toggling an absent position twice gives the selection back.
pub proof fn lemma_toggle_twice_restores(s: Seq<usize>, index: usize)
    requires
        !s.contains(index),
    ensures
        toggled(toggled(s, index), index) == s,
{
    let t = s.push(index);
    assert(t.contains(index)) by {
        assert(t[s.len() as int] == index);
    }
    lemma_first_index(t, index);
    assert(first_index(t, index) == s.len()) by {
        if first_index(t, index) < s.len() {
            assert(s[first_index(t, index)] == index);
        }
    }
    assert(t.remove(s.len() as int) =~= s);
}

/// Toggles the PCI device at `index` in the selection; the boot VGA device
/// (the one driving the host display) cannot be selected.
pub fn toggle_pci_device(devices: &[PciDevice], selected: &mut Vec<usize>, index: usize)
    ensures
        final(selected)@ == if index < devices@.len() && devices@[index as int].is_boot_vga {
            old(selected)@
        } else {
            toggled(old(selected)@, index)
        },
{
    if index < devices.len() && devices[index].is_boot_vga {
        return;
    }
    toggle_selection(selected, index);
}

/// Position of the first device at `address`, if any.
pub open spec fn position_of_address(ds: Seq<PciDevice>, address: Seq<char>) -> Option<int>
    decreases ds.len(),
{
    if ds.len() == 0 {
        None
    } else if ds[0].address@ == address {
        Some(0)
    } else {
        match position_of_address(ds.drop_first(), address) {
            Some(i) => Some(i + 1),
            None => None,
        }
    }
}

fn find_address(devices: &[PciDevice], address: &str) -> (res: Option<usize>)
    ensures
        match res {
            Some(i) => position_of_address(devices@, address@) == Some(i as int),
            None => position_of_address(devices@, address@) is None,
        },
{
    let mut i: usize = 0;
    proof {
        assert(devices@.skip(0) =~= devices@);
    }
    while i < devices.len()
        invariant
            i <= devices.len(),
            position_of_address(devices@, address@) == match position_of_address(
                devices@.skip(i as int),
                address@,
            ) {
                Some(k) => Some(k + i),
                None => None,
            },
        decreases devices.len() - i,
    {
        proof {
            assert(devices@.skip(i as int)[0] == devices@[i as int]);
            assert(devices@.skip(i as int).drop_first() =~= devices@.skip(i + 1));
        }
        if str_eq(devices[i].address.as_str(), address) {
            return Some(i);
        }
        i += 1;
    }
    None
}

/// The selection that picking the GPU at `gpu_index` makes: nothing for a
/// missing or boot VGA device; else the GPU, followed by the position of its
/// paired audio device where there is one.
pub open spec fn gpu_selection(
    ds: Seq<PciDevice>,
    gpu_index: usize,
    group: Seq<PciDevice>,
) -> Seq<usize> {
    if gpu_index >= ds.len() || ds[gpu_index as int].is_boot_vga {
        seq![]
    } else {
        match gpu_audio_pair(ds[gpu_index as int], ds, group) {
            Some(a) => match position_of_address(ds, a.address@) {
                Some(i) => seq![gpu_index, i as usize],
                None => seq![gpu_index],
            },
            None => seq![gpu_index],
        }
    }
}

/// Selects a GPU together with its paired audio device (`group_devices` are
/// the devices of the GPU's IOMMU group).
pub fn auto_select_gpu(devices: &[PciDevice], gpu_index: usize, group_devices: &[PciDevice]) -> (res:
    Vec<usize>)
    ensures
        res@ == gpu_selection(devices@, gpu_index, group_devices@),
{
    let mut res: Vec<usize> = Vec::new();
    if gpu_index >= devices.len() || devices[gpu_index].is_boot_vga {
        return res;
    }
    res.push(gpu_index);
    match find_gpu_audio_pair(&devices[gpu_index], devices, group_devices) {
        Some(audio) => {
            match find_address(devices, audio.address.as_str()) {
                Some(i) => {
                    proof {
                        lemma_position_bound(devices@, audio.address@);
                    }
                    res.push(i);
                },
                None => {},
            }
        },
        None => {},
    }
    proof {
        assert(res@ =~= gpu_selection(devices@, gpu_index, group_devices@));
    }
    res
}

proof fn lemma_position_bound(ds: Seq<PciDevice>, address: Seq<char>)
    ensures
        match position_of_address(ds, address) {
            Some(i) => 0 <= i < ds.len() && ds[i].address@ == address,
            None => true,
        },
    decreases ds.len(),
{
    if ds.len() > 0 {
        lemma_position_bound(ds.drop_first(), address);
    }
}

/// Display backends in order of preference.
pub open spec fn preferred_backends() -> Seq<Seq<char>> {
    seq!["gtk"@, "sdl"@, "spice-app"@, "vnc"@, "none"@]
}

/// `acc` extended by the entries of `d`, in order, that it lacks, except "spice".
pub open spec fn with_extra_backends(acc: Seq<Seq<char>>, d: Seq<Seq<char>>) -> Seq<Seq<char>>
    decreases d.len(),
{
    if d.len() == 0 {
        acc
    } else if !acc.contains(d[0]) && d[0] != "spice"@ {
        with_extra_backends(acc.push(d[0]), d.drop_first())
    } else {
        with_extra_backends(acc, d.drop_first())
    }
}

/// The display backends to offer for an emulator: the preferred ones it
/// supports, in preference order, then its other backends (each once, never
/// plain "spice"); the preferred list where nothing was detected.
pub open spec fn display_choices(detected: Option<Seq<Seq<char>>>) -> Seq<Seq<char>> {
    match detected {
        Some(d) => {
            let r = with_extra_backends(preferred_backends().filter(|p: Seq<char>| d.contains(p)), d);
            if r.len() > 0 {
                r
            } else {
                preferred_backends()
            }
        },
        None => preferred_backends(),
    }
}

fn contains_text(v: &Vec<String>, t: &str) -> (res: bool)
    ensures
        res == views(v@).contains(t@),
{
    let mut i: usize = 0;
    while i < v.len()
        invariant
            i <= v.len(),
            forall|j: int| 0 <= j < i ==> v@[j]@ != t@,
        decreases v.len() - i,
    {
        if str_eq(v[i].as_str(), t) {
            proof {
                assert(views(v@)[i as int] == t@);
            }
            return true;
        }
        i += 1;
    }
    proof {
        if views(v@).contains(t@) {
            let j = choose|j: int| 0 <= j < views(v@).len() && views(v@)[j] == t@;
            assert(v@[j]@ == t@);
        }
    }
    false
}

/// The display backends to offer for an emulator whose `-display help`
/// listed `detected` (`None` when it was not probed).
pub fn display_options(detected: Option<&Vec<String>>) -> (res: Vec<String>)
    ensures
        views(res@) == display_choices(
            match detected {
                Some(d) => Some(views(d@)),
                None => None,
            },
        ),
{
    let preferred = ["gtk", "sdl", "spice-app", "vnc", "none"];
    let mut fallback: Vec<String> = Vec::new();
    let mut k: usize = 0;
    while k < 5
        invariant
            k <= 5,
            preferred@.map_values(|s: &str| s@) == preferred_backends(),
            views(fallback@) == preferred_backends().take(k as int),
        decreases 5 - k,
    {
        let ghost before = fallback@;
        let item = String::from_str(preferred[k]);
        fallback.push(item);
        proof {
            assert(preferred@.map_values(|s: &str| s@)[k as int] == preferred@[k as int]@);
            assert(fallback@ == before.push(item));
            assert(views(before).len() == before.len());
            assert(views(fallback@) =~= views(before).push(item@));
            assert(views(fallback@) =~= preferred_backends().take(k + 1));
        }
        k += 1;
    }
    proof {
        assert(preferred_backends().take(5) =~= preferred_backends());
    }
    let d = match detected {
        Some(d) => d,
        None => {
            return fallback;
        },
    };
    let ghost dv = views(d@);
    let ghost pref_pred = |p: Seq<char>| dv.contains(p);
    let mut result: Vec<String> = Vec::new();
    let mut k: usize = 0;
    while k < 5
        invariant
            k <= 5,
            dv == views(d@),
            pref_pred == (|p: Seq<char>| dv.contains(p)),
            preferred@.map_values(|s: &str| s@) == preferred_backends(),
            views(result@) == preferred_backends().take(k as int).filter(pref_pred),
        decreases 5 - k,
    {
        let ghost before = views(result@);
        proof {
            let t = preferred_backends().take(k as int);
            assert(preferred_backends().take(k + 1) =~= t + seq![preferred_backends()[k as int]]);
            Seq::filter_distributes_over_add(t, seq![preferred_backends()[k as int]], pref_pred);
            reveal_with_fuel(Seq::filter, 2);
            assert(seq![preferred_backends()[k as int]].drop_last() =~= Seq::<Seq<char>>::empty());
            assert(preferred@.map_values(|s: &str| s@)[k as int] == preferred@[k as int]@);
        }
        if contains_text(d, preferred[k]) {
            result.push(String::from_str(preferred[k]));
            proof {
                assert(views(result@) =~= before.push(preferred_backends()[k as int]));
            }
        }
        proof {
            assert(views(result@) =~= preferred_backends().take(k + 1).filter(pref_pred));
        }
        k += 1;
    }
    proof {
        assert(preferred_backends().take(5) =~= preferred_backends());
    }
    let ghost base = views(result@);
    let mut i: usize = 0;
    proof {
        assert(dv.skip(0) =~= dv);
    }
    while i < d.len()
        invariant
            i <= d.len(),
            dv == views(d@),
            with_extra_backends(base, dv) == with_extra_backends(views(result@), dv.skip(i as int)),
        decreases d.len() - i,
    {
        let x = d[i].as_str();
        proof {
            assert(dv.skip(i as int)[0] == d@[i as int]@);
            assert(dv.skip(i as int).drop_first() =~= dv.skip(i + 1));
        }
        if !contains_text(&result, x) && !str_eq(x, "spice") {
            let ghost before = views(result@);
            result.push(String::from_str(x));
            proof {
                assert(views(result@) =~= before.push(x@));
            }
        }
        i += 1;
    }
    proof {
        assert(dv.skip(i as int).len() == 0);
    }
    if result.len() > 0 {
        result
    } else {
        fallback
    }
}

/// The network backends to offer, as (name, description): user networking
/// always, passt where it is installed, a bridge where the helper exists
/// (ready, or needing a one-time setup), and none.
pub open spec fn network_choices(
    passt_available: bool,
    bridge_helper: bool,
    bridge_ready: bool,
) -> Seq<(Seq<char>, Seq<char>)> {
    let user = seq![("user"@, "User/SLIRP (NAT) - Default, works everywhere"@)];
    let passt = if passt_available {
        seq![("passt"@, "passt - Fast NAT, ping works"@)]
    } else {
        seq![]
    };
    let bridge = if bridge_helper {
        if bridge_ready {
            seq![("bridge"@, "Bridge - Full network, own IP"@)]
        } else {
            seq![("bridge"@, "Bridge - Requires one-time setup"@)]
        }
    } else {
        seq![]
    };
    user + passt + bridge + seq![("none"@, "None - No networking"@)]
}

/// The network backends to offer; the bridge is ready when the system has
/// bridges and the helper is configured.
pub fn network_backend_options(
    passt_available: bool,
    bridge_helper_available: bool,
    has_system_bridges: bool,
    bridge_helper_configured: bool,
) -> (res: Vec<(&'static str, &'static str)>)
    ensures
        res@.map_values(|e: (&str, &str)| (e.0@, e.1@)) == network_choices(
            passt_available,
            bridge_helper_available,
            has_system_bridges && bridge_helper_configured,
        ),
{
    let mut options: Vec<(&'static str, &'static str)> = Vec::new();
    options.push(("user", "User/SLIRP (NAT) - Default, works everywhere"));
    if passt_available {
        options.push(("passt", "passt - Fast NAT, ping works"));
    }
    if bridge_helper_available {
        if has_system_bridges && bridge_helper_configured {
            options.push(("bridge", "Bridge - Full network, own IP"));
        } else {
            options.push(("bridge", "Bridge - Requires one-time setup"));
        }
    }
    options.push(("none", "None - No networking"));
    proof {
        assert(options@.map_values(|e: (&str, &str)| (e.0@, e.1@)) =~= network_choices(
            passt_available,
            bridge_helper_available,
            has_system_bridges && bridge_helper_configured,
        ));
    }
    options
}

} // verus!

verus! {

/// Position of the first occurrence of the non-empty `p` in `s`, or -1.
pub open spec fn find_text(s: Seq<char>, p: Seq<char>) -> int
    decreases s.len(),
{
    if s.len() < p.len() || p.len() == 0 {
        -1
    } else if s.take(p.len() as int) == p {
        0
    } else if find_text(s.drop_first(), p) < 0 {
        -1
    } else {
        1 + find_text(s.drop_first(), p)
    }
}

/// Length of the prefix of `s` before its first ',' or white space.
pub open spec fn address_len(s: Seq<char>) -> int
    decreases s.len(),
{
    if s.len() == 0 || s[0] == ',' || is_ws(s[0]) {
        0
    } else {
        1 + address_len(s.drop_first())
    }
}

/// The device address that a QEMU argument names: what follows its first
/// "host=", up to the next ',' or white space.
pub open spec fn host_address(arg: Seq<char>) -> Option<Seq<char>> {
    let i = find_text(arg, "host="@);
    if i < 0 {
        None
    } else {
        let rest = arg.skip(i + 5);
        Some(rest.take(address_len(rest)))
    }
}

/// The positions of the devices that saved passthrough arguments name, in
/// the arguments' order.
pub open spec fn restored_selection(args: Seq<Seq<char>>, ds: Seq<PciDevice>) -> Seq<usize>
    decreases args.len(),
{
    if args.len() == 0 {
        seq![]
    } else {
        restored_selection(args.drop_last(), ds) + match host_address(args.last()) {
            Some(a) => match position_of_address(ds, a) {
                Some(j) => seq![j as usize],
                None => seq![],
            },
            None => seq![],
        }
    }
}

proof fn lemma_find_text_bound(s: Seq<char>, p: Seq<char>)
    ensures
        -1 <= find_text(s, p),
        find_text(s, p) >= 0 ==> find_text(s, p) + p.len() <= s.len(),
    decreases s.len(),
{
    if s.len() >= p.len() && p.len() > 0 && s.take(p.len() as int) != p {
        lemma_find_text_bound(s.drop_first(), p);
    }
}

proof fn lemma_address_len_bound(s: Seq<char>)
    ensures
        0 <= address_len(s) <= s.len(),
    decreases s.len(),
{
    if s.len() > 0 && s[0] != ',' && !is_ws(s[0]) {
        lemma_address_len_bound(s.drop_first());
    }
}

/// The address after the first "host=" of a passthrough argument.
fn host_address_of(arg: &str) -> (res: Option<String>)
    ensures
        match res {
            Some(a) => host_address(arg@) == Some(a@),
            None => host_address(arg@) is None,
        },
{
    proof {
        reveal_strlit("host=");
    }
    let cs = chars_of(arg);
    let mut i: usize = 0;
    proof {
        assert(cs@.skip(0) =~= cs@);
    }
    while i < cs.len() && cs.len() - i >= 5
        invariant
            cs@ == arg@,
            i <= cs.len(),
            "host="@.len() == 5,
            find_text(arg@, "host="@) == if find_text(cs@.skip(i as int), "host="@) < 0 {
                -1
            } else {
                i + find_text(cs@.skip(i as int), "host="@)
            },
        decreases cs.len() - i,
    {
        let ghost rest = cs@.skip(i as int);
        proof {
            assert(rest.take(5) =~= cs@.subrange(i as int, i + 5));
            assert(rest.drop_first() =~= cs@.skip(i + 1));
        }
        if crate::text::range_eq(&cs, i, i + 5, "host=") {
            let start = i + 5;
            let mut j: usize = start;
            proof {
                assert(cs@.skip(start as int) =~= rest.skip(5));
                assert(cs@.skip(j as int) =~= cs@.skip(start as int).skip(0));
            }
            while j < cs.len() && cs[j] != ',' && !is_whitespace(cs[j])
                invariant
                    start <= j <= cs.len(),
                    address_len(cs@.skip(start as int)) == (j - start) + address_len(cs@.skip(j as int)),
                decreases cs.len() - j,
            {
                proof {
                    assert(cs@.skip(j as int)[0] == cs@[j as int]);
                    assert(cs@.skip(j as int).drop_first() =~= cs@.skip(j + 1));
                }
                j += 1;
            }
            proof {
                if j < cs.len() {
                    assert(cs@.skip(j as int)[0] == cs@[j as int]);
                }
                assert(address_len(cs@.skip(j as int)) == 0);
                assert(cs@.skip(start as int).take(j - start) =~= cs@.subrange(start as int, j as int));
            }
            return Some(string_of(slice_range(&cs, start, j).as_slice()));
        }
        i += 1;
    }
    proof {
        assert(cs@.skip(i as int).len() < 5);
    }
    None
}

/// The positions of the devices that saved passthrough arguments name (the
/// address after each argument's "host="), in the arguments' order.
pub fn restore_pci_selections(saved_args: &[String], devices: &[PciDevice]) -> (res: Vec<usize>)
    ensures
        res@ == restored_selection(views(saved_args@), devices@),
{
    let ghost av = views(saved_args@);
    let mut res: Vec<usize> = Vec::new();
    let mut i: usize = 0;
    while i < saved_args.len()
        invariant
            i <= saved_args.len(),
            av == views(saved_args@),
            res@ == restored_selection(av.take(i as int), devices@),
        decreases saved_args.len() - i,
    {
        proof {
            assert(av.take(i + 1).drop_last() =~= av.take(i as int));
            assert(av.take(i + 1).last() == saved_args@[i as int]@);
        }
        let ghost before = res@;
        match host_address_of(saved_args[i].as_str()) {
            Some(a) => {
                match find_address(devices, a.as_str()) {
                    Some(j) => {
                        res.push(j);
                        proof {
                            assert(res@ =~= before + seq![j]);
                        }
                    },
                    None => {
                        proof {
                            assert(before + Seq::<usize>::empty() =~= before);
                        }
                    },
                }
            },
            None => {
                proof {
                    assert(before + Seq::<usize>::empty() =~= before);
                }
            },
        }
        i += 1;
    }
    proof {
        assert(av.take(saved_args.len() as int) =~= av);
    }
    res
}

} // verus!

verus! {

/// Whether the PCI passthrough screen lists device `d` of `all`: every
/// passthrough candidate, and with GPU passthrough on also GPUs, audio
/// devices and devices sharing an IOMMU group with another GPU.
pub open spec fn pci_listed(d: PciDevice, all: Seq<PciDevice>, gpu_passthrough: bool) -> bool {
    ||| passthrough_candidate(d)
    ||| gpu_passthrough && (is_gpu_class(d.class_code) || class_base(d.class_code) == AUDIO_DEVICE
        || (d.iommu_group is Some && in_gpu_group(d, all)))
}

/// The test `pci_listed` on the device at a position of `all`.
pub open spec fn listed_position(all: Seq<PciDevice>, gpu_passthrough: bool) -> spec_fn(usize) -> bool {
    |i: usize| pci_listed(all[i as int], all, gpu_passthrough)
}

/// The positions of the devices the PCI passthrough screen lists, in order.
pub fn relevant_pci_indices(devices: &[PciDevice], gpu_passthrough: bool) -> (res: Vec<usize>)
    ensures
        res@ == Seq::new(devices@.len(), |i: int| i as usize).filter(
            listed_position(devices@, gpu_passthrough),
        ),
{
    let ghost pred = listed_position(devices@, gpu_passthrough);
    let mut res: Vec<usize> = Vec::new();
    let mut i: usize = 0;
    proof {
        assert(Seq::new(0, |k: int| k as usize).filter(pred) =~= Seq::<usize>::empty());
    }
    while i < devices.len()
        invariant
            i <= devices.len(),
            pred == listed_position(devices@, gpu_passthrough),
            res@ == Seq::new(i as nat, |k: int| k as usize).filter(pred),
        decreases devices.len() - i,
    {
        let ghost before = Seq::new(i as nat, |k: int| k as usize);
        proof {
            assert(Seq::new((i + 1) as nat, |k: int| k as usize) =~= before + seq![i]);
            Seq::filter_distributes_over_add(before, seq![i], pred);
            reveal_with_fuel(Seq::filter, 2);
            assert(seq![i].drop_last() =~= Seq::<usize>::empty());
        }
        let d = &devices[i];
        let listed = d.is_passthrough_candidate() || (gpu_passthrough && (d.is_gpu() || d.is_audio()
            || (d.iommu_group.is_some() && is_device_in_gpu_group(d, devices))));
        if listed {
            res.push(i);
        }
        proof {
            assert(listed == pred(i));
            assert(res@ =~= Seq::new((i + 1) as nat, |k: int| k as usize).filter(pred));
        }
        i += 1;
    }
    res
}

/// The highlighted device after a move in the list `relevant`: the next
/// (or previous) listed device; where the highlighted device is not listed,
/// the first listed one; unchanged at either end or when nothing is listed.
pub open spec fn pci_highlight_after(relevant: Seq<usize>, current: usize, down: bool) -> usize {
    let p = first_index(relevant, current);
    if p >= 0 {
        if down {
            if p + 1 < relevant.len() {
                relevant[p + 1]
            } else {
                current
            }
        } else if p > 0 {
            relevant[p - 1]
        } else {
            current
        }
    } else if relevant.len() > 0 {
        relevant[0]
    } else {
        current
    }
}

/// Move the highlight in the PCI device list down (`down`) or up.
pub fn move_pci_highlight(relevant: &[usize], current: usize, down: bool) -> (res: usize)
    ensures
        res == pci_highlight_after(relevant@, current, down),
{
    let mut p: usize = 0;
    while p < relevant.len() && relevant[p] != current
        invariant
            p <= relevant.len(),
            forall|j: int| 0 <= j < p ==> relevant@[j] != current,
        decreases relevant.len() - p,
    {
        p += 1;
    }
    proof {
        lemma_first_index(relevant@, current);
        if p < relevant.len() {
            assert(relevant@.contains(current));
        } else {
            assert(!relevant@.contains(current));
        }
    }
    if p < relevant.len() {
        if down {
            if p + 1 < relevant.len() {
                relevant[p + 1]
            } else {
                current
            }
        } else if p > 0 {
            relevant[p - 1]
        } else {
            current
        }
    } else if relevant.len() > 0 {
        relevant[0]
    } else {
        current
    }
}

} // verus!
