//! QEMU configuration profiles for different operating systems: the
//! OS-specific defaults offered when a new VM is created.

use vstd::prelude::*;
use super::keyed::{entries_map, KeyedStore};
use crate::hardware::pci::clone_opt_string;
use crate::text::{
    contains, dec, dec_string, has_infix, join, join_strings, lex_le, lowercase, str_eq, str_le,
    to_lowercase, views,
};

verus! {

/// A QEMU configuration profile for a specific operating system.
#[derive(Debug)]
pub struct QemuProfile {
    /// Human-readable display name
    pub display_name: String,
    /// Category (windows, linux, bsd, unix, classic-mac, alternative, retro, macos)
    pub category: String,
    /// QEMU emulator command (e.g., qemu-system-x86_64)
    pub emulator: String,
    /// Default RAM in megabytes
    pub memory_mb: u32,
    /// Default CPU cores
    pub cpu_cores: u32,
    /// CPU model (host, qemu64, pentium, etc.)
    pub cpu_model: Option<String>,
    /// Machine type (q35, pc, etc.)
    pub machine: Option<String>,
    /// Graphics adapter (qxl, virtio, std, cirrus, vmware, none)
    pub vga: String,
    /// Audio devices (e.g., ["intel-hda", "hda-duplex"])
    pub audio: Vec<String>,
    /// Network adapter model (virtio, e1000, rtl8139, ne2k_pci, pcnet, none)
    pub network_model: String,
    /// Disk interface (virtio, ide, sata, scsi, sd)
    pub disk_interface: String,
    /// Default disk size in gigabytes
    pub disk_size_gb: u32,
    /// Enable KVM acceleration
    pub enable_kvm: bool,
    /// Boot in UEFI mode
    pub uefi: bool,
    /// Enable TPM emulation
    pub tpm: bool,
    /// Set RTC to local time (for Windows)
    pub rtc_localtime: bool,
    /// Use USB tablet for mouse
    pub usb_tablet: bool,
    /// Display output (gtk, sdl, spice, vnc)
    pub display: String,
    /// Additional QEMU arguments
    pub extra_args: Vec<String>,
    /// Download URL for free/open-source OSes
    pub iso_url: Option<String>,
    /// Tips/notes for this OS
    pub notes: Option<String>,
    /// The machine's BIOS ROM, for systems that boot from one (classic Macs)
    pub bios_rom: Option<BiosRomConfig>,
}

/// A system that boots from a BIOS ROM image the user supplies.
#[derive(Debug, Clone, Copy, PartialEq, Eq, Structural)]
pub struct BiosRomConfig {
    /// Whether the system cannot boot without the ROM (m68k Macs) rather
    /// than merely accepting one (PowerPC Macs)
    pub required: bool,
}

/// A profile with its texts as character sequences.
pub struct QemuProfileView {
    pub display_name: Seq<char>,
    pub category: Seq<char>,
    pub emulator: Seq<char>,
    pub memory_mb: u32,
    pub cpu_cores: u32,
    pub cpu_model: Option<Seq<char>>,
    pub machine: Option<Seq<char>>,
    pub vga: Seq<char>,
    pub audio: Seq<Seq<char>>,
    pub network_model: Seq<char>,
    pub disk_interface: Seq<char>,
    pub disk_size_gb: u32,
    pub enable_kvm: bool,
    pub uefi: bool,
    pub tpm: bool,
    pub rtc_localtime: bool,
    pub usb_tablet: bool,
    pub display: Seq<char>,
    pub extra_args: Seq<Seq<char>>,
    pub iso_url: Option<Seq<char>>,
    pub notes: Option<Seq<char>>,
    pub bios_rom: Option<BiosRomConfig>,
}

/// The view of an optional string.
pub open spec fn opt_text(o: Option<String>) -> Option<Seq<char>> {
    match o {
        Some(s) => Some(s@),
        None => None,
    }
}

impl View for QemuProfile {
    type V = QemuProfileView;

    open spec fn view(&self) -> QemuProfileView {
        QemuProfileView {
            display_name: self.display_name@,
            category: self.category@,
            emulator: self.emulator@,
            memory_mb: self.memory_mb,
            cpu_cores: self.cpu_cores,
            cpu_model: opt_text(self.cpu_model),
            machine: opt_text(self.machine),
            vga: self.vga@,
            audio: views(self.audio@),
            network_model: self.network_model@,
            disk_interface: self.disk_interface@,
            disk_size_gb: self.disk_size_gb,
            enable_kvm: self.enable_kvm,
            uefi: self.uefi,
            tpm: self.tpm,
            rtc_localtime: self.rtc_localtime,
            usb_tablet: self.usb_tablet,
            display: self.display@,
            extra_args: views(self.extra_args@),
            iso_url: opt_text(self.iso_url),
            notes: opt_text(self.notes),
            bios_rom: self.bios_rom,
        }
    }
}

/// A copy of a list of strings.
pub fn clone_strings(v: &Vec<String>) -> (r: Vec<String>)
    ensures
        r@ == v@,
{
    let mut r: Vec<String> = Vec::new();
    let mut i: usize = 0;
    while i < v.len()
        invariant
            i <= v.len(),
            r@ == v@.take(i as int),
        decreases v.len() - i,
    {
        r.push(v[i].clone());
        proof {
            assert(r@ =~= v@.take(i + 1));
        }
        i += 1;
    }
    proof {
        assert(v@.take(v.len() as int) =~= v@);
    }
    r
}

impl Clone for QemuProfile {
    fn clone(&self) -> (res: Self)
        ensures
            res@ == self@,
    {
        QemuProfile {
            display_name: self.display_name.clone(),
            category: self.category.clone(),
            emulator: self.emulator.clone(),
            memory_mb: self.memory_mb,
            cpu_cores: self.cpu_cores,
            cpu_model: clone_opt_string(&self.cpu_model),
            machine: clone_opt_string(&self.machine),
            vga: self.vga.clone(),
            audio: clone_strings(&self.audio),
            network_model: self.network_model.clone(),
            disk_interface: self.disk_interface.clone(),
            disk_size_gb: self.disk_size_gb,
            enable_kvm: self.enable_kvm,
            uefi: self.uefi,
            tpm: self.tpm,
            rtc_localtime: self.rtc_localtime,
            usb_tablet: self.usb_tablet,
            display: self.display.clone(),
            extra_args: clone_strings(&self.extra_args),
            iso_url: clone_opt_string(&self.iso_url),
            notes: clone_opt_string(&self.notes),
            bios_rom: self.bios_rom,
        }
    }
}

/// Display output used when a profile names none.
pub fn default_display() -> (res: String)
    ensures
        res@ == "gtk"@,
{
    String::from_str("gtk")
}

/// The profile used for an operating system without one of its own.
pub open spec fn default_profile() -> QemuProfileView {
    QemuProfileView {
        display_name: "Unknown OS"@,
        category: "alternative"@,
        emulator: "qemu-system-x86_64"@,
        memory_mb: 2048,
        cpu_cores: 2,
        cpu_model: Some("host"@),
        machine: Some("q35"@),
        vga: "std"@,
        audio: seq!["intel-hda"@, "hda-duplex"@],
        network_model: "e1000"@,
        disk_interface: "ide"@,
        disk_size_gb: 32,
        enable_kvm: true,
        uefi: false,
        tpm: false,
        rtc_localtime: false,
        usb_tablet: true,
        display: "gtk"@,
        extra_args: seq![],
        iso_url: None,
        notes: None,
        bios_rom: None,
    }
}

impl Default for QemuProfile {
    fn default() -> (res: Self)
        ensures
            res@ == default_profile(),
    {
        let mut audio: Vec<String> = Vec::new();
        audio.push(String::from_str("intel-hda"));
        audio.push(String::from_str("hda-duplex"));
        let res = QemuProfile {
            display_name: String::from_str("Unknown OS"),
            category: String::from_str("alternative"),
            emulator: String::from_str("qemu-system-x86_64"),
            memory_mb: 2048,
            cpu_cores: 2,
            cpu_model: Some(String::from_str("host")),
            machine: Some(String::from_str("q35")),
            vga: String::from_str("std"),
            audio,
            network_model: String::from_str("e1000"),
            disk_interface: String::from_str("ide"),
            disk_size_gb: 32,
            enable_kvm: true,
            uefi: false,
            tpm: false,
            rtc_localtime: false,
            usb_tablet: true,
            display: default_display(),
            extra_args: Vec::new(),
            iso_url: None,
            notes: None,
            bios_rom: None,
        };
        proof {
            assert(res@.audio =~= seq!["intel-hda"@, "hda-duplex"@]);
            assert(res@.extra_args =~= Seq::<Seq<char>>::empty());
        }
        res
    }
}

/// Whether an emulator command runs an x86 guest (64- or 32-bit).
pub open spec fn is_x86_emulator(emulator: Seq<char>) -> bool {
    has_infix(emulator, "x86_64"@) || has_infix(emulator, "i386"@)
}

/// The parts of a profile's summary line.
pub open spec fn summary_parts(p: QemuProfileView) -> Seq<Seq<char>> {
    let memory = if p.memory_mb >= 1024 {
        dec((p.memory_mb / 1024) as nat) + "GB RAM"@
    } else {
        dec(p.memory_mb as nat) + "MB RAM"@
    };
    let base = seq![memory, dec(p.disk_size_gb as nat) + "GB"@];
    let with_uefi = if p.uefi {
        base.push("UEFI"@)
    } else {
        base
    };
    if p.disk_interface == "virtio"@ {
        with_uefi.push("virtio"@)
    } else {
        with_uefi
    }
}

impl QemuProfile {
    /// Whether this profile has a download URL for a free ISO.
    pub fn has_free_iso(&self) -> (res: bool)
        ensures
            res == self.iso_url.is_some(),
    {
        self.iso_url.is_some()
    }

    /// Whether this profile uses an x86 architecture.
    pub fn is_x86(&self) -> (res: bool)
        ensures
            res == is_x86_emulator(self.emulator@),
    {
        contains(self.emulator.as_str(), "x86_64") || contains(self.emulator.as_str(), "i386")
    }

    /// Whether this profile uses 64-bit x86.
    pub fn is_x86_64(&self) -> (res: bool)
        ensures
            res == has_infix(self.emulator@, "x86_64"@),
    {
        contains(self.emulator.as_str(), "x86_64")
    }

    /// A short summary for display in the wizard: memory, disk size, and the
    /// notable features (UEFI, virtio disk), separated by ", ".
    pub fn summary(&self) -> (res: String)
        ensures
            res@ == join(summary_parts(self@), ", "@),
    {
        let mut parts: Vec<String> = Vec::new();
        if self.memory_mb >= 1024 {
            let mut m = dec_string((self.memory_mb / 1024) as u64);
            m.append("GB RAM");
            parts.push(m);
        } else {
            let mut m = dec_string(self.memory_mb as u64);
            m.append("MB RAM");
            parts.push(m);
        }
        let mut d = dec_string(self.disk_size_gb as u64);
        d.append("GB");
        parts.push(d);
        if self.uefi {
            parts.push(String::from_str("UEFI"));
        }
        if str_eq(self.disk_interface.as_str(), "virtio") {
            parts.push(String::from_str("virtio"));
        }
        proof {
            assert(views(parts@) =~= summary_parts(self@));
        }
        join_strings(&parts, ", ")
    }
}

} // verus!

verus! {

/// Whether `res` lists, each once and in order of display name, exactly the
/// entries of `m` whose id and profile satisfy `pred`.
pub open spec fn is_sorted_listing(
    res: Seq<(&String, &QemuProfile)>,
    m: Map<Seq<char>, QemuProfile>,
    pred: spec_fn(Seq<char>, QemuProfile) -> bool,
) -> bool {
    &&& forall|k: int|
        0 <= k < res.len() ==> {
            &&& m.contains_key((#[trigger] res[k]).0@)
            &&& *res[k].1 == m[res[k].0@]
            &&& pred(res[k].0@, *res[k].1)
        }
    &&& forall|key: Seq<char>|
        #[trigger] m.contains_key(key) && pred(key, m[key]) ==> exists|k: int|
            0 <= k < res.len() && (#[trigger] res[k]).0@ == key
    &&& forall|a: int, b: int|
        0 <= a < b < res.len() ==> (#[trigger] res[a]).0@ != (#[trigger] res[b]).0@
    &&& forall|a: int, b: int|
        0 <= a < b < res.len() ==> lex_le(
            (#[trigger] res[a]).1.display_name@,
            (#[trigger] res[b]).1.display_name@,
        )
}

/// Whether a profile's id or display name contains the query, ignoring case.
pub open spec fn search_hit(id: Seq<char>, display_name: Seq<char>, query: Seq<char>) -> bool {
    has_infix(lowercase(id), lowercase(query)) || has_infix(lowercase(display_name), lowercase(query))
}

/// Whether a lower-cased id or display name contains the lower-cased query.
pub fn query_matches(id_lower: &str, name_lower: &str, query_lower: &str) -> (res: bool)
    ensures
        res == (has_infix(id_lower@, query_lower@) || has_infix(name_lower@, query_lower@)),
{
    contains(id_lower, query_lower) || contains(name_lower, query_lower)
}

/// Display names of the profile categories.
pub open spec fn category_display_text(c: Seq<char>) -> Seq<char> {
    if c == "windows"@ {
        "Windows"@
    } else if c == "linux"@ {
        "Linux"@
    } else if c == "bsd"@ {
        "BSD"@
    } else if c == "unix"@ {
        "Unix"@
    } else if c == "classic-mac"@ {
        "Classic Mac"@
    } else if c == "macos"@ {
        "macOS"@
    } else if c == "alternative"@ {
        "Alternative"@
    } else if c == "retro"@ {
        "Retro"@
    } else if c == "mobile"@ {
        "Mobile / Android"@
    } else if c == "infrastructure"@ {
        "Infrastructure"@
    } else if c == "utilities"@ {
        "Utilities"@
    } else {
        "Other"@
    }
}

/// Id of the generic profile for a category.
pub open spec fn generic_profile_id(c: Seq<char>) -> Seq<char> {
    if c == "windows"@ {
        "generic-windows"@
    } else if c == "linux"@ {
        "generic-linux"@
    } else if c == "bsd"@ {
        "generic-bsd"@
    } else {
        "generic-other"@
    }
}

/// Whether some profile of `m` has category `c`.
pub open spec fn has_category(m: Map<Seq<char>, QemuProfile>, c: Seq<char>) -> bool {
    exists|key: Seq<char>| #[trigger] m.contains_key(key) && m[key].category@ == c
}

/// Strictly increasing texts.
pub open spec fn sorted_distinct(s: Seq<String>) -> bool {
    forall|a: int, b: int| 0 <= a < b < s.len() ==> lex_le(s[a]@, s[b]@) && s[a]@ != s[b]@
}

/// Inserting `c` where it belongs keeps a strictly increasing sequence so.
proof fn lemma_insert_sorted_distinct(old_s: Seq<String>, new_s: Seq<String>, pos: int, c: Seq<char>)
    requires
        sorted_distinct(old_s),
        0 <= pos <= old_s.len(),
        new_s.len() == old_s.len() + 1,
        new_s[pos]@ == c,
        forall|k: int| 0 <= k < pos ==> new_s[k] == old_s[k],
        forall|k: int| pos < k < new_s.len() ==> new_s[k] == old_s[k - 1],
        forall|k: int| 0 <= k < pos ==> !lex_le(c, (#[trigger] old_s[k])@),
        pos < old_s.len() ==> lex_le(c, old_s[pos]@) && old_s[pos]@ != c,
    ensures
        sorted_distinct(new_s),
{
    assert forall|a: int, b: int| 0 <= a < b < new_s.len() implies lex_le(new_s[a]@, new_s[b]@)
        && new_s[a]@ != new_s[b]@ by {
        if b < pos {
            assert(new_s[a] == old_s[a] && new_s[b] == old_s[b]);
        } else if b == pos {
            assert(new_s[a] == old_s[a]);
            crate::text::lemma_lex_total(c, old_s[a]@);
        } else if a > pos {
            assert(new_s[a] == old_s[a - 1] && new_s[b] == old_s[b - 1]);
        } else if a == pos {
            assert(new_s[b] == old_s[b - 1]);
            if b - 1 > pos {
                crate::text::lemma_lex_trans(c, old_s[pos]@, old_s[b - 1]@);
                if c == old_s[b - 1]@ {
                    crate::text::lemma_lex_antisym(c, old_s[pos]@);
                }
            }
        } else {
            assert(new_s[a] == old_s[a] && new_s[b] == old_s[b - 1]);
            crate::text::lemma_lex_total(c, old_s[a]@);
        }
    }
}

/// Store of QEMU profiles by OS id; later entries override earlier ones.
#[derive(Debug)]
pub struct QemuProfileStore {
    profiles: KeyedStore<QemuProfile>,
}

impl View for QemuProfileStore {
    type V = Map<Seq<char>, QemuProfile>;

    closed spec fn view(&self) -> Map<Seq<char>, QemuProfile> {
        self.profiles@
    }
}

impl QemuProfileStore {
    #[verifier::type_invariant]
    spec fn inv(self) -> bool {
        self.profiles.wf()
    }

    /// An empty profile store.
    pub fn new() -> (s: Self)
        ensures
            s@ == Map::<Seq<char>, QemuProfile>::empty(),
    {
        QemuProfileStore { profiles: KeyedStore::new() }
    }

    /// Stores `profile` under `os_id`, replacing any profile there.
    pub fn insert(&mut self, os_id: String, profile: QemuProfile)
        ensures
            final(self)@ == old(self)@.insert(os_id@, profile),
    {
        proof {
            use_type_invariant(&*self);
        }
        let mut profiles = KeyedStore::new();
        std::mem::swap(&mut profiles, &mut self.profiles);
        profiles.insert(os_id, profile);
        self.profiles = profiles;
    }

    /// Adds `profiles` in order, each replacing a profile of the same id
    /// (embedded profiles, then user overrides).
    pub fn merge_profiles(&mut self, profiles: Vec<(String, QemuProfile)>)
        ensures
            final(self)@ == old(self)@.union_prefer_right(entries_map(profiles@)),
    {
        proof {
            use_type_invariant(&*self);
        }
        let mut store = KeyedStore::new();
        std::mem::swap(&mut store, &mut self.profiles);
        store.extend(profiles);
        self.profiles = store;
    }

    /// The profile for an OS id.
    pub fn get(&self, os_id: &str) -> (r: Option<&QemuProfile>)
        ensures
            match r {
                Some(p) => self@.contains_key(os_id@) && *p == self@[os_id@],
                None => !self@.contains_key(os_id@),
            },
    {
        proof {
            use_type_invariant(self);
        }
        self.profiles.get(os_id)
    }

    /// The profile for an OS id, or the default profile.
    pub fn get_or_default(&self, os_id: &str) -> (r: QemuProfile)
        ensures
            r@ == if self@.contains_key(os_id@) {
                self@[os_id@]@
            } else {
                default_profile()
            },
    {
        match self.get(os_id) {
            Some(p) => p.clone(),
            None => QemuProfile::default(),
        }
    }

    /// Number of profiles.
    pub fn len(&self) -> (n: usize)
        ensures
            n == self@.len(),
    {
        proof {
            use_type_invariant(self);
        }
        self.profiles.len()
    }

    /// Whether the store holds no profile.
    pub fn is_empty(&self) -> (r: bool)
        ensures
            r == (self@.len() == 0),
    {
        self.len() == 0
    }

    /// The entries with `keep` set, sorted by display name (stable insertion).
    fn collect_sorted(
        &self,
        keep: &Vec<bool>,
        Ghost(pred): Ghost<spec_fn(Seq<char>, QemuProfile) -> bool>,
    ) -> (res: Vec<(&String, &QemuProfile)>)
        requires
            keep.len() == self.profiles.entries().len(),
            forall|j: int|
                0 <= j < keep.len() ==> #[trigger] keep[j] == pred(
                    self.profiles.entries()[j].0@,
                    self.profiles.entries()[j].1,
                ),
        ensures
            is_sorted_listing(res@, self@, pred),
    {
        proof {
            use_type_invariant(self);
            self.profiles.lemma_view();
        }
        let ghost es = self.profiles.entries();
        let n = self.profiles.len();
        let mut res: Vec<(&String, &QemuProfile)> = Vec::new();
        let ghost mut src: Seq<int> = Seq::empty();
        let mut i: usize = 0;
        while i < n
            invariant
                n == es.len(),
                es == self.profiles.entries(),
                keep.len() == n,
                forall|j: int| 0 <= j < n ==> #[trigger] keep[j] == pred(es[j].0@, es[j].1),
                i <= n,
                src.len() == res.len(),
                forall|k: int|
                    0 <= k < res.len() ==> {
                        &&& 0 <= #[trigger] src[k] < i
                        &&& keep[src[k]]
                        &&& *res@[k].0 == es[src[k]].0
                        &&& *res@[k].1 == es[src[k]].1
                    },
                forall|j: int|
                    0 <= j < i && #[trigger] keep[j] ==> exists|k: int|
                        0 <= k < src.len() && src[k] == j,
                forall|a: int, b: int| 0 <= a < b < src.len() ==> #[trigger] src[a] != #[trigger] src[b],
                forall|a: int, b: int|
                    0 <= a < b < res.len() ==> lex_le(
                        (#[trigger] res@[a]).1.display_name@,
                        (#[trigger] res@[b]).1.display_name@,
                    ),
            decreases n - i,
        {
            if keep[i] {
                let (key, p) = self.profiles.entry(i);
                let mut pos: usize = 0;
                while pos < res.len() && str_le(res[pos].1.display_name.as_str(), p.display_name.as_str())
                    invariant
                        pos <= res.len(),
                        forall|k: int| 0 <= k < pos ==> lex_le(
                            (#[trigger] res@[k]).1.display_name@,
                            p.display_name@,
                        ),
                    decreases res.len() - pos,
                {
                    pos += 1;
                }
                let ghost old_res = res@;
                let ghost old_src = src;
                proof {
                    if pos < res.len() {
                        crate::text::lemma_lex_total(res@[pos as int].1.display_name@, p.display_name@);
                    }
                }
                res.insert(pos, (key, p));
                proof {
                    src = old_src.insert(pos as int, i as int);
                    assert forall|k: int| 0 <= k < res.len() implies {
                        &&& 0 <= #[trigger] src[k] < i + 1
                        &&& keep[src[k]]
                        &&& *res@[k].0 == es[src[k]].0
                        &&& *res@[k].1 == es[src[k]].1
                    } by {
                        if k < pos {
                            assert(res@[k] == old_res[k] && src[k] == old_src[k]);
                        } else if k > pos {
                            assert(res@[k] == old_res[k - 1] && src[k] == old_src[k - 1]);
                        }
                    }
                    assert forall|j: int| 0 <= j < i + 1 && #[trigger] keep[j] implies exists|k: int|
                        0 <= k < src.len() && src[k] == j by {
                        if j == i {
                            assert(src[pos as int] == j);
                        } else {
                            let k = choose|k: int| 0 <= k < old_src.len() && old_src[k] == j;
                            if k < pos {
                                assert(src[k] == j);
                            } else {
                                assert(src[k + 1] == j);
                            }
                        }
                    }
                    assert forall|a: int, b: int| 0 <= a < b < src.len() implies #[trigger] src[a]
                        != #[trigger] src[b] by {
                        if a < pos && b < pos {
                            assert(old_src[a] != old_src[b]);
                        } else if a < pos && b > pos {
                            assert(old_src[a] != old_src[b - 1]);
                        } else if a > pos && b > pos {
                            assert(old_src[a - 1] != old_src[b - 1]);
                        } else if a == pos {
                            assert(old_src[b - 1] < i);
                        } else {
                            assert(old_src[a] < i);
                        }
                    }
                    assert forall|a: int, b: int| 0 <= a < b < res.len() implies lex_le(
                        (#[trigger] res@[a]).1.display_name@,
                        (#[trigger] res@[b]).1.display_name@,
                    ) by {
                        if b < pos {
                            assert(res@[a] == old_res[a] && res@[b] == old_res[b]);
                        } else if b == pos {
                            assert(res@[a] == old_res[a]);
                        } else if a > pos {
                            assert(res@[a] == old_res[a - 1] && res@[b] == old_res[b - 1]);
                        } else if a == pos {
                            assert(res@[b] == old_res[b - 1]);
                            if b - 1 > pos {
                                assert(lex_le(old_res[pos as int].1.display_name@, old_res[b - 1].1.display_name@));
                            } else {
                                crate::text::lemma_lex_refl(old_res[pos as int].1.display_name@);
                            }
                            crate::text::lemma_lex_trans(
                                p.display_name@,
                                old_res[pos as int].1.display_name@,
                                old_res[b - 1].1.display_name@,
                            );
                        } else {
                            assert(res@[a] == old_res[a] && res@[b] == old_res[b - 1]);
                        }
                    }
                }
            }
            i += 1;
        }
        proof {
            let m = self@;
            assert forall|k: int| 0 <= k < res.len() implies {
                &&& m.contains_key((#[trigger] res@[k]).0@)
                &&& *res@[k].1 == m[res@[k].0@]
                &&& pred(res@[k].0@, *res@[k].1)
            } by {
                let j = src[k];
                assert(self@[es[j].0@] == es[j].1);
                assert(keep[j]);
            }
            assert forall|key: Seq<char>| #[trigger] m.contains_key(key) && pred(key, m[key]) implies exists|k: int|
                0 <= k < res.len() && (#[trigger] res@[k]).0@ == key by {
                let j = choose|j: int| 0 <= j < es.len() && es[j].0@ == key;
                assert(self@[es[j].0@] == es[j].1);
                assert(keep[j]);
                let k = choose|k: int| 0 <= k < src.len() && src[k] == j;
                assert(res@[k].0@ == key);
            }
            assert forall|a: int, b: int| 0 <= a < b < res.len() implies (#[trigger] res@[a]).0@
                != (#[trigger] res@[b]).0@ by {
                assert(src[a] != src[b]);
                if src[a] < src[b] {
                    assert(es[src[a]].0@ != es[src[b]].0@);
                } else {
                    assert(es[src[b]].0@ != es[src[a]].0@);
                }
            }
        }
        res
    }

    /// All profiles, sorted by display name.
    pub fn list_all(&self) -> (res: Vec<(&String, &QemuProfile)>)
        ensures
            is_sorted_listing(res@, self@, |k: Seq<char>, p: QemuProfile| true),
    {
        let n = self.len_entries();
        let mut keep: Vec<bool> = Vec::new();
        let mut i: usize = 0;
        while i < n
            invariant
                n == self.profiles.entries().len(),
                i <= n,
                keep.len() == i,
                forall|j: int| 0 <= j < i ==> #[trigger] keep[j] == true,
            decreases n - i,
        {
            keep.push(true);
            i += 1;
        }
        self.collect_sorted(&keep, Ghost(|k: Seq<char>, p: QemuProfile| true))
    }

    /// Profiles of one category, sorted by display name.
    pub fn list_by_category(&self, category: &str) -> (res: Vec<(&String, &QemuProfile)>)
        ensures
            is_sorted_listing(res@, self@, |k: Seq<char>, p: QemuProfile| p.category@ == category@),
    {
        proof {
            use_type_invariant(self);
        }
        let n = self.profiles.len();
        let mut keep: Vec<bool> = Vec::new();
        let mut i: usize = 0;
        while i < n
            invariant
                self.profiles.wf(),
                n == self.profiles.entries().len(),
                i <= n,
                keep.len() == i,
                forall|j: int| 0 <= j < i ==> #[trigger] keep[j] == (self.profiles.entries()[j].1.category@ == category@),
            decreases n - i,
        {
            let (_, p) = self.profiles.entry(i);
            keep.push(str_eq(p.category.as_str(), category));
            i += 1;
        }
        self.collect_sorted(&keep, Ghost(|k: Seq<char>, p: QemuProfile| p.category@ == category@))
    }

    /// Profiles with a free ISO download, sorted by display name.
    pub fn list_with_free_iso(&self) -> (res: Vec<(&String, &QemuProfile)>)
        ensures
            is_sorted_listing(res@, self@, |k: Seq<char>, p: QemuProfile| p.iso_url.is_some()),
    {
        proof {
            use_type_invariant(self);
        }
        let n = self.profiles.len();
        let mut keep: Vec<bool> = Vec::new();
        let mut i: usize = 0;
        while i < n
            invariant
                self.profiles.wf(),
                n == self.profiles.entries().len(),
                i <= n,
                keep.len() == i,
                forall|j: int| 0 <= j < i ==> #[trigger] keep[j] == self.profiles.entries()[j].1.iso_url.is_some(),
            decreases n - i,
        {
            let (_, p) = self.profiles.entry(i);
            keep.push(p.has_free_iso());
            i += 1;
        }
        self.collect_sorted(&keep, Ghost(|k: Seq<char>, p: QemuProfile| p.iso_url.is_some()))
    }

    /// Profiles for x86 or x86_64 guests, sorted by display name.
    pub fn list_x86_profiles(&self) -> (res: Vec<(&String, &QemuProfile)>)
        ensures
            is_sorted_listing(res@, self@, |k: Seq<char>, p: QemuProfile| is_x86_emulator(p.emulator@)),
    {
        proof {
            use_type_invariant(self);
        }
        let n = self.profiles.len();
        let mut keep: Vec<bool> = Vec::new();
        let mut i: usize = 0;
        while i < n
            invariant
                self.profiles.wf(),
                n == self.profiles.entries().len(),
                i <= n,
                keep.len() == i,
                forall|j: int| 0 <= j < i ==> #[trigger] keep[j] == is_x86_emulator(self.profiles.entries()[j].1.emulator@),
            decreases n - i,
        {
            let (_, p) = self.profiles.entry(i);
            keep.push(p.is_x86());
            i += 1;
        }
        self.collect_sorted(&keep, Ghost(|k: Seq<char>, p: QemuProfile| is_x86_emulator(p.emulator@)))
    }

    /// Profiles whose id or display name contains `query`, ignoring case,
    /// sorted by display name.
    pub fn search(&self, query: &str) -> (res: Vec<(&String, &QemuProfile)>)
        ensures
            is_sorted_listing(
                res@,
                self@,
                |k: Seq<char>, p: QemuProfile| search_hit(k, p.display_name@, query@),
            ),
    {
        proof {
            use_type_invariant(self);
        }
        let query_lower = to_lowercase(query);
        let n = self.profiles.len();
        let mut keep: Vec<bool> = Vec::new();
        let mut i: usize = 0;
        while i < n
            invariant
                self.profiles.wf(),
                n == self.profiles.entries().len(),
                query_lower@ == lowercase(query@),
                i <= n,
                keep.len() == i,
                forall|j: int| 0 <= j < i ==> #[trigger] keep[j] == search_hit(
                    self.profiles.entries()[j].0@,
                    self.profiles.entries()[j].1.display_name@,
                    query@,
                ),
            decreases n - i,
        {
            let (id, p) = self.profiles.entry(i);
            let id_lower = to_lowercase(id.as_str());
            let name_lower = to_lowercase(p.display_name.as_str());
            keep.push(query_matches(id_lower.as_str(), name_lower.as_str(), query_lower.as_str()));
            i += 1;
        }
        self.collect_sorted(
            &keep,
            Ghost(|k: Seq<char>, p: QemuProfile| search_hit(k, p.display_name@, query@)),
        )
    }

    /// The distinct categories of the stored profiles, sorted.
    pub fn categories(&self) -> (res: Vec<String>)
        ensures
            forall|a: int, b: int|
                0 <= a < b < res.len() ==> lex_le(res@[a]@, res@[b]@) && res@[a]@ != res@[b]@,
            forall|k: int| 0 <= k < res.len() ==> has_category(self@, (#[trigger] res@[k])@),
            forall|key: Seq<char>|
                #[trigger] self@.contains_key(key) ==> exists|k: int|
                    0 <= k < res.len() && (#[trigger] res@[k])@ == self@[key].category@,
    {
        proof {
            use_type_invariant(self);
            self.profiles.lemma_view();
        }
        let ghost es = self.profiles.entries();
        let n = self.profiles.len();
        let mut res: Vec<String> = Vec::new();
        let ghost mut src: Seq<int> = Seq::empty();
        let ghost mut at: Seq<int> = Seq::empty();
        let mut i: usize = 0;
        while i < n
            invariant
                n == es.len(),
                es == self.profiles.entries(),
                i <= n,
                sorted_distinct(res@),
                src.len() == res.len(),
                at.len() == i,
                forall|k: int|
                    0 <= k < res.len() ==> 0 <= #[trigger] src[k] < i && es[src[k]].1.category@
                        == res@[k]@,
                forall|j: int|
                    0 <= j < i ==> 0 <= #[trigger] at[j] < res.len() && res@[at[j]]@
                        == es[j].1.category@,
            decreases n - i,
        {
            let (_, p) = self.profiles.entry(i);
            let c = p.category.as_str();
            let mut pos: usize = 0;
            while pos < res.len() && !str_le(c, res[pos].as_str())
                invariant
                    pos <= res.len(),
                    forall|k: int| 0 <= k < pos ==> !lex_le(c@, (#[trigger] res@[k])@),
                decreases res.len() - pos,
            {
                pos += 1;
            }
            if pos < res.len() && str_eq(res[pos].as_str(), c) {
                proof {
                    at = at.push(pos as int);
                }
            } else {
                let ghost old_res = res@;
                let copy = p.category.clone();
                res.insert(pos, copy);
                proof {
                    lemma_insert_sorted_distinct(old_res, res@, pos as int, c@);
                    let old_src = src;
                    let old_at = at;
                    src = old_src.insert(pos as int, i as int);
                    at = Seq::new(
                        (i + 1) as nat,
                        |j: int|
                            if j == i {
                                pos as int
                            } else if old_at[j] < pos {
                                old_at[j]
                            } else {
                                old_at[j] + 1
                            },
                    );
                    assert forall|k: int| 0 <= k < res.len() implies 0 <= #[trigger] src[k] < i + 1
                        && es[src[k]].1.category@ == res@[k]@ by {
                        if k < pos {
                            assert(res@[k] == old_res[k] && src[k] == old_src[k]);
                        } else if k > pos {
                            assert(res@[k] == old_res[k - 1] && src[k] == old_src[k - 1]);
                        }
                    }
                    assert forall|j: int| 0 <= j < i + 1 implies 0 <= #[trigger] at[j] < res.len()
                        && res@[at[j]]@ == es[j].1.category@ by {
                        if j < i {
                            if old_at[j] < pos {
                                assert(res@[old_at[j]] == old_res[old_at[j]]);
                            } else {
                                assert(res@[old_at[j] + 1] == old_res[old_at[j]]);
                            }
                        }
                    }
                }
            }
            i += 1;
        }
        proof {
            assert forall|k: int| 0 <= k < res.len() implies has_category(self@, (#[trigger] res@[k])@) by {
                let j = src[k];
                assert(self@[es[j].0@] == es[j].1);
                assert(self@.contains_key(es[j].0@));
            }
            assert forall|key: Seq<char>| #[trigger] self@.contains_key(key) implies exists|k: int|
                0 <= k < res.len() && (#[trigger] res@[k])@ == self@[key].category@ by {
                let j = choose|j: int| 0 <= j < es.len() && es[j].0@ == key;
                assert(self@[es[j].0@] == es[j].1);
                assert(res@[at[j]]@ == self@[key].category@);
            }
        }
        res
    }

    /// Display name of a category.
    pub fn category_display_name(category: &str) -> (res: &'static str)
        ensures
            res@ == category_display_text(category@),
    {
        if str_eq(category, "windows") {
            "Windows"
        } else if str_eq(category, "linux") {
            "Linux"
        } else if str_eq(category, "bsd") {
            "BSD"
        } else if str_eq(category, "unix") {
            "Unix"
        } else if str_eq(category, "classic-mac") {
            "Classic Mac"
        } else if str_eq(category, "macos") {
            "macOS"
        } else if str_eq(category, "alternative") {
            "Alternative"
        } else if str_eq(category, "retro") {
            "Retro"
        } else if str_eq(category, "mobile") {
            "Mobile / Android"
        } else if str_eq(category, "infrastructure") {
            "Infrastructure"
        } else if str_eq(category, "utilities") {
            "Utilities"
        } else {
            "Other"
        }
    }

    /// The id of the generic profile for a category.
    pub fn generic_profile_for_category(category: &str) -> (res: &'static str)
        ensures
            res@ == generic_profile_id(category@),
    {
        if str_eq(category, "windows") {
            "generic-windows"
        } else if str_eq(category, "linux") {
            "generic-linux"
        } else if str_eq(category, "bsd") {
            "generic-bsd"
        } else {
            "generic-other"
        }
    }

    fn len_entries(&self) -> (n: usize)
        ensures
            n == self.profiles.entries().len(),
    {
        proof {
            use_type_invariant(self);
        }
        self.profiles.len()
    }
}

} // verus!
