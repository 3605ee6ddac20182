//! Single GPU passthrough: the only (or primary) GPU is handed to a guest,
//! which needs the display manager stopped and the host driver unloaded.

use vstd::prelude::*;
use super::pci::{gpu_audio_pair, is_gpu_class, PciDevice, PciDeviceView};
use crate::text::{has_infix, has_suffix, join, join_strings, str_eq, views};

pub mod round_trip;

verus! {

/// Supported display managers (systemd-based only).
#[derive(Debug)]
pub enum DisplayManager {
    Gdm,
    Sddm,
    Lightdm,
    Unknown(String),
}

/// A display manager with its name as a character sequence.
pub enum DisplayManagerView {
    Gdm,
    Sddm,
    Lightdm,
    Unknown(Seq<char>),
}

impl View for DisplayManager {
    type V = DisplayManagerView;

    open spec fn view(&self) -> DisplayManagerView {
        match self {
            DisplayManager::Gdm => DisplayManagerView::Gdm,
            DisplayManager::Sddm => DisplayManagerView::Sddm,
            DisplayManager::Lightdm => DisplayManagerView::Lightdm,
            DisplayManager::Unknown(n) => DisplayManagerView::Unknown(n@),
        }
    }
}

/// systemd service name of a display manager.
pub open spec fn dm_service_name(d: DisplayManagerView) -> Seq<char> {
    match d {
        DisplayManagerView::Gdm => "gdm"@,
        DisplayManagerView::Sddm => "sddm"@,
        DisplayManagerView::Lightdm => "lightdm"@,
        DisplayManagerView::Unknown(n) => n,
    }
}

/// Display manager named by a service name.
pub open spec fn dm_of_name(n: Seq<char>) -> DisplayManagerView {
    if n == "gdm"@ {
        DisplayManagerView::Gdm
    } else if n == "sddm"@ {
        DisplayManagerView::Sddm
    } else if n == "lightdm"@ {
        DisplayManagerView::Lightdm
    } else {
        DisplayManagerView::Unknown(n)
    }
}

impl Clone for DisplayManager {
    fn clone(&self) -> (res: Self)
        ensures
            res@ == self@,
    {
        match self {
            DisplayManager::Gdm => DisplayManager::Gdm,
            DisplayManager::Sddm => DisplayManager::Sddm,
            DisplayManager::Lightdm => DisplayManager::Lightdm,
            DisplayManager::Unknown(n) => DisplayManager::Unknown(n.clone()),
        }
    }
}

impl DisplayManager {
    /// The systemd service name of this display manager.
    pub fn service_name(&self) -> (res: &str)
        ensures
            res@ == dm_service_name(self@),
    {
        match self {
            DisplayManager::Gdm => "gdm",
            DisplayManager::Sddm => "sddm",
            DisplayManager::Lightdm => "lightdm",
            DisplayManager::Unknown(name) => name.as_str(),
        }
    }

    /// Name shown in the user interface.
    pub fn display_name(&self) -> (res: &str)
        ensures
            res@ == (match self@ {
                DisplayManagerView::Gdm => "GDM (GNOME)"@,
                DisplayManagerView::Sddm => "SDDM (KDE)"@,
                DisplayManagerView::Lightdm => "LightDM"@,
                DisplayManagerView::Unknown(n) => n,
            }),
    {
        match self {
            DisplayManager::Gdm => "GDM (GNOME)",
            DisplayManager::Sddm => "SDDM (KDE)",
            DisplayManager::Lightdm => "LightDM",
            DisplayManager::Unknown(name) => name.as_str(),
        }
    }

    /// The display manager for a service name.
    pub fn from_service_name(name: &str) -> (res: Self)
        ensures
            res@ == dm_of_name(name@),
    {
        if str_eq(name, "gdm") {
            DisplayManager::Gdm
        } else if str_eq(name, "sddm") {
            DisplayManager::Sddm
        } else if str_eq(name, "lightdm") {
            DisplayManager::Lightdm
        } else {
            DisplayManager::Unknown(String::from_str(name))
        }
    }
}

/// GPU driver types.
#[derive(Debug)]
pub enum GpuDriver {
    Nvidia,
    Amdgpu,
    I915,
    Nouveau,
    Radeon,
    Other(String),
}

/// A GPU driver with its name as a character sequence.
pub enum GpuDriverView {
    Nvidia,
    Amdgpu,
    I915,
    Nouveau,
    Radeon,
    Other(Seq<char>),
}

impl View for GpuDriver {
    type V = GpuDriverView;

    open spec fn view(&self) -> GpuDriverView {
        match self {
            GpuDriver::Nvidia => GpuDriverView::Nvidia,
            GpuDriver::Amdgpu => GpuDriverView::Amdgpu,
            GpuDriver::I915 => GpuDriverView::I915,
            GpuDriver::Nouveau => GpuDriverView::Nouveau,
            GpuDriver::Radeon => GpuDriverView::Radeon,
            GpuDriver::Other(n) => GpuDriverView::Other(n@),
        }
    }
}

/// Kernel module name of a driver.
pub open spec fn driver_module_name(d: GpuDriverView) -> Seq<char> {
    match d {
        GpuDriverView::Nvidia => "nvidia"@,
        GpuDriverView::Amdgpu => "amdgpu"@,
        GpuDriverView::I915 => "i915"@,
        GpuDriverView::Nouveau => "nouveau"@,
        GpuDriverView::Radeon => "radeon"@,
        GpuDriverView::Other(n) => n,
    }
}

/// Driver named by a kernel module name.
pub open spec fn driver_of_name(n: Seq<char>) -> GpuDriverView {
    if n == "nvidia"@ {
        GpuDriverView::Nvidia
    } else if n == "amdgpu"@ {
        GpuDriverView::Amdgpu
    } else if n == "i915"@ {
        GpuDriverView::I915
    } else if n == "nouveau"@ {
        GpuDriverView::Nouveau
    } else if n == "radeon"@ {
        GpuDriverView::Radeon
    } else {
        GpuDriverView::Other(n)
    }
}

impl Clone for GpuDriver {
    fn clone(&self) -> (res: Self)
        ensures
            res@ == self@,
    {
        match self {
            GpuDriver::Nvidia => GpuDriver::Nvidia,
            GpuDriver::Amdgpu => GpuDriver::Amdgpu,
            GpuDriver::I915 => GpuDriver::I915,
            GpuDriver::Nouveau => GpuDriver::Nouveau,
            GpuDriver::Radeon => GpuDriver::Radeon,
            GpuDriver::Other(n) => GpuDriver::Other(n.clone()),
        }
    }
}

impl GpuDriver {
    /// The kernel module name.
    pub fn module_name(&self) -> (res: &str)
        ensures
            res@ == driver_module_name(self@),
    {
        match self {
            GpuDriver::Nvidia => "nvidia",
            GpuDriver::Amdgpu => "amdgpu",
            GpuDriver::I915 => "i915",
            GpuDriver::Nouveau => "nouveau",
            GpuDriver::Radeon => "radeon",
            GpuDriver::Other(name) => name.as_str(),
        }
    }

    /// Modules to unload before the GPU can be released, dependants first.
    pub fn dependent_modules(&self) -> (res: Vec<&'static str>)
        ensures
            res@.map_values(|s: &str| s@) == (match self@ {
                GpuDriverView::Nvidia => seq![
                    "nvidia_drm"@,
                    "nvidia_modeset"@,
                    "nvidia_uvm"@,
                    "nvidia"@,
                ],
                GpuDriverView::Amdgpu => seq!["amdgpu"@],
                GpuDriverView::I915 => seq!["i915"@],
                GpuDriverView::Nouveau => seq!["nouveau"@],
                GpuDriverView::Radeon => seq!["radeon"@],
                GpuDriverView::Other(_) => Seq::<Seq<char>>::empty(),
            }),
    {
        let mut v: Vec<&'static str> = Vec::new();
        match self {
            GpuDriver::Nvidia => {
                v.push("nvidia_drm");
                v.push("nvidia_modeset");
                v.push("nvidia_uvm");
                v.push("nvidia");
            },
            GpuDriver::Amdgpu => {
                v.push("amdgpu");
            },
            GpuDriver::I915 => {
                v.push("i915");
            },
            GpuDriver::Nouveau => {
                v.push("nouveau");
            },
            GpuDriver::Radeon => {
                v.push("radeon");
            },
            GpuDriver::Other(_) => {},
        }
        proof {
            assert(v@.map_values(|s: &str| s@) =~= (match self@ {
                GpuDriverView::Nvidia => seq![
                    "nvidia_drm"@,
                    "nvidia_modeset"@,
                    "nvidia_uvm"@,
                    "nvidia"@,
                ],
                GpuDriverView::Amdgpu => seq!["amdgpu"@],
                GpuDriverView::I915 => seq!["i915"@],
                GpuDriverView::Nouveau => seq!["nouveau"@],
                GpuDriverView::Radeon => seq!["radeon"@],
                GpuDriverView::Other(_) => Seq::<Seq<char>>::empty(),
            }));
        }
        v
    }

    /// The driver for a kernel module name.
    pub fn from_module_name(name: &str) -> (res: Self)
        ensures
            res@ == driver_of_name(name@),
    {
        if str_eq(name, "nvidia") {
            GpuDriver::Nvidia
        } else if str_eq(name, "amdgpu") {
            GpuDriver::Amdgpu
        } else if str_eq(name, "i915") {
            GpuDriver::I915
        } else if str_eq(name, "nouveau") {
            GpuDriver::Nouveau
        } else if str_eq(name, "radeon") {
            GpuDriver::Radeon
        } else {
            GpuDriver::Other(String::from_str(name))
        }
    }
}

/// The driver a GPU uses: its bound driver, else a guess from the vendor.
pub open spec fn gpu_driver_of(d: PciDevice) -> GpuDriverView {
    match d.driver {
        Some(n) => driver_of_name(n@),
        None => if d.vendor_id == 0x10de {
            GpuDriverView::Nvidia
        } else if d.vendor_id == 0x1002 {
            GpuDriverView::Amdgpu
        } else if d.vendor_id == 0x8086 {
            GpuDriverView::I915
        } else {
            GpuDriverView::Other("unknown"@)
        },
    }
}

/// Detects the GPU driver of a PCI device.
pub fn detect_gpu_driver(device: &PciDevice) -> (res: GpuDriver)
    ensures
        res@ == gpu_driver_of(*device),
{
    match &device.driver {
        Some(driver) => GpuDriver::from_module_name(driver.as_str()),
        None => {
            if device.is_nvidia() {
                GpuDriver::Nvidia
            } else if device.is_amd() {
                GpuDriver::Amdgpu
            } else if device.is_intel() {
                GpuDriver::I915
            } else {
                GpuDriver::Other(String::from_str("unknown"))
            }
        },
    }
}

/// Single GPU passthrough configuration.
#[derive(Debug)]
pub struct SingleGpuConfig {
    /// The GPU device to pass through
    pub gpu: PciDevice,
    /// Associated audio device (if any)
    pub audio: Option<PciDevice>,
    /// All devices in the IOMMU group
    pub iommu_group_devices: Vec<PciDevice>,
    /// Original driver the GPU was using
    pub original_driver: GpuDriver,
    /// Detected display manager
    pub display_manager: DisplayManager,
    /// Path of a GPU ROM (vBIOS) file to give the GPU, if any
    pub gpu_rom: Option<String>,
}

/// A single GPU configuration with its text fields as character sequences.
pub struct SingleGpuConfigView {
    pub gpu: PciDeviceView,
    pub audio: Option<PciDeviceView>,
    pub iommu_group_devices: Seq<PciDeviceView>,
    pub original_driver: GpuDriverView,
    pub display_manager: DisplayManagerView,
    pub gpu_rom: Option<Seq<char>>,
}

impl View for SingleGpuConfig {
    type V = SingleGpuConfigView;

    open spec fn view(&self) -> SingleGpuConfigView {
        SingleGpuConfigView {
            gpu: self.gpu@,
            audio: match self.audio {
                Some(a) => Some(a@),
                None => None,
            },
            iommu_group_devices: self.iommu_group_devices@.map_values(|d: PciDevice| d@),
            original_driver: self.original_driver@,
            display_manager: self.display_manager@,
            gpu_rom: super::pci::opt_view(self.gpu_rom),
        }
    }
}

impl SingleGpuConfig {
    /// Configuration for `gpu`: its audio pair, its IOMMU group (`group_devices`),
    /// its current driver and the host's display manager.
    pub fn new(
        gpu: PciDevice,
        all_devices: &[PciDevice],
        group_devices: Vec<PciDevice>,
        display_manager: DisplayManager,
    ) -> (res: Self)
        ensures
            res.gpu == gpu,
            res.audio == gpu_audio_pair(gpu, all_devices@, group_devices@),
            res.iommu_group_devices@ == group_devices@,
            res.original_driver@ == gpu_driver_of(gpu),
            res.display_manager == display_manager,
            res.gpu_rom is None,
    {
        let audio = super::pci::find_gpu_audio_pair(&gpu, all_devices, group_devices.as_slice());
        let original_driver = detect_gpu_driver(&gpu);
        SingleGpuConfig {
            gpu,
            audio,
            iommu_group_devices: group_devices,
            original_driver,
            display_manager,
            gpu_rom: None,
        }
    }

    /// PCI addresses that are unbound and rebound: the GPU, then its audio device.
    pub fn all_passthrough_addresses(&self) -> (res: Vec<&str>)
        ensures
            res@.map_values(|s: &str| s@) == seq![self.gpu.address@] + (match self.audio {
                Some(a) => seq![a.address@],
                None => Seq::<Seq<char>>::empty(),
            }),
    {
        let mut addrs: Vec<&str> = Vec::new();
        addrs.push(self.gpu.address.as_str());
        match &self.audio {
            Some(audio) => {
                addrs.push(audio.address.as_str());
            },
            None => {},
        }
        proof {
            assert(addrs@.map_values(|s: &str| s@) =~= seq![self.gpu.address@] + (match self.audio {
                Some(a) => seq![a.address@],
                None => Seq::<Seq<char>>::empty(),
            }));
        }
        addrs
    }
}

} // verus!

verus! {

/// Single GPU passthrough support status.
#[derive(Debug)]
pub struct SingleGpuSupport {
    /// IOMMU is enabled
    pub iommu_enabled: bool,
    /// VFIO modules are available
    pub vfio_available: bool,
    /// The boot VGA device (if found)
    pub boot_vga: Option<PciDevice>,
    /// System has only one GPU
    pub has_single_gpu: bool,
    /// Detected display manager
    pub display_manager: Option<DisplayManager>,
}

impl Default for SingleGpuSupport {
    /// Nothing found: no IOMMU, no VFIO, no boot GPU, no display manager.
    fn default() -> (res: Self)
        ensures
            !res.iommu_enabled,
            !res.vfio_available,
            res.boot_vga is None,
            !res.has_single_gpu,
            res.display_manager is None,
    {
        SingleGpuSupport {
            iommu_enabled: false,
            vfio_available: false,
            boot_vga: None,
            has_single_gpu: false,
            display_manager: None,
        }
    }
}

/// Single GPU passthrough is possible: IOMMU on, VFIO present, a boot GPU.
pub open spec fn single_gpu_supported(s: SingleGpuSupport) -> bool {
    s.iommu_enabled && s.vfio_available && s.boot_vga is Some
}

/// What keeps single GPU passthrough from being available, in order.
pub open spec fn single_gpu_issues(s: SingleGpuSupport) -> Seq<Seq<char>> {
    (if !s.iommu_enabled {
        seq!["IOMMU not enabled"@]
    } else {
        seq![]
    }) + (if !s.vfio_available {
        seq!["VFIO modules not available"@]
    } else {
        seq![]
    }) + (if s.boot_vga is None {
        seq!["No boot VGA device found"@]
    } else {
        seq![]
    })
}

impl SingleGpuSupport {
    /// Whether basic single GPU passthrough is possible.
    pub fn is_supported(&self) -> (res: bool)
        ensures
            res == single_gpu_supported(*self),
    {
        self.iommu_enabled && self.vfio_available && self.boot_vga.is_some()
    }

    /// A one-line summary of the support status.
    pub fn summary(&self) -> (res: String)
        ensures
            res@ == (if single_gpu_supported(*self) {
                "Single GPU passthrough is available"@
            } else {
                "Not available: "@ + join(single_gpu_issues(*self), ", "@)
            }),
    {
        if self.is_supported() {
            String::from_str("Single GPU passthrough is available")
        } else {
            let mut issues: Vec<String> = Vec::new();
            if !self.iommu_enabled {
                issues.push(String::from_str("IOMMU not enabled"));
            }
            if !self.vfio_available {
                issues.push(String::from_str("VFIO modules not available"));
            }
            if self.boot_vga.is_none() {
                issues.push(String::from_str("No boot VGA device found"));
            }
            proof {
                assert(views(issues@) =~= single_gpu_issues(*self));
            }
            let mut s = String::from_str("Not available: ");
            s.append(join_strings(&issues, ", ").as_str());
            s
        }
    }
}

/// First device flagged as boot VGA.
pub open spec fn first_boot_vga(ds: Seq<PciDevice>) -> Option<PciDevice>
    decreases ds.len(),
{
    if ds.len() == 0 {
        None
    } else if ds[0].is_boot_vga {
        Some(ds[0])
    } else {
        first_boot_vga(ds.drop_first())
    }
}

/// Number of GPUs among the devices.
pub open spec fn gpu_count(ds: Seq<PciDevice>) -> nat
    decreases ds.len(),
{
    if ds.len() == 0 {
        0
    } else {
        gpu_count(ds.drop_last()) + (if is_gpu_class(ds.last().class_code) {
            1nat
        } else {
            0nat
        })
    }
}

/// A device of a GPU class, as a predicate.
pub open spec fn gpu_pred() -> spec_fn(PciDevice) -> bool {
    |d: PciDevice| is_gpu_class(d.class_code)
}

/// The GPU count is the number of devices of a GPU class.
pub proof fn lemma_gpu_count_counts_gpus(ds: Seq<PciDevice>)
    ensures
        gpu_count(ds) == ds.filter(gpu_pred()).len(),
    decreases ds.len(),
{
    reveal_with_fuel(Seq::filter, 1);
    if ds.len() > 0 {
        lemma_gpu_count_counts_gpus(ds.drop_last());
    }
}

/// A list holding a GPU counts at least one.
pub proof fn lemma_gpu_counted(ds: Seq<PciDevice>, i: int)
    requires
        0 <= i < ds.len(),
        is_gpu_class(ds[i].class_code),
    ensures
        gpu_count(ds) >= 1,
    decreases ds.len(),
{
    if i < ds.len() - 1 {
        assert(ds.drop_last()[i] == ds[i]);
        lemma_gpu_counted(ds.drop_last(), i);
    }
}

/// A list holding GPUs at two positions counts at least two, so it is never
/// taken for a single-GPU system.
pub proof fn lemma_two_gpus_counted(ds: Seq<PciDevice>, i: int, j: int)
    requires
        0 <= i < j < ds.len(),
        is_gpu_class(ds[i].class_code),
        is_gpu_class(ds[j].class_code),
    ensures
        gpu_count(ds) >= 2,
    decreases ds.len(),
{
    assert(ds.drop_last()[i] == ds[i]);
    if j == ds.len() - 1 {
        lemma_gpu_counted(ds.drop_last(), i);
    } else {
        assert(ds.drop_last()[j] == ds[j]);
        lemma_two_gpus_counted(ds.drop_last(), i, j);
    }
}

/// Single GPU passthrough support from the IOMMU and VFIO probes, the
/// enumerated PCI devices (`None` when enumeration failed) and the detected
/// display manager.
pub fn check_single_gpu_support(
    iommu_enabled: bool,
    vfio_available: bool,
    devices: Option<Vec<PciDevice>>,
    display_manager: DisplayManager,
) -> (res: SingleGpuSupport)
    ensures
        res.iommu_enabled == iommu_enabled,
        res.vfio_available == vfio_available,
        res.display_manager == Some(display_manager),
        match devices {
            Some(ds) => res.boot_vga == first_boot_vga(ds@) && res.has_single_gpu == (gpu_count(
                ds@,
            ) == 1),
            None => res.boot_vga is None && !res.has_single_gpu,
        },
{
    let (boot_vga, has_single_gpu) = match &devices {
        Some(ds) => {
            let mut i: usize = 0;
            proof {
                assert(ds@.skip(0) == ds@);
            }
            while i < ds.len() && !ds[i].is_boot_vga
                invariant
                    i <= ds@.len(),
                    first_boot_vga(ds@) == first_boot_vga(ds@.skip(i as int)),
                decreases ds@.len() - i,
            {
                proof {
                    assert(ds@.skip(i as int)[0] == ds@[i as int]);
                    assert(ds@.skip(i as int).drop_first() == ds@.skip(i + 1));
                }
                i += 1;
            }
            let boot = if i < ds.len() {
                proof {
                    assert(ds@.skip(i as int)[0] == ds@[i as int]);
                }
                Some(ds[i].clone())
            } else {
                proof {
                    assert(ds@.skip(i as int).len() == 0);
                }
                None
            };
            let mut count: usize = 0;
            let mut j: usize = 0;
            while j < ds.len()
                invariant
                    j <= ds@.len(),
                    count == gpu_count(ds@.take(j as int)),
                    count <= j,
                decreases ds@.len() - j,
            {
                proof {
                    assert(ds@.take(j + 1).drop_last() == ds@.take(j as int));
                    assert(ds@.take(j + 1).last() == ds@[j as int]);
                }
                if ds[j].is_gpu() {
                    count += 1;
                }
                j += 1;
            }
            proof {
                assert(ds@.take(ds@.len() as int) == ds@);
            }
            (boot, count == 1)
        },
        None => (None, false),
    };
    SingleGpuSupport {
        iommu_enabled,
        vfio_available,
        boot_vga,
        has_single_gpu,
        display_manager: Some(display_manager),
    }
}

/// The display manager a link target or configuration text names, when it
/// mentions gdm, sddm or lightdm (checked in that order).
pub open spec fn dm_mentioned(text: Seq<char>) -> Option<DisplayManagerView> {
    if has_infix(text, "gdm"@) {
        Some(DisplayManagerView::Gdm)
    } else if has_infix(text, "sddm"@) {
        Some(DisplayManagerView::Sddm)
    } else if has_infix(text, "lightdm"@) {
        Some(DisplayManagerView::Lightdm)
    } else {
        None
    }
}

/// Decision of `detect_display_manager` from what the host reported:
/// whether gdm, sddm and lightdm are active (in that order), the default
/// systemd target, the `display-manager.service` link target and its last
/// component, and `/etc/X11/default-display-manager`.
pub open spec fn display_manager_choice(
    active: Seq<bool>,
    default_target: Option<Seq<char>>,
    link: Option<Seq<char>>,
    link_name: Option<Seq<char>>,
    x11_default: Option<Seq<char>>,
) -> DisplayManagerView {
    if active[0] {
        DisplayManagerView::Gdm
    } else if active[1] {
        DisplayManagerView::Sddm
    } else if active[2] {
        DisplayManagerView::Lightdm
    } else if default_target is Some && has_infix(default_target->0, "graphical"@) && link is Some
        && (dm_mentioned(link->0) is Some || (link_name is Some && has_suffix(
        link_name->0,
        ".service"@,
    ))) {
        match dm_mentioned(link->0) {
            Some(d) => d,
            None => DisplayManagerView::Unknown(
                link_name->0.take(link_name->0.len() - ".service"@.len()),
            ),
        }
    } else if x11_default is Some && dm_mentioned(crate::text::trim_ws(x11_default->0)) is Some {
        dm_mentioned(crate::text::trim_ws(x11_default->0))->0
    } else {
        DisplayManagerView::Unknown("display-manager"@)
    }
}

fn dm_from_text(text: &str) -> (res: Option<DisplayManager>)
    ensures
        match dm_mentioned(text@) {
            Some(d) => res matches Some(r) && r@ == d,
            None => res is None,
        },
{
    if crate::text::contains(text, "gdm") {
        Some(DisplayManager::Gdm)
    } else if crate::text::contains(text, "sddm") {
        Some(DisplayManager::Sddm)
    } else if crate::text::contains(text, "lightdm") {
        Some(DisplayManager::Lightdm)
    } else {
        None
    }
}

/// Picks the running display manager from what the host reported (see
/// `display_manager_choice`); `active` holds the gdm, sddm and lightdm probes.
pub fn detect_display_manager(
    active: &[bool],
    default_target: Option<&str>,
    link: Option<&str>,
    link_name: Option<&str>,
    x11_default: Option<&str>,
) -> (res: DisplayManager)
    requires
        active@.len() == 3,
    ensures
        res@ == display_manager_choice(
            active@,
            match default_target {
                Some(t) => Some(t@),
                None => None,
            },
            match link {
                Some(t) => Some(t@),
                None => None,
            },
            match link_name {
                Some(t) => Some(t@),
                None => None,
            },
            match x11_default {
                Some(t) => Some(t@),
                None => None,
            },
        ),
{
    if active[0] {
        return DisplayManager::Gdm;
    }
    if active[1] {
        return DisplayManager::Sddm;
    }
    if active[2] {
        return DisplayManager::Lightdm;
    }
    match default_target {
        Some(target) => {
            if crate::text::contains(target, "graphical") {
                match link {
                    Some(l) => {
                        match dm_from_text(l) {
                            Some(d) => {
                                return d;
                            },
                            None => {
                                match link_name {
                                    Some(n) => {
                                        let cs = crate::text::chars_of(n);
                                        if crate::text::range_ends_with(
                                            &cs,
                                            0,
                                            cs.len(),
                                            ".service",
                                        ) {
                                            proof {
                                                assert(cs@.subrange(0, cs@.len() as int) == cs@);
                                                reveal_strlit(".service");
                                            }
                                            let stem = crate::text::slice_range(
                                                &cs,
                                                0,
                                                cs.len() - 8,
                                            );
                                            return DisplayManager::Unknown(
                                                crate::text::string_of(stem.as_slice()),
                                            );
                                        }
                                        proof {
                                            assert(cs@.subrange(0, cs@.len() as int) == cs@);
                                        }
                                    },
                                    None => {},
                                }
                            },
                        }
                    },
                    None => {},
                }
            }
        },
        None => {},
    }
    match x11_default {
        Some(content) => {
            let t = crate::text::trim(content);
            match dm_from_text(t.as_str()) {
                Some(d) => {
                    return d;
                },
                None => {},
            }
        },
        None => {},
    }
    DisplayManager::Unknown(String::from_str("display-manager"))
}

} // verus!

verus! {

/// `key = "value"`.
pub open spec fn quoted_line(key: Seq<char>, val: Seq<char>) -> Seq<char> {
    key + " = \""@ + val + "\""@
}

/// `s` with each `"` written as `\"`.
pub open spec fn escape_quotes(s: Seq<char>) -> Seq<char> {
    crate::text::replace_char(s, '"', "\\\""@)
}

/// The lines describing one device in the configuration file.
pub open spec fn device_field_lines(d: PciDeviceView) -> Seq<Seq<char>> {
    seq![
        quoted_line("address"@, d.address),
        quoted_line("vendor_id"@, "0x"@ + crate::text::hex(d.vendor_id as nat, 4)),
        quoted_line("device_id"@, "0x"@ + crate::text::hex(d.device_id as nat, 4)),
        quoted_line("vendor_name"@, escape_quotes(d.vendor_name)),
        quoted_line("device_name"@, escape_quotes(d.device_name)),
        quoted_line("class_code"@, "0x"@ + crate::text::hex(d.class_code as nat, 6)),
    ] + (match d.driver {
        Some(v) => seq![quoted_line("driver"@, v)],
        None => Seq::<Seq<char>>::empty(),
    }) + (match d.iommu_group {
        Some(g) => seq!["iommu_group = "@ + crate::text::dec(g as nat)],
        None => Seq::<Seq<char>>::empty(),
    })
}

/// The lines of the persisted single GPU configuration file.
pub open spec fn config_lines(c: SingleGpuConfigView) -> Seq<Seq<char>> {
    seq![
        "# Single GPU Passthrough Configuration"@,
        "# Generated by vm-curator - do not edit manually"@,
        Seq::<char>::empty(),
        "[gpu]"@,
    ] + device_field_lines(c.gpu) + seq![
        "is_boot_vga = "@ + (if c.gpu.is_boot_vga {
            "true"@
        } else {
            "false"@
        }),
    ] + (match c.audio {
        Some(a) => seq![Seq::<char>::empty(), "[audio]"@] + device_field_lines(a),
        None => Seq::<Seq<char>>::empty(),
    }) + seq![
        Seq::<char>::empty(),
        "[settings]"@,
        quoted_line("original_driver"@, driver_module_name(c.original_driver)),
        quoted_line("display_manager"@, dm_service_name(c.display_manager)),
    ] + rom_lines(c.gpu_rom)
}

/// The GPU ROM line, written only where a ROM is set.
pub open spec fn rom_lines(rom: Option<Seq<char>>) -> Seq<Seq<char>> {
    match rom {
        Some(r) => seq![quoted_line("gpu_rom"@, r)],
        None => Seq::<Seq<char>>::empty(),
    }
}

fn push_line(lines: &mut Vec<String>, line: String)
    ensures
        views(final(lines)@) == views(old(lines)@).push(line@),
{
    lines.push(line);
    proof {
        assert(views(lines@) =~= views(old(lines)@).push(line@));
    }
}

fn quoted(key: &str, val: &str) -> (res: String)
    ensures
        res@ == quoted_line(key@, val@),
{
    let mut s = String::from_str(key);
    s.append(" = \"");
    s.append(val);
    s.append("\"");
    s
}

fn hex_value(v: u64, w: usize) -> (res: String)
    ensures
        res@ == "0x"@ + crate::text::hex(v as nat, w as nat),
{
    let mut s = String::from_str("0x");
    crate::text::push_hex(&mut s, v, w);
    s
}

fn escaped(s: &str) -> (res: String)
    ensures
        res@ == escape_quotes(s@),
{
    let mut out = String::new();
    crate::text::push_replaced(&mut out, s, '"', "\\\"");
    proof {
        assert(Seq::<char>::empty() + escape_quotes(s@) =~= escape_quotes(s@));
    }
    out
}

fn push_device_lines(lines: &mut Vec<String>, d: &PciDevice)
    ensures
        views(final(lines)@) == views(old(lines)@) + device_field_lines(d@),
{
    let ghost start = views(lines@);
    push_line(lines, quoted("address", d.address.as_str()));
    push_line(lines, quoted("vendor_id", hex_value(d.vendor_id as u64, 4).as_str()));
    push_line(lines, quoted("device_id", hex_value(d.device_id as u64, 4).as_str()));
    push_line(lines, quoted("vendor_name", escaped(d.vendor_name.as_str()).as_str()));
    push_line(lines, quoted("device_name", escaped(d.device_name.as_str()).as_str()));
    push_line(lines, quoted("class_code", hex_value(d.class_code as u64, 6).as_str()));
    let ghost mid = views(lines@);
    proof {
        assert(mid =~= start + device_field_lines(d@).take(6));
    }
    match &d.driver {
        Some(drv) => {
            push_line(lines, quoted("driver", drv.as_str()));
        },
        None => {},
    }
    let ghost mid2 = views(lines@);
    match d.iommu_group {
        Some(g) => {
            let mut s = String::from_str("iommu_group = ");
            crate::text::push_dec(&mut s, g as u64);
            push_line(lines, s);
        },
        None => {},
    }
    proof {
        assert(views(lines@) =~= start + device_field_lines(d@));
    }
}

/// Text of the configuration file persisting `config` (single-gpu-config.toml).
#[verifier::spinoff_prover]
#[verifier::rlimit(40)]
pub fn config_file_content(config: &SingleGpuConfig) -> (res: String)
    ensures
        res@ == crate::text::join_lines(config_lines(config@)),
{
    let mut lines: Vec<String> = Vec::new();
    push_line(&mut lines, String::from_str("# Single GPU Passthrough Configuration"));
    push_line(&mut lines, String::from_str("# Generated by vm-curator - do not edit manually"));
    push_line(&mut lines, String::new());
    push_line(&mut lines, String::from_str("[gpu]"));
    push_device_lines(&mut lines, &config.gpu);
    let mut b = String::from_str("is_boot_vga = ");
    if config.gpu.is_boot_vga {
        b.append("true");
    } else {
        b.append("false");
    }
    push_line(&mut lines, b);
    let ghost after_gpu = views(lines@);
    match &config.audio {
        Some(audio) => {
            push_line(&mut lines, String::new());
            push_line(&mut lines, String::from_str("[audio]"));
            push_device_lines(&mut lines, audio);
        },
        None => {},
    }
    let ghost after_audio = views(lines@);
    proof {
        assert(after_audio =~= after_gpu + (match config@.audio {
            Some(a) => seq![Seq::<char>::empty(), "[audio]"@] + device_field_lines(a),
            None => Seq::<Seq<char>>::empty(),
        }));
    }
    push_line(&mut lines, String::new());
    push_line(&mut lines, String::from_str("[settings]"));
    push_line(&mut lines, quoted("original_driver", config.original_driver.module_name()));
    push_line(&mut lines, quoted("display_manager", config.display_manager.service_name()));
    let ghost before_rom = views(lines@);
    match &config.gpu_rom {
        Some(rom) => push_line(&mut lines, quoted("gpu_rom", rom.as_str())),
        None => {},
    }
    proof {
        assert(views(lines@) =~= before_rom + rom_lines(config@.gpu_rom));
        assert(views(lines@) =~= config_lines(config@));
    }
    crate::text::join_lines_of(&lines)
}

} // verus!

verus! {

/// What the configuration reader has collected after some lines: the current
/// section and the last value read for each known key.
pub struct ScanState {
    pub section: Seq<char>,
    pub gpu_address: Seq<char>,
    pub gpu_vendor_id: u16,
    pub gpu_device_id: u16,
    pub gpu_vendor_name: Seq<char>,
    pub gpu_device_name: Seq<char>,
    pub gpu_class: u32,
    pub gpu_driver: Option<Seq<char>>,
    pub gpu_iommu_group: Option<u32>,
    pub gpu_is_boot_vga: bool,
    pub audio_address: Option<Seq<char>>,
    pub audio_vendor_id: u16,
    pub audio_device_id: u16,
    pub audio_vendor_name: Seq<char>,
    pub audio_device_name: Seq<char>,
    pub audio_class: u32,
    pub audio_driver: Option<Seq<char>>,
    pub audio_iommu_group: Option<u32>,
    pub original_driver: Seq<char>,
    pub display_manager: Seq<char>,
    pub gpu_rom: Option<Seq<char>>,
}

/// The scan state before the first line of a configuration file.
pub open spec fn scan_start() -> ScanState {
    ScanState {
        section: seq![],
        gpu_address: seq![],
        gpu_vendor_id: 0,
        gpu_device_id: 0,
        gpu_vendor_name: seq![],
        gpu_device_name: seq![],
        gpu_class: 0,
        gpu_driver: None,
        gpu_iommu_group: None,
        gpu_is_boot_vga: false,
        audio_address: None,
        audio_vendor_id: 0,
        audio_device_id: 0,
        audio_vendor_name: seq![],
        audio_device_name: seq![],
        audio_class: 0,
        audio_driver: None,
        audio_iommu_group: None,
        original_driver: seq![],
        display_manager: seq![],
        gpu_rom: None,
    }
}

/// A `vendor_id`/`device_id` value: every leading "0x" removed, then base 16; 0 when invalid.
pub open spec fn hex16_value(v: Seq<char>) -> u16 {
    match crate::text::parse_unsigned(crate::text::trim_start_all(v, "0x"@), 16, 0xffff) {
        Some(x) => x as u16,
        None => 0,
    }
}

/// A `class_code` value: every leading "0x" removed, then base 16; 0 when invalid.
pub open spec fn hex32_value(v: Seq<char>) -> u32 {
    match crate::text::parse_unsigned(crate::text::trim_start_all(v, "0x"@), 16, 0xffff_ffff) {
        Some(x) => x as u32,
        None => 0,
    }
}

/// An `iommu_group` value: a decimal `u32`, or nothing.
pub open spec fn group_value(v: Seq<char>) -> Option<u32> {
    match crate::text::parse_u32_spec(v) {
        Some(x) => Some(x as u32),
        None => None,
    }
}

/// Records `key = value` in the current section.
pub open spec fn scan_assign(st: ScanState, key: Seq<char>, value: Seq<char>) -> ScanState {
    if st.section == "gpu"@ {
        if key == "address"@ {
            ScanState { gpu_address: value, ..st }
        } else if key == "vendor_id"@ {
            ScanState { gpu_vendor_id: hex16_value(value), ..st }
        } else if key == "device_id"@ {
            ScanState { gpu_device_id: hex16_value(value), ..st }
        } else if key == "vendor_name"@ {
            ScanState { gpu_vendor_name: value, ..st }
        } else if key == "device_name"@ {
            ScanState { gpu_device_name: value, ..st }
        } else if key == "class_code"@ {
            ScanState { gpu_class: hex32_value(value), ..st }
        } else if key == "driver"@ {
            ScanState { gpu_driver: Some(value), ..st }
        } else if key == "iommu_group"@ {
            ScanState { gpu_iommu_group: group_value(value), ..st }
        } else if key == "is_boot_vga"@ {
            ScanState { gpu_is_boot_vga: value == "true"@, ..st }
        } else {
            st
        }
    } else if st.section == "audio"@ {
        if key == "address"@ {
            ScanState { audio_address: Some(value), ..st }
        } else if key == "vendor_id"@ {
            ScanState { audio_vendor_id: hex16_value(value), ..st }
        } else if key == "device_id"@ {
            ScanState { audio_device_id: hex16_value(value), ..st }
        } else if key == "vendor_name"@ {
            ScanState { audio_vendor_name: value, ..st }
        } else if key == "device_name"@ {
            ScanState { audio_device_name: value, ..st }
        } else if key == "class_code"@ {
            ScanState { audio_class: hex32_value(value), ..st }
        } else if key == "driver"@ {
            ScanState { audio_driver: Some(value), ..st }
        } else if key == "iommu_group"@ {
            ScanState { audio_iommu_group: group_value(value), ..st }
        } else {
            st
        }
    } else if st.section == "settings"@ {
        if key == "original_driver"@ {
            ScanState { original_driver: value, ..st }
        } else if key == "display_manager"@ {
            ScanState { display_manager: value, ..st }
        } else if key == "gpu_rom"@ {
            ScanState { gpu_rom: Some(value), ..st }
        } else {
            st
        }
    } else {
        st
    }
}

/// Effect of one line: blank lines and `#` comments are skipped, `[name]`
/// opens a section, `key = value` records the trimmed value without its
/// surrounding quotes.
pub open spec fn scan_line(st: ScanState, raw: Seq<char>) -> ScanState {
    let line = crate::text::trim_ws(raw);
    if line.len() == 0 || line[0] == '#' {
        st
    } else if line[0] == '[' && line.last() == ']' {
        ScanState { section: line.subrange(1, line.len() - 1), ..st }
    } else {
        match crate::text::split_once(line, '=') {
            Some((k, v)) => scan_assign(
                st,
                crate::text::trim_ws(k),
                crate::text::trim_char(crate::text::trim_ws(v), '"'),
            ),
            None => st,
        }
    }
}

/// State after reading `ls` from state `st`.
pub open spec fn scan_from(st: ScanState, ls: Seq<Seq<char>>) -> ScanState
    decreases ls.len(),
{
    if ls.len() == 0 {
        st
    } else {
        scan_line(scan_from(st, ls.drop_last()), ls.last())
    }
}

/// State after reading all of `ls`.
pub open spec fn scan_lines(ls: Seq<Seq<char>>) -> ScanState {
    scan_from(scan_start(), ls)
}

/// Configuration read back from the file text; `None` without a GPU address.
pub open spec fn parse_config_spec(content: Seq<char>) -> Option<SingleGpuConfigView> {
    let st = scan_lines(crate::text::lines(content));
    if st.gpu_address.len() == 0 {
        None
    } else {
        Some(
            SingleGpuConfigView {
                gpu: PciDeviceView {
                    address: st.gpu_address,
                    vendor_id: st.gpu_vendor_id,
                    device_id: st.gpu_device_id,
                    class_code: st.gpu_class,
                    vendor_name: st.gpu_vendor_name,
                    device_name: st.gpu_device_name,
                    driver: st.gpu_driver,
                    iommu_group: st.gpu_iommu_group,
                    is_boot_vga: st.gpu_is_boot_vga,
                    subsystem_vendor_id: 0,
                    subsystem_device_id: 0,
                },
                audio: match st.audio_address {
                    Some(a) => Some(
                        PciDeviceView {
                            address: a,
                            vendor_id: st.audio_vendor_id,
                            device_id: st.audio_device_id,
                            class_code: st.audio_class,
                            vendor_name: st.audio_vendor_name,
                            device_name: st.audio_device_name,
                            driver: st.audio_driver,
                            iommu_group: st.audio_iommu_group,
                            is_boot_vga: false,
                            subsystem_vendor_id: 0,
                            subsystem_device_id: 0,
                        },
                    ),
                    None => None,
                },
                iommu_group_devices: seq![],
                original_driver: driver_of_name(st.original_driver),
                display_manager: dm_of_name(st.display_manager),
                gpu_rom: st.gpu_rom,
            },
        )
    }
}

} // verus!

verus! {

/// Executable counterpart of `ScanState`.
struct ConfigScan {
    section: String,
    gpu_address: String,
    gpu_vendor_id: u16,
    gpu_device_id: u16,
    gpu_vendor_name: String,
    gpu_device_name: String,
    gpu_class: u32,
    gpu_driver: Option<String>,
    gpu_iommu_group: Option<u32>,
    gpu_is_boot_vga: bool,
    audio_address: Option<String>,
    audio_vendor_id: u16,
    audio_device_id: u16,
    audio_vendor_name: String,
    audio_device_name: String,
    audio_class: u32,
    audio_driver: Option<String>,
    audio_iommu_group: Option<u32>,
    original_driver: String,
    display_manager: String,
    gpu_rom: Option<String>,
}

impl View for ConfigScan {
    type V = ScanState;

    closed spec fn view(&self) -> ScanState {
        ScanState {
            section: self.section@,
            gpu_address: self.gpu_address@,
            gpu_vendor_id: self.gpu_vendor_id,
            gpu_device_id: self.gpu_device_id,
            gpu_vendor_name: self.gpu_vendor_name@,
            gpu_device_name: self.gpu_device_name@,
            gpu_class: self.gpu_class,
            gpu_driver: super::pci::opt_view(self.gpu_driver),
            gpu_iommu_group: self.gpu_iommu_group,
            gpu_is_boot_vga: self.gpu_is_boot_vga,
            audio_address: super::pci::opt_view(self.audio_address),
            audio_vendor_id: self.audio_vendor_id,
            audio_device_id: self.audio_device_id,
            audio_vendor_name: self.audio_vendor_name@,
            audio_device_name: self.audio_device_name@,
            audio_class: self.audio_class,
            audio_driver: super::pci::opt_view(self.audio_driver),
            audio_iommu_group: self.audio_iommu_group,
            original_driver: self.original_driver@,
            display_manager: self.display_manager@,
            gpu_rom: super::pci::opt_view(self.gpu_rom),
        }
    }
}

fn hex16_of(v: &str) -> (res: u16)
    ensures
        res == hex16_value(v@),
{
    let cs = crate::text::chars_of(v);
    proof {
        reveal_strlit("0x");
    }
    let a = crate::text::trim_start_all_range(&cs, 0, cs.len(), "0x");
    proof {
        assert(cs@.subrange(0, cs@.len() as int) == cs@);
    }
    match crate::text::parse_unsigned_range(&cs, a, cs.len(), 16, 0xffff) {
        Some(x) => x as u16,
        None => 0,
    }
}

fn hex32_of(v: &str) -> (res: u32)
    ensures
        res == hex32_value(v@),
{
    let cs = crate::text::chars_of(v);
    proof {
        reveal_strlit("0x");
    }
    let a = crate::text::trim_start_all_range(&cs, 0, cs.len(), "0x");
    proof {
        assert(cs@.subrange(0, cs@.len() as int) == cs@);
    }
    match crate::text::parse_unsigned_range(&cs, a, cs.len(), 16, 0xffff_ffff) {
        Some(x) => x as u32,
        None => 0,
    }
}

fn group_of(v: &str) -> (res: Option<u32>)
    ensures
        res == group_value(v@),
{
    let cs = crate::text::chars_of(v);
    proof {
        assert(cs@.subrange(0, cs@.len() as int) == cs@);
    }
    match crate::text::parse_unsigned_range(&cs, 0, cs.len(), 10, 0xffff_ffff) {
        Some(x) => Some(x as u32),
        None => None,
    }
}

fn scan_assign_exec(st: &mut ConfigScan, key: &str, value: String)
    ensures
        final(st)@ == scan_assign(old(st)@, key@, value@),
{
    if str_eq(st.section.as_str(), "gpu") {
        if str_eq(key, "address") {
            st.gpu_address = value;
        } else if str_eq(key, "vendor_id") {
            st.gpu_vendor_id = hex16_of(value.as_str());
        } else if str_eq(key, "device_id") {
            st.gpu_device_id = hex16_of(value.as_str());
        } else if str_eq(key, "vendor_name") {
            st.gpu_vendor_name = value;
        } else if str_eq(key, "device_name") {
            st.gpu_device_name = value;
        } else if str_eq(key, "class_code") {
            st.gpu_class = hex32_of(value.as_str());
        } else if str_eq(key, "driver") {
            st.gpu_driver = Some(value);
        } else if str_eq(key, "iommu_group") {
            st.gpu_iommu_group = group_of(value.as_str());
        } else if str_eq(key, "is_boot_vga") {
            st.gpu_is_boot_vga = str_eq(value.as_str(), "true");
        }
    } else if str_eq(st.section.as_str(), "audio") {
        if str_eq(key, "address") {
            st.audio_address = Some(value);
        } else if str_eq(key, "vendor_id") {
            st.audio_vendor_id = hex16_of(value.as_str());
        } else if str_eq(key, "device_id") {
            st.audio_device_id = hex16_of(value.as_str());
        } else if str_eq(key, "vendor_name") {
            st.audio_vendor_name = value;
        } else if str_eq(key, "device_name") {
            st.audio_device_name = value;
        } else if str_eq(key, "class_code") {
            st.audio_class = hex32_of(value.as_str());
        } else if str_eq(key, "driver") {
            st.audio_driver = Some(value);
        } else if str_eq(key, "iommu_group") {
            st.audio_iommu_group = group_of(value.as_str());
        }
    } else if str_eq(st.section.as_str(), "settings") {
        if str_eq(key, "original_driver") {
            st.original_driver = value;
        } else if str_eq(key, "display_manager") {
            st.display_manager = value;
        } else if str_eq(key, "gpu_rom") {
            st.gpu_rom = Some(value);
        }
    }
}

fn scan_step(st: &mut ConfigScan, raw: &str)
    ensures
        final(st)@ == scan_line(old(st)@, raw@),
{
    let cs = crate::text::chars_of(raw);
    let (a, b) = crate::text::trim_range(&cs, 0, cs.len());
    let ghost line = cs@.subrange(a as int, b as int);
    proof {
        assert(cs@.subrange(0, cs@.len() as int) == cs@);
    }
    if a == b || cs[a] == '#' {
        proof {
            if a < b {
                assert(line[0] == cs@[a as int]);
            }
        }
        return;
    }
    proof {
        assert(line[0] == cs@[a as int]);
        assert(line.last() == cs@[b - 1]);
    }
    if cs[a] == '[' && cs[b - 1] == ']' {
        st.section = crate::text::string_of(crate::text::slice_range(&cs, a + 1, b - 1).as_slice());
        proof {
            assert(line.subrange(1, line.len() - 1) =~= cs@.subrange(a + 1, b - 1));
        }
        return;
    }
    let eq = crate::text::find_char(&cs, a, b, '=');
    proof {
        crate::text::lemma_index_of_bounds(line, '=');
    }
    if eq == b {
        return;
    }
    let (ka, kb) = crate::text::trim_range(&cs, a, eq);
    let (va, vb) = crate::text::trim_range(&cs, eq + 1, b);
    let (qa, qb) = crate::text::trim_char_range(&cs, va, vb, '"');
    proof {
        assert(line.take(eq - a) =~= cs@.subrange(a as int, eq as int));
        assert(line.skip(eq - a + 1) =~= cs@.subrange(eq + 1, b as int));
    }
    let key = crate::text::string_of(crate::text::slice_range(&cs, ka, kb).as_slice());
    let value = crate::text::string_of(crate::text::slice_range(&cs, qa, qb).as_slice());
    scan_assign_exec(st, key.as_str(), value);
}

/// Reads the configuration file text written by `config_file_content`;
/// `None` when it names no GPU address.
pub fn parse_config(content: &str) -> (res: Option<SingleGpuConfig>)
    ensures
        match parse_config_spec(content@) {
            Some(v) => res matches Some(c) && c@ == v,
            None => res is None,
        },
{
    let ls = crate::text::lines_of(content);
    let mut st = ConfigScan {
        section: String::new(),
        gpu_address: String::new(),
        gpu_vendor_id: 0,
        gpu_device_id: 0,
        gpu_vendor_name: String::new(),
        gpu_device_name: String::new(),
        gpu_class: 0,
        gpu_driver: None,
        gpu_iommu_group: None,
        gpu_is_boot_vga: false,
        audio_address: None,
        audio_vendor_id: 0,
        audio_device_id: 0,
        audio_vendor_name: String::new(),
        audio_device_name: String::new(),
        audio_class: 0,
        audio_driver: None,
        audio_iommu_group: None,
        original_driver: String::new(),
        display_manager: String::new(),
        gpu_rom: None,
    };
    let ghost vs = views(ls@);
    proof {
        assert(st@ == scan_start());
    }
    let mut i: usize = 0;
    while i < ls.len()
        invariant
            i <= ls.len(),
            vs == views(ls@),
            st@ == scan_lines(vs.take(i as int)),
        decreases ls.len() - i,
    {
        proof {
            assert(vs.take(i + 1).drop_last() == vs.take(i as int));
            assert(vs.take(i + 1).last() == ls@[i as int]@);
        }
        scan_step(&mut st, ls[i].as_str());
        i += 1;
    }
    proof {
        assert(vs.take(ls.len() as int) == vs);
    }
    if st.gpu_address.as_str().unicode_len() == 0 {
        return None;
    }
    let gpu = PciDevice {
        address: st.gpu_address,
        vendor_id: st.gpu_vendor_id,
        device_id: st.gpu_device_id,
        class_code: st.gpu_class,
        vendor_name: st.gpu_vendor_name,
        device_name: st.gpu_device_name,
        driver: st.gpu_driver,
        iommu_group: st.gpu_iommu_group,
        is_boot_vga: st.gpu_is_boot_vga,
        subsystem_vendor_id: 0,
        subsystem_device_id: 0,
    };
    let audio = match st.audio_address {
        Some(addr) => Some(
            PciDevice {
                address: addr,
                vendor_id: st.audio_vendor_id,
                device_id: st.audio_device_id,
                class_code: st.audio_class,
                vendor_name: st.audio_vendor_name,
                device_name: st.audio_device_name,
                driver: st.audio_driver,
                iommu_group: st.audio_iommu_group,
                is_boot_vga: false,
                subsystem_vendor_id: 0,
                subsystem_device_id: 0,
            },
        ),
        None => None,
    };
    let original_driver = GpuDriver::from_module_name(st.original_driver.as_str());
    let display_manager = DisplayManager::from_service_name(st.display_manager.as_str());
    let res = SingleGpuConfig {
        gpu,
        audio,
        iommu_group_devices: Vec::new(),
        original_driver,
        display_manager,
        gpu_rom: st.gpu_rom,
    };
    proof {
        assert(res@.iommu_group_devices =~= Seq::<PciDeviceView>::empty());
    }
    Some(res)
}

} // verus!
