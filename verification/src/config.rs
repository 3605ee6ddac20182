//! Application settings, persisted under the user's configuration directory.

use vstd::prelude::*;
use std::path::PathBuf;
use crate::paths::{config_dir, home_dir, joined, path_from, path_join, path_of_text};

verus! {

/// Application configuration.
#[derive(Debug)]
pub struct Config {
    /// Path to VM library directory
    pub vm_library_path: PathBuf,
    /// Path to user metadata overrides
    pub metadata_path: PathBuf,
    /// Path to user ASCII art overrides
    pub ascii_art_path: PathBuf,
    /// Default snapshot name prefix
    pub snapshot_prefix: String,
    /// Default memory for new VMs (MB)
    pub default_memory_mb: u32,
    /// Default CPU cores for new VMs
    pub default_cpu_cores: u32,
    /// Default disk size for new VMs (GB)
    pub default_disk_size_gb: u32,
    /// Default display backend (gtk, sdl, spice)
    pub default_display: String,
    /// Enable KVM acceleration by default
    pub default_enable_kvm: bool,
    /// Show confirmation dialog before launching VMs
    pub confirm_before_launch: bool,
    /// Enable multi-GPU passthrough features in the UI
    pub enable_multi_gpu_passthrough: bool,
    /// Default IVSHMEM size in MB for Looking Glass
    pub default_ivshmem_size_mb: u32,
    /// Show GPU passthrough warnings
    pub show_gpu_warnings: bool,
    /// Enable single GPU passthrough options (for systems with only one GPU)
    pub single_gpu_enabled: bool,
    /// Experimental: switch to a TTY and back automatically
    pub single_gpu_auto_tty: bool,
    /// Override of the detected display manager (gdm, sddm, lightdm)
    pub single_gpu_dm_override: Option<String>,
    /// Path to the Looking Glass client executable
    pub looking_glass_client_path: Option<PathBuf>,
    /// Launch the Looking Glass client when the VM starts
    pub looking_glass_auto_launch: bool,
}

/// The home directory where it is known (`home`), or ".".
pub open spec fn home_or_dot(home: Option<PathBuf>) -> PathBuf {
    match home {
        Some(h) => h,
        None => path_of_text("."@),
    }
}

/// The application directory: `vm-curator` under the configuration
/// directory where it is known (`dir`), else under `.config` in `home`.
pub open spec fn app_dir_in(dir: Option<PathBuf>, home: PathBuf) -> PathBuf {
    joined(
        match dir {
            Some(c) => c,
            None => joined(home, ".config"@),
        },
        "vm-curator"@,
    )
}

/// The configuration file: `vm-curator/config.toml` under the configuration
/// directory where it is known (`dir`), else under the relative `.config`.
pub open spec fn config_file_in(dir: Option<PathBuf>) -> PathBuf {
    joined(
        joined(
            match dir {
                Some(c) => c,
                None => path_of_text(".config"@),
            },
            "vm-curator"@,
        ),
        "config.toml"@,
    )
}

/// The home directory, or "." where it is unknown.
fn home_or_current() -> (res: PathBuf)
    ensures
        exists|home: Option<PathBuf>| res == home_or_dot(home),
{
    let h = home_dir();
    let res = match h {
        Some(h) => h,
        None => path_from("."),
    };
    proof {
        assert(res == home_or_dot(h));
    }
    res
}

impl Default for Config {
    /// Defaults: the VM library in `~/vm-space`, metadata and ASCII art
    /// overrides under the configuration directory's `vm-curator`.
    fn default() -> (res: Self)
        ensures
            res.snapshot_prefix@ == "snapshot"@,
            res.default_memory_mb == 4096,
            res.default_cpu_cores == 2,
            res.default_disk_size_gb == 64,
            res.default_display@ == "gtk"@,
            res.default_enable_kvm,
            res.confirm_before_launch,
            !res.enable_multi_gpu_passthrough,
            res.default_ivshmem_size_mb == 64,
            res.show_gpu_warnings,
            !res.single_gpu_enabled,
            !res.single_gpu_auto_tty,
            res.single_gpu_dm_override.is_none(),
            res.looking_glass_client_path.is_none(),
            res.looking_glass_auto_launch,
            exists|home: PathBuf, dir: Option<PathBuf>|
                {
                    &&& res.vm_library_path == joined(home, "vm-space"@)
                    &&& res.metadata_path == joined(app_dir_in(dir, home), "metadata"@)
                    &&& res.ascii_art_path == joined(app_dir_in(dir, home), "ascii"@)
                },
    {
        let home = home_or_current();
        let d = config_dir();
        let ghost dir = d;
        let base = match d {
            Some(c) => c,
            None => path_join(&home, ".config"),
        };
        let app_dir = path_join(&base, "vm-curator");
        proof {
            assert(app_dir == app_dir_in(dir, home));
        }
        let res = Config {
            vm_library_path: path_join(&home, "vm-space"),
            metadata_path: path_join(&app_dir, "metadata"),
            ascii_art_path: path_join(&app_dir, "ascii"),
            snapshot_prefix: String::from_str("snapshot"),
            default_memory_mb: 4096,
            default_cpu_cores: 2,
            default_disk_size_gb: 64,
            default_display: String::from_str("gtk"),
            default_enable_kvm: true,
            confirm_before_launch: true,
            enable_multi_gpu_passthrough: false,
            default_ivshmem_size_mb: 64,
            show_gpu_warnings: true,
            single_gpu_enabled: false,
            single_gpu_auto_tty: false,
            single_gpu_dm_override: None,
            looking_glass_client_path: None,
            looking_glass_auto_launch: true,
        };
        proof {
            assert(res.vm_library_path == joined(home, "vm-space"@));
        }
        res
    }
}

impl Config {
    /// The configuration file: `vm-curator/config.toml` under the user's
    /// configuration directory (or under `.config` where that is unknown).
    pub fn config_file_path() -> (res: PathBuf)
        ensures
            exists|dir: Option<PathBuf>| res == config_file_in(dir),
    {
        let d = config_dir();
        let ghost dir = d;
        let base = match d {
            Some(c) => c,
            None => path_from(".config"),
        };
        let app_dir = path_join(&base, "vm-curator");
        let res = path_join(&app_dir, "config.toml");
        proof {
            assert(res == config_file_in(dir));
        }
        res
    }
}

} // verus!
