use vm_curator::metadata::qemu_profiles::{default_display, query_matches, BiosRomConfig, QemuProfile, QemuProfileStore};

fn profile(name: &str, category: &str, emulator: &str, iso: Option<&str>) -> QemuProfile {
    QemuProfile {
        display_name: name.to_string(),
        category: category.to_string(),
        emulator: emulator.to_string(),
        iso_url: iso.map(|s| s.to_string()),
        ..Default::default()
    }
}

fn sample_store() -> QemuProfileStore {
    let mut store = QemuProfileStore::new();
    store.merge_profiles(vec![
        ("linux-debian".to_string(), profile("Debian", "linux", "qemu-system-x86_64", Some("https://debian.org"))),
        ("windows-10".to_string(), profile("Windows 10", "windows", "qemu-system-x86_64", None)),
        ("freebsd".to_string(), profile("FreeBSD", "bsd", "qemu-system-x86_64", Some("https://freebsd.org"))),
        ("mac-os9".to_string(), profile("Mac OS 9", "classic-mac", "qemu-system-ppc", None)),
        ("linux-arch".to_string(), profile("Arch Linux", "linux", "qemu-system-x86_64", Some("https://archlinux.org"))),
    ]);
    store
}

#[test]
fn qemu_profiles_test_profile_summary() {
    let profile = QemuProfile {
        display_name: "Test OS".to_string(),
        memory_mb: 4096,
        disk_size_gb: 64,
        uefi: true,
        disk_interface: "virtio".to_string(),
        ..Default::default()
    };

    let summary = profile.summary();
    assert!(summary.contains("4GB RAM"));
    assert!(summary.contains("64GB"));
    assert!(summary.contains("UEFI"));
    assert!(summary.contains("virtio"));
}

#[test]
fn test_profile_summary() {
    let profile = QemuProfile {
        display_name: "Test OS".to_string(),
        memory_mb: 4096,
        disk_size_gb: 64,
        uefi: true,
        disk_interface: "virtio".to_string(),
        ..Default::default()
    };

    let summary = profile.summary();
    assert!(summary.contains("4GB RAM"));
    assert!(summary.contains("64GB"));
    assert!(summary.contains("UEFI"));
    assert!(summary.contains("virtio"));
}

#[test]
fn summary_is_exact() {
    let small = QemuProfile { memory_mb: 512, disk_size_gb: 2, ..Default::default() };
    assert_eq!(small.summary(), "512MB RAM, 2GB");
    let big = QemuProfile {
        memory_mb: 4096,
        disk_size_gb: 64,
        uefi: true,
        disk_interface: "virtio".to_string(),
        ..Default::default()
    };
    assert_eq!(big.summary(), "4GB RAM, 64GB, UEFI, virtio");
}

#[test]
fn default_profile_values() {
    let p = QemuProfile::default();
    assert_eq!(p.display_name, "Unknown OS");
    assert_eq!(p.category, "alternative");
    assert_eq!(p.memory_mb, 2048);
    assert_eq!(p.audio, vec!["intel-hda", "hda-duplex"]);
    assert_eq!(p.display, "gtk");
    assert_eq!(default_display(), "gtk");
    assert!(p.is_x86() && p.is_x86_64());
    assert!(!p.has_free_iso());
}

#[test]
fn store_lookup_and_default() {
    let store = sample_store();
    assert_eq!(store.len(), 5);
    assert!(!store.is_empty());
    assert!(store.get("windows-10").is_some());
    assert!(store.get("windows-11").is_none());
    assert_eq!(store.get_or_default("freebsd").display_name, "FreeBSD");
    assert_eq!(store.get_or_default("nope").display_name, "Unknown OS");
    assert!(QemuProfileStore::new().is_empty());
}

#[test]
fn user_overrides_replace_profiles() {
    let mut store = sample_store();
    store.merge_profiles(vec![
        ("freebsd".to_string(), profile("FreeBSD 14", "bsd", "qemu-system-x86_64", None)),
        ("haiku".to_string(), profile("Haiku", "alternative", "qemu-system-x86_64", None)),
    ]);
    assert_eq!(store.len(), 6);
    assert_eq!(store.get("freebsd").unwrap().display_name, "FreeBSD 14");
    assert_eq!(store.get("linux-debian").unwrap().display_name, "Debian");
}

#[test]
fn listings_are_sorted_by_display_name() {
    let store = sample_store();
    let all: Vec<&str> = store.list_all().iter().map(|(_, p)| p.display_name.as_str()).collect();
    assert_eq!(all, vec!["Arch Linux", "Debian", "FreeBSD", "Mac OS 9", "Windows 10"]);
    let linux: Vec<&str> = store.list_by_category("linux").iter().map(|(id, _)| id.as_str()).collect();
    assert_eq!(linux, vec!["linux-arch", "linux-debian"]);
    let free: Vec<&str> = store.list_with_free_iso().iter().map(|(id, _)| id.as_str()).collect();
    assert_eq!(free, vec!["linux-arch", "linux-debian", "freebsd"]);
    assert_eq!(store.list_x86_profiles().len(), 4);
}

#[test]
fn search_ignores_case() {
    let store = sample_store();
    let hits: Vec<&str> = store.search("WINDOWS").iter().map(|(id, _)| id.as_str()).collect();
    assert_eq!(hits, vec!["windows-10"]);
    let hits: Vec<&str> = store.search("linux").iter().map(|(id, _)| id.as_str()).collect();
    assert_eq!(hits, vec!["linux-arch", "linux-debian"]);
    assert!(store.search("plan9").is_empty());
    assert!(query_matches("linux-debian", "debian", "deb"));
    assert!(!query_matches("freebsd", "freebsd", "deb"));
}

#[test]
fn categories_are_sorted_and_distinct() {
    let store = sample_store();
    assert_eq!(store.categories(), vec!["bsd", "classic-mac", "linux", "windows"]);
}

#[test]
fn category_names() {
    assert_eq!(QemuProfileStore::category_display_name("classic-mac"), "Classic Mac");
    assert_eq!(QemuProfileStore::category_display_name("mobile"), "Mobile / Android");
    assert_eq!(QemuProfileStore::category_display_name("zzz"), "Other");
    assert_eq!(QemuProfileStore::generic_profile_for_category("bsd"), "generic-bsd");
    assert_eq!(QemuProfileStore::generic_profile_for_category("macos"), "generic-other");
}

#[test]
fn bios_rom_setting_is_kept_by_the_store() {
    let mut store = QemuProfileStore::new();
    let mac = |name: &str, required: bool| QemuProfile {
        display_name: name.to_string(),
        category: "classic-mac".to_string(),
        bios_rom: Some(BiosRomConfig { required }),
        ..Default::default()
    };
    store.merge_profiles(vec![
        ("mac-system7".to_string(), mac("System 7", true)),
        ("mac-os9".to_string(), mac("Mac OS 9", false)),
        ("windows-10".to_string(), profile("Windows 10", "windows", "qemu-system-x86_64", None)),
    ]);
    assert!(store.get("mac-system7").unwrap().bios_rom.unwrap().required);
    assert!(!store.get("mac-os9").unwrap().bios_rom.unwrap().required);
    assert!(store.get("windows-10").unwrap().bios_rom.is_none());
    assert!(QemuProfile::default().bios_rom.is_none());
    assert_eq!(store.get_or_default("mac-os9").bios_rom, Some(BiosRomConfig { required: false }));
}
