use vm_curator::metadata::hierarchy::{sort_by_from_name, Family, HierarchyConfig, SortBy, Subcategory};
use vm_curator::metadata::os_info::{default_os_info, guess_os_details, os_details_for_lowercase_id, MetadataStore, OsInfo};
use vm_curator::metadata::shared_folders_help::{SharedFoldersHelpEntry, SharedFoldersHelpStore};

fn info(name: &str) -> OsInfo {
    OsInfo { name: name.to_string(), ..Default::default() }
}

#[test]
fn default_os_info_from_id() {
    let info = default_os_info("windows-95");
    assert_eq!(info.name, "Windows 95");
    assert_eq!(info.publisher, "Microsoft Corporation");
    assert_eq!(info.architecture, "i386");
    assert!(info.display_name.is_none());
    assert_eq!(default_os_info("my--odd-vm").name, "My Odd Vm");
    assert_eq!(default_os_info("").name, "");
}

#[test]
fn os_details_guesses() {
    assert_eq!(guess_os_details("Windows-11"), ("Microsoft Corporation".to_string(), "x86_64".to_string()));
    assert_eq!(guess_os_details("mac-os-tiger"), ("Apple Inc.".to_string(), "PowerPC".to_string()));
    assert_eq!(guess_os_details("mac-system7"), ("Apple Inc.".to_string(), "Motorola 68k".to_string()));
    assert_eq!(guess_os_details("ubuntu-24"), ("Various".to_string(), "x86_64".to_string()));
    assert_eq!(guess_os_details("ms-dos"), ("Microsoft Corporation".to_string(), "i386".to_string()));
    assert_eq!(guess_os_details("haiku"), ("Unknown".to_string(), "Unknown".to_string()));
    assert_eq!(os_details_for_lowercase_id("osx-lion").0, "Apple Inc.");
}

#[test]
fn metadata_store_merge_overrides() {
    let mut store = MetadataStore::from_entries(vec![
        ("windows-95".to_string(), info("Windows 95")),
        ("freedos".to_string(), info("FreeDOS")),
    ]);
    let overrides = MetadataStore::from_entries(vec![("freedos".to_string(), info("FreeDOS 1.3"))]);
    store.merge(overrides);
    assert_eq!(store.get("freedos").unwrap().name, "FreeDOS 1.3");
    assert_eq!(store.get("windows-95").unwrap().name, "Windows 95");
    assert!(store.get("beos").is_none());
    store.insert("beos".to_string(), info("BeOS"));
    assert_eq!(store.get("beos").unwrap().name, "BeOS");
}

#[test]
fn shared_folder_help_falls_back() {
    let mut store = SharedFoldersHelpStore::default();
    assert_eq!(
        store.get_or_default("linux"),
        ("Mount Instructions", "Mount command varies by OS. Check your OS documentation for 9p support.")
    );
    store.merge_entries(vec![
        ("unknown".to_string(), SharedFoldersHelpEntry { title: "Unknown".to_string(), description: "?".to_string() }),
        ("linux".to_string(), SharedFoldersHelpEntry { title: "Linux".to_string(), description: "mount -t 9p {TAG}".to_string() }),
    ]);
    assert_eq!(store.get_or_default("linux"), ("Linux", "mount -t 9p {TAG}"));
    assert_eq!(store.get_or_default("bsd"), ("Unknown", "?"));
}

fn family(id: &str, order: i32) -> Family {
    Family { id: id.to_string(), name: id.to_uppercase(), icon: String::new(), order }
}

fn subcategory(id: &str, family: &str, order: i32, patterns: &[&str]) -> Subcategory {
    Subcategory {
        id: id.to_string(),
        name: id.to_string(),
        family: family.to_string(),
        order,
        patterns: patterns.iter().map(|p| p.to_string()).collect(),
        sort_by: sort_by_from_name(None),
    }
}

#[test]
fn hierarchy_sorts_and_categorizes() {
    let config = HierarchyConfig::from_parts(
        vec![family("linux", 2), family("microsoft", 1)],
        vec![
            subcategory("windows_nt", "microsoft", 2, &["^windows-(xp|2000|nt)"]),
            subcategory("windows_9x", "microsoft", 1, &["^windows-9[58]", "^windows-me"]),
            subcategory("debian", "linux", 1, &["debian|ubuntu", "(unclosed"]),
        ],
    );
    let ids: Vec<&str> = config.families.iter().map(|f| f.id.as_str()).collect();
    assert_eq!(ids, vec!["microsoft", "linux"]);
    let subs: Vec<&str> = config.subcategories.iter().map(|s| s.id.as_str()).collect();
    assert_eq!(subs, vec!["debian", "windows_9x", "windows_nt"]);
    assert_eq!(config.categorize("Windows-98"), ("microsoft".to_string(), "windows_9x".to_string()));
    assert_eq!(config.categorize("ubuntu-24.04"), ("linux".to_string(), "debian".to_string()));
    assert_eq!(config.categorize("haiku"), ("other".to_string(), "uncategorized".to_string()));
    assert_eq!(config.get_family("linux").unwrap().order, 2);
    assert!(config.get_family("apple").is_none());
    assert_eq!(config.get_subcategory("windows_nt").unwrap().family, "microsoft");
    let ms: Vec<&str> = config.subcategories_for_family("microsoft").iter().map(|s| s.id.as_str()).collect();
    assert_eq!(ms, vec!["windows_9x", "windows_nt"]);
}

#[test]
fn sort_by_names() {
    assert_eq!(sort_by_from_name(Some("date")), SortBy::Date);
    assert_eq!(sort_by_from_name(Some("name")), SortBy::Name);
    assert_eq!(sort_by_from_name(Some("size")), SortBy::Name);
    assert_eq!(SortBy::default(), SortBy::Name);
    let empty = HierarchyConfig::default();
    assert_eq!(empty.categorize("anything"), ("other".to_string(), "uncategorized".to_string()));
}
