use vm_curator::metadata::hierarchy::{Family, HierarchyConfig, SortBy, Subcategory};
use vm_curator::metadata::os_info::{MetadataStore, OsInfo};
use vm_curator::vm_list::{
    build_visual_order, click_row_to_visual_index, clicked_list_row, filter_indices,
    get_display_name, update_filter, VmSummary,
};

fn family(id: &str, order: i32) -> Family {
    Family { id: id.to_string(), name: id.to_string(), icon: String::new(), order }
}

fn sub(id: &str, family: &str, order: i32, patterns: &[&str], sort_by: SortBy) -> Subcategory {
    Subcategory {
        id: id.to_string(),
        name: id.to_string(),
        family: family.to_string(),
        order,
        patterns: patterns.iter().map(|p| p.to_string()).collect(),
        sort_by,
    }
}

fn vm(id: &str, name: &str) -> VmSummary {
    VmSummary { id: id.to_string(), display_name: name.to_string() }
}

fn info(display_name: Option<&str>, name: &str, date: &str) -> OsInfo {
    let mut i = OsInfo::default();
    i.display_name = display_name.map(|d| d.to_string());
    i.name = name.to_string();
    i.release_date = date.to_string();
    i
}

fn hierarchy() -> HierarchyConfig {
    HierarchyConfig::from_parts(
        vec![family("linux", 2), family("microsoft", 1)],
        vec![
            sub("windows_nt", "microsoft", 2, &["^winnt"], SortBy::Name),
            sub("debian", "linux", 1, &["debian"], SortBy::Name),
            sub("windows_9x", "microsoft", 1, &["^win9"], SortBy::Date),
        ],
    )
}

fn metadata() -> MetadataStore {
    MetadataStore::from_entries(vec![
        ("win95".to_string(), info(Some("Microsoft Windows 95"), "Windows 95", "1995-08-24")),
        ("win98".to_string(), info(None, "Windows 98", "1998-06-25")),
        ("winnt4".to_string(), info(None, "", "")),
    ])
}

fn vms() -> Vec<VmSummary> {
    vec![
        vm("win98", "win98"),
        vm("debian-12", "Debian 12"),
        vm("win95", "win95"),
        vm("winnt4", "NT 4"),
        vm("beos", "BeOS"),
        vm("win9x-lite", "Win9x Lite"),
    ]
}

#[test]
fn display_name_prefers_metadata() {
    let m = metadata();
    assert_eq!(get_display_name(&vm("win95", "x"), &m), "Microsoft Windows 95");
    assert_eq!(get_display_name(&vm("win98", "x"), &m), "Windows 98");
    assert_eq!(get_display_name(&vm("winnt4", "NT 4"), &m), "NT 4");
    assert_eq!(get_display_name(&vm("beos", "BeOS"), &m), "BeOS");
}

#[test]
fn visual_order_groups_and_sorts() {
    let order = build_visual_order(&vms(), &[0, 1, 2, 3, 4, 5], &hierarchy(), &metadata());
    // microsoft first (order 1): Windows 9x by date (undated last), then NT; then linux.
    assert_eq!(order, vec![2, 0, 5, 3, 1]);
}

#[test]
fn visual_order_of_a_filtered_list() {
    let order = build_visual_order(&vms(), &[1, 0], &hierarchy(), &metadata());
    assert_eq!(order, vec![1, 0]);
    assert!(build_visual_order(&vms(), &[], &hierarchy(), &metadata()).is_empty());
}

#[test]
fn clicked_rows_map_to_visual_positions() {
    let vms = vms();
    let filtered = [0, 1, 2, 3, 4, 5];
    let h = hierarchy();
    let m = metadata();
    let order = build_visual_order(&vms, &filtered, &h, &m);
    // Rows: Microsoft, Windows 9x, win95, win98, win9x-lite, Windows NT, winnt4,
    // Linux, Debian, debian-12.
    let click = |row| click_row_to_visual_index(&vms, &filtered, &h, &m, &order, row);
    assert_eq!(click(0), None);
    assert_eq!(click(1), None);
    assert_eq!(click(2), Some(0));
    assert_eq!(click(3), Some(1));
    assert_eq!(click(4), Some(2));
    assert_eq!(click(5), None);
    assert_eq!(click(6), Some(3));
    assert_eq!(click(7), None);
    assert_eq!(click(8), None);
    assert_eq!(click(9), Some(4));
    assert_eq!(click(10), None);
    assert_eq!(click_row_to_visual_index(&vms, &filtered, &h, &m, &[], 2), None);
}

#[test]
fn clicks_inside_the_list_give_rows() {
    assert_eq!(clicked_list_row(100, 40, 5, 4), Some(0));
    assert_eq!(clicked_list_row(100, 40, 5, 10), Some(6));
    assert_eq!(clicked_list_row(100, 40, 38, 35), Some(31));
    assert_eq!(clicked_list_row(100, 40, 0, 10), None);
    assert_eq!(clicked_list_row(100, 40, 39, 10), None);
    assert_eq!(clicked_list_row(100, 40, 38, 36), None);
    assert_eq!(clicked_list_row(100, 5, 5, 4), None);
}

#[test]
fn search_ignores_letter_case() {
    let vms = vms();
    assert_eq!(filter_indices(&vms, ""), vec![0, 1, 2, 3, 4, 5]);
    assert_eq!(filter_indices(&vms, "WIN9"), vec![0, 2, 5]);
    assert_eq!(filter_indices(&vms, "debian"), vec![1]);
    assert_eq!(filter_indices(&vms, "lite"), vec![5]);
    assert!(filter_indices(&vms, "zzz").is_empty());
}

#[test]
fn filter_update_keeps_highlight_in_range() {
    let vms = vms();
    let listing = update_filter(&vms, "win9", &hierarchy(), &metadata(), 4);
    assert_eq!(listing.filtered_indices, vec![0, 2, 5]);
    assert_eq!(listing.visual_order, vec![1, 0, 2]);
    assert_eq!(listing.selected, 2);
    let listing = update_filter(&vms, "", &hierarchy(), &metadata(), 1);
    assert_eq!(listing.visual_order, vec![2, 0, 5, 3, 1]);
    assert_eq!(listing.selected, 1);
    let listing = update_filter(&vms, "zzz", &hierarchy(), &metadata(), 3);
    assert!(listing.visual_order.is_empty());
    assert_eq!(listing.selected, 0);
}
