use vm_curator::file_browser::{
    browser_enter, browser_move, browser_rows, extensions_for, row_name, BrowserChoice, BrowserRow,
};
use vm_curator::navigation::FileBrowserMode;

fn listing() -> (Vec<String>, Vec<bool>) {
    let entries = [
        ("zeta.iso", false),
        ("Images", true),
        (".hidden", true),
        ("alpha.ISO", false),
        ("notes.txt", false),
        ("archive", true),
        (".secret.iso", false),
        ("Beta.iso", false),
    ];
    (
        entries.iter().map(|(n, _)| n.to_string()).collect(),
        entries.iter().map(|(_, d)| *d).collect(),
    )
}

#[test]
fn iso_mode_lists_sorted_dirs_then_matching_files() {
    let (names, dirs) = listing();
    let rows = browser_rows(FileBrowserMode::Iso, true, &names, &dirs);
    assert_eq!(
        rows,
        vec![
            BrowserRow::Parent,
            BrowserRow::Entry(5),
            BrowserRow::Entry(1),
            BrowserRow::Entry(3),
            BrowserRow::Entry(7),
            BrowserRow::Entry(0),
        ]
    );
    assert_eq!(row_name(rows[1], &names), "archive");
    assert_eq!(row_name(rows[0], &names), "..");
}

#[test]
fn directory_mode_lists_only_directories() {
    let (names, dirs) = listing();
    let rows = browser_rows(FileBrowserMode::Directory, false, &names, &dirs);
    assert_eq!(
        rows,
        vec![BrowserRow::SelectThisDirectory, BrowserRow::Entry(5), BrowserRow::Entry(1)]
    );
    assert_eq!(row_name(rows[0], &names), "[Select This Directory]");
}

#[test]
fn equal_lowercase_names_keep_listing_order() {
    let names: Vec<String> = vec!["b.img".into(), "B.IMG".into(), "a.ima".into()];
    let dirs = vec![false, false, false];
    let rows = browser_rows(FileBrowserMode::Floppy, false, &names, &dirs);
    assert_eq!(rows, vec![BrowserRow::Entry(2), BrowserRow::Entry(0), BrowserRow::Entry(1)]);
    assert_eq!(extensions_for(FileBrowserMode::ImportConfig), vec![".xml", ".XML", ".conf"]);
}

#[test]
fn choosing_rows() {
    let (names, dirs) = listing();
    let rows = browser_rows(FileBrowserMode::Iso, true, &names, &dirs);
    assert_eq!(browser_enter(&rows, &dirs, 0), BrowserChoice::Open(BrowserRow::Parent));
    assert_eq!(browser_enter(&rows, &dirs, 1), BrowserChoice::Open(BrowserRow::Entry(5)));
    assert_eq!(browser_enter(&rows, &dirs, 3), BrowserChoice::Choose(BrowserRow::Entry(3)));
    assert_eq!(browser_enter(&rows, &dirs, 9), BrowserChoice::Nothing);
    assert_eq!(browser_move(0, 6, false), 0);
    assert_eq!(browser_move(2, 6, true), 3);
    assert_eq!(browser_move(5, 6, true), 5);
    assert_eq!(browser_move(0, 0, true), 0);
}
