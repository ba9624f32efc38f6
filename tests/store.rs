use pass_rofi_gui::cli::Config;
use pass_rofi_gui::error::Error;
use pass_rofi_gui::store::{DirItem, PassStoreDirectory, StoreScan};

fn item(name: &str, is_dir: bool) -> DirItem {
    DirItem { name: name.to_string(), is_dir }
}

#[test]
fn store_listing_skips_hidden_and_foreign_files() {
    let mut scan = StoreScan::new();
    let mut visited = Vec::new();
    while let Some(dir) = scan.next_directory() {
        let items = match dir.as_str() {
            "" => vec![
                item("sub", true),
                item("readme.txt", false),
                item(".hidden", true),
                item("a.gpg", false),
            ],
            "sub" => vec![item("c.gpg", false)],
            other => panic!("unexpected directory {}", other),
        };
        scan.visit(&dir, &items);
        visited.push(dir);
    }
    assert_eq!(visited, vec!["".to_string(), "sub".to_string()]);
    let store = scan.finish();
    assert_eq!(store.entry_paths, vec!["a".to_string(), "sub/c".to_string()]);
}

#[test]
fn store_listing_nested_and_sorted() {
    let mut scan = StoreScan::new();
    scan.next_directory();
    scan.visit("", &vec![item("z.gpg", false), item("m", true), item(".gpg", false)]);
    let d = scan.next_directory().unwrap();
    assert_eq!(d, "m");
    scan.visit("m", &vec![item("b.gpg", false), item("a.gpg", false), item("x.gpg.bak", false)]);
    assert!(scan.next_directory().is_none());
    let store = scan.finish();
    assert_eq!(store.entry_paths, vec!["m/a", "m/b", "z"]);
}

#[test]
fn store_sorts_by_code_point() {
    let store = PassStoreDirectory::new(vec![
        "b".to_string(),
        "B".to_string(),
        "ab".to_string(),
        "a".to_string(),
        "é".to_string(),
        "a".to_string(),
    ]);
    assert_eq!(store.entry_paths, vec!["B", "a", "a", "ab", "b", "é"]);
}

#[test]
fn store_root_resolution() {
    assert_eq!(
        PassStoreDirectory::calculate_pass_store_path(&Some("/s".to_string()), &None).unwrap(),
        "/s"
    );
    assert_eq!(
        PassStoreDirectory::calculate_pass_store_path(&None, &Some("/home/u".to_string()))
            .unwrap(),
        "/home/u/.password-store"
    );
    assert_eq!(
        PassStoreDirectory::calculate_pass_store_path(&None, &None).unwrap_err(),
        Error::ConfigurationError
    );
}

#[test]
fn config_resolution() {
    let c = Config::new(None, true, "fuzzy".to_string(), None, Some("/h".to_string())).unwrap();
    assert_eq!(c.pass_store_path, "/h/.password-store");
    assert!(c.no_notify);
    assert_eq!(c.rofi_matching, "fuzzy");
    assert_eq!(
        Config::new(None, false, "normal".to_string(), None, None).unwrap_err(),
        Error::ConfigurationError
    );
}
