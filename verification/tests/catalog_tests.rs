use advanced_inputs::files_with_extension;
use advanced_inputs::CatalogEntry;

fn entry(name: &str, is_file: bool) -> CatalogEntry {
    CatalogEntry { name: name.to_string(), is_file }
}

#[test]
fn keeps_only_matching_regular_files() {
    let entries = vec![entry("a.json", true), entry("b.txt", true), entry("sub", false)];
    let names = files_with_extension(&entries, "json");
    assert_eq!(names, vec!["a.json".to_string()]);
}

#[test]
fn extension_comparison_is_case_sensitive() {
    let entries = vec![entry("x.JSON", true), entry("y.json", true)];
    let names = files_with_extension(&entries, "json");
    assert_eq!(names, vec!["y.json".to_string()]);
}

#[test]
fn hidden_file_has_no_extension() {
    let entries = vec![entry(".json", true), entry("ok.json", true)];
    let names = files_with_extension(&entries, "json");
    assert_eq!(names, vec!["ok.json".to_string()]);
}

#[test]
fn directory_with_matching_name_is_skipped() {
    let entries = vec![entry("c.json", false)];
    let names = files_with_extension(&entries, "json");
    assert!(names.is_empty());
}

#[test]
fn later_dot_wins() {
    let entries = vec![entry("archive.tar.json", true), entry("data.json.bak", true)];
    let names = files_with_extension(&entries, "json");
    assert_eq!(names, vec!["archive.tar.json".to_string()]);
}

#[test]
fn order_of_the_listing_is_kept() {
    let entries = vec![entry("b.json", true), entry("a.json", true)];
    let names = files_with_extension(&entries, "json");
    assert_eq!(names, vec!["b.json".to_string(), "a.json".to_string()]);
}
