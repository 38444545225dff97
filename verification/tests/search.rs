use a2ltool::search::{extend_to_whole_name, is_insert_requested, search_names, try_search_names, CompiledRegex};

fn names(list: &[&str]) -> Vec<String> {
    list.iter().map(|s| s.to_string()).collect()
}

#[test]
fn patterns_match_whole_names() {
    assert_eq!(extend_to_whole_name("abc.*"), "^abc.*$");
    assert_eq!(extend_to_whole_name("^abc"), "^abc");
    assert_eq!(extend_to_whole_name("abc$"), "abc$");
    let list = names(&["Characteristic_01", "Characteristic_14", "Measurement_0", "xCharacteristic_01"]);
    assert_eq!(search_names(&list, &["Characteristic_01"]), vec![0]);
    assert_eq!(search_names(&list, &["Characteristic_.*"]), vec![0, 1]);
    // a name matched by two patterns is found once
    assert_eq!(search_names(&list, &["Characteristic_01", "Char.*01"]), vec![0]);
    assert_eq!(search_names(&list, &["nonexistent"]), Vec::<usize>::new());
    // an anchored pattern matches anywhere after its anchor
    assert_eq!(search_names(&list, &["^Measurement"]), vec![2]);
}

#[test]
fn invalid_patterns_are_reported() {
    let list = names(&["a"]);
    let err = try_search_names(&list, &["a", "foo(bar"]).unwrap_err();
    assert_eq!(err.pattern, "^foo(bar$");
    assert_eq!(try_search_names(&list, &["a"]).unwrap(), vec![0]);
    assert!(CompiledRegex::new("x(").is_err());
}

#[test]
fn insert_by_range_or_name() {
    let regexes = vec![CompiledRegex::new("^cal_.*").unwrap()];
    let ranges = [(0x1000u64, 0x2000u64)];
    assert!(is_insert_requested(0x1000, "x", &ranges, &regexes));
    assert!(!is_insert_requested(0x2000, "x", &ranges, &regexes));
    assert!(is_insert_requested(0x2000, "cal_a", &ranges, &regexes));
    assert!(!is_insert_requested(0x0fff, "meas", &ranges, &[]));
}

// The example A2L file of the search scenarios is not part of this crate;
// its item names are written out here as numbered lists.
fn numbered(prefix: &str, count: usize) -> Vec<String> {
    (1..=count).map(|i| format!("{prefix}{i:02}")).collect()
}

fn found_names(list: &[String], found: &[usize]) -> Vec<String> {
    found.iter().map(|&i| list[i].clone()).collect()
}

#[test]
fn test_search_measurements() {
    let measurements = numbered("Measurement_", 15);
    let result = search_names(&measurements, &["Measurement_0."]);
    assert_eq!(result.len(), 9);
}

#[test]
fn test_search_characteristics() {
    let characteristics = numbered("Characteristic_", 20);
    let result = search_names(&characteristics, &["Characteristic_01", "Characteristic_14"]);
    assert_eq!(result.len(), 2);
    let found = found_names(&characteristics, &result);
    assert!(found.contains(&"Characteristic_01".to_string()));
    assert!(found.contains(&"Characteristic_14".to_string()));
}

#[test]
fn test_search_record_layout() {
    let record_layouts = numbered("RecordLayout_", 10);
    let result = search_names(&record_layouts, &["RecordLayout_05"]);
    assert_eq!(result.len(), 1);
    assert!(found_names(&record_layouts, &result).contains(&"RecordLayout_05".to_string()));
}

#[test]
fn test_search_measurements_no_match() {
    let measurements = numbered("Measurement_", 15);
    let result = search_names(&measurements, &["nonexistent"]);
    assert_eq!(result.len(), 0);
}

#[test]
fn test_search_characteristics_no_match() {
    let characteristics = numbered("Characteristic_", 20);
    let result = search_names(&characteristics, &["nonexistent"]);
    assert_eq!(result.len(), 0);
}

#[test]
fn test_search_record_layout_no_match() {
    let record_layouts = numbered("RecordLayout_", 10);
    let result = search_names(&record_layouts, &["nonexistent"]);
    assert_eq!(result.len(), 0);
}
