use a2ltool::group::Group;
use a2ltool::remove::{remove_address_ranges, remove_items, ItemAddress, ModuleItems};
use a2ltool::search::compile_whole_name_regexes;

fn item(name: &str, address: Option<u64>) -> ItemAddress {
    ItemAddress { name: name.to_string(), address }
}

fn names(list: &[&str]) -> Vec<String> {
    list.iter().map(|n| n.to_string()).collect()
}

fn module() -> ModuleItems {
    ModuleItems {
        characteristic: vec![item("cal_a", Some(0x1000)), item("cal_b", Some(0x2000))],
        measurement: vec![item("meas_a", Some(0x1004)), item("meas_x", None)],
        instance: vec![item("inst_a", Some(0x3000))],
        axis_pts: vec![item("axis_a", Some(0x1008))],
        blob: vec![item("blob_a", Some(0xBEEF))],
        group: vec![
            Group {
                name: "G1".to_string(),
                long_identifier: String::new(),
                sub_group: None,
                root: true,
                ref_measurement: Some(names(&["meas_a", "meas_x"])),
                ref_characteristic: Some(names(&["cal_a"])),
            },
            Group {
                name: "G2".to_string(),
                long_identifier: String::new(),
                sub_group: None,
                root: false,
                ref_measurement: None,
                ref_characteristic: Some(names(&["cal_b"])),
            },
        ],
    }
}

fn item_names(items: &[ItemAddress]) -> Vec<&str> {
    items.iter().map(|i| i.name.as_str()).collect()
}

#[test]
fn remove_items_by_name() {
    let mut m = module();
    let regexes = compile_whole_name_regexes(&["cal_a", ".*_a"]).unwrap();
    let (log, count) = remove_items(&mut m, &regexes);
    assert_eq!(
        log,
        vec![
            "Removed characteristic cal_a",
            "Removed characteristic cal_a",
            "Removed measurement meas_a",
            "Removed instance inst_a",
            "Removed axis points axis_a",
            "Removed blob blob_a",
        ]
    );
    assert_eq!(count, 5);
    assert_eq!(item_names(&m.characteristic), vec!["cal_b"]);
    assert_eq!(item_names(&m.measurement), vec!["meas_x"]);
    assert!(m.instance.is_empty() && m.axis_pts.is_empty() && m.blob.is_empty());
    // references to removed items are dropped; an emptied list goes
    assert_eq!(m.group[0].ref_measurement, Some(names(&["meas_x"])));
    assert_eq!(m.group[0].ref_characteristic, None);
    assert_eq!(m.group[1].ref_characteristic, Some(names(&["cal_b"])));
    assert_eq!(m.group[1].ref_measurement, None);
    assert_eq!(m.group[0].name, "G1");
    assert!(m.group[0].root);
    assert_eq!(m.group[1].name, "G2");
}

#[test]
fn remove_items_matches_whole_names_only() {
    let mut m = module();
    let regexes = compile_whole_name_regexes(&["cal"]).unwrap();
    let (log, count) = remove_items(&mut m, &regexes);
    assert!(log.is_empty());
    assert_eq!(count, 0);
    assert_eq!(m.characteristic.len(), 2);
    // an anchored pattern is taken as it is
    let regexes = compile_whole_name_regexes(&["^cal"]).unwrap();
    let (_, count) = remove_items(&mut m, &regexes);
    assert_eq!(count, 2);
    assert!(m.characteristic.is_empty());
}

#[test]
fn invalid_pattern_is_refused() {
    let err = match compile_whole_name_regexes(&["ok", "(unclosed"]) {
        Err(e) => e,
        Ok(_) => panic!("the pattern should not compile"),
    };
    assert_eq!(err.pattern, "^(unclosed$");
}

#[test]
fn remove_by_address_ranges() {
    let mut m = module();
    let (log, count) = remove_address_ranges(&mut m, &[(0x1000, 0x1004), (0x3000, 0x3000), (0xBEEF, 0xBEEF)]);
    assert_eq!(
        log,
        vec![
            "Removed characteristic cal_a at address 0x1000",
            "Removed measurement meas_a at address 0x1004",
            "Removed instance inst_a at address 0x3000",
            "Removed blob blob_a at address 0xBEEF",
        ]
    );
    assert_eq!(count, 4);
    assert_eq!(item_names(&m.characteristic), vec!["cal_b"]);
    // a measurement without an address is never in a range
    assert_eq!(item_names(&m.measurement), vec!["meas_x"]);
    assert_eq!(item_names(&m.axis_pts), vec!["axis_a"]);
    assert!(m.instance.is_empty() && m.blob.is_empty());
    assert_eq!(m.group[0].ref_measurement, Some(names(&["meas_x"])));
    assert_eq!(m.group[0].ref_characteristic, None);
}

#[test]
fn nothing_is_left_in_the_removed_ranges() {
    let mut m = module();
    let ranges = [(0x0, 0x1FFF), (0x2000, 0x2000)];
    remove_address_ranges(&mut m, &ranges);
    for list in [&m.characteristic, &m.measurement, &m.instance, &m.axis_pts, &m.blob] {
        for it in list.iter() {
            if let Some(a) = it.address {
                assert!(ranges.iter().all(|(s, e)| !(*s <= a && a <= *e)));
            }
        }
    }
    assert_eq!(item_names(&m.characteristic), Vec::<&str>::new());
    assert_eq!(item_names(&m.instance), vec!["inst_a"]);
}
