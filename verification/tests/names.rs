use a2ltool::names::{
    build_maps, make_unique_characteristic_name, make_unique_measurement_name, make_unique_reclayout_name,
    ItemType, NameMap,
};
use a2ltool::ranges::range_args_to_ranges;

fn item(name: &str, sym: Option<&str>) -> (String, Option<String>) {
    (name.to_string(), sym.map(|s| s.to_string()))
}

#[test]
fn maps_of_module_items() {
    let characteristics = vec![item("C1", Some("c_sym")), item("C2", None)];
    let measurements = vec![item("M1", Some("m_sym")), item("shared", Some("c_sym"))];
    let instances = vec![item("I1", None)];
    let blobs = vec![];
    let axis_pts = vec![item("shared", Some("a_sym"))];
    let (name_map, sym_map) = build_maps(&characteristics, &measurements, &instances, &blobs, &axis_pts);
    assert_eq!(name_map.get("C2"), Some(ItemType::Characteristic(1)));
    assert_eq!(name_map.get("M1"), Some(ItemType::Measurement(0)));
    assert_eq!(name_map.get("I1"), Some(ItemType::Instance));
    // a later item takes the name from an earlier one
    assert_eq!(name_map.get("shared"), Some(ItemType::AxisPts));
    assert_eq!(sym_map.get("c_sym"), Some(ItemType::Measurement(1)));
    assert_eq!(sym_map.get("a_sym"), Some(ItemType::AxisPts));
    assert_eq!(sym_map.get("nothing"), None);
}

#[test]
fn unique_item_names() {
    let mut name_map = NameMap::new();
    let mut sym_map = NameMap::new();
    name_map.insert("taken".to_string(), ItemType::Blob);
    name_map.insert("MEASUREMENT.x__y".to_string(), ItemType::Blob);
    sym_map.insert("meas_sym".to_string(), ItemType::Measurement(0));
    sym_map.insert("x__y".to_string(), ItemType::Characteristic(0));
    sym_map.insert("chr_sym".to_string(), ItemType::Characteristic(1));
    let measurement_names = vec!["MeasName".to_string()];
    let characteristic_names = vec!["C0".to_string(), "C1".to_string()];

    assert_eq!(
        make_unique_measurement_name(&measurement_names, &sym_map, "ns::var", &name_map),
        Ok("ns__var".to_string())
    );
    assert_eq!(
        make_unique_measurement_name(&measurement_names, &sym_map, "meas_sym", &name_map),
        Err("MEASUREMENT MeasName already references symbol meas_sym.".to_string())
    );
    assert_eq!(
        make_unique_measurement_name(&measurement_names, &sym_map, "chr_sym", &name_map),
        Ok("MEASUREMENT.chr_sym".to_string())
    );
    assert_eq!(
        make_unique_measurement_name(&measurement_names, &sym_map, "x::y", &name_map),
        Err("MEASUREMENT MEASUREMENT.x__y already exists.".to_string())
    );
    assert_eq!(
        make_unique_measurement_name(&measurement_names, &sym_map, "taken", &name_map),
        Err("MEASUREMENT taken already exists.".to_string())
    );
    assert_eq!(
        make_unique_characteristic_name(&characteristic_names, &sym_map, "chr_sym", &name_map),
        Err("CHARACTERISTIC C1 already references symbol chr_sym.".to_string())
    );
    assert_eq!(
        make_unique_characteristic_name(&characteristic_names, &sym_map, "meas_sym", &name_map),
        Ok("CHARACTERISTIC.meas_sym".to_string())
    );
    // ":::" replaces the first pair only
    assert_eq!(
        make_unique_characteristic_name(&characteristic_names, &sym_map, "a:::b", &name_map),
        Ok("a__:b".to_string())
    );
}

#[test]
fn address_range_pairs() {
    assert_eq!(range_args_to_ranges(&[1, 2, 3, 4]), vec![(1, 2), (3, 4)]);
    assert_eq!(range_args_to_ranges(&[1, 2, 3]), vec![(1, 2)]);
    assert_eq!(range_args_to_ranges(&[]), vec![]);
}

#[test]
fn unique_record_layout_names() {
    let existing = names_of(&["RL", "RL_UPDATED", "RL_UPDATED.2", "X_UPDATED.7", "Y_UPDATEDZ"]);
    assert_eq!(make_unique_reclayout_name("NEW".to_string(), &existing), "NEW");
    assert_eq!(make_unique_reclayout_name("RL".to_string(), &existing), "RL_UPDATED.3");
    assert_eq!(make_unique_reclayout_name("RL_UPDATED.2".to_string(), &existing), "RL_UPDATED.3");
    assert_eq!(make_unique_reclayout_name("X_UPDATED.7".to_string(), &existing), "X_UPDATED");
    assert_eq!(make_unique_reclayout_name("Y_UPDATEDZ".to_string(), &existing), "Y_UPDATEDZ_UPDATED");
}

fn names_of(list: &[&str]) -> Vec<String> {
    list.iter().map(|s| s.to_string()).collect()
}
