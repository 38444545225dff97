use std::collections::HashMap;

use a2ltool::debuginfo::{DbgDataType, DebugData, TypeInfo, VarInfo};
use a2ltool::group::Group;
use a2ltool::creator::definitions::DataType;
use a2ltool::insert::{characteristic_for_symbol, create_default_record_layout, insert_items, insert_many, CharacteristicKind};
use a2ltool::reclayout::RecordLayout;
use a2ltool::names::build_maps;
use a2ltool::search::CompiledRegex;

fn ty(datatype: DbgDataType) -> Option<TypeInfo> {
    Some(TypeInfo { name: None, unit_idx: 0, datatype, dbginfo_offset: 0 })
}

fn var(name: &str, t: Option<TypeInfo>, address: u64) -> (String, Option<TypeInfo>, u64) {
    (name.to_string(), t, address)
}

fn item(name: &str, sym: Option<&str>) -> (String, Option<String>) {
    (name.to_string(), sym.map(|s| s.to_string()))
}

#[test]
fn variables_become_measurements_and_characteristics() {
    let characteristics = vec![item("cal_old", Some("cal_old"))];
    let measurements = vec![item("meas_old", Some("meas_old"))];
    let (name_map, sym_map) = build_maps(&characteristics, &measurements, &[], &[], &[]);
    let measurement_names = vec!["meas_old".to_string()];
    let characteristic_names = vec!["cal_old".to_string()];
    let variables = vec![
        var("meas_a", ty(DbgDataType::Uint16), 0x2000),
        var("meas_old", ty(DbgDataType::Uint8), 0x2004),
        var("ns::cal_b", None, 0x1000_0010),
        var("arr", ty(DbgDataType::Array { size: 4, dim: vec![4], stride: 1, arraytype: Box::new(TypeInfo { name: None, unit_idx: 0, datatype: DbgDataType::Uint8, dbginfo_offset: 0 }) }), 0x2008),
        var("cal_old", ty(DbgDataType::Sint32), 0x2010),
    ];
    let mut groups = vec![Group { name: "Other".to_string(), long_identifier: String::new(), sub_group: None, root: false, ref_measurement: None, ref_characteristic: None }];
    let char_regexes = vec![CompiledRegex::new("^.*cal_.*$").unwrap()];
    let mut log = vec!["earlier".to_string()];
    let (new_meas, new_chars) = insert_many(
        &variables,
        &measurement_names,
        &characteristic_names,
        &name_map,
        &sym_map,
        &mut groups,
        &[(0x2000, 0x2008)],
        &[],
        &[],
        &char_regexes,
        Some("Inserted"),
        &mut log,
    );
    assert_eq!(new_meas, vec![("meas_a".to_string(), 0)]);
    assert_eq!(new_chars, vec![("ns__cal_b".to_string(), 2)]);
    assert_eq!(
        log,
        vec![
            "earlier",
            "Inserted MEASUREMENT meas_a (0x00002000)",
            "Skipped: MEASUREMENT meas_old already references symbol meas_old.",
            "Inserted CHARACTERISTIC ns__cal_b (0x10000010)",
            "Skipped: CHARACTERISTIC cal_old already references symbol cal_old.",
            "Inserted 1 MEASUREMENTs",
            "Inserted 1 CHARACTERISTICs",
        ]
    );
    assert_eq!(groups.len(), 2);
    assert_eq!(groups[1].name, "Inserted");
    assert!(groups[1].root);
    assert_eq!(groups[1].ref_measurement, Some(vec!["meas_a".to_string()]));
    assert_eq!(groups[1].ref_characteristic, Some(vec!["ns__cal_b".to_string()]));
}

#[test]
fn nothing_requested_logs_nothing() {
    let (name_map, sym_map) = build_maps(&[], &[], &[], &[], &[]);
    let variables = vec![var("x", ty(DbgDataType::Uint8), 0x10)];
    let mut groups = Vec::new();
    let mut log = Vec::new();
    let (new_meas, new_chars) =
        insert_many(&variables, &[], &[], &name_map, &sym_map, &mut groups, &[], &[], &[], &[], None, &mut log);
    assert!(new_meas.is_empty());
    assert!(new_chars.is_empty());
    assert!(log.is_empty());
    assert!(groups.is_empty());
}

#[test]
fn a_symbol_linked_by_another_kind_gets_a_prefixed_name() {
    let characteristics = vec![item("cal", Some("shared"))];
    let (name_map, sym_map) = build_maps(&characteristics, &[], &[], &[], &[]);
    let characteristic_names = vec!["cal".to_string()];
    let variables = vec![var("shared", ty(DbgDataType::Float), 0x1_2345_6789)];
    let mut groups = Vec::new();
    let mut log = Vec::new();
    let (new_meas, _) = insert_many(
        &variables,
        &[],
        &characteristic_names,
        &name_map,
        &sym_map,
        &mut groups,
        &[(0, u64::MAX)],
        &[],
        &[],
        &[],
        None,
        &mut log,
    );
    assert_eq!(new_meas, vec![("MEASUREMENT.shared".to_string(), 0)]);
    // an address of more than eight hex digits is written in full
    assert_eq!(log, vec!["Inserted MEASUREMENT MEASUREMENT.shared (0x123456789)", "Inserted 1 MEASUREMENTs"]);
}

fn plain(datatype: DbgDataType) -> TypeInfo {
    TypeInfo { name: None, unit_idx: 0, datatype, dbginfo_offset: 0 }
}

fn var_info(address: u64, typeref: usize) -> VarInfo {
    VarInfo { address, typeref, unit_idx: 0, function: None, namespaces: vec![] }
}

fn debug_data() -> DebugData {
    let mut types = HashMap::new();
    types.insert(1, plain(DbgDataType::Uint16));
    types.insert(
        2,
        plain(DbgDataType::Struct { size: 4, members: vec![("f".to_string(), (plain(DbgDataType::Uint32), 0))] }),
    );
    DebugData {
        variables: vec![
            ("speed".to_string(), vec![var_info(0x100, 1)]),
            ("params".to_string(), vec![var_info(0x200, 2)]),
        ],
        types,
        typenames: vec![],
        demangled_names: vec![],
        unit_names: vec![],
        sections: vec![],
    }
}

#[test]
fn symbols_are_found_and_named() {
    let data = debug_data();
    let uint8 = plain(DbgDataType::Uint8);
    let measurements = vec![item("old", Some("speed"))];
    let (name_map, sym_map) = build_maps(&[], &measurements, &[], &[], &[]);
    let measurement_names = vec!["old".to_string()];
    let mut groups = vec![Group {
        name: "G".to_string(),
        long_identifier: String::new(),
        sub_group: None,
        root: false,
        ref_measurement: Some(vec!["old".to_string()]),
        ref_characteristic: None,
    }];
    let mut log = Vec::new();
    let (new_meas, new_chars) = insert_items(
        &data,
        &uint8,
        &["params.f", "speed", "missing", "params.f"],
        &["speed", "params", "params.f"],
        &measurement_names,
        &[],
        name_map,
        &sym_map,
        &mut groups,
        Some("G"),
        &mut log,
    );
    assert_eq!(
        log,
        vec![
            "Inserted MEASUREMENT params.f",
            "Insert skipped: MEASUREMENT old already references symbol speed.",
            "Insert skipped: Symbol missing could not be added: Symbol \"missing\" does not exist",
            "Insert skipped: MEASUREMENT params.f already exists.",
            "Inserted CHARACTERISTIC CHARACTERISTIC.speed",
            "Insert skipped: Don't know how to add a CHARACTERISTIC for a struct. Please add a struct member instead.",
            "Insert skipped: CHARACTERISTIC params.f already exists.",
        ]
    );
    assert_eq!(new_meas.len(), 1);
    assert_eq!(new_meas[0].0, "params.f");
    assert_eq!(new_meas[0].1, "params.f");
    assert_eq!(new_meas[0].2, 0x200);
    assert!(matches!(new_meas[0].3.datatype, DbgDataType::Uint32));
    assert_eq!(new_chars.len(), 1);
    assert_eq!(new_chars[0].0, "CHARACTERISTIC.speed");
    assert_eq!(new_chars[0].2, 0x100);
    assert_eq!(groups.len(), 1);
    assert_eq!(groups[0].ref_measurement, Some(vec!["old".to_string(), "params.f".to_string()]));
    assert_eq!(groups[0].ref_characteristic, Some(vec!["CHARACTERISTIC.speed".to_string()]));
}

#[test]
fn characteristics_for_symbols() {
    let mut layouts: Vec<RecordLayout> = Vec::new();
    let arr = plain(DbgDataType::Array { size: 8, dim: vec![2, 4], stride: 1, arraytype: Box::new(plain(DbgDataType::Uint8)) });
    let c = characteristic_for_symbol("cal".to_string(), "ns::cal", "cal".to_string(), 0x1_0000_1234, &arr, &mut layouts).unwrap();
    assert_eq!(c.kind, CharacteristicKind::ValBlk);
    assert_eq!(c.matrix_dim, Some(vec![2, 4, 1]));
    assert_eq!(c.address, 0x1234);
    assert_eq!(c.deposit, "__UBYTE_Z");
    assert_eq!(c.long_identifier, "characteristic for ns::cal");
    assert_eq!(c.conversion, "NO_COMPU_METHOD");
    assert_eq!(layouts.len(), 1);
    assert_eq!(layouts[0].name, "__UBYTE_Z");
    assert!(matches!(layouts[0].fnc_values.as_ref().unwrap().datatype, DataType::Ubyte));
    // a second characteristic of the same data type adds no layout
    let c2 = characteristic_for_symbol("v".to_string(), "v", "v".to_string(), 8, &plain(DbgDataType::Uint8), &mut layouts).unwrap();
    assert_eq!(c2.kind, CharacteristicKind::Value);
    assert_eq!(c2.matrix_dim, None);
    assert_eq!(layouts.len(), 1);
    let mut named_enum = plain(DbgDataType::Enum { size: 2, signed: false, enumerators: vec![] });
    named_enum.name = Some("Mode".to_string());
    let c3 = characteristic_for_symbol("m".to_string(), "m", "m".to_string(), 0, &named_enum, &mut layouts).unwrap();
    assert_eq!(c3.conversion, "Mode");
    assert_eq!(c3.deposit, "__UWORD_Z");
    assert_eq!(layouts.len(), 2);
    let bf = plain(DbgDataType::Bitfield { basetype: Box::new(plain(DbgDataType::Uint8)), bit_offset: 2, bit_size: 3 });
    let c4 = characteristic_for_symbol("b".to_string(), "b", "b".to_string(), 0, &bf, &mut layouts).unwrap();
    assert_eq!(c4.bit_mask, Some(0b11100));
    let st = plain(DbgDataType::Struct { size: 4, members: vec![] });
    assert_eq!(
        characteristic_for_symbol("s".to_string(), "s", "s".to_string(), 0, &st, &mut layouts).err().unwrap(),
        "Don't know how to add a CHARACTERISTIC for a struct. Please add a struct member instead."
    );
    assert_eq!(layouts.len(), 2);
}

#[test]
fn default_record_layouts_are_made_once() {
    let mut layouts: Vec<RecordLayout> = Vec::new();
    assert_eq!(create_default_record_layout(&mut layouts, DataType::Float64Ieee), "__FLOAT64_IEEE_Z");
    assert_eq!(create_default_record_layout(&mut layouts, DataType::Float64Ieee), "__FLOAT64_IEEE_Z");
    assert_eq!(layouts.len(), 1);
    let fv = layouts[0].fnc_values.as_ref().unwrap();
    assert_eq!(fv.position, 1);
    assert_eq!(fv.details, vec!["ROW_DIR".to_string(), "DIRECT".to_string()]);
    assert_eq!(layouts[0].axes.len(), 5);
}
