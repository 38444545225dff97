use std::collections::HashMap;

use a2ltool::debuginfo::{DbgDataType, DebugData, TypeInfo, VarInfo};
use a2ltool::symbol::{find_symbol, get_index, split_symbol_components, try_find_symbol};

#[test]
fn test_split_symbol_components() {
    let result = split_symbol_components("my_struct.array_field[5][1]");
    assert_eq!(result.len(), 4);
    assert_eq!(result[0], "my_struct");
    assert_eq!(result[1], "array_field");
    assert_eq!(result[2], "[5]");
    assert_eq!(result[3], "[1]");

    let result2 = split_symbol_components("my_struct.array_field._5_._1_");
    assert_eq!(result2.len(), 4);
    assert_eq!(result2[0], "my_struct");
    assert_eq!(result2[1], "array_field");
    assert_eq!(result2[2], "_5_");
    assert_eq!(result2[3], "_1_");
}

#[test]
fn split_symbol_edge_cases() {
    assert_eq!(split_symbol_components(""), vec![""]);
    assert_eq!(split_symbol_components("a."), vec!["a", ""]);
    assert_eq!(split_symbol_components("[3]x"), vec!["", "[3]", "x"]);
    assert_eq!(split_symbol_components("v[1]tail.w"), vec!["v", "[1]", "tail", "w"]);
}

#[test]
fn index_notations() {
    assert_eq!(get_index("_12_"), Some(12));
    assert_eq!(get_index("[7]"), Some(7));
    assert_eq!(get_index("[+7]"), Some(7));
    assert_eq!(get_index("[]"), None);
    assert_eq!(get_index("__"), None);
    assert_eq!(get_index("[x]"), None);
    assert_eq!(get_index("_3]"), None);
    assert_eq!(get_index("7"), None);
    assert_eq!(get_index("[99999999999999999999999]"), None);
}

#[test]
fn plain_name_is_one_component() {
    assert_eq!(split_symbol_components("abc_def"), vec!["abc_def"]);
}

fn ty(datatype: DbgDataType) -> TypeInfo {
    TypeInfo { name: None, unit_idx: 0, datatype, dbginfo_offset: 0 }
}

fn var(address: u64, typeref: usize) -> VarInfo {
    VarInfo { address, typeref, unit_idx: 0, function: None, namespaces: vec![] }
}

fn debug_data(variables: Vec<(String, Vec<VarInfo>)>, types: HashMap<usize, TypeInfo>) -> DebugData {
    DebugData {
        variables,
        types,
        typenames: vec![],
        demangled_names: vec![],
        unit_names: vec![],
        sections: vec![],
    }
}

#[test]
fn test_find_symbol_of_array() {
    // global variable: uint32_t my_array[2]
    let mut types = HashMap::new();
    types.insert(
        1,
        ty(DbgDataType::Array {
            arraytype: Box::new(ty(DbgDataType::Uint32)),
            dim: vec![2],
            size: 8, // total size of the array
            stride: 4,
        }),
    );
    let dbgdata = debug_data(vec![("my_array".to_string(), vec![var(0x1234, 1)])], types);
    let uint8 = ty(DbgDataType::Uint8);

    // try the different array indexing notations
    let result1 = find_symbol("my_array._0_", &dbgdata, &uint8);
    assert!(result1.is_ok());
    // C-style notation is only allowed starting with ASAP2 version 1.7, before that the '[' and ']' are not allowed in names
    let result2 = find_symbol("my_array[0]", &dbgdata, &uint8);
    assert!(result2.is_ok());

    // it should also be possible to get a typeref for the entire array
    let result3 = find_symbol("my_array", &dbgdata, &uint8);
    assert!(result3.is_ok());

    // there should not be a result if the symbol name contains extra unmatched components
    let result4 = find_symbol("my_array._0_.lalala", &dbgdata, &uint8);
    assert!(result4.is_err());
    // going past the end of the array is also not permitted
    let result5 = find_symbol("my_array._2_", &dbgdata, &uint8);
    assert!(result5.is_err());
}

#[test]
fn test_find_symbol_of_array_in_struct() {
    // global variable defined in C like this:
    // struct {
    //        uint32_t array_item[2];
    // } my_struct;
    let structmembers = vec![(
        "array_item".to_string(),
        (
            ty(DbgDataType::Array {
                arraytype: Box::new(ty(DbgDataType::Uint32)),
                dim: vec![2],
                size: 8,
                stride: 4,
            }),
            0,
        ),
    )];
    let mut types = HashMap::new();
    types.insert(2, ty(DbgDataType::Struct { members: structmembers, size: 4 }));
    let dbgdata = debug_data(vec![("my_struct".to_string(), vec![var(0xcafe00, 2)])], types);
    let uint8 = ty(DbgDataType::Uint8);

    // try the different array indexing notations
    let result1 = find_symbol("my_struct.array_item._0_", &dbgdata, &uint8);
    assert!(result1.is_ok());
    // C-style notation is only allowed starting with ASAP2 version 1.7, before that the '[' and ']' are not allowed in names
    let result2 = find_symbol("my_struct.array_item[0]", &dbgdata, &uint8);
    assert!(result2.is_ok());

    // theres should not be a result if the symbol name contains extra unmatched components
    let result3 = find_symbol("my_struct.array_item._0_.extra.unused", &dbgdata, &uint8);
    assert!(result3.is_err());
}

fn struct_data() -> DebugData {
    let arr = ty(DbgDataType::Array { size: 24, dim: vec![2, 3], stride: 4, arraytype: Box::new(ty(DbgDataType::Uint32)) });
    let s = ty(DbgDataType::Struct {
        size: 32,
        members: vec![("pad".to_string(), (ty(DbgDataType::Uint64), 0)), ("array_item".to_string(), (arr, 8))],
    });
    let mut types = HashMap::new();
    types.insert(7, s);
    let mut data = debug_data(
        vec![
            ("my_struct".to_string(), vec![var(0xcafe00, 7)]),
            ("_ZN2ns5countE".to_string(), vec![var(0x2000, 7)]),
            ("untyped".to_string(), vec![var(0x3000, 99)]),
        ],
        types,
    );
    data.demangled_names = vec![("ns::count".to_string(), "_ZN2ns5countE".to_string())];
    data
}

#[test]
fn find_symbol_gives_address_and_type() {
    let data = struct_data();
    let uint8 = ty(DbgDataType::Uint8);
    let (name, addr, t) = find_symbol("my_struct.array_item[1][2]", &data, &uint8).unwrap();
    assert_eq!(name, "my_struct.array_item[1][2]");
    assert_eq!(addr, 0xcafe00 + 8 + (3 + 2) * 4);
    assert!(matches!(t.datatype, DbgDataType::Uint32));
    // a variable whose type is missing has the default type, and no parts
    let (_, addr, t) = find_symbol("untyped", &data, &uint8).unwrap();
    assert_eq!(addr, 0x3000);
    assert!(matches!(t.datatype, DbgDataType::Uint8));
    assert_eq!(
        find_symbol("untyped.x.y", &data, &uint8).unwrap_err(),
        "Remaining portion \"x.y\" of \"untyped.x.y\" could not be matched"
    );
}

#[test]
fn find_symbol_by_demangled_name() {
    let data = struct_data();
    let uint8 = ty(DbgDataType::Uint8);
    let (name, addr, _) = find_symbol("ns::count.pad", &data, &uint8).unwrap();
    assert_eq!(name, "_ZN2ns5countE.pad");
    assert_eq!(addr, 0x2000);
    // the message is that of the lookup under the name as given
    assert_eq!(find_symbol("ns::count.none", &data, &uint8).unwrap_err(), "Symbol \"ns::count\" does not exist");
}

#[test]
fn find_symbol_error_messages() {
    let data = struct_data();
    let uint8 = ty(DbgDataType::Uint8);
    assert_eq!(find_symbol("nothing.a", &data, &uint8).unwrap_err(), "Symbol \"nothing\" does not exist");
    assert_eq!(
        find_symbol("my_struct.missing", &data, &uint8).unwrap_err(),
        "There is no member \"missing\" in \"my_struct\""
    );
    assert_eq!(
        find_symbol("my_struct.array_item._2_", &data, &uint8).unwrap_err(),
        "requested array index 2 in expression \"my_struct.array_item._2_\", but the array only has 2 elements"
    );
    assert_eq!(
        find_symbol("my_struct.array_item[x]", &data, &uint8).unwrap_err(),
        "could not interpret \"[x]\" as an array index"
    );
    assert_eq!(
        find_symbol("my_struct.pad.low", &data, &uint8).unwrap_err(),
        "Remaining portion \"low\" of \"my_struct.pad.low\" could not be matched"
    );
}

#[test]
fn checked_symbol_lookup() {
    let data = struct_data();
    let uint8 = ty(DbgDataType::Uint8);
    let (name, addr, _) = try_find_symbol("my_struct.pad", &data, &uint8).unwrap().unwrap();
    assert_eq!((name.as_str(), addr), ("my_struct.pad", 0xcafe00));
    assert_eq!(try_find_symbol("nothing", &data, &uint8).unwrap().unwrap_err(), "Symbol \"nothing\" does not exist");
    // a lone underscore as an array index is no lookup the tool can make
    assert!(try_find_symbol("my_struct.array_item._", &data, &uint8).is_none());
}
