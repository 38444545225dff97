use std::collections::HashMap;

use a2ltool::creator::definitions::DataType;
use a2ltool::datatype::{get_a2l_datatype, get_bitmask, get_matrix_dim};
use a2ltool::debuginfo::builtin::{is_builtin_type, read_builtin_type};
use a2ltool::debuginfo::dwarf::{demangle_cpp_varnames, get_pointer_name, get_unit, WipItemInfo, DW_TAG_CONST_TYPE, DW_TAG_POINTER_TYPE};
use a2ltool::debuginfo::iter::{default_typeinfo, TypeInfoIter, VariablesIterator};
use a2ltool::debuginfo::{
    filter_extern_variables, get_base_type, make_simple_unit_name, DbgDataType, DebugData, TypeInfo, VarInfo,
    DW_ATE_ADDRESS, DW_ATE_FLOAT, DW_ATE_SIGNED, DW_ATE_UNSIGNED_CHAR,
};
use a2ltool::symbol::{find_membertype, split_symbol_components};

fn ty(datatype: DbgDataType) -> TypeInfo {
    TypeInfo { name: None, unit_idx: usize::MAX, datatype, dbginfo_offset: 0 }
}

fn ty_at(datatype: DbgDataType, offset: usize, name: Option<&str>) -> TypeInfo {
    TypeInfo { name: name.map(|n| n.to_string()), unit_idx: 0, datatype, dbginfo_offset: offset }
}

fn count(iter: &mut TypeInfoIter) -> usize {
    let mut n = 0;
    while iter.next().is_some() {
        n += 1;
    }
    n
}

#[test]
fn iter_test_typeinfo_iter() {
    // basic types, e.g. Sint<x> and Uint<x> cannot be iterated over
    // a TypeInfoIter for these immediately returns None
    let typeinfo = ty(DbgDataType::Sint16);
    let types = HashMap::new();
    let mut iter = TypeInfoIter::new(&types, &typeinfo, false);
    let result = iter.next();
    assert!(result.is_none());

    // a struct iterates over all of its members
    let mut types = HashMap::new();
    let structmembers_a = (1..=5)
        .map(|i| (format!("structmember_{i}"), (ty(DbgDataType::Uint64), 0)))
        .collect();
    let typeinfo_inner_1 = ty(DbgDataType::Struct { size: 64, members: structmembers_a });
    let structmembers_b = (1..=3)
        .map(|i| (format!("foobar_{i}"), (ty(DbgDataType::Uint64), 0)))
        .collect();
    let typeinfo_inner_2 = ty(DbgDataType::Struct { size: 64, members: structmembers_b });
    types.insert(100, typeinfo_inner_1);
    types.insert(101, typeinfo_inner_2);
    let structmembers = vec![
        ("inner_a".to_string(), (ty(DbgDataType::TypeRef(100, 0)), 0)),
        ("inner_b".to_string(), (ty(DbgDataType::TypeRef(101, 0)), 0)),
    ];
    let typeinfo = ty(DbgDataType::Struct { size: 64, members: structmembers });
    let mut iter = TypeInfoIter::new(&types, &typeinfo, false);
    assert_eq!(count(&mut iter), 10);
}

#[test]
fn typeinfo_iter_names_and_offsets() {
    let types = HashMap::new();
    let element = ty(DbgDataType::Struct {
        size: 4,
        members: vec![("x".to_string(), (ty(DbgDataType::Uint16), 0)), ("y".to_string(), (ty(DbgDataType::Uint16), 2))],
    });
    let array = ty(DbgDataType::Array { size: 8, dim: vec![2], stride: 4, arraytype: Box::new(element) });
    let outer = ty(DbgDataType::Struct { size: 8, members: vec![("arr".to_string(), (array, 16))] });
    let mut iter = TypeInfoIter::new(&types, &outer, true);
    let mut items = Vec::new();
    while let Some((name, _t, offset)) = iter.next() {
        items.push((name, offset));
    }
    assert_eq!(
        items,
        vec![
            (".arr".to_string(), 16),
            (".arr[0]".to_string(), 16),
            (".arr[0].x".to_string(), 16),
            (".arr[0].y".to_string(), 18),
            (".arr[1]".to_string(), 20),
            (".arr[1].x".to_string(), 20),
            (".arr[1].y".to_string(), 22),
        ]
    );

    // the old notation for array elements, and skipping the parts of a member
    let mut iter = TypeInfoIter::new(&types, &outer, false);
    assert_eq!(iter.next().unwrap().0, ".arr");
    assert_eq!(iter.next().unwrap().0, ".arr._0_");
    iter.up();
    assert_eq!(iter.next().unwrap().0, ".arr._1_");
}

#[test]
fn type_sizes_and_a2l_types() {
    let bitfield = ty(DbgDataType::Bitfield { basetype: Box::new(ty(DbgDataType::Sint32)), bit_offset: 3, bit_size: 5 });
    assert_eq!(bitfield.get_size(), 4);
    assert_eq!(get_a2l_datatype(&bitfield), DataType::Slong);
    assert_eq!(ty(DbgDataType::Double).get_size(), 8);
    assert_eq!(get_a2l_datatype(&ty(DbgDataType::Double)), DataType::Float64Ieee);
    assert_eq!(get_a2l_datatype(&ty(DbgDataType::Pointer(8, 0))), DataType::AUint64);
    assert_eq!(get_a2l_datatype(&ty(DbgDataType::Pointer(4, 0))), DataType::Ulong);
    let en = ty(DbgDataType::Enum { size: 2, signed: true, enumerators: vec![] });
    assert_eq!(get_a2l_datatype(&en), DataType::Sword);
    let en = ty(DbgDataType::Enum { size: 3, signed: false, enumerators: vec![] });
    assert_eq!(get_a2l_datatype(&en), DataType::Ubyte);
    assert_eq!(get_a2l_datatype(&ty(DbgDataType::Other(4))), DataType::Ulong);
    let arr = ty(DbgDataType::Array { size: 8, dim: vec![4], stride: 2, arraytype: Box::new(ty(DbgDataType::Sint16)) });
    assert_eq!(arr.get_size(), 8);
    assert_eq!(get_a2l_datatype(&arr), DataType::Sword);
    assert_eq!(get_a2l_datatype(&ty(DbgDataType::FuncPtr(8))), DataType::Ubyte);
}

#[test]
fn references_pointers_and_members() {
    let mut types = HashMap::new();
    types.insert(7, ty_at(DbgDataType::Uint32, 7, Some("u32")));
    let r = ty(DbgDataType::TypeRef(7, 4));
    assert!(matches!(r.get_reference(&types).datatype, DbgDataType::Uint32));
    let dangling = ty(DbgDataType::TypeRef(8, 4));
    assert!(matches!(dangling.get_reference(&types).datatype, DbgDataType::TypeRef(8, 4)));
    let p = ty(DbgDataType::Pointer(8, 7));
    let (size, target) = p.get_pointer(&types).unwrap();
    assert_eq!(size, 8);
    assert_eq!(target.dbginfo_offset, 7);
    assert!(ty(DbgDataType::Pointer(8, 9)).get_pointer(&types).is_none());
    let s = ty(DbgDataType::Struct { size: 1, members: vec![("m".to_string(), (ty(DbgDataType::Uint8), 0))] });
    assert_eq!(s.get_members().unwrap().len(), 1);
    assert!(ty(DbgDataType::Uint8).get_members().is_none());
    let a = ty(DbgDataType::Array { size: 2, dim: vec![2], stride: 1, arraytype: Box::new(ty(DbgDataType::Uint8)) });
    assert!(matches!(a.get_arraytype().unwrap().datatype, DbgDataType::Uint8));
}

#[test]
fn compare_types() {
    let types = HashMap::new();
    let s1 = ty_at(
        DbgDataType::Struct { size: 4, members: vec![("a".to_string(), (ty_at(DbgDataType::Uint32, 10, None), 0))] },
        1,
        Some("S"),
    );
    let s2 = ty_at(
        DbgDataType::Struct { size: 4, members: vec![("a".to_string(), (ty_at(DbgDataType::Uint32, 20, None), 0))] },
        2,
        Some("S"),
    );
    let s3 = ty_at(
        DbgDataType::Struct { size: 4, members: vec![("b".to_string(), (ty_at(DbgDataType::Uint32, 20, None), 0))] },
        3,
        Some("S"),
    );
    let s4 = ty_at(
        DbgDataType::Struct { size: 4, members: vec![("a".to_string(), (ty_at(DbgDataType::Sint32, 20, None), 0))] },
        4,
        Some("S"),
    );
    assert!(s1.compare(&s1, &types));
    assert!(s1.compare(&s2, &types));
    assert!(!s1.compare(&s3, &types));
    assert!(!s1.compare(&s4, &types));
    let named_t = ty_at(DbgDataType::Uint8, 5, Some("T"));
    let named_u = ty_at(DbgDataType::Uint8, 6, Some("U"));
    assert!(!named_t.compare(&named_u, &types));
    let e1 = ty_at(DbgDataType::Enum { size: 4, signed: false, enumerators: vec![("A".to_string(), 0)] }, 1, None);
    let e2 = ty_at(DbgDataType::Enum { size: 4, signed: false, enumerators: vec![("A".to_string(), 1)] }, 2, None);
    assert!(!e1.compare(&e2, &types));
}

#[test]
fn compare_either_way_round() {
    let types = HashMap::new();
    let member = |name: &str, dt: DbgDataType, off: usize, offset: u64| (name.to_string(), (ty_at(dt, off, None), offset));
    // the same members in another order
    let s1 = ty_at(
        DbgDataType::Struct {
            size: 8,
            members: vec![member("a", DbgDataType::Uint32, 10, 0), member("b", DbgDataType::Uint16, 11, 4)],
        },
        1,
        Some("S"),
    );
    let s2 = ty_at(
        DbgDataType::Struct {
            size: 8,
            members: vec![member("b", DbgDataType::Uint16, 21, 4), member("a", DbgDataType::Uint32, 20, 0)],
        },
        2,
        Some("S"),
    );
    assert!(s1.compare(&s2, &types));
    assert!(s2.compare(&s1, &types));
    // a member at another offset
    let s3 = ty_at(
        DbgDataType::Struct {
            size: 8,
            members: vec![member("a", DbgDataType::Uint32, 30, 0), member("b", DbgDataType::Uint16, 31, 6)],
        },
        3,
        Some("S"),
    );
    assert!(!s1.compare(&s3, &types));
    assert!(!s3.compare(&s1, &types));
}

#[test]
fn builtin_types() {
    assert!(is_builtin_type(0x0fff));
    assert!(!is_builtin_type(0x1000));
    let mut types = HashMap::new();
    assert!(read_builtin_type(0x0074, &mut types).is_ok());
    assert!(matches!(types.get(&0x74).unwrap().datatype, DbgDataType::Sint32));
    assert_eq!(types.len(), 1);
    // a 64 bit pointer to an unsigned char
    assert!(read_builtin_type(0x0620, &mut types).is_ok());
    assert!(matches!(types.get(&0x20).unwrap().datatype, DbgDataType::Uint8));
    assert!(matches!(types.get(&0x620).unwrap().datatype, DbgDataType::Pointer(8, 0x20)));
    // unknown base type
    let err = read_builtin_type(0x00ff, &mut types).unwrap_err();
    assert_eq!(err, "Unknown built-in type: 255");
    // near pointers are refused after the base type was added
    let err = read_builtin_type(0x0141, &mut types).unwrap_err();
    assert_eq!(err, "Near pointers are not supported");
    assert!(matches!(types.get(&0x41).unwrap().datatype, DbgDataType::Double));
    assert!(types.get(&0x141).is_none());
    let err = read_builtin_type(0x0a03, &mut types).unwrap_err();
    assert_eq!(err, "Unknown built-in pointer type: 10 for type 0a03");
}

#[test]
fn simple_unit_names() {
    let data = DebugData {
        variables: vec![],
        types: HashMap::new(),
        typenames: vec![],
        demangled_names: vec![],
        unit_names: vec![
            Some("C:\\src\\file_a.c".to_string()),
            Some("/home/u/src/lib.v2.c".to_string()),
            Some("plain.c".to_string()),
            None,
        ],
        sections: vec![],
    };
    assert_eq!(make_simple_unit_name(&data, 0), Some("file_a_c".to_string()));
    assert_eq!(make_simple_unit_name(&data, 1), Some("lib_v2_c".to_string()));
    assert_eq!(make_simple_unit_name(&data, 2), Some("plain_c".to_string()));
    assert_eq!(make_simple_unit_name(&data, 3), None);
    assert_eq!(make_simple_unit_name(&data, 4), None);
}

#[test]
fn member_lookup_of_array() {
    // uint32_t my_array[2] at 0x1234
    let arr = ty(DbgDataType::Array { size: 8, dim: vec![2], stride: 4, arraytype: Box::new(ty(DbgDataType::Uint32)) });
    let c = split_symbol_components("my_array._1_");
    let (addr, t) = find_membertype(&arr, &c, 1, 0x1234).unwrap();
    assert_eq!(addr, 0x1238);
    assert!(matches!(t.datatype, DbgDataType::Uint32));
    let c = split_symbol_components("my_array[0]");
    assert_eq!(find_membertype(&arr, &c, 1, 0x1234).unwrap().0, 0x1234);
    // the whole array
    let c = split_symbol_components("my_array");
    let (addr, t) = find_membertype(&arr, &c, 1, 0x1234).unwrap();
    assert_eq!(addr, 0x1234);
    assert!(matches!(t.datatype, DbgDataType::Array { .. }));
    // extra components and indices past the end are errors
    let c = split_symbol_components("my_array._0_.lalala");
    assert!(find_membertype(&arr, &c, 1, 0x1234).is_err());
    let c = split_symbol_components("my_array._2_");
    assert!(find_membertype(&arr, &c, 1, 0x1234).is_err());
}

#[test]
fn member_lookup_in_struct() {
    let arr = ty(DbgDataType::Array { size: 24, dim: vec![2, 3], stride: 4, arraytype: Box::new(ty(DbgDataType::Uint32)) });
    let s = ty(DbgDataType::Struct { size: 32, members: vec![("pad".to_string(), (ty(DbgDataType::Uint64), 0)), ("array_item".to_string(), (arr, 8))] });
    let c = split_symbol_components("my_struct.array_item._1_._2_");
    let (addr, _) = find_membertype(&s, &c, 1, 0xcafe00).unwrap();
    assert_eq!(addr, 0xcafe00 + 8 + (3 + 2) * 4);
    // left-out indices are 0
    let c = split_symbol_components("my_struct.array_item[1]");
    assert_eq!(find_membertype(&s, &c, 1, 0xcafe00).unwrap().0, 0xcafe00 + 8 + 3 * 4);
    let c = split_symbol_components("my_struct.array_item._0_.extra.unused");
    assert!(find_membertype(&s, &c, 1, 0xcafe00).is_err());
    let c = split_symbol_components("my_struct.missing");
    assert!(find_membertype(&s, &c, 1, 0xcafe00).is_err());
}

fn var(address: u64, typeref: usize, unit_idx: usize) -> VarInfo {
    VarInfo { address, typeref, unit_idx, function: None, namespaces: vec![] }
}

#[test]
fn iter_test_varinfo_iter() {
    let variables = vec![
        ("var_a".to_string(), vec![var(1, 0, 0)]),
        ("var_b".to_string(), vec![var(2, 0, 0)]),
        ("var_c".to_string(), vec![var(3, 1, 0), var(33, 1, 1)]),
        // some number with no correspondence in the types hash map
        ("var_d_wo_type_info".to_string(), vec![var(4, 404, 0)]),
    ];
    let mut types = HashMap::<usize, TypeInfo>::new();
    let structmembers = vec![
        ("member_1".to_string(), (ty(DbgDataType::Uint8), 0)),
        ("member_2".to_string(), (ty(DbgDataType::Uint8), 1)),
    ];
    types.insert(1, ty(DbgDataType::Struct { size: 64, members: structmembers }));
    let debugdata = DebugData {
        variables,
        types,
        typenames: vec![],
        demangled_names: vec![],
        unit_names: vec![Some("file_a.c".to_string()), Some("file_b.c".to_string())],
        sections: vec![],
    };
    let default_type = default_typeinfo();

    let mut iter = VariablesIterator::new(&debugdata, &default_type, false);
    let mut count = 0;
    while iter.next().is_some() {
        count += 1;
    }
    assert_eq!(count, 9);

    // test iter.next_sibling()
    let mut iter = VariablesIterator::new(&debugdata, &default_type, false);
    let mut current = iter.next();
    let mut count = 0;
    while let Some(sym_info) = current {
        count += 1;
        if matches!(&sym_info.typeinfo.datatype, DbgDataType::Struct { .. }) {
            current = iter.next_sibling();
        } else {
            current = iter.next();
        }
    }
    assert_eq!(count, 5);
}

#[test]
fn varinfo_iter_names_and_addresses() {
    let types_members = vec![("m".to_string(), (ty(DbgDataType::Uint8), 4))];
    let mut types = HashMap::new();
    types.insert(1, ty(DbgDataType::Struct { size: 8, members: types_members }));
    let debugdata = DebugData {
        variables: vec![("s".to_string(), vec![var(0x100, 1, 0)]), ("t".to_string(), vec![var(0x200, 9, 0), var(0x300, 9, 0)])],
        types,
        typenames: vec![],
        demangled_names: vec![],
        unit_names: vec![],
        sections: vec![],
    };
    let default_type = default_typeinfo();
    let mut iter = VariablesIterator::new(&debugdata, &default_type, true);
    let a = iter.next().unwrap();
    assert_eq!((a.name.as_str(), a.address, a.is_unique), ("s", 0x100, true));
    let b = iter.next().unwrap();
    assert_eq!((b.name.as_str(), b.address), ("s.m", 0x104));
    let c = iter.next().unwrap();
    assert_eq!((c.name.as_str(), c.address, c.is_unique), ("t", 0x200, false));
    assert!(matches!(c.typeinfo.datatype, DbgDataType::Sint16));
    let d = iter.next().unwrap();
    assert_eq!((d.name.as_str(), d.address), ("t", 0x300));
    assert!(iter.next().is_none());
}

#[test]
fn dwarf_base_types() {
    let (t, name) = get_base_type(Some(8), Some(DW_ATE_FLOAT), 4);
    assert!(matches!(t, DbgDataType::Double));
    assert_eq!(name, "double");
    let (t, name) = get_base_type(Some(4), Some(DW_ATE_FLOAT), 4);
    assert!(matches!(t, DbgDataType::Float));
    assert_eq!(name, "float");
    let (t, name) = get_base_type(Some(2), Some(DW_ATE_SIGNED), 4);
    assert!(matches!(t, DbgDataType::Sint16));
    assert_eq!(name, "sint16");
    let (t, name) = get_base_type(Some(16), Some(DW_ATE_SIGNED), 4);
    assert!(matches!(t, DbgDataType::Other(16)));
    assert_eq!(name, "double");
    let (t, name) = get_base_type(None, None, 4);
    assert!(matches!(t, DbgDataType::Uint8));
    assert_eq!(name, "uint8");
    let (t, _) = get_base_type(Some(8), Some(DW_ATE_UNSIGNED_CHAR), 4);
    assert!(matches!(t, DbgDataType::Uint64));
    let (t, name) = get_base_type(Some(4), Some(DW_ATE_ADDRESS), 8);
    assert!(matches!(t, DbgDataType::Pointer(8, 0)));
    assert_eq!(name, "unknown");
    let (t, name) = get_base_type(Some(4), Some(0x10), 8);
    assert!(matches!(t, DbgDataType::Other(4)));
    assert_eq!(name, "other");
}

#[test]
fn extern_declarations_are_filtered() {
    let mut types = HashMap::new();
    types.insert(1, ty(DbgDataType::TypeRef(2, 4)));
    types.insert(2, ty(DbgDataType::Uint32));
    let mut variables = vec![
        ("a".to_string(), vec![var(1, 1, 0), var(2, 2, 1), var(3, 7, 2)]),
        // a single definition stays, even if it is a declaration
        ("b".to_string(), vec![var(4, 1, 0)]),
        ("c".to_string(), vec![var(5, 1, 0), var(6, 1, 1)]),
    ];
    filter_extern_variables(&mut variables, &types);
    let addresses: Vec<Vec<u64>> = variables.iter().map(|(_, l)| l.iter().map(|v| v.address).collect()).collect();
    assert_eq!(addresses, vec![vec![2, 3], vec![4], vec![]]);
    assert_eq!(variables[2].0, "c");
}

#[test]
fn type_display_texts() {
    assert_eq!(ty(DbgDataType::Uint16).display(), "Uint16");
    assert_eq!(ty(DbgDataType::Other(10)).display(), "Other(10)");
    assert_eq!(ty(DbgDataType::FuncPtr(8)).display(), "function pointer(8)");
    assert_eq!(ty(DbgDataType::TypeRef(42, 4)).display(), "TypeRef(42)");
    let s = ty_at(DbgDataType::Struct { size: 2, members: vec![("a".to_string(), (ty(DbgDataType::Uint8), 0))] }, 1, Some("S"));
    assert_eq!(s.display(), "Struct S(1 members)");
    let e = ty(DbgDataType::Enum { size: 4, signed: false, enumerators: vec![] });
    assert_eq!(e.display(), "Enum <anonymous>(0 enumerators)");
    let a = ty(DbgDataType::Array { size: 24, dim: vec![2, 3], stride: 4, arraytype: Box::new(ty(DbgDataType::Float)) });
    assert_eq!(a.display(), "Array([2, 3] x Float)");
}

#[test]
fn matrix_dims_and_bitmasks() {
    let inner = ty(DbgDataType::Array { size: 12, dim: vec![3], stride: 4, arraytype: Box::new(ty(DbgDataType::Uint32)) });
    let outer = ty(DbgDataType::Array { size: 24, dim: vec![2], stride: 12, arraytype: Box::new(inner) });
    assert_eq!(get_matrix_dim(&outer, true), Some(vec![2, 3]));
    assert_eq!(get_matrix_dim(&outer, false), Some(vec![2, 3, 1]));
    let big = ty(DbgDataType::Array { size: 16, dim: vec![1, 2, 2, 2], stride: 2, arraytype: Box::new(ty(DbgDataType::Uint16)) });
    assert_eq!(get_matrix_dim(&big, false), Some(vec![1, 2, 2]));
    assert_eq!(get_matrix_dim(&big, true), Some(vec![1, 2, 2, 2]));
    assert_eq!(get_matrix_dim(&ty(DbgDataType::Uint8), true), None);
    let bf = ty(DbgDataType::Bitfield { basetype: Box::new(ty(DbgDataType::Uint32)), bit_offset: 4, bit_size: 3 });
    assert_eq!(get_bitmask(&bf), Some(0x70));
    assert_eq!(get_bitmask(&ty(DbgDataType::Uint32)), None);
}

#[test]
fn cpp_names_are_demangled() {
    let input: Vec<String> = ["_ZN2ns3varE", "c", "_ZTVSt9type_info", "plain", "_ZN5space3fooEibc"]
        .iter()
        .map(|s| s.to_string())
        .collect();
    let demangled = demangle_cpp_varnames(&input);
    assert_eq!(
        demangled,
        vec![
            ("ns::var".to_string(), "_ZN2ns3varE".to_string()),
            ("space::foo".to_string(), "_ZN5space3fooEibc".to_string()),
        ]
    );
}

#[test]
fn units_of_entries() {
    let units = [(0usize, 100usize), (100, 50), (150, 10)];
    assert_eq!(get_unit(&units, 20), Some(0));
    assert_eq!(get_unit(&units, 120), Some(1));
    // an entry at the very start of a unit header belongs to no unit
    assert_eq!(get_unit(&units, 100), None);
    assert_eq!(get_unit(&units, 200), None);
}

#[test]
fn pointer_names_from_types_being_read() {
    let wip = vec![
        WipItemInfo::new(1, None, DW_TAG_POINTER_TYPE),
        WipItemInfo::new(2, None, DW_TAG_CONST_TYPE),
        WipItemInfo::new(3, Some("node".to_string()), 0x13),
        WipItemInfo::new(4, None, 0x13),
    ];
    assert_eq!(get_pointer_name(&wip, 0), Some("node".to_string()));
    assert_eq!(get_pointer_name(&wip, 3), None);
    assert_eq!(get_pointer_name(&wip, 9), None);
    let wip2 = vec![WipItemInfo::new(1, None, 0x13), WipItemInfo::new(2, Some("x".to_string()), 0x13)];
    assert_eq!(get_pointer_name(&wip2, 0), None);
}
