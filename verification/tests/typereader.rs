use a2ltool::debuginfo::typereader::{
    find_die, load_type, DieInfo, DW_TAG_ARRAY, DW_TAG_BASE, DW_TAG_CLASS, DW_TAG_CONST, DW_TAG_ENUMERATION,
    DW_TAG_ENUMERATOR, DW_TAG_INHERITANCE, DW_TAG_MEMBER, DW_TAG_POINTER, DW_TAG_STRUCTURE, DW_TAG_SUBRANGE,
    DW_TAG_SUBROUTINE, DW_TAG_TYPEDEF, DW_TAG_UNION,
};
use a2ltool::debuginfo::{DbgDataType, TypeInfo};

fn die(offset: usize, tag: u16) -> DieInfo {
    DieInfo {
        offset,
        tag,
        unit_idx: 0,
        address_size: 4,
        name: None,
        byte_size: None,
        encoding: None,
        type_ref: None,
        byte_stride: None,
        upper_bound: None,
        lower_bound: None,
        count: None,
        const_value: None,
        member_location: None,
        bit_size: None,
        bit_offset: None,
        data_bit_offset: None,
        children: vec![],
    }
}

fn base(offset: usize, name: &str, size: u64, encoding: u8) -> DieInfo {
    let mut d = die(offset, DW_TAG_BASE);
    d.name = Some(name.to_string());
    d.byte_size = Some(size);
    d.encoding = Some(encoding);
    d
}

fn member(offset: usize, name: Option<&str>, type_ref: usize, location: u64) -> DieInfo {
    let mut d = die(offset, DW_TAG_MEMBER);
    d.name = name.map(|n| n.to_string());
    d.type_ref = Some(type_ref);
    d.member_location = Some(location);
    d
}

fn members(t: &TypeInfo) -> &Vec<(String, (TypeInfo, u64))> {
    match &t.datatype {
        DbgDataType::Struct { members, .. } | DbgDataType::Union { members, .. } | DbgDataType::Class { members, .. } => {
            members
        }
        other => panic!("not a compound type: {other:?}"),
    }
}

#[test]
fn base_types_by_encoding_and_size() {
    let dies = vec![base(0x10, "int", 4, 0x05), base(0x20, "unsigned char", 1, 0x08), base(0x30, "double", 8, 0x04)];
    let t = load_type(&dies, false, 0, 0x10);
    assert!(matches!(t.datatype, DbgDataType::Sint32));
    assert_eq!(t.name.as_deref(), Some("int"));
    assert_eq!(t.dbginfo_offset, 0x10);
    assert!(matches!(load_type(&dies, false, 0, 0x20).datatype, DbgDataType::Uint8));
    assert!(matches!(load_type(&dies, false, 0, 0x30).datatype, DbgDataType::Double));
}

#[test]
fn typedef_takes_target_datatype_and_own_name() {
    let mut td = die(0x40, DW_TAG_TYPEDEF);
    td.name = Some("uint16".to_string());
    td.type_ref = Some(0x10);
    let dies = vec![base(0x10, "unsigned short", 2, 0x07), td];
    let t = load_type(&dies, false, 0, 0x40);
    assert!(matches!(t.datatype, DbgDataType::Uint16));
    assert_eq!(t.name.as_deref(), Some("uint16"));
    assert_eq!(t.dbginfo_offset, 0x40);
}

#[test]
fn const_passes_name_of_target_and_void_pointer() {
    let mut c = die(0x50, DW_TAG_CONST);
    c.type_ref = Some(0x10);
    let mut p = die(0x60, DW_TAG_POINTER);
    p.address_size = 8;
    let dies = vec![base(0x10, "float", 4, 0x04), c, p];
    let t = load_type(&dies, false, 0, 0x50);
    assert!(matches!(t.datatype, DbgDataType::Float));
    assert_eq!(t.name.as_deref(), Some("float"));
    let vp = load_type(&dies, false, 0, 0x60);
    assert!(matches!(vp.datatype, DbgDataType::Pointer(8, 0)));
    assert_eq!(vp.name.as_deref(), Some("void"));
}

#[test]
fn self_referential_struct_ends() {
    // struct node { struct node *next; int value; };
    let mut s = die(0x20, DW_TAG_STRUCTURE);
    s.name = Some("node".to_string());
    s.byte_size = Some(8);
    s.children = vec![1, 2];
    let mut p = die(0x30, DW_TAG_POINTER);
    p.type_ref = Some(0x20);
    let dies = vec![s, member(0x24, Some("next"), 0x30, 0), member(0x28, Some("value"), 0x10, 4), p, base(0x10, "int", 4, 0x05)];
    let t = load_type(&dies, false, 0, 0x20);
    assert!(matches!(t.datatype, DbgDataType::Struct { size: 8, .. }));
    let ms = members(&t);
    assert_eq!(ms.len(), 2);
    assert_eq!(ms[0].0, "next");
    assert!(matches!(ms[0].1 .0.datatype, DbgDataType::Pointer(4, 0x20)));
    assert_eq!(ms[0].1 .0.name.as_deref(), Some("node"));
    assert_eq!(ms[0].1 .1, 0);
    assert_eq!(ms[1].0, "value");
    assert!(matches!(ms[1].1 .0.datatype, DbgDataType::Sint32));
    assert_eq!(ms[1].1 .1, 4);
}

#[test]
fn array_dimensions_from_bounds_and_size() {
    let mut a = die(0x70, DW_TAG_ARRAY);
    a.type_ref = Some(0x10);
    a.children = vec![2, 3];
    let mut r1 = die(0x74, DW_TAG_SUBRANGE);
    r1.upper_bound = Some(9);
    let mut r2 = die(0x78, DW_TAG_SUBRANGE);
    r2.count = Some(3);
    // an array of unknown dimension whose size is given
    let mut b = die(0x80, DW_TAG_ARRAY);
    b.type_ref = Some(0x10);
    b.byte_size = Some(24);
    b.children = vec![5];
    let mut r3 = die(0x84, DW_TAG_SUBRANGE);
    r3.upper_bound = Some(u64::MAX);
    let dies = vec![base(0x10, "int", 4, 0x05), a, r1, r2, b, r3];
    let t = load_type(&dies, false, 0, 0x70);
    match &t.datatype {
        DbgDataType::Array { size, dim, stride, arraytype } => {
            assert_eq!(*size, 120);
            assert_eq!(dim, &vec![10, 3]);
            assert_eq!(*stride, 4);
            assert!(matches!(arraytype.datatype, DbgDataType::Sint32));
        }
        other => panic!("unexpected {other:?}"),
    }
    assert_eq!(t.name.as_deref(), Some("int"));
    let u = load_type(&dies, false, 0, 0x80);
    match &u.datatype {
        DbgDataType::Array { size, dim, .. } => {
            assert_eq!(*size, 24);
            assert_eq!(dim, &vec![6]);
        }
        other => panic!("unexpected {other:?}"),
    }
}

#[test]
fn bitfield_members_by_dwarf_version_and_endianness() {
    let mut s = die(0x20, DW_TAG_STRUCTURE);
    s.byte_size = Some(8);
    s.children = vec![1, 2];
    let mut m1 = member(0x24, Some("flag"), 0x10, 0);
    m1.bit_size = Some(3);
    m1.data_bit_offset = Some(37);
    let mut m2 = member(0x28, Some("mode"), 0x10, 0);
    m2.bit_size = Some(4);
    m2.bit_offset = Some(20);
    let dies = vec![s, m1, m2, base(0x10, "unsigned int", 4, 0x07)];

    let little = load_type(&dies, false, 0, 0x20);
    let ms = members(&little);
    match &ms[0].1 .0.datatype {
        DbgDataType::Bitfield { bit_offset, bit_size, basetype } => {
            assert_eq!((*bit_offset, *bit_size), (5, 3));
            assert!(matches!(basetype.datatype, DbgDataType::Uint32));
        }
        other => panic!("unexpected {other:?}"),
    }
    assert_eq!(ms[0].1 .1, 4);
    assert_eq!(ms[0].1 .0.dbginfo_offset, 0x24);
    match &ms[1].1 .0.datatype {
        DbgDataType::Bitfield { bit_offset, bit_size, .. } => assert_eq!((*bit_offset, *bit_size), (8, 4)),
        other => panic!("unexpected {other:?}"),
    }

    let big = load_type(&dies, true, 0, 0x20);
    match &members(&big)[0].1 .0.datatype {
        DbgDataType::Bitfield { bit_offset, .. } => assert_eq!(*bit_offset, 24),
        other => panic!("unexpected {other:?}"),
    }
}

#[test]
fn anonymous_union_members_move_up_and_structs_become_references() {
    let mut outer = die(0x20, DW_TAG_STRUCTURE);
    outer.byte_size = Some(16);
    outer.children = vec![1, 2];
    let mut inner = die(0x40, DW_TAG_UNION);
    inner.byte_size = Some(4);
    inner.children = vec![4, 5];
    let mut sub = die(0x60, DW_TAG_STRUCTURE);
    sub.name = Some("sub".to_string());
    sub.byte_size = Some(8);
    let dies = vec![
        outer,
        member(0x24, None, 0x40, 8),
        member(0x28, Some("s"), 0x60, 0),
        inner,
        member(0x44, Some("a"), 0x10, 0),
        member(0x48, Some("b"), 0x10, 0),
        sub,
        base(0x10, "int", 4, 0x05),
    ];
    let t = load_type(&dies, false, 0, 0x20);
    let ms = members(&t);
    let names: Vec<&str> = ms.iter().map(|m| m.0.as_str()).collect();
    assert_eq!(names, vec!["a", "b", "s"]);
    assert_eq!(ms[0].1 .1, 8);
    assert_eq!(ms[1].1 .1, 8);
    assert!(matches!(ms[2].1 .0.datatype, DbgDataType::TypeRef(0x60, 8)));
}

#[test]
fn class_inherits_base_members_at_offset() {
    let mut baseclass = die(0x100, DW_TAG_CLASS);
    baseclass.name = Some("Base".to_string());
    baseclass.byte_size = Some(4);
    baseclass.children = vec![1];
    let mut derived = die(0x200, DW_TAG_CLASS);
    derived.name = Some("Derived".to_string());
    derived.byte_size = Some(8);
    derived.children = vec![4, 5];
    let mut inh = die(0x204, DW_TAG_INHERITANCE);
    inh.type_ref = Some(0x100);
    inh.member_location = Some(0);
    let dies = vec![
        baseclass,
        member(0x104, Some("x"), 0x10, 0),
        base(0x10, "int", 4, 0x05),
        derived,
        inh,
        member(0x208, Some("y"), 0x10, 4),
    ];
    let t = load_type(&dies, false, 0, 0x200);
    match &t.datatype {
        DbgDataType::Class { size, inheritance, members } => {
            assert_eq!(*size, 8);
            assert_eq!(inheritance.len(), 1);
            assert_eq!(inheritance[0].0, "Base");
            let names: Vec<&str> = members.iter().map(|m| m.0.as_str()).collect();
            assert_eq!(names, vec!["y", "x"]);
            assert_eq!(members[1].1 .1, 0);
        }
        other => panic!("unexpected {other:?}"),
    }
}

#[test]
fn enumeration_and_function_pointer() {
    let mut e = die(0x30, DW_TAG_ENUMERATION);
    e.name = Some("color".to_string());
    e.byte_size = Some(4);
    e.type_ref = Some(0x10);
    e.children = vec![1, 2];
    let mut red = die(0x34, DW_TAG_ENUMERATOR);
    red.name = Some("RED".to_string());
    red.const_value = Some(0);
    let mut blue = die(0x38, DW_TAG_ENUMERATOR);
    blue.name = Some("BLUE".to_string());
    blue.const_value = Some(-2);
    let f = die(0x50, DW_TAG_SUBROUTINE);
    let dies = vec![e, red, blue, base(0x10, "int", 4, 0x05), f];
    let t = load_type(&dies, false, 0, 0x30);
    match &t.datatype {
        DbgDataType::Enum { size, signed, enumerators } => {
            assert_eq!(*size, 4);
            assert!(*signed);
            assert_eq!(enumerators, &vec![("RED".to_string(), 0), ("BLUE".to_string(), -2)]);
        }
        other => panic!("unexpected {other:?}"),
    }
    let fp = load_type(&dies, false, 0, 0x50);
    assert!(matches!(fp.datatype, DbgDataType::FuncPtr(4)));
    assert_eq!(fp.name.as_deref(), Some("p_function"));
}

#[test]
fn unreadable_entries_become_other() {
    let mut s = die(0x20, DW_TAG_STRUCTURE);
    s.name = Some("holder".to_string());
    s.byte_size = Some(4);
    s.children = vec![1];
    // the member's type is an entry of a tag that no type has
    let dies = vec![s, member(0x24, Some("m"), 0x90, 0), die(0x90, 0x2e)];
    let t = load_type(&dies, false, 0, 0x20);
    let ms = members(&t);
    assert!(matches!(ms[0].1 .0.datatype, DbgDataType::Other(0)));
    assert_eq!(ms[0].1 .0.name.as_deref(), Some("holder"));
    let missing = load_type(&dies, false, 0, 0x1234);
    assert!(matches!(missing.datatype, DbgDataType::Other(0)));
    assert_eq!(missing.name, None);
    assert_eq!(find_die(&dies, 0x90), Some(2));
    assert_eq!(find_die(&dies, 0x91), None);
}
