//! Reading the types of DWARF debug information: from the debugging
//! information entries of a type to the type model, following references
//! to other entries, reading the members of structs, unions and classes,
//! the dimensions of arrays and the enumerators of enums.

use vstd::prelude::*;
use crate::debuginfo::{base_type_of, get_base_type, type_size, DbgDataType, MemberList, TypeInfo, DW_ATE_SIGNED, DW_ATE_SIGNED_CHAR};
use crate::debuginfo::dwarf::{get_pointer_name, pointer_name, WipItemInfo};
use crate::text::str_eq;

verus! {

/// The DWARF tags of the entries that the type reader reads.
pub const DW_TAG_ARRAY: u16 = 0x01;
pub const DW_TAG_CLASS: u16 = 0x02;
pub const DW_TAG_ENUMERATION: u16 = 0x04;
pub const DW_TAG_MEMBER: u16 = 0x0d;
pub const DW_TAG_POINTER: u16 = 0x0f;
pub const DW_TAG_STRUCTURE: u16 = 0x13;
pub const DW_TAG_SUBROUTINE: u16 = 0x15;
pub const DW_TAG_TYPEDEF: u16 = 0x16;
pub const DW_TAG_UNION: u16 = 0x17;
pub const DW_TAG_INHERITANCE: u16 = 0x1c;
pub const DW_TAG_SUBRANGE: u16 = 0x21;
pub const DW_TAG_BASE: u16 = 0x24;
pub const DW_TAG_CONST: u16 = 0x26;
pub const DW_TAG_ENUMERATOR: u16 = 0x28;
pub const DW_TAG_VOLATILE: u16 = 0x35;
pub const DW_TAG_UNSPECIFIED: u16 = 0x3b;

/// A debugging information entry, as far as the type reader reads it: its
/// offset in `.debug_info`, its tag, its unit and the unit's address size,
/// the values of the attributes that the reader uses (`None` where the
/// entry has no usable value), and the positions of its children in the
/// table of entries.
pub struct DieInfo {
    pub offset: usize,
    pub tag: u16,
    pub unit_idx: usize,
    pub address_size: u8,
    pub name: Option<String>,
    pub byte_size: Option<u64>,
    pub encoding: Option<u8>,
    pub type_ref: Option<usize>,
    pub byte_stride: Option<u64>,
    pub upper_bound: Option<u64>,
    pub lower_bound: Option<u64>,
    pub count: Option<u64>,
    pub const_value: Option<i64>,
    pub member_location: Option<u64>,
    pub bit_size: Option<u64>,
    pub bit_offset: Option<u64>,
    pub data_bit_offset: Option<u64>,
    pub children: Vec<usize>,
}

/// The mathematical view of a data type.
pub enum DataView {
    Uint8,
    Uint16,
    Uint32,
    Uint64,
    Sint8,
    Sint16,
    Sint32,
    Sint64,
    Float,
    Double,
    Bitfield { basetype: Box<TypeView>, bit_offset: u16, bit_size: u16 },
    Pointer(u64, usize),
    Struct { size: u64, members: Seq<(Seq<char>, (TypeView, u64))> },
    Class {
        size: u64,
        inheritance: Seq<(Seq<char>, (TypeView, u64))>,
        members: Seq<(Seq<char>, (TypeView, u64))>,
    },
    Union { size: u64, members: Seq<(Seq<char>, (TypeView, u64))> },
    Enum { size: u64, signed: bool, enumerators: Seq<(Seq<char>, i64)> },
    Array { size: u64, dim: Seq<u64>, stride: u64, arraytype: Box<TypeView> },
    TypeRef(usize, u64),
    FuncPtr(u64),
    Other(u64),
}

/// The mathematical view of a type.
pub struct TypeView {
    pub name: Option<Seq<char>>,
    pub unit_idx: usize,
    pub datatype: DataView,
    pub dbginfo_offset: usize,
}

/// The view of an optional string.
pub open spec fn opt_str(s: Option<String>) -> Option<Seq<char>> {
    match s {
        Some(x) => Some(x@),
        None => None,
    }
}

/// Whether `v` is the view of the type `t`.
pub open spec fn is_view(t: TypeInfo, v: TypeView) -> bool
    decreases t,
{
    &&& v.name == opt_str(t.name)
    &&& v.unit_idx == t.unit_idx
    &&& v.dbginfo_offset == t.dbginfo_offset
    &&& match t.datatype {
        DbgDataType::Bitfield { basetype, bit_offset, bit_size } => match v.datatype {
            DataView::Bitfield { basetype: vb, bit_offset: vo, bit_size: vs } => vo == bit_offset && vs == bit_size
                && is_view(*basetype, *vb),
            _ => false,
        },
        DbgDataType::Struct { size, members } => match v.datatype {
            DataView::Struct { size: vsz, members: vm } => vsz == size && members_are(members@, vm),
            _ => false,
        },
        DbgDataType::Union { size, members } => match v.datatype {
            DataView::Union { size: vsz, members: vm } => vsz == size && members_are(members@, vm),
            _ => false,
        },
        DbgDataType::Class { size, inheritance, members } => match v.datatype {
            DataView::Class { size: vsz, inheritance: vi, members: vm } => vsz == size && members_are(inheritance@, vi)
                && members_are(members@, vm),
            _ => false,
        },
        DbgDataType::Enum { size, signed, enumerators } => v.datatype == (DataView::Enum {
            size,
            signed,
            enumerators: enumerators_view(enumerators@),
        }),
        DbgDataType::Array { size, dim, stride, arraytype } => match v.datatype {
            DataView::Array { size: vsz, dim: vd, stride: vst, arraytype: va } => vsz == size && vd == dim@ && vst
                == stride && is_view(*arraytype, *va),
            _ => false,
        },
        _ => v.datatype == base_view(t.datatype),
    }
}

/// Whether `vm` is the view of the list of members `ms`.
pub open spec fn members_are(ms: Seq<(String, (TypeInfo, u64))>, vm: Seq<(Seq<char>, (TypeView, u64))>) -> bool
    decreases ms,
{
    &&& ms.len() == vm.len()
    &&& forall|i: int|
        #![trigger ms[i]]
        #![trigger vm[i]]
        0 <= i < ms.len() ==> vm[i].0 == ms[i].0@ && vm[i].1.1 == ms[i].1.1 && is_view(ms[i].1.0, vm[i].1.0)
}

/// The view of a list of enumerators.
pub open spec fn enumerators_view(es: Seq<(String, i64)>) -> Seq<(Seq<char>, i64)> {
    Seq::new(es.len(), |i: int| (es[i].0@, es[i].1))
}

/// The size of a type in bytes (see `type_size`).
pub open spec fn view_size(t: TypeView) -> u64
    decreases t,
{
    match t.datatype {
        DataView::Uint8 => 1,
        DataView::Uint16 => 2,
        DataView::Uint32 => 4,
        DataView::Uint64 => 8,
        DataView::Sint8 => 1,
        DataView::Sint16 => 2,
        DataView::Sint32 => 4,
        DataView::Sint64 => 8,
        DataView::Float => 4,
        DataView::Double => 8,
        DataView::Bitfield { basetype, .. } => view_size(*basetype),
        DataView::Pointer(size, _) => size,
        DataView::Other(size) => size,
        DataView::Struct { size, .. } => size,
        DataView::Class { size, .. } => size,
        DataView::Union { size, .. } => size,
        DataView::Enum { size, .. } => size,
        DataView::Array { size, .. } => size,
        DataView::FuncPtr(size) => size,
        DataView::TypeRef(_, size) => size,
    }
}

proof fn lemma_size_view(t: TypeInfo, v: TypeView)
    requires
        is_view(t, v),
    ensures
        view_size(v) == type_size(t),
    decreases t,
{
    if let DbgDataType::Bitfield { basetype, .. } = t.datatype {
        if let DataView::Bitfield { basetype: vb, .. } = v.datatype {
            lemma_size_view(*basetype, *vb);
        }
    }
}

/// The view of a base data type.
pub open spec fn base_view(d: DbgDataType) -> DataView {
    match d {
        DbgDataType::Uint8 => DataView::Uint8,
        DbgDataType::Uint16 => DataView::Uint16,
        DbgDataType::Uint32 => DataView::Uint32,
        DbgDataType::Uint64 => DataView::Uint64,
        DbgDataType::Sint8 => DataView::Sint8,
        DbgDataType::Sint16 => DataView::Sint16,
        DbgDataType::Sint32 => DataView::Sint32,
        DbgDataType::Sint64 => DataView::Sint64,
        DbgDataType::Float => DataView::Float,
        DbgDataType::Double => DataView::Double,
        DbgDataType::Pointer(s, o) => DataView::Pointer(s, o),
        DbgDataType::FuncPtr(s) => DataView::FuncPtr(s),
        DbgDataType::TypeRef(o, s) => DataView::TypeRef(o, s),
        DbgDataType::Other(s) => DataView::Other(s),
        _ => DataView::Other(0),
    }
}

/// The position of the first entry at `offset`.
pub open spec fn die_index(dies: Seq<DieInfo>, offset: usize) -> Option<int> {
    die_index_from(dies, offset, 0)
}

pub open spec fn die_index_from(dies: Seq<DieInfo>, offset: usize, k: int) -> Option<int>
    decreases dies.len() - k,
{
    if k < 0 || k >= dies.len() {
        None
    } else if dies[k].offset == offset {
        Some(k)
    } else {
        die_index_from(dies, offset, k + 1)
    }
}

/// The unit of the entry at `offset`, or `unit` where there is none.
pub open spec fn unit_of(dies: Seq<DieInfo>, offset: usize, unit: usize) -> usize {
    match die_index(dies, offset) {
        Some(i) => dies[i].unit_idx,
        None => unit,
    }
}

/// The position of the first type being read at `offset`.
pub open spec fn wip_index(wip: Seq<WipItemInfo>, offset: usize, k: int) -> Option<int>
    decreases wip.len() - k,
{
    if k < 0 || k >= wip.len() {
        None
    } else if wip[k].offset == offset {
        Some(k)
    } else {
        wip_index(wip, offset, k + 1)
    }
}

/// The position of the first member from `k` on with the given name.
pub open spec fn name_index(ms: Seq<(Seq<char>, (TypeView, u64))>, name: Seq<char>, k: int) -> Option<int>
    decreases ms.len() - k,
{
    if k < 0 || k >= ms.len() {
        None
    } else if ms[k].0 == name {
        Some(k)
    } else {
        name_index(ms, name, k + 1)
    }
}

/// A list of members with `name` set to `v`: in its place where the name is
/// there, else at the end.
pub open spec fn member_insert(
    ms: Seq<(Seq<char>, (TypeView, u64))>,
    name: Seq<char>,
    v: (TypeView, u64),
) -> Seq<(Seq<char>, (TypeView, u64))> {
    match name_index(ms, name, 0) {
        Some(j) => ms.update(j, (name, v)),
        None => ms.push((name, v)),
    }
}

/// The members inserted in turn, each at its offset plus `base`; `None`
/// where an offset overflows.
pub open spec fn insert_all(
    ms: Seq<(Seq<char>, (TypeView, u64))>,
    add: Seq<(Seq<char>, (TypeView, u64))>,
    base: u64,
    k: int,
) -> Option<Seq<(Seq<char>, (TypeView, u64))>>
    decreases add.len() - k,
{
    if k < 0 || k >= add.len() {
        Some(ms)
    } else if add[k].1.1 + base > u64::MAX {
        None
    } else {
        insert_all(member_insert(ms, add[k].0, (add[k].1.0, (add[k].1.1 + base) as u64)), add, base, k + 1)
    }
}

/// The members of a struct, union or class type.
pub open spec fn members_of_view(t: TypeView) -> Option<Seq<(Seq<char>, (TypeView, u64))>> {
    match t.datatype {
        DataView::Struct { members, .. } => Some(members),
        DataView::Union { members, .. } => Some(members),
        DataView::Class { members, .. } => Some(members),
        _ => None,
    }
}

/// A member type as a bit field where the member entry gives a bit size:
/// with its offset counted from the low bit (`DW_AT_bit_offset` counts from
/// the high bit; a `DW_AT_data_bit_offset` beyond the type moves the member
/// offset by whole types, and counts from the high bit on big-endian
/// targets). `None` where the arithmetic fails.
pub open spec fn bitfield_member(
    cd: DieInfo,
    mt: TypeView,
    offset: u64,
    big_endian: bool,
) -> Option<(TypeView, u64)> {
    match cd.bit_size {
        None => Some((mt, offset)),
        Some(bs) => {
            let ts = view_size(mt);
            if ts * 8 > u64::MAX {
                None
            } else {
                let tsb = (ts * 8) as u64;
                match cd.bit_offset {
                    Some(bo) => if bo + bs > tsb {
                        None
                    } else {
                        Some(
                            (
                                TypeView {
                                    name: mt.name,
                                    unit_idx: mt.unit_idx,
                                    dbginfo_offset: cd.offset,
                                    datatype: DataView::Bitfield {
                                        basetype: Box::new(mt),
                                        bit_size: bs as u16,
                                        bit_offset: (tsb - bo - bs) as u16,
                                    },
                                },
                                offset,
                            ),
                        )
                    },
                    None => match cd.data_bit_offset {
                        None => Some((mt, offset)),
                        Some(dbo) => {
                            let moved = dbo >= tsb;
                            if moved && tsb == 0 {
                                None
                            } else {
                                let extra: int = if moved {
                                    (dbo / tsb) * ts
                                } else {
                                    0
                                };
                                let dbo2: u64 = if moved {
                                    dbo % tsb
                                } else {
                                    dbo
                                };
                                if offset + extra > u64::MAX || (big_endian && dbo2 + bs > tsb) {
                                    None
                                } else {
                                    let bit_off: u64 = if big_endian {
                                        (tsb - dbo2 - bs) as u64
                                    } else {
                                        dbo2
                                    };
                                    Some(
                                        (
                                            TypeView {
                                                name: mt.name,
                                                unit_idx: mt.unit_idx,
                                                dbginfo_offset: cd.offset,
                                                datatype: DataView::Bitfield {
                                                    basetype: Box::new(mt),
                                                    bit_size: bs as u16,
                                                    bit_offset: bit_off as u16,
                                                },
                                            },
                                            (offset + extra) as u64,
                                        ),
                                    )
                                }
                            }
                        },
                    },
                }
            }
        },
    }
}

/// A member type of struct, union or class kind becomes a reference to the
/// type's entry, with the type's size.
pub open spec fn referenced(mt: TypeView, type_ref: usize) -> TypeView {
    match mt.datatype {
        DataView::Struct { .. } | DataView::Union { .. } | DataView::Class { .. } => TypeView {
            datatype: DataView::TypeRef(type_ref, view_size(mt)),
            ..mt
        },
        _ => mt,
    }
}

/// The number of enumerator entries among the children of an entry.
pub open spec fn enumerator_count(dies: Seq<DieInfo>, children: Seq<usize>, k: int) -> nat
    decreases children.len() - k,
{
    if k < 0 || k >= children.len() {
        0
    } else {
        enumerator_count(dies, children, k + 1) + if children[k] < dies.len() && dies[children[k] as int].tag
            == DW_TAG_ENUMERATOR {
            1nat
        } else {
            0nat
        }
    }
}

/// The dimensions that the children of an array entry give, from child `k`
/// on: a subrange by its bounds (0 for a bound that marks an unknown size)
/// or its count, an enumeration by its number of enumerators. `None` where
/// the bounds are inconsistent.
pub open spec fn array_dims(dies: Seq<DieInfo>, children: Seq<usize>, k: int) -> Option<Seq<u64>>
    decreases children.len() - k,
{
    if k < 0 || k >= children.len() {
        Some(seq![])
    } else {
        let rest = array_dims(dies, children, k + 1);
        if children[k] >= dies.len() {
            rest
        } else {
            let c = dies[children[k] as int];
            if c.tag == DW_TAG_SUBRANGE {
                let count: Option<u64> = match c.upper_bound {
                    Some(ub) => {
                        let lb: u64 = match c.lower_bound {
                            Some(l) => l,
                            None => 0,
                        };
                        if ub != u32::MAX as u64 && ub != u64::MAX {
                            if lb > ub {
                                None
                            } else {
                                Some((ub - lb + 1) as u64)
                            }
                        } else {
                            Some(0)
                        }
                    },
                    None => match c.count {
                        Some(n) => Some(n),
                        None => Some(0),
                    },
                };
                match (count, rest) {
                    (Some(n), Some(r)) => Some(seq![n] + r),
                    _ => None,
                }
            } else if c.tag == DW_TAG_ENUMERATION {
                let n = enumerator_count(dies, c.children@, 0);
                match rest {
                    Some(r) => if n > u64::MAX {
                        None
                    } else {
                        Some(seq![n as u64] + r)
                    },
                    None => None,
                }
            } else {
                rest
            }
        }
    }
}

/// The product of the stride and the dimensions, in this order; `None`
/// where a step overflows.
pub open spec fn dims_product(acc: u64, dims: Seq<u64>, k: int) -> Option<u64>
    decreases dims.len() - k,
{
    if k < 0 || k >= dims.len() {
        Some(acc)
    } else if acc * dims[k] > u64::MAX {
        None
    } else {
        dims_product((acc * dims[k]) as u64, dims, k + 1)
    }
}

/// The enumerators that the children of an enumeration entry give, from
/// child `k` on; `Err` where one has no name or no value.
pub open spec fn enumerators_of(dies: Seq<DieInfo>, children: Seq<usize>, k: int) -> Result<Seq<(Seq<char>, i64)>, ()>
    decreases children.len() - k,
{
    if k < 0 || k >= children.len() {
        Ok(seq![])
    } else {
        let rest = enumerators_of(dies, children, k + 1);
        if children[k] < dies.len() && dies[children[k] as int].tag == DW_TAG_ENUMERATOR {
            let c = dies[children[k] as int];
            match (c.name, c.const_value, rest) {
                (Some(n), Some(v), Ok(r)) => Ok(seq![(n@, v)] + r),
                _ => Err(()),
            }
        } else {
            rest
        }
    }
}

/// Whether an enumeration is signed: its underlying type is a signed base
/// type.
pub open spec fn enum_signed(dies: Seq<DieInfo>, d: DieInfo) -> bool {
    match d.type_ref {
        Some(t) => match die_index(dies, t) {
            Some(j) => dies[j].encoding == Some(DW_ATE_SIGNED) || dies[j].encoding == Some(DW_ATE_SIGNED_CHAR),
            None => false,
        },
        None => false,
    }
}

/// The type at `offset` (`get_type`): the type its entry describes, or,
/// where that cannot be read, an `Other` type of size 0 named after the type
/// being read around it. `None` where reading does not end within `fuel`
/// nested reads, or its arithmetic fails.
pub open spec fn read_type(
    dies: Seq<DieInfo>,
    big: bool,
    unit: usize,
    offset: usize,
    wip: Seq<WipItemInfo>,
    fuel: nat,
) -> Option<TypeView>
    decreases fuel, 0int, 0int,
{
    if fuel == 0 {
        None
    } else {
        match read_wrapped(dies, big, unit, offset, wip, (fuel - 1) as nat) {
            None => None,
            Some(Ok(t)) => Some(t),
            Some(Err(_)) => Some(
                TypeView {
                    datatype: DataView::Other(0),
                    name: if wip.len() > 0 {
                        opt_str(wip.last().name)
                    } else {
                        None
                    },
                    unit_idx: unit,
                    dbginfo_offset: offset,
                },
            ),
        }
    }
}

/// A type read from entry `d`: its data type, and its own name, else the
/// one that an inner type passes on.
pub open spec fn finished(d: DieInfo, unit: usize, offset: usize, dt: DataView, inner: Option<Seq<char>>) -> TypeView {
    TypeView {
        datatype: dt,
        name: match d.name {
            Some(n) => Some(n@),
            None => inner,
        },
        unit_idx: unit,
        dbginfo_offset: offset,
    }
}

/// The type that the entry at `offset` describes (`get_type_wrapped`), by
/// its tag. Its name is the entry's own, else one that an inner type passes
/// on (a base type's, a pointer's target's, an array element's, a
/// qualified type's).
pub open spec fn read_wrapped(
    dies: Seq<DieInfo>,
    big: bool,
    unit: usize,
    offset: usize,
    wip: Seq<WipItemInfo>,
    fuel: nat,
) -> Option<Result<TypeView, ()>>
    decreases fuel, 3int, 0int,
{
    match die_index(dies, offset) {
        None => Some(Err(())),
        Some(i) => {
            let d = dies[i];
            let w = wip.push(WipItemInfo { offset, name: d.name, tag: d.tag });
            let r: Option<Result<(DataView, Option<Seq<char>>), ()>> = if d.tag == DW_TAG_BASE {
                let (bt, bn) = base_type_of(d.byte_size, d.encoding, d.address_size);
                Some(Ok((base_view(bt), Some(bn))))
            } else if d.tag == DW_TAG_POINTER {
                match d.type_ref {
                    Some(pt) => match wip_index(w, pt, 0) {
                        Some(idx) => Some(Ok((DataView::Pointer(d.address_size as u64, pt), opt_str(pointer_name(w, idx))))),
                        None => match read_type(dies, big, unit_of(dies, pt, unit), pt, w, fuel) {
                            None => None,
                            Some(t) => Some(Ok((DataView::Pointer(d.address_size as u64, pt), t.name))),
                        },
                    },
                    None => Some(Ok((DataView::Pointer(d.address_size as u64, 0), Some("void"@)))),
                }
            } else if d.tag == DW_TAG_ARRAY {
                read_array(dies, big, unit, d, w, fuel)
            } else if d.tag == DW_TAG_ENUMERATION {
                match (d.byte_size, enumerators_of(dies, d.children@, 0)) {
                    (Some(size), Ok(es)) => Some(Ok((DataView::Enum { size, signed: enum_signed(dies, d), enumerators: es }, None))),
                    _ => Some(Err(())),
                }
            } else if d.tag == DW_TAG_STRUCTURE || d.tag == DW_TAG_UNION {
                match d.byte_size {
                    None => Some(Err(())),
                    Some(size) => match read_members(dies, big, unit, d, w, fuel, 0, seq![]) {
                        None => None,
                        Some(Err(_)) => Some(Err(())),
                        Some(Ok(ms)) => Some(
                            Ok(
                                (
                                    if d.tag == DW_TAG_STRUCTURE {
                                        DataView::Struct { size, members: ms }
                                    } else {
                                        DataView::Union { size, members: ms }
                                    },
                                    None,
                                ),
                            ),
                        ),
                    },
                }
            } else if d.tag == DW_TAG_CLASS {
                match d.byte_size {
                    None => Some(Err(())),
                    Some(size) => match read_inheritance(dies, big, unit, d, w, fuel, 0, seq![]) {
                        None => None,
                        Some(inh_read) => {
                            let inh = match inh_read {
                                Ok(x) => x,
                                Err(_) => seq![],
                            };
                            match read_members(dies, big, unit, d, w, fuel, 0, seq![]) {
                                None => None,
                                Some(Err(_)) => Some(Err(())),
                                Some(Ok(ms)) => match merge_bases(ms, inh, 0) {
                                    None => None,
                                    Some(all) => Some(
                                        Ok((DataView::Class { size, inheritance: inh, members: all }, None)),
                                    ),
                                },
                            }
                        },
                    },
                }
            } else if d.tag == DW_TAG_TYPEDEF {
                match d.type_ref {
                    None => Some(Err(())),
                    Some(t) => match read_type(dies, big, unit_of(dies, t, unit), t, w, fuel) {
                        None => None,
                        Some(tv) => Some(Ok((tv.datatype, None))),
                    },
                }
            } else if d.tag == DW_TAG_CONST || d.tag == DW_TAG_VOLATILE {
                match d.type_ref {
                    None => Some(Ok((DataView::Other(d.address_size as u64), None))),
                    Some(t) => match read_type(dies, big, unit_of(dies, t, unit), t, w, fuel) {
                        None => None,
                        Some(tv) => Some(Ok((tv.datatype, tv.name))),
                    },
                }
            } else if d.tag == DW_TAG_SUBROUTINE {
                Some(Ok((DataView::FuncPtr(d.address_size as u64), Some("p_function"@))))
            } else if d.tag == DW_TAG_UNSPECIFIED {
                Some(
                    Ok(
                        (
                            DataView::Other(
                                match d.byte_size {
                                    Some(s) => s,
                                    None => 0,
                                },
                            ),
                            None,
                        ),
                    ),
                )
            } else {
                Some(Err(()))
            };
            match r {
                None => None,
                Some(Err(_)) => Some(Err(())),
                Some(Ok((dt, inner))) => Some(Ok(finished(d, unit, offset, dt, inner))),
            }
        },
    }
}

/// An array type (`get_array_type`): its element type, its stride (the
/// element size unless the entry gives one), its dimensions (a single
/// unknown dimension taken from the byte size and stride), and its size
/// (the entry's, else the stride times the dimensions).
pub open spec fn read_array(
    dies: Seq<DieInfo>,
    big: bool,
    unit: usize,
    d: DieInfo,
    w: Seq<WipItemInfo>,
    fuel: nat,
) -> Option<Result<(DataView, Option<Seq<char>>), ()>>
    decreases fuel, 2int, 0int,
{
    match d.type_ref {
        None => Some(Err(())),
        Some(t) => match read_type(dies, big, unit_of(dies, t, unit), t, w, fuel) {
            None => None,
            Some(at) => {
                let stride: u64 = match d.byte_stride {
                    Some(s) => s,
                    None => view_size(at),
                };
                match array_dims(dies, d.children@, 0) {
                    None => None,
                    Some(dims0) => {
                        let dims = if dims0.len() == 1 && dims0[0] == 0 && stride != 0 && d.byte_size is Some {
                            seq![(d.byte_size.unwrap() / stride) as u64]
                        } else {
                            dims0
                        };
                        let size = match d.byte_size {
                            Some(s) => Some(s),
                            None => dims_product(stride, dims, 0),
                        };
                        match size {
                            None => None,
                            Some(sz) => Some(
                                Ok(
                                    (
                                        DataView::Array { size: sz, dim: dims, stride, arraytype: Box::new(at) },
                                        at.name,
                                    ),
                                ),
                            ),
                        }
                    },
                }
            },
        },
    }
}

/// The members of a struct, union or class entry from child `k` on
/// (`get_struct_or_union_members`), added to `acc`: each member entry's
/// type is read (as a bit field where it has a bit size); a named member is
/// set under its name (a struct, union or class type as a reference to its
/// entry); the members of an unnamed member's type are set in its place,
/// at their offsets plus its own. `Err` where a member has no type.
pub open spec fn read_members(
    dies: Seq<DieInfo>,
    big: bool,
    unit: usize,
    d: DieInfo,
    w: Seq<WipItemInfo>,
    fuel: nat,
    k: int,
    acc: Seq<(Seq<char>, (TypeView, u64))>,
) -> Option<Result<Seq<(Seq<char>, (TypeView, u64))>, ()>>
    decreases fuel, 1int, d.children@.len() - k,
{
    if k < 0 || k >= d.children@.len() {
        Some(Ok(acc))
    } else if d.children@[k] >= dies.len() || dies[d.children@[k] as int].tag != DW_TAG_MEMBER {
        read_members(dies, big, unit, d, w, fuel, k + 1, acc)
    } else {
        let cd = dies[d.children@[k] as int];
        let off0: u64 = match cd.member_location {
            Some(l) => l,
            None => 0,
        };
        match cd.type_ref {
            None => Some(Err(())),
            Some(tr) => match read_type(dies, big, unit_of(dies, tr, unit), tr, w, fuel) {
                None => None,
                Some(mt) => match bitfield_member(cd, mt, off0, big) {
                    None => None,
                    Some((mt2, off2)) => {
                        let acc2 = match cd.name {
                            Some(n) => if n@.len() > 0 {
                                Some(member_insert(acc, n@, (referenced(mt2, tr), off2)))
                            } else {
                                Some(acc)
                            },
                            None => match members_of_view(mt2) {
                                Some(anon) => insert_all(acc, anon, off2, 0),
                                None => Some(acc),
                            },
                        };
                        match acc2 {
                            None => None,
                            Some(a) => read_members(dies, big, unit, d, w, fuel, k + 1, a),
                        }
                    },
                },
            },
        }
    }
}

/// The base classes of a class entry from child `k` on
/// (`get_class_inheritance`), added to `acc`: each inheritance entry's base
/// class, under the base class entry's name, at the entry's offset. `Err`
/// where one lacks its offset, its type or the base class its name.
pub open spec fn read_inheritance(
    dies: Seq<DieInfo>,
    big: bool,
    unit: usize,
    d: DieInfo,
    w: Seq<WipItemInfo>,
    fuel: nat,
    k: int,
    acc: Seq<(Seq<char>, (TypeView, u64))>,
) -> Option<Result<Seq<(Seq<char>, (TypeView, u64))>, ()>>
    decreases fuel, 1int, d.children@.len() - k,
{
    if k < 0 || k >= d.children@.len() {
        Some(Ok(acc))
    } else if d.children@[k] >= dies.len() || dies[d.children@[k] as int].tag != DW_TAG_INHERITANCE {
        read_inheritance(dies, big, unit, d, w, fuel, k + 1, acc)
    } else {
        let cd = dies[d.children@[k] as int];
        match (cd.member_location, cd.type_ref) {
            (Some(loc), Some(tr)) => match die_index(dies, tr) {
                None => Some(Err(())),
                Some(j) => match dies[j].name {
                    None => Some(Err(())),
                    Some(bname) => match read_type(dies, big, unit_of(dies, tr, unit), tr, w, fuel) {
                        None => None,
                        Some(bt) => read_inheritance(
                            dies,
                            big,
                            unit,
                            d,
                            w,
                            fuel,
                            k + 1,
                            member_insert(acc, bname@, (bt, loc)),
                        ),
                    },
                },
            },
            _ => Some(Err(())),
        }
    }
}

/// The members of a class with those of its base classes (that are classes)
/// set in turn, at their offsets plus the base class's.
pub open spec fn merge_bases(
    ms: Seq<(Seq<char>, (TypeView, u64))>,
    inh: Seq<(Seq<char>, (TypeView, u64))>,
    k: int,
) -> Option<Seq<(Seq<char>, (TypeView, u64))>>
    decreases inh.len() - k,
{
    if k < 0 || k >= inh.len() {
        Some(ms)
    } else {
        match inh[k].1.0.datatype {
            DataView::Class { members: bms, .. } => match insert_all(ms, bms, inh[k].1.1, 0) {
                None => None,
                Some(ms2) => merge_bases(ms2, inh, k + 1),
            },
            _ => merge_bases(ms, inh, k + 1),
        }
    }
}

/// Whether reading the type at `offset` ends within some fuel.
pub open spec fn reading_ends(dies: Seq<DieInfo>, big: bool, unit: usize, offset: usize) -> bool {
    exists|fuel: nat| #[trigger] read_type(dies, big, unit, offset, seq![], fuel) is Some
}

/// The type read at `offset`, where reading ends.
pub open spec fn type_from_dies(dies: Seq<DieInfo>, big: bool, unit: usize, offset: usize) -> TypeView {
    let fuel = choose|fuel: nat| #[trigger] read_type(dies, big, unit, offset, seq![], fuel) is Some;
    read_type(dies, big, unit, offset, seq![], fuel).unwrap()
}


fn clone_name(n: &Option<String>) -> (r: Option<String>)
    ensures
        r == *n,
{
    match n {
        Some(s) => Some(s.clone()),
        None => None,
    }
}

fn copy_wip(w: &Vec<WipItemInfo>) -> (r: Vec<WipItemInfo>)
    ensures
        r@ == w@,
{
    let mut r: Vec<WipItemInfo> = Vec::new();
    let mut k: usize = 0;
    while k < w.len()
        invariant
            k <= w.len(),
            r@ == w@.subrange(0, k as int),
        decreases w.len() - k,
    {
        r.push(WipItemInfo { offset: w[k].offset, name: clone_name(&w[k].name), tag: w[k].tag });
        k += 1;
    }
    assert(w@.subrange(0, w.len() as int) =~= w@);
    r
}

/// The position of the first entry at `offset` in the table of entries.
pub fn find_die(dies: &Vec<DieInfo>, offset: usize) -> (r: Option<usize>)
    ensures
        match r {
            Some(i) => die_index(dies@, offset) == Some(i as int) && i < dies@.len(),
            None => die_index(dies@, offset) is None,
        },
{
    let mut k: usize = 0;
    while k < dies.len()
        invariant
            k <= dies.len(),
            die_index_from(dies@, offset, 0) == die_index_from(dies@, offset, k as int),
        decreases dies.len() - k,
    {
        if dies[k].offset == offset {
            return Some(k);
        }
        k += 1;
    }
    None
}

fn find_wip(w: &Vec<WipItemInfo>, offset: usize) -> (r: Option<usize>)
    ensures
        match r {
            Some(i) => wip_index(w@, offset, 0) == Some(i as int) && i < w@.len(),
            None => wip_index(w@, offset, 0) is None,
        },
{
    let mut k: usize = 0;
    while k < w.len()
        invariant
            k <= w.len(),
            wip_index(w@, offset, 0) == wip_index(w@, offset, k as int),
        decreases w.len() - k,
    {
        if w[k].offset == offset {
            return Some(k);
        }
        k += 1;
    }
    None
}

fn find_unit(dies: &Vec<DieInfo>, offset: usize, unit: usize) -> (r: usize)
    ensures
        r == unit_of(dies@, offset, unit),
{
    match find_die(dies, offset) {
        Some(i) => dies[i].unit_idx,
        None => unit,
    }
}

fn count_enumerators(dies: &Vec<DieInfo>, children: &Vec<usize>, k: usize) -> (r: u64)
    requires
        k <= children.len(),
    ensures
        r == enumerator_count(dies@, children@, k as int),
        r <= children.len() - k,
    decreases children.len() - k,
{
    if k >= children.len() {
        0
    } else {
        let rest = count_enumerators(dies, children, k + 1);
        let c = children[k];
        if c < dies.len() && dies[c].tag == DW_TAG_ENUMERATOR {
            rest + 1
        } else {
            rest
        }
    }
}

fn get_array_dims(dies: &Vec<DieInfo>, children: &Vec<usize>, k: usize) -> (r: Option<Vec<u64>>)
    requires
        k <= children.len(),
    ensures
        match r {
            Some(v) => array_dims(dies@, children@, k as int) == Some(v@),
            None => array_dims(dies@, children@, k as int) is None,
        },
    decreases children.len() - k,
{
    if k >= children.len() {
        return Some(Vec::new());
    }
    let rest = get_array_dims(dies, children, k + 1);
    let ci = children[k];
    if ci >= dies.len() {
        return rest;
    }
    let c = &dies[ci];
    if c.tag == DW_TAG_SUBRANGE {
        let count: Option<u64> = match c.upper_bound {
            Some(ub) => {
                let lb: u64 = match c.lower_bound {
                    Some(l) => l,
                    None => 0,
                };
                if ub != 0xFFFF_FFFFu64 && ub != u64::MAX {
                    if lb > ub {
                        None
                    } else {
                        Some(ub - lb + 1)
                    }
                } else {
                    Some(0)
                }
            },
            None => match c.count {
                Some(n) => Some(n),
                None => Some(0),
            },
        };
        match (count, rest) {
            (Some(n), Some(mut r)) => {
                r.insert(0, n);
                assert(r@ =~= seq![n] + array_dims(dies@, children@, k + 1).unwrap());
                Some(r)
            },
            _ => None,
        }
    } else if c.tag == DW_TAG_ENUMERATION {
        let n = count_enumerators(dies, &c.children, 0);
        match rest {
            Some(mut r) => {
                r.insert(0, n);
                assert(r@ =~= seq![n] + array_dims(dies@, children@, k + 1).unwrap());
                Some(r)
            },
            None => None,
        }
    } else {
        rest
    }
}

fn get_dims_product(stride: u64, dims: &Vec<u64>) -> (r: Option<u64>)
    ensures
        r == dims_product(stride, dims@, 0),
{
    let mut acc = stride;
    let mut k: usize = 0;
    while k < dims.len()
        invariant
            k <= dims.len(),
            dims_product(stride, dims@, 0) == dims_product(acc, dims@, k as int),
        decreases dims.len() - k,
    {
        match acc.checked_mul(dims[k]) {
            Some(p) => acc = p,
            None => return None,
        }
        k += 1;
    }
    Some(acc)
}

fn get_enumerators(dies: &Vec<DieInfo>, children: &Vec<usize>, k: usize) -> (r: Result<Vec<(String, i64)>, ()>)
    requires
        k <= children.len(),
    ensures
        match r {
            Ok(v) => enumerators_of(dies@, children@, k as int) == Ok::<Seq<(Seq<char>, i64)>, ()>(enumerators_view(v@)),
            Err(_) => enumerators_of(dies@, children@, k as int) is Err,
        },
    decreases children.len() - k,
{
    if k >= children.len() {
        let v: Vec<(String, i64)> = Vec::new();
        assert(enumerators_view(v@) =~= seq![]);
        return Ok(v);
    }
    let rest = get_enumerators(dies, children, k + 1);
    let ci = children[k];
    if ci < dies.len() && dies[ci].tag == DW_TAG_ENUMERATOR {
        let c = &dies[ci];
        match (&c.name, c.const_value, rest) {
            (Some(n), Some(v), Ok(mut r)) => {
                let ghost before = r@;
                r.insert(0, (n.clone(), v));
                assert(enumerators_view(r@) =~= seq![(n@, v)] + enumerators_view(before));
                Ok(r)
            },
            _ => Err(()),
        }
    } else {
        rest
    }
}

fn enum_is_signed(dies: &Vec<DieInfo>, d: &DieInfo) -> (r: bool)
    ensures
        r == enum_signed(dies@, *d),
{
    match d.type_ref {
        Some(t) => match find_die(dies, t) {
            Some(j) => dies[j].encoding == Some(DW_ATE_SIGNED) || dies[j].encoding == Some(DW_ATE_SIGNED_CHAR),
            None => false,
        },
        None => false,
    }
}

proof fn lemma_opt_str(x: Option<String>)
    ensures
        opt_str(x) == x.deep_view(),
{
}

/// A type with the data type of a viewed one is viewed with that data type.
proof fn lemma_same_datatype(t: TypeInfo, v: TypeView, t2: TypeInfo, v2: TypeView)
    requires
        is_view(t, v),
        t2.datatype == t.datatype,
        v2.datatype == v.datatype,
        v2.name == opt_str(t2.name),
        v2.unit_idx == t2.unit_idx,
        v2.dbginfo_offset == t2.dbginfo_offset,
    ensures
        is_view(t2, v2),
{
}

fn finish(d: &DieInfo, unit: usize, offset: usize, dt: DbgDataType, inner: Option<String>) -> (r: TypeInfo)
    ensures
        r.datatype == dt,
        r.unit_idx == unit,
        r.dbginfo_offset == offset,
        opt_str(r.name) == finished(*d, unit, offset, DataView::Other(0), opt_str(inner)).name,
{
    let name = match &d.name {
        Some(n) => Some(n.clone()),
        None => inner,
    };
    TypeInfo { datatype: dt, name, unit_idx: unit, dbginfo_offset: offset }
}

/// Sets member `name` of a list of members (see `member_insert`).
fn insert_member(
    mv: &mut MemberList,
    name: String,
    t: TypeInfo,
    off: u64,
    Ghost(ms): Ghost<Seq<(Seq<char>, (TypeView, u64))>>,
    Ghost(v): Ghost<TypeView>,
) -> (r: Option<usize>)
    requires
        members_are(old(mv)@, ms),
        is_view(t, v),
    ensures
        members_are(final(mv)@, member_insert(ms, name@, (v, off))),
        match r {
            Some(j) => name_index(ms, name@, 0) == Some(j as int) && j < ms.len(),
            None => name_index(ms, name@, 0) is None,
        },
{
    let mut k: usize = 0;
    while k < mv.len()
        invariant
            k <= mv.len(),
            members_are(mv@, ms),
            is_view(t, v),
            name_index(ms, name@, 0) == name_index(ms, name@, k as int),
        decreases mv.len() - k,
    {
        if str_eq(mv[k].0.as_str(), name.as_str()) {
            let ghost before = mv@;
            mv.remove(k);
            mv.insert(k, (name, (t, off)));
            proof {
                assert(mv@ =~= before.update(k as int, mv@[k as int]));
                let after = ms.update(k as int, (name@, (v, off)));
                assert forall|i: int| 0 <= i < mv@.len() implies after[i].0 == mv@[i].0@ && after[i].1.1 == mv@[i].1.1
                    && is_view(mv@[i].1.0, after[i].1.0) by {
                    if i != k {
                        assert(mv@[i] == before[i]);
                        assert(after[i] == ms[i]);
                    } else {
                        assert(mv@[i].1.0 == t);
                        assert(after[i] == (name@, (v, off)));
                    }
                }
            }
            return Some(k);
        }
        k += 1;
    }
    let ghost before = mv@;
    mv.push((name, (t, off)));
    proof {
        let after = ms.push((name@, (v, off)));
        assert forall|i: int| 0 <= i < mv@.len() implies after[i].0 == mv@[i].0@ && after[i].1.1 == mv@[i].1.1
            && is_view(mv@[i].1.0, after[i].1.0) by {
            if i < before.len() {
                assert(mv@[i] == before[i]);
            }
        }
    }
    None
}

/// Sets the members `add` in turn, each at its offset plus `base` (see
/// `insert_all`).
fn insert_members(
    mv: &mut MemberList,
    add: MemberList,
    base: u64,
    Ghost(ms): Ghost<Seq<(Seq<char>, (TypeView, u64))>>,
    Ghost(addv): Ghost<Seq<(Seq<char>, (TypeView, u64))>>,
)
    requires
        members_are(old(mv)@, ms),
        members_are(add@, addv),
        insert_all(ms, addv, base, 0) is Some,
    ensures
        members_are(final(mv)@, insert_all(ms, addv, base, 0).unwrap()),
{
    let mut rest = add;
    let ghost mut cur = ms;
    let ghost mut k: int = 0;
    while rest.len() > 0
        invariant
            members_are(mv@, cur),
            0 <= k <= addv.len(),
            members_are(rest@, addv.subrange(k, addv.len() as int)),
            insert_all(ms, addv, base, 0) == insert_all(cur, addv, base, k),
            insert_all(ms, addv, base, 0) is Some,
        decreases rest.len(),
    {
        let ghost before = rest@;
        let (name, (t, off)) = rest.remove(0);
        proof {
            assert(is_view(before[0].1.0, addv.subrange(k, addv.len() as int)[0].1.0));
            assert(addv.subrange(k, addv.len() as int)[0] == addv[k]);
        }
        let o = off + base;
        insert_member(mv, name, t, o, Ghost(cur), Ghost(addv[k].1.0));
        proof {
            cur = member_insert(cur, addv[k].0, (addv[k].1.0, o));
            let sub = addv.subrange(k + 1, addv.len() as int);
            assert forall|i: int| 0 <= i < rest@.len() implies sub[i].0 == rest@[i].0@ && sub[i].1.1 == rest@[i].1.1
                && is_view(rest@[i].1.0, sub[i].1.0) by {
                assert(rest@[i] == before[i + 1]);
                assert(sub[i] == addv.subrange(k, addv.len() as int)[i + 1]);
                assert(is_view(before[i + 1].1.0, addv.subrange(k, addv.len() as int)[i + 1].1.0));
            }
            k = k + 1;
        }
    }
}

/// A member type as a bit field where the member entry gives a bit size
/// (see `bitfield_member`).
fn make_bitfield(cd: &DieInfo, mt: TypeInfo, offset: u64, big: bool, Ghost(v): Ghost<TypeView>) -> (r: (TypeInfo, u64))
    requires
        is_view(mt, v),
        bitfield_member(*cd, v, offset, big) is Some,
    ensures
        is_view(r.0, bitfield_member(*cd, v, offset, big).unwrap().0),
        r.1 == bitfield_member(*cd, v, offset, big).unwrap().1,
{
    match cd.bit_size {
        None => (mt, offset),
        Some(bs) => {
            let ts = mt.get_size();
            proof {
                lemma_size_view(mt, v);
            }
            let tsb = ts * 8;
            match cd.bit_offset {
                Some(bo) => {
                    let name = clone_name(&mt.name);
                    let unit_idx = mt.unit_idx;
                    let t = TypeInfo {
                        name,
                        unit_idx,
                        dbginfo_offset: cd.offset,
                        datatype: DbgDataType::Bitfield {
                            basetype: Box::new(mt),
                            bit_size: bs as u16,
                            bit_offset: (tsb - bo - bs) as u16,
                        },
                    };
                    (t, offset)
                },
                None => match cd.data_bit_offset {
                    None => (mt, offset),
                    Some(dbo) => {
                        let moved = dbo >= tsb;
                        let extra: u64 = if moved {
                            (dbo / tsb) * ts
                        } else {
                            0
                        };
                        let dbo2: u64 = if moved {
                            dbo % tsb
                        } else {
                            dbo
                        };
                        let bit_off: u64 = if big {
                            tsb - dbo2 - bs
                        } else {
                            dbo2
                        };
                        let name = clone_name(&mt.name);
                        let unit_idx = mt.unit_idx;
                        let t = TypeInfo {
                            name,
                            unit_idx,
                            dbginfo_offset: cd.offset,
                            datatype: DbgDataType::Bitfield {
                                basetype: Box::new(mt),
                                bit_size: bs as u16,
                                bit_offset: bit_off as u16,
                            },
                        };
                        (t, offset + extra)
                    },
                },
            }
        },
    }
}

/// A member type of struct, union or class kind as a reference to the
/// type's entry (see `referenced`).
fn make_reference(mt: TypeInfo, type_ref: usize, Ghost(v): Ghost<TypeView>) -> (r: TypeInfo)
    requires
        is_view(mt, v),
    ensures
        is_view(r, referenced(v, type_ref)),
{
    let size = mt.get_size();
    proof {
        lemma_size_view(mt, v);
    }
    let compound = match &mt.datatype {
        DbgDataType::Struct { .. } | DbgDataType::Union { .. } | DbgDataType::Class { .. } => true,
        _ => false,
    };
    if compound {
        TypeInfo {
            datatype: DbgDataType::TypeRef(type_ref, size),
            name: mt.name,
            unit_idx: mt.unit_idx,
            dbginfo_offset: mt.dbginfo_offset,
        }
    } else {
        mt
    }
}

/// Adds the members of base classes that are classes to the members of a
/// class, at their offsets plus the base class's (see `merge_bases`);
/// `copies` holds the types of the base classes once more.
fn merge_base_members(
    mv: &mut MemberList,
    inh: &MemberList,
    copies: Vec<TypeInfo>,
    Ghost(ms): Ghost<Seq<(Seq<char>, (TypeView, u64))>>,
    Ghost(vi): Ghost<Seq<(Seq<char>, (TypeView, u64))>>,
)
    requires
        members_are(old(mv)@, ms),
        members_are(inh@, vi),
        copies@.len() == vi.len(),
        forall|j: int| 0 <= j < vi.len() ==> is_view(#[trigger] copies@[j], vi[j].1.0),
        merge_bases(ms, vi, 0) is Some,
    ensures
        members_are(final(mv)@, merge_bases(ms, vi, 0).unwrap()),
{
    let mut rest = copies;
    let ghost mut cur = ms;
    let mut k: usize = 0;
    while k < inh.len()
        invariant
            k <= inh.len(),
            members_are(inh@, vi),
            members_are(mv@, cur),
            rest@.len() == vi.len() - k,
            forall|j: int| 0 <= j < rest@.len() ==> is_view(#[trigger] rest@[j], vi[k + j].1.0),
            merge_bases(ms, vi, 0) == merge_bases(cur, vi, k as int),
            merge_bases(ms, vi, 0) is Some,
        decreases inh.len() - k,
    {
        let ghost before = rest@;
        let c = rest.remove(0);
        proof {
            assert(is_view(before[0], vi[k + 0].1.0));
        }
        let base = inh[k].1.1;
        match c.datatype {
            DbgDataType::Class { members, .. } => {
                let ghost bms = match vi[k as int].1.0.datatype {
                    DataView::Class { members, .. } => members,
                    _ => seq![],
                };
                insert_members(mv, members, base, Ghost(cur), Ghost(bms));
                proof {
                    cur = insert_all(cur, bms, base, 0).unwrap();
                }
            },
            _ => {},
        }
        proof {
            assert forall|j: int| 0 <= j < rest@.len() implies is_view(#[trigger] rest@[j], vi[k + 1 + j].1.0) by {
                assert(rest@[j] == before[j + 1]);
                assert(is_view(before[j + 1], vi[k + (j + 1)].1.0));
            }
        }
        k += 1;
    }
}

/// The type at `offset` (see `read_type`): where its entry cannot be read,
/// an `Other` type of size 0, named after the type being read around it.
fn get_type(
    dies: &Vec<DieInfo>,
    big: bool,
    unit: usize,
    offset: usize,
    wip: &Vec<WipItemInfo>,
    Ghost(fuel): Ghost<nat>,
) -> (r: TypeInfo)
    requires
        read_type(dies@, big, unit, offset, wip@, fuel) is Some,
    ensures
        is_view(r, read_type(dies@, big, unit, offset, wip@, fuel).unwrap()),
    decreases fuel, 0int, 0int,
{
    match get_type_wrapped(dies, big, unit, offset, wip, Ghost((fuel - 1) as nat)) {
        Ok(t) => t,
        Err(()) => {
            let name = if wip.len() > 0 {
                clone_name(&wip[wip.len() - 1].name)
            } else {
                None
            };
            TypeInfo { datatype: DbgDataType::Other(0), name, unit_idx: unit, dbginfo_offset: offset }
        },
    }
}

/// The type that the entry at `offset` describes (see `read_wrapped`).
#[verifier::rlimit(60)]
fn get_type_wrapped(
    dies: &Vec<DieInfo>,
    big: bool,
    unit: usize,
    offset: usize,
    wip: &Vec<WipItemInfo>,
    Ghost(fuel): Ghost<nat>,
) -> (r: Result<TypeInfo, ()>)
    requires
        read_wrapped(dies@, big, unit, offset, wip@, fuel) is Some,
    ensures
        match read_wrapped(dies@, big, unit, offset, wip@, fuel).unwrap() {
            Ok(v) => r is Ok && is_view(r->Ok_0, v),
            Err(_) => r is Err,
        },
    decreases fuel, 3int, 0int,
{
    let i = match find_die(dies, offset) {
        None => return Err(()),
        Some(i) => i,
    };
    let d = &dies[i];
    let mut w = copy_wip(wip);
    w.push(WipItemInfo { offset, name: clone_name(&d.name), tag: d.tag });
    let asz = d.address_size as u64;
    if d.tag == DW_TAG_BASE {
        let (bt, bn) = get_base_type(d.byte_size, d.encoding, d.address_size);
        Ok(finish(d, unit, offset, bt, Some(bn)))
    } else if d.tag == DW_TAG_POINTER {
        match d.type_ref {
            Some(pt) => match find_wip(&w, pt) {
                Some(idx) => {
                    let n = get_pointer_name(&w, idx);
                    proof {
                        lemma_opt_str(n);
                        lemma_opt_str(pointer_name(w@, idx as int));
                    }
                    Ok(finish(d, unit, offset, DbgDataType::Pointer(asz, pt), n))
                },
                None => {
                    let u2 = find_unit(dies, pt, unit);
                    let t = get_type(dies, big, u2, pt, &w, Ghost(fuel));
                    Ok(finish(d, unit, offset, DbgDataType::Pointer(asz, pt), t.name))
                },
            },
            None => {
                let void = String::from_str("void");
                proof {
                    reveal_strlit("void");
                }
                Ok(finish(d, unit, offset, DbgDataType::Pointer(asz, 0), Some(void)))
            },
        }
    } else if d.tag == DW_TAG_ARRAY {
        get_array_type(dies, big, unit, offset, d, &w, Ghost(fuel))
    } else if d.tag == DW_TAG_ENUMERATION {
        match (d.byte_size, get_enumerators(dies, &d.children, 0)) {
            (Some(size), Ok(es)) => {
                let signed = enum_is_signed(dies, d);
                Ok(finish(d, unit, offset, DbgDataType::Enum { size, signed, enumerators: es }, None))
            },
            _ => Err(()),
        }
    } else if d.tag == DW_TAG_STRUCTURE || d.tag == DW_TAG_UNION {
        match d.byte_size {
            None => Err(()),
            Some(size) => match get_struct_or_union_members(dies, big, unit, d, &w, Ghost(fuel)) {
                Err(()) => Err(()),
                Ok(members) => {
                    let dt = if d.tag == DW_TAG_STRUCTURE {
                        DbgDataType::Struct { size, members }
                    } else {
                        DbgDataType::Union { size, members }
                    };
                    Ok(finish(d, unit, offset, dt, None))
                },
            },
        }
    } else if d.tag == DW_TAG_CLASS {
        match d.byte_size {
            None => Err(()),
            Some(size) => {
                let ghost inh_read = read_inheritance(dies@, big, unit, *d, w@, fuel, 0, seq![]).unwrap();
                let ghost vi = match inh_read {
                    Ok(x) => x,
                    Err(_) => seq![],
                };
                let (inh, copies) = match get_class_inheritance(dies, big, unit, d, &w, Ghost(fuel)) {
                    Ok(x) => x,
                    Err(()) => {
                        let none: MemberList = Vec::new();
                        assert(members_are(none@, vi));
                        (none, Vec::new())
                    },
                };
                match get_struct_or_union_members(dies, big, unit, d, &w, Ghost(fuel)) {
                    Err(()) => Err(()),
                    Ok(mut members) => {
                        let ghost msv = read_members(dies@, big, unit, *d, w@, fuel, 0, seq![]).unwrap()->Ok_0;
                        merge_base_members(&mut members, &inh, copies, Ghost(msv), Ghost(vi));
                        Ok(finish(d, unit, offset, DbgDataType::Class { size, inheritance: inh, members }, None))
                    },
                }
            },
        }
    } else if d.tag == DW_TAG_TYPEDEF {
        match d.type_ref {
            None => Err(()),
            Some(t) => {
                let u2 = find_unit(dies, t, unit);
                let rt = get_type(dies, big, u2, t, &w, Ghost(fuel));
                let ghost rtg = rt;
                let r = finish(d, unit, offset, rt.datatype, None);
                proof {
                    let rtv = read_type(dies@, big, u2, t, w@, fuel).unwrap();
                    lemma_same_datatype(rtg, rtv, r, finished(*d, unit, offset, rtv.datatype, None));
                }
                Ok(r)
            },
        }
    } else if d.tag == DW_TAG_CONST || d.tag == DW_TAG_VOLATILE {
        match d.type_ref {
            None => Ok(finish(d, unit, offset, DbgDataType::Other(asz), None)),
            Some(t) => {
                let u2 = find_unit(dies, t, unit);
                let ti = get_type(dies, big, u2, t, &w, Ghost(fuel));
                let ghost tig = ti;
                let r = finish(d, unit, offset, ti.datatype, ti.name);
                proof {
                    let tv = read_type(dies@, big, u2, t, w@, fuel).unwrap();
                    lemma_same_datatype(tig, tv, r, finished(*d, unit, offset, tv.datatype, tv.name));
                }
                Ok(r)
            },
        }
    } else if d.tag == DW_TAG_SUBROUTINE {
        let pf = String::from_str("p_function");
        proof {
            reveal_strlit("p_function");
        }
        Ok(finish(d, unit, offset, DbgDataType::FuncPtr(asz), Some(pf)))
    } else if d.tag == DW_TAG_UNSPECIFIED {
        let size: u64 = match d.byte_size {
            Some(s) => s,
            None => 0,
        };
        Ok(finish(d, unit, offset, DbgDataType::Other(size), None))
    } else {
        Err(())
    }
}

/// An array type (see `read_array`).
fn get_array_type(
    dies: &Vec<DieInfo>,
    big: bool,
    unit: usize,
    offset: usize,
    d: &DieInfo,
    w: &Vec<WipItemInfo>,
    Ghost(fuel): Ghost<nat>,
) -> (r: Result<TypeInfo, ()>)
    requires
        read_array(dies@, big, unit, *d, w@, fuel) is Some,
    ensures
        match read_array(dies@, big, unit, *d, w@, fuel).unwrap() {
            Ok((dv, inner)) => r is Ok && is_view(r->Ok_0, finished(*d, unit, offset, dv, inner)),
            Err(_) => r is Err,
        },
    decreases fuel, 2int, 0int,
{
    match d.type_ref {
        None => Err(()),
        Some(t) => {
            let u2 = find_unit(dies, t, unit);
            let at = get_type(dies, big, u2, t, w, Ghost(fuel));
            let ghost atv = read_type(dies@, big, u2, t, w@, fuel).unwrap();
            proof {
                lemma_size_view(at, atv);
            }
            let stride: u64 = match d.byte_stride {
                Some(s) => s,
                None => at.get_size(),
            };
            match get_array_dims(dies, &d.children, 0) {
                None => Err(()),
                Some(dims0) => {
                    let dims = match d.byte_size {
                        Some(bs) => if dims0.len() == 1 && dims0[0] == 0 && stride != 0 {
                            let mut v: Vec<u64> = Vec::new();
                            v.push(bs / stride);
                            assert(v@ =~= seq![(bs / stride) as u64]);
                            v
                        } else {
                            dims0
                        },
                        None => dims0,
                    };
                    let size: u64 = match d.byte_size {
                        Some(s) => s,
                        None => match get_dims_product(stride, &dims) {
                            Some(p) => p,
                            None => return Err(()),
                        },
                    };
                    let name = clone_name(&at.name);
                    Ok(finish(d, unit, offset, DbgDataType::Array { size, dim: dims, stride, arraytype: Box::new(at) }, name))
                },
            }
        },
    }
}

/// The members of a struct, union or class entry (see `read_members`).
fn get_struct_or_union_members(
    dies: &Vec<DieInfo>,
    big: bool,
    unit: usize,
    d: &DieInfo,
    w: &Vec<WipItemInfo>,
    Ghost(fuel): Ghost<nat>,
) -> (r: Result<MemberList, ()>)
    requires
        read_members(dies@, big, unit, *d, w@, fuel, 0, seq![]) is Some,
    ensures
        match read_members(dies@, big, unit, *d, w@, fuel, 0, seq![]).unwrap() {
            Ok(vm) => r is Ok && members_are(r->Ok_0@, vm),
            Err(_) => r is Err,
        },
    decreases fuel, 1int, 0int,
{
    let mut mv: MemberList = Vec::new();
    let ghost mut acc: Seq<(Seq<char>, (TypeView, u64))> = seq![];
    let mut k: usize = 0;
    while k < d.children.len()
        invariant
            k <= d.children.len(),
            members_are(mv@, acc),
            read_members(dies@, big, unit, *d, w@, fuel, 0, seq![]) == read_members(dies@, big, unit, *d, w@, fuel, k as int, acc),
            read_members(dies@, big, unit, *d, w@, fuel, 0, seq![]) is Some,
        decreases d.children.len() - k,
    {
        let ci = d.children[k];
        if ci < dies.len() && dies[ci].tag == DW_TAG_MEMBER {
            let cd = &dies[ci];
            let off0: u64 = match cd.member_location {
                Some(l) => l,
                None => 0,
            };
            let tr = match cd.type_ref {
                None => return Err(()),
                Some(tr) => tr,
            };
            let u2 = find_unit(dies, tr, unit);
            let mt = get_type(dies, big, u2, tr, w, Ghost(fuel));
            let ghost mtv = read_type(dies@, big, u2, tr, w@, fuel).unwrap();
            let (mt2, off2) = make_bitfield(cd, mt, off0, big, Ghost(mtv));
            let ghost bf = bitfield_member(*cd, mtv, off0, big).unwrap();
            match &cd.name {
                Some(n) => {
                    if n.unicode_len() > 0 {
                        let rt = make_reference(mt2, tr, Ghost(bf.0));
                        insert_member(&mut mv, n.clone(), rt, off2, Ghost(acc), Ghost(referenced(bf.0, tr)));
                        proof {
                            acc = member_insert(acc, n@, (referenced(bf.0, tr), off2));
                        }
                    }
                },
                None => {
                    let anon: Option<MemberList> = match mt2.datatype {
                        DbgDataType::Struct { members, .. } => Some(members),
                        DbgDataType::Union { members, .. } => Some(members),
                        DbgDataType::Class { members, .. } => Some(members),
                        _ => None,
                    };
                    match anon {
                        Some(am) => {
                            let ghost amv = members_of_view(bf.0).unwrap();
                            insert_members(&mut mv, am, off2, Ghost(acc), Ghost(amv));
                            proof {
                                acc = insert_all(acc, amv, off2, 0).unwrap();
                            }
                        },
                        None => {},
                    }
                },
            }
        }
        k += 1;
    }
    Ok(mv)
}

/// The base classes of a class entry (see `read_inheritance`), and their
/// types once more.
fn get_class_inheritance(
    dies: &Vec<DieInfo>,
    big: bool,
    unit: usize,
    d: &DieInfo,
    w: &Vec<WipItemInfo>,
    Ghost(fuel): Ghost<nat>,
) -> (r: Result<(MemberList, Vec<TypeInfo>), ()>)
    requires
        read_inheritance(dies@, big, unit, *d, w@, fuel, 0, seq![]) is Some,
    ensures
        match read_inheritance(dies@, big, unit, *d, w@, fuel, 0, seq![]).unwrap() {
            Ok(vi) => r is Ok && members_are(r->Ok_0.0@, vi) && r->Ok_0.1@.len() == vi.len() && (forall|j: int|
                0 <= j < vi.len() ==> is_view(#[trigger] r->Ok_0.1@[j], vi[j].1.0)),
            Err(_) => r is Err,
        },
    decreases fuel, 1int, 0int,
{
    let mut inh: MemberList = Vec::new();
    let mut copies: Vec<TypeInfo> = Vec::new();
    let ghost mut acc: Seq<(Seq<char>, (TypeView, u64))> = seq![];
    let mut k: usize = 0;
    while k < d.children.len()
        invariant
            k <= d.children.len(),
            members_are(inh@, acc),
            copies@.len() == acc.len(),
            forall|j: int| 0 <= j < acc.len() ==> is_view(#[trigger] copies@[j], acc[j].1.0),
            read_inheritance(dies@, big, unit, *d, w@, fuel, 0, seq![]) == read_inheritance(
                dies@,
                big,
                unit,
                *d,
                w@,
                fuel,
                k as int,
                acc,
            ),
            read_inheritance(dies@, big, unit, *d, w@, fuel, 0, seq![]) is Some,
        decreases d.children.len() - k,
    {
        let ci = d.children[k];
        if ci < dies.len() && dies[ci].tag == DW_TAG_INHERITANCE {
            let cd = &dies[ci];
            let (loc, tr) = match (cd.member_location, cd.type_ref) {
                (Some(loc), Some(tr)) => (loc, tr),
                _ => return Err(()),
            };
            let j = match find_die(dies, tr) {
                None => return Err(()),
                Some(j) => j,
            };
            let bname = match &dies[j].name {
                None => return Err(()),
                Some(n) => n.clone(),
            };
            let u2 = find_unit(dies, tr, unit);
            let bt = get_type(dies, big, u2, tr, w, Ghost(fuel));
            let copy = get_type(dies, big, u2, tr, w, Ghost(fuel));
            let ghost btv = read_type(dies@, big, u2, tr, w@, fuel).unwrap();
            let ghost before = copies@;
            let ghost bn = bname@;
            match insert_member(&mut inh, bname, bt, loc, Ghost(acc), Ghost(btv)) {
                Some(p) => {
                    copies.remove(p);
                    copies.insert(p, copy);
                    assert(copies@ =~= before.update(p as int, copy));
                },
                None => {
                    copies.push(copy);
                },
            }
            proof {
                let acc2 = member_insert(acc, bn, (btv, loc));
                assert forall|q: int| 0 <= q < acc2.len() implies is_view(#[trigger] copies@[q], acc2[q].1.0) by {
                    if q < acc.len() && copies@[q] == before[q] {
                        assert(is_view(before[q], acc[q].1.0));
                    }
                }
                acc = acc2;
            }
        }
        k += 1;
    }
    Ok((inh, copies))
}

/// The type read at an offset is the type at that offset of the unit it was
/// read in: the table of types finds it by that offset.
pub proof fn law_type_read_at_offset(dies: Seq<DieInfo>, big_endian: bool, unit: usize, offset: usize)
    requires
        reading_ends(dies, big_endian, unit, offset),
    ensures
        type_from_dies(dies, big_endian, unit, offset).dbginfo_offset == offset,
        type_from_dies(dies, big_endian, unit, offset).unit_idx == unit,
{
    let fuel = choose|fuel: nat| #[trigger] read_type(dies, big_endian, unit, offset, seq![], fuel) is Some;
    assert(read_type(dies, big_endian, unit, offset, seq![], fuel) is Some);
    assert(fuel > 0);
    let inner = read_wrapped(dies, big_endian, unit, offset, seq![], (fuel - 1) as nat);
    if let Some(Ok(t)) = inner {
        assert(t.dbginfo_offset == offset && t.unit_idx == unit);
    }
}

/// The type at `offset` in a table of debugging information entries, read
/// in unit `unit`: `type_from_dies`, seen through its view. `big_endian`
/// tells how bit fields count their offsets.
pub fn load_type(dies: &Vec<DieInfo>, big_endian: bool, unit: usize, offset: usize) -> (r: TypeInfo)
    requires
        reading_ends(dies@, big_endian, unit, offset),
    ensures
        is_view(r, type_from_dies(dies@, big_endian, unit, offset)),
{
    let ghost fuel = choose|fuel: nat| #[trigger] read_type(dies@, big_endian, unit, offset, seq![], fuel) is Some;
    let wip: Vec<WipItemInfo> = Vec::new();
    get_type(dies, big_endian, unit, offset, &wip, Ghost(fuel))
}

} // verus!
