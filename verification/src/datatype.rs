//! The A2L data type that a variable of a debug-information type is measured
//! or calibrated as.

use vstd::prelude::*;
use crate::creator::definitions::DataType;
use crate::debuginfo::{type_size, DbgDataType, TypeInfo};

verus! {

/// The unsigned A2L type of a size in bytes: 8, 4 and 2 bytes have their
/// types, anything else is a byte.
pub open spec fn unsigned_of_size(size: u64) -> DataType {
    if size == 8 {
        DataType::AUint64
    } else if size == 4 {
        DataType::Ulong
    } else if size == 2 {
        DataType::Uword
    } else {
        DataType::Ubyte
    }
}

/// The signed A2L type of a size in bytes.
pub open spec fn signed_of_size(size: u64) -> DataType {
    if size == 8 {
        DataType::AInt64
    } else if size == 4 {
        DataType::Slong
    } else if size == 2 {
        DataType::Sword
    } else {
        DataType::Sbyte
    }
}

/// The A2L data type of a type: integers and floats map to their A2L
/// counterparts, bit fields and arrays to that of their base or element type,
/// pointers to a 32 or 64 bit unsigned integer, enums and other types by
/// their size (enums signed or unsigned), anything else to a byte.
pub open spec fn a2l_datatype(t: TypeInfo) -> DataType
    decreases t,
{
    match t.datatype {
        DbgDataType::Uint8 => DataType::Ubyte,
        DbgDataType::Uint16 => DataType::Uword,
        DbgDataType::Uint32 => DataType::Ulong,
        DbgDataType::Uint64 => DataType::AUint64,
        DbgDataType::Sint8 => DataType::Sbyte,
        DbgDataType::Sint16 => DataType::Sword,
        DbgDataType::Sint32 => DataType::Slong,
        DbgDataType::Sint64 => DataType::AInt64,
        DbgDataType::Float => DataType::Float32Ieee,
        DbgDataType::Double => DataType::Float64Ieee,
        DbgDataType::Bitfield { basetype, .. } => a2l_datatype(*basetype),
        DbgDataType::Pointer(size, _) => if size == 8 {
            DataType::AUint64
        } else {
            DataType::Ulong
        },
        DbgDataType::Enum { size, signed, .. } => if signed {
            signed_of_size(size)
        } else {
            unsigned_of_size(size)
        },
        DbgDataType::Other(size) => unsigned_of_size(size),
        DbgDataType::Array { arraytype, .. } => a2l_datatype(*arraytype),
        _ => DataType::Ubyte,
    }
}

fn unsigned_of(size: u64) -> (r: DataType)
    ensures
        r == unsigned_of_size(size),
{
    if size == 8 {
        DataType::AUint64
    } else if size == 4 {
        DataType::Ulong
    } else if size == 2 {
        DataType::Uword
    } else {
        DataType::Ubyte
    }
}

fn signed_of(size: u64) -> (r: DataType)
    ensures
        r == signed_of_size(size),
{
    if size == 8 {
        DataType::AInt64
    } else if size == 4 {
        DataType::Slong
    } else if size == 2 {
        DataType::Sword
    } else {
        DataType::Sbyte
    }
}

/// The A2L data type of a variable of the given type.
pub fn get_a2l_datatype(typeinfo: &TypeInfo) -> (r: DataType)
    ensures
        r == a2l_datatype(*typeinfo),
    decreases typeinfo,
{
    match &typeinfo.datatype {
        DbgDataType::Uint8 => DataType::Ubyte,
        DbgDataType::Uint16 => DataType::Uword,
        DbgDataType::Uint32 => DataType::Ulong,
        DbgDataType::Uint64 => DataType::AUint64,
        DbgDataType::Sint8 => DataType::Sbyte,
        DbgDataType::Sint16 => DataType::Sword,
        DbgDataType::Sint32 => DataType::Slong,
        DbgDataType::Sint64 => DataType::AInt64,
        DbgDataType::Float => DataType::Float32Ieee,
        DbgDataType::Double => DataType::Float64Ieee,
        DbgDataType::Bitfield { basetype, .. } => get_a2l_datatype(basetype),
        DbgDataType::Pointer(size, _) => {
            if *size == 8 {
                DataType::AUint64
            } else {
                DataType::Ulong
            }
        },
        DbgDataType::Enum { size, signed, .. } => {
            if *signed {
                signed_of(*size)
            } else {
                unsigned_of(*size)
            }
        },
        DbgDataType::Other(size) => unsigned_of(*size),
        DbgDataType::Array { arraytype, .. } => get_a2l_datatype(arraytype),
        _ => DataType::Ubyte,
    }
}

/// The dimensions of a (possibly nested) array type, outer ones first:
/// compilers write a multi-dimensional array either as one array with
/// several dimensions or as nested arrays of one dimension each.
pub open spec fn array_dims(t: TypeInfo) -> Seq<u64>
    decreases t,
{
    match t.datatype {
        DbgDataType::Array { dim, arraytype, .. } => dim@ + array_dims(*arraytype),
        _ => seq![],
    }
}

/// The MATRIX_DIM values of an item of a type: its array dimensions (as
/// `u16`), `None` for a type that is no array. Before file version 1.70
/// there are exactly three values: missing ones are 1, extra ones are left
/// out.
pub open spec fn matrix_dim_of(t: TypeInfo, new_format: bool) -> Option<Seq<u16>> {
    let d = array_dims(t).map_values(|v: u64| v as u16);
    if d.len() == 0 {
        None
    } else if new_format {
        Some(d)
    } else if d.len() >= 3 {
        Some(d.subrange(0, 3))
    } else {
        Some(d + Seq::new((3 - d.len()) as nat, |i: int| 1u16))
    }
}

fn push_array_dims(t: &TypeInfo, out: &mut Vec<u16>)
    ensures
        final(out)@ == old(out)@ + array_dims(*t).map_values(|v: u64| v as u16),
    decreases t,
{
    match &t.datatype {
        DbgDataType::Array { dim, arraytype, .. } => {
            let ghost before = out@;
            let mut i: usize = 0;
            while i < dim.len()
                invariant
                    i <= dim@.len(),
                    out@ == before + dim@.subrange(0, i as int).map_values(|v: u64| v as u16),
                decreases dim@.len() - i,
            {
                out.push(dim[i] as u16);
                assert(dim@.subrange(0, i + 1).map_values(|v: u64| v as u16) =~= dim@.subrange(0, i as int).map_values(|v: u64| v as u16).push(dim@[i as int] as u16));
                i += 1;
            }
            assert(dim@.subrange(0, dim@.len() as int) =~= dim@);
            let ghost mid = out@;
            push_array_dims(arraytype, out);
            assert((dim@ + array_dims(**arraytype)).map_values(|v: u64| v as u16) =~= dim@.map_values(|v: u64| v as u16) + array_dims(**arraytype).map_values(|v: u64| v as u16));
            assert(out@ =~= before + array_dims(*t).map_values(|v: u64| v as u16));
        },
        _ => {
            assert(array_dims(*t).map_values(|v: u64| v as u16) =~= Seq::<u16>::empty());
            assert(out@ =~= old(out)@ + Seq::<u16>::empty());
        },
    }
}

/// The MATRIX_DIM values of an item of the given type (see
/// `matrix_dim_of`); `None` means the item has no MATRIX_DIM.
pub fn get_matrix_dim(typeinfo: &TypeInfo, new_format: bool) -> (r: Option<Vec<u16>>)
    ensures
        match r {
            Some(v) => matrix_dim_of(*typeinfo, new_format) == Some(v@),
            None => matrix_dim_of(*typeinfo, new_format) is None,
        },
{
    let mut values: Vec<u16> = Vec::new();
    push_array_dims(typeinfo, &mut values);
    assert(values@ =~= array_dims(*typeinfo).map_values(|v: u64| v as u16));
    if values.len() == 0 {
        return None;
    }
    if !new_format {
        let ghost d = values@;
        while values.len() < 3
            invariant
                d.len() > 0,
                values@.len() <= 3 ==> values@ == d + Seq::new((values@.len() - d.len()) as nat, |i: int| 1u16),
                d.len() <= values@.len(),
                d.len() >= 3 ==> values@ == d,
                d.len() < 3 ==> values@.len() <= 3,
            decreases 3 - values@.len(),
        {
            values.push(1);
            assert(values@ =~= d + Seq::new((values@.len() - d.len()) as nat, |i: int| 1u16));
        }
        values.truncate(3);
        proof {
            if d.len() >= 3 {
                assert(values@ =~= d.subrange(0, 3));
            } else {
                assert(values@ =~= d + Seq::new((3 - d.len()) as nat, |i: int| 1u16));
            }
        }
    }
    Some(values)
}

/// The BIT_MASK of an item of a bit field type: `bit_size` one bits from
/// `bit_offset` on; `None` for other types.
pub open spec fn bitmask_of(t: TypeInfo) -> Option<u64> {
    match t.datatype {
        DbgDataType::Bitfield { bit_offset, bit_size, .. } => Some(
            (((1u64 << bit_size) - 1) as u64) << bit_offset,
        ),
        _ => None,
    }
}

/// The BIT_MASK of an item of the given type (see `bitmask_of`); the bit
/// size and offset of a bit field are below 64.
pub fn get_bitmask(datatype: &TypeInfo) -> (r: Option<u64>)
    requires
        datatype.datatype matches DbgDataType::Bitfield { bit_offset, bit_size, .. } ==> bit_size < 64
            && bit_offset < 64,
    ensures
        r == bitmask_of(*datatype),
{
    match &datatype.datatype {
        DbgDataType::Bitfield { bit_offset, bit_size, .. } => {
            let bs: u64 = *bit_size as u64;
            let bo: u64 = *bit_offset as u64;
            let one: u64 = 1;
            let high = one << bs;
            assert(high >= 1) by (bit_vector)
                requires
                    high == 1u64 << bs,
                    bs < 64,
            ;
            let mask = (high - 1) << bo;
            Some(mask)
        },
        _ => None,
    }
}


/// The data type fields of a CANape `LINK_MAP` in `IF_DATA`: the type code,
/// the bit offset of a bit field, and whether the type code is valid.
pub struct LinkMapType {
    pub datatype: u16,
    pub bit_offset: u16,
    pub datatype_valid: u16,
}

/// Whether a data type is a signed integer.
pub open spec fn is_signed_int(d: DbgDataType) -> bool {
    d is Sint8 || d is Sint16 || d is Sint32 || d is Sint64
}

/// The `LINK_MAP` type code of a type: unsigned integers 0x87, 0x8f, 0x9f,
/// 0xbf by width, signed ones 0xc7, 0xcf, 0xdf, 0xff, `float` 0x01, `double`
/// 0x02, enums by their size (1: 0x87, 2 and 4: 0x8f, 8: 0xbf, else 0), bit
/// fields 0x80, with 0x40 for a signed base type, or'ed with the bit size
/// less one, together with their bit offset; any other type has no valid
/// code.
pub open spec fn link_map_of(t: TypeInfo) -> LinkMapType {
    match t.datatype {
        DbgDataType::Uint8 => LinkMapType { datatype: 0x87, bit_offset: 0, datatype_valid: 1 },
        DbgDataType::Uint16 => LinkMapType { datatype: 0x8f, bit_offset: 0, datatype_valid: 1 },
        DbgDataType::Uint32 => LinkMapType { datatype: 0x9f, bit_offset: 0, datatype_valid: 1 },
        DbgDataType::Uint64 => LinkMapType { datatype: 0xbf, bit_offset: 0, datatype_valid: 1 },
        DbgDataType::Sint8 => LinkMapType { datatype: 0xc7, bit_offset: 0, datatype_valid: 1 },
        DbgDataType::Sint16 => LinkMapType { datatype: 0xcf, bit_offset: 0, datatype_valid: 1 },
        DbgDataType::Sint32 => LinkMapType { datatype: 0xdf, bit_offset: 0, datatype_valid: 1 },
        DbgDataType::Sint64 => LinkMapType { datatype: 0xff, bit_offset: 0, datatype_valid: 1 },
        DbgDataType::Float => LinkMapType { datatype: 0x01, bit_offset: 0, datatype_valid: 1 },
        DbgDataType::Double => LinkMapType { datatype: 0x02, bit_offset: 0, datatype_valid: 1 },
        DbgDataType::Enum { size, .. } => LinkMapType {
            datatype: if size == 1 {
                0x87
            } else if size == 2 || size == 4 {
                0x8f
            } else if size == 8 {
                0xbf
            } else {
                0
            },
            bit_offset: 0,
            datatype_valid: 1,
        },
        DbgDataType::Bitfield { basetype, bit_offset, bit_size } => LinkMapType {
            datatype: 0x80u16 | (if is_signed_int(basetype.datatype) {
                0x40u16
            } else {
                0u16
            }) | ((bit_size - 1) as u16),
            bit_offset: bit_offset,
            datatype_valid: 1,
        },
        _ => LinkMapType { datatype: 0, bit_offset: 0, datatype_valid: 0 },
    }
}

/// The `LINK_MAP` type fields of a type (see `link_map_of`); a bit field
/// has at least one bit.
pub fn link_map_datatype(typeinfo: &TypeInfo) -> (r: LinkMapType)
    requires
        typeinfo.datatype matches DbgDataType::Bitfield { bit_size, .. } ==> bit_size > 0,
    ensures
        r == link_map_of(*typeinfo),
{
    match &typeinfo.datatype {
        DbgDataType::Uint8 => LinkMapType { datatype: 0x87, bit_offset: 0, datatype_valid: 1 },
        DbgDataType::Uint16 => LinkMapType { datatype: 0x8f, bit_offset: 0, datatype_valid: 1 },
        DbgDataType::Uint32 => LinkMapType { datatype: 0x9f, bit_offset: 0, datatype_valid: 1 },
        DbgDataType::Uint64 => LinkMapType { datatype: 0xbf, bit_offset: 0, datatype_valid: 1 },
        DbgDataType::Sint8 => LinkMapType { datatype: 0xc7, bit_offset: 0, datatype_valid: 1 },
        DbgDataType::Sint16 => LinkMapType { datatype: 0xcf, bit_offset: 0, datatype_valid: 1 },
        DbgDataType::Sint32 => LinkMapType { datatype: 0xdf, bit_offset: 0, datatype_valid: 1 },
        DbgDataType::Sint64 => LinkMapType { datatype: 0xff, bit_offset: 0, datatype_valid: 1 },
        DbgDataType::Float => LinkMapType { datatype: 0x01, bit_offset: 0, datatype_valid: 1 },
        DbgDataType::Double => LinkMapType { datatype: 0x02, bit_offset: 0, datatype_valid: 1 },
        DbgDataType::Enum { size, .. } => {
            let code: u16 = if *size == 1 {
                0x87
            } else if *size == 2 || *size == 4 {
                0x8f
            } else if *size == 8 {
                0xbf
            } else {
                0
            };
            LinkMapType { datatype: code, bit_offset: 0, datatype_valid: 1 }
        },
        DbgDataType::Bitfield { basetype, bit_offset, bit_size } => {
            let signed: u16 = match &basetype.datatype {
                DbgDataType::Sint8 | DbgDataType::Sint16 | DbgDataType::Sint32 | DbgDataType::Sint64 => 0x40,
                _ => 0,
            };
            LinkMapType { datatype: 0x80u16 | signed | (*bit_size - 1), bit_offset: *bit_offset, datatype_valid: 1 }
        },
        _ => LinkMapType { datatype: 0, bit_offset: 0, datatype_valid: 0 },
    }
}

/// The size a CCP `DP_BLOB` gets for a type: 1, 2, 4 or 8 bytes for the
/// base types, the size of an enum (to 32 bits); none for other types, whose
/// size is left as it was.
pub open spec fn dp_blob_size_of(t: TypeInfo) -> Option<u32> {
    match t.datatype {
        DbgDataType::Uint8 | DbgDataType::Sint8 => Some(1),
        DbgDataType::Uint16 | DbgDataType::Sint16 => Some(2),
        DbgDataType::Float | DbgDataType::Uint32 | DbgDataType::Sint32 => Some(4),
        DbgDataType::Double | DbgDataType::Uint64 | DbgDataType::Sint64 => Some(8),
        DbgDataType::Enum { size, .. } => Some(size as u32),
        _ => None,
    }
}

/// The size a CCP `DP_BLOB` gets for a type (see `dp_blob_size_of`).
pub fn dp_blob_size(typeinfo: &TypeInfo) -> (r: Option<u32>)
    ensures
        r == dp_blob_size_of(*typeinfo),
{
    match &typeinfo.datatype {
        DbgDataType::Uint8 | DbgDataType::Sint8 => Some(1),
        DbgDataType::Uint16 | DbgDataType::Sint16 => Some(2),
        DbgDataType::Float | DbgDataType::Uint32 | DbgDataType::Sint32 => Some(4),
        DbgDataType::Double | DbgDataType::Uint64 | DbgDataType::Sint64 => Some(8),
        DbgDataType::Enum { size, .. } => Some(*size as u32),
        _ => None,
    }
}

/// The size in bytes of a value of an A2L data type.
pub open spec fn a2l_byte_size(d: DataType) -> nat {
    match d {
        DataType::Ubyte | DataType::Sbyte => 1,
        DataType::Uword | DataType::Sword | DataType::Float16Ieee => 2,
        DataType::Ulong | DataType::Slong | DataType::Float32Ieee => 4,
        DataType::AUint64 | DataType::AInt64 | DataType::Float64Ieee => 8,
    }
}

/// Whether an A2L data type is a floating-point type.
pub open spec fn a2l_is_float(d: DataType) -> bool {
    d is Float16Ieee || d is Float32Ieee || d is Float64Ieee
}

/// Whether an A2L data type is a signed integer type.
pub open spec fn a2l_is_signed(d: DataType) -> bool {
    d is Sbyte || d is Sword || d is Slong || d is AInt64
}

/// A variable of an integer or floating-point type is measured as an A2L
/// type of the same byte size, a floating-point type exactly for `float`
/// and `double`, a signed one exactly for the signed integers. A pointer is
/// an unsigned integer of 8 bytes where it has 8, else of 4; an enum or
/// another type of 1, 2, 4 or 8 bytes an integer of its size (an enum
/// signed where it is). A bit field is measured as its base type, an array
/// as its elements.
pub proof fn law_a2l_type_keeps_size_and_kind(t: TypeInfo)
    ensures
        (t.datatype is Uint8 || t.datatype is Uint16 || t.datatype is Uint32 || t.datatype is Uint64
            || t.datatype is Sint8 || t.datatype is Sint16 || t.datatype is Sint32 || t.datatype is Sint64
            || t.datatype is Float || t.datatype is Double) ==> {
            &&& a2l_byte_size(a2l_datatype(t)) == type_size(t)
            &&& a2l_is_float(a2l_datatype(t)) == (t.datatype is Float || t.datatype is Double)
            &&& a2l_is_signed(a2l_datatype(t)) == (t.datatype is Sint8 || t.datatype is Sint16
                || t.datatype is Sint32 || t.datatype is Sint64)
        },
        t.datatype is Pointer ==> !a2l_is_float(a2l_datatype(t)) && !a2l_is_signed(a2l_datatype(t)) && a2l_byte_size(
            a2l_datatype(t),
        ) == if type_size(t) == 8 {
            8nat
        } else {
            4nat
        },
        t.datatype matches DbgDataType::Enum { size, signed, .. } ==> ((size == 1 || size == 2 || size == 4 || size
            == 8) ==> a2l_byte_size(a2l_datatype(t)) == size && !a2l_is_float(a2l_datatype(t)) && a2l_is_signed(
            a2l_datatype(t),
        ) == signed),
        t.datatype matches DbgDataType::Other(size) ==> ((size == 1 || size == 2 || size == 4 || size == 8)
            ==> a2l_byte_size(a2l_datatype(t)) == size && !a2l_is_float(a2l_datatype(t)) && !a2l_is_signed(
            a2l_datatype(t),
        )),
        t.datatype matches DbgDataType::Bitfield { basetype, .. } ==> a2l_datatype(t) == a2l_datatype(*basetype),
        t.datatype matches DbgDataType::Array { arraytype, .. } ==> a2l_datatype(t) == a2l_datatype(*arraytype),
{
}

} // verus!
