//! The built-in types of PDB debug information. A type index below 0x1000
//! names a built-in type: its low byte is the base type, its high byte the
//! kind of pointer to it (or none).

use vstd::prelude::*;
use std::collections::HashMap;
use crate::debuginfo::{DbgDataType, TypeInfo};
use crate::text::{append_radix, radix_text};

verus! {

broadcast use vstd::std_specs::hash::group_hash_axioms;

/// No type
pub const BUILTIN_TYPE_NOTYPE: u32 = 0x0000;
/// Absolute symbol
pub const BUILTIN_TYPE_ABS_SYMBOL: u32 = 0x0001;
/// Segment type
pub const BUILTIN_TYPE_SEGMENT: u32 = 0x0002;
/// Void type
pub const BUILTIN_TYPE_VOID: u32 = 0x0003;
/// BASIC 8 byte currency value
pub const BUILTIN_TYPE_CURRENCY: u32 = 0x0004;
/// BASIC string (near)
pub const BUILTIN_TYPE_NBASICSTR: u32 = 0x0005;
/// BASIC string (far)
pub const BUILTIN_TYPE_FBASICSTR: u32 = 0x0006;
/// type not translated by cvpack
pub const BUILTIN_TYPE_NOTTRANS: u32 = 0x0007;
/// OLE/COM HRESULT
pub const BUILTIN_TYPE_HRESULT: u32 = 0x0008;
/// 8 bit signed character
pub const BUILTIN_TYPE_CHAR: u32 = 0x0010;
/// 16 bit signed integer
pub const BUILTIN_TYPE_SHORT: u32 = 0x0011;
/// 32 bit signed integer
pub const BUILTIN_TYPE_LONG: u32 = 0x0012;
/// 64 bit signed integer
pub const BUILTIN_TYPE_QUAD: u32 = 0x0013;
/// 128 bit signed integer
pub const BUILTIN_TYPE_OCT: u32 = 0x0014;
/// 8 bit unsigned character
pub const BUILTIN_TYPE_UCHAR: u32 = 0x0020;
/// 16 bit unsigned integer
pub const BUILTIN_TYPE_USHORT: u32 = 0x0021;
/// 32 bit unsigned integer
pub const BUILTIN_TYPE_ULONG: u32 = 0x0022;
/// 64 bit unsigned integer
pub const BUILTIN_TYPE_UQUAD: u32 = 0x0023;
/// 128 bit unsigned integer
pub const BUILTIN_TYPE_UOCT: u32 = 0x0024;
/// 8 bit boolean
pub const BUILTIN_TYPE_BOOL08: u32 = 0x0030;
/// 16 bit boolean
pub const BUILTIN_TYPE_BOOL16: u32 = 0x0031;
/// 32 bit boolean
pub const BUILTIN_TYPE_BOOL32: u32 = 0x0032;
/// 64 bit boolean
pub const BUILTIN_TYPE_BOOL64: u32 = 0x0033;
/// 32 bit floating point
pub const BUILTIN_TYPE_REAL32: u32 = 0x0040;
/// 64 bit floating point
pub const BUILTIN_TYPE_REAL64: u32 = 0x0041;
/// 80 bit floating point
pub const BUILTIN_TYPE_REAL80: u32 = 0x0042;
/// 128 bit floating point
pub const BUILTIN_TYPE_REAL128: u32 = 0x0043;
/// 48 bit floating point
pub const BUILTIN_TYPE_REAL48: u32 = 0x0044;
/// 32 bit floating point (partial precision)
pub const BUILTIN_TYPE_REAL32PP: u32 = 0x0045;
/// 16 bit floating point
pub const BUILTIN_TYPE_REAL16: u32 = 0x0046;
/// 32 bit complex value
pub const BUILTIN_TYPE_COMPLEX32: u32 = 0x0050;
/// 64 bit complex value
pub const BUILTIN_TYPE_COMPLEX64: u32 = 0x0051;
/// 80 bit complex value
pub const BUILTIN_TYPE_COMPLEX80: u32 = 0x0052;
/// 128 bit complex value
pub const BUILTIN_TYPE_COMPLEX128: u32 = 0x0053;
/// bit
pub const BUILTIN_TYPE_BIT: u32 = 0x0060;
/// Pascal CHAR
pub const BUILTIN_TYPE_PASCHAR: u32 = 0x0061;
/// 32 bit boolean (0=false, -1=true)
pub const BUILTIN_TYPE_BOOL32FF: u32 = 0x0062;
/// 8 bit signed integer
pub const BUILTIN_TYPE_INT8: u32 = 0x0068;
/// 8 bit unsigned integer
pub const BUILTIN_TYPE_UINT8: u32 = 0x0069;
/// really a char - 8 bit
pub const BUILTIN_TYPE_RCHAR: u32 = 0x0070;
/// 16 bit unicode character
pub const BUILTIN_TYPE_WCHAR: u32 = 0x0071;
/// 16 bit signed integer
pub const BUILTIN_TYPE_INT16: u32 = 0x0072;
/// 16 bit unsigned integer
pub const BUILTIN_TYPE_UINT16: u32 = 0x0073;
/// 32 bit signed integer
pub const BUILTIN_TYPE_INT32: u32 = 0x0074;
/// 32 bit unsigned integer
pub const BUILTIN_TYPE_UINT32: u32 = 0x0075;
/// 64 bit signed integer
pub const BUILTIN_TYPE_INT64: u32 = 0x0076;
/// 64 bit unsigned integer
pub const BUILTIN_TYPE_UINT64: u32 = 0x0077;
/// 128 bit signed integer
pub const BUILTIN_TYPE_INT128: u32 = 0x0078;
/// 128 bit unsigned integer
pub const BUILTIN_TYPE_UINT128: u32 = 0x0079;
/// 16 bit unicode character
pub const BUILTIN_TYPE_CHAR16: u32 = 0x007a;
/// 32 bit unicode character
pub const BUILTIN_TYPE_CHAR32: u32 = 0x007b;

// pointer types - the x:y notation indicates the use of segmented addressing (DOS)
/// not a pointer
pub const BUILTIN_PTR_NONE: u32 = 0x00;
/// 16 bit near pointer
pub const BUILTIN_PTR_NEAR: u32 = 0x01;
/// 16:16 far pointer - unsupported
pub const BUILTIN_PTR_FAR: u32 = 0x02;
/// 16:16 huge pointer - unsupported
pub const BUILTIN_PTR_HUGE: u32 = 0x03;
/// 32 bit pointer
pub const BUILTIN_PTR_32: u32 = 0x04;
/// 16:32 far pointer - unsupported
pub const BUILTIN_PTR_32FAR: u32 = 0x05;
/// 64 bit pointer
pub const BUILTIN_PTR_64: u32 = 0x06;

/// Type indices below this name built-in types.
pub const BUILTIN_LIMIT: u32 = 0x1000;

/// Whether a type index names a built-in type.
pub fn is_builtin_type(type_index: u32) -> (r: bool)
    ensures
        r == (type_index < BUILTIN_LIMIT),
{
    type_index < BUILTIN_LIMIT
}

/// The data type of a built-in base type; `None` for an unknown one.
/// Unsupported types are represented as `Uint8`, so that their variables can
/// still be inserted and have their addresses updated; types that A2L cannot
/// represent become `Other` with their size.
pub open spec fn builtin_datatype(subtype: u32) -> Option<DbgDataType> {
    if subtype == BUILTIN_TYPE_NOTYPE || subtype == BUILTIN_TYPE_ABS_SYMBOL || subtype
        == BUILTIN_TYPE_SEGMENT || subtype == BUILTIN_TYPE_CURRENCY || subtype
        == BUILTIN_TYPE_NBASICSTR || subtype == BUILTIN_TYPE_FBASICSTR || subtype
        == BUILTIN_TYPE_NOTTRANS || subtype == BUILTIN_TYPE_PASCHAR {
        Some(DbgDataType::Uint8)
    } else if subtype == BUILTIN_TYPE_VOID {
        Some(DbgDataType::Other(0))
    } else if subtype == BUILTIN_TYPE_CHAR || subtype == BUILTIN_TYPE_RCHAR || subtype
        == BUILTIN_TYPE_INT8 {
        Some(DbgDataType::Sint8)
    } else if subtype == BUILTIN_TYPE_SHORT || subtype == BUILTIN_TYPE_INT16 {
        Some(DbgDataType::Sint16)
    } else if subtype == BUILTIN_TYPE_LONG || subtype == BUILTIN_TYPE_INT32 {
        Some(DbgDataType::Sint32)
    } else if subtype == BUILTIN_TYPE_QUAD || subtype == BUILTIN_TYPE_INT64 {
        Some(DbgDataType::Sint64)
    } else if subtype == BUILTIN_TYPE_UCHAR || subtype == BUILTIN_TYPE_UINT8 || subtype
        == BUILTIN_TYPE_BOOL08 {
        Some(DbgDataType::Uint8)
    } else if subtype == BUILTIN_TYPE_USHORT || subtype == BUILTIN_TYPE_WCHAR || subtype
        == BUILTIN_TYPE_UINT16 || subtype == BUILTIN_TYPE_BOOL16 || subtype == BUILTIN_TYPE_CHAR16 {
        Some(DbgDataType::Uint16)
    } else if subtype == BUILTIN_TYPE_HRESULT || subtype == BUILTIN_TYPE_ULONG || subtype
        == BUILTIN_TYPE_UINT32 || subtype == BUILTIN_TYPE_BOOL32 || subtype
        == BUILTIN_TYPE_BOOL32FF || subtype == BUILTIN_TYPE_CHAR32 {
        Some(DbgDataType::Uint32)
    } else if subtype == BUILTIN_TYPE_UQUAD || subtype == BUILTIN_TYPE_UINT64 || subtype
        == BUILTIN_TYPE_BOOL64 {
        Some(DbgDataType::Uint64)
    } else if subtype == BUILTIN_TYPE_REAL32 {
        Some(DbgDataType::Float)
    } else if subtype == BUILTIN_TYPE_REAL64 {
        Some(DbgDataType::Double)
    } else if subtype == BUILTIN_TYPE_REAL80 || subtype == BUILTIN_TYPE_COMPLEX80 {
        Some(DbgDataType::Other(10))
    } else if subtype == BUILTIN_TYPE_OCT || subtype == BUILTIN_TYPE_INT128 || subtype
        == BUILTIN_TYPE_UOCT || subtype == BUILTIN_TYPE_UINT128 || subtype == BUILTIN_TYPE_REAL128
        || subtype == BUILTIN_TYPE_COMPLEX128 {
        Some(DbgDataType::Other(16))
    } else if subtype == BUILTIN_TYPE_REAL48 {
        Some(DbgDataType::Other(6))
    } else if subtype == BUILTIN_TYPE_REAL32PP || subtype == BUILTIN_TYPE_COMPLEX32 {
        Some(DbgDataType::Other(4))
    } else if subtype == BUILTIN_TYPE_REAL16 {
        Some(DbgDataType::Other(2))
    } else if subtype == BUILTIN_TYPE_COMPLEX64 {
        Some(DbgDataType::Other(8))
    } else {
        None
    }
}

/// What a built-in pointer kind gives: `Ok(None)` for no pointer,
/// `Ok(Some(size))` for a 32 or 64 bit pointer, `Err(())` for a kind that is
/// not supported or not known.
pub open spec fn builtin_pointer_size(pointer_type: u32) -> Result<Option<u64>, ()> {
    if pointer_type == BUILTIN_PTR_NONE {
        Ok(None)
    } else if pointer_type == BUILTIN_PTR_32 {
        Ok(Some(4))
    } else if pointer_type == BUILTIN_PTR_64 {
        Ok(Some(8))
    } else {
        Err(())
    }
}

/// A type of the table without name, unit or definition offset.
pub open spec fn anonymous_type(datatype: DbgDataType) -> TypeInfo {
    TypeInfo { name: None, unit_idx: 0, datatype, dbginfo_offset: 0 }
}

/// The text `{v:04x}`: lower-case hexadecimal, padded with zeros to four
/// digits.
pub open spec fn hex4_text(v: u32) -> Seq<char> {
    let digits = radix_text(v as nat, 16, false);
    if digits.len() < 4 {
        Seq::new((4 - digits.len()) as nat, |i: int| '0') + digits
    } else {
        digits
    }
}

/// The message for a pointer kind that is not supported.
pub open spec fn pointer_error_text(pointer_type: u32, type_index: u32) -> Seq<char> {
    if pointer_type == BUILTIN_PTR_NEAR {
        "Near pointers are not supported"@
    } else if pointer_type == BUILTIN_PTR_FAR {
        "Far pointers are not supported"@
    } else if pointer_type == BUILTIN_PTR_HUGE {
        "Huge pointers are not supported"@
    } else if pointer_type == BUILTIN_PTR_32FAR {
        "32-bit far pointers are not supported"@
    } else {
        "Unknown built-in pointer type: "@ + radix_text(pointer_type as nat, 10, false)
            + " for type "@ + hex4_text(type_index)
    }
}

fn builtin_datatype_exec(subtype: u32) -> (r: Option<DbgDataType>)
    ensures
        r == builtin_datatype(subtype),
{
    if subtype == BUILTIN_TYPE_NOTYPE || subtype == BUILTIN_TYPE_ABS_SYMBOL || subtype
        == BUILTIN_TYPE_SEGMENT || subtype == BUILTIN_TYPE_CURRENCY || subtype
        == BUILTIN_TYPE_NBASICSTR || subtype == BUILTIN_TYPE_FBASICSTR || subtype
        == BUILTIN_TYPE_NOTTRANS || subtype == BUILTIN_TYPE_PASCHAR {
        Some(DbgDataType::Uint8)
    } else if subtype == BUILTIN_TYPE_VOID {
        Some(DbgDataType::Other(0))
    } else if subtype == BUILTIN_TYPE_CHAR || subtype == BUILTIN_TYPE_RCHAR || subtype
        == BUILTIN_TYPE_INT8 {
        Some(DbgDataType::Sint8)
    } else if subtype == BUILTIN_TYPE_SHORT || subtype == BUILTIN_TYPE_INT16 {
        Some(DbgDataType::Sint16)
    } else if subtype == BUILTIN_TYPE_LONG || subtype == BUILTIN_TYPE_INT32 {
        Some(DbgDataType::Sint32)
    } else if subtype == BUILTIN_TYPE_QUAD || subtype == BUILTIN_TYPE_INT64 {
        Some(DbgDataType::Sint64)
    } else if subtype == BUILTIN_TYPE_UCHAR || subtype == BUILTIN_TYPE_UINT8 || subtype
        == BUILTIN_TYPE_BOOL08 {
        Some(DbgDataType::Uint8)
    } else if subtype == BUILTIN_TYPE_USHORT || subtype == BUILTIN_TYPE_WCHAR || subtype
        == BUILTIN_TYPE_UINT16 || subtype == BUILTIN_TYPE_BOOL16 || subtype == BUILTIN_TYPE_CHAR16 {
        Some(DbgDataType::Uint16)
    } else if subtype == BUILTIN_TYPE_HRESULT || subtype == BUILTIN_TYPE_ULONG || subtype
        == BUILTIN_TYPE_UINT32 || subtype == BUILTIN_TYPE_BOOL32 || subtype
        == BUILTIN_TYPE_BOOL32FF || subtype == BUILTIN_TYPE_CHAR32 {
        Some(DbgDataType::Uint32)
    } else if subtype == BUILTIN_TYPE_UQUAD || subtype == BUILTIN_TYPE_UINT64 || subtype
        == BUILTIN_TYPE_BOOL64 {
        Some(DbgDataType::Uint64)
    } else if subtype == BUILTIN_TYPE_REAL32 {
        Some(DbgDataType::Float)
    } else if subtype == BUILTIN_TYPE_REAL64 {
        Some(DbgDataType::Double)
    } else if subtype == BUILTIN_TYPE_REAL80 || subtype == BUILTIN_TYPE_COMPLEX80 {
        Some(DbgDataType::Other(10))
    } else if subtype == BUILTIN_TYPE_OCT || subtype == BUILTIN_TYPE_INT128 || subtype
        == BUILTIN_TYPE_UOCT || subtype == BUILTIN_TYPE_UINT128 || subtype == BUILTIN_TYPE_REAL128
        || subtype == BUILTIN_TYPE_COMPLEX128 {
        Some(DbgDataType::Other(16))
    } else if subtype == BUILTIN_TYPE_REAL48 {
        Some(DbgDataType::Other(6))
    } else if subtype == BUILTIN_TYPE_REAL32PP || subtype == BUILTIN_TYPE_COMPLEX32 {
        Some(DbgDataType::Other(4))
    } else if subtype == BUILTIN_TYPE_REAL16 {
        Some(DbgDataType::Other(2))
    } else if subtype == BUILTIN_TYPE_COMPLEX64 {
        Some(DbgDataType::Other(8))
    } else {
        None
    }
}

fn append_hex4(out: &mut String, v: u32)
    ensures
        final(out)@ == old(out)@ + hex4_text(v),
{
    let ghost digits = radix_text(v as nat, 16, false);
    let ghost before = out@;
    let mut tmp = String::new();
    append_radix(&mut tmp, v as u64, 16, false);
    assert(tmp@ == digits);
    let n = tmp.unicode_len();
    if n < 4 {
        let mut k = n;
        while k < 4
            invariant
                n <= k <= 4,
                out@ == before + Seq::new((k - n) as nat, |i: int| '0'),
            decreases 4 - k,
        {
            let ghost prev = out@;
            out.append("0");
            proof {
                reveal_strlit("0");
            }
            assert(out@ =~= before + Seq::new((k + 1 - n) as nat, |i: int| '0'));
            k += 1;
        }
        let ghost mid = out@;
        out.append(tmp.as_str());
        assert(out@ =~= before + (Seq::new((4 - digits.len()) as nat, |i: int| '0') + digits));
    } else {
        out.append(tmp.as_str());
    }
}

/// Adds a built-in type to the table of types: the base type under its
/// index, and where the index names a 32 or 64 bit pointer to it, the
/// pointer under the full index. An unknown base type, and a pointer kind
/// that is not supported, are errors; the base type is added before the
/// pointer kind is checked.
pub fn read_builtin_type(type_index: u32, types: &mut HashMap<usize, TypeInfo>) -> (r: Result<(), String>)
    requires
        type_index & 0xff != BUILTIN_TYPE_BIT,
    ensures
        ({
            let subtype = type_index & 0xff;
            let pointer_type = (type_index >> 8) & 0xff;
            match builtin_datatype(subtype) {
                None => {
                    &&& final(types)@ == old(types)@
                    &&& r matches Err(msg) && msg@ == "Unknown built-in type: "@ + radix_text(subtype as nat, 10, false)
                },
                Some(datatype) => {
                    let with_base = old(types)@.insert(subtype as usize, anonymous_type(datatype));
                    match builtin_pointer_size(pointer_type) {
                        Ok(None) => final(types)@ == with_base && r is Ok,
                        Ok(Some(size)) => final(types)@ == with_base.insert(
                            type_index as usize,
                            anonymous_type(DbgDataType::Pointer(size, subtype as usize)),
                        ) && r is Ok,
                        Err(()) => {
                            &&& final(types)@ == with_base
                            &&& r matches Err(msg) && msg@ == pointer_error_text(pointer_type, type_index)
                        },
                    }
                },
            }
        }),
{
    let subtype = type_index & 0xff;
    let pointer_type = (type_index >> 8) & 0xff;

    let datatype = match builtin_datatype_exec(subtype) {
        Some(dt) => dt,
        None => {
            let mut msg = String::from_str("Unknown built-in type: ");
            proof {
                reveal_strlit("Unknown built-in type: ");
            }
            append_radix(&mut msg, subtype as u64, 10, false);
            return Err(msg);
        },
    };
    types.insert(
        subtype as usize,
        TypeInfo { datatype, name: None, unit_idx: 0, dbginfo_offset: 0 },
    );

    let pointer_size: u64 = if pointer_type == BUILTIN_PTR_NONE {
        0
    } else if pointer_type == BUILTIN_PTR_32 {
        4
    } else if pointer_type == BUILTIN_PTR_64 {
        8
    } else if pointer_type == BUILTIN_PTR_NEAR {
        return Err(String::from_str("Near pointers are not supported"));
    } else if pointer_type == BUILTIN_PTR_FAR {
        return Err(String::from_str("Far pointers are not supported"));
    } else if pointer_type == BUILTIN_PTR_HUGE {
        return Err(String::from_str("Huge pointers are not supported"));
    } else if pointer_type == BUILTIN_PTR_32FAR {
        return Err(String::from_str("32-bit far pointers are not supported"));
    } else {
        let mut msg = String::from_str("Unknown built-in pointer type: ");
        append_radix(&mut msg, pointer_type as u64, 10, false);
        msg.append(" for type ");
        append_hex4(&mut msg, type_index);
        return Err(msg);
    };
    if pointer_size != 0 {
        types.insert(
            type_index as usize,
            TypeInfo {
                datatype: DbgDataType::Pointer(pointer_size, subtype as usize),
                name: None,
                unit_idx: 0,
                dbginfo_offset: 0,
            },
        );
    }
    Ok(())
}

} // verus!
