//! The type model of the debug information that is read from ELF (DWARF) or
//! PDB files: the data type of each variable, with the members of structs,
//! the elements of arrays, and references into the table of all types.

use vstd::prelude::*;
use std::collections::HashMap;
use crate::text::{append_radix, decimal_text};

pub mod builtin;
pub mod compare;
pub mod dwarf;
pub mod iter;
pub mod typereader;




verus! {

broadcast use vstd::std_specs::hash::group_hash_axioms;

/// Where a variable is stored and what type it has.
#[derive(Debug)]
pub struct VarInfo {
    pub address: u64,
    /// The key of the variable's type in the table of types.
    pub typeref: usize,
    pub unit_idx: usize,
    /// The function in which a static variable is defined.
    pub function: Option<String>,
    pub namespaces: Vec<String>,
}

/// The debug information of a program: its variables (by name, in the
/// order they were read; a name can stand for several variables), the table
/// of types, the names of types, the demangled names of C++ variables, the
/// names of the compilation units and the sections with their address
/// ranges. Names do not repeat in the lists.
#[derive(Debug)]
pub struct DebugData {
    pub variables: Vec<(String, Vec<VarInfo>)>,
    pub types: HashMap<usize, TypeInfo>,
    pub typenames: Vec<(String, Vec<usize>)>,
    pub demangled_names: Vec<(String, String)>,
    pub unit_names: Vec<Option<String>>,
    pub sections: Vec<(String, (u64, u64))>,
}

/// The index of the last `c` in the first `n` chars of `s`.
pub open spec fn last_index_of(s: Seq<char>, c: char, n: int) -> Option<int>
    decreases n,
{
    if n <= 0 {
        None
    } else if s[n - 1] == c {
        Some(n - 1)
    } else {
        last_index_of(s, c, n - 1)
    }
}

/// The file name of a compilation unit: the part after the last `\\`, else
/// after the last `/`, with each `.` replaced by `_`.
pub open spec fn simple_unit_name(full: Seq<char>) -> Seq<char> {
    let n = full.len() as int;
    let file = match last_index_of(full, '\\', n) {
        Some(p) => full.subrange(p + 1, n),
        None => match last_index_of(full, '/', n) {
            Some(p) => full.subrange(p + 1, n),
            None => full,
        },
    };
    file.map_values(|c: char| if c == '.' { '_' } else { c })
}

fn rfind_char(s: &str, c: char) -> (r: Option<usize>)
    ensures
        r matches Some(p) ==> p < s@.len() && last_index_of(s@, c, s@.len() as int) == Some(p as int),
        r is None ==> last_index_of(s@, c, s@.len() as int) is None,
{
    let n = s.unicode_len();
    let mut k = n;
    while k > 0
        invariant
            k <= n,
            n == s@.len(),
            last_index_of(s@, c, n as int) == last_index_of(s@, c, k as int),
        decreases k,
    {
        if s.get_char(k - 1) == c {
            return Some(k - 1);
        }
        k -= 1;
    }
    None
}

/// The simple name of a compilation unit, for use in names: the file name
/// without its path, with dots replaced by underscores. `None` for an
/// unknown unit or one without a name.
pub fn make_simple_unit_name(debug_data: &DebugData, unit_idx: usize) -> (r: Option<String>)
    ensures
        r.deep_view() == (if unit_idx < debug_data.unit_names@.len() {
            match debug_data.unit_names@[unit_idx as int] {
                Some(full) => Some(simple_unit_name(full@)),
                None => None,
            }
        } else {
            None
        }),
{
    if unit_idx >= debug_data.unit_names.len() {
        return None;
    }
    let full_name: &str = match &debug_data.unit_names[unit_idx] {
        Some(n) => n.as_str(),
        None => return None,
    };
    let n = full_name.unicode_len();
    let start = match rfind_char(full_name, '\\') {
        Some(pos) => pos + 1,
        None => match rfind_char(full_name, '/') {
            Some(pos) => pos + 1,
            None => 0,
        },
    };
    let file_name = full_name.substring_char(start, n);
    assert(file_name@ =~= match last_index_of(full_name@, '\\', n as int) {
        Some(p) => full_name@.subrange(p + 1, n as int),
        None => match last_index_of(full_name@, '/', n as int) {
            Some(p) => full_name@.subrange(p + 1, n as int),
            None => full_name@,
        },
    });
    let m = file_name.unicode_len();
    let mut out = String::new();
    let mut i: usize = 0;
    while i < m
        invariant
            i <= m,
            m == file_name@.len(),
            out@ == file_name@.subrange(0, i as int).map_values(|c: char| if c == '.' { '_' } else { c }),
        decreases m - i,
    {
        let ghost before = out@;
        if file_name.get_char(i) == '.' {
            out.append("_");
            proof {
                reveal_strlit("_");
            }
        } else {
            out.append(file_name.substring_char(i, i + 1));
        }
        assert(out@ =~= file_name@.subrange(0, i + 1).map_values(|c: char| if c == '.' { '_' } else { c }));
        i += 1;
    }
    assert(file_name@.subrange(0, m as int) =~= file_name@);
    Some(out)
}

/// A type of the debug information.
#[derive(Debug)]
pub struct TypeInfo {
    /// The type's name; not all types have one.
    pub name: Option<String>,
    pub unit_idx: usize,
    pub datatype: DbgDataType,
    /// Where the type was defined in the debug information; this identifies
    /// the type.
    pub dbginfo_offset: usize,
}

/// The members of a struct, class or union (or the base classes of a class),
/// in the order of their definition: name, type and offset. Names do not
/// repeat.
pub type MemberList = Vec<(String, (TypeInfo, u64))>;

/// The kinds of data type.
#[derive(Debug)]
pub enum DbgDataType {
    Uint8,
    Uint16,
    Uint32,
    Uint64,
    Sint8,
    Sint16,
    Sint32,
    Sint64,
    Float,
    Double,
    Bitfield { basetype: Box<TypeInfo>, bit_offset: u16, bit_size: u16 },
    /// A pointer: its size and the type it points to, as a key of the table
    /// of types.
    Pointer(u64, usize),
    Struct { size: u64, members: MemberList },
    Class { size: u64, inheritance: MemberList, members: MemberList },
    Union { size: u64, members: MemberList },
    Enum { size: u64, signed: bool, enumerators: Vec<(String, i64)> },
    Array { size: u64, dim: Vec<u64>, stride: u64, arraytype: Box<TypeInfo> },
    /// A reference to another type in the table of types, and its size.
    TypeRef(usize, u64),
    FuncPtr(u64),
    Other(u64),
}

/// The size of a type in bytes: fixed for the base types, that of the base
/// type for a bit field, else the size that the debug information gives.
pub open spec fn type_size(t: TypeInfo) -> u64
    decreases t,
{
    match t.datatype {
        DbgDataType::Uint8 => 1,
        DbgDataType::Uint16 => 2,
        DbgDataType::Uint32 => 4,
        DbgDataType::Uint64 => 8,
        DbgDataType::Sint8 => 1,
        DbgDataType::Sint16 => 2,
        DbgDataType::Sint32 => 4,
        DbgDataType::Sint64 => 8,
        DbgDataType::Float => 4,
        DbgDataType::Double => 8,
        DbgDataType::Bitfield { basetype, .. } => type_size(*basetype),
        DbgDataType::Pointer(size, _) => size,
        DbgDataType::Other(size) => size,
        DbgDataType::Struct { size, .. } => size,
        DbgDataType::Class { size, .. } => size,
        DbgDataType::Union { size, .. } => size,
        DbgDataType::Enum { size, .. } => size,
        DbgDataType::Array { size, .. } => size,
        DbgDataType::FuncPtr(size) => size,
        DbgDataType::TypeRef(_, size) => size,
    }
}

/// The type that a type stands for in the table of types: the referenced type
/// for a reference that the table holds, else the type itself.
pub open spec fn reference_of(t: TypeInfo, types: Map<usize, TypeInfo>) -> TypeInfo {
    match t.datatype {
        DbgDataType::TypeRef(offset, _) => if types.contains_key(offset) {
            types[offset]
        } else {
            t
        },
        _ => t,
    }
}

/// The members of a struct, class or union.
pub open spec fn members_of(t: TypeInfo) -> Option<MemberList> {
    match t.datatype {
        DbgDataType::Struct { members, .. } => Some(members),
        DbgDataType::Class { members, .. } => Some(members),
        DbgDataType::Union { members, .. } => Some(members),
        _ => None,
    }
}

impl TypeInfo {
    /// The size of the type in bytes.
    pub fn get_size(&self) -> (r: u64)
        ensures
            r == type_size(*self),
        decreases self,
    {
        match &self.datatype {
            DbgDataType::Uint8 => 1,
            DbgDataType::Uint16 => 2,
            DbgDataType::Uint32 => 4,
            DbgDataType::Uint64 => 8,
            DbgDataType::Sint8 => 1,
            DbgDataType::Sint16 => 2,
            DbgDataType::Sint32 => 4,
            DbgDataType::Sint64 => 8,
            DbgDataType::Float => 4,
            DbgDataType::Double => 8,
            DbgDataType::Bitfield { basetype, .. } => basetype.get_size(),
            DbgDataType::Pointer(size, _)
            | DbgDataType::Other(size)
            | DbgDataType::Struct { size, .. }
            | DbgDataType::Class { size, .. }
            | DbgDataType::Union { size, .. }
            | DbgDataType::Enum { size, .. }
            | DbgDataType::Array { size, .. }
            | DbgDataType::FuncPtr(size)
            | DbgDataType::TypeRef(_, size) => *size,
        }
    }

    /// The members of a struct, class or union; `None` for other types.
    pub fn get_members(&self) -> (r: Option<&MemberList>)
        ensures
            r == match members_of(*self) {
                Some(m) => Some(&m),
                None => None,
            },
    {
        match &self.datatype {
            DbgDataType::Struct { members, .. }
            | DbgDataType::Class { members, .. }
            | DbgDataType::Union { members, .. } => Some(members),
            _ => None,
        }
    }

    /// The size of a pointer and the type it points to; `None` for other
    /// types and for a pointer whose target is not in the table.
    pub fn get_pointer<'a>(&self, types: &'a HashMap<usize, TypeInfo>) -> (r: Option<(u64, &'a TypeInfo)>)
        ensures
            match self.datatype {
                DbgDataType::Pointer(size, target) => if types@.contains_key(target) {
                    r matches Some((s, t)) && s == size && *t == types@[target]
                } else {
                    r is None
                },
                _ => r is None,
            },
    {
        if let DbgDataType::Pointer(pt_size, pt_ref) = &self.datatype {
            match types.get(pt_ref) {
                Some(typeinfo) => Some((*pt_size, typeinfo)),
                None => None,
            }
        } else {
            None
        }
    }

    /// The element type of an array; `None` for other types.
    pub fn get_arraytype(&self) -> (r: Option<&TypeInfo>)
        ensures
            match self.datatype {
                DbgDataType::Array { arraytype, .. } => r == Some(&*arraytype),
                _ => r is None,
            },
    {
        if let DbgDataType::Array { arraytype, .. } = &self.datatype {
            Some(arraytype)
        } else {
            None
        }
    }

    /// The type that this type stands for: the target of a reference that
    /// the table holds, else the type itself.
    pub fn get_reference<'a>(&'a self, types: &'a HashMap<usize, TypeInfo>) -> (r: &'a TypeInfo)
        ensures
            *r == reference_of(*self, types@),
    {
        if let DbgDataType::TypeRef(dbginfo_offset, _) = &self.datatype {
            match types.get(dbginfo_offset) {
                Some(t) => t,
                None => self,
            }
        } else {
            self
        }
    }
}

/// The DWARF base type encodings (`DW_ATE_*`) that the reader tells apart.
pub const DW_ATE_ADDRESS: u8 = 0x01;
pub const DW_ATE_BOOLEAN: u8 = 0x02;
pub const DW_ATE_FLOAT: u8 = 0x04;
pub const DW_ATE_SIGNED: u8 = 0x05;
pub const DW_ATE_SIGNED_CHAR: u8 = 0x06;
pub const DW_ATE_UNSIGNED: u8 = 0x07;
pub const DW_ATE_UNSIGNED_CHAR: u8 = 0x08;

/// The data type and type name of a DWARF base type, from its byte size
/// (1 where the entry gives none), its encoding (unsigned where it gives
/// none) and the address size of its unit: an address is a pointer to
/// nothing known, floats are double with 8 bytes, integers have 1, 2, 4 or
/// 8 bytes, anything else is `Other` with its size.
pub open spec fn base_type_of(byte_size: Option<u64>, encoding: Option<u8>, address_size: u8) -> (DbgDataType, Seq<char>) {
    let size: u64 = match byte_size {
        Some(s) => s,
        None => 1,
    };
    let enc: u8 = match encoding {
        Some(e) => e,
        None => DW_ATE_UNSIGNED,
    };
    if enc == DW_ATE_ADDRESS {
        (DbgDataType::Pointer(address_size as u64, 0), "unknown"@)
    } else if enc == DW_ATE_FLOAT {
        if size == 8 {
            (DbgDataType::Double, "double"@)
        } else {
            (DbgDataType::Float, "float"@)
        }
    } else if enc == DW_ATE_SIGNED || enc == DW_ATE_SIGNED_CHAR {
        if size == 1 {
            (DbgDataType::Sint8, "sint8"@)
        } else if size == 2 {
            (DbgDataType::Sint16, "sint16"@)
        } else if size == 4 {
            (DbgDataType::Sint32, "sint32"@)
        } else if size == 8 {
            (DbgDataType::Sint64, "sint64"@)
        } else {
            (DbgDataType::Other(size), "double"@)
        }
    } else if enc == DW_ATE_BOOLEAN || enc == DW_ATE_UNSIGNED || enc == DW_ATE_UNSIGNED_CHAR {
        if size == 1 {
            (DbgDataType::Uint8, "uint8"@)
        } else if size == 2 {
            (DbgDataType::Uint16, "uint16"@)
        } else if size == 4 {
            (DbgDataType::Uint32, "uint32"@)
        } else if size == 8 {
            (DbgDataType::Uint64, "uint64"@)
        } else {
            (DbgDataType::Other(size), "other"@)
        }
    } else {
        (DbgDataType::Other(size), "other"@)
    }
}

/// The size in bytes of a data type that is not a bit field.
pub open spec fn data_size(d: DbgDataType) -> u64 {
    type_size(TypeInfo { name: None, unit_idx: 0, datatype: d, dbginfo_offset: 0 })
}

/// A DWARF base type of 1, 2, 4 or 8 bytes is read as an integer of that
/// size: signed for the encodings `DW_ATE_signed` (0x05) and
/// `DW_ATE_signed_char` (0x06), unsigned for `DW_ATE_boolean` (0x02),
/// `DW_ATE_unsigned` (0x07) and `DW_ATE_unsigned_char` (0x08). With
/// `DW_ATE_float` (0x04) one of 8 bytes is a double, one of 4 a float; with
/// `DW_ATE_address` (0x01) it is a pointer of the unit's address size.
pub proof fn law_base_type_size_and_sign(size: u64, encoding: u8, address_size: u8)
    ensures
        ({
            let d = base_type_of(Some(size), Some(encoding), address_size).0;
            let int_size = size == 1 || size == 2 || size == 4 || size == 8;
            &&& (int_size && (encoding == 0x05 || encoding == 0x06)) ==> (d is Sint8 || d is Sint16 || d is Sint32
                || d is Sint64) && data_size(d) == size
            &&& (int_size && (encoding == 0x02 || encoding == 0x07 || encoding == 0x08)) ==> (d is Uint8 || d is Uint16
                || d is Uint32 || d is Uint64) && data_size(d) == size
            &&& encoding == 0x04 && size == 8 ==> d is Double
            &&& encoding == 0x04 && size == 4 ==> d is Float
            &&& encoding == 0x01 ==> d == DbgDataType::Pointer(address_size as u64, 0)
        }),
{
}

/// The data type and type name of a DWARF base type (see `base_type_of`).
pub fn get_base_type(byte_size: Option<u64>, encoding: Option<u8>, address_size: u8) -> (r: (DbgDataType, String))
    ensures
        r.0 == base_type_of(byte_size, encoding, address_size).0,
        r.1@ == base_type_of(byte_size, encoding, address_size).1,
{
    let size: u64 = match byte_size {
        Some(s) => s,
        None => 1,
    };
    let enc: u8 = match encoding {
        Some(e) => e,
        None => DW_ATE_UNSIGNED,
    };
    if enc == DW_ATE_ADDRESS {
        (DbgDataType::Pointer(address_size as u64, 0), String::from_str("unknown"))
    } else if enc == DW_ATE_FLOAT {
        if size == 8 {
            (DbgDataType::Double, String::from_str("double"))
        } else {
            (DbgDataType::Float, String::from_str("float"))
        }
    } else if enc == DW_ATE_SIGNED || enc == DW_ATE_SIGNED_CHAR {
        if size == 1 {
            (DbgDataType::Sint8, String::from_str("sint8"))
        } else if size == 2 {
            (DbgDataType::Sint16, String::from_str("sint16"))
        } else if size == 4 {
            (DbgDataType::Sint32, String::from_str("sint32"))
        } else if size == 8 {
            (DbgDataType::Sint64, String::from_str("sint64"))
        } else {
            (DbgDataType::Other(size), String::from_str("double"))
        }
    } else if enc == DW_ATE_BOOLEAN || enc == DW_ATE_UNSIGNED || enc == DW_ATE_UNSIGNED_CHAR {
        if size == 1 {
            (DbgDataType::Uint8, String::from_str("uint8"))
        } else if size == 2 {
            (DbgDataType::Uint16, String::from_str("uint16"))
        } else if size == 4 {
            (DbgDataType::Uint32, String::from_str("uint32"))
        } else if size == 8 {
            (DbgDataType::Uint64, String::from_str("uint64"))
        } else {
            (DbgDataType::Other(size), String::from_str("other"))
        }
    } else {
        (DbgDataType::Other(size), String::from_str("other"))
    }
}

/// Whether a variable definition is an extern declaration: its type in the
/// table is a reference.
pub open spec fn is_extern_declaration(v: VarInfo, types: Map<usize, TypeInfo>) -> bool {
    types.contains_key(v.typeref) && types[v.typeref].datatype is TypeRef
}

/// The definitions of a name without its extern declarations, in order.
pub open spec fn without_extern(list: Seq<VarInfo>, types: Map<usize, TypeInfo>) -> Seq<VarInfo>
    decreases list.len(),
{
    if list.len() == 0 {
        seq![]
    } else {
        let before = without_extern(list.drop_last(), types);
        if is_extern_declaration(list.last(), types) {
            before
        } else {
            before.push(list.last())
        }
    }
}

/// The definitions of a name after removing extern declarations, which is
/// done only where the name has several definitions.
pub open spec fn filtered_definitions(list: Seq<VarInfo>, types: Map<usize, TypeInfo>) -> Seq<VarInfo> {
    if list.len() > 1 {
        without_extern(list, types)
    } else {
        list
    }
}

fn filter_list(list: Vec<VarInfo>, types: &HashMap<usize, TypeInfo>) -> (r: Vec<VarInfo>)
    ensures
        r@ == without_extern(list@, types@),
{
    let ghost orig = list@;
    let mut rest = list;
    let mut reversed: Vec<VarInfo> = Vec::new();
    // take the definitions from the end, keeping those that are no extern declaration
    while rest.len() > 0
        invariant
            orig.subrange(0, rest@.len() as int) == rest@,
            rest@.len() <= orig.len(),
            without_extern(orig, types@) == without_extern(rest@, types@) + reversed@.reverse(),
        decreases rest@.len(),
    {
        let ghost before_rest = rest@;
        let v = rest.pop().unwrap();
        assert(before_rest.drop_last() =~= rest@);
        let keep = match types.get(&v.typeref) {
            Some(t) => match t.datatype {
                DbgDataType::TypeRef(..) => false,
                _ => true,
            },
            None => true,
        };
        let ghost before_rev = reversed@;
        if keep {
            reversed.push(v);
            assert(reversed@.reverse() =~= seq![before_rest.last()] + before_rev.reverse());
            assert(without_extern(before_rest, types@) == without_extern(rest@, types@).push(before_rest.last()));
            assert(without_extern(rest@, types@).push(before_rest.last()) + before_rev.reverse() =~= without_extern(rest@, types@) + reversed@.reverse());
        }
        proof {
            assert(orig.subrange(0, rest@.len() as int) =~= before_rest.drop_last());
        }
    }
    assert(without_extern(Seq::<VarInfo>::empty(), types@) =~= Seq::<VarInfo>::empty());
    let ghost rev_all = reversed@;
    let mut out: Vec<VarInfo> = Vec::new();
    while reversed.len() > 0
        invariant
            rev_all.reverse() == out@ + reversed@.reverse(),
        decreases reversed@.len(),
    {
        let ghost before = reversed@;
        let v = reversed.pop().unwrap();
        assert(before.reverse() =~= seq![v] + reversed@.reverse());
        out.push(v);
        assert(out@ + reversed@.reverse() =~= (out@.drop_last() + seq![v]) + reversed@.reverse());
    }
    assert(out@ + reversed@.reverse() =~= out@);
    out
}

/// Removes the extern declarations from the definitions of every name that
/// has several: a definition whose type in the table is a reference
/// declares a variable that another unit defines.
pub fn filter_extern_variables(variables: &mut Vec<(String, Vec<VarInfo>)>, types: &HashMap<usize, TypeInfo>)
    ensures
        final(variables)@.len() == old(variables)@.len(),
        forall|i: int| 0 <= i < old(variables)@.len() ==> (#[trigger] final(variables)@[i]).0 == old(variables)@[i].0
            && final(variables)@[i].1@ == filtered_definitions(old(variables)@[i].1@, types@),
{
    let ghost orig = variables@;
    let n = variables.len();
    let mut i: usize = 0;
    while i < n
        invariant
            i <= n,
            n == orig.len(),
            variables@.len() == n,
            forall|j: int| 0 <= j < i ==> (#[trigger] variables@[j]).0 == orig[j].0 && variables@[j].1@
                == filtered_definitions(orig[j].1@, types@),
            forall|j: int| i <= j < n ==> #[trigger] variables@[j] == orig[j],
        decreases n - i,
    {
        if variables[i].1.len() > 1 {
            let (name, list) = variables.remove(i);
            let filtered = filter_list(list, types);
            variables.insert(i, (name, filtered));
        }
        i += 1;
    }
}

/// The text of a list of numbers as `{:?}` writes it: `[1, 2, 3]`.
pub open spec fn number_list_text(d: Seq<u64>) -> Seq<char> {
    "["@ + number_items_text(d) + "]"@
}

/// The numbers of a list, separated by `, `.
pub open spec fn number_items_text(d: Seq<u64>) -> Seq<char>
    decreases d.len(),
{
    if d.len() == 0 {
        seq![]
    } else if d.len() == 1 {
        decimal_text(d[0] as nat)
    } else {
        number_items_text(d.drop_last()) + ", "@ + decimal_text(d.last() as nat)
    }
}

/// The text of a named compound type: `Kind name(n what)`, or
/// `Kind <anonymous>(n what)` without a name.
pub open spec fn compound_text(kind: Seq<char>, name: Option<String>, n: nat, what: Seq<char>) -> Seq<char> {
    kind + " "@ + match name {
        Some(nm) => nm@,
        None => "<anonymous>"@,
    } + "("@ + decimal_text(n) + " "@ + what + ")"@
}

/// How a type is shown in messages: base types by name, compound types with
/// their name and number of members or enumerators, arrays with their
/// dimensions and element type.
pub open spec fn display_text(t: TypeInfo) -> Seq<char>
    decreases t,
{
    match t.datatype {
        DbgDataType::Uint8 => "Uint8"@,
        DbgDataType::Uint16 => "Uint16"@,
        DbgDataType::Uint32 => "Uint32"@,
        DbgDataType::Uint64 => "Uint64"@,
        DbgDataType::Sint8 => "Sint8"@,
        DbgDataType::Sint16 => "Sint16"@,
        DbgDataType::Sint32 => "Sint32"@,
        DbgDataType::Sint64 => "Sint64"@,
        DbgDataType::Float => "Float"@,
        DbgDataType::Double => "Double"@,
        DbgDataType::Bitfield { .. } => "Bitfield"@,
        DbgDataType::Pointer(..) => "Pointer(...)"@,
        DbgDataType::Other(size) => "Other("@ + decimal_text(size as nat) + ")"@,
        DbgDataType::FuncPtr(size) => "function pointer("@ + decimal_text(size as nat) + ")"@,
        DbgDataType::Struct { members, .. } => compound_text("Struct"@, t.name, members@.len(), "members"@),
        DbgDataType::Class { members, .. } => compound_text("Class"@, t.name, members@.len(), "members"@),
        DbgDataType::Union { members, .. } => compound_text("Union"@, t.name, members@.len(), "members"@),
        DbgDataType::Enum { enumerators, .. } => compound_text(
            "Enum"@,
            t.name,
            enumerators@.len(),
            "enumerators"@,
        ),
        DbgDataType::Array { dim, arraytype, .. } => "Array("@ + number_list_text(dim@) + " x "@
            + display_text(*arraytype) + ")"@,
        DbgDataType::TypeRef(t_ref, _) => "TypeRef("@ + decimal_text(t_ref as nat) + ")"@,
    }
}

fn append_compound(out: &mut String, kind: &str, name: &Option<String>, n: usize, what: &str)
    ensures
        final(out)@ == old(out)@ + compound_text(kind@, *name, n as nat, what@),
{
    let ghost before = out@;
    out.append(kind);
    out.append(" ");
    match name {
        Some(nm) => out.append(nm.as_str()),
        None => out.append("<anonymous>"),
    }
    out.append("(");
    append_radix(out, n as u64, 10, false);
    out.append(" ");
    out.append(what);
    out.append(")");
    assert(out@ =~= before + compound_text(kind@, *name, n as nat, what@));
}

fn append_number_list(out: &mut String, d: &Vec<u64>)
    ensures
        final(out)@ == old(out)@ + number_list_text(d@),
{
    let ghost before = out@;
    out.append("[");
    let mut i: usize = 0;
    while i < d.len()
        invariant
            i <= d@.len(),
            out@ == before + "["@ + number_items_text(d@.subrange(0, i as int)),
        decreases d@.len() - i,
    {
        let ghost prev = out@;
        if i > 0 {
            out.append(", ");
        }
        append_radix(out, d[i], 10, false);
        proof {
            let s = d@.subrange(0, i + 1);
            assert(s.drop_last() =~= d@.subrange(0, i as int));
            if i == 0 {
                assert(number_items_text(s) == decimal_text(d@[0] as nat));
                assert(number_items_text(d@.subrange(0, 0)) =~= Seq::<char>::empty());
            }
            assert(out@ =~= before + "["@ + number_items_text(s));
        }
        i += 1;
    }
    assert(d@.subrange(0, d@.len() as int) =~= d@);
    out.append("]");
    assert(out@ =~= before + number_list_text(d@));
}

impl TypeInfo {
    /// Appends how the type is shown in messages (see `display_text`).
    pub fn append_display(&self, out: &mut String)
        ensures
            final(out)@ == old(out)@ + display_text(*self),
        decreases self,
    {
        let ghost before = out@;
        match &self.datatype {
            DbgDataType::Uint8 => out.append("Uint8"),
            DbgDataType::Uint16 => out.append("Uint16"),
            DbgDataType::Uint32 => out.append("Uint32"),
            DbgDataType::Uint64 => out.append("Uint64"),
            DbgDataType::Sint8 => out.append("Sint8"),
            DbgDataType::Sint16 => out.append("Sint16"),
            DbgDataType::Sint32 => out.append("Sint32"),
            DbgDataType::Sint64 => out.append("Sint64"),
            DbgDataType::Float => out.append("Float"),
            DbgDataType::Double => out.append("Double"),
            DbgDataType::Bitfield { .. } => out.append("Bitfield"),
            DbgDataType::Pointer(_, _) => out.append("Pointer(...)"),
            DbgDataType::Other(osize) => {
                out.append("Other(");
                append_radix(out, *osize, 10, false);
                out.append(")");
                assert(out@ =~= before + display_text(*self));
            },
            DbgDataType::FuncPtr(osize) => {
                out.append("function pointer(");
                append_radix(out, *osize, 10, false);
                out.append(")");
                assert(out@ =~= before + display_text(*self));
            },
            DbgDataType::Struct { members, .. } => append_compound(out, "Struct", &self.name, members.len(), "members"),
            DbgDataType::Class { members, .. } => append_compound(out, "Class", &self.name, members.len(), "members"),
            DbgDataType::Union { members, .. } => append_compound(out, "Union", &self.name, members.len(), "members"),
            DbgDataType::Enum { enumerators, .. } => append_compound(out, "Enum", &self.name, enumerators.len(), "enumerators"),
            DbgDataType::Array { dim, arraytype, .. } => {
                out.append("Array(");
                append_number_list(out, dim);
                out.append(" x ");
                arraytype.append_display(out);
                out.append(")");
                assert(out@ =~= before + display_text(*self));
            },
            DbgDataType::TypeRef(t_ref, _) => {
                out.append("TypeRef(");
                append_radix(out, *t_ref as u64, 10, false);
                out.append(")");
                assert(out@ =~= before + display_text(*self));
            },
        }
    }

    /// How the type is shown in messages (see `display_text`).
    pub fn display(&self) -> (r: String)
        ensures
            r@ == display_text(*self),
    {
        let mut out = String::new();
        self.append_display(&mut out);
        assert(out@ =~= display_text(*self));
        out
    }
}

} // verus!
