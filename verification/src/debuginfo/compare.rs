//! Whether two types of the debug information describe the same data type.
//! Not all fields take part: the unit a type was defined in does not, and
//! two types with the same definition offset are the same type.

use vstd::prelude::*;
use std::collections::HashMap;
use crate::debuginfo::{reference_of, type_size, DbgDataType, MemberList, TypeInfo};

verus! {

broadcast use vstd::std_specs::hash::group_hash_axioms;

/// How deep a comparison follows pointers and members before it compares
/// only names, kinds and sizes; types may point to themselves.
pub const MAX_RECURSION_DEPTH: usize = 5;

/// Whether two data types are of the same kind (the same variant).
pub open spec fn same_kind(a: DbgDataType, b: DbgDataType) -> bool {
    match (a, b) {
        (DbgDataType::Uint8, DbgDataType::Uint8) => true,
        (DbgDataType::Uint16, DbgDataType::Uint16) => true,
        (DbgDataType::Uint32, DbgDataType::Uint32) => true,
        (DbgDataType::Uint64, DbgDataType::Uint64) => true,
        (DbgDataType::Sint8, DbgDataType::Sint8) => true,
        (DbgDataType::Sint16, DbgDataType::Sint16) => true,
        (DbgDataType::Sint32, DbgDataType::Sint32) => true,
        (DbgDataType::Sint64, DbgDataType::Sint64) => true,
        (DbgDataType::Float, DbgDataType::Float) => true,
        (DbgDataType::Double, DbgDataType::Double) => true,
        (DbgDataType::Bitfield { .. }, DbgDataType::Bitfield { .. }) => true,
        (DbgDataType::Pointer(..), DbgDataType::Pointer(..)) => true,
        (DbgDataType::Struct { .. }, DbgDataType::Struct { .. }) => true,
        (DbgDataType::Class { .. }, DbgDataType::Class { .. }) => true,
        (DbgDataType::Union { .. }, DbgDataType::Union { .. }) => true,
        (DbgDataType::Enum { .. }, DbgDataType::Enum { .. }) => true,
        (DbgDataType::Array { .. }, DbgDataType::Array { .. }) => true,
        (DbgDataType::TypeRef(..), DbgDataType::TypeRef(..)) => true,
        (DbgDataType::FuncPtr(..), DbgDataType::FuncPtr(..)) => true,
        (DbgDataType::Other(..), DbgDataType::Other(..)) => true,
        _ => false,
    }
}

/// Whether two base types are the same basic type.
pub open spec fn same_base_type(a: DbgDataType, b: DbgDataType) -> bool {
    match (a, b) {
        (DbgDataType::Uint8, DbgDataType::Uint8) => true,
        (DbgDataType::Uint16, DbgDataType::Uint16) => true,
        (DbgDataType::Uint32, DbgDataType::Uint32) => true,
        (DbgDataType::Uint64, DbgDataType::Uint64) => true,
        (DbgDataType::Sint8, DbgDataType::Sint8) => true,
        (DbgDataType::Sint16, DbgDataType::Sint16) => true,
        (DbgDataType::Sint32, DbgDataType::Sint32) => true,
        (DbgDataType::Sint64, DbgDataType::Sint64) => true,
        (DbgDataType::Float, DbgDataType::Float) => true,
        (DbgDataType::Double, DbgDataType::Double) => true,
        _ => false,
    }
}

/// The index of the first member from `i` on that has the given name.
pub open spec fn member_index(ms: Seq<(String, (TypeInfo, u64))>, name: Seq<char>, i: int) -> Option<int>
    decreases ms.len() - i,
{
    if i < 0 || i >= ms.len() {
        None
    } else if ms[i].0@ == name {
        Some(i)
    } else {
        member_index(ms, name, i + 1)
    }
}

/// Two types, compared by name, kind and size only.
pub open spec fn shallow_equal(t1: TypeInfo, t2: TypeInfo, types: Map<usize, TypeInfo>) -> bool {
    let r1 = reference_of(t1, types);
    let r2 = reference_of(t2, types);
    r1.name.deep_view() == r2.name.deep_view() && same_kind(r1.datatype, r2.datatype) && type_size(r1)
        == type_size(r2)
}

/// The comparison of two types at a recursion depth, if it ends within
/// `fuel` nested comparisons: `None` if it needs more. Both types are first
/// resolved through the table; the same definition offset means the same
/// type; else names and kinds must agree and then, by kind: base types are
/// equal, enums by size, sign and enumerators, arrays by size, dimensions,
/// stride and element type, pointers by size and target (below the maximum
/// depth by a full comparison of the targets, else by name, kind and size),
/// bit fields by position and base type, structs, unions and classes by size
/// and members (and base classes).
pub open spec fn types_equal(t1: TypeInfo, t2: TypeInfo, types: Map<usize, TypeInfo>, depth: nat, fuel: nat) -> Option<
    bool,
>
    decreases fuel, 0int, 0int,
{
    if fuel == 0 {
        None
    } else {
        let a = reference_of(t1, types);
        let b = reference_of(t2, types);
        if a.dbginfo_offset == b.dbginfo_offset {
            Some(true)
        } else if a.name.deep_view() != b.name.deep_view() {
            Some(false)
        } else if same_base_type(a.datatype, b.datatype) {
            Some(true)
        } else {
            match (a.datatype, b.datatype) {
                (
                    DbgDataType::Enum { size, signed, enumerators },
                    DbgDataType::Enum { size: size2, signed: signed2, enumerators: enumerators2 },
                ) => Some(size == size2 && signed == signed2 && enumerators.deep_view()
                    == enumerators2.deep_view()),
                (
                    DbgDataType::Array { size, dim, stride, arraytype },
                    DbgDataType::Array { size: size2, dim: dim2, stride: stride2, arraytype: arraytype2 },
                ) => if size == size2 && dim@ == dim2@ && stride == stride2 {
                    types_equal(*arraytype, *arraytype2, types, depth + 1, (fuel - 1) as nat)
                } else {
                    Some(false)
                },
                (DbgDataType::Pointer(size1, dest1), DbgDataType::Pointer(size2, dest2)) => if size1
                    != size2 {
                    Some(false)
                } else if dest1 == dest2 {
                    Some(true)
                } else if types.contains_key(dest1) && types.contains_key(dest2) {
                    if depth < MAX_RECURSION_DEPTH {
                        types_equal(types[dest1], types[dest2], types, depth + 1, (fuel - 1) as nat)
                    } else {
                        Some(shallow_equal(types[dest1], types[dest2], types))
                    }
                } else {
                    Some(false)
                },
                (DbgDataType::Other(size1), DbgDataType::Other(size2)) => Some(size1 == size2),
                (
                    DbgDataType::Bitfield { basetype, bit_offset, bit_size },
                    DbgDataType::Bitfield { basetype: basetype2, bit_offset: bit_offset2, bit_size: bit_size2 },
                ) => if bit_offset == bit_offset2 && bit_size == bit_size2 {
                    types_equal(*basetype, *basetype2, types, depth + 1, (fuel - 1) as nat)
                } else {
                    Some(false)
                },
                (DbgDataType::Struct { size, members }, DbgDataType::Struct { size: size2, members: members2 }) => if size
                    == size2 {
                    members_equal(members@, members2@, types, depth, (fuel - 1) as nat)
                } else {
                    Some(false)
                },
                (DbgDataType::Union { size, members }, DbgDataType::Union { size: size2, members: members2 }) => if size
                    == size2 {
                    members_equal(members@, members2@, types, depth, (fuel - 1) as nat)
                } else {
                    Some(false)
                },
                (
                    DbgDataType::Class { size, members, inheritance },
                    DbgDataType::Class { size: size2, members: members2, inheritance: inheritance2 },
                ) => if size == size2 {
                    match members_equal(members@, members2@, types, depth, (fuel - 1) as nat) {
                        Some(true) => members_equal(
                            inheritance@,
                            inheritance2@,
                            types,
                            depth,
                            (fuel - 1) as nat,
                        ),
                        other => other,
                    }
                } else {
                    Some(false)
                },
                (DbgDataType::FuncPtr(size1), DbgDataType::FuncPtr(size2)) => Some(size1 == size2),
                _ => Some(false),
            }
        }
    }
}

/// The comparison of two member lists: equally long, and each member of the
/// first has a member of the same name and offset in the second whose type
/// compares equal (beyond the maximum depth: has the same kind and name).
pub open spec fn members_equal(
    m1: Seq<(String, (TypeInfo, u64))>,
    m2: Seq<(String, (TypeInfo, u64))>,
    types: Map<usize, TypeInfo>,
    depth: nat,
    fuel: nat,
) -> Option<bool>
    decreases fuel, 2int, 0int,
{
    if m1.len() != m2.len() {
        Some(false)
    } else {
        members_equal_from(m1, m2, types, depth, fuel, 0)
    }
}

/// The comparison of the members of `m1` from index `i` on.
pub open spec fn members_equal_from(
    m1: Seq<(String, (TypeInfo, u64))>,
    m2: Seq<(String, (TypeInfo, u64))>,
    types: Map<usize, TypeInfo>,
    depth: nat,
    fuel: nat,
    i: int,
) -> Option<bool>
    decreases fuel, 1int, m1.len() - i,
{
    if i < 0 || i >= m1.len() {
        Some(true)
    } else {
        match member_index(m2, m1[i].0@, 0) {
            None => Some(false),
            Some(j) => {
                let t1 = m1[i].1.0;
                let t2 = m2[j].1.0;
                if m1[i].1.1 != m2[j].1.1 {
                    Some(false)
                } else if depth < MAX_RECURSION_DEPTH {
                    match types_equal(t1, t2, types, depth + 1, fuel) {
                        Some(true) => members_equal_from(m1, m2, types, depth, fuel, i + 1),
                        other => other,
                    }
                } else {
                    let r1 = reference_of(t1, types);
                    let r2 = reference_of(t2, types);
                    if !same_kind(r1.datatype, r2.datatype) || r1.name.deep_view() != r2.name.deep_view() {
                        Some(false)
                    } else {
                        members_equal_from(m1, m2, types, depth, fuel, i + 1)
                    }
                }
            },
        }
    }
}

/// Whether the comparison of two types ends, on the data it reads, with no
/// more nested comparisons than a `usize` counts.
pub open spec fn comparison_ends(t1: TypeInfo, t2: TypeInfo, types: Map<usize, TypeInfo>) -> bool {
    exists|fuel: nat| fuel <= usize::MAX && #[trigger] types_equal(t1, t2, types, 0, fuel) is Some
}

/// The result of comparing two types, where the comparison ends.
pub open spec fn types_match(t1: TypeInfo, t2: TypeInfo, types: Map<usize, TypeInfo>) -> bool {
    let fuel = choose|fuel: nat| fuel <= usize::MAX && #[trigger] types_equal(t1, t2, types, 0, fuel) is Some;
    types_equal(t1, t2, types, 0, fuel) == Some(true)
}

/// Whether no two members of a list share a name.
pub open spec fn member_names_unique(ms: Seq<(String, (TypeInfo, u64))>) -> bool {
    forall|i: int, j: int| 0 <= i < j < ms.len() ==> (#[trigger] ms[i]).0@ != (#[trigger] ms[j]).0@
}

/// Whether every member list within a type, at any depth, has no two
/// members of one name.
pub open spec fn names_unique_within(t: TypeInfo) -> bool
    decreases t,
{
    match t.datatype {
        DbgDataType::Struct { members, .. } => member_names_unique(members@) && forall|i: int|
            0 <= i < members@.len() ==> names_unique_within(#[trigger] members@[i].1.0),
        DbgDataType::Union { members, .. } => member_names_unique(members@) && forall|i: int|
            0 <= i < members@.len() ==> names_unique_within(#[trigger] members@[i].1.0),
        DbgDataType::Class { members, inheritance, .. } => {
            &&& member_names_unique(members@)
            &&& member_names_unique(inheritance@)
            &&& forall|i: int| 0 <= i < members@.len() ==> names_unique_within(#[trigger] members@[i].1.0)
            &&& forall|i: int| 0 <= i < inheritance@.len() ==> names_unique_within(#[trigger] inheritance@[i].1.0)
        },
        DbgDataType::Array { arraytype, .. } => names_unique_within(*arraytype),
        DbgDataType::Bitfield { basetype, .. } => names_unique_within(*basetype),
        _ => true,
    }
}

/// Whether every type of the table has unique member names within it.
pub open spec fn table_names_unique(types: Map<usize, TypeInfo>) -> bool {
    forall|k: usize| #[trigger] types.contains_key(k) ==> names_unique_within(types[k])
}

/// A comparison that ends within some fuel gives the same result with more.
proof fn lemma_types_equal_fuel(
    t1: TypeInfo,
    t2: TypeInfo,
    types: Map<usize, TypeInfo>,
    depth: nat,
    fuel: nat,
    more: nat,
)
    requires
        fuel <= more,
    ensures
        types_equal(t1, t2, types, depth, fuel) is Some ==> types_equal(t1, t2, types, depth, more) == types_equal(
            t1,
            t2,
            types,
            depth,
            fuel,
        ),
    decreases fuel, 0int, 0int,
{
    if fuel > 0 {
        let a = reference_of(t1, types);
        let b = reference_of(t2, types);
        let f = (fuel - 1) as nat;
        let g = (more - 1) as nat;
        match (a.datatype, b.datatype) {
            (DbgDataType::Array { arraytype, .. }, DbgDataType::Array { arraytype: arraytype2, .. }) => {
                lemma_types_equal_fuel(*arraytype, *arraytype2, types, depth + 1, f, g);
            },
            (DbgDataType::Pointer(_, dest1), DbgDataType::Pointer(_, dest2)) => {
                lemma_types_equal_fuel(types[dest1], types[dest2], types, depth + 1, f, g);
            },
            (DbgDataType::Bitfield { basetype, .. }, DbgDataType::Bitfield { basetype: basetype2, .. }) => {
                lemma_types_equal_fuel(*basetype, *basetype2, types, depth + 1, f, g);
            },
            (DbgDataType::Struct { members, .. }, DbgDataType::Struct { members: members2, .. }) => {
                lemma_members_equal_fuel(members@, members2@, types, depth, f, g);
            },
            (DbgDataType::Union { members, .. }, DbgDataType::Union { members: members2, .. }) => {
                lemma_members_equal_fuel(members@, members2@, types, depth, f, g);
            },
            (
                DbgDataType::Class { members, inheritance, .. },
                DbgDataType::Class { members: members2, inheritance: inheritance2, .. },
            ) => {
                lemma_members_equal_fuel(members@, members2@, types, depth, f, g);
                lemma_members_equal_fuel(inheritance@, inheritance2@, types, depth, f, g);
            },
            _ => {},
        }
    }
}

proof fn lemma_members_equal_fuel(
    m1: Seq<(String, (TypeInfo, u64))>,
    m2: Seq<(String, (TypeInfo, u64))>,
    types: Map<usize, TypeInfo>,
    depth: nat,
    fuel: nat,
    more: nat,
)
    requires
        fuel <= more,
    ensures
        members_equal(m1, m2, types, depth, fuel) is Some ==> members_equal(m1, m2, types, depth, more)
            == members_equal(m1, m2, types, depth, fuel),
    decreases fuel, 2int, 0int,
{
    lemma_members_equal_from_fuel(m1, m2, types, depth, fuel, more, 0);
}

proof fn lemma_members_equal_from_fuel(
    m1: Seq<(String, (TypeInfo, u64))>,
    m2: Seq<(String, (TypeInfo, u64))>,
    types: Map<usize, TypeInfo>,
    depth: nat,
    fuel: nat,
    more: nat,
    i: int,
)
    requires
        fuel <= more,
    ensures
        members_equal_from(m1, m2, types, depth, fuel, i) is Some ==> members_equal_from(m1, m2, types, depth, more, i)
            == members_equal_from(m1, m2, types, depth, fuel, i),
    decreases fuel, 1int, m1.len() - i,
{
    if 0 <= i < m1.len() {
        if let Some(j) = member_index(m2, m1[i].0@, 0) {
            lemma_types_equal_fuel(m1[i].1.0, m2[j].1.0, types, depth + 1, fuel, more);
            lemma_members_equal_from_fuel(m1, m2, types, depth, fuel, more, i + 1);
        }
    }
}

proof fn lemma_member_index_of_name(ms: Seq<(String, (TypeInfo, u64))>, name: Seq<char>, i: int, k: int)
    requires
        0 <= i <= k < ms.len(),
        ms[k].0@ == name,
    ensures
        member_index(ms, name, i) matches Some(j) && i <= j <= k && ms[j].0@ == name,
        member_names_unique(ms) ==> member_index(ms, name, i) == Some(k),
    decreases k - i,
{
    if ms[i].0@ != name {
        lemma_member_index_of_name(ms, name, i + 1, k);
    } else if member_names_unique(ms) && i < k {
        assert(ms[i].0@ != ms[k].0@);
    }
}

proof fn lemma_member_index_names(ms: Seq<(String, (TypeInfo, u64))>, name: Seq<char>, i: int)
    requires
        0 <= i,
    ensures
        member_index(ms, name, i) matches Some(j) ==> i <= j < ms.len() && ms[j].0@ == name,
    decreases ms.len() - i,
{
    if i < ms.len() && ms[i].0@ != name {
        lemma_member_index_names(ms, name, i + 1);
    }
}

/// Whether member `k` of `m1` has a member of its name and offset in `m2`
/// that compares equal with it (beyond the maximum depth: of the same kind
/// and name).
pub open spec fn member_matches(
    m1: Seq<(String, (TypeInfo, u64))>,
    m2: Seq<(String, (TypeInfo, u64))>,
    types: Map<usize, TypeInfo>,
    depth: nat,
    fuel: nat,
    k: int,
) -> bool {
    match member_index(m2, m1[k].0@, 0) {
        Some(j) => {
            &&& m1[k].1.1 == m2[j].1.1
            &&& if depth < MAX_RECURSION_DEPTH {
                types_equal(m1[k].1.0, m2[j].1.0, types, depth + 1, fuel) == Some(true)
            } else {
                &&& same_kind(reference_of(m1[k].1.0, types).datatype, reference_of(m2[j].1.0, types).datatype)
                &&& reference_of(m1[k].1.0, types).name.deep_view() == reference_of(m2[j].1.0, types).name.deep_view()
            }
        },
        None => false,
    }
}

proof fn lemma_members_equal_from_true(
    m1: Seq<(String, (TypeInfo, u64))>,
    m2: Seq<(String, (TypeInfo, u64))>,
    types: Map<usize, TypeInfo>,
    depth: nat,
    fuel: nat,
    i: int,
)
    requires
        0 <= i,
    ensures
        (members_equal_from(m1, m2, types, depth, fuel, i) == Some(true)) == (forall|k: int|
            i <= k < m1.len() ==> #[trigger] member_matches(m1, m2, types, depth, fuel, k)),
    decreases m1.len() - i,
{
    if i < m1.len() {
        lemma_members_equal_from_true(m1, m2, types, depth, fuel, i + 1);
        if member_matches(m1, m2, types, depth, fuel, i) {
            assert forall|k: int| i + 1 <= k < m1.len() implies #[trigger] member_matches(
                m1,
                m2,
                types,
                depth,
                fuel,
                k,
            ) == member_matches(m1, m2, types, depth, fuel, k) by {}
        } else {
            assert(!(forall|k: int| i <= k < m1.len() ==> #[trigger] member_matches(m1, m2, types, depth, fuel, k)));
        }
    }
}

proof fn lemma_same_kind_symmetric(a: DbgDataType, b: DbgDataType)
    ensures
        same_kind(a, b) == same_kind(b, a),
        same_base_type(a, b) == same_base_type(b, a),
{
}

proof fn lemma_reference_names_unique(t: TypeInfo, types: Map<usize, TypeInfo>)
    requires
        names_unique_within(t),
        table_names_unique(types),
    ensures
        names_unique_within(reference_of(t, types)),
{
    if let DbgDataType::TypeRef(offset, _) = t.datatype {
        if types.contains_key(offset) {
            assert(names_unique_within(types[offset]));
        }
    }
}

/// The names of a member list.
pub open spec fn member_names(ms: Seq<(String, (TypeInfo, u64))>) -> Seq<Seq<char>> {
    Seq::new(ms.len(), |k: int| ms[k].0@)
}

/// Two equally long member lists with unique names, where each name of the
/// first occurs in the second, have the same names.
proof fn lemma_same_member_names(m1: Seq<(String, (TypeInfo, u64))>, m2: Seq<(String, (TypeInfo, u64))>)
    requires
        m1.len() == m2.len(),
        member_names_unique(m1),
        member_names_unique(m2),
        forall|k: int| 0 <= k < m1.len() ==> member_names(m2).contains(#[trigger] m1[k].0@),
    ensures
        forall|j: int| 0 <= j < m2.len() ==> member_names(m1).contains(#[trigger] m2[j].0@),
{
    let n1 = member_names(m1);
    let n2 = member_names(m2);
    assert(n1.no_duplicates());
    assert(n2.no_duplicates());
    n1.unique_seq_to_set();
    n2.unique_seq_to_set();
    assert forall|x: Seq<char>| n1.to_set().contains(x) implies n2.to_set().contains(x) by {
        let k = choose|k: int| 0 <= k < n1.len() && n1[k] == x;
        assert(n2.contains(m1[k].0@));
    }
    vstd::set_lib::lemma_subset_equality(n1.to_set(), n2.to_set());
    assert forall|j: int| 0 <= j < m2.len() implies n1.contains(#[trigger] m2[j].0@) by {
        assert(n2[j] == m2[j].0@);
        assert(n2.to_set().contains(m2[j].0@));
    }
}

/// Whether every member type of a list has unique member names within it.
pub open spec fn member_types_unique(ms: Seq<(String, (TypeInfo, u64))>) -> bool {
    forall|k: int| 0 <= k < ms.len() ==> names_unique_within(#[trigger] ms[k].1.0)
}

/// A comparison that finds two types equal finds them equal the other way
/// round, with the same fuel, where member names are unique.
proof fn lemma_types_equal_symmetric(
    t1: TypeInfo,
    t2: TypeInfo,
    types: Map<usize, TypeInfo>,
    depth: nat,
    fuel: nat,
)
    requires
        names_unique_within(t1),
        names_unique_within(t2),
        table_names_unique(types),
    ensures
        types_equal(t1, t2, types, depth, fuel) == Some(true) ==> types_equal(t2, t1, types, depth, fuel) == Some(
            true,
        ),
    decreases fuel, 0int, 0int,
{
    if fuel > 0 && types_equal(t1, t2, types, depth, fuel) == Some(true) {
        let a = reference_of(t1, types);
        let b = reference_of(t2, types);
        lemma_reference_names_unique(t1, types);
        lemma_reference_names_unique(t2, types);
        lemma_same_kind_symmetric(a.datatype, b.datatype);
        let f = (fuel - 1) as nat;
        if a.dbginfo_offset != b.dbginfo_offset && a.name.deep_view() == b.name.deep_view() && !same_base_type(
            a.datatype,
            b.datatype,
        ) {
            match (a.datatype, b.datatype) {
                (DbgDataType::Array { arraytype, .. }, DbgDataType::Array { arraytype: arraytype2, .. }) => {
                    lemma_types_equal_symmetric(*arraytype, *arraytype2, types, depth + 1, f);
                },
                (DbgDataType::Pointer(_, dest1), DbgDataType::Pointer(_, dest2)) => {
                    if types.contains_key(dest1) && types.contains_key(dest2) {
                        lemma_types_equal_symmetric(types[dest1], types[dest2], types, depth + 1, f);
                        let r1 = reference_of(types[dest1], types);
                        let r2 = reference_of(types[dest2], types);
                        lemma_same_kind_symmetric(r1.datatype, r2.datatype);
                    }
                },
                (DbgDataType::Bitfield { basetype, .. }, DbgDataType::Bitfield { basetype: basetype2, .. }) => {
                    lemma_types_equal_symmetric(*basetype, *basetype2, types, depth + 1, f);
                },
                (DbgDataType::Struct { members, .. }, DbgDataType::Struct { members: members2, .. }) => {
                    lemma_members_equal_symmetric(members@, members2@, types, depth, f);
                },
                (DbgDataType::Union { members, .. }, DbgDataType::Union { members: members2, .. }) => {
                    lemma_members_equal_symmetric(members@, members2@, types, depth, f);
                },
                (
                    DbgDataType::Class { members, inheritance, .. },
                    DbgDataType::Class { members: members2, inheritance: inheritance2, .. },
                ) => {
                    lemma_members_equal_symmetric(members@, members2@, types, depth, f);
                    lemma_members_equal_symmetric(inheritance@, inheritance2@, types, depth, f);
                },
                _ => {},
            }
        }
    }
}

proof fn lemma_members_equal_symmetric(
    m1: Seq<(String, (TypeInfo, u64))>,
    m2: Seq<(String, (TypeInfo, u64))>,
    types: Map<usize, TypeInfo>,
    depth: nat,
    fuel: nat,
)
    requires
        member_names_unique(m1),
        member_names_unique(m2),
        member_types_unique(m1),
        member_types_unique(m2),
        table_names_unique(types),
    ensures
        members_equal(m1, m2, types, depth, fuel) == Some(true) ==> members_equal(m2, m1, types, depth, fuel)
            == Some(true),
    decreases fuel, 2int, 0int,
{
    if members_equal(m1, m2, types, depth, fuel) == Some(true) {
        lemma_members_equal_from_true(m1, m2, types, depth, fuel, 0);
        lemma_members_equal_from_true(m2, m1, types, depth, fuel, 0);
        assert forall|k: int| 0 <= k < m1.len() implies member_names(m2).contains(#[trigger] m1[k].0@) by {
            assert(member_matches(m1, m2, types, depth, fuel, k));
            lemma_member_index_names(m2, m1[k].0@, 0);
            let j = member_index(m2, m1[k].0@, 0).unwrap();
            assert(member_names(m2)[j] == m1[k].0@);
        }
        lemma_same_member_names(m1, m2);
        assert forall|j: int| 0 <= j < m2.len() implies #[trigger] member_matches(m2, m1, types, depth, fuel, j) by {
            assert(member_names(m1).contains(m2[j].0@));
            let k = choose|k: int| 0 <= k < m1.len() && member_names(m1)[k] == m2[j].0@;
            lemma_member_index_of_name(m1, m2[j].0@, 0, k);
            assert(member_matches(m1, m2, types, depth, fuel, k));
            lemma_member_index_of_name(m2, m1[k].0@, 0, j);
            let t1 = m1[k].1.0;
            let t2 = m2[j].1.0;
            lemma_types_equal_symmetric(t1, t2, types, depth + 1, fuel);
            lemma_same_kind_symmetric(reference_of(t1, types).datatype, reference_of(t2, types).datatype);
        }
    }
}

/// Two types compare alike either way round: where both comparisons end,
/// they agree, provided that no member list within the types, or within
/// the table of types, has two members of one name.
pub proof fn law_compare_symmetric(t1: TypeInfo, t2: TypeInfo, types: Map<usize, TypeInfo>)
    requires
        names_unique_within(t1),
        names_unique_within(t2),
        table_names_unique(types),
        comparison_ends(t1, t2, types),
        comparison_ends(t2, t1, types),
    ensures
        types_match(t1, t2, types) == types_match(t2, t1, types),
{
    let f1 = choose|fuel: nat| fuel <= usize::MAX && #[trigger] types_equal(t1, t2, types, 0, fuel) is Some;
    let f2 = choose|fuel: nat| fuel <= usize::MAX && #[trigger] types_equal(t2, t1, types, 0, fuel) is Some;
    let f = if f1 <= f2 {
        f2
    } else {
        f1
    };
    lemma_types_equal_fuel(t1, t2, types, 0, f1, f);
    lemma_types_equal_fuel(t2, t1, types, 0, f2, f);
    lemma_types_equal_symmetric(t1, t2, types, 0, f);
    lemma_types_equal_symmetric(t2, t1, types, 0, f);
}

/// A type describes the same data type as itself.
pub proof fn law_compare_reflexive(t: TypeInfo, types: Map<usize, TypeInfo>)
    ensures
        comparison_ends(t, t, types),
        types_match(t, t, types),
{
    assert(types_equal(t, t, types, 0, 1) is Some);
    let fuel = choose|fuel: nat| fuel <= usize::MAX && #[trigger] types_equal(t, t, types, 0, fuel) is Some;
    assert(fuel > 0);
}

fn same_kind_exec(a: &DbgDataType, b: &DbgDataType) -> (r: bool)
    ensures
        r == same_kind(*a, *b),
{
    match (a, b) {
        (DbgDataType::Uint8, DbgDataType::Uint8)
        | (DbgDataType::Uint16, DbgDataType::Uint16)
        | (DbgDataType::Uint32, DbgDataType::Uint32)
        | (DbgDataType::Uint64, DbgDataType::Uint64)
        | (DbgDataType::Sint8, DbgDataType::Sint8)
        | (DbgDataType::Sint16, DbgDataType::Sint16)
        | (DbgDataType::Sint32, DbgDataType::Sint32)
        | (DbgDataType::Sint64, DbgDataType::Sint64)
        | (DbgDataType::Float, DbgDataType::Float)
        | (DbgDataType::Double, DbgDataType::Double)
        | (DbgDataType::Bitfield { .. }, DbgDataType::Bitfield { .. })
        | (DbgDataType::Pointer(..), DbgDataType::Pointer(..))
        | (DbgDataType::Struct { .. }, DbgDataType::Struct { .. })
        | (DbgDataType::Class { .. }, DbgDataType::Class { .. })
        | (DbgDataType::Union { .. }, DbgDataType::Union { .. })
        | (DbgDataType::Enum { .. }, DbgDataType::Enum { .. })
        | (DbgDataType::Array { .. }, DbgDataType::Array { .. })
        | (DbgDataType::TypeRef(..), DbgDataType::TypeRef(..))
        | (DbgDataType::FuncPtr(..), DbgDataType::FuncPtr(..))
        | (DbgDataType::Other(..), DbgDataType::Other(..)) => true,
        _ => false,
    }
}

fn same_base_type_exec(a: &DbgDataType, b: &DbgDataType) -> (r: bool)
    ensures
        r == same_base_type(*a, *b),
{
    match (a, b) {
        (DbgDataType::Uint8, DbgDataType::Uint8)
        | (DbgDataType::Uint16, DbgDataType::Uint16)
        | (DbgDataType::Uint32, DbgDataType::Uint32)
        | (DbgDataType::Uint64, DbgDataType::Uint64)
        | (DbgDataType::Sint8, DbgDataType::Sint8)
        | (DbgDataType::Sint16, DbgDataType::Sint16)
        | (DbgDataType::Sint32, DbgDataType::Sint32)
        | (DbgDataType::Sint64, DbgDataType::Sint64)
        | (DbgDataType::Float, DbgDataType::Float)
        | (DbgDataType::Double, DbgDataType::Double) => true,
        _ => false,
    }
}

fn names_equal(a: &Option<String>, b: &Option<String>) -> (r: bool)
    ensures
        r == (a.deep_view() == b.deep_view()),
{
    match (a, b) {
        (Some(x), Some(y)) => {
            assert(a.deep_view() == Some(x@) && b.deep_view() == Some(y@));
            let same = *x == *y;
            assert(same == (x@ == y@));
            same
        },
        (None, None) => true,
        _ => false,
    }
}

fn dims_equal(a: &Vec<u64>, b: &Vec<u64>) -> (r: bool)
    ensures
        r == (a@ == b@),
{
    if a.len() != b.len() {
        return false;
    }
    let mut i: usize = 0;
    while i < a.len()
        invariant
            a@.len() == b@.len(),
            i <= a@.len(),
            forall|j: int| 0 <= j < i ==> a@[j] == b@[j],
        decreases a@.len() - i,
    {
        if a[i] != b[i] {
            return false;
        }
        i += 1;
    }
    assert(a@ =~= b@);
    true
}

fn enumerators_equal(a: &Vec<(String, i64)>, b: &Vec<(String, i64)>) -> (r: bool)
    ensures
        r == (a.deep_view() == b.deep_view()),
{
    let ghost da = a.deep_view();
    let ghost db = b.deep_view();
    if a.len() != b.len() {
        assert(da.len() != db.len());
        return false;
    }
    let mut i: usize = 0;
    while i < a.len()
        invariant
            a@.len() == b@.len(),
            da == a.deep_view(),
            db == b.deep_view(),
            i <= a@.len(),
            forall|j: int| 0 <= j < i ==> da[j] == db[j],
        decreases a@.len() - i,
    {
        if a[i].1 != b[i].1 || a[i].0 != b[i].0 {
            assert(da[i as int] != db[i as int]);
            return false;
        }
        i += 1;
    }
    assert(da =~= db);
    true
}

fn find_member(ms: &MemberList, name: &String) -> (r: Option<usize>)
    ensures
        r matches Some(j) ==> j < ms@.len() && member_index(ms@, name@, 0) == Some(j as int),
        r is None ==> member_index(ms@, name@, 0) is None,
{
    let mut i: usize = 0;
    while i < ms.len()
        invariant
            i <= ms@.len(),
            member_index(ms@, name@, 0) == member_index(ms@, name@, i as int),
        decreases ms@.len() - i,
    {
        if ms[i].0 == *name {
            return Some(i);
        }
        i += 1;
    }
    None
}

proof fn lemma_member_index(ms: Seq<(String, (TypeInfo, u64))>, name: Seq<char>, i: int)
    requires
        0 <= i,
    ensures
        member_index(ms, name, i) matches Some(j) ==> i <= j < ms.len(),
    decreases ms.len() - i,
{
    if i < ms.len() {
        lemma_member_index(ms, name, i + 1);
    }
}

impl TypeInfo {
    /// Whether this type and `other` describe the same data type.
    pub fn compare(&self, other: &TypeInfo, types: &HashMap<usize, TypeInfo>) -> (r: bool)
        requires
            comparison_ends(*self, *other, types@),
        ensures
            r == types_match(*self, *other, types@),
    {
        let ghost fuel = choose|fuel: nat| fuel <= usize::MAX && #[trigger] types_equal(*self, *other, types@, 0, fuel) is Some;
        self.compare_internal(other, types, 0, Ghost(fuel))
    }

    fn compare_internal(&self, other: &TypeInfo, types: &HashMap<usize, TypeInfo>, depth: usize, Ghost(fuel): Ghost<nat>) -> (r: bool)
        requires
            types_equal(*self, *other, types@, depth as nat, fuel) is Some,
            depth + fuel <= usize::MAX,
        ensures
            types_equal(*self, *other, types@, depth as nat, fuel) == Some(r),
        decreases fuel, 0int, 0int,
    {
        let type_1 = self.get_reference(types);
        let type_2 = other.get_reference(types);
        if type_1.dbginfo_offset == type_2.dbginfo_offset {
            return true;
        }
        if !names_equal(&type_1.name, &type_2.name) {
            return false;
        }
        if same_base_type_exec(&type_1.datatype, &type_2.datatype) {
            return true;
        }
        match (&type_1.datatype, &type_2.datatype) {
            (
                DbgDataType::Enum { size, signed, enumerators },
                DbgDataType::Enum { size: size2, signed: signed2, enumerators: enumerators2 },
            ) => *size == *size2 && *signed == *signed2 && enumerators_equal(enumerators, enumerators2),
            (
                DbgDataType::Array { size, dim, stride, arraytype },
                DbgDataType::Array { size: size2, dim: dim2, stride: stride2, arraytype: arraytype2 },
            ) => {
                *size == *size2 && dims_equal(dim, dim2) && *stride == *stride2
                    && arraytype.compare_internal(arraytype2, types, depth + 1, Ghost((fuel - 1) as nat))
            },
            (DbgDataType::Pointer(size1, dest_offset1), DbgDataType::Pointer(size2, dest_offset2)) => {
                if *size1 != *size2 {
                    false
                } else if *dest_offset1 == *dest_offset2 {
                    true
                } else {
                    match (types.get(dest_offset1), types.get(dest_offset2)) {
                        (Some(dest_type1), Some(dest_type2)) => {
                            if depth < MAX_RECURSION_DEPTH {
                                dest_type1.compare_internal(dest_type2, types, depth + 1, Ghost((fuel - 1) as nat))
                            } else {
                                let dest1_deref = dest_type1.get_reference(types);
                                let dest2_deref = dest_type2.get_reference(types);
                                names_equal(&dest1_deref.name, &dest2_deref.name) && same_kind_exec(
                                    &dest1_deref.datatype,
                                    &dest2_deref.datatype,
                                ) && dest1_deref.get_size() == dest2_deref.get_size()
                            }
                        },
                        _ => false,
                    }
                }
            },
            (DbgDataType::Other(size1), DbgDataType::Other(size2)) => *size1 == *size2,
            (
                DbgDataType::Bitfield { basetype, bit_offset, bit_size },
                DbgDataType::Bitfield { basetype: basetype2, bit_offset: bit_offset2, bit_size: bit_size2 },
            ) => {
                *bit_offset == *bit_offset2 && *bit_size == *bit_size2
                    && basetype.compare_internal(basetype2, types, depth + 1, Ghost((fuel - 1) as nat))
            },
            (DbgDataType::Struct { size, members }, DbgDataType::Struct { size: size2, members: members2 }) => {
                *size == *size2 && Self::compare_members(members, members2, types, depth, Ghost((fuel - 1) as nat))
            },
            (DbgDataType::Union { size, members }, DbgDataType::Union { size: size2, members: members2 }) => {
                *size == *size2 && Self::compare_members(members, members2, types, depth, Ghost((fuel - 1) as nat))
            },
            (
                DbgDataType::Class { size, members, inheritance },
                DbgDataType::Class { size: size2, members: members2, inheritance: inheritance2 },
            ) => {
                *size == *size2 && Self::compare_members(members, members2, types, depth, Ghost((fuel - 1) as nat))
                    && Self::compare_members(inheritance, inheritance2, types, depth, Ghost((fuel - 1) as nat))
            },
            (DbgDataType::FuncPtr(size1), DbgDataType::FuncPtr(size2)) => *size1 == *size2,
            _ => false,
        }
    }

    fn compare_members(
        members1: &MemberList,
        members2: &MemberList,
        types: &HashMap<usize, TypeInfo>,
        depth: usize,
        Ghost(fuel): Ghost<nat>,
    ) -> (r: bool)
        requires
            members_equal(members1@, members2@, types@, depth as nat, fuel) is Some,
            depth + fuel + 1 <= usize::MAX,
        ensures
            members_equal(members1@, members2@, types@, depth as nat, fuel) == Some(r),
        decreases fuel, 2int, 0int,
    {
        if members1.len() != members2.len() {
            return false;
        }
        let mut i: usize = 0;
        while i < members1.len()
            invariant
                i <= members1@.len(),
                members1@.len() == members2@.len(),
                members_equal(members1@, members2@, types@, depth as nat, fuel) == members_equal_from(
                    members1@,
                    members2@,
                    types@,
                    depth as nat,
                    fuel,
                    i as int,
                ),
                members_equal(members1@, members2@, types@, depth as nat, fuel) is Some,
                depth + fuel + 1 <= usize::MAX,
            decreases members1@.len() - i,
        {
            let (member1_name, (member1_type, member1_offset)) = &members1[i];
            let j = match find_member(members2, member1_name) {
                Some(j) => j,
                None => return false,
            };
            let (_, (member2_type, member2_offset)) = &members2[j];
            if *member1_offset != *member2_offset {
                return false;
            }
            if depth < MAX_RECURSION_DEPTH {
                if !member1_type.compare_internal(member2_type, types, depth + 1, Ghost(fuel)) {
                    return false;
                }
            } else {
                let member1_deref = member1_type.get_reference(types);
                let member2_deref = member2_type.get_reference(types);
                if !same_kind_exec(&member1_deref.datatype, &member2_deref.datatype) || !names_equal(
                    &member1_deref.name,
                    &member2_deref.name,
                ) {
                    return false;
                }
            }
            i += 1;
        }
        true
    }
}

} // verus!
