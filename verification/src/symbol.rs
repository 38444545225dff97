//! Symbol names as the A2L file writes them: a global variable, then struct
//! members after dots and array indices as `[i]` or (before ASAP2 1.7) as
//! `._i_`.

use vstd::prelude::*;
use crate::text::{append_radix, decimal_text, str_eq};
use vstd::utf8::encode_utf8;
use vstd::string::StringSliceAdditionalSpecFns;
use crate::bytes::{copy_range, BYTE_LBRACKET, BYTE_RBRACKET, BYTE_UNDERSCORE};
use crate::creator::literals::{parse_unsigned, parse_unsigned_bytes};
use crate::debuginfo::compare::member_index;
use crate::debuginfo::{DbgDataType, DebugData, TypeInfo};

verus! {

/// The first index in `from..end` where `s` holds `c`, or `end` if there is
/// none.
pub open spec fn first_char_from(s: Seq<char>, c: char, from: int, end: int) -> int
    decreases end - from,
{
    if from >= end {
        end
    } else if s[from] == c {
        from
    } else {
        first_char_from(s, c, from + 1, end)
    }
}

pub proof fn lemma_first_char_from(s: Seq<char>, c: char, from: int, end: int)
    requires
        from <= end,
    ensures
        from <= first_char_from(s, c, from, end) <= end,
    decreases end - from,
{
    if from < end && s[from] != c {
        lemma_first_char_from(s, c, from + 1, end);
    }
}

/// The pieces of `s[from..end]` that each end with `c`, the last one
/// possibly without (`str::split_inclusive`); none for an empty range.
pub open spec fn pieces_through(s: Seq<char>, from: int, end: int, c: char) -> Seq<Seq<char>>
    decreases end - from,
{
    if from >= end {
        seq![]
    } else {
        let j = first_char_from(s, c, from, end);
        proof {
            lemma_first_char_from(s, c, from, end);
        }
        if j < end {
            seq![s.subrange(from, j + 1)] + pieces_through(s, j + 1, end, c)
        } else {
            seq![s.subrange(from, end)]
        }
    }
}

/// The parts of one dot-separated component `s[start..end]`: the name before
/// the first `[`, then each index `[..]`; the whole component if it has no
/// `[`.
pub open spec fn component_parts(s: Seq<char>, start: int, end: int) -> Seq<Seq<char>> {
    let b = first_char_from(s, '[', start, end);
    if b < end {
        seq![s.subrange(start, b)] + pieces_through(s, b, end, ']')
    } else {
        seq![s.subrange(start, end)]
    }
}

/// The parts of the components of `s` from `start` on, one component per
/// dot-separated piece.
pub open spec fn components_from(s: Seq<char>, start: int) -> Seq<Seq<char>>
    decreases s.len() - start,
{
    let e = first_char_from(s, '.', start, s.len() as int);
    if start <= e < s.len() {
        component_parts(s, start, e) + components_from(s, e + 1)
    } else {
        component_parts(s, start, s.len() as int)
    }
}

/// The components of a symbol name, e.g. `my_struct.array_field[5][6]` gives
/// `my_struct`, `array_field`, `[5]`, `[6]`.
pub open spec fn symbol_components(s: Seq<char>) -> Seq<Seq<char>> {
    components_from(s, 0)
}

/// The first index in `from..end` where `s` holds `c`, or `end`.
fn find_char(s: &str, c: char, from: usize, end: usize) -> (r: usize)
    requires
        from <= end <= s@.len(),
    ensures
        r == first_char_from(s@, c, from as int, end as int),
        from <= r <= end,
{
    let mut i = from;
    while i < end
        invariant
            from <= i <= end <= s@.len(),
            first_char_from(s@, c, from as int, end as int) == first_char_from(s@, c, i as int, end as int),
        decreases end - i,
    {
        if s.get_char(i) == c {
            return i;
        }
        i += 1;
    }
    i
}

/// Appends the parts of the component `s[start..end]`.
fn push_component_parts<'a>(s: &'a str, start: usize, end: usize, out: &mut Vec<&'a str>)
    requires
        start <= end <= s@.len(),
    ensures
        final(out).deep_view() == old(out).deep_view() + component_parts(s@, start as int, end as int),
{
    let b = find_char(s, '[', start, end);
    let ghost before = out.deep_view();
    out.push(s.substring_char(start, b));
    assert(out.deep_view() =~= before + seq![s@.subrange(start as int, b as int)]);
    if b < end {
        let ghost parts_from_b = pieces_through(s@, b as int, end as int, ']');
        let ghost head = out.deep_view();
        let mut p = b;
        while p < end
            invariant
                b <= p <= end <= s@.len(),
                out.deep_view() + pieces_through(s@, p as int, end as int, ']') == head + parts_from_b,
            decreases end - p,
        {
            let ghost mid = out.deep_view();
            let j = find_char(s, ']', p, end);
            if j < end {
                out.push(s.substring_char(p, j + 1));
                assert(out.deep_view() =~= mid + seq![s@.subrange(p as int, j + 1)]);
                assert(mid + pieces_through(s@, p as int, end as int, ']') =~= out.deep_view()
                    + pieces_through(s@, j + 1, end as int, ']'));
                p = j + 1;
            } else {
                out.push(s.substring_char(p, end));
                assert(out.deep_view() =~= mid + seq![s@.subrange(p as int, end as int)]);
                assert(mid + pieces_through(s@, p as int, end as int, ']') =~= out.deep_view()
                    + pieces_through(s@, end as int, end as int, ']'));
                p = end;
            }
        }
        assert(out.deep_view() + pieces_through(s@, end as int, end as int, ']') =~= out.deep_view());
        assert(head == before + seq![s@.subrange(start as int, b as int)]);
        assert(out.deep_view() =~= before + component_parts(s@, start as int, end as int));
    } else {
        assert(s@.subrange(start as int, b as int) == s@.subrange(start as int, end as int));
    }
}

/// Splits a symbol name into its components: the dot-separated names, and
/// each array index `[i]` as a component of its own.
pub fn split_symbol_components(varname: &str) -> (r: Vec<&str>)
    ensures
        r.deep_view() == symbol_components(varname@),
{
    let len = varname.unicode_len();
    let mut components: Vec<&str> = Vec::new();
    let mut start: usize = 0;
    loop
        invariant
            start <= len,
            len == varname@.len(),
            symbol_components(varname@) == components.deep_view() + components_from(varname@, start as int),
        decreases len - start,
    {
        let end = find_char(varname, '.', start, len);
        let ghost before = components.deep_view();
        push_component_parts(varname, start, end, &mut components);
        if end < len {
            assert(components_from(varname@, start as int) == component_parts(varname@, start as int, end as int)
                + components_from(varname@, end + 1));
            assert(before + components_from(varname@, start as int) =~= components.deep_view()
                + components_from(varname@, end + 1));
            start = end + 1;
        } else {
            assert(components_from(varname@, start as int) == component_parts(varname@, start as int, len as int));
            assert(before + components_from(varname@, start as int) =~= components.deep_view());
            return components;
        }
    }
}

proof fn lemma_char_absent(s: Seq<char>, c: char, from: int, end: int)
    requires
        0 <= from <= end <= s.len(),
        forall|i: int| from <= i < end ==> s[i] != c,
    ensures
        first_char_from(s, c, from, end) == end,
    decreases end - from,
{
    if from < end {
        lemma_char_absent(s, c, from + 1, end);
    }
}

/// A name without dots and brackets is a single component, itself.
pub proof fn law_plain_name_is_one_component(s: Seq<char>)
    requires
        forall|i: int| 0 <= i < s.len() ==> s[i] != '.' && s[i] != '[',
    ensures
        symbol_components(s) == seq![s],
{
    lemma_char_absent(s, '.', 0, s.len() as int);
    lemma_char_absent(s, '[', 0, s.len() as int);
    assert(s.subrange(0, s.len() as int) =~= s);
}

/// Every symbol name has at least one component (the empty name has the
/// empty component).
pub proof fn law_at_least_one_component(s: Seq<char>)
    ensures
        symbol_components(s).len() >= 1,
{
}

/// The number that an index component stands for: `_i_` or `[i]` with `i`
/// a decimal `usize` (an optional `+` before it is accepted, as `str::parse`
/// does); `None` for any other text.
pub open spec fn index_value(s: Seq<u8>) -> Option<nat> {
    if s.len() >= 2 && ((s[0] == BYTE_UNDERSCORE && s.last() == BYTE_UNDERSCORE) || (s[0]
        == BYTE_LBRACKET && s.last() == BYTE_RBRACKET)) {
        parse_unsigned(s.subrange(1, s.len() - 1), 10, usize::MAX as nat)
    } else {
        None
    }
}

/// The array index written in a symbol name component, in either notation.
pub fn get_index(idxstr: &str) -> (r: Option<usize>)
    requires
        idxstr.spec_bytes() != seq![BYTE_UNDERSCORE],
    ensures
        r matches Some(v) ==> index_value(idxstr.spec_bytes()) == Some(v as nat),
        r is None ==> index_value(idxstr.spec_bytes()) is None,
{
    let b = idxstr.as_bytes();
    let n = b.len();
    if n == 0 {
        return None;
    }
    let first = b[0];
    let last = b[n - 1];
    if (first == BYTE_UNDERSCORE && last == BYTE_UNDERSCORE) || (first == BYTE_LBRACKET && last
        == BYTE_RBRACKET) {
        if n < 2 {
            assert(b@ =~= seq![BYTE_UNDERSCORE]);
            return None;
        }
        let inner = copy_range(b, 1, n - 1);
        match parse_unsigned_bytes(inner.as_slice(), 10, usize::MAX as u64) {
            Some(v) => Some(v as usize),
            None => None,
        }
    } else {
        None
    }
}


/// The components joined with `.` between them (`[&str]::join(".")`).
pub open spec fn joined(s: Seq<Seq<char>>) -> Seq<char>
    decreases s.len(),
{
    if s.len() == 0 {
        seq![]
    } else if s.len() == 1 {
        s[0]
    } else {
        joined(s.drop_last()) + seq!['.'] + s.last()
    }
}

/// The message for a component that is no array index.
pub open spec fn bad_index_message(comp: Seq<char>) -> Seq<char> {
    "could not interpret \""@ + comp + "\" as an array index"@
}

/// The message for an array index beyond its dimension.
pub open spec fn index_range_message(comps: Seq<Seq<char>>, index: nat, dim: u64) -> Seq<char> {
    "requested array index "@ + decimal_text(index) + " in expression \""@ + joined(comps)
        + "\", but the array only has "@ + decimal_text(dim as nat) + " elements"@
}

/// The message for a member name that the struct does not have.
pub open spec fn no_member_message(comps: Seq<Seq<char>>, ci: int) -> Seq<char> {
    "There is no member \""@ + comps[ci] + "\" in \""@ + joined(comps.subrange(0, ci)) + "\""@
}

/// The message for components that are left where the type has no parts.
pub open spec fn unmatched_message(comps: Seq<Seq<char>>, ci: int) -> Seq<char> {
    "Remaining portion \""@ + joined(comps.subrange(ci, comps.len() as int)) + "\" of \""@ + joined(comps)
        + "\" could not be matched"@
}

/// The element number of the array indices that the components from `ci`
/// on give for the dimensions from `pos` on, accumulated in row-major order
/// from `acc` (an index that the name leaves out is 0), or the message for
/// a component that is no index or an index out of its dimension; `None`
/// where reading the components panics (a component `_`) or the element
/// number overflows a `usize`.
pub open spec fn array_element_number(
    dim: Seq<u64>,
    comps: Seq<Seq<char>>,
    ci: int,
    pos: int,
    acc: nat,
) -> Option<Result<nat, Seq<char>>>
    decreases dim.len() - pos,
{
    if pos < 0 || pos >= dim.len() {
        Some(Ok(acc))
    } else if 0 <= ci + pos < comps.len() && encode_utf8(comps[ci + pos]) == seq![BYTE_UNDERSCORE] {
        None
    } else {
        let index = if 0 <= ci + pos < comps.len() {
            index_value(encode_utf8(comps[ci + pos]))
        } else {
            Some(0nat)
        };
        let d = (dim[pos] as usize) as nat;
        match index {
            None => Some(Err(bad_index_message(comps[ci + pos]))),
            Some(v) => if v >= d {
                Some(Err(index_range_message(comps, v, dim[pos])))
            } else if acc * d + v > usize::MAX {
                None
            } else {
                array_element_number(dim, comps, ci, pos + 1, acc * d + v)
            },
        }
    }
}

/// The address and type that the components of a symbol name from `ci` on
/// lead to, from a variable part of type `t` at `address`: members of
/// structs, classes and unions by name (at their offset), array elements by
/// their indices (at the element number times the stride; left-out indices
/// are 0); or the message for a component that does not fit the type.
/// `None` where the lookup panics (see `array_element_number`) or an
/// address overflows.
pub open spec fn member_lookup(t: TypeInfo, comps: Seq<Seq<char>>, ci: int, address: u64) -> Option<
    Result<(u64, TypeInfo), Seq<char>>,
>
    decreases t,
{
    if ci < 0 || ci >= comps.len() {
        Some(Ok((address, t)))
    } else {
        match t.datatype {
            DbgDataType::Class { members, .. } | DbgDataType::Struct { members, .. }
            | DbgDataType::Union { members, .. } => match member_index(members@, comps[ci], 0) {
                Some(j) => if 0 <= j < members@.len() && address + members@[j].1.1 <= u64::MAX {
                    proof {
                        assert(decreases_to!(t => members@[j].1.0));
                    }
                    member_lookup(members@[j].1.0, comps, ci + 1, (address + members@[j].1.1) as u64)
                } else {
                    None
                },
                None => Some(Err(no_member_message(comps, ci))),
            },
            DbgDataType::Array { dim, stride, arraytype, .. } => match array_element_number(
                dim@,
                comps,
                ci,
                0,
                0,
            ) {
                None => None,
                Some(Err(m)) => Some(Err(m)),
                Some(Ok(n)) => if n * stride > u64::MAX || address + n * stride > u64::MAX || ci
                    + dim@.len() > usize::MAX {
                    None
                } else {
                    member_lookup(*arraytype, comps, ci + dim@.len(), (address + n * stride) as u64)
                },
            },
            _ => Some(Err(unmatched_message(comps, ci))),
        }
    }
}

fn is_single_underscore(s: &str) -> (r: bool)
    ensures
        r == (s.spec_bytes() == seq![BYTE_UNDERSCORE]),
{
    let b = s.as_bytes();
    if b.len() == 1 && b[0] == BYTE_UNDERSCORE {
        assert(b@ =~= seq![BYTE_UNDERSCORE]);
        true
    } else {
        false
    }
}

/// The components `from..to`, joined with `.` between them.
fn join_components(components: &[&str], from: usize, to: usize) -> (r: String)
    requires
        from <= to <= components.len(),
    ensures
        r@ == joined(components.deep_view().subrange(from as int, to as int)),
{
    let ghost dv = components.deep_view();
    let mut out = String::new();
    let mut i = from;
    proof {
        reveal_strlit(".");
        assert(dv.subrange(from as int, from as int) =~= Seq::<Seq<char>>::empty());
    }
    while i < to
        invariant
            from <= i <= to <= components.len(),
            dv == components.deep_view(),
            "."@ == seq!['.'],
            out@ == joined(dv.subrange(from as int, i as int)),
        decreases to - i,
    {
        let ghost sub = dv.subrange(from as int, i + 1);
        assert(sub.drop_last() =~= dv.subrange(from as int, i as int));
        assert(sub.last() == components@[i as int]@);
        if i > from {
            out.append(".");
        }
        out.append(components[i]);
        i += 1;
    }
    out
}

/// The address and type of the part of a variable that the components of a
/// symbol name from `component_index` on name, from a part of type
/// `typeinfo` at `address`, or the message that says which component does
/// not fit; `None` where an index is a lone `_` or an address or element
/// number overflows (see `member_lookup`).
#[verifier::loop_isolation(false)]
pub fn lookup_member<'a>(
    typeinfo: &'a TypeInfo,
    components: &[&str],
    component_index: usize,
    address: u64,
) -> (r: Option<Result<(u64, &'a TypeInfo), String>>)
    ensures
        match member_lookup(*typeinfo, components.deep_view(), component_index as int, address) {
            Some(Ok((a, t))) => r matches Some(Ok((ra, rt))) && ra == a && *rt == t,
            Some(Err(m)) => r matches Some(Err(rm)) && rm@ == m,
            None => r is None,
        },
    decreases typeinfo,
{
    let ghost comps = components.deep_view();
    if component_index >= components.len() {
        return Some(Ok((address, typeinfo)));
    }
    match &typeinfo.datatype {
        DbgDataType::Class { members, .. }
        | DbgDataType::Struct { members, .. }
        | DbgDataType::Union { members, .. } => {
            let mut j: usize = 0;
            let name = components[component_index];
            let ghost ms = members@;
            while j < members.len()
                invariant
                    j <= ms.len(),
                    ms == members@,
                    member_index(ms, name@, 0) == member_index(ms, name@, j as int),
                decreases ms.len() - j,
            {
                if str_eq(members[j].0.as_str(), name) {
                    break;
                }
                j += 1;
            }
            if j < members.len() {
                let (_, (membertype, offset)) = &members[j];
                proof {
                    assert(decreases_to!(*typeinfo => members@[j as int].1.0));
                }
                match address.checked_add(*offset) {
                    Some(a) => lookup_member(membertype, components, component_index + 1, a),
                    None => None,
                }
            } else {
                let mut msg = String::from_str("There is no member \"");
                msg.append(name);
                msg.append("\" in \"");
                msg.append(join_components(components, 0, component_index).as_str());
                msg.append("\"");
                assert(msg@ =~= no_member_message(comps, component_index as int));
                Some(Err(msg))
            }
        },
        DbgDataType::Array { dim, stride, arraytype, .. } => {
            let mut multi_index: usize = 0;
            let mut idx_pos: usize = 0;
            while idx_pos < dim.len()
                invariant
                    idx_pos <= dim@.len(),
                    comps == components.deep_view(),
                    component_index < comps.len(),
                    array_element_number(dim@, comps, component_index as int, 0, 0)
                        == array_element_number(
                        dim@,
                        comps,
                        component_index as int,
                        idx_pos as int,
                        multi_index as nat,
                    ),
                decreases dim@.len() - idx_pos,
            {
                let current_dim = dim[idx_pos] as usize;
                let indexval: usize = if idx_pos < components.len() - component_index {
                    let arraycomponent = components[component_index + idx_pos];
                    if is_single_underscore(arraycomponent) {
                        return None;
                    }
                    match get_index(arraycomponent) {
                        Some(v) => v,
                        None => {
                            let mut msg = String::from_str("could not interpret \"");
                            msg.append(arraycomponent);
                            msg.append("\" as an array index");
                            assert(msg@ =~= bad_index_message(comps[component_index + idx_pos]));
                            return Some(Err(msg));
                        },
                    }
                } else {
                    0
                };
                if indexval >= current_dim {
                    let mut msg = String::from_str("requested array index ");
                    append_radix(&mut msg, indexval as u64, 10, false);
                    msg.append(" in expression \"");
                    msg.append(join_components(components, 0, components.len()).as_str());
                    msg.append("\", but the array only has ");
                    append_radix(&mut msg, dim[idx_pos], 10, false);
                    msg.append(" elements");
                    assert(comps.subrange(0, comps.len() as int) =~= comps);
                    assert(msg@ =~= index_range_message(comps, indexval as nat, dim@[idx_pos as int]));
                    return Some(Err(msg));
                }
                multi_index = match multi_index.checked_mul(current_dim) {
                    Some(m) => match m.checked_add(indexval) {
                        Some(n) => n,
                        None => {
                            return None;
                        },
                    },
                    None => {
                        return None;
                    },
                };
                idx_pos += 1;
            }
            let offset = match (multi_index as u64).checked_mul(*stride) {
                Some(o) => o,
                None => {
                    return None;
                },
            };
            let elementaddr = match address.checked_add(offset) {
                Some(a) => a,
                None => {
                    return None;
                },
            };
            let next_index = match component_index.checked_add(dim.len()) {
                Some(n) => n,
                None => {
                    return None;
                },
            };
            lookup_member(arraytype, components, next_index, elementaddr)
        },
        _ => {
            let mut msg = String::from_str("Remaining portion \"");
            msg.append(join_components(components, component_index, components.len()).as_str());
            msg.append("\" of \"");
            msg.append(join_components(components, 0, components.len()).as_str());
            msg.append("\" could not be matched");
            assert(comps.subrange(0, comps.len() as int) =~= comps);
            assert(msg@ =~= unmatched_message(comps, component_index as int));
            Some(Err(msg))
        },
    }
}


/// The address and type that the components of a symbol name from
/// `component_index` on lead to (see `member_lookup`), for inputs on which
/// the lookup does not fail (see `lookup_member`, which gives `None` there).
pub fn find_membertype<'a>(
    typeinfo: &'a TypeInfo,
    components: &[&str],
    component_index: usize,
    address: u64,
) -> (r: Result<(u64, &'a TypeInfo), String>)
    requires
        member_lookup(*typeinfo, components.deep_view(), component_index as int, address) is Some,
    ensures
        match member_lookup(*typeinfo, components.deep_view(), component_index as int, address) {
            Some(Ok((a, t))) => r matches Ok((ra, rt)) && ra == a && *rt == t,
            Some(Err(m)) => r matches Err(rm) && rm@ == m,
            None => false,
        },
{
    match lookup_member(typeinfo, components, component_index, address) {
        Some(r) => r,
        None => Err(String::new()),
    }
}

/// The first component of a symbol name is the start of the name.
proof fn lemma_first_component_prefix(s: Seq<char>)
    ensures
        symbol_components(s).len() >= 1,
        symbol_components(s)[0].len() <= s.len(),
        symbol_components(s)[0] == s.subrange(0, symbol_components(s)[0].len() as int),
{
    let n = s.len() as int;
    lemma_first_char_from(s, '.', 0, n);
    let e = first_char_from(s, '.', 0, n);
    let end = if 0 <= e < n {
        e
    } else {
        n
    };
    lemma_first_char_from(s, '[', 0, end);
    let parts = component_parts(s, 0, end);
    assert(parts.len() >= 1 && parts[0] == s.subrange(0, parts[0].len() as int));
    if 0 <= e < n {
        assert(components_from(s, 0) == parts + components_from(s, e + 1));
        assert((parts + components_from(s, e + 1))[0] == parts[0]);
    }
}

/// The index of the first entry named `name`, from `i` on.
pub open spec fn first_named<V>(s: Seq<(String, V)>, name: Seq<char>, i: int) -> Option<int>
    decreases s.len() - i,
{
    if i < 0 || i >= s.len() {
        None
    } else if s[i].0@ == name {
        Some(i)
    } else {
        first_named(s, name, i + 1)
    }
}

proof fn lemma_first_named<V>(s: Seq<(String, V)>, name: Seq<char>, i: int)
    ensures
        first_named(s, name, i) matches Some(j) ==> i <= j < s.len() && s[j].0@ == name,
    decreases s.len() - i,
{
    if 0 <= i < s.len() && s[i].0@ != name {
        lemma_first_named(s, name, i + 1);
    }
}

/// The index of the first entry named `name`.
fn first_named_index<V>(entries: &Vec<(String, V)>, name: &str) -> (r: Option<usize>)
    ensures
        match r {
            Some(j) => first_named(entries@, name@, 0) == Some(j as int),
            None => first_named(entries@, name@, 0) is None,
        },
{
    let mut i: usize = 0;
    while i < entries.len()
        invariant
            i <= entries@.len(),
            first_named(entries@, name@, 0) == first_named(entries@, name@, i as int),
        decreases entries@.len() - i,
    {
        if str_eq(entries[i].0.as_str(), name) {
            return Some(i);
        }
        i += 1;
    }
    None
}

/// The message for a variable name that the debug information lacks.
pub open spec fn missing_symbol_message(name: Seq<char>) -> Seq<char> {
    "Symbol \""@ + name + "\" does not exist"@
}

/// What the components of a symbol name find in the debug information: the
/// variable that the first component names (the first one read under that
/// name), then its parts as `member_lookup` finds them; a variable whose
/// type is not in the table of types counts as of `default_type`, with no
/// parts. `None` where the lookup panics or overflows.
pub open spec fn symbol_lookup(dd: DebugData, comps: Seq<Seq<char>>, default_type: TypeInfo) -> Option<
    Result<(u64, TypeInfo), Seq<char>>,
> {
    match first_named(dd.variables@, comps[0], 0) {
        Some(j) => if dd.variables@[j].1@.len() > 0 {
            let v = dd.variables@[j].1@[0];
            if dd.types@.contains_key(v.typeref) {
                member_lookup(dd.types@[v.typeref], comps, 1, v.address)
            } else if comps.len() == 1 {
                Some(Ok((v.address, default_type)))
            } else {
                Some(Err(unmatched_message(comps, 1)))
            }
        } else {
            Some(Err(missing_symbol_message(comps[0])))
        },
        None => Some(Err(missing_symbol_message(comps[0]))),
    }
}

/// The address and type of the part of a global variable that the
/// components of a symbol name give (see `symbol_lookup`), or the message
/// that says which component was not found; `None` where the lookup fails
/// (see `lookup_member`).
pub fn lookup_components<'a>(
    components: &[&str],
    debug_data: &'a DebugData,
    default_type: &'a TypeInfo,
) -> (r: Option<Result<(u64, &'a TypeInfo), String>>)
    requires
        components.len() >= 1,
    ensures
        match symbol_lookup(*debug_data, components.deep_view(), *default_type) {
            Some(Ok((a, t))) => r matches Some(Ok((ra, rt))) && ra == a && *rt == t,
            Some(Err(m)) => r matches Some(Err(rm)) && rm@ == m,
            None => r is None,
        },
{
    let ghost comps = components.deep_view();
    match first_named_index(&debug_data.variables, components[0]) {
        Some(j) => {
            proof {
                lemma_first_named(debug_data.variables@, comps[0], 0);
            }
            if debug_data.variables[j].1.len() > 0 {
                let varinfo = &debug_data.variables[j].1[0];
                match debug_data.types.get(&varinfo.typeref) {
                    Some(vartype) => {
                        return lookup_member(vartype, components, 1, varinfo.address);
                    },
                    None => {
                        if components.len() == 1 {
                            return Some(Ok((varinfo.address, default_type)));
                        }
                        let mut msg = String::from_str("Remaining portion \"");
                        msg.append(join_components(components, 1, components.len()).as_str());
                        msg.append("\" of \"");
                        msg.append(join_components(components, 0, components.len()).as_str());
                        msg.append("\" could not be matched");
                        assert(comps.subrange(0, comps.len() as int) =~= comps);
                        assert(msg@ =~= unmatched_message(comps, 1));
                        return Some(Err(msg));
                    },
                }
            }
        },
        None => {},
    }
    let mut msg = String::from_str("Symbol \"");
    msg.append(components[0]);
    msg.append("\" does not exist");
    assert(msg@ =~= missing_symbol_message(comps[0]));
    Some(Err(msg))
}

/// The address and type of the part of a global variable that the
/// components of a symbol name give (see `symbol_lookup`), or the message
/// that says which component was not found, for inputs on which the lookup
/// does not fail (see `lookup_components`, which gives `None` there).
pub fn find_symbol_from_components<'a>(
    components: &[&str],
    debug_data: &'a DebugData,
    default_type: &'a TypeInfo,
) -> (r: Result<(u64, &'a TypeInfo), String>)
    requires
        components.len() >= 1,
        symbol_lookup(*debug_data, components.deep_view(), *default_type) is Some,
    ensures
        match symbol_lookup(*debug_data, components.deep_view(), *default_type) {
            Some(Ok((a, t))) => r matches Ok((ra, rt)) && ra == a && *rt == t,
            Some(Err(m)) => r matches Err(rm) && rm@ == m,
            None => false,
        },
{
    match lookup_components(components, debug_data, default_type) {
        Some(r) => r,
        None => Err(String::new()),
    }
}

/// What looking up a symbol name gives: the name, the address and the type
/// that its components find (`symbol_lookup`); where they find nothing and
/// the first component is the demangled name of a C++ variable, the same
/// lookup with the mangled name in its place, and then the name with the
/// mangled one at its start; else the message of the first lookup. `None`
/// where a lookup panics or overflows.
pub open spec fn symbol_search(dd: DebugData, name: Seq<char>, default_type: TypeInfo) -> Option<
    Result<(Seq<char>, u64, TypeInfo), Seq<char>>,
> {
    let comps = symbol_components(name);
    match symbol_lookup(dd, comps, default_type) {
        None => None,
        Some(Ok((a, t))) => Some(Ok((name, a, t))),
        Some(Err(m)) => match first_named(dd.demangled_names@, comps[0], 0) {
            Some(k) => {
                let mangled = dd.demangled_names@[k].1@;
                match symbol_lookup(dd, comps.update(0, mangled), default_type) {
                    None => None,
                    Some(Ok((a, t))) => Some(Ok((mangled + name.subrange(comps[0].len() as int, name.len() as int), a, t))),
                    Some(Err(_)) => Some(Err(m)),
                }
            },
            None => Some(Err(m)),
        },
    }
}

/// Finds a symbol name in the debug information (see `symbol_search`): the
/// name under which it was found, its address and its type; `None` where
/// the lookup fails (a lone `_` index, an overflowing address or element
/// number).
pub fn try_find_symbol<'a>(varname: &str, debug_data: &'a DebugData, default_type: &'a TypeInfo) -> (r: Option<Result<
    (String, u64, &'a TypeInfo),
    String,
>>)
    ensures
        match symbol_search(*debug_data, varname@, *default_type) {
            Some(Ok((n, a, t))) => r matches Some(Ok((rn, ra, rt))) && rn@ == n && ra == a && *rt == t,
            Some(Err(m)) => r matches Some(Err(rm)) && rm@ == m,
            None => r is None,
        },
{
    let ghost name = varname@;
    let mut components = split_symbol_components(varname);
    proof {
        lemma_first_component_prefix(name);
    }
    let ghost comps = components.deep_view();
    assert(comps == symbol_components(name));
    match lookup_components(components.as_slice(), debug_data, default_type)? {
        Ok((address, typeinfo)) => Some(Ok((String::from_str(varname), address, typeinfo))),
        Err(find_err) => {
            let first = components[0];
            match first_named_index(&debug_data.demangled_names, first) {
                Some(k) => {
                    proof {
                        lemma_first_named(debug_data.demangled_names@, comps[0], 0);
                    }
                    let mangled = debug_data.demangled_names[k].1.as_str();
                    components.set(0, mangled);
                    assert(components.deep_view() =~= comps.update(0, mangled@));
                    match lookup_components(components.as_slice(), debug_data, default_type)? {
                        Ok((address, typeinfo)) => {
                            let mut mangled_varname = String::from_str(mangled);
                            mangled_varname.append(varname.substring_char(first.unicode_len(), varname.unicode_len()));
                            Some(Ok((mangled_varname, address, typeinfo)))
                        },
                        Err(_) => Some(Err(find_err)),
                    }
                },
                None => Some(Err(find_err)),
            }
        },
    }
}

/// Finds a symbol name in the debug information (see `symbol_search`): the
/// name under which it was found, its address and its type; for inputs on
/// which the lookup does not fail (see `try_find_symbol`, which gives
/// `None` there).
pub fn find_symbol<'a>(varname: &str, debug_data: &'a DebugData, default_type: &'a TypeInfo) -> (r: Result<
    (String, u64, &'a TypeInfo),
    String,
>)
    requires
        symbol_search(*debug_data, varname@, *default_type) is Some,
    ensures
        match symbol_search(*debug_data, varname@, *default_type) {
            Some(Ok((n, a, t))) => r matches Ok((rn, ra, rt)) && rn@ == n && ra == a && *rt == t,
            Some(Err(m)) => r matches Err(rm) && rm@ == m,
            None => false,
        },
{
    match try_find_symbol(varname, debug_data, default_type) {
        Some(r) => r,
        None => Err(String::new()),
    }
}

} // verus!
