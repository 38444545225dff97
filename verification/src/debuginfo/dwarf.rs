//! Pieces of reading DWARF debug information that decide on plain values:
//! which compilation unit holds an entry, and which name a pointer type
//! gets while the type it points to is still being read.

use vstd::prelude::*;
use crate::names::{entries_map, insert_entry, unique_keys};

verus! {

/// The index of the first unit from `i` on that holds `itemoffset` (its
/// header starts before the item and it ends after it); units are given by
/// the offset and length of each.
pub open spec fn unit_of(units: Seq<(usize, usize)>, itemoffset: usize, i: int) -> Option<int>
    decreases units.len() - i,
{
    if i < 0 || i >= units.len() {
        None
    } else if units[i].0 < itemoffset && units[i].0 + units[i].1 > itemoffset {
        Some(i)
    } else {
        unit_of(units, itemoffset, i + 1)
    }
}

/// The search for the unit of an item runs without an overflow: each unit
/// that starts before the item and is looked at ends within `usize`.
pub open spec fn unit_search_defined(units: Seq<(usize, usize)>, itemoffset: usize, i: int) -> bool
    decreases units.len() - i,
{
    if i < 0 || i >= units.len() {
        true
    } else if units[i].0 < itemoffset {
        units[i].0 + units[i].1 <= usize::MAX && (units[i].0 + units[i].1 > itemoffset
            || unit_search_defined(units, itemoffset, i + 1))
    } else {
        unit_search_defined(units, itemoffset, i + 1)
    }
}

/// The index of the unit that holds the entry at `itemoffset`.
pub fn get_unit(units: &[(usize, usize)], itemoffset: usize) -> (r: Option<usize>)
    requires
        unit_search_defined(units@, itemoffset, 0),
    ensures
        r matches Some(i) ==> unit_of(units@, itemoffset, 0) == Some(i as int),
        r is None ==> unit_of(units@, itemoffset, 0) is None,
{
    let mut idx: usize = 0;
    while idx < units.len()
        invariant
            idx <= units@.len(),
            unit_search_defined(units@, itemoffset, idx as int),
            unit_of(units@, itemoffset, 0) == unit_of(units@, itemoffset, idx as int),
        decreases units@.len() - idx,
    {
        let (unitoffset, length) = units[idx];
        if unitoffset < itemoffset && unitoffset + length > itemoffset {
            return Some(idx);
        }
        idx += 1;
    }
    None
}

/// The DWARF tags (`DW_TAG_*`) of the types that pass the name of the type
/// they refer to on to a pointer to them.
pub const DW_TAG_ARRAY_TYPE: u16 = 0x01;
pub const DW_TAG_POINTER_TYPE: u16 = 0x0f;
pub const DW_TAG_CONST_TYPE: u16 = 0x26;
pub const DW_TAG_VOLATILE_TYPE: u16 = 0x35;

/// A type that is being read: where it is, its name if it has one, and its
/// tag.
pub struct WipItemInfo {
    pub offset: usize,
    pub name: Option<String>,
    pub tag: u16,
}

impl WipItemInfo {
    pub fn new(offset: usize, name: Option<String>, tag: u16) -> (r: Self)
        ensures
            r.offset == offset,
            r.name == name,
            r.tag == tag,
    {
        Self { offset, name, tag }
    }
}

/// Whether a type passes a name on: const, volatile, pointer and array
/// types do.
pub open spec fn passes_name(tag: u16) -> bool {
    tag == DW_TAG_CONST_TYPE || tag == DW_TAG_VOLATILE_TYPE || tag == DW_TAG_POINTER_TYPE || tag
        == DW_TAG_ARRAY_TYPE
}

/// The name for a pointer from the types being read, from `idx` up: the
/// first name found, as long as the types before it pass names on.
pub open spec fn pointer_name(wip: Seq<WipItemInfo>, idx: int) -> Option<String>
    decreases wip.len() - idx,
{
    if idx < 0 || idx >= wip.len() {
        None
    } else if wip[idx].name is Some {
        wip[idx].name
    } else if !passes_name(wip[idx].tag) {
        None
    } else {
        pointer_name(wip, idx + 1)
    }
}

/// A name for a pointer type whose target is still being read: data
/// structures can point to themselves, so the name is recovered from the
/// types being read (see `pointer_name`).
pub fn get_pointer_name(wip_items: &Vec<WipItemInfo>, idx: usize) -> (r: Option<String>)
    ensures
        r.deep_view() == pointer_name(wip_items@, idx as int).deep_view(),
{
    let mut nameidx = idx;
    while nameidx < wip_items.len()
        invariant
            idx <= nameidx,
            pointer_name(wip_items@, idx as int) == pointer_name(wip_items@, nameidx as int),
        decreases wip_items@.len() - nameidx,
    {
        if wip_items[nameidx].name.is_some() {
            return wip_items[nameidx].name.clone();
        }
        let tag = wip_items[nameidx].tag;
        if !(tag == DW_TAG_CONST_TYPE || tag == DW_TAG_VOLATILE_TYPE || tag == DW_TAG_POINTER_TYPE
            || tag == DW_TAG_ARRAY_TYPE) {
            return None;
        }
        nameidx += 1;
    }
    None
}

/// The demangled form of a C++ symbol name, without function parameters
/// and return type, where `cpp_demangle` can parse and demangle it.
pub uninterp spec fn cpp_demangled(name: Seq<char>) -> Option<Seq<char>>;

/// `cpp_demangle::Symbol::new` and `Symbol::demangle` with the options
/// `DemangleOptions::new().no_params().no_return_type()`: the demangled
/// name, or `None` where the name is no mangled symbol or cannot be
/// demangled.
#[verifier::external_body]
fn demangle_symbol(name: &str) -> (r: Option<String>)
    ensures
        r.deep_view() == cpp_demangled(name@),
{
    let options = cpp_demangle::DemangleOptions::new().no_params().no_return_type();
    match cpp_demangle::Symbol::new(name) {
        Ok(symbol) => symbol.demangle(&options).ok(),
        Err(_) => None,
    }
}

/// Whether `s` starts with `prefix`.
pub open spec fn starts_with_chars(s: Seq<char>, prefix: Seq<char>) -> bool {
    prefix.len() <= s.len() && s.subrange(0, prefix.len() as int) == prefix
}

/// A demangled name that is useful as a variable name: it holds no space
/// and is no vtable (names like "typeinfo for std::type_info" or
/// "{vtable(std::type_info)}" are not).
pub open spec fn useful_demangled(d: Seq<char>) -> bool {
    !d.contains(' ') && !starts_with_chars(d, "{vtable"@)
}

/// The map from demangled to mangled names of the variables: only names
/// that start with `_Z` (variables in classes and namespaces) are demangled,
/// since the demangler also reads some short plain names; a later name
/// replaces an earlier one with the same demangled form.
pub open spec fn demangled_names_map(input: Seq<String>) -> Map<Seq<char>, String>
    decreases input.len(),
{
    if input.len() == 0 {
        Map::empty()
    } else {
        let m = demangled_names_map(input.drop_last());
        let name = input.last();
        if starts_with_chars(name@, "_Z"@) {
            match cpp_demangled(name@) {
                Some(d) => if useful_demangled(d) {
                    m.insert(d, name)
                } else {
                    m
                },
                None => m,
            }
        } else {
            m
        }
    }
}

fn starts_with_text(s: &str, prefix: &str) -> (r: bool)
    ensures
        r == starts_with_chars(s@, prefix@),
{
    let n = s.unicode_len();
    let m = prefix.unicode_len();
    if m > n {
        return false;
    }
    let mut i: usize = 0;
    while i < m
        invariant
            m <= n,
            n == s@.len(),
            m == prefix@.len(),
            i <= m,
            forall|j: int| 0 <= j < i ==> s@[j] == prefix@[j],
        decreases m - i,
    {
        if s.get_char(i) != prefix.get_char(i) {
            assert(s@.subrange(0, m as int)[i as int] != prefix@[i as int]);
            return false;
        }
        i += 1;
    }
    assert(s@.subrange(0, m as int) =~= prefix@);
    true
}

fn contains_char(s: &str, c: char) -> (r: bool)
    ensures
        r == s@.contains(c),
{
    let n = s.unicode_len();
    let mut i: usize = 0;
    while i < n
        invariant
            n == s@.len(),
            i <= n,
            forall|j: int| 0 <= j < i ==> s@[j] != c,
        decreases n - i,
    {
        if s.get_char(i) == c {
            assert(s@[i as int] == c);
            return true;
        }
        i += 1;
    }
    false
}

/// The demangled names of C++ variables, each with its mangled name (see
/// `demangled_names_map`); no demangled name occurs twice.
pub fn demangle_cpp_varnames(input: &[String]) -> (r: Vec<(String, String)>)
    ensures
        unique_keys(r@),
        entries_map(r@) == demangled_names_map(input@),
{
    let mut demangled_symbols: Vec<(String, String)> = Vec::new();
    let z = "_Z";
    let vtable = "{vtable";
    let mut i: usize = 0;
    while i < input.len()
        invariant
            i <= input@.len(),
            z@ == "_Z"@,
            vtable@ == "{vtable"@,
            unique_keys(demangled_symbols@),
            entries_map(demangled_symbols@) == demangled_names_map(input@.subrange(0, i as int)),
        decreases input@.len() - i,
    {
        let varname = &input[i];
        proof {
            let sub = input@.subrange(0, i + 1);
            assert(sub.drop_last() =~= input@.subrange(0, i as int));
            assert(sub.last() == input@[i as int]);
        }
        if starts_with_text(varname.as_str(), z) {
            if let Some(demangled) = demangle_symbol(varname.as_str()) {
                if !contains_char(demangled.as_str(), ' ') && !starts_with_text(demangled.as_str(), vtable) {
                    insert_entry(&mut demangled_symbols, demangled, varname.clone());
                }
            }
        }
        i += 1;
    }
    assert(input@.subrange(0, input@.len() as int) =~= input@);
    demangled_symbols
}

} // verus!
