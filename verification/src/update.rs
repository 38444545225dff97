//! The decisions of an address update: which symbol of the debug
//! information an item of the module stands for, and what becomes of the
//! items whose symbol is found and of those whose symbol is not.

use vstd::prelude::*;
use crate::debuginfo::{DebugData, TypeInfo};
use crate::group::texts;
use crate::symbol::{symbol_search, try_find_symbol};

verus! {

/// Where a symbol is found: its address and type, if the lookup gives them.
pub open spec fn found_at(dd: DebugData, name: Seq<char>, default_type: TypeInfo) -> Option<(u64, TypeInfo)> {
    match symbol_search(dd, name, default_type) {
        Some(Ok((_, a, t))) => Some((a, t)),
        _ => None,
    }
}

/// The symbol of an item and where it is found: first the symbol of its
/// `SYMBOL_LINK`; where that is not found, the symbol of a CANape
/// `LINK_MAP` in its `IF_DATA`; where neither is found and the item has no
/// `SYMBOL_LINK`, its own name. The name given is the last one tried.
pub open spec fn symbol_info(
    name: Seq<char>,
    link: Option<Seq<char>>,
    ifdata_symbol: Option<Seq<char>>,
    dd: DebugData,
    default_type: TypeInfo,
) -> (Option<(u64, TypeInfo)>, Seq<char>) {
    let first = match link {
        Some(l) => (found_at(dd, l, default_type), l),
        None => (None, Seq::<char>::empty()),
    };
    let second = if first.0 is None {
        match ifdata_symbol {
            Some(s) => (found_at(dd, s, default_type), s),
            None => first,
        }
    } else {
        first
    };
    if second.0 is None && link is None {
        (found_at(dd, name, default_type), name)
    } else {
        second
    }
}

/// Where an item's `SYMBOL_LINK` names a symbol that is found, the item
/// stands for that symbol. Where it has no `SYMBOL_LINK`, or its symbol is
/// not found, and the symbol of its `IF_DATA` is found, it stands for that
/// one. Where it has no `SYMBOL_LINK` and no `IF_DATA` symbol is found, it
/// stands for its own name; an item with a `SYMBOL_LINK` never falls back to
/// its name.
pub proof fn law_symbol_choice(
    name: Seq<char>,
    link: Option<Seq<char>>,
    ifdata_symbol: Option<Seq<char>>,
    dd: DebugData,
    default_type: TypeInfo,
)
    ensures
        link is Some && found_at(dd, link.unwrap(), default_type) is Some ==> symbol_info(
            name,
            link,
            ifdata_symbol,
            dd,
            default_type,
        ) == (found_at(dd, link.unwrap(), default_type), link.unwrap()),
        (link is None || found_at(dd, link.unwrap(), default_type) is None) && ifdata_symbol is Some && found_at(
            dd,
            ifdata_symbol.unwrap(),
            default_type,
        ) is Some ==> symbol_info(name, link, ifdata_symbol, dd, default_type) == (
            found_at(dd, ifdata_symbol.unwrap(), default_type),
            ifdata_symbol.unwrap(),
        ),
        link is None && (ifdata_symbol is None || found_at(dd, ifdata_symbol.unwrap(), default_type) is None)
            ==> symbol_info(name, link, ifdata_symbol, dd, default_type).0 == found_at(dd, name, default_type),
        link is Some && found_at(dd, link.unwrap(), default_type) is None && (ifdata_symbol is None || found_at(
            dd,
            ifdata_symbol.unwrap(),
            default_type,
        ) is None) ==> symbol_info(name, link, ifdata_symbol, dd, default_type).0 is None,
{
}

fn lookup_address<'a>(name: &str, dd: &'a DebugData, default_type: &'a TypeInfo) -> (r: Option<(u64, &'a TypeInfo)>)
    ensures
        match r {
            Some((a, t)) => found_at(*dd, name@, *default_type) == Some((a, *t)),
            None => found_at(*dd, name@, *default_type) is None,
        },
{
    match try_find_symbol(name, dd, default_type) {
        Some(Ok((_, a, t))) => Some((a, t)),
        _ => None,
    }
}

/// The symbol an item stands for and where it is found (see `symbol_info`);
/// `ifdata_symbol` is the symbol of a CANape `LINK_MAP` in the item's
/// `IF_DATA`, where it has one.
pub fn get_symbol_info<'a>(
    name: &str,
    symbol_link: &Option<String>,
    ifdata_symbol: &Option<String>,
    debug_data: &'a DebugData,
    default_type: &'a TypeInfo,
) -> (r: (Option<(u64, &'a TypeInfo)>, String))
    ensures
        ({
            let (info, n) = symbol_info(
                name@,
                match symbol_link {
                    Some(l) => Some(l@),
                    None => None,
                },
                match ifdata_symbol {
                    Some(s) => Some(s@),
                    None => None,
                },
                *debug_data,
                *default_type,
            );
            &&& r.1@ == n
            &&& match r.0 {
                Some((a, t)) => info == Some((a, *t)),
                None => info is None,
            }
        }),
{
    let mut symbol_info: Option<(u64, &'a TypeInfo)> = None;
    let mut symbol_name = String::new();
    if let Some(link) = symbol_link {
        symbol_name = link.clone();
        symbol_info = lookup_address(link.as_str(), debug_data, default_type);
    }
    if symbol_info.is_none() {
        if let Some(s) = ifdata_symbol {
            symbol_name = s.clone();
            symbol_info = lookup_address(s.as_str(), debug_data, default_type);
        }
    }
    if symbol_info.is_none() && symbol_link.is_none() {
        symbol_name = String::from_str(name);
        symbol_info = lookup_address(name, debug_data, default_type);
    }
    (symbol_info, symbol_name)
}

/// What an item of the module needs for the update: its name, the symbol of
/// its `SYMBOL_LINK`, and the symbol of a CANape `LINK_MAP` in its
/// `IF_DATA`.
pub struct UpdateItem {
    pub name: String,
    pub symbol_link: Option<String>,
    pub ifdata_symbol: Option<String>,
}

/// What becomes of an item: it is updated from its symbol (name, address,
/// type); kept with its address set to zero; or removed.
pub enum UpdateOutcome<'a> {
    Updated { symbol_name: String, address: u64, typeinfo: &'a TypeInfo },
    Zeroed,
    Removed,
}

/// Whether `o` is what becomes of `item`: updated where its symbol is
/// found, else zeroed where unknown items are preserved, else removed.
pub open spec fn outcome_of(
    o: UpdateOutcome,
    item: UpdateItem,
    preserve_unknown: bool,
    dd: DebugData,
    default_type: TypeInfo,
) -> bool {
    let (info, n) = symbol_info(
        item.name@,
        match item.symbol_link {
            Some(l) => Some(l@),
            None => None,
        },
        match item.ifdata_symbol {
            Some(s) => Some(s@),
            None => None,
        },
        dd,
        default_type,
    );
    match info {
        Some((a, t)) => o matches UpdateOutcome::Updated { symbol_name, address, typeinfo } && symbol_name@ == n
            && address == a && *typeinfo == t,
        None => if preserve_unknown {
            o is Zeroed
        } else {
            o is Removed
        },
    }
}

/// The names of the items that the outcomes remove.
pub open spec fn removed_names(items: Seq<UpdateItem>, outcomes: Seq<UpdateOutcome>) -> Seq<Seq<char>>
    decreases items.len(),
{
    if items.len() == 0 || outcomes.len() != items.len() {
        seq![]
    } else {
        removed_names(items.drop_last(), outcomes.drop_last()) + if outcomes.last() is Removed {
            seq![items.last().name@]
        } else {
            seq![]
        }
    }
}

/// How many of the outcomes update their item.
pub open spec fn updated_count(outcomes: Seq<UpdateOutcome>) -> nat
    decreases outcomes.len(),
{
    if outcomes.len() == 0 {
        0
    } else {
        updated_count(outcomes.drop_last()) + if outcomes.last() is Updated {
            1nat
        } else {
            0nat
        }
    }
}

/// Decides the update of a list of items of one kind (see `outcome_of`):
/// gives the outcome of each, the names of the removed items in order, and
/// how many items were and were not updated.
pub fn plan_update<'a>(
    items: &[UpdateItem],
    preserve_unknown: bool,
    debug_data: &'a DebugData,
    default_type: &'a TypeInfo,
) -> (r: (Vec<UpdateOutcome<'a>>, Vec<String>, u32, u32))
    requires
        items@.len() <= u32::MAX,
    ensures
        r.0@.len() == items@.len(),
        forall|i: int| 0 <= i < items@.len() ==> outcome_of(
            #[trigger] r.0@[i],
            items@[i],
            preserve_unknown,
            *debug_data,
            *default_type,
        ),
        texts(r.1@) == removed_names(items@, r.0@),
        r.2 == updated_count(r.0@),
        r.2 + r.3 == items@.len(),
{
    let mut outcomes: Vec<UpdateOutcome<'a>> = Vec::new();
    let mut removed: Vec<String> = Vec::new();
    let mut updated: u32 = 0;
    let mut not_updated: u32 = 0;
    let mut i: usize = 0;
    while i < items.len()
        invariant
            i <= items@.len() <= u32::MAX,
            outcomes@.len() == i,
            forall|k: int| 0 <= k < i ==> outcome_of(
                #[trigger] outcomes@[k],
                items@[k],
                preserve_unknown,
                *debug_data,
                *default_type,
            ),
            texts(removed@) == removed_names(items@.subrange(0, i as int), outcomes@),
            updated == updated_count(outcomes@),
            updated + not_updated == i,
        decreases items@.len() - i,
    {
        let item = &items[i];
        let (info, symbol_name) = get_symbol_info(
            item.name.as_str(),
            &item.symbol_link,
            &item.ifdata_symbol,
            debug_data,
            default_type,
        );
        let ghost before = outcomes@;
        let ghost removed_before = removed@;
        let outcome = match info {
            Some((address, typeinfo)) => {
                updated += 1;
                UpdateOutcome::Updated { symbol_name, address, typeinfo }
            },
            None => {
                not_updated += 1;
                if preserve_unknown {
                    UpdateOutcome::Zeroed
                } else {
                    removed.push(item.name.clone());
                    UpdateOutcome::Removed
                }
            },
        };
        outcomes.push(outcome);
        proof {
            let sub = items@.subrange(0, i + 1);
            assert(sub.drop_last() =~= items@.subrange(0, i as int));
            assert(outcomes@.drop_last() =~= before);
            if outcomes@.last() is Removed {
                assert(texts(removed@) =~= texts(removed_before).push(items@[i as int].name@));
            } else {
                assert(texts(removed@) =~= texts(removed_before));
            }
            assert forall|k: int| 0 <= k < i + 1 implies outcome_of(
                #[trigger] outcomes@[k],
                items@[k],
                preserve_unknown,
                *debug_data,
                *default_type,
            ) by {
                if k < i {
                    assert(outcomes@[k] == before[k]);
                }
            }
        }
        i += 1;
    }
    assert(items@.subrange(0, items@.len() as int) =~= items@);
    (outcomes, removed, updated, not_updated)
}

} // verus!
