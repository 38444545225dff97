//! Which variables of the debug information become new measurements and
//! characteristics of a module, under which names, and what is reported of
//! it: the decisions of inserting many items at once.

use vstd::prelude::*;
use crate::debuginfo::{DbgDataType, DebugData, TypeInfo};
use crate::group::{create_or_update_group, group_updated, texts, Group};
use crate::names::{
    characteristic_name_for, make_unique_characteristic_name, make_unique_measurement_name,
    measurement_name_for, text_result, ItemType, NameMap,
};
use crate::creator::definitions::DataType;
use crate::datatype::{a2l_datatype, bitmask_of, get_a2l_datatype, get_bitmask};
use crate::reclayout::{datatype_keyword, datatype_name, layout_views, EntryView, LayoutEntry, LayoutView, RecordLayout};
use crate::search::{insert_requested, is_insert_requested, CompiledRegex};
use crate::symbol::{find_symbol, symbol_search};
use crate::text::{append_radix, decimal_text, radix_text, str_eq};

verus! {

/// What decides the insertion of variables: the names of the module's
/// measurements and characteristics, its maps of item names and of linked
/// symbols, and the address ranges and expressions that request each kind.
pub struct InsertRules {
    pub measurement_names: Seq<String>,
    pub characteristic_names: Seq<String>,
    pub name_map: Map<Seq<char>, ItemType>,
    pub sym_map: Map<Seq<char>, ItemType>,
    pub measurement_ranges: Seq<(u64, u64)>,
    pub characteristic_ranges: Seq<(u64, u64)>,
    pub measurement_regexes: Seq<CompiledRegex>,
    pub characteristic_regexes: Seq<CompiledRegex>,
}

/// What inserting decides: the messages, and the names of the new
/// measurements and characteristics, each with the position of its variable.
pub struct InsertPlan {
    pub log: Seq<Seq<char>>,
    pub measurements: Seq<(Seq<char>, nat)>,
    pub characteristics: Seq<(Seq<char>, nat)>,
}

/// Whether a variable has a type whose members or elements are inserted in
/// its place: arrays, structs, unions and classes.
pub open spec fn is_complex(t: Option<TypeInfo>) -> bool {
    match t {
        Some(ti) => ti.datatype is Array || ti.datatype is Struct || ti.datatype is Union || ti.datatype is Class,
        None => false,
    }
}

/// A text padded with leading zeros to `width` chars.
pub open spec fn zero_padded(t: Seq<char>, width: nat) -> Seq<char> {
    if t.len() < width {
        Seq::new((width - t.len()) as nat, |i: int| '0') + t
    } else {
        t
    }
}

/// The message for an inserted item (its address as `{:08x}`).
pub open spec fn inserted_message(kind_word: Seq<char>, name: Seq<char>, address: u64) -> Seq<char> {
    "Inserted "@ + kind_word + " "@ + name + " (0x"@ + zero_padded(radix_text(address as nat, 16, false), 8)
        + ")"@
}

/// The message for a variable that could not be inserted.
pub open spec fn skipped_message(err: Seq<char>) -> Seq<char> {
    "Skipped: "@ + err
}

/// The names and positions of a list of new items.
pub open spec fn pairs_view(v: Seq<(String, usize)>) -> Seq<(Seq<char>, nat)> {
    v.map_values(|p: (String, usize)| (p.0@, p.1 as nat))
}

/// The names of a list of new items.
pub open spec fn names_of(s: Seq<(Seq<char>, nat)>) -> Seq<Seq<char>> {
    s.map_values(|p: (Seq<char>, nat)| p.0)
}

/// The messages and the list of new items of one kind once a variable is
/// considered for it: nothing happens unless it is requested; then the
/// item's name is logged and listed, or the reason why there is none logged.
pub open spec fn kind_step(
    log: Seq<Seq<char>>,
    list: Seq<(Seq<char>, nat)>,
    requested: bool,
    name: Result<Seq<char>, Seq<char>>,
    kind_word: Seq<char>,
    address: u64,
    idx: nat,
) -> (Seq<Seq<char>>, Seq<(Seq<char>, nat)>) {
    if requested {
        match name {
            Ok(n) => (log.push(inserted_message(kind_word, n, address)), list.push((n, idx))),
            Err(e) => (log.push(skipped_message(e)), list),
        }
    } else {
        (log, list)
    }
}

/// The plan once the variable at position `idx` is considered, first as a
/// measurement, then as a characteristic.
pub open spec fn plan_step(p: InsertPlan, rules: InsertRules, v: (String, Option<TypeInfo>, u64), idx: nat) -> InsertPlan {
    if is_complex(v.1) {
        p
    } else {
        let m = kind_step(
            p.log,
            p.measurements,
            insert_requested(v.2, v.0@, rules.measurement_ranges, rules.measurement_regexes),
            measurement_name_for(rules.measurement_names, rules.sym_map, v.0@, rules.name_map),
            "MEASUREMENT"@,
            v.2,
            idx,
        );
        let c = kind_step(
            m.0,
            p.characteristics,
            insert_requested(v.2, v.0@, rules.characteristic_ranges, rules.characteristic_regexes),
            characteristic_name_for(rules.characteristic_names, rules.sym_map, v.0@, rules.name_map),
            "CHARACTERISTIC"@,
            v.2,
            idx,
        );
        InsertPlan { log: c.0, measurements: m.1, characteristics: c.1 }
    }
}

/// The plan for a list of variables, taken in order. The maps of names and
/// symbols stay as they were before the first insertion.
pub open spec fn insert_plan(vars: Seq<(String, Option<TypeInfo>, u64)>, rules: InsertRules) -> InsertPlan
    decreases vars.len(),
{
    if vars.len() == 0 {
        InsertPlan { log: seq![], measurements: seq![], characteristics: seq![] }
    } else {
        plan_step(insert_plan(vars.drop_last(), rules), rules, vars.last(), (vars.len() - 1) as nat)
    }
}

/// The closing messages: how many measurements and characteristics were
/// inserted, each where there was one.
pub open spec fn count_messages(measurements: nat, characteristics: nat) -> Seq<Seq<char>> {
    (if measurements > 0 {
        seq!["Inserted "@ + decimal_text(measurements) + " MEASUREMENTs"@]
    } else {
        seq![]
    }) + (if characteristics > 0 {
        seq!["Inserted "@ + decimal_text(characteristics) + " CHARACTERISTICs"@]
    } else {
        seq![]
    })
}

/// Whether the symbol map links only to measurements that a list of
/// `count` names holds.
pub open spec fn measurement_links_in(sym_map: Map<Seq<char>, ItemType>, count: nat) -> bool {
    forall|k: Seq<char>| #[trigger] sym_map.contains_key(k) ==> (sym_map[k] matches ItemType::Measurement(idx) ==> idx
        < count)
}

/// Whether the symbol map links only to characteristics that a list of
/// `count` names holds.
pub open spec fn characteristic_links_in(sym_map: Map<Seq<char>, ItemType>, count: nat) -> bool {
    forall|k: Seq<char>| #[trigger] sym_map.contains_key(k) ==> (sym_map[k] matches ItemType::Characteristic(idx) ==> idx
        < count)
}

fn is_complex_exec(t: &Option<TypeInfo>) -> (r: bool)
    ensures
        r == is_complex(*t),
{
    match t {
        Some(ti) => match &ti.datatype {
            DbgDataType::Array { .. } | DbgDataType::Struct { .. } | DbgDataType::Union { .. }
            | DbgDataType::Class { .. } => true,
            _ => false,
        },
        None => false,
    }
}

/// The message for an inserted item.
fn inserted_text(kind_word: &str, name: &str, address: u64) -> (r: String)
    ensures
        r@ == inserted_message(kind_word@, name@, address),
{
    let mut hex = String::new();
    append_radix(&mut hex, address, 16, false);
    let ghost digits = radix_text(address as nat, 16, false);
    assert(hex@ =~= digits);
    let mut msg = String::from_str("Inserted ");
    msg.append(kind_word);
    msg.append(" ");
    msg.append(name);
    msg.append(" (0x");
    let ghost start = msg@;
    let n = hex.as_str().unicode_len();
    let mut k: usize = n;
    while k < 8
        invariant
            n == digits.len(),
            n <= k <= 8 || (n > 8 && k == n),
            msg@ == start + Seq::new((k - n) as nat, |i: int| '0'),
        decreases 8 - k,
    {
        msg.append("0");
        proof {
            reveal_strlit("0");
        }
        assert(msg@ =~= start + Seq::new((k + 1 - n) as nat, |i: int| '0'));
        k += 1;
    }
    msg.append(hex.as_str());
    msg.append(")");
    assert(msg@ =~= inserted_message(kind_word@, name@, address));
    msg
}

/// The message for a variable that could not be inserted.
fn skipped_text(err: &str) -> (r: String)
    ensures
        r@ == skipped_message(err@),
{
    let mut msg = String::from_str("Skipped: ");
    msg.append(err);
    msg
}

/// Considers the variable at position `idx` for one kind: where it is
/// requested, logs and lists its new item, or logs why there is none.
fn consider_kind(
    is_measurement: bool,
    name: &str,
    address: u64,
    idx: usize,
    same_kind_names: &[String],
    name_map: &NameMap,
    sym_map: &NameMap,
    ranges: &[(u64, u64)],
    regexes: &[CompiledRegex],
    log: &mut Vec<String>,
    list: &mut Vec<(String, usize)>,
)
    requires
        name_map.wf(),
        sym_map.wf(),
        is_measurement ==> measurement_links_in(sym_map@, same_kind_names@.len()),
        !is_measurement ==> characteristic_links_in(sym_map@, same_kind_names@.len()),
    ensures
        (texts(final(log)@), pairs_view(final(list)@)) == kind_step(
            texts(old(log)@),
            pairs_view(old(list)@),
            insert_requested(address, name@, ranges@, regexes@),
            if is_measurement {
                measurement_name_for(same_kind_names@, sym_map@, name@, name_map@)
            } else {
                characteristic_name_for(same_kind_names@, sym_map@, name@, name_map@)
            },
            if is_measurement {
                "MEASUREMENT"@
            } else {
                "CHARACTERISTIC"@
            },
            address,
            idx as nat,
        ),
{
    if !is_insert_requested(address, name, ranges, regexes) {
        return;
    }
    let kind_word = if is_measurement {
        "MEASUREMENT"
    } else {
        "CHARACTERISTIC"
    };
    let result = if is_measurement {
        make_unique_measurement_name(same_kind_names, sym_map, name, name_map)
    } else {
        make_unique_characteristic_name(same_kind_names, sym_map, name, name_map)
    };
    match result {
        Ok(item_name) => {
            log.push(inserted_text(kind_word, item_name.as_str(), address));
            list.push((item_name, idx));
            assert(texts(final(log)@) =~= texts(old(log)@).push(inserted_message(kind_word@, item_name@, address)));
            assert(pairs_view(final(list)@) =~= pairs_view(old(list)@).push((item_name@, idx as nat)));
        },
        Err(err) => {
            log.push(skipped_text(err.as_str()));
            assert(texts(final(log)@) =~= texts(old(log)@).push(skipped_message(err@)));
        },
    }
}

/// The names of a list of new items.
fn names_only(list: &Vec<(String, usize)>) -> (r: Vec<String>)
    ensures
        texts(r@) == names_of(pairs_view(list@)),
{
    let mut out: Vec<String> = Vec::new();
    let mut i: usize = 0;
    while i < list.len()
        invariant
            i <= list@.len(),
            texts(out@) == names_of(pairs_view(list@)).subrange(0, i as int),
        decreases list@.len() - i,
    {
        let ghost before = out@;
        let name = list[i].0.clone();
        out.push(name);
        assert(texts(out@) =~= texts(before).push(list@[i as int].0@));
        assert(names_of(pairs_view(list@)).subrange(0, i + 1) =~= names_of(pairs_view(list@)).subrange(
            0,
            i as int,
        ).push(list@[i as int].0@));
        i += 1;
    }
    assert(names_of(pairs_view(list@)).subrange(0, list@.len() as int) =~= names_of(pairs_view(list@)));
    out
}

/// A closing message: "Inserted", the count, and what was counted.
fn count_text(count: usize, what: &str) -> (r: String)
    ensures
        r@ == "Inserted "@ + decimal_text(count as nat) + what@,
{
    let mut msg = String::from_str("Inserted ");
    append_radix(&mut msg, count as u64, 10, false);
    msg.append(what);
    msg
}

/// Decides which of the variables (name, type where one was found, address)
/// become new measurements and characteristics of the module: a variable of
/// an array, struct, union or class type is passed over (its members and
/// elements come as variables of their own); any other is inserted as a
/// measurement where its address lies in a measurement range or an
/// expression for measurements matches its name, and likewise as a
/// characteristic. Each item is named by `make_unique_measurement_name` or
/// `make_unique_characteristic_name` against the module as it was before;
/// each insertion, or the reason it was skipped, is logged. The new items
/// are added to the target group, where one is given, and their numbers are
/// logged at the end. Gives the names of the new measurements and
/// characteristics with the positions of their variables.
pub fn insert_many(
    variables: &[(String, Option<TypeInfo>, u64)],
    measurement_names: &[String],
    characteristic_names: &[String],
    name_map: &NameMap,
    sym_map: &NameMap,
    groups: &mut Vec<Group>,
    measurement_ranges: &[(u64, u64)],
    characteristic_ranges: &[(u64, u64)],
    measurement_regexes: &[CompiledRegex],
    characteristic_regexes: &[CompiledRegex],
    target_group: Option<&str>,
    log_msgs: &mut Vec<String>,
) -> (r: (Vec<(String, usize)>, Vec<(String, usize)>))
    requires
        name_map.wf(),
        sym_map.wf(),
        measurement_links_in(sym_map@, measurement_names@.len()),
        characteristic_links_in(sym_map@, characteristic_names@.len()),
    ensures
        ({
            let plan = insert_plan(
                variables@,
                InsertRules {
                    measurement_names: measurement_names@,
                    characteristic_names: characteristic_names@,
                    name_map: name_map@,
                    sym_map: sym_map@,
                    measurement_ranges: measurement_ranges@,
                    characteristic_ranges: characteristic_ranges@,
                    measurement_regexes: measurement_regexes@,
                    characteristic_regexes: characteristic_regexes@,
                },
            );
            &&& pairs_view(r.0@) == plan.measurements
            &&& pairs_view(r.1@) == plan.characteristics
            &&& texts(final(log_msgs)@) == texts(old(log_msgs)@) + plan.log + count_messages(
                plan.measurements.len(),
                plan.characteristics.len(),
            )
            &&& match target_group {
                Some(g) => group_updated(
                    old(groups)@,
                    final(groups)@,
                    g@,
                    names_of(plan.characteristics),
                    names_of(plan.measurements),
                ),
                None => final(groups)@ == old(groups)@,
            }
        }),
{
    let ghost rules = InsertRules {
        measurement_names: measurement_names@,
        characteristic_names: characteristic_names@,
        name_map: name_map@,
        sym_map: sym_map@,
        measurement_ranges: measurement_ranges@,
        characteristic_ranges: characteristic_ranges@,
        measurement_regexes: measurement_regexes@,
        characteristic_regexes: characteristic_regexes@,
    };
    let ghost start = texts(log_msgs@);
    let mut plan_log: Vec<String> = Vec::new();
    let mut measurements: Vec<(String, usize)> = Vec::new();
    let mut characteristics: Vec<(String, usize)> = Vec::new();
    let mut i: usize = 0;
    assert(variables@.subrange(0, 0) =~= Seq::<(String, Option<TypeInfo>, u64)>::empty());
    assert(texts(plan_log@) =~= Seq::<Seq<char>>::empty());
    assert(pairs_view(measurements@) =~= Seq::<(Seq<char>, nat)>::empty());
    assert(pairs_view(characteristics@) =~= Seq::<(Seq<char>, nat)>::empty());
    while i < variables.len()
        invariant
            i <= variables@.len(),
            name_map.wf(),
            sym_map.wf(),
            measurement_links_in(sym_map@, measurement_names@.len()),
            characteristic_links_in(sym_map@, characteristic_names@.len()),
            rules == (InsertRules {
                measurement_names: measurement_names@,
                characteristic_names: characteristic_names@,
                name_map: name_map@,
                sym_map: sym_map@,
                measurement_ranges: measurement_ranges@,
                characteristic_ranges: characteristic_ranges@,
                measurement_regexes: measurement_regexes@,
                characteristic_regexes: characteristic_regexes@,
            }),
            ({
                let p = insert_plan(variables@.subrange(0, i as int), rules);
                &&& texts(plan_log@) == p.log
                &&& pairs_view(measurements@) == p.measurements
                &&& pairs_view(characteristics@) == p.characteristics
            }),
        decreases variables@.len() - i,
    {
        let ghost sub = variables@.subrange(0, i + 1);
        assert(sub.drop_last() =~= variables@.subrange(0, i as int));
        let v = &variables[i];
        if !is_complex_exec(&v.1) {
            consider_kind(
                true,
                v.0.as_str(),
                v.2,
                i,
                measurement_names,
                name_map,
                sym_map,
                measurement_ranges,
                measurement_regexes,
                &mut plan_log,
                &mut measurements,
            );
            consider_kind(
                false,
                v.0.as_str(),
                v.2,
                i,
                characteristic_names,
                name_map,
                sym_map,
                characteristic_ranges,
                characteristic_regexes,
                &mut plan_log,
                &mut characteristics,
            );
        }
        i += 1;
    }
    assert(variables@.subrange(0, variables@.len() as int) =~= variables@);
    let ghost plan = insert_plan(variables@, rules);

    match target_group {
        Some(g) => {
            let char_names = names_only(&characteristics);
            let meas_names = names_only(&measurements);
            create_or_update_group(groups, g, char_names, meas_names);
        },
        None => {},
    }

    let mut k: usize = 0;
    while k < plan_log.len()
        invariant
            k <= plan_log@.len(),
            texts(log_msgs@) == start + texts(plan_log@).subrange(0, k as int),
        decreases plan_log@.len() - k,
    {
        let ghost before = log_msgs@;
        log_msgs.push(plan_log[k].clone());
        assert(texts(log_msgs@) =~= texts(before).push(plan_log@[k as int]@));
        assert(texts(plan_log@).subrange(0, k + 1) =~= texts(plan_log@).subrange(0, k as int).push(
            plan_log@[k as int]@,
        ));
        k += 1;
    }
    assert(texts(plan_log@).subrange(0, plan_log@.len() as int) =~= texts(plan_log@));
    let ghost logged = texts(log_msgs@);
    if measurements.len() > 0 {
        log_msgs.push(count_text(measurements.len(), " MEASUREMENTs"));
    }
    let ghost after_meas = texts(log_msgs@);
    if characteristics.len() > 0 {
        log_msgs.push(count_text(characteristics.len(), " CHARACTERISTICs"));
    }
    proof {
        assert(measurements@.len() == plan.measurements.len());
        assert(characteristics@.len() == plan.characteristics.len());
        assert(texts(log_msgs@) =~= logged + count_messages(
            plan.measurements.len(),
            plan.characteristics.len(),
        ));
    }
    (measurements, characteristics)
}

/// Where inserting items by their symbol names stands: the messages so
/// far, the map of item names (each new item takes its name in it), and the
/// new items of the kind at hand: name, the symbol found, its address and
/// its type.
pub struct NamingState {
    pub log: Seq<Seq<char>>,
    pub name_map: Map<Seq<char>, ItemType>,
    pub items: Seq<(Seq<char>, Seq<char>, u64, TypeInfo)>,
}

/// Whether a type is a struct, union or class, which no characteristic can
/// be made for.
pub open spec fn is_struct_like(t: TypeInfo) -> bool {
    t.datatype is Struct || t.datatype is Union || t.datatype is Class
}

/// The message for a symbol that could not be added.
pub open spec fn not_found_message(symbol: Seq<char>, err: Seq<char>) -> Seq<char> {
    "Insert skipped: Symbol "@ + symbol + " could not be added: "@ + err
}

/// The message why no characteristic is made for a struct.
pub open spec fn struct_message() -> Seq<char> {
    "Don't know how to add a CHARACTERISTIC for a struct. Please add a struct member instead."@
}

/// The state once the symbol `symbol` is inserted as a measurement (or a
/// characteristic): it is looked up in the debug information, named, and
/// entered into the map of names with its position after the module's own
/// items of its kind and the new ones before it.
pub open spec fn symbol_step(
    st: NamingState,
    dd: DebugData,
    default_type: TypeInfo,
    is_measurement: bool,
    same_kind_names: Seq<String>,
    sym_map: Map<Seq<char>, ItemType>,
    symbol: Seq<char>,
) -> NamingState {
    match symbol_search(dd, symbol, default_type) {
        Some(Ok((true_name, address, typeinfo))) => {
            let name = if is_measurement {
                measurement_name_for(same_kind_names, sym_map, symbol, st.name_map)
            } else {
                characteristic_name_for(same_kind_names, sym_map, symbol, st.name_map)
            };
            match name {
                Ok(n) => if !is_measurement && is_struct_like(typeinfo) {
                    NamingState { log: st.log.push("Insert skipped: "@ + struct_message()), ..st }
                } else {
                    let position = (same_kind_names.len() + st.items.len()) as usize;
                    NamingState {
                        log: st.log.push(
                            if is_measurement {
                                "Inserted MEASUREMENT "@ + n
                            } else {
                                "Inserted CHARACTERISTIC "@ + n
                            },
                        ),
                        name_map: st.name_map.insert(
                            n,
                            if is_measurement {
                                ItemType::Measurement(position)
                            } else {
                                ItemType::Characteristic(position)
                            },
                        ),
                        items: st.items.push((n, true_name, address, typeinfo)),
                    }
                },
                Err(e) => NamingState { log: st.log.push("Insert skipped: "@ + e), ..st },
            }
        },
        Some(Err(m)) => NamingState { log: st.log.push(not_found_message(symbol, m)), ..st },
        None => st,
    }
}

/// The state once the symbols are inserted in order, from `st`.
pub open spec fn symbols_inserted(
    st: NamingState,
    dd: DebugData,
    default_type: TypeInfo,
    is_measurement: bool,
    same_kind_names: Seq<String>,
    sym_map: Map<Seq<char>, ItemType>,
    symbols: Seq<&str>,
) -> NamingState
    decreases symbols.len(),
{
    if symbols.len() == 0 {
        st
    } else {
        symbol_step(
            symbols_inserted(st, dd, default_type, is_measurement, same_kind_names, sym_map, symbols.drop_last()),
            dd,
            default_type,
            is_measurement,
            same_kind_names,
            sym_map,
            symbols.last()@,
        )
    }
}

/// Whether every symbol can be looked up (see `symbol_search`).
pub open spec fn all_searchable(dd: DebugData, symbols: Seq<&str>, default_type: TypeInfo) -> bool {
    forall|k: int| 0 <= k < symbols.len() ==> (#[trigger] symbol_search(dd, symbols[k]@, default_type)) is Some
}

/// The names, symbols, addresses and types of a list of new items.
pub open spec fn found_view<'a>(v: Seq<(String, String, u64, &'a TypeInfo)>) -> Seq<
    (Seq<char>, Seq<char>, u64, TypeInfo),
> {
    v.map_values(|p: (String, String, u64, &'a TypeInfo)| (p.0@, p.1@, p.2, *p.3))
}

/// The names of a list of new items.
pub open spec fn found_names(s: Seq<(Seq<char>, Seq<char>, u64, TypeInfo)>) -> Seq<Seq<char>> {
    s.map_values(|p: (Seq<char>, Seq<char>, u64, TypeInfo)| p.0)
}

fn is_struct_like_exec(t: &TypeInfo) -> (r: bool)
    ensures
        r == is_struct_like(*t),
{
    match &t.datatype {
        DbgDataType::Struct { .. } | DbgDataType::Union { .. } | DbgDataType::Class { .. } => true,
        _ => false,
    }
}

/// Inserts the symbols of one kind in order (see `symbols_inserted`).
fn insert_symbols<'a>(
    debug_data: &'a DebugData,
    default_type: &'a TypeInfo,
    is_measurement: bool,
    symbols: &[&str],
    same_kind_names: &[String],
    name_map: &mut NameMap,
    sym_map: &NameMap,
    log: &mut Vec<String>,
) -> (r: Vec<(String, String, u64, &'a TypeInfo)>)
    requires
        old(name_map).wf(),
        sym_map.wf(),
        is_measurement ==> measurement_links_in(sym_map@, same_kind_names@.len()),
        !is_measurement ==> characteristic_links_in(sym_map@, same_kind_names@.len()),
        all_searchable(*debug_data, symbols@, *default_type),
        same_kind_names@.len() + symbols@.len() <= usize::MAX,
    ensures
        final(name_map).wf(),
        ({
            let st = symbols_inserted(
                NamingState { log: texts(old(log)@), name_map: old(name_map)@, items: seq![] },
                *debug_data,
                *default_type,
                is_measurement,
                same_kind_names@,
                sym_map@,
                symbols@,
            );
            &&& texts(final(log)@) == st.log
            &&& final(name_map)@ == st.name_map
            &&& found_view(r@) == st.items
        }),
{
    let ghost st0 = NamingState { log: texts(log@), name_map: name_map@, items: seq![] };
    let mut items: Vec<(String, String, u64, &'a TypeInfo)> = Vec::new();
    let mut i: usize = 0;
    assert(symbols@.subrange(0, 0) =~= Seq::<&str>::empty());
    assert(found_view(items@) =~= Seq::<(Seq<char>, Seq<char>, u64, TypeInfo)>::empty());
    while i < symbols.len()
        invariant
            i <= symbols@.len(),
            name_map.wf(),
            sym_map.wf(),
            is_measurement ==> measurement_links_in(sym_map@, same_kind_names@.len()),
            !is_measurement ==> characteristic_links_in(sym_map@, same_kind_names@.len()),
            all_searchable(*debug_data, symbols@, *default_type),
            same_kind_names@.len() + symbols@.len() <= usize::MAX,
            items@.len() <= i,
            ({
                let st = symbols_inserted(
                    st0,
                    *debug_data,
                    *default_type,
                    is_measurement,
                    same_kind_names@,
                    sym_map@,
                    symbols@.subrange(0, i as int),
                );
                &&& texts(log@) == st.log
                &&& name_map@ == st.name_map
                &&& found_view(items@) == st.items
            }),
        decreases symbols@.len() - i,
    {
        let ghost sub = symbols@.subrange(0, i + 1);
        assert(sub.drop_last() =~= symbols@.subrange(0, i as int));
        assert(sub.last() == symbols@[i as int]);
        let symbol = symbols[i];
        assert(symbol_search(*debug_data, symbols@[i as int]@, *default_type) is Some);
        let ghost log_before = log@;
        let ghost items_before = items@;
        match find_symbol(symbol, debug_data, default_type) {
            Ok((true_name, address, typeinfo)) => {
                let named = if is_measurement {
                    make_unique_measurement_name(same_kind_names, sym_map, symbol, name_map)
                } else {
                    make_unique_characteristic_name(same_kind_names, sym_map, symbol, name_map)
                };
                match named {
                    Ok(item_name) => {
                        if !is_measurement && is_struct_like_exec(typeinfo) {
                            let mut msg = String::from_str("Insert skipped: ");
                            msg.append(
                                "Don't know how to add a CHARACTERISTIC for a struct. Please add a struct member instead.",
                            );
                            log.push(msg);
                            assert(texts(log@) =~= texts(log_before).push("Insert skipped: "@ + struct_message()));
                        } else {
                            let position = same_kind_names.len() + items.len();
                            let mut msg = if is_measurement {
                                String::from_str("Inserted MEASUREMENT ")
                            } else {
                                String::from_str("Inserted CHARACTERISTIC ")
                            };
                            msg.append(item_name.as_str());
                            log.push(msg);
                            let entry = item_name.clone();
                            if is_measurement {
                                name_map.insert(entry, ItemType::Measurement(position));
                            } else {
                                name_map.insert(entry, ItemType::Characteristic(position));
                            }
                            items.push((item_name, true_name, address, typeinfo));
                            assert(found_view(items@) =~= found_view(items_before).push(
                                (items@.last().0@, true_name@, address, *typeinfo),
                            ));
                            proof {
                                if is_measurement {
                                    assert(texts(log@) =~= texts(log_before).push(
                                        "Inserted MEASUREMENT "@ + items@.last().0@,
                                    ));
                                } else {
                                    assert(texts(log@) =~= texts(log_before).push(
                                        "Inserted CHARACTERISTIC "@ + items@.last().0@,
                                    ));
                                }
                            }
                        }
                    },
                    Err(err) => {
                        let mut msg = String::from_str("Insert skipped: ");
                        msg.append(err.as_str());
                        log.push(msg);
                        assert(texts(log@) =~= texts(log_before).push("Insert skipped: "@ + err@));
                    },
                }
            },
            Err(err) => {
                let mut msg = String::from_str("Insert skipped: Symbol ");
                msg.append(symbol);
                msg.append(" could not be added: ");
                msg.append(err.as_str());
                log.push(msg);
                assert(texts(log@) =~= texts(log_before).push(not_found_message(symbol@, err@)));
            },
        }
        i += 1;
    }
    assert(symbols@.subrange(0, symbols@.len() as int) =~= symbols@);
    items
}

/// The names of a list of new items.
fn found_names_only<'a>(list: &Vec<(String, String, u64, &'a TypeInfo)>) -> (r: Vec<String>)
    ensures
        texts(r@) == found_names(found_view(list@)),
{
    let mut out: Vec<String> = Vec::new();
    let mut i: usize = 0;
    while i < list.len()
        invariant
            i <= list@.len(),
            texts(out@) == found_names(found_view(list@)).subrange(0, i as int),
        decreases list@.len() - i,
    {
        let ghost before = out@;
        let name = list[i].0.clone();
        out.push(name);
        assert(texts(out@) =~= texts(before).push(list@[i as int].0@));
        assert(found_names(found_view(list@)).subrange(0, i + 1) =~= found_names(found_view(list@)).subrange(
            0,
            i as int,
        ).push(list@[i as int].0@));
        i += 1;
    }
    assert(found_names(found_view(list@)).subrange(0, list@.len() as int) =~= found_names(found_view(list@)));
    out
}

/// Inserts measurements for the measurement symbols, then characteristics
/// for the characteristic symbols, each found in the debug information by
/// `find_symbol` and named by `make_unique_measurement_name` or
/// `make_unique_characteristic_name` against the names so far, new items
/// included (no characteristic is made for a struct, union or class). Each
/// insertion, or the reason it was skipped, is logged; the new items are
/// added to the target group, where one is given. Gives the new
/// measurements and characteristics: name, the symbol found, its address
/// and its type.
pub fn insert_items<'a>(
    debug_data: &'a DebugData,
    default_type: &'a TypeInfo,
    measurement_symbols: &[&str],
    characteristic_symbols: &[&str],
    measurement_names: &[String],
    characteristic_names: &[String],
    name_map: NameMap,
    sym_map: &NameMap,
    groups: &mut Vec<Group>,
    target_group: Option<&str>,
    log_msgs: &mut Vec<String>,
) -> (r: (Vec<(String, String, u64, &'a TypeInfo)>, Vec<(String, String, u64, &'a TypeInfo)>))
    requires
        name_map.wf(),
        sym_map.wf(),
        measurement_links_in(sym_map@, measurement_names@.len()),
        characteristic_links_in(sym_map@, characteristic_names@.len()),
        all_searchable(*debug_data, measurement_symbols@, *default_type),
        all_searchable(*debug_data, characteristic_symbols@, *default_type),
        measurement_names@.len() + measurement_symbols@.len() <= usize::MAX,
        characteristic_names@.len() + characteristic_symbols@.len() <= usize::MAX,
    ensures
        ({
            let m = symbols_inserted(
                NamingState { log: texts(old(log_msgs)@), name_map: name_map@, items: seq![] },
                *debug_data,
                *default_type,
                true,
                measurement_names@,
                sym_map@,
                measurement_symbols@,
            );
            let c = symbols_inserted(
                NamingState { log: m.log, name_map: m.name_map, items: seq![] },
                *debug_data,
                *default_type,
                false,
                characteristic_names@,
                sym_map@,
                characteristic_symbols@,
            );
            &&& found_view(r.0@) == m.items
            &&& found_view(r.1@) == c.items
            &&& texts(final(log_msgs)@) == c.log
            &&& match target_group {
                Some(g) => group_updated(
                    old(groups)@,
                    final(groups)@,
                    g@,
                    found_names(c.items),
                    found_names(m.items),
                ),
                None => final(groups)@ == old(groups)@,
            }
        }),
{
    let mut names = name_map;
    let measurements = insert_symbols(
        debug_data,
        default_type,
        true,
        measurement_symbols,
        measurement_names,
        &mut names,
        sym_map,
        log_msgs,
    );
    let characteristics = insert_symbols(
        debug_data,
        default_type,
        false,
        characteristic_symbols,
        characteristic_names,
        &mut names,
        sym_map,
        log_msgs,
    );
    match target_group {
        Some(g) => {
            let char_names = found_names_only(&characteristics);
            let meas_names = found_names_only(&measurements);
            create_or_update_group(groups, g, char_names, meas_names);
        },
        None => {},
    }
    (measurements, characteristics)
}

/// The kind of a new characteristic: a single value, or a block of values.
#[derive(Debug, Clone, Copy, PartialEq, Eq, Structural)]
pub enum CharacteristicKind {
    Value,
    ValBlk,
}

/// A new characteristic, as far as it is made of the symbol and its type
/// (its limits, floating-point values, are not part of it): name,
/// description, kind, address, record layout, conversion, matrix
/// dimensions, bit mask and the symbol it links to.
pub struct CharacteristicModel {
    pub name: String,
    pub long_identifier: String,
    pub kind: CharacteristicKind,
    pub address: u32,
    pub deposit: String,
    pub conversion: String,
    pub matrix_dim: Option<Vec<u16>>,
    pub bit_mask: Option<u64>,
    pub symbol_link: String,
}

/// The name of the record layout of a new characteristic: `__`, the data
/// type's keyword, `_Z`.
pub open spec fn deposit_name(d: DataType) -> Seq<char> {
    "__"@ + datatype_keyword(d) + "_Z"@
}

/// The record layout a new characteristic of data type `d` gets where the
/// module has none of its name: function values at position 1 in row
/// direction and direct addressing, five axes without entries.
pub open spec fn default_layout(d: DataType) -> LayoutView {
    LayoutView {
        name: deposit_name(d),
        fnc_values: Some(EntryView { position: 1, datatype: d, details: seq!["ROW_DIR"@, "DIRECT"@] }),
        axes: Seq::new(5, |i: int| crate::reclayout::AxisView { axis_pts: None, no_axis_pts: None, fix_no_axis_pts: None }),
        others: seq![],
    }
}

/// The matrix dimensions of an array: its first three dimensions, 1 for
/// each that it lacks.
pub open spec fn padded_dims(dim: Seq<u64>) -> Seq<u16> {
    seq![
        dim[0] as u16,
        (if dim.len() > 1 { dim[1] } else { 1 }) as u16,
        (if dim.len() > 2 { dim[2] } else { 1 }) as u16,
    ]
}

/// Whether a new characteristic is the one made for `symbol` at `address`
/// with type `t`: a block of values with padded matrix dimensions for an
/// array, a value otherwise; the enum's type name as conversion for an enum
/// (`NO_COMPU_METHOD` for one without a name, and for all other types); a
/// bit mask for a bit field.
pub open spec fn characteristic_of(
    c: CharacteristicModel,
    name: Seq<char>,
    symbol: Seq<char>,
    true_name: Seq<char>,
    address: u64,
    t: TypeInfo,
) -> bool {
    &&& c.name@ == name
    &&& c.long_identifier@ == "characteristic for "@ + symbol
    &&& c.address == address as u32
    &&& c.deposit@ == deposit_name(a2l_datatype(t))
    &&& c.symbol_link@ == true_name
    &&& c.bit_mask == bitmask_of(t)
    &&& match t.datatype {
        DbgDataType::Array { dim, .. } => {
            &&& c.kind == CharacteristicKind::ValBlk
            &&& c.matrix_dim matches Some(m) && m@ == padded_dims(dim@)
            &&& c.conversion@ == "NO_COMPU_METHOD"@
        },
        DbgDataType::Enum { .. } => {
            &&& c.kind == CharacteristicKind::Value
            &&& c.matrix_dim is None
            &&& c.conversion@ == match t.name {
                Some(n) => n@,
                None => "NO_COMPU_METHOD"@,
            }
        },
        _ => {
            &&& c.kind == CharacteristicKind::Value
            &&& c.matrix_dim is None
            &&& c.conversion@ == "NO_COMPU_METHOD"@
        },
    }
}

fn layout_named(layouts: &Vec<RecordLayout>, name: &str) -> (r: bool)
    ensures
        r == exists|i: int| 0 <= i < layouts@.len() && (#[trigger] layouts@[i]).name@ == name@,
{
    let mut i: usize = 0;
    while i < layouts.len()
        invariant
            i <= layouts@.len(),
            forall|j: int| 0 <= j < i ==> (#[trigger] layouts@[j]).name@ != name@,
        decreases layouts@.len() - i,
    {
        if str_eq(layouts[i].name.as_str(), name) {
            return true;
        }
        i += 1;
    }
    false
}

/// Adds the default record layout of a data type (see `default_layout`) to
/// the layouts unless one of its name is there, and gives its name.
pub fn create_default_record_layout(record_layouts: &mut Vec<RecordLayout>, datatype: DataType) -> (r: String)
    ensures
        r@ == deposit_name(datatype),
        if exists|i: int| 0 <= i < old(record_layouts)@.len() && (#[trigger] old(record_layouts)@[i]).name@ == deposit_name(
            datatype,
        ) {
            final(record_layouts)@ == old(record_layouts)@
        } else {
            layout_views(final(record_layouts)@) == layout_views(old(record_layouts)@).push(default_layout(datatype))
        },
{
    let mut name = String::from_str("__");
    name.append(datatype_name(datatype));
    name.append("_Z");
    if !layout_named(record_layouts, name.as_str()) {
        let details = vec![String::from_str("ROW_DIR"), String::from_str("DIRECT")];
        let mut axes: Vec<crate::reclayout::AxisLayout> = Vec::new();
        let mut k: usize = 0;
        while k < 5
            invariant
                k <= 5,
                axes@.len() == k,
                forall|i: int| 0 <= i < k ==> (#[trigger] axes@[i])@ == (crate::reclayout::AxisView {
                    axis_pts: None,
                    no_axis_pts: None,
                    fix_no_axis_pts: None,
                }),
            decreases 5 - k,
        {
            axes.push(crate::reclayout::AxisLayout { axis_pts: None, no_axis_pts: None, fix_no_axis_pts: None });
            k += 1;
        }
        let layout = RecordLayout {
            name: name.clone(),
            fnc_values: Some(LayoutEntry { position: 1, datatype, details }),
            axes,
            others: Vec::new(),
        };
        proof {
            assert(texts(details@) =~= seq!["ROW_DIR"@, "DIRECT"@]);
            assert(layout@.axes =~= default_layout(datatype).axes);
            assert(texts(layout.others@) =~= Seq::<Seq<char>>::empty());
            assert(layout@ == default_layout(datatype));
        }
        let ghost before = layout_views(record_layouts@);
        record_layouts.push(layout);
        assert(layout_views(record_layouts@) =~= before.push(default_layout(datatype)));
    }
    name
}

/// Makes the characteristic for a symbol of the debug information that has
/// the name `item_name` (see `characteristic_of`), and adds its record layout
/// to the module's layouts unless one of that name is there. No
/// characteristic is made for a struct, union or class.
pub fn characteristic_for_symbol(
    item_name: String,
    characteristic_sym: &str,
    true_name: String,
    address: u64,
    typeinfo: &TypeInfo,
    record_layouts: &mut Vec<RecordLayout>,
) -> (r: Result<CharacteristicModel, String>)
    requires
        typeinfo.datatype matches DbgDataType::Array { dim, .. } ==> dim@.len() > 0,
        typeinfo.datatype matches DbgDataType::Bitfield { bit_offset, bit_size, .. } ==> bit_size < 64 && bit_offset
            < 64,
    ensures
        is_struct_like(*typeinfo) ==> (r matches Err(e) && e@ == struct_message()) && final(record_layouts)@ == old(
            record_layouts,
        )@,
        !is_struct_like(*typeinfo) ==> {
            &&& r matches Ok(c) && characteristic_of(
                c,
                item_name@,
                characteristic_sym@,
                true_name@,
                address,
                *typeinfo,
            )
            &&& if exists|i: int|
                0 <= i < old(record_layouts)@.len() && (#[trigger] old(record_layouts)@[i]).name@ == deposit_name(
                    a2l_datatype(*typeinfo),
                ) {
                final(record_layouts)@ == old(record_layouts)@
            } else {
                layout_views(final(record_layouts)@) == layout_views(old(record_layouts)@).push(
                    default_layout(a2l_datatype(*typeinfo)),
                )
            }
        },
{
    if is_struct_like_exec(typeinfo) {
        return Err(String::from_str(
            "Don't know how to add a CHARACTERISTIC for a struct. Please add a struct member instead.",
        ));
    }
    let datatype = get_a2l_datatype(typeinfo);
    let mut deposit = String::from_str("__");
    deposit.append(datatype_name(datatype));
    deposit.append("_Z");
    let mut long_identifier = String::from_str("characteristic for ");
    long_identifier.append(characteristic_sym);
    let (kind, matrix_dim, conversion) = match &typeinfo.datatype {
        DbgDataType::Array { dim, .. } => {
            let d1: u64 = if dim.len() > 1 {
                dim[1]
            } else {
                1
            };
            let d2: u64 = if dim.len() > 2 {
                dim[2]
            } else {
                1
            };
            let m: Vec<u16> = vec![dim[0] as u16, d1 as u16, d2 as u16];
            assert(m@ =~= padded_dims(dim@));
            (CharacteristicKind::ValBlk, Some(m), String::from_str("NO_COMPU_METHOD"))
        },
        DbgDataType::Enum { .. } => {
            let conv = match &typeinfo.name {
                Some(n) => n.clone(),
                None => String::from_str("NO_COMPU_METHOD"),
            };
            (CharacteristicKind::Value, None, conv)
        },
        _ => (CharacteristicKind::Value, None, String::from_str("NO_COMPU_METHOD")),
    };
    let c = CharacteristicModel {
        name: item_name,
        long_identifier,
        kind,
        address: address as u32,
        deposit,
        conversion,
        matrix_dim,
        bit_mask: get_bitmask(typeinfo),
        symbol_link: true_name,
    };
    let _ = create_default_record_layout(record_layouts, datatype);
    Ok(c)
}

/// No new measurement or characteristic takes a name that an item of the
/// module already has, and each comes from a variable of the list whose
/// type is not an array, struct, union or class.
pub proof fn law_new_items_have_free_names(vars: Seq<(String, Option<TypeInfo>, u64)>, rules: InsertRules)
    ensures
        forall|k: int| 0 <= k < insert_plan(vars, rules).measurements.len() ==> {
            let (n, idx) = #[trigger] insert_plan(vars, rules).measurements[k];
            &&& !rules.name_map.contains_key(n)
            &&& idx < vars.len()
            &&& !is_complex(vars[idx as int].1)
        },
        forall|k: int| 0 <= k < insert_plan(vars, rules).characteristics.len() ==> {
            let (n, idx) = #[trigger] insert_plan(vars, rules).characteristics[k];
            &&& !rules.name_map.contains_key(n)
            &&& idx < vars.len()
            &&& !is_complex(vars[idx as int].1)
        },
    decreases vars.len(),
{
    if vars.len() > 0 {
        let pre = vars.drop_last();
        law_new_items_have_free_names(pre, rules);
        let p = insert_plan(pre, rules);
        let v = vars.last();
        let idx = (vars.len() - 1) as nat;
        assert(forall|j: int| 0 <= j < pre.len() ==> pre[j] == vars[j]);
        if !is_complex(v.1) {
            let m = measurement_name_for(rules.measurement_names, rules.sym_map, v.0@, rules.name_map);
            let c = characteristic_name_for(rules.characteristic_names, rules.sym_map, v.0@, rules.name_map);
            assert(m matches Ok(n) ==> !rules.name_map.contains_key(n));
            assert(c matches Ok(n) ==> !rules.name_map.contains_key(n));
        }
    }
}

/// A variable of an array, struct, union or class type never becomes a new
/// measurement or characteristic itself: only its members or elements,
/// listed as variables of their own, do.
pub proof fn law_no_item_for_compound_variable(vars: Seq<(String, Option<TypeInfo>, u64)>, rules: InsertRules)
    ensures
        forall|k: int| 0 <= k < insert_plan(vars, rules).measurements.len() ==> {
            let idx = (#[trigger] insert_plan(vars, rules).measurements[k]).1;
            vars[idx as int].1 matches Some(t) ==> !(t.datatype is Array || t.datatype is Struct || t.datatype is Union
                || t.datatype is Class)
        },
        forall|k: int| 0 <= k < insert_plan(vars, rules).characteristics.len() ==> {
            let idx = (#[trigger] insert_plan(vars, rules).characteristics[k]).1;
            vars[idx as int].1 matches Some(t) ==> !(t.datatype is Array || t.datatype is Struct || t.datatype is Union
                || t.datatype is Class)
        },
{
    law_new_items_have_free_names(vars, rules);
}

/// Inserting symbols keeps the items and names there were, and each new
/// item takes a name that was not in the map before, and enters it there.
proof fn lemma_symbols_inserted_names(
    st: NamingState,
    dd: DebugData,
    default_type: TypeInfo,
    is_measurement: bool,
    same_kind_names: Seq<String>,
    sym_map: Map<Seq<char>, ItemType>,
    symbols: Seq<&str>,
)
    ensures
        ({
            let r = symbols_inserted(st, dd, default_type, is_measurement, same_kind_names, sym_map, symbols);
            &&& st.items.len() <= r.items.len()
            &&& r.items.subrange(0, st.items.len() as int) == st.items
            &&& forall|k: Seq<char>| st.name_map.contains_key(k) ==> #[trigger] r.name_map.contains_key(k)
            &&& forall|k: int| st.items.len() <= k < r.items.len() ==> {
                &&& !st.name_map.contains_key(#[trigger] r.items[k].0)
                &&& r.name_map.contains_key(r.items[k].0)
            }
            &&& forall|j: int, k: int| st.items.len() <= j < k < r.items.len() ==> #[trigger] r.items[j].0
                != #[trigger] r.items[k].0
        }),
    decreases symbols.len(),
{
    if symbols.len() > 0 {
        let pre = symbols.drop_last();
        lemma_symbols_inserted_names(st, dd, default_type, is_measurement, same_kind_names, sym_map, pre);
        let p = symbols_inserted(st, dd, default_type, is_measurement, same_kind_names, sym_map, pre);
        let r = symbols_inserted(st, dd, default_type, is_measurement, same_kind_names, sym_map, symbols);
        let sym = symbols.last()@;
        let name = if is_measurement {
            measurement_name_for(same_kind_names, sym_map, sym, p.name_map)
        } else {
            characteristic_name_for(same_kind_names, sym_map, sym, p.name_map)
        };
        assert(name matches Ok(n) ==> !p.name_map.contains_key(n));
        assert(r.items.subrange(0, p.items.len() as int) =~= p.items);
        assert(r.items.subrange(0, st.items.len() as int) =~= p.items.subrange(0, st.items.len() as int));
        assert forall|k: int| st.items.len() <= k < r.items.len() implies {
            &&& !st.name_map.contains_key(#[trigger] r.items[k].0)
            &&& r.name_map.contains_key(r.items[k].0)
        } by {
            if k < p.items.len() {
                assert(r.items[k] == p.items[k]);
            }
        }
        assert forall|j: int, k: int| st.items.len() <= j < k < r.items.len() implies #[trigger] r.items[j].0
            != #[trigger] r.items[k].0 by {
            if k < p.items.len() {
                assert(r.items[j] == p.items[j]);
                assert(r.items[k] == p.items[k]);
            } else {
                assert(r.items[j] == p.items[j]);
                assert(p.name_map.contains_key(p.items[j].0));
            }
        }
    }
}

/// The items that inserting by symbol names makes, measurements and
/// characteristics together, have names that differ from each other and
/// from the names the module had.
pub proof fn law_inserted_names_are_new_and_distinct(
    dd: DebugData,
    default_type: TypeInfo,
    measurement_symbols: Seq<&str>,
    characteristic_symbols: Seq<&str>,
    measurement_names: Seq<String>,
    characteristic_names: Seq<String>,
    name_map: Map<Seq<char>, ItemType>,
    sym_map: Map<Seq<char>, ItemType>,
    log: Seq<Seq<char>>,
)
    ensures
        ({
            let m = symbols_inserted(
                NamingState { log: log, name_map: name_map, items: seq![] },
                dd,
                default_type,
                true,
                measurement_names,
                sym_map,
                measurement_symbols,
            );
            let c = symbols_inserted(
                NamingState { log: m.log, name_map: m.name_map, items: seq![] },
                dd,
                default_type,
                false,
                characteristic_names,
                sym_map,
                characteristic_symbols,
            );
            let all = found_names(m.items) + found_names(c.items);
            &&& all.no_duplicates()
            &&& forall|k: int| 0 <= k < all.len() ==> !name_map.contains_key(#[trigger] all[k])
        }),
{
    let st0 = NamingState { log: log, name_map: name_map, items: seq![] };
    lemma_symbols_inserted_names(st0, dd, default_type, true, measurement_names, sym_map, measurement_symbols);
    let m = symbols_inserted(st0, dd, default_type, true, measurement_names, sym_map, measurement_symbols);
    let st1 = NamingState { log: m.log, name_map: m.name_map, items: seq![] };
    lemma_symbols_inserted_names(st1, dd, default_type, false, characteristic_names, sym_map, characteristic_symbols);
    let c = symbols_inserted(st1, dd, default_type, false, characteristic_names, sym_map, characteristic_symbols);
    let all = found_names(m.items) + found_names(c.items);
    let ml = m.items.len() as int;
    assert forall|k: int| 0 <= k < all.len() implies !name_map.contains_key(#[trigger] all[k]) by {
        if k < ml {
            assert(all[k] == m.items[k].0);
        } else {
            assert(all[k] == c.items[k - ml].0);
            if name_map.contains_key(all[k]) {
                assert(m.name_map.contains_key(all[k]));
            }
        }
    }
    assert forall|j: int, k: int| 0 <= j < all.len() && 0 <= k < all.len() && j != k implies all[j] != all[k] by {
        if j < ml && k < ml {
            assert(all[j] == m.items[j].0);
            assert(all[k] == m.items[k].0);
            if j > k {
                assert(m.items[k].0 != m.items[j].0);
            }
        } else if j >= ml && k >= ml {
            assert(all[j] == c.items[j - ml].0);
            assert(all[k] == c.items[k - ml].0);
            if j > k {
                assert(c.items[k - ml].0 != c.items[j - ml].0);
            }
        } else if j < ml {
            assert(all[j] == m.items[j].0);
            assert(all[k] == c.items[k - ml].0);
            assert(m.name_map.contains_key(m.items[j].0));
        } else {
            assert(all[k] == m.items[k].0);
            assert(all[j] == c.items[j - ml].0);
            assert(m.name_map.contains_key(m.items[k].0));
        }
    }
}

} // verus!
