//! The names of the items of an A2L module and the symbols they link to,
//! and the choice of a unique name for a new measurement or characteristic.

use vstd::prelude::*;
use crate::text::{append_radix, decimal_text, str_eq};

verus! {

/// The kind of an item of a module; measurements and characteristics with
/// their position in the module's list.
#[derive(Debug, Clone, Copy, PartialEq, Eq, Structural)]
pub enum ItemType {
    Measurement(usize),
    Characteristic(usize),
    Instance,
    Blob,
    AxisPts,
}

/// The kinds of item lists of a module.
#[derive(Debug, Clone, Copy, PartialEq, Eq, Structural)]
pub enum ItemKind {
    Characteristic,
    Measurement,
    Instance,
    Blob,
    AxisPts,
}

/// The item type of the item at `idx` of a list of the given kind.
pub open spec fn item_type_of(kind: ItemKind, idx: int) -> ItemType {
    match kind {
        ItemKind::Characteristic => ItemType::Characteristic(idx as usize),
        ItemKind::Measurement => ItemType::Measurement(idx as usize),
        ItemKind::Instance => ItemType::Instance,
        ItemKind::Blob => ItemType::Blob,
        ItemKind::AxisPts => ItemType::AxisPts,
    }
}

/// The map that a list of entries makes when they are inserted in order.
pub open spec fn entries_map<V>(s: Seq<(String, V)>) -> Map<Seq<char>, V>
    decreases s.len(),
{
    if s.len() == 0 {
        Map::empty()
    } else {
        entries_map(s.drop_last()).insert(s.last().0@, s.last().1)
    }
}

/// No name occurs twice among the entries.
pub open spec fn unique_keys<V>(s: Seq<(String, V)>) -> bool {
    forall|i: int, j: int| 0 <= i < j < s.len() ==> s[i].0@ != s[j].0@
}

proof fn lemma_entries_map<V>(s: Seq<(String, V)>)
    requires
        unique_keys(s),
    ensures
        forall|k: Seq<char>| entries_map(s).contains_key(k) <==> exists|j: int| 0 <= j < s.len() && s[j].0@ == k,
        forall|j: int| 0 <= j < s.len() ==> entries_map(s)[#[trigger] s[j].0@] == s[j].1,
    decreases s.len(),
{
    if s.len() > 0 {
        let pre = s.drop_last();
        assert(unique_keys(pre)) by {
            assert forall|i: int, j: int| 0 <= i < j < pre.len() implies pre[i].0@ != pre[j].0@ by {
                assert(pre[i] == s[i] && pre[j] == s[j]);
            }
        }
        lemma_entries_map(pre);
        assert(entries_map(s) == entries_map(pre).insert(s.last().0@, s.last().1));
        assert forall|k: Seq<char>| entries_map(s).contains_key(k) <==> exists|j: int| 0 <= j < s.len() && s[j].0@ == k by {
            if entries_map(s).contains_key(k) {
                if k == s.last().0@ {
                    assert(s[s.len() - 1].0@ == k);
                } else {
                    assert(entries_map(pre).contains_key(k));
                    let j = choose|j: int| 0 <= j < pre.len() && pre[j].0@ == k;
                    assert(0 <= j < pre.len() && pre[j].0@ == k);
                    assert(s[j] == pre[j]);
                }
            }
            if exists|j: int| 0 <= j < s.len() && s[j].0@ == k {
                let j = choose|j: int| 0 <= j < s.len() && s[j].0@ == k;
                if j < s.len() - 1 {
                    assert(pre[j] == s[j]);
                }
            }
        }
        assert forall|j: int| 0 <= j < s.len() implies entries_map(s)[#[trigger] s[j].0@] == s[j].1 by {
            if j < s.len() - 1 {
                assert(pre[j] == s[j]);
                assert(s[j].0@ != s[s.len() - 1].0@);
            }
        }
    }
}

/// The index of the entry of a name.
pub fn find_entry<V>(entries: &Vec<(String, V)>, name: &str) -> (r: Option<usize>)
    ensures
        r matches Some(j) ==> j < entries@.len() && entries@[j as int].0@ == name@,
        r is None ==> forall|j: int| 0 <= j < entries@.len() ==> entries@[j].0@ != name@,
{
    let mut i: usize = 0;
    while i < entries.len()
        invariant
            i <= entries@.len(),
            forall|j: int| 0 <= j < i ==> entries@[j].0@ != name@,
        decreases entries@.len() - i,
    {
        if str_eq(entries[i].0.as_str(), name) {
            return Some(i);
        }
        i += 1;
    }
    None
}

/// Sets the value of a name in a list of entries, in place of one it had
/// or as a new last entry.
pub fn insert_entry<V>(entries: &mut Vec<(String, V)>, name: String, value: V)
    requires
        unique_keys(old(entries)@),
    ensures
        unique_keys(final(entries)@),
        entries_map(final(entries)@) == entries_map(old(entries)@).insert(name@, value),
{
    let ghost s = entries@;
    proof {
        lemma_entries_map(s);
    }
    match find_entry(entries, name.as_str()) {
        Some(j) => {
            let ghost key = name@;
            let ghost item = value;
            entries.set(j, (name, value));
            let ghost s2 = entries@;
            assert(unique_keys(s2)) by {
                assert forall|a: int, b: int| 0 <= a < b < s2.len() implies s2[a].0@ != s2[b].0@ by {
                    assert(s2[a].0@ == s[a].0@ && s2[b].0@ == s[b].0@);
                }
            }
            proof {
                lemma_entries_map(s2);
                assert forall|k: Seq<char>| #[trigger] entries_map(s2).contains_key(k) <==> entries_map(s).insert(key, item).contains_key(k) by {
                    if exists|i: int| 0 <= i < s2.len() && s2[i].0@ == k {
                        let i = choose|i: int| 0 <= i < s2.len() && s2[i].0@ == k;
                        assert(s[i].0@ == k);
                    }
                    if exists|i: int| 0 <= i < s.len() && s[i].0@ == k {
                        let i = choose|i: int| 0 <= i < s.len() && s[i].0@ == k;
                        assert(s2[i].0@ == k);
                    }
                }
                assert forall|k: Seq<char>| #[trigger] entries_map(s2).contains_key(k) implies entries_map(s2)[k] == entries_map(s).insert(key, item)[k] by {
                    let i = choose|i: int| 0 <= i < s2.len() && s2[i].0@ == k;
                    assert(entries_map(s2)[s2[i].0@] == s2[i].1);
                    if i != j {
                        assert(s[i] == s2[i]);
                        assert(entries_map(s)[s[i].0@] == s[i].1);
                    }
                }
                assert(entries_map(s2) =~= entries_map(s).insert(key, item));
            }
        },
        None => {
            entries.push((name, value));
            let ghost s2 = entries@;
            assert(s2.drop_last() =~= s);
            assert(unique_keys(s2)) by {
                assert forall|a: int, b: int| 0 <= a < b < s2.len() implies s2[a].0@ != s2[b].0@ by {
                    if b < s.len() {
                        assert(s2[a] == s[a] && s2[b] == s[b]);
                    } else {
                        assert(s2[a] == s[a]);
                    }
                }
            }
        },
    }
}

/// A map from names to items, in the order of insertion.
pub struct NameMap {
    entries: Vec<(String, ItemType)>,
}

impl View for NameMap {
    type V = Map<Seq<char>, ItemType>;

    closed spec fn view(&self) -> Map<Seq<char>, ItemType> {
        entries_map(self.entries@)
    }
}

impl NameMap {
    /// No name occurs twice.
    pub closed spec fn wf(&self) -> bool {
        unique_keys(self.entries@)
    }

    /// An empty map.
    pub fn new() -> (r: Self)
        ensures
            r.wf(),
            r@ == Map::<Seq<char>, ItemType>::empty(),
    {
        NameMap { entries: Vec::new() }
    }

    /// The item of a name.
    pub fn get(&self, name: &str) -> (r: Option<ItemType>)
        requires
            self.wf(),
        ensures
            r == (if self@.contains_key(name@) {
                Some(self@[name@])
            } else {
                None
            }),
    {
        proof {
            lemma_entries_map(self.entries@);
        }
        match find_entry(&self.entries, name) {
            Some(j) => Some(self.entries[j].1),
            None => None,
        }
    }

    /// Sets the item of a name, in place of one it had.
    pub fn insert(&mut self, name: String, item: ItemType)
        requires
            old(self).wf(),
        ensures
            final(self).wf(),
            final(self)@ == old(self)@.insert(name@, item),
    {
        insert_entry(&mut self.entries, name, item);
    }
}


/// Reading a name back after setting it gives the item it was set to, and
/// setting a name leaves every other name as it was.
pub proof fn law_get_after_insert(m: Map<Seq<char>, ItemType>, name: Seq<char>, item: ItemType, other: Seq<char>)
    requires
        other != name,
    ensures
        m.insert(name, item).contains_key(name),
        m.insert(name, item)[name] == item,
        m.insert(name, item).contains_key(other) == m.contains_key(other),
        m.contains_key(other) ==> m.insert(name, item)[other] == m[other],
{
}

/// The names after inserting the items of a list of the given kind: each
/// item's name, and (for the symbol map) the symbol it links to.
pub open spec fn insert_items(
    m: Map<Seq<char>, ItemType>,
    items: Seq<(String, Option<String>)>,
    kind: ItemKind,
    symbols: bool,
) -> Map<Seq<char>, ItemType>
    decreases items.len(),
{
    if items.len() == 0 {
        m
    } else {
        let before = insert_items(m, items.drop_last(), kind, symbols);
        let it = items.last();
        let idx = items.len() - 1;
        if !symbols {
            before.insert(it.0@, item_type_of(kind, idx))
        } else {
            match it.1 {
                Some(sym) => before.insert(sym@, item_type_of(kind, idx)),
                None => before,
            }
        }
    }
}

fn insert_list(
    name_map: &mut NameMap,
    sym_map: &mut NameMap,
    items: &[(String, Option<String>)],
    kind: ItemKind,
)
    requires
        old(name_map).wf(),
        old(sym_map).wf(),
    ensures
        final(name_map).wf(),
        final(sym_map).wf(),
        final(name_map)@ == insert_items(old(name_map)@, items@, kind, false),
        final(sym_map)@ == insert_items(old(sym_map)@, items@, kind, true),
{
    let ghost n0 = name_map@;
    let ghost s0 = sym_map@;
    let mut idx: usize = 0;
    while idx < items.len()
        invariant
            idx <= items@.len(),
            name_map.wf(),
            sym_map.wf(),
            name_map@ == insert_items(n0, items@.subrange(0, idx as int), kind, false),
            sym_map@ == insert_items(s0, items@.subrange(0, idx as int), kind, true),
        decreases items@.len() - idx,
    {
        let item = match kind {
            ItemKind::Characteristic => ItemType::Characteristic(idx),
            ItemKind::Measurement => ItemType::Measurement(idx),
            ItemKind::Instance => ItemType::Instance,
            ItemKind::Blob => ItemType::Blob,
            ItemKind::AxisPts => ItemType::AxisPts,
        };
        let (name, sym_link) = &items[idx];
        name_map.insert(name.clone(), item);
        if let Some(sym) = sym_link {
            sym_map.insert(sym.clone(), item);
        }
        proof {
            let sub = items@.subrange(0, idx + 1);
            assert(sub.drop_last() =~= items@.subrange(0, idx as int));
            assert(sub.last() == items@[idx as int]);
        }
        idx += 1;
    }
    assert(items@.subrange(0, items@.len() as int) =~= items@);
}

/// The maps of the names of a module's items and of the symbols they link
/// to, from the names and symbol links of its characteristics,
/// measurements, instances, blobs and axis points, in this order (a later
/// item takes a name from an earlier one).
pub fn build_maps(
    characteristics: &[(String, Option<String>)],
    measurements: &[(String, Option<String>)],
    instances: &[(String, Option<String>)],
    blobs: &[(String, Option<String>)],
    axis_pts: &[(String, Option<String>)],
) -> (r: (NameMap, NameMap))
    ensures
        r.0.wf(),
        r.1.wf(),
        r.0@ == insert_items(
            insert_items(
                insert_items(
                    insert_items(
                        insert_items(Map::empty(), characteristics@, ItemKind::Characteristic, false),
                        measurements@,
                        ItemKind::Measurement,
                        false,
                    ),
                    instances@,
                    ItemKind::Instance,
                    false,
                ),
                blobs@,
                ItemKind::Blob,
                false,
            ),
            axis_pts@,
            ItemKind::AxisPts,
            false,
        ),
        r.1@ == insert_items(
            insert_items(
                insert_items(
                    insert_items(
                        insert_items(Map::empty(), characteristics@, ItemKind::Characteristic, true),
                        measurements@,
                        ItemKind::Measurement,
                        true,
                    ),
                    instances@,
                    ItemKind::Instance,
                    true,
                ),
                blobs@,
                ItemKind::Blob,
                true,
            ),
            axis_pts@,
            ItemKind::AxisPts,
            true,
        ),
{
    let mut name_map = NameMap::new();
    let mut sym_map = NameMap::new();
    insert_list(&mut name_map, &mut sym_map, characteristics, ItemKind::Characteristic);
    insert_list(&mut name_map, &mut sym_map, measurements, ItemKind::Measurement);
    insert_list(&mut name_map, &mut sym_map, instances, ItemKind::Instance);
    insert_list(&mut name_map, &mut sym_map, blobs, ItemKind::Blob);
    insert_list(&mut name_map, &mut sym_map, axis_pts, ItemKind::AxisPts);
    (name_map, sym_map)
}

/// A symbol name with each `::` (of a demangled C++ name) replaced by `__`,
/// left to right.
pub open spec fn clean_symbol(s: Seq<char>) -> Seq<char>
    decreases s.len(),
{
    if s.len() >= 2 && s[0] == ':' && s[1] == ':' {
        "__"@ + clean_symbol(s.subrange(2, s.len() as int))
    } else if s.len() == 0 {
        s
    } else {
        seq![s[0]] + clean_symbol(s.drop_first())
    }
}

fn clean_symbol_exec(s: &str) -> (r: String)
    ensures
        r@ == clean_symbol(s@),
{
    let n = s.unicode_len();
    let mut out = String::new();
    let mut i: usize = 0;
    assert(s@.subrange(0, n as int) =~= s@);
    assert(out@ + clean_symbol(s@) =~= clean_symbol(s@));
    while i < n
        invariant
            i <= n,
            n == s@.len(),
            out@ + clean_symbol(s@.subrange(i as int, n as int)) == clean_symbol(s@),
        decreases n - i,
    {
        let ghost rest = s@.subrange(i as int, n as int);
        let ghost before = out@;
        if i + 1 < n && s.get_char(i) == ':' && s.get_char(i + 1) == ':' {
            out.append("__");
            proof {
                reveal_strlit("__");
                assert(rest.subrange(2, rest.len() as int) =~= s@.subrange(i + 2, n as int));
                assert(before + clean_symbol(rest) =~= out@ + clean_symbol(s@.subrange(i + 2, n as int)));
            }
            i += 2;
        } else {
            out.append(s.substring_char(i, i + 1));
            proof {
                assert(rest.drop_first() =~= s@.subrange(i + 1, n as int));
                assert(s@.subrange(i as int, i + 1) =~= seq![rest[0]]);
                assert(before + clean_symbol(rest) =~= out@ + clean_symbol(s@.subrange(i + 1, n as int)));
            }
            i += 1;
        }
    }
    assert(out@ + clean_symbol(s@.subrange(n as int, n as int)) =~= out@);
    out
}

/// The name of a new item of the kind `kind_word` (`MEASUREMENT` or
/// `CHARACTERISTIC`) for a symbol: the cleaned symbol name; with
/// `KIND.` before it where an item of another kind links to the symbol.
/// An error where an item of the same kind links to the symbol already, and
/// where the name is taken.
pub open spec fn unique_item_name(
    kind_word: Seq<char>,
    same_kind_names: Seq<String>,
    sym_map: Map<Seq<char>, ItemType>,
    symbol: Seq<char>,
    name_map: Map<Seq<char>, ItemType>,
    is_same_kind: spec_fn(ItemType) -> Option<usize>,
) -> Result<Seq<char>, Seq<char>> {
    let cleaned = clean_symbol(symbol);
    let linked = if sym_map.contains_key(cleaned) {
        Some(sym_map[cleaned])
    } else {
        None
    };
    match linked {
        Some(t) => match is_same_kind(t) {
            Some(idx) => Err(kind_word + " "@ + same_kind_names[idx as int]@ + " already references symbol "@
                + symbol + "."@),
            None => {
                let item_name = kind_word + "."@ + cleaned;
                if name_map.contains_key(item_name) {
                    Err(kind_word + " "@ + item_name + " already exists."@)
                } else {
                    Ok(item_name)
                }
            },
        },
        None => if name_map.contains_key(cleaned) {
            Err(kind_word + " "@ + cleaned + " already exists."@)
        } else {
            Ok(cleaned)
        },
    }
}

/// A result of texts, by the texts' views.
pub open spec fn text_result(r: Result<String, String>) -> Result<Seq<char>, Seq<char>> {
    match r {
        Ok(v) => Ok(v@),
        Err(e) => Err(e@),
    }
}

/// The position of a measurement.
pub open spec fn measurement_index(t: ItemType) -> Option<usize> {
    match t {
        ItemType::Measurement(idx) => Some(idx),
        _ => None,
    }
}

/// The position of a characteristic.
pub open spec fn characteristic_index(t: ItemType) -> Option<usize> {
    match t {
        ItemType::Characteristic(idx) => Some(idx),
        _ => None,
    }
}

/// The name for a new measurement of `symbol`, or why there is none (see
/// `unique_item_name`).
pub open spec fn measurement_name_for(
    measurement_names: Seq<String>,
    sym_map: Map<Seq<char>, ItemType>,
    symbol: Seq<char>,
    name_map: Map<Seq<char>, ItemType>,
) -> Result<Seq<char>, Seq<char>> {
    unique_item_name("MEASUREMENT"@, measurement_names, sym_map, symbol, name_map, |t: ItemType| measurement_index(t))
}

/// The name for a new characteristic of `symbol`, or why there is none (see
/// `unique_item_name`).
pub open spec fn characteristic_name_for(
    characteristic_names: Seq<String>,
    sym_map: Map<Seq<char>, ItemType>,
    symbol: Seq<char>,
    name_map: Map<Seq<char>, ItemType>,
) -> Result<Seq<char>, Seq<char>> {
    unique_item_name(
        "CHARACTERISTIC"@,
        characteristic_names,
        sym_map,
        symbol,
        name_map,
        |t: ItemType| characteristic_index(t),
    )
}

fn name_for(
    kind_word: &str,
    same_kind_names: &[String],
    sym_map: &NameMap,
    symbol: &str,
    name_map: &NameMap,
    same_kind_index: Option<usize>,
    linked: Option<ItemType>,
    cleaned: String,
) -> (r: Result<String, String>)
    requires
        name_map.wf(),
        same_kind_index matches Some(idx) ==> idx < same_kind_names@.len(),
    ensures
        ({
            let expected: Result<Seq<char>, Seq<char>> = match linked {
                Some(t) => match same_kind_index {
                    Some(idx) => Err(kind_word@ + " "@ + same_kind_names@[idx as int]@
                        + " already references symbol "@ + symbol@ + "."@),
                    None => {
                        let item_name = kind_word@ + "."@ + cleaned@;
                        if name_map@.contains_key(item_name) {
                            Err(kind_word@ + " "@ + item_name + " already exists."@)
                        } else {
                            Ok(item_name)
                        }
                    },
                },
                None => if name_map@.contains_key(cleaned@) {
                    Err(kind_word@ + " "@ + cleaned@ + " already exists."@)
                } else {
                    Ok(cleaned@)
                },
            };
            text_result(r) == expected
        }),
{
    let item_name = match linked {
        Some(_) => match same_kind_index {
            Some(idx) => {
                let mut msg = String::from_str(kind_word);
                msg.append(" ");
                msg.append(same_kind_names[idx].as_str());
                msg.append(" already references symbol ");
                msg.append(symbol);
                msg.append(".");
                return Err(msg);
            },
            None => {
                let mut n = String::from_str(kind_word);
                n.append(".");
                n.append(cleaned.as_str());
                n
            },
        },
        None => cleaned,
    };
    if name_map.get(item_name.as_str()).is_some() {
        let mut msg = String::from_str(kind_word);
        msg.append(" ");
        msg.append(item_name.as_str());
        msg.append(" already exists.");
        return Err(msg);
    }
    Ok(item_name)
}

/// The name for a new measurement of a symbol (see `unique_item_name`);
/// `measurement_names` are the names of the module's measurements.
pub fn make_unique_measurement_name(
    measurement_names: &[String],
    sym_map: &NameMap,
    measure_sym: &str,
    name_map: &NameMap,
) -> (r: Result<String, String>)
    requires
        sym_map.wf(),
        name_map.wf(),
        forall|k: Seq<char>| #[trigger] sym_map@.contains_key(k) ==> (sym_map@[k] matches ItemType::Measurement(idx)
            ==> idx < measurement_names@.len()),
    ensures
        text_result(r) == measurement_name_for(measurement_names@, sym_map@, measure_sym@, name_map@),
{
    let cleaned_sym = clean_symbol_exec(measure_sym);
    let linked = sym_map.get(cleaned_sym.as_str());
    let same_kind_index = match linked {
        Some(ItemType::Measurement(idx)) => Some(idx),
        _ => None,
    };
    name_for("MEASUREMENT", measurement_names, sym_map, measure_sym, name_map, same_kind_index, linked, cleaned_sym)
}

/// The name for a new characteristic of a symbol (see `unique_item_name`);
/// `characteristic_names` are the names of the module's characteristics.
pub fn make_unique_characteristic_name(
    characteristic_names: &[String],
    sym_map: &NameMap,
    characteristic_sym: &str,
    name_map: &NameMap,
) -> (r: Result<String, String>)
    requires
        sym_map.wf(),
        name_map.wf(),
        forall|k: Seq<char>| #[trigger] sym_map@.contains_key(k) ==> (sym_map@[k] matches ItemType::Characteristic(idx)
            ==> idx < characteristic_names@.len()),
    ensures
        text_result(r) == characteristic_name_for(characteristic_names@, sym_map@, characteristic_sym@, name_map@),
{
    let cleaned_sym = clean_symbol_exec(characteristic_sym);
    let linked = sym_map.get(cleaned_sym.as_str());
    let same_kind_index = match linked {
        Some(ItemType::Characteristic(idx)) => Some(idx),
        _ => None,
    };
    name_for("CHARACTERISTIC", characteristic_names, sym_map, characteristic_sym, name_map, same_kind_index, linked, cleaned_sym)
}

/// The first index from `i` on where `needle` occurs in `s`.
pub open spec fn find_chars_from(s: Seq<char>, needle: Seq<char>, i: int) -> Option<int>
    decreases s.len() + 1 - i,
{
    if i < 0 || i + needle.len() > s.len() {
        None
    } else if s.subrange(i, i + needle.len()) == needle {
        Some(i)
    } else {
        find_chars_from(s, needle, i + 1)
    }
}

/// The name that a record layout name is extended to when it is taken:
/// the name up to its first `_UPDATED` where that ends the name or is
/// followed by a dot, else the name followed by `_UPDATED`.
pub open spec fn updated_base(name: Seq<char>) -> Seq<char> {
    match find_chars_from(name, "_UPDATED"@, 0) {
        Some(pos) => {
            let end = pos + "_UPDATED"@.len();
            if end == name.len() || name[end] == '.' {
                name.subrange(0, end)
            } else {
                name + "_UPDATED"@
            }
        },
        None => name + "_UPDATED"@,
    }
}

/// The name with a counter: `base.k`.
pub open spec fn counter_name(base: Seq<char>, k: int) -> Seq<char> {
    base + "."@ + decimal_text(k as nat)
}

/// The first counter from `k` on whose name is not taken, while the counter
/// fits in an `i32`.
pub open spec fn free_counter(base: Seq<char>, existing: Seq<String>, k: int) -> Option<int>
    decreases i32::MAX - k,
{
    if k > i32::MAX {
        None
    } else if !name_taken(existing, counter_name(base, k)) {
        Some(k)
    } else if k == i32::MAX {
        None
    } else {
        free_counter(base, existing, k + 1)
    }
}

/// Whether one of the names is `name`.
pub open spec fn name_taken(existing: Seq<String>, name: Seq<char>) -> bool {
    exists|i: int| 0 <= i < existing.len() && (#[trigger] existing[i])@ == name
}

/// A record layout name that is not taken yet: the name itself if it is
/// free, else its `_UPDATED` form (see `updated_base`), else that form with
/// the first counter from 2 on that makes it free. `None` where the counter
/// would overflow.
pub open spec fn unique_reclayout_name(name: Seq<char>, existing: Seq<String>) -> Option<Seq<char>> {
    if !name_taken(existing, name) {
        Some(name)
    } else {
        let base = updated_base(name);
        if !name_taken(existing, base) {
            Some(base)
        } else {
            match free_counter(base, existing, 2) {
                Some(k) => Some(counter_name(base, k)),
                None => None,
            }
        }
    }
}

fn is_taken(existing: &[String], name: &str) -> (r: bool)
    ensures
        r == name_taken(existing@, name@),
{
    let mut i: usize = 0;
    while i < existing.len()
        invariant
            i <= existing@.len(),
            forall|j: int| 0 <= j < i ==> (#[trigger] existing@[j])@ != name@,
        decreases existing@.len() - i,
    {
        if str_eq(existing[i].as_str(), name) {
            return true;
        }
        i += 1;
    }
    false
}

pub fn find_chars(s: &str, needle: &str) -> (r: Option<usize>)
    ensures
        r matches Some(p) ==> find_chars_from(s@, needle@, 0) == Some(p as int) && p + needle@.len() <= s@.len(),
        r is None ==> find_chars_from(s@, needle@, 0) is None,
{
    let n = s.unicode_len();
    let m = needle.unicode_len();
    if m > n {
        return None;
    }
    let mut i: usize = 0;
    while i <= n - m
        invariant
            n == s@.len(),
            m == needle@.len(),
            m <= n,
            find_chars_from(s@, needle@, 0) == find_chars_from(s@, needle@, i as int),
        decreases n + 1 - i,
    {
        let mut j: usize = 0;
        let mut same = true;
        while j < m
            invariant
                i + m <= n,
                n == s@.len(),
                m == needle@.len(),
                j <= m,
                same == forall|k: int| 0 <= k < j ==> s@[i + k] == needle@[k],
            decreases m - j,
        {
            if s.get_char(i + j) != needle.get_char(j) {
                same = false;
            }
            j += 1;
        }
        if same {
            assert(s@.subrange(i as int, i + m) =~= needle@);
            return Some(i);
        } else {
            proof {
                let k = choose|k: int| 0 <= k < m && s@[i + k] != needle@[k];
                assert(s@.subrange(i as int, i + m)[k] != needle@[k]);
            }
        }
        i += 1;
    }
    None
}

/// Extends a record layout name until no record layout has it; the search
/// for a free counter must end before the counter overflows.
pub fn make_unique_reclayout_name(initial_name: String, existing: &[String]) -> (r: String)
    requires
        unique_reclayout_name(initial_name@, existing@) is Some,
    ensures
        Some(r@) == unique_reclayout_name(initial_name@, existing@),
{
    if !is_taken(existing, initial_name.as_str()) {
        return initial_name;
    }
    let updated = "_UPDATED";
    proof {
        reveal_strlit("_UPDATED");
    }
    let ghost name = initial_name@;
    assert(updated@ == "_UPDATED"@);
    let basename = match find_chars(initial_name.as_str(), updated) {
        Some(pos) => {
            assert(find_chars_from(name, "_UPDATED"@, 0) == Some(pos as int));
            let n = initial_name.unicode_len();
            let ulen = updated.unicode_len();
            assert(pos + ulen <= n);
            let end_of_updated = pos + ulen;
            if end_of_updated == n || initial_name.as_str().get_char(end_of_updated) == '.' {
                String::from_str(initial_name.as_str().substring_char(0, end_of_updated))
            } else {
                let mut b = initial_name.clone();
                b.append(updated);
                b
            }
        },
        None => {
            assert(find_chars_from(name, "_UPDATED"@, 0) is None);
            let mut b = initial_name.clone();
            b.append(updated);
            assert(b@ =~= name + "_UPDATED"@);
            b
        },
    };
    assert(basename@ =~= updated_base(initial_name@));
    let mut outname = basename.clone();
    if !is_taken(existing, outname.as_str()) {
        return outname;
    }
    let mut counter: i32 = 1;
    loop
        invariant
            1 <= counter,
            name_taken(existing@, outname@),
            basename@ == updated_base(initial_name@),
            name_taken(existing@, basename@),
            name_taken(existing@, initial_name@),
            unique_reclayout_name(initial_name@, existing@) is Some,
            free_counter(basename@, existing@, 2) == free_counter(basename@, existing@, counter + 1),
        decreases i32::MAX - counter,
    {
        assert(counter < i32::MAX);
        counter += 1;
        outname = basename.clone();
        outname.append(".");
        append_radix(&mut outname, counter as u64, 10, false);
        assert(outname@ == counter_name(basename@, counter as int));
        if !is_taken(existing, outname.as_str()) {
            return outname;
        }
    }
}

} // verus!
