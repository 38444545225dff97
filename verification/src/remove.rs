//! Removing items from a module, by regular expressions on their names or by
//! address ranges, together with the references to them in its groups.

use vstd::prelude::*;
use crate::group::{refs_view, texts, Group};
use crate::search::{any_match, regex_is_match, CompiledRegex};
use crate::text::{append_radix, radix_text, str_eq};

verus! {

/// An item of a module: its name, and its address (a measurement may have
/// none).
pub struct ItemAddress {
    pub name: String,
    pub address: Option<u64>,
}

/// What removing works on in a module: its characteristics, measurements,
/// instances, axis points and blobs, each kind in its order, and its groups.
pub struct ModuleItems {
    pub characteristic: Vec<ItemAddress>,
    pub measurement: Vec<ItemAddress>,
    pub instance: Vec<ItemAddress>,
    pub axis_pts: Vec<ItemAddress>,
    pub blob: Vec<ItemAddress>,
    pub group: Vec<Group>,
}

/// The patterns of compiled expressions.
pub open spec fn patterns_of(regexes: Seq<CompiledRegex>) -> Seq<Seq<char>> {
    regexes.map_values(|r: CompiledRegex| r@)
}

/// The item lists of a module, in the order in which they are worked on.
pub open spec fn item_lists(m: ModuleItems) -> Seq<Seq<ItemAddress>> {
    seq![m.characteristic@, m.measurement@, m.instance@, m.axis_pts@, m.blob@]
}

/// How the messages name the kind of each item list.
pub open spec fn kind_labels() -> Seq<Seq<char>> {
    seq!["characteristic"@, "measurement"@, "instance"@, "axis points"@, "blob"@]
}

/// The items that `gone` does not take, in their order.
pub open spec fn kept(items: Seq<ItemAddress>, gone: spec_fn(ItemAddress) -> bool) -> Seq<ItemAddress>
    decreases items.len(),
{
    if items.len() == 0 {
        seq![]
    } else if gone(items.last()) {
        kept(items.drop_last(), gone)
    } else {
        kept(items.drop_last(), gone).push(items.last())
    }
}

/// The names of the items that `gone` takes.
pub open spec fn gone_names(items: Seq<ItemAddress>, gone: spec_fn(ItemAddress) -> bool) -> Set<Seq<char>> {
    Set::new(|n: Seq<char>| exists|i: int| 0 <= i < items.len() && gone(items[i]) && #[trigger] items[i].name@ == n)
}

/// Whether some pattern matches the item's name.
pub open spec fn matched_by(patterns: Seq<Seq<char>>) -> spec_fn(ItemAddress) -> bool {
    |it: ItemAddress| any_match(patterns, it.name@)
}

/// The message for an item removed by name.
pub open spec fn removed_message(label: Seq<char>, name: Seq<char>) -> Seq<char> {
    "Removed "@ + label + " "@ + name
}

/// The message `msg` once for each pattern that matches `name`.
pub open spec fn match_messages(patterns: Seq<Seq<char>>, name: Seq<char>, msg: Seq<char>) -> Seq<Seq<char>>
    decreases patterns.len(),
{
    if patterns.len() == 0 {
        seq![]
    } else {
        match_messages(patterns.drop_last(), name, msg) + if regex_is_match(patterns.last(), name) {
            seq![msg]
        } else {
            seq![]
        }
    }
}

/// The messages of removing items by name: for each item, one message for
/// each pattern that matches its name.
pub open spec fn name_removal_log(items: Seq<ItemAddress>, patterns: Seq<Seq<char>>, label: Seq<char>) -> Seq<
    Seq<char>,
>
    decreases items.len(),
{
    if items.len() == 0 {
        seq![]
    } else {
        name_removal_log(items.drop_last(), patterns, label) + match_messages(
            patterns,
            items.last().name@,
            removed_message(label, items.last().name@),
        )
    }
}

/// A copy of an item.
fn copy_item(it: &ItemAddress) -> (r: ItemAddress)
    ensures
        r == *it,
{
    ItemAddress { name: it.name.clone(), address: it.address }
}

/// Adds `name` to a list of names without repeats, unless it is there.
fn insert_name(names: &mut Vec<String>, name: &str)
    requires
        texts(old(names)@).no_duplicates(),
    ensures
        texts(final(names)@).no_duplicates(),
        texts(final(names)@).to_set() == texts(old(names)@).to_set().insert(name@),
{
    let ghost before = texts(names@);
    let mut i: usize = 0;
    while i < names.len()
        invariant
            i <= names@.len(),
            texts(names@) == before,
            before.no_duplicates(),
            forall|j: int| 0 <= j < i ==> before[j] != name@,
        decreases names@.len() - i,
    {
        if str_eq(names[i].as_str(), name) {
            assert(before[i as int] == name@);
            assert(before.contains(name@));
            assert(before.to_set().insert(name@) =~= before.to_set());
            return;
        }
        i += 1;
    }
    names.push(String::from_str(name));
    assert(texts(names@) =~= before.push(name@));
    proof {
        before.lemma_push_to_set_commute(name@);
    }
}

/// The messages for each expression that matches `name`, appended to `log`.
fn log_matches(regexes: &[CompiledRegex], name: &str, msg: &str, log: &mut Vec<String>) -> (r: bool)
    ensures
        texts(final(log)@) == texts(old(log)@) + match_messages(patterns_of(regexes@), name@, msg@),
        r == any_match(patterns_of(regexes@), name@),
{
    let ghost pats = patterns_of(regexes@);
    let mut matched = false;
    let mut k: usize = 0;
    assert(pats.subrange(0, 0) =~= Seq::<Seq<char>>::empty());
    while k < regexes.len()
        invariant
            k <= regexes@.len(),
            pats == patterns_of(regexes@),
            texts(log@) == texts(old(log)@) + match_messages(pats.subrange(0, k as int), name@, msg@),
            matched == exists|j: int| 0 <= j < k && regex_is_match(#[trigger] pats[j], name@),
        decreases regexes@.len() - k,
    {
        let ghost sub = pats.subrange(0, k + 1);
        assert(sub.drop_last() =~= pats.subrange(0, k as int));
        assert(sub.last() == regexes@[k as int]@);
        let ghost before_log = texts(log@);
        if regexes[k].is_match(name) {
            log.push(String::from_str(msg));
            assert(texts(log@) =~= before_log.push(msg@));
            matched = true;
        }
        assert(texts(log@) =~= texts(old(log)@) + match_messages(sub, name@, msg@));
        k += 1;
    }
    assert(pats.subrange(0, regexes@.len() as int) =~= pats);
    matched
}

proof fn lemma_gone_names_step(items: Seq<ItemAddress>, gone: spec_fn(ItemAddress) -> bool)
    requires
        items.len() > 0,
    ensures
        gone_names(items, gone) == gone_names(items.drop_last(), gone).union(
            if gone(items.last()) {
                set![items.last().name@]
            } else {
                Set::empty()
            },
        ),
{
    let pre = items.drop_last();
    let extra = if gone(items.last()) {
        set![items.last().name@]
    } else {
        Set::empty()
    };
    assert forall|n: Seq<char>| gone_names(items, gone).contains(n) <==> gone_names(pre, gone).union(extra).contains(n) by {
        if gone_names(items, gone).contains(n) {
            let i = choose|i: int| 0 <= i < items.len() && gone(items[i]) && #[trigger] items[i].name@ == n;
            if i < items.len() - 1 {
                assert(pre[i] == items[i]);
            }
        }
        if gone_names(pre, gone).contains(n) {
            let i = choose|i: int| 0 <= i < pre.len() && gone(pre[i]) && #[trigger] pre[i].name@ == n;
            assert(items[i] == pre[i]);
        }
        if extra.contains(n) {
            assert(items[items.len() - 1].name@ == n);
        }
    }
    assert(gone_names(items, gone) =~= gone_names(pre, gone).union(extra));
}

/// Removes the items whose name some expression matches, with one message
/// for each matching expression, and adds their names to `removed`.
fn remove_matching_items(
    items: &mut Vec<ItemAddress>,
    regexes: &[CompiledRegex],
    label: &str,
    log: &mut Vec<String>,
    removed: &mut Vec<String>,
)
    requires
        texts(old(removed)@).no_duplicates(),
    ensures
        final(items)@ == kept(old(items)@, matched_by(patterns_of(regexes@))),
        texts(final(log)@) == texts(old(log)@) + name_removal_log(old(items)@, patterns_of(regexes@), label@),
        texts(final(removed)@).no_duplicates(),
        texts(final(removed)@).to_set() == texts(old(removed)@).to_set().union(
            gone_names(old(items)@, matched_by(patterns_of(regexes@))),
        ),
{
    let ghost pats = patterns_of(regexes@);
    let ghost gone = matched_by(pats);
    let mut old_items: Vec<ItemAddress> = Vec::new();
    std::mem::swap(items, &mut old_items);
    let ghost orig = old_items@;
    let ghost log0 = texts(log@);
    let ghost removed0 = texts(removed@).to_set();
    let mut i: usize = 0;
    assert(orig.subrange(0, 0) =~= Seq::<ItemAddress>::empty());
    assert(gone_names(orig.subrange(0, 0), gone) =~= Set::empty());
    assert(removed0.union(Set::empty()) =~= removed0);
    while i < old_items.len()
        invariant
            i <= old_items@.len(),
            old_items@ == orig,
            pats == patterns_of(regexes@),
            gone == matched_by(pats),
            items@ == kept(orig.subrange(0, i as int), gone),
            texts(log@) == log0 + name_removal_log(orig.subrange(0, i as int), pats, label@),
            texts(removed@).no_duplicates(),
            texts(removed@).to_set() == removed0.union(gone_names(orig.subrange(0, i as int), gone)),
        decreases old_items@.len() - i,
    {
        let it = &old_items[i];
        let ghost sub = orig.subrange(0, i + 1);
        proof {
            assert(sub.drop_last() =~= orig.subrange(0, i as int));
            assert(sub.last() == orig[i as int]);
            lemma_gone_names_step(sub, gone);
            assert(kept(sub, gone) == (if gone(sub.last()) {
                kept(sub.drop_last(), gone)
            } else {
                kept(sub.drop_last(), gone).push(sub.last())
            }));
        }
        let mut msg = String::from_str("Removed ");
        msg.append(label);
        msg.append(" ");
        msg.append(it.name.as_str());
        let ghost log_before = texts(log@);
        let matched = log_matches(regexes, it.name.as_str(), msg.as_str(), log);
        if matched {
            let ghost r_before = texts(removed@).to_set();
            insert_name(removed, it.name.as_str());
            assert(texts(removed@).to_set() =~= removed0.union(gone_names(sub, gone)));
        } else {
            items.push(copy_item(it));
            assert(gone_names(orig.subrange(0, i as int), gone).union(Set::empty()) =~= gone_names(
                orig.subrange(0, i as int),
                gone,
            ));
        }
        assert(texts(log@) =~= log0 + name_removal_log(sub, pats, label@));
        i += 1;
    }
    assert(orig.subrange(0, orig.len() as int) =~= orig);
}

/// Whether an item has an address in `start..=end`.
pub open spec fn in_range(start: u64, end: u64) -> spec_fn(ItemAddress) -> bool {
    |it: ItemAddress| it.address matches Some(a) && start <= a <= end
}

/// The message for an item removed by its address (`{:#X}`).
pub open spec fn range_message(label: Seq<char>, name: Seq<char>, address: u64) -> Seq<char> {
    "Removed "@ + label + " "@ + name + " at address 0x"@ + radix_text(address as nat, 16, true)
}

/// The messages of removing the items with an address in `start..=end`.
pub open spec fn range_removal_log(items: Seq<ItemAddress>, start: u64, end: u64, label: Seq<char>) -> Seq<
    Seq<char>,
>
    decreases items.len(),
{
    if items.len() == 0 {
        seq![]
    } else {
        range_removal_log(items.drop_last(), start, end, label) + match items.last().address {
            Some(a) => if start <= a <= end {
                seq![range_message(label, items.last().name@, a)]
            } else {
                seq![]
            },
            None => seq![],
        }
    }
}

/// Removes the items with an address in `start..=end`, with a message for
/// each, and adds their names to `removed`.
fn remove_items_in_range(
    items: &mut Vec<ItemAddress>,
    start: u64,
    end: u64,
    label: &str,
    log: &mut Vec<String>,
    removed: &mut Vec<String>,
)
    requires
        texts(old(removed)@).no_duplicates(),
    ensures
        final(items)@ == kept(old(items)@, in_range(start, end)),
        texts(final(log)@) == texts(old(log)@) + range_removal_log(old(items)@, start, end, label@),
        texts(final(removed)@).no_duplicates(),
        texts(final(removed)@).to_set() == texts(old(removed)@).to_set().union(
            gone_names(old(items)@, in_range(start, end)),
        ),
{
    let ghost gone = in_range(start, end);
    let mut old_items: Vec<ItemAddress> = Vec::new();
    std::mem::swap(items, &mut old_items);
    let ghost orig = old_items@;
    let ghost log0 = texts(log@);
    let ghost removed0 = texts(removed@).to_set();
    let mut i: usize = 0;
    assert(orig.subrange(0, 0) =~= Seq::<ItemAddress>::empty());
    assert(gone_names(orig.subrange(0, 0), gone) =~= Set::empty());
    assert(removed0.union(Set::empty()) =~= removed0);
    while i < old_items.len()
        invariant
            i <= old_items@.len(),
            old_items@ == orig,
            gone == in_range(start, end),
            items@ == kept(orig.subrange(0, i as int), gone),
            texts(log@) == log0 + range_removal_log(orig.subrange(0, i as int), start, end, label@),
            texts(removed@).no_duplicates(),
            texts(removed@).to_set() == removed0.union(gone_names(orig.subrange(0, i as int), gone)),
        decreases old_items@.len() - i,
    {
        let it = &old_items[i];
        let ghost sub = orig.subrange(0, i + 1);
        proof {
            assert(sub.drop_last() =~= orig.subrange(0, i as int));
            assert(sub.last() == orig[i as int]);
            lemma_gone_names_step(sub, gone);
        }
        let ghost log_before = texts(log@);
        let inside = match it.address {
            Some(a) => start <= a && a <= end,
            None => false,
        };
        if inside {
            let address = match it.address {
                Some(a) => a,
                None => 0,
            };
            let mut msg = String::from_str("Removed ");
            msg.append(label);
            msg.append(" ");
            msg.append(it.name.as_str());
            msg.append(" at address 0x");
            append_radix(&mut msg, address, 16, true);
            log.push(msg);
            assert(texts(log@) =~= log_before.push(range_message(label@, it.name@, address)));
            insert_name(removed, it.name.as_str());
            assert(texts(removed@).to_set() =~= removed0.union(gone_names(sub, gone)));
        } else {
            items.push(copy_item(it));
            assert(gone_names(orig.subrange(0, i as int), gone).union(Set::empty()) =~= gone_names(
                orig.subrange(0, i as int),
                gone,
            ));
        }
        assert(texts(log@) =~= log0 + range_removal_log(sub, start, end, label@));
        i += 1;
    }
    assert(orig.subrange(0, orig.len() as int) =~= orig);
}

/// The names of `names` that are not in `removed`, in their order.
pub open spec fn names_left(names: Seq<Seq<char>>, removed: Set<Seq<char>>) -> Seq<Seq<char>>
    decreases names.len(),
{
    if names.len() == 0 {
        seq![]
    } else if removed.contains(names.last()) {
        names_left(names.drop_last(), removed)
    } else {
        names_left(names.drop_last(), removed).push(names.last())
    }
}

/// A reference list of a group once the removed names are dropped from it:
/// none where no name is left.
pub open spec fn cleaned_refs(refs: Option<Vec<String>>, removed: Set<Seq<char>>) -> Option<Seq<Seq<char>>> {
    match refs {
        Some(v) => if names_left(texts(v@), removed).len() > 0 {
            Some(names_left(texts(v@), removed))
        } else {
            None
        },
        None => None,
    }
}

/// Whether a list of names holds `name`.
fn contains_name(names: &Vec<String>, name: &str) -> (r: bool)
    ensures
        r == texts(names@).contains(name@),
{
    let mut i: usize = 0;
    while i < names.len()
        invariant
            i <= names@.len(),
            forall|j: int| 0 <= j < i ==> texts(names@)[j] != name@,
        decreases names@.len() - i,
    {
        if str_eq(names[i].as_str(), name) {
            assert(texts(names@)[i as int] == name@);
            return true;
        }
        i += 1;
    }
    false
}

/// A copy of a list of names.
fn copy_refs(refs: &Option<Vec<String>>) -> (r: Option<Vec<String>>)
    ensures
        refs_view(r) == refs_view(*refs),
{
    match refs {
        Some(names) => {
            let mut out: Vec<String> = Vec::new();
            let mut i: usize = 0;
            while i < names.len()
                invariant
                    i <= names@.len(),
                    texts(out@) == texts(names@).subrange(0, i as int),
                decreases names@.len() - i,
            {
                let ghost before = out@;
                out.push(names[i].clone());
                assert(texts(out@) =~= texts(before).push(names@[i as int]@));
                assert(texts(names@).subrange(0, i + 1) =~= texts(names@).subrange(0, i as int).push(names@[i as int]@));
                i += 1;
            }
            assert(texts(names@).subrange(0, names@.len() as int) =~= texts(names@));
            Some(out)
        },
        None => None,
    }
}

/// A reference list without the removed names (see `cleaned_refs`).
fn clean_refs(refs: &Option<Vec<String>>, removed: &Vec<String>) -> (r: Option<Vec<String>>)
    ensures
        refs_view(r) == cleaned_refs(*refs, texts(removed@).to_set()),
{
    match refs {
        Some(names) => {
            let ghost gone = texts(removed@).to_set();
            let mut left: Vec<String> = Vec::new();
            let mut i: usize = 0;
            assert(texts(names@).subrange(0, 0) =~= Seq::<Seq<char>>::empty());
            while i < names.len()
                invariant
                    i <= names@.len(),
                    gone == texts(removed@).to_set(),
                    texts(left@) == names_left(texts(names@).subrange(0, i as int), gone),
                decreases names@.len() - i,
            {
                let ghost sub = texts(names@).subrange(0, i + 1);
                assert(sub.drop_last() =~= texts(names@).subrange(0, i as int));
                assert(sub.last() == names@[i as int]@);
                if !contains_name(removed, names[i].as_str()) {
                    left.push(names[i].clone());
                    assert(texts(left@) =~= names_left(sub, gone));
                }
                i += 1;
            }
            assert(texts(names@).subrange(0, names@.len() as int) =~= texts(names@));
            if left.len() > 0 {
                Some(left)
            } else {
                None
            }
        },
        None => None,
    }
}

/// Drops the removed names from the references of each group; a reference
/// list with no name left goes.
pub fn clean_up_groups(groups: &mut Vec<Group>, removed: &Vec<String>)
    ensures
        final(groups)@.len() == old(groups)@.len(),
        forall|i: int| 0 <= i < old(groups)@.len() ==> {
            &&& (#[trigger] final(groups)@[i]).name@ == old(groups)@[i].name@
            &&& final(groups)@[i].long_identifier@ == old(groups)@[i].long_identifier@
            &&& final(groups)@[i].root == old(groups)@[i].root
            &&& refs_view(final(groups)@[i].sub_group) == refs_view(old(groups)@[i].sub_group)
            &&& refs_view(final(groups)@[i].ref_measurement) == cleaned_refs(
                old(groups)@[i].ref_measurement,
                texts(removed@).to_set(),
            )
            &&& refs_view(final(groups)@[i].ref_characteristic) == cleaned_refs(
                old(groups)@[i].ref_characteristic,
                texts(removed@).to_set(),
            )
        },
{
    let mut old_groups: Vec<Group> = Vec::new();
    std::mem::swap(groups, &mut old_groups);
    let ghost orig = old_groups@;
    let mut i: usize = 0;
    while i < old_groups.len()
        invariant
            i <= old_groups@.len(),
            old_groups@ == orig,
            groups@.len() == i,
            forall|j: int| 0 <= j < i ==> {
                &&& (#[trigger] groups@[j]).name@ == orig[j].name@
                &&& groups@[j].long_identifier@ == orig[j].long_identifier@
                &&& groups@[j].root == orig[j].root
                &&& refs_view(groups@[j].sub_group) == refs_view(orig[j].sub_group)
                &&& refs_view(groups@[j].ref_measurement) == cleaned_refs(
                    orig[j].ref_measurement,
                    texts(removed@).to_set(),
                )
                &&& refs_view(groups@[j].ref_characteristic) == cleaned_refs(
                    orig[j].ref_characteristic,
                    texts(removed@).to_set(),
                )
            },
        decreases old_groups@.len() - i,
    {
        let g = &old_groups[i];
        let cleaned = Group {
            name: g.name.clone(),
            long_identifier: g.long_identifier.clone(),
            root: g.root,
            sub_group: copy_refs(&g.sub_group),
            ref_measurement: clean_refs(&g.ref_measurement, removed),
            ref_characteristic: clean_refs(&g.ref_characteristic, removed),
        };
        groups.push(cleaned);
        i += 1;
    }
}

/// The item lists once `gone` has taken its items from each.
pub open spec fn pass_lists(lists: Seq<Seq<ItemAddress>>, gone: spec_fn(ItemAddress) -> bool) -> Seq<
    Seq<ItemAddress>,
> {
    Seq::new(lists.len(), |k: int| kept(lists[k], gone))
}

/// The names of the items that `gone` takes from the five item lists.
pub open spec fn pass_gone(lists: Seq<Seq<ItemAddress>>, gone: spec_fn(ItemAddress) -> bool) -> Set<Seq<char>> {
    gone_names(lists[0], gone).union(gone_names(lists[1], gone)).union(gone_names(lists[2], gone)).union(
        gone_names(lists[3], gone),
    ).union(gone_names(lists[4], gone))
}

/// The messages of removing items by name from the five item lists.
pub open spec fn module_name_log(lists: Seq<Seq<ItemAddress>>, patterns: Seq<Seq<char>>) -> Seq<Seq<char>> {
    name_removal_log(lists[0], patterns, kind_labels()[0]) + name_removal_log(lists[1], patterns, kind_labels()[1])
        + name_removal_log(lists[2], patterns, kind_labels()[2]) + name_removal_log(
        lists[3],
        patterns,
        kind_labels()[3],
    ) + name_removal_log(lists[4], patterns, kind_labels()[4])
}

/// Whether the groups of `after` are those of `before` with the names in
/// `removed` dropped from their references.
pub open spec fn groups_cleaned(before: ModuleItems, after: ModuleItems, removed: Set<Seq<char>>) -> bool {
    &&& after.group@.len() == before.group@.len()
    &&& forall|i: int| 0 <= i < before.group@.len() ==> {
        &&& (#[trigger] after.group@[i]).name@ == before.group@[i].name@
        &&& after.group@[i].long_identifier@ == before.group@[i].long_identifier@
        &&& after.group@[i].root == before.group@[i].root
        &&& refs_view(after.group@[i].sub_group) == refs_view(before.group@[i].sub_group)
        &&& refs_view(after.group@[i].ref_measurement) == cleaned_refs(
            before.group@[i].ref_measurement,
            removed,
        )
        &&& refs_view(after.group@[i].ref_characteristic) == cleaned_refs(
            before.group@[i].ref_characteristic,
            removed,
        )
    }
}

/// Removes from a module the characteristics, measurements, instances, axis
/// points and blobs whose name some expression matches as a whole, and the
/// references to them from its groups. Gives a message for each item and
/// each expression that matches its name, and the number of distinct names
/// removed.
pub fn remove_items(module: &mut ModuleItems, regexes: &[CompiledRegex]) -> (r: (Vec<String>, usize))
    ensures
        item_lists(*final(module)) == pass_lists(item_lists(*old(module)), matched_by(patterns_of(regexes@))),
        groups_cleaned(
            *old(module),
            *final(module),
            pass_gone(item_lists(*old(module)), matched_by(patterns_of(regexes@))),
        ),
        texts(r.0@) == module_name_log(item_lists(*old(module)), patterns_of(regexes@)),
        r.1 == pass_gone(item_lists(*old(module)), matched_by(patterns_of(regexes@))).len(),
{
    let ghost lists = item_lists(*module);
    let ghost gone = matched_by(patterns_of(regexes@));
    let mut log: Vec<String> = Vec::new();
    let mut removed: Vec<String> = Vec::new();
    assert(texts(removed@) =~= Seq::<Seq<char>>::empty());
    assert(texts(removed@).to_set() =~= Set::<Seq<char>>::empty());
    assert(texts(log@) =~= Seq::<Seq<char>>::empty());
    remove_matching_items(&mut module.characteristic, regexes, "characteristic", &mut log, &mut removed);
    remove_matching_items(&mut module.measurement, regexes, "measurement", &mut log, &mut removed);
    remove_matching_items(&mut module.instance, regexes, "instance", &mut log, &mut removed);
    remove_matching_items(&mut module.axis_pts, regexes, "axis points", &mut log, &mut removed);
    remove_matching_items(&mut module.blob, regexes, "blob", &mut log, &mut removed);
    clean_up_groups(&mut module.group, &removed);
    proof {
        assert(item_lists(*module) =~= pass_lists(lists, gone));
        assert(Set::<Seq<char>>::empty().union(gone_names(lists[0], gone)) =~= gone_names(lists[0], gone));
        assert(texts(removed@).to_set() =~= pass_gone(lists, gone));
        assert(texts(log@) =~= module_name_log(lists, patterns_of(regexes@)));
        texts(removed@).unique_seq_to_set();
    }
    (log, removed.len())
}

/// The item lists once the items in each of the ranges (`start..=end`) have
/// been taken, range after range.
pub open spec fn lists_after_ranges(lists: Seq<Seq<ItemAddress>>, ranges: Seq<(u64, u64)>) -> Seq<
    Seq<ItemAddress>,
>
    decreases ranges.len(),
{
    if ranges.len() == 0 {
        lists
    } else {
        pass_lists(lists_after_ranges(lists, ranges.drop_last()), in_range(ranges.last().0, ranges.last().1))
    }
}

/// The messages of one range: the five item lists in their order.
pub open spec fn range_pass_log(lists: Seq<Seq<ItemAddress>>, start: u64, end: u64) -> Seq<Seq<char>> {
    range_removal_log(lists[0], start, end, kind_labels()[0]) + range_removal_log(
        lists[1],
        start,
        end,
        kind_labels()[1],
    ) + range_removal_log(lists[2], start, end, kind_labels()[2]) + range_removal_log(
        lists[3],
        start,
        end,
        kind_labels()[3],
    ) + range_removal_log(lists[4], start, end, kind_labels()[4])
}

/// The messages of removing the items in the ranges, range after range.
pub open spec fn ranges_log(lists: Seq<Seq<ItemAddress>>, ranges: Seq<(u64, u64)>) -> Seq<Seq<char>>
    decreases ranges.len(),
{
    if ranges.len() == 0 {
        seq![]
    } else {
        ranges_log(lists, ranges.drop_last()) + range_pass_log(
            lists_after_ranges(lists, ranges.drop_last()),
            ranges.last().0,
            ranges.last().1,
        )
    }
}

/// The names of the items removed by the ranges.
pub open spec fn ranges_gone(lists: Seq<Seq<ItemAddress>>, ranges: Seq<(u64, u64)>) -> Set<Seq<char>>
    decreases ranges.len(),
{
    if ranges.len() == 0 {
        Set::empty()
    } else {
        ranges_gone(lists, ranges.drop_last()).union(
            pass_gone(lists_after_ranges(lists, ranges.drop_last()), in_range(ranges.last().0, ranges.last().1)),
        )
    }
}

/// Removes from a module the characteristics, measurements, instances, axis
/// points and blobs with an address in one of the ranges (`start..=end`),
/// range after range, and the references to them from its groups. Gives a
/// message for each removed item and the number of distinct names removed.
pub fn remove_address_ranges(module: &mut ModuleItems, ranges: &[(u64, u64)]) -> (r: (Vec<String>, usize))
    ensures
        item_lists(*final(module)) == lists_after_ranges(item_lists(*old(module)), ranges@),
        groups_cleaned(*old(module), *final(module), ranges_gone(item_lists(*old(module)), ranges@)),
        texts(r.0@) == ranges_log(item_lists(*old(module)), ranges@),
        r.1 == ranges_gone(item_lists(*old(module)), ranges@).len(),
{
    let ghost lists = item_lists(*module);
    let ghost groups0 = *module;
    let mut log: Vec<String> = Vec::new();
    let mut removed: Vec<String> = Vec::new();
    assert(texts(removed@) =~= Seq::<Seq<char>>::empty());
    assert(texts(removed@).to_set() =~= Set::<Seq<char>>::empty());
    assert(texts(log@) =~= Seq::<Seq<char>>::empty());
    assert(ranges@.subrange(0, 0) =~= Seq::<(u64, u64)>::empty());
    let mut k: usize = 0;
    while k < ranges.len()
        invariant
            k <= ranges@.len(),
            lists.len() == 5,
            item_lists(*module) == lists_after_ranges(lists, ranges@.subrange(0, k as int)),
            module.group == groups0.group,
            texts(log@) == ranges_log(lists, ranges@.subrange(0, k as int)),
            texts(removed@).no_duplicates(),
            texts(removed@).to_set() == ranges_gone(lists, ranges@.subrange(0, k as int)),
        decreases ranges@.len() - k,
    {
        let (start, end) = ranges[k];
        let ghost sub = ranges@.subrange(0, k + 1);
        let ghost before = item_lists(*module);
        let ghost removed_before = texts(removed@).to_set();
        let ghost log_before = texts(log@);
        proof {
            assert(sub.drop_last() =~= ranges@.subrange(0, k as int));
            assert(sub.last() == ranges@[k as int]);
        }
        remove_items_in_range(&mut module.characteristic, start, end, "characteristic", &mut log, &mut removed);
        remove_items_in_range(&mut module.measurement, start, end, "measurement", &mut log, &mut removed);
        remove_items_in_range(&mut module.instance, start, end, "instance", &mut log, &mut removed);
        remove_items_in_range(&mut module.axis_pts, start, end, "axis points", &mut log, &mut removed);
        remove_items_in_range(&mut module.blob, start, end, "blob", &mut log, &mut removed);
        proof {
            let gone = in_range(start, end);
            assert(item_lists(*module) =~= pass_lists(before, gone));
            assert(texts(removed@).to_set() =~= removed_before.union(pass_gone(before, gone)));
            assert(texts(log@) =~= log_before + range_pass_log(before, start, end));
        }
        k += 1;
    }
    assert(ranges@.subrange(0, ranges@.len() as int) =~= ranges@);
    clean_up_groups(&mut module.group, &removed);
    proof {
        texts(removed@).unique_seq_to_set();
    }
    (log, removed.len())
}

proof fn lemma_kept(items: Seq<ItemAddress>, gone: spec_fn(ItemAddress) -> bool)
    ensures
        forall|i: int| 0 <= i < kept(items, gone).len() ==> !gone(#[trigger] kept(items, gone)[i]) && items.contains(
            kept(items, gone)[i],
        ),
    decreases items.len(),
{
    if items.len() > 0 {
        let pre = items.drop_last();
        lemma_kept(pre, gone);
        assert forall|i: int| 0 <= i < kept(items, gone).len() implies !gone(#[trigger] kept(items, gone)[i])
            && items.contains(kept(items, gone)[i]) by {
            if i < kept(pre, gone).len() {
                assert(kept(items, gone)[i] == kept(pre, gone)[i]);
                let j = choose|j: int| 0 <= j < pre.len() && pre[j] == kept(pre, gone)[i];
                assert(items[j] == pre[j]);
            } else {
                assert(kept(items, gone)[i] == items.last());
                assert(items[items.len() - 1] == items.last());
            }
        }
    }
}

proof fn lemma_names_left(names: Seq<Seq<char>>, removed: Set<Seq<char>>)
    ensures
        forall|i: int| 0 <= i < names_left(names, removed).len() ==> !removed.contains(
            #[trigger] names_left(names, removed)[i],
        ),
    decreases names.len(),
{
    if names.len() > 0 {
        let pre = names.drop_last();
        lemma_names_left(pre, removed);
        assert forall|i: int| 0 <= i < names_left(names, removed).len() implies !removed.contains(
            #[trigger] names_left(names, removed)[i],
        ) by {
            if i < names_left(pre, removed).len() {
                assert(names_left(names, removed)[i] == names_left(pre, removed)[i]);
            }
        }
    }
}

/// Removing by names leaves no item whose name one of the expressions
/// matches, in any of the item lists.
pub proof fn law_no_matching_name_left(lists: Seq<Seq<ItemAddress>>, patterns: Seq<Seq<char>>)
    ensures
        forall|k: int, i: int|
            0 <= k < lists.len() && 0 <= i < pass_lists(lists, matched_by(patterns))[k].len() ==> !any_match(
                patterns,
                (#[trigger] pass_lists(lists, matched_by(patterns))[k][i]).name@,
            ),
{
    assert forall|k: int, i: int|
        0 <= k < lists.len() && 0 <= i < pass_lists(lists, matched_by(patterns))[k].len() implies !any_match(
        patterns,
        (#[trigger] pass_lists(lists, matched_by(patterns))[k][i]).name@,
    ) by {
        lemma_kept(lists[k], matched_by(patterns));
        assert(pass_lists(lists, matched_by(patterns))[k] == kept(lists[k], matched_by(patterns)));
    }
}

/// Removing address ranges leaves no item with an address in one of the
/// ranges, in any of the item lists.
pub proof fn law_no_item_left_in_ranges(lists: Seq<Seq<ItemAddress>>, ranges: Seq<(u64, u64)>)
    ensures
        lists_after_ranges(lists, ranges).len() == lists.len(),
        forall|k: int, i: int, j: int|
            #![trigger lists_after_ranges(lists, ranges)[k][i], ranges[j]]
            0 <= k < lists.len() && 0 <= i < lists_after_ranges(lists, ranges)[k].len() && 0 <= j < ranges.len()
                ==> !in_range(ranges[j].0, ranges[j].1)(lists_after_ranges(lists, ranges)[k][i]),
    decreases ranges.len(),
{
    if ranges.len() > 0 {
        let pre = ranges.drop_last();
        let before = lists_after_ranges(lists, pre);
        let gone = in_range(ranges.last().0, ranges.last().1);
        law_no_item_left_in_ranges(lists, pre);
        assert forall|k: int, i: int, j: int|
            #![trigger lists_after_ranges(lists, ranges)[k][i], ranges[j]]
            0 <= k < lists.len() && 0 <= i < lists_after_ranges(lists, ranges)[k].len() && 0 <= j < ranges.len()
                implies !in_range(ranges[j].0, ranges[j].1)(lists_after_ranges(lists, ranges)[k][i]) by {
            lemma_kept(before[k], gone);
            let it = lists_after_ranges(lists, ranges)[k][i];
            assert(lists_after_ranges(lists, ranges)[k] == kept(before[k], gone));
            if j < ranges.len() - 1 {
                let m = choose|m: int| 0 <= m < before[k].len() && before[k][m] == it;
                assert(ranges[j] == pre[j]);
                assert(!in_range(pre[j].0, pre[j].1)(before[k][m]));
            }
        }
    }
}

/// A reference list that is left after cleaning holds none of the removed
/// names, and is not empty.
pub proof fn law_cleaned_refs_hold_no_removed_name(refs: Option<Vec<String>>, removed: Set<Seq<char>>)
    ensures
        cleaned_refs(refs, removed) matches Some(v) ==> v.len() > 0 && forall|i: int|
            0 <= i < v.len() ==> !removed.contains(#[trigger] v[i]),
{
    if let Some(v) = refs {
        lemma_names_left(texts(v@), removed);
    }
}

} // verus!
