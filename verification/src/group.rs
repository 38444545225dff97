//! The groups of a module: their names and the measurements and
//! characteristics they refer to, and how newly inserted items are added to
//! a group.

use vstd::prelude::*;
use crate::text::str_eq;
use crate::creator::definitions::{GroupAttribute, SpecGroupAttribute, SpecOverwriteSpec};
use crate::creator::overwrite::{found_overwrite, get_overwrite_group, lookup_allowed, InstanceElement, OverwriteKind};

verus! {

/// A group of a module: its name and description, whether it is a root
/// group, the names of its sub-groups, and the names of the measurements and
/// characteristics it refers to, where it has such lists.
pub struct Group {
    pub name: String,
    pub long_identifier: String,
    pub root: bool,
    pub sub_group: Option<Vec<String>>,
    pub ref_measurement: Option<Vec<String>>,
    pub ref_characteristic: Option<Vec<String>>,
}

/// The texts of a list of strings.
pub open spec fn texts(v: Seq<String>) -> Seq<Seq<char>> {
    v.map_values(|s: String| s@)
}

/// The names a reference list holds, if there is one.
pub open spec fn refs_view(refs: Option<Vec<String>>) -> Option<Seq<Seq<char>>> {
    match refs {
        Some(v) => Some(texts(v@)),
        None => None,
    }
}

/// A reference list with `added` appended; a list is made where there was
/// none, but only if something is added.
pub open spec fn extended_refs(refs: Option<Seq<Seq<char>>>, added: Seq<Seq<char>>) -> Option<Seq<Seq<char>>> {
    if added.len() == 0 {
        refs
    } else {
        match refs {
            Some(s) => Some(s + added),
            None => Some(added),
        }
    }
}

/// Whether `i` is the index of the first group named `name`.
pub open spec fn is_first_named(groups: Seq<Group>, name: Seq<char>, i: int) -> bool {
    &&& 0 <= i < groups.len()
    &&& groups[i].name@ == name
    &&& forall|j: int| 0 <= j < i ==> (#[trigger] groups[j]).name@ != name
}

/// Whether no group is named `name`.
pub open spec fn none_named(groups: Seq<Group>, name: Seq<char>) -> bool {
    forall|j: int| 0 <= j < groups.len() ==> (#[trigger] groups[j]).name@ != name
}

/// Whether `after` is the group `before` with the measurement and
/// characteristic names appended to its references.
pub open spec fn group_extended(
    before: Group,
    after: Group,
    characteristics: Seq<Seq<char>>,
    measurements: Seq<Seq<char>>,
) -> bool {
    &&& after.name@ == before.name@
    &&& after.long_identifier@ == before.long_identifier@
    &&& after.root == before.root
    &&& refs_view(after.sub_group) == refs_view(before.sub_group)
    &&& refs_view(after.ref_characteristic) == extended_refs(refs_view(before.ref_characteristic), characteristics)
    &&& refs_view(after.ref_measurement) == extended_refs(refs_view(before.ref_measurement), measurements)
}

/// Whether `after` are the groups `before` once the characteristic and
/// measurement names are added to the first group named `name`, or, where
/// there is none, to a new root group of that name after the others.
pub open spec fn group_updated(
    before: Seq<Group>,
    after: Seq<Group>,
    name: Seq<char>,
    characteristics: Seq<Seq<char>>,
    measurements: Seq<Seq<char>>,
) -> bool {
    &&& forall|i: int| #[trigger] is_first_named(before, name, i) ==> {
        &&& after.len() == before.len()
        &&& group_extended(before[i], after[i], characteristics, measurements)
        &&& forall|j: int| 0 <= j < before.len() && j != i ==> after[j] == before[j]
    }
    &&& none_named(before, name) ==> {
        &&& after.len() == before.len() + 1
        &&& forall|j: int| 0 <= j < before.len() ==> after[j] == before[j]
        &&& after.last().name@ == name
        &&& after.last().long_identifier@ == Seq::<char>::empty()
        &&& after.last().root
        &&& after.last().sub_group is None
        &&& refs_view(after.last().ref_characteristic) == extended_refs(None, characteristics)
        &&& refs_view(after.last().ref_measurement) == extended_refs(None, measurements)
    }
}

/// A reference list with the names of `added` appended (see
/// `extended_refs`).
fn extend_refs(refs: Option<Vec<String>>, added: Vec<String>) -> (r: Option<Vec<String>>)
    ensures
        refs_view(r) == extended_refs(refs_view(refs), texts(added@)),
{
    if added.len() == 0 {
        return refs;
    }
    let mut list = match refs {
        Some(v) => v,
        None => Vec::new(),
    };
    let ghost start = texts(list@);
    let mut i: usize = 0;
    while i < added.len()
        invariant
            i <= added@.len(),
            texts(list@) == start + texts(added@).subrange(0, i as int),
        decreases added@.len() - i,
    {
        let ghost before = list@;
        let name = added[i].clone();
        assert(name@ == added@[i as int]@);
        list.push(name);
        assert(texts(list@) =~= texts(before).push(added@[i as int]@));
        assert(texts(added@).subrange(0, i + 1) =~= texts(added@).subrange(0, i as int).push(added@[i as int]@));
        assert(texts(list@) =~= start + texts(added@).subrange(0, i + 1));
        i += 1;
    }
    assert(texts(added@).subrange(0, added@.len() as int) =~= texts(added@));
    proof {
        if refs is None {
            assert(start + texts(added@) =~= texts(added@));
        }
    }
    Some(list)
}

/// The index of the first group named `name`, if there is one.
fn find_group(groups: &Vec<Group>, name: &str) -> (r: Option<usize>)
    ensures
        r matches Some(i) ==> is_first_named(groups@, name@, i as int),
        r is None ==> none_named(groups@, name@),
{
    let mut i: usize = 0;
    while i < groups.len()
        invariant
            i <= groups@.len(),
            forall|j: int| 0 <= j < i ==> (#[trigger] groups@[j]).name@ != name@,
        decreases groups@.len() - i,
    {
        if str_eq(groups[i].name.as_str(), name) {
            return Some(i);
        }
        i += 1;
    }
    None
}

/// Adds the names of newly inserted characteristics and measurements to the
/// first group named `group_name`, at the end of its reference lists. Where
/// there is no such group, a root group of that name is added after the
/// others. A reference list is made only for a kind of which something is
/// added.
pub fn create_or_update_group(
    groups: &mut Vec<Group>,
    group_name: &str,
    characteristic_list: Vec<String>,
    measurement_list: Vec<String>,
)
    ensures
        group_updated(
            old(groups)@,
            final(groups)@,
            group_name@,
            texts(characteristic_list@),
            texts(measurement_list@),
        ),
{
    match find_group(groups, group_name) {
        Some(i) => {
            let old_group = groups.remove(i);
            let updated = Group {
                name: old_group.name,
                long_identifier: old_group.long_identifier,
                root: old_group.root,
                sub_group: old_group.sub_group,
                ref_measurement: extend_refs(old_group.ref_measurement, measurement_list),
                ref_characteristic: extend_refs(old_group.ref_characteristic, characteristic_list),
            };
            groups.insert(i, updated);
            proof {
                assert forall|k: int| #[trigger] is_first_named(old(groups)@, group_name@, k) implies k
                    == i by {
                    if k < i {
                        assert(old(groups)@[k].name@ != group_name@);
                    }
                    if i < k {
                        assert(old(groups)@[i as int].name@ != group_name@);
                    }
                }
            }
        },
        None => {
            let group = Group {
                name: String::from_str(group_name),
                long_identifier: String::new(),
                root: true,
                sub_group: None,
                ref_measurement: extend_refs(None, measurement_list),
                ref_characteristic: extend_refs(None, characteristic_list),
            };
            groups.push(group);
        },
    }
}


/// The mathematical view of a group.
pub struct GroupView {
    pub name: Seq<char>,
    pub long_identifier: Seq<char>,
    pub root: bool,
    pub sub_group: Option<Seq<Seq<char>>>,
    pub ref_measurement: Option<Seq<Seq<char>>>,
    pub ref_characteristic: Option<Seq<Seq<char>>>,
}

impl View for Group {
    type V = GroupView;

    open spec fn view(&self) -> GroupView {
        GroupView {
            name: self.name@,
            long_identifier: self.long_identifier@,
            root: self.root,
            sub_group: refs_view(self.sub_group),
            ref_measurement: refs_view(self.ref_measurement),
            ref_characteristic: refs_view(self.ref_characteristic),
        }
    }
}

/// The views of a list of groups.
pub open spec fn group_views(s: Seq<Group>) -> Seq<GroupView> {
    s.map_values(|g: Group| g@)
}

/// The first group from `k` on named `name`.
pub open spec fn first_group(gs: Seq<GroupView>, name: Seq<char>, k: int) -> Option<int>
    decreases gs.len() - k,
{
    if k < 0 || k >= gs.len() {
        None
    } else if gs[k].name == name {
        Some(k)
    } else {
        first_group(gs, name, k + 1)
    }
}

/// The groups with one named `name` added, with the given description and
/// root flag, where there is none.
pub open spec fn with_group(gs: Seq<GroupView>, name: Seq<char>, desc: Seq<char>, root: bool) -> Seq<GroupView> {
    if first_group(gs, name, 0) is Some {
        gs
    } else {
        gs.push(
            GroupView {
                name,
                long_identifier: desc,
                root,
                sub_group: None,
                ref_measurement: None,
                ref_characteristic: None,
            },
        )
    }
}

/// A list of names with `x` added at the end unless it holds it; a list is
/// made where there was none.
pub open spec fn add_to_list(l: Option<Seq<Seq<char>>>, x: Seq<char>) -> Option<Seq<Seq<char>>> {
    let s = match l {
        Some(s) => s,
        None => seq![],
    };
    Some(
        if s.contains(x) {
            s
        } else {
            s.push(x)
        },
    )
}

/// The groups with `child` among the sub-groups of the first group named
/// `name`.
pub open spec fn with_sub(gs: Seq<GroupView>, name: Seq<char>, child: Seq<char>) -> Seq<GroupView> {
    match first_group(gs, name, 0) {
        Some(i) => gs.update(i, GroupView { sub_group: add_to_list(gs[i].sub_group, child), ..gs[i] }),
        None => gs,
    }
}

/// A list of names with `x` appended; a list is made where there was none.
pub open spec fn append_to_list(l: Option<Seq<Seq<char>>>, x: Seq<char>) -> Option<Seq<Seq<char>>> {
    match l {
        Some(s) => Some(s.push(x)),
        None => Some(seq![x]),
    }
}

/// The groups with `item` appended to the measurements (or characteristics)
/// of the first group named `name`.
pub open spec fn with_ref(gs: Seq<GroupView>, name: Seq<char>, item: Seq<char>, is_measurement: bool) -> Seq<
    GroupView,
> {
    match first_group(gs, name, 0) {
        Some(i) => if is_measurement {
            gs.update(i, GroupView { ref_measurement: append_to_list(gs[i].ref_measurement, item), ..gs[i] })
        } else {
            gs.update(i, GroupView { ref_characteristic: append_to_list(gs[i].ref_characteristic, item), ..gs[i] })
        },
        None => gs,
    }
}

/// The description of the first sub-group entry named `name`, or none.
pub open spec fn description_of(descs: Seq<(String, String)>, name: Seq<char>) -> Seq<char>
    decreases descs.len(),
{
    if descs.len() == 0 {
        seq![]
    } else if descs[0].0@ == name {
        descs[0].1@
    } else {
        description_of(descs.drop_first(), name)
    }
}

/// The groups once each group of the path from `idx` on exists and lists
/// the next one as a sub-group.
pub open spec fn group_chain(gs: Seq<GroupView>, path: Seq<Seq<char>>, descs: Seq<(String, String)>, idx: int) -> Seq<
    GroupView,
>
    decreases path.len() - idx,
{
    if idx < 0 || idx >= path.len() {
        gs
    } else {
        let g1 = with_group(gs, path[idx], description_of(descs, path[idx]), false);
        let g2 = if idx + 1 < path.len() {
            with_sub(g1, path[idx], path[idx + 1])
        } else {
            g1
        };
        group_chain(g2, path, descs, idx + 1)
    }
}

/// The groups once an item is entered under a group path: the main group
/// (a root group) exists and has the first group of the path as a
/// sub-group, each group of the path exists and has the next as a
/// sub-group, and the last one refers to the item. Nothing changes for an
/// empty path.
pub open spec fn group_entry(
    gs: Seq<GroupView>,
    main: Seq<char>,
    main_desc: Seq<char>,
    descs: Seq<(String, String)>,
    path: Seq<Seq<char>>,
    item: Seq<char>,
    is_measurement: bool,
) -> Seq<GroupView> {
    if path.len() == 0 {
        gs
    } else {
        let g1 = with_group(gs, main, main_desc, true);
        let g2 = with_sub(g1, main, path[0]);
        let g3 = group_chain(g2, path, descs, 0);
        with_ref(g3, path.last(), item, is_measurement)
    }
}

proof fn lemma_first_group(gs: Seq<GroupView>, name: Seq<char>, k: int)
    requires
        0 <= k,
    ensures
        first_group(gs, name, k) matches Some(i) ==> k <= i < gs.len() && gs[i].name == name,
    decreases gs.len() - k,
{
    if k < gs.len() && gs[k].name != name {
        lemma_first_group(gs, name, k + 1);
    }
}

fn first_group_index(groups: &Vec<Group>, name: &str) -> (r: Option<usize>)
    ensures
        match r {
            Some(i) => first_group(group_views(groups@), name@, 0) == Some(i as int) && i < groups@.len(),
            None => first_group(group_views(groups@), name@, 0) is None,
        },
{
    let ghost v = group_views(groups@);
    let mut k: usize = 0;
    while k < groups.len()
        invariant
            k <= groups@.len(),
            v == group_views(groups@),
            first_group(v, name@, 0) == first_group(v, name@, k as int),
        decreases groups@.len() - k,
    {
        if str_eq(groups[k].name.as_str(), name) {
            return Some(k);
        }
        k += 1;
    }
    None
}

fn ensure_group(groups: &mut Vec<Group>, name: &str, desc: String, root: bool)
    ensures
        group_views(final(groups)@) == with_group(group_views(old(groups)@), name@, desc@, root),
{
    if first_group_index(groups, name).is_none() {
        let ghost before = group_views(groups@);
        groups.push(
            Group {
                name: String::from_str(name),
                long_identifier: desc,
                root,
                sub_group: None,
                ref_measurement: None,
                ref_characteristic: None,
            },
        );
        assert(group_views(groups@) =~= with_group(before, name@, desc@, root));
    }
}

fn list_contains(names: &Vec<String>, name: &str) -> (r: bool)
    ensures
        r == texts(names@).contains(name@),
{
    let mut i: usize = 0;
    while i < names.len()
        invariant
            i <= names@.len(),
            forall|j: int| 0 <= j < i ==> texts(names@)[j] != name@,
        decreases names@.len() - i,
    {
        if str_eq(names[i].as_str(), name) {
            assert(texts(names@)[i as int] == name@);
            return true;
        }
        i += 1;
    }
    false
}

fn add_to_names(l: Option<Vec<String>>, x: &str, dedupe: bool) -> (r: Option<Vec<String>>)
    ensures
        refs_view(r) == if dedupe {
            add_to_list(refs_view(l), x@)
        } else {
            append_to_list(refs_view(l), x@)
        },
{
    let mut list = match l {
        Some(v) => v,
        None => Vec::new(),
    };
    let ghost start = texts(list@);
    assert(refs_view(l) matches Some(s) ==> s == start);
    assert(refs_view(l) is None ==> start =~= Seq::<Seq<char>>::empty());
    if !dedupe || !list_contains(&list, x) {
        list.push(String::from_str(x));
        assert(texts(list@) =~= start.push(x@));
    }
    Some(list)
}

fn add_sub(groups: &mut Vec<Group>, name: &str, child: &str)
    ensures
        group_views(final(groups)@) == with_sub(group_views(old(groups)@), name@, child@),
{
    let ghost before = group_views(groups@);
    if let Some(i) = first_group_index(groups, name) {
        let ghost old_groups = groups@;
        let g = groups.remove(i);
        assert(g@ == before[i as int]);
        let updated = Group {
            name: g.name,
            long_identifier: g.long_identifier,
            root: g.root,
            sub_group: add_to_names(g.sub_group, child, true),
            ref_measurement: g.ref_measurement,
            ref_characteristic: g.ref_characteristic,
        };
        let ghost uv = updated@;
        groups.insert(i, updated);
        assert(groups@ =~= old_groups.remove(i as int).insert(i as int, groups@[i as int]));
        assert(group_views(groups@) =~= before.update(i as int, uv));
        assert(group_views(groups@) =~= with_sub(before, name@, child@));
    }
}

fn add_ref(groups: &mut Vec<Group>, name: &str, item: &str, is_measurement: bool)
    ensures
        group_views(final(groups)@) == with_ref(group_views(old(groups)@), name@, item@, is_measurement),
{
    let ghost before = group_views(groups@);
    if let Some(i) = first_group_index(groups, name) {
        let ghost old_groups = groups@;
        let g = groups.remove(i);
        assert(g@ == before[i as int]);
        let updated = if is_measurement {
            Group {
                name: g.name,
                long_identifier: g.long_identifier,
                root: g.root,
                sub_group: g.sub_group,
                ref_measurement: add_to_names(g.ref_measurement, item, false),
                ref_characteristic: g.ref_characteristic,
            }
        } else {
            Group {
                name: g.name,
                long_identifier: g.long_identifier,
                root: g.root,
                sub_group: g.sub_group,
                ref_measurement: g.ref_measurement,
                ref_characteristic: add_to_names(g.ref_characteristic, item, false),
            }
        };
        let ghost uv = updated@;
        groups.insert(i, updated);
        assert(groups@ =~= old_groups.remove(i as int).insert(i as int, groups@[i as int]));
        assert(group_views(groups@) =~= before.update(i as int, uv));
        assert(group_views(groups@) =~= with_ref(before, name@, item@, is_measurement));
    }
}

fn find_description(descs: &[(String, String)], name: &str) -> (r: String)
    ensures
        r@ == description_of(descs@, name@),
{
    let mut i: usize = 0;
    assert(descs@.subrange(0, descs@.len() as int) =~= descs@);
    while i < descs.len()
        invariant
            i <= descs@.len(),
            description_of(descs@, name@) == description_of(descs@.subrange(i as int, descs@.len() as int), name@),
        decreases descs@.len() - i,
    {
        let ghost rest = descs@.subrange(i as int, descs@.len() as int);
        assert(rest.drop_first() =~= descs@.subrange(i + 1, descs@.len() as int));
        if str_eq(descs[i].0.as_str(), name) {
            return descs[i].1.clone();
        }
        i += 1;
    }
    assert(descs@.subrange(i as int, descs@.len() as int) =~= Seq::<(String, String)>::empty());
    String::new()
}

/// Enters an item under a group path (see `group_entry`): `main_group` is
/// the name of the main group, with its description where one is given;
/// sub-groups get the description that `sub_group_descriptions` holds for
/// them, or none.
pub fn create_group_entry(
    groups: &mut Vec<Group>,
    main_group: &str,
    main_group_description: &Option<String>,
    sub_group_descriptions: &[(String, String)],
    group_spec: &[String],
    item_name: &str,
    is_measurement: bool,
)
    ensures
        group_views(final(groups)@) == group_entry(
            group_views(old(groups)@),
            main_group@,
            match main_group_description {
                Some(d) => d@,
                None => seq![],
            },
            sub_group_descriptions@,
            texts(group_spec@),
            item_name@,
            is_measurement,
        ),
{
    if group_spec.len() == 0 {
        return;
    }
    let ghost path = texts(group_spec@);
    let main_desc = match main_group_description {
        Some(d) => d.clone(),
        None => String::new(),
    };
    ensure_group(groups, main_group, main_desc, true);
    add_sub(groups, main_group, group_spec[0].as_str());
    let ghost g2 = group_views(groups@);
    let mut idx: usize = 0;
    while idx < group_spec.len()
        invariant
            idx <= group_spec@.len(),
            path == texts(group_spec@),
            group_chain(group_views(groups@), path, sub_group_descriptions@, idx as int) == group_chain(
                g2,
                path,
                sub_group_descriptions@,
                0,
            ),
        decreases group_spec@.len() - idx,
    {
        let desc = find_description(sub_group_descriptions, group_spec[idx].as_str());
        ensure_group(groups, group_spec[idx].as_str(), desc, false);
        if idx + 1 < group_spec.len() {
            add_sub(groups, group_spec[idx].as_str(), group_spec[idx + 1].as_str());
        }
        idx += 1;
    }
    add_ref(groups, group_spec[group_spec.len() - 1].as_str(), item_name, is_measurement);
}


/// The group path of a group attribute, whatever its direction.
pub open spec fn group_path(g: SpecGroupAttribute) -> Seq<Seq<char>> {
    match g {
        SpecGroupAttribute::In(p) => p,
        SpecGroupAttribute::Out(p) => p,
        SpecGroupAttribute::Def(p) => p,
        SpecGroupAttribute::Std(p) => p,
    }
}

/// The group paths an item is entered under: that of a group overwrite of
/// its instance element, else that of the instance's group, else those of
/// its own group attributes.
pub open spec fn assigned_paths(ie: Option<&InstanceElement>, attrs: Seq<SpecGroupAttribute>) -> Seq<Seq<Seq<char>>> {
    match found_overwrite(ie, OverwriteKind::Group) {
        Some(SpecOverwriteSpec::GroupAssignment(g)) => seq![group_path(g)],
        _ => match ie {
            Some(e) => match e.instance_group.deep_view() {
                Some(g) => seq![group_path(g)],
                None => attrs.map_values(|a: SpecGroupAttribute| group_path(a)),
            },
            None => attrs.map_values(|a: SpecGroupAttribute| group_path(a)),
        },
    }
}

/// The groups once an item is entered under each of the paths in turn.
pub open spec fn entries_for(
    gs: Seq<GroupView>,
    paths: Seq<Seq<Seq<char>>>,
    main: Seq<char>,
    main_desc: Seq<char>,
    descs: Seq<(String, String)>,
    item: Seq<char>,
    is_measurement: bool,
) -> Seq<GroupView>
    decreases paths.len(),
{
    if paths.len() == 0 {
        gs
    } else {
        entries_for(
            group_entry(gs, main, main_desc, descs, paths[0], item, is_measurement),
            paths.drop_first(),
            main,
            main_desc,
            descs,
            item,
            is_measurement,
        )
    }
}

fn path_of(g: &GroupAttribute) -> (r: &Vec<String>)
    ensures
        texts(r@) == group_path(g.deep_view()),
{
    let r = match g {
        GroupAttribute::In(p) => p,
        GroupAttribute::Out(p) => p,
        GroupAttribute::Def(p) => p,
        GroupAttribute::Std(p) => p,
    };
    assert(texts(r@) =~= group_path(g.deep_view()));
    r
}

/// Enters an item under the group paths assigned to it (see
/// `assigned_paths`), each in turn (see `create_group_entry`).
pub fn handle_group_assignment<'a>(
    groups: &mut Vec<Group>,
    main_group: &str,
    main_group_description: &Option<String>,
    sub_group_descriptions: &[(String, String)],
    instance_element: Option<&InstanceElement<'a>>,
    group_attributes: &[GroupAttribute],
    item_name: &str,
    is_input: bool,
)
    requires
        lookup_allowed(instance_element, OverwriteKind::Group),
    ensures
        group_views(final(groups)@) == entries_for(
            group_views(old(groups)@),
            assigned_paths(instance_element, group_attributes.deep_view()),
            main_group@,
            match main_group_description {
                Some(d) => d@,
                None => seq![],
            },
            sub_group_descriptions@,
            item_name@,
            is_input,
        ),
{
    let ghost md = match main_group_description {
        Some(d) => d@,
        None => seq![],
    };
    let ghost g0 = group_views(groups@);
    if let Some(group_attr) = get_overwrite_group(instance_element) {
        let p = path_of(group_attr);
        create_group_entry(groups, main_group, main_group_description, sub_group_descriptions, p.as_slice(), item_name, is_input);
        proof {
            let paths = assigned_paths(instance_element, group_attributes.deep_view());
            assert(paths =~= seq![texts(p@)]);
            assert(paths.drop_first() =~= Seq::<Seq<Seq<char>>>::empty());
            assert(entries_for(g0, paths, main_group@, md, sub_group_descriptions@, item_name@, is_input) == entries_for(
                group_entry(g0, main_group@, md, sub_group_descriptions@, paths[0], item_name@, is_input),
                paths.drop_first(),
                main_group@,
                md,
                sub_group_descriptions@,
                item_name@,
                is_input,
            ));
        }
        return;
    }
    if let Some(ie) = instance_element {
        if let Some(group_attr) = ie.instance_group {
            let p = path_of(group_attr);
            create_group_entry(groups, main_group, main_group_description, sub_group_descriptions, p.as_slice(), item_name, is_input);
            proof {
                let paths = assigned_paths(instance_element, group_attributes.deep_view());
                assert(ie.instance_group.deep_view() == Some(group_attr.deep_view()));
                assert(paths =~= seq![texts(p@)]);
                assert(paths.drop_first() =~= Seq::<Seq<Seq<char>>>::empty());
                assert(entries_for(g0, paths, main_group@, md, sub_group_descriptions@, item_name@, is_input) == entries_for(
                    group_entry(g0, main_group@, md, sub_group_descriptions@, paths[0], item_name@, is_input),
                    paths.drop_first(),
                    main_group@,
                    md,
                    sub_group_descriptions@,
                    item_name@,
                    is_input,
                ));
            }
            return;
        }
    }
    let ghost all = group_attributes.deep_view().map_values(|a: SpecGroupAttribute| group_path(a));
    assert(all == assigned_paths(instance_element, group_attributes.deep_view()));
    let mut k: usize = 0;
    assert(all.subrange(0, all.len() as int) =~= all);
    while k < group_attributes.len()
        invariant
            k <= group_attributes@.len(),
            all == group_attributes.deep_view().map_values(|a: SpecGroupAttribute| group_path(a)),
            entries_for(group_views(groups@), all.subrange(k as int, all.len() as int), main_group@, md, sub_group_descriptions@, item_name@, is_input)
                == entries_for(g0, all, main_group@, md, sub_group_descriptions@, item_name@, is_input),
            md == (match main_group_description {
                Some(d) => d@,
                None => seq![],
            }),
        decreases group_attributes@.len() - k,
    {
        let ghost rest = all.subrange(k as int, all.len() as int);
        assert(rest.drop_first() =~= all.subrange(k + 1, all.len() as int));
        assert(rest[0] == group_path(group_attributes@[k as int].deep_view()));
        let p = path_of(&group_attributes[k]);
        create_group_entry(groups, main_group, main_group_description, sub_group_descriptions, p.as_slice(), item_name, is_input);
        k += 1;
    }
    assert(all.subrange(k as int, all.len() as int) =~= Seq::<Seq<Seq<char>>>::empty());
}

} // verus!
