//! The overwrites of an instance: an instance of a structure may replace the
//! conversion, description, alias, group or range of each element that the
//! structure definition gives, element by element.

use vstd::prelude::*;
use crate::creator::definitions::{
    ConversionAttribute, FloatValue, GroupAttribute, Overwrite, OverwriteSpec,
    SpecConversionAttribute, SpecOverwrite, SpecOverwriteSpec,
};

verus! {

/// One element of an instance: the instance's name, the path of the element
/// (the structure name first, then the names of the members leading to the
/// element), the group of the instance and its overwrites.
pub struct InstanceElement<'a> {
    pub instance_name: String,
    pub struct_path: &'a [String],
    pub instance_group: &'a Option<GroupAttribute>,
    pub overwrites: &'a Vec<Overwrite>,
}

/// The kinds of overwrite that an element can be looked up for.
#[derive(Clone, Copy)]
pub enum OverwriteKind {
    Conversion,
    Description,
    Alias,
    Group,
    Range,
}

/// Whether an overwrite detail is of the given kind.
pub open spec fn kind_matches(kind: OverwriteKind, d: SpecOverwriteSpec) -> bool {
    match kind {
        OverwriteKind::Conversion => d is Conversion,
        OverwriteKind::Description => d is Description,
        OverwriteKind::Alias => d is Alias,
        OverwriteKind::Group => d is GroupAssignment,
        OverwriteKind::Range => d is Range,
    }
}

/// The index of the first overwrite from `i` on that is of the given kind and
/// whose element path is the struct path without its first name (the
/// structure's name).
pub open spec fn first_overwrite(
    ovs: Seq<SpecOverwrite>,
    struct_path: Seq<Seq<char>>,
    kind: OverwriteKind,
    i: int,
) -> Option<int>
    decreases ovs.len() - i,
{
    if i < 0 || i >= ovs.len() {
        None
    } else if kind_matches(kind, ovs[i].details) && ovs[i].element_path == struct_path.drop_first() {
        Some(i)
    } else {
        first_overwrite(ovs, struct_path, kind, i + 1)
    }
}

/// The overwrite of the given kind that applies to an element, if any.
pub open spec fn found_overwrite(ie: Option<&InstanceElement>, kind: OverwriteKind) -> Option<
    SpecOverwriteSpec,
> {
    match ie {
        None => None,
        Some(e) => match first_overwrite(
            e.overwrites.deep_view(),
            e.struct_path.deep_view(),
            kind,
            0,
        ) {
            Some(j) => Some(e.overwrites.deep_view()[j].details),
            None => None,
        },
    }
}

/// A lookup reads the element path from the struct path's second name on
/// when it meets an overwrite of the kind it looks for; so either the struct
/// path has a first name, or there is no such overwrite.
pub open spec fn lookup_allowed(ie: Option<&InstanceElement>, kind: OverwriteKind) -> bool {
    match ie {
        None => true,
        Some(e) => e.struct_path@.len() >= 1 || forall|j: int|
            0 <= j < e.overwrites@.len() ==> !kind_matches(
                kind,
                #[trigger] e.overwrites.deep_view()[j].details,
            ),
    }
}

proof fn lemma_first_overwrite(
    ovs: Seq<SpecOverwrite>,
    struct_path: Seq<Seq<char>>,
    kind: OverwriteKind,
    i: int,
)
    requires
        0 <= i,
    ensures
        match first_overwrite(ovs, struct_path, kind, i) {
            Some(j) => i <= j < ovs.len() && kind_matches(kind, ovs[j].details)
                && ovs[j].element_path == struct_path.drop_first(),
            None => true,
        },
    decreases ovs.len() - i,
{
    if i < ovs.len() {
        lemma_first_overwrite(ovs, struct_path, kind, i + 1);
    }
}

fn kind_of(kind: OverwriteKind, d: &OverwriteSpec) -> (r: bool)
    ensures
        r == kind_matches(kind, d.deep_view()),
{
    match (kind, d) {
        (OverwriteKind::Conversion, OverwriteSpec::Conversion(_)) => true,
        (OverwriteKind::Description, OverwriteSpec::Description(_)) => true,
        (OverwriteKind::Alias, OverwriteSpec::Alias(_)) => true,
        (OverwriteKind::Group, OverwriteSpec::GroupAssignment(_)) => true,
        (OverwriteKind::Range, OverwriteSpec::Range(_, _)) => true,
        _ => false,
    }
}

/// Whether `path` equals `struct_path` from index 1 on.
fn is_element_path(struct_path: &[String], path: &[String]) -> (r: bool)
    requires
        struct_path@.len() >= 1,
    ensures
        r == (path.deep_view() == struct_path.deep_view().drop_first()),
{
    let ghost sp = struct_path.deep_view();
    let ghost p = path.deep_view();
    if path.len() != struct_path.len() - 1 {
        assert(p.len() != sp.drop_first().len());
        return false;
    }
    let mut i: usize = 0;
    while i < path.len()
        invariant
            path@.len() + 1 == struct_path@.len(),
            i <= path@.len(),
            sp == struct_path.deep_view(),
            p == path.deep_view(),
            forall|j: int| 0 <= j < i ==> p[j] == sp[j + 1],
        decreases path@.len() - i,
    {
        if path[i] != struct_path[i + 1] {
            assert(p[i as int] != sp.drop_first()[i as int]);
            return false;
        }
        i += 1;
    }
    assert(p =~= sp.drop_first());
    true
}

/// The index of the overwrite of the given kind that applies to an element.
fn find_overwrite(ie: &InstanceElement, kind: OverwriteKind) -> (r: Option<usize>)
    requires
        lookup_allowed(Some(ie), kind),
    ensures
        r matches Some(j) ==> j < ie.overwrites@.len() && first_overwrite(
            ie.overwrites.deep_view(),
            ie.struct_path.deep_view(),
            kind,
            0,
        ) == Some(j as int),
        r is None ==> first_overwrite(
            ie.overwrites.deep_view(),
            ie.struct_path.deep_view(),
            kind,
            0,
        ) is None,
{
    let ghost ovs = ie.overwrites.deep_view();
    let ghost sp = ie.struct_path.deep_view();
    let mut i: usize = 0;
    while i < ie.overwrites.len()
        invariant
            i <= ie.overwrites@.len(),
            ovs == ie.overwrites.deep_view(),
            sp == ie.struct_path.deep_view(),
            lookup_allowed(Some(ie), kind),
            first_overwrite(ovs, sp, kind, 0) == first_overwrite(ovs, sp, kind, i as int),
        decreases ie.overwrites@.len() - i,
    {
        let ov = &ie.overwrites[i];
        assert(ov.deep_view() == ovs[i as int]);
        if kind_of(kind, &ov.details) {
            if is_element_path(ie.struct_path, ov.element_path.as_slice()) {
                return Some(i);
            }
        }
        i += 1;
    }
    None
}

/// The conversion that the instance gives the element in place of the one of
/// the structure definition.
pub fn get_overwrite_conversion<'a>(instance_element: Option<&InstanceElement<'a>>) -> (r: Option<
    &'a ConversionAttribute,
>)
    requires
        lookup_allowed(instance_element, OverwriteKind::Conversion),
    ensures
        match found_overwrite(instance_element, OverwriteKind::Conversion) {
            Some(SpecOverwriteSpec::Conversion(c)) => r matches Some(x) && x.deep_view() == c,
            _ => r is None,
        },
{
    let ie = match instance_element {
        Some(ie) => ie,
        None => return None,
    };
    let ovs: &'a Vec<Overwrite> = ie.overwrites;
    match find_overwrite(ie, OverwriteKind::Conversion) {
        Some(j) => {
            proof {
                lemma_first_overwrite(ovs.deep_view(), ie.struct_path.deep_view(), OverwriteKind::Conversion, 0);
                assert(ovs.deep_view()[j as int] == ovs[j as int].deep_view());
            }
            match &ovs[j].details {
                OverwriteSpec::Conversion(conv) => Some(conv),
                _ => None,
            }
        },
        None => None,
    }
}

/// The description that the instance gives the element.
pub fn get_overwrite_description<'a>(instance_element: Option<&InstanceElement<'a>>) -> (r: Option<
    &'a str,
>)
    requires
        lookup_allowed(instance_element, OverwriteKind::Description),
    ensures
        match found_overwrite(instance_element, OverwriteKind::Description) {
            Some(SpecOverwriteSpec::Description(d)) => r matches Some(x) && x@ == d,
            _ => r is None,
        },
{
    let ie = match instance_element {
        Some(ie) => ie,
        None => return None,
    };
    let ovs: &'a Vec<Overwrite> = ie.overwrites;
    match find_overwrite(ie, OverwriteKind::Description) {
        Some(j) => {
            proof {
                lemma_first_overwrite(ovs.deep_view(), ie.struct_path.deep_view(), OverwriteKind::Description, 0);
                assert(ovs.deep_view()[j as int] == ovs[j as int].deep_view());
            }
            match &ovs[j].details {
                OverwriteSpec::Description(desc) => Some(desc.as_str()),
                _ => None,
            }
        },
        None => None,
    }
}

/// The alias (the symbol name of the element) that the instance gives it.
pub fn get_overwrite_alias<'a>(instance_element: Option<&InstanceElement<'a>>) -> (r: Option<&'a str>)
    requires
        lookup_allowed(instance_element, OverwriteKind::Alias),
    ensures
        match found_overwrite(instance_element, OverwriteKind::Alias) {
            Some(SpecOverwriteSpec::Alias(a)) => r matches Some(x) && x@ == a,
            _ => r is None,
        },
{
    let ie = match instance_element {
        Some(ie) => ie,
        None => return None,
    };
    let ovs: &'a Vec<Overwrite> = ie.overwrites;
    match find_overwrite(ie, OverwriteKind::Alias) {
        Some(j) => {
            proof {
                lemma_first_overwrite(ovs.deep_view(), ie.struct_path.deep_view(), OverwriteKind::Alias, 0);
                assert(ovs.deep_view()[j as int] == ovs[j as int].deep_view());
            }
            match &ovs[j].details {
                OverwriteSpec::Alias(alias) => Some(alias.as_str()),
                _ => None,
            }
        },
        None => None,
    }
}

/// The group assignment that the instance gives the element.
pub fn get_overwrite_group<'a>(instance_element: Option<&InstanceElement<'a>>) -> (r: Option<
    &'a GroupAttribute,
>)
    requires
        lookup_allowed(instance_element, OverwriteKind::Group),
    ensures
        match found_overwrite(instance_element, OverwriteKind::Group) {
            Some(SpecOverwriteSpec::GroupAssignment(g)) => r matches Some(x) && x.deep_view() == g,
            _ => r is None,
        },
{
    let ie = match instance_element {
        Some(ie) => ie,
        None => return None,
    };
    let ovs: &'a Vec<Overwrite> = ie.overwrites;
    match find_overwrite(ie, OverwriteKind::Group) {
        Some(j) => {
            proof {
                lemma_first_overwrite(ovs.deep_view(), ie.struct_path.deep_view(), OverwriteKind::Group, 0);
                assert(ovs.deep_view()[j as int] == ovs[j as int].deep_view());
            }
            match &ovs[j].details {
                OverwriteSpec::GroupAssignment(group) => Some(group),
                _ => None,
            }
        },
        None => None,
    }
}

/// The range (lower and upper limit) that the instance gives the element.
pub fn get_overwrite_range<'a>(instance_element: Option<&InstanceElement<'a>>) -> (r: Option<
    (&'a FloatValue, &'a FloatValue),
>)
    requires
        lookup_allowed(instance_element, OverwriteKind::Range),
    ensures
        match found_overwrite(instance_element, OverwriteKind::Range) {
            Some(SpecOverwriteSpec::Range(lo, hi)) => r matches Some((x, y)) && x.deep_view() == lo
                && y.deep_view() == hi,
            _ => r is None,
        },
{
    let ie = match instance_element {
        Some(ie) => ie,
        None => return None,
    };
    let ovs: &'a Vec<Overwrite> = ie.overwrites;
    match find_overwrite(ie, OverwriteKind::Range) {
        Some(j) => {
            proof {
                lemma_first_overwrite(ovs.deep_view(), ie.struct_path.deep_view(), OverwriteKind::Range, 0);
                assert(ovs.deep_view()[j as int] == ovs[j as int].deep_view());
            }
            match &ovs[j].details {
                OverwriteSpec::Range(lower, upper) => Some((lower, upper)),
                _ => None,
            }
        },
        None => None,
    }
}

/// The description of an element: the instance's overwrite if there is one,
/// else the one of the configuration, else the empty text.
pub fn choose_description<'a>(config: Option<&'a str>, instance_element: Option<&InstanceElement<'a>>) -> (r: &'a str)
    requires
        lookup_allowed(instance_element, OverwriteKind::Description),
    ensures
        r@ == match found_overwrite(instance_element, OverwriteKind::Description) {
            Some(SpecOverwriteSpec::Description(d)) => d,
            _ => match config {
                Some(c) => c@,
                None => Seq::<char>::empty(),
            },
        },
{
    if let Some(overwrite_desc) = get_overwrite_description(instance_element) {
        overwrite_desc
    } else {
        match config {
            Some(c) => c,
            None => {
                let empty = "";
                proof {
                    reveal_strlit("");
                }
                empty
            },
        }
    }
}

/// The conversion of an element: the instance's overwrite if there is one,
/// else the one of the configuration.
pub fn choose_conversion<'a>(
    config: &'a Option<ConversionAttribute>,
    instance_element: Option<&InstanceElement<'a>>,
) -> (r: Option<&'a ConversionAttribute>)
    requires
        lookup_allowed(instance_element, OverwriteKind::Conversion),
    ensures
        r.deep_view() == match found_overwrite(instance_element, OverwriteKind::Conversion) {
            Some(SpecOverwriteSpec::Conversion(c)) => Some(c),
            _ => config.deep_view(),
        },
{
    if let Some(overwrite_conv) = get_overwrite_conversion(instance_element) {
        Some(overwrite_conv)
    } else {
        match config {
            Some(c) => Some(c),
            None => None,
        }
    }
}

/// The alias of an element: the instance's overwrite if there is one, else
/// the one of the configuration.
pub fn choose_alias<'a>(config: &'a Option<String>, instance_element: Option<&InstanceElement<'a>>) -> (r: Option<&'a str>)
    requires
        lookup_allowed(instance_element, OverwriteKind::Alias),
    ensures
        r.deep_view() == match found_overwrite(instance_element, OverwriteKind::Alias) {
            Some(SpecOverwriteSpec::Alias(a)) => Some(a),
            _ => config.deep_view(),
        },
{
    if let Some(overwrite_alias) = get_overwrite_alias(instance_element) {
        Some(overwrite_alias)
    } else {
        match config {
            Some(c) => Some(c.as_str()),
            None => None,
        }
    }
}

} // verus!
