//! The record layouts of a module: what an update from debug information
//! changes in the record layout of an item, and how a changed layout is
//! shared with, or split from, the items that use it.

use vstd::prelude::*;
use crate::creator::definitions::DataType;
use crate::datatype::{a2l_datatype, get_a2l_datatype};
use crate::debuginfo::{DbgDataType, TypeInfo};
use crate::group::texts;
use crate::names::{
    find_chars, find_chars_from, find_entry, make_unique_reclayout_name, name_taken, unique_keys,
    unique_reclayout_name, free_counter, counter_name, updated_base,
};
use crate::text::str_eq;

verus! {

/// An entry of a record layout that has a position and a data type
/// (`FNC_VALUES`, `AXIS_PTS_X`, `NO_AXIS_PTS_X`, ...); its other parameters
/// are kept as their A2L text.
pub struct LayoutEntry {
    pub position: u16,
    pub datatype: DataType,
    pub details: Vec<String>,
}

/// The mathematical view of a layout entry.
pub struct EntryView {
    pub position: u16,
    pub datatype: DataType,
    pub details: Seq<Seq<char>>,
}

impl View for LayoutEntry {
    type V = EntryView;

    open spec fn view(&self) -> EntryView {
        EntryView { position: self.position, datatype: self.datatype, details: texts(self.details@) }
    }
}

/// The view of an optional layout entry.
pub open spec fn opt_view(e: Option<LayoutEntry>) -> Option<EntryView> {
    match e {
        Some(x) => Some(x@),
        None => None,
    }
}

/// The entries of a record layout for one axis (X, Y, Z, 4 or 5): the axis
/// points, the number of axis points, and a fixed number of axis points.
pub struct AxisLayout {
    pub axis_pts: Option<LayoutEntry>,
    pub no_axis_pts: Option<LayoutEntry>,
    pub fix_no_axis_pts: Option<u16>,
}

/// The mathematical view of the entries of one axis.
pub struct AxisView {
    pub axis_pts: Option<EntryView>,
    pub no_axis_pts: Option<EntryView>,
    pub fix_no_axis_pts: Option<u16>,
}

impl View for AxisLayout {
    type V = AxisView;

    open spec fn view(&self) -> AxisView {
        AxisView {
            axis_pts: opt_view(self.axis_pts),
            no_axis_pts: opt_view(self.no_axis_pts),
            fix_no_axis_pts: self.fix_no_axis_pts,
        }
    }
}

/// A record layout: its name, its function values, the entries of its axes
/// in the order X, Y, Z, 4, 5, and its other attributes as their A2L text.
pub struct RecordLayout {
    pub name: String,
    pub fnc_values: Option<LayoutEntry>,
    pub axes: Vec<AxisLayout>,
    pub others: Vec<String>,
}

/// The mathematical view of a record layout.
pub struct LayoutView {
    pub name: Seq<char>,
    pub fnc_values: Option<EntryView>,
    pub axes: Seq<AxisView>,
    pub others: Seq<Seq<char>>,
}

impl View for RecordLayout {
    type V = LayoutView;

    open spec fn view(&self) -> LayoutView {
        LayoutView {
            name: self.name@,
            fnc_values: opt_view(self.fnc_values),
            axes: self.axes@.map_values(|a: AxisLayout| a@),
            others: texts(self.others@),
        }
    }
}

/// The views of a list of record layouts.
pub open spec fn layout_views(s: Seq<RecordLayout>) -> Seq<LayoutView> {
    s.map_values(|l: RecordLayout| l@)
}

/// Whether two layouts agree in everything but their names.
pub open spec fn same_content(a: LayoutView, b: LayoutView) -> bool {
    a.fnc_values == b.fnc_values && a.axes == b.axes && a.others == b.others
}

/// The A2L keyword of a data type.
pub open spec fn datatype_keyword(d: DataType) -> Seq<char> {
    match d {
        DataType::Ubyte => "UBYTE"@,
        DataType::Sbyte => "SBYTE"@,
        DataType::Uword => "UWORD"@,
        DataType::Sword => "SWORD"@,
        DataType::Ulong => "ULONG"@,
        DataType::Slong => "SLONG"@,
        DataType::AUint64 => "A_UINT64"@,
        DataType::AInt64 => "A_INT64"@,
        DataType::Float16Ieee => "FLOAT16_IEEE"@,
        DataType::Float32Ieee => "FLOAT32_IEEE"@,
        DataType::Float64Ieee => "FLOAT64_IEEE"@,
    }
}

/// The A2L keyword of a data type (see `datatype_keyword`).
pub fn datatype_name(d: DataType) -> (r: &'static str)
    ensures
        r@ == datatype_keyword(d),
{
    match d {
        DataType::Ubyte => "UBYTE",
        DataType::Sbyte => "SBYTE",
        DataType::Uword => "UWORD",
        DataType::Sword => "SWORD",
        DataType::Ulong => "ULONG",
        DataType::Slong => "SLONG",
        DataType::AUint64 => "A_UINT64",
        DataType::AInt64 => "A_INT64",
        DataType::Float16Ieee => "FLOAT16_IEEE",
        DataType::Float32Ieee => "FLOAT32_IEEE",
        DataType::Float64Ieee => "FLOAT64_IEEE",
    }
}

/// A text with its first occurrence of `from` replaced by `to`.
pub open spec fn replace_first(s: Seq<char>, from: Seq<char>, to: Seq<char>) -> Seq<char> {
    match find_chars_from(s, from, 0) {
        Some(i) => s.subrange(0, i) + to + s.subrange(i + from.len(), s.len() as int),
        None => s,
    }
}

/// Replaces the first occurrence of `from` in `s` by `to`.
pub fn replacen_first(s: &str, from: &str, to: &str) -> (r: String)
    ensures
        r@ == replace_first(s@, from@, to@),
{
    match find_chars(s, from) {
        Some(i) => {
            let n = s.unicode_len();
            let m = from.unicode_len();
            let mut out = String::from_str(s.substring_char(0, i));
            out.append(to);
            out.append(s.substring_char(i + m, n));
            out
        },
        None => String::from_str(s),
    }
}

/// Whether member `j` comes before member `k` by offset, and by position
/// among members at the same offset.
pub open spec fn precedes(ms: Seq<(String, (TypeInfo, u64))>, j: int, k: int) -> bool {
    ms[j].1.1 < ms[k].1.1 || (ms[j].1.1 == ms[k].1.1 && j < k)
}

/// How many of the first `n` members come before member `k`.
pub open spec fn rank_below(ms: Seq<(String, (TypeInfo, u64))>, k: int, n: int) -> nat
    decreases n,
{
    if n <= 0 {
        0
    } else {
        rank_below(ms, k, n - 1) + if precedes(ms, n - 1, k) {
            1nat
        } else {
            0nat
        }
    }
}

/// The first member from `k` on that has `id` members before it.
pub open spec fn member_of_rank(ms: Seq<(String, (TypeInfo, u64))>, id: nat, k: int) -> Option<int>
    decreases ms.len() - k,
{
    if k < 0 || k >= ms.len() {
        None
    } else if rank_below(ms, k, ms.len() as int) == id {
        Some(k)
    } else {
        member_of_rank(ms, id, k + 1)
    }
}

/// The type that a record layout position (counted from 1; 0 counts as 1)
/// selects in a type: of a struct, the member at that place when the
/// members are ordered by offset; of any other type, the type itself at the
/// first position.
pub open spec fn inner_type_of(t: TypeInfo, memberid: u16) -> Option<TypeInfo> {
    let id: nat = if memberid > 0 {
        (memberid - 1) as nat
    } else {
        0
    };
    match t.datatype {
        DbgDataType::Struct { members, .. } => match member_of_rank(members@, id, 0) {
            Some(k) => Some(members@[k].1.0),
            None => None,
        },
        _ => if id == 0 {
            Some(t)
        } else {
            None
        },
    }
}

fn count_before(ms: &Vec<(String, (TypeInfo, u64))>, k: usize) -> (r: usize)
    requires
        k < ms@.len(),
    ensures
        r == rank_below(ms@, k as int, ms@.len() as int),
{
    let mut n: usize = 0;
    let mut c: usize = 0;
    while n < ms.len()
        invariant
            k < ms@.len(),
            n <= ms@.len(),
            c == rank_below(ms@, k as int, n as int),
            c <= n,
        decreases ms@.len() - n,
    {
        let off_n = ms[n].1.1;
        let off_k = ms[k].1.1;
        if off_n < off_k || (off_n == off_k && n < k) {
            c += 1;
        }
        n += 1;
    }
    c
}

/// The type that a record layout position selects (see `inner_type_of`).
pub fn get_inner_type(typeinfo: &TypeInfo, memberid: u16) -> (r: Option<&TypeInfo>)
    ensures
        match r {
            Some(t) => inner_type_of(*typeinfo, memberid) == Some(*t),
            None => inner_type_of(*typeinfo, memberid) is None,
        },
{
    let id: usize = if memberid > 0 {
        (memberid - 1) as usize
    } else {
        0
    };
    match &typeinfo.datatype {
        DbgDataType::Struct { members, .. } => {
            let mut k: usize = 0;
            while k < members.len()
                invariant
                    k <= members@.len(),
                    id as nat == (if memberid > 0 {
                        (memberid - 1) as nat
                    } else {
                        0nat
                    }),
                    typeinfo.datatype matches DbgDataType::Struct { members: ms, .. } && ms@ == members@,
                    member_of_rank(members@, id as nat, 0) == member_of_rank(members@, id as nat, k as int),
                decreases members@.len() - k,
            {
                if count_before(members, k) == id {
                    assert(member_of_rank(members@, id as nat, k as int) == Some(k as int));
                    return Some(&members[k].1.0);
                }
                k += 1;
            }
            None
        },
        _ => if id == 0 {
            Some(typeinfo)
        } else {
            None
        },
    }
}


/// Whether every type that a record layout position can select in `t` has
/// a first dimension where it is an array.
pub open spec fn dims_present(t: TypeInfo) -> bool {
    forall|m: u16| #[trigger] inner_type_of(t, m) matches Some(it) ==> (it.datatype matches DbgDataType::Array {
        dim,
        ..
    } ==> dim@.len() > 0)
}

/// A layout entry with the data type of what its position selects in `t`,
/// where it selects something.
pub open spec fn entry_with_type(e: Option<EntryView>, t: TypeInfo) -> Option<EntryView> {
    match e {
        Some(en) => match inner_type_of(t, en.position) {
            Some(it) => Some(EntryView { datatype: a2l_datatype(it), ..en }),
            None => e,
        },
        None => e,
    }
}

/// The fixed number of axis points: the first dimension of an array that
/// the axis points entry selects, where the layout has such a number.
pub open spec fn fix_count(ap: Option<EntryView>, fix: Option<u16>, t: TypeInfo) -> Option<u16> {
    match ap {
        Some(en) => match inner_type_of(t, en.position) {
            Some(it) => match it.datatype {
                DbgDataType::Array { dim, .. } => if fix is Some {
                    Some(dim@[0] as u16)
                } else {
                    fix
                },
                _ => fix,
            },
            None => fix,
        },
        None => fix,
    }
}

/// The entries of one axis updated from `t`.
pub open spec fn axis_updated(a: AxisView, t: TypeInfo) -> AxisView {
    AxisView {
        axis_pts: entry_with_type(a.axis_pts, t),
        no_axis_pts: entry_with_type(a.no_axis_pts, t),
        fix_no_axis_pts: fix_count(a.axis_pts, a.fix_no_axis_pts, t),
    }
}

/// The name and function values updated from `t`: where the data type of
/// the function values changes, the first occurrence of the old type's
/// keyword in the name becomes the new one's.
pub open spec fn fnc_updated(l: LayoutView, t: TypeInfo) -> (Seq<char>, Option<EntryView>) {
    match l.fnc_values {
        Some(fv) => match inner_type_of(t, fv.position) {
            Some(it) => if a2l_datatype(it) != fv.datatype {
                (
                    replace_first(l.name, datatype_keyword(fv.datatype), datatype_keyword(a2l_datatype(it))),
                    Some(EntryView { datatype: a2l_datatype(it), ..fv }),
                )
            } else {
                (l.name, l.fnc_values)
            },
            None => (l.name, l.fnc_values),
        },
        None => (l.name, l.fnc_values),
    }
}

/// A record layout updated from the type of the item that uses it.
pub open spec fn layout_updated(l: LayoutView, t: TypeInfo) -> LayoutView {
    LayoutView {
        name: fnc_updated(l, t).0,
        fnc_values: fnc_updated(l, t).1,
        axes: l.axes.map_values(|a: AxisView| axis_updated(a, t)),
        others: l.others,
    }
}

fn copy_strings(v: &Vec<String>) -> (r: Vec<String>)
    ensures
        texts(r@) == texts(v@),
{
    let mut out: Vec<String> = Vec::new();
    let mut i: usize = 0;
    while i < v.len()
        invariant
            i <= v@.len(),
            texts(out@) == texts(v@).subrange(0, i as int),
        decreases v@.len() - i,
    {
        let ghost before = out@;
        out.push(v[i].clone());
        assert(texts(out@) =~= texts(before).push(v@[i as int]@));
        assert(texts(v@).subrange(0, i + 1) =~= texts(v@).subrange(0, i as int).push(v@[i as int]@));
        i += 1;
    }
    assert(texts(v@).subrange(0, v@.len() as int) =~= texts(v@));
    out
}

fn copy_entry(e: &LayoutEntry) -> (r: LayoutEntry)
    ensures
        r@ == e@,
{
    LayoutEntry { position: e.position, datatype: e.datatype, details: copy_strings(&e.details) }
}

fn entry_with(e: &Option<LayoutEntry>, t: &TypeInfo) -> (r: Option<LayoutEntry>)
    ensures
        opt_view(r) == entry_with_type(opt_view(*e), *t),
{
    match e {
        Some(en) => match get_inner_type(t, en.position) {
            Some(it) => Some(
                LayoutEntry { position: en.position, datatype: get_a2l_datatype(it), details: copy_strings(&en.details) },
            ),
            None => Some(copy_entry(en)),
        },
        None => None,
    }
}

fn axis_with(a: &AxisLayout, t: &TypeInfo) -> (r: AxisLayout)
    requires
        dims_present(*t),
    ensures
        r@ == axis_updated(a@, *t),
{
    let fix = match &a.axis_pts {
        Some(en) => match get_inner_type(t, en.position) {
            Some(it) => match &it.datatype {
                DbgDataType::Array { dim, .. } => {
                    assert(inner_type_of(*t, en.position) matches Some(x) && x == *it);
                    if a.fix_no_axis_pts.is_some() {
                        Some(dim[0] as u16)
                    } else {
                        a.fix_no_axis_pts
                    }
                },
                _ => a.fix_no_axis_pts,
            },
            None => a.fix_no_axis_pts,
        },
        None => a.fix_no_axis_pts,
    };
    AxisLayout { axis_pts: entry_with(&a.axis_pts, t), no_axis_pts: entry_with(&a.no_axis_pts, t), fix_no_axis_pts: fix }
}

/// The record layout updated from the type of the item that uses it (see
/// `layout_updated`).
pub fn updated_layout(l: &RecordLayout, t: &TypeInfo) -> (r: RecordLayout)
    requires
        dims_present(*t),
    ensures
        r@ == layout_updated(l@, *t),
{
    let mut axes: Vec<AxisLayout> = Vec::new();
    let mut i: usize = 0;
    while i < l.axes.len()
        invariant
            i <= l.axes@.len(),
            dims_present(*t),
            axes@.map_values(|a: AxisLayout| a@) == l.axes@.map_values(|a: AxisLayout| a@).map_values(
                |a: AxisView| axis_updated(a, *t),
            ).subrange(0, i as int),
        decreases l.axes@.len() - i,
    {
        let ghost before = axes@;
        axes.push(axis_with(&l.axes[i], t));
        assert(axes@.map_values(|a: AxisLayout| a@) =~= before.map_values(|a: AxisLayout| a@).push(
            axis_updated(l.axes@[i as int]@, *t),
        ));
        assert(l.axes@.map_values(|a: AxisLayout| a@).map_values(|a: AxisView| axis_updated(a, *t)).subrange(
            0,
            i + 1,
        ) =~= l.axes@.map_values(|a: AxisLayout| a@).map_values(|a: AxisView| axis_updated(a, *t)).subrange(
            0,
            i as int,
        ).push(axis_updated(l.axes@[i as int]@, *t)));
        i += 1;
    }
    assert(l.axes@.map_values(|a: AxisLayout| a@).map_values(|a: AxisView| axis_updated(a, *t)).subrange(
        0,
        l.axes@.len() as int,
    ) =~= l.axes@.map_values(|a: AxisLayout| a@).map_values(|a: AxisView| axis_updated(a, *t)));
    let (name, fnc_values) = match &l.fnc_values {
        Some(fv) => match get_inner_type(t, fv.position) {
            Some(it) => {
                let nd = get_a2l_datatype(it);
                if nd != fv.datatype {
                    let renamed = replacen_first(l.name.as_str(), datatype_name(fv.datatype), datatype_name(nd));
                    (renamed, Some(LayoutEntry { position: fv.position, datatype: nd, details: copy_strings(&fv.details) }))
                } else {
                    (l.name.clone(), Some(copy_entry(fv)))
                }
            },
            None => (l.name.clone(), Some(copy_entry(fv))),
        },
        None => (l.name.clone(), None),
    };
    RecordLayout { name, fnc_values, axes, others: copy_strings(&l.others) }
}


fn strings_eq(a: &Vec<String>, b: &Vec<String>) -> (r: bool)
    ensures
        r == (texts(a@) == texts(b@)),
{
    if a.len() != b.len() {
        assert(texts(a@).len() != texts(b@).len());
        return false;
    }
    let mut i: usize = 0;
    while i < a.len()
        invariant
            i <= a@.len(),
            a@.len() == b@.len(),
            forall|j: int| 0 <= j < i ==> a@[j]@ == b@[j]@,
        decreases a@.len() - i,
    {
        if !str_eq(a[i].as_str(), b[i].as_str()) {
            assert(texts(a@)[i as int] != texts(b@)[i as int]);
            return false;
        }
        i += 1;
    }
    assert(texts(a@) =~= texts(b@));
    true
}

fn entry_eq(a: &Option<LayoutEntry>, b: &Option<LayoutEntry>) -> (r: bool)
    ensures
        r == (opt_view(*a) == opt_view(*b)),
{
    match (a, b) {
        (Some(x), Some(y)) => x.position == y.position && x.datatype == y.datatype && strings_eq(&x.details, &y.details),
        (None, None) => true,
        _ => false,
    }
}

fn axes_eq(a: &Vec<AxisLayout>, b: &Vec<AxisLayout>) -> (r: bool)
    ensures
        r == (a@.map_values(|x: AxisLayout| x@) == b@.map_values(|x: AxisLayout| x@)),
{
    if a.len() != b.len() {
        assert(a@.map_values(|x: AxisLayout| x@).len() != b@.map_values(|x: AxisLayout| x@).len());
        return false;
    }
    let mut i: usize = 0;
    while i < a.len()
        invariant
            i <= a@.len(),
            a@.len() == b@.len(),
            forall|j: int| 0 <= j < i ==> a@[j]@ == b@[j]@,
        decreases a@.len() - i,
    {
        let x = &a[i];
        let y = &b[i];
        if !(entry_eq(&x.axis_pts, &y.axis_pts) && entry_eq(&x.no_axis_pts, &y.no_axis_pts)
            && x.fix_no_axis_pts == y.fix_no_axis_pts) {
            assert(a@.map_values(|x: AxisLayout| x@)[i as int] != b@.map_values(|x: AxisLayout| x@)[i as int]);
            return false;
        }
        i += 1;
    }
    assert(a@.map_values(|x: AxisLayout| x@) =~= b@.map_values(|x: AxisLayout| x@));
    true
}

/// Whether two record layouts agree in everything but their names (see
/// `same_content`).
pub fn compare_rl_content(a: &RecordLayout, b: &RecordLayout) -> (r: bool)
    ensures
        r == same_content(a@, b@),
{
    entry_eq(&a.fnc_values, &b.fnc_values) && axes_eq(&a.axes, &b.axes) && strings_eq(&a.others, &b.others)
}

/// The first layout from `k` on with the content of `l`.
pub open spec fn first_content_match(s: Seq<LayoutView>, l: LayoutView, k: int) -> Option<int>
    decreases s.len() - k,
{
    if k < 0 || k >= s.len() {
        None
    } else if same_content(l, s[k]) {
        Some(k)
    } else {
        first_content_match(s, l, k + 1)
    }
}

proof fn lemma_first_content_match(s: Seq<LayoutView>, l: LayoutView, k: int)
    requires
        0 <= k,
    ensures
        first_content_match(s, l, k) matches Some(e) ==> k <= e < s.len() && same_content(l, s[e]),
    decreases s.len() - k,
{
    if k < s.len() && !same_content(l, s[k]) {
        lemma_first_content_match(s, l, k + 1);
    }
}

fn find_content_match(layouts: &Vec<RecordLayout>, l: &RecordLayout) -> (r: Option<usize>)
    ensures
        match r {
            Some(e) => first_content_match(layout_views(layouts@), l@, 0) == Some(e as int),
            None => first_content_match(layout_views(layouts@), l@, 0) is None,
        },
{
    let mut k: usize = 0;
    while k < layouts.len()
        invariant
            k <= layouts@.len(),
            first_content_match(layout_views(layouts@), l@, 0) == first_content_match(
                layout_views(layouts@),
                l@,
                k as int,
            ),
        decreases layouts@.len() - k,
    {
        if compare_rl_content(l, &layouts[k]) {
            return Some(k);
        }
        k += 1;
    }
    None
}

/// Where the record layouts of a module are found by name, and how many
/// items use each: a map from names to positions, and a count per layout.
pub struct RecordLayoutInfo {
    pub idxmap: Vec<(String, usize)>,
    pub refcount: Vec<usize>,
}

/// Whether the map and counts describe the layouts: no name occurs twice in
/// the map, each name leads to a layout of that name, and each layout has a
/// count.
pub open spec fn info_matches(layouts: Seq<LayoutView>, idxmap: Seq<(String, usize)>, refcount: Seq<usize>) -> bool {
    &&& unique_keys(idxmap)
    &&& refcount.len() == layouts.len()
    &&& forall|j: int| 0 <= j < idxmap.len() ==> (#[trigger] idxmap[j]).1 < layouts.len() && layouts[idxmap[j].1 as int].name
        == idxmap[j].0@
}

/// The position in the map of a name.
pub open spec fn key_index(idxmap: Seq<(String, usize)>, name: Seq<char>) -> Option<int> {
    if exists|j: int| 0 <= j < idxmap.len() && idxmap[j].0@ == name {
        Some(choose|j: int| 0 <= j < idxmap.len() && idxmap[j].0@ == name)
    } else {
        None
    }
}

/// The names in the map.
pub open spec fn map_keys(idxmap: Seq<(String, usize)>) -> Seq<String> {
    idxmap.map_values(|e: (String, usize)| e.0)
}

/// The sum of the counts.
pub open spec fn count_sum(s: Seq<usize>) -> int
    decreases s.len(),
{
    if s.len() == 0 {
        0
    } else {
        count_sum(s.drop_last()) + s.last()
    }
}

proof fn lemma_count_sum_update(s: Seq<usize>, i: int, v: usize)
    requires
        0 <= i < s.len(),
    ensures
        count_sum(s.update(i, v)) == count_sum(s) - s[i] + v,
        s[i] <= count_sum(s),
        count_sum(s) >= 0,
    decreases s.len(),
{
    let u = s.update(i, v);
    if i < s.len() - 1 {
        assert(u.drop_last() =~= s.drop_last().update(i, v));
        lemma_count_sum_update(s.drop_last(), i, v);
    } else {
        assert(u.drop_last() =~= s.drop_last());
        lemma_count_sum_nonneg(s.drop_last());
    }
}

proof fn lemma_count_sum_nonneg(s: Seq<usize>)
    ensures
        count_sum(s) >= 0,
    decreases s.len(),
{
    if s.len() > 0 {
        lemma_count_sum_nonneg(s.drop_last());
    }
}

proof fn lemma_free_counter_congruent(base: Seq<char>, a: Seq<String>, b: Seq<String>, k: int)
    requires
        texts(a) == texts(b),
    ensures
        free_counter(base, a, k) == free_counter(base, b, k),
    decreases i32::MAX - k,
{
    lemma_name_taken_congruent(a, b, counter_name(base, k));
    if k <= i32::MAX && k != i32::MAX {
        lemma_free_counter_congruent(base, a, b, k + 1);
    }
}

proof fn lemma_name_taken_congruent(a: Seq<String>, b: Seq<String>, name: Seq<char>)
    requires
        texts(a) == texts(b),
    ensures
        name_taken(a, name) == name_taken(b, name),
{
    if name_taken(a, name) {
        let i = choose|i: int| 0 <= i < a.len() && (#[trigger] a[i])@ == name;
        assert(texts(a).len() == a.len() && texts(b).len() == b.len());
        assert(texts(a)[i] == a[i]@ && texts(b)[i] == b[i]@);
        assert(b[i]@ == name);
    }
    if name_taken(b, name) {
        let i = choose|i: int| 0 <= i < b.len() && (#[trigger] b[i])@ == name;
        assert(texts(a).len() == a.len() && texts(b).len() == b.len());
        assert(texts(a)[i] == a[i]@ && texts(b)[i] == b[i]@);
        assert(a[i]@ == name);
    }
}

proof fn lemma_free_counter_free(base: Seq<char>, e: Seq<String>, k: int)
    ensures
        free_counter(base, e, k) matches Some(c) ==> !name_taken(e, counter_name(base, c)),
    decreases i32::MAX - k,
{
    if k <= i32::MAX && name_taken(e, counter_name(base, k)) && k != i32::MAX {
        lemma_free_counter_free(base, e, k + 1);
    }
}

/// A name made unique is not among the names it was made unique against.
proof fn lemma_unique_name_free(name: Seq<char>, e: Seq<String>)
    ensures
        unique_reclayout_name(name, e) matches Some(u) ==> !name_taken(e, u),
{
    lemma_free_counter_free(updated_base(name), e, 2);
}

fn key_strings(idxmap: &Vec<(String, usize)>) -> (r: Vec<String>)
    ensures
        texts(r@) == texts(map_keys(idxmap@)),
{
    let mut out: Vec<String> = Vec::new();
    let mut i: usize = 0;
    while i < idxmap.len()
        invariant
            i <= idxmap@.len(),
            texts(out@) == texts(map_keys(idxmap@)).subrange(0, i as int),
        decreases idxmap@.len() - i,
    {
        let ghost before = out@;
        out.push(idxmap[i].0.clone());
        assert(texts(out@) =~= texts(before).push(idxmap@[i as int].0@));
        assert(texts(map_keys(idxmap@)).subrange(0, i + 1) =~= texts(map_keys(idxmap@)).subrange(0, i as int).push(
            idxmap@[i as int].0@,
        ));
        i += 1;
    }
    assert(texts(map_keys(idxmap@)).subrange(0, idxmap@.len() as int) =~= texts(map_keys(idxmap@)));
    out
}


/// What updating the layout at map position `j` for type `t` needs beyond
/// the map matching the layouts: the layout is used at least once, and
/// where it is split from its other users, a free name is found for the
/// copy before the counter overflows.
pub open spec fn update_possible(
    v: Seq<LayoutView>,
    idxmap: Seq<(String, usize)>,
    rc: Seq<usize>,
    j: int,
    t: TypeInfo,
) -> bool {
    let idx = idxmap[j].1 as int;
    let nl = layout_updated(v[idx], t);
    &&& rc[idx] >= 1
    &&& (nl != v[idx] && first_content_match(v, nl, 0) is None && rc[idx] != 1) ==> unique_reclayout_name(
        nl.name,
        map_keys(idxmap),
    ) is Some
}

/// What updating gives, for a name at map position `j`: the name to use,
/// the layouts, and the counts.
pub open spec fn update_outcome(
    v: Seq<LayoutView>,
    idxmap: Seq<(String, usize)>,
    rc: Seq<usize>,
    name: Seq<char>,
    j: int,
    t: TypeInfo,
    r: Seq<char>,
    w: Seq<LayoutView>,
    rc2: Seq<usize>,
) -> bool {
    let idx = idxmap[j].1 as int;
    let nl = layout_updated(v[idx], t);
    let less = rc.update(idx, (rc[idx] - 1) as usize);
    if nl == v[idx] {
        r == name && w == v && rc2 == rc
    } else {
        match first_content_match(v, nl, 0) {
            Some(e) => r == v[e].name && w == v && rc2 == less.update(e, (less[e] + 1) as usize),
            None => if rc[idx] == 1 {
                r == nl.name && w == v.update(idx, nl) && rc2 == rc
            } else {
                &&& unique_reclayout_name(nl.name, map_keys(idxmap)) == Some(r)
                &&& w == v.push(LayoutView { name: r, ..nl })
                &&& rc2 == less.push(1)
            },
        }
    }
}

/// Updates the record layout `name` of an item for the item's type `t`
/// (see `layout_updated`). Where the layout does not change, or `name` is
/// no layout's name, `name` stays. A changed layout that has the content of
/// an existing one is replaced by that one for this item; else the layout
/// is changed in place where this item is its only user, or copied under a
/// new unique name (see `make_unique_reclayout_name`) where it has others.
/// Gives the name of the record layout the item uses now.
pub fn update_record_layout(
    layouts: &mut Vec<RecordLayout>,
    info: &mut RecordLayoutInfo,
    name: &str,
    typeinfo: &TypeInfo,
) -> (r: String)
    requires
        info_matches(layout_views(old(layouts)@), old(info).idxmap@, old(info).refcount@),
        count_sum(old(info).refcount@) <= usize::MAX,
        dims_present(*typeinfo),
        key_index(old(info).idxmap@, name@) matches Some(j) ==> update_possible(
            layout_views(old(layouts)@),
            old(info).idxmap@,
            old(info).refcount@,
            j,
            *typeinfo,
        ),
    ensures
        info_matches(layout_views(final(layouts)@), final(info).idxmap@, final(info).refcount@),
        count_sum(final(info).refcount@) == count_sum(old(info).refcount@),
        old(layouts)@.len() <= final(layouts)@.len(),
        forall|i: int|
            0 <= i < old(layouts)@.len() && old(info).refcount@[i] > 1 ==> layout_views(final(layouts)@)[i]
                == layout_views(old(layouts)@)[i],
        match key_index(old(info).idxmap@, name@) {
            None => {
                &&& r@ == name@
                &&& final(layouts)@ == old(layouts)@
                &&& final(info).idxmap@ == old(info).idxmap@
                &&& final(info).refcount@ == old(info).refcount@
            },
            Some(j) => {
                &&& exists|i: int| 0 <= i < final(layouts)@.len() && (#[trigger] final(layouts)@[i]).name@ == r@
                &&& update_outcome(
                    layout_views(old(layouts)@),
                    old(info).idxmap@,
                    old(info).refcount@,
                    name@,
                    j,
                    *typeinfo,
                    r@,
                    layout_views(final(layouts)@),
                    final(info).refcount@,
                )
            },
        },
{
    let ghost v = layout_views(layouts@);
    let ghost map0 = info.idxmap@;
    let ghost rc = info.refcount@;
    let j = match find_entry(&info.idxmap, name) {
        Some(j) => j,
        None => {
            assert(key_index(map0, name@) is None);
            return String::from_str(name);
        },
    };
    proof {
        assert(key_index(map0, name@) == Some(j as int)) by {
            let c = choose|c: int| 0 <= c < map0.len() && map0[c].0@ == name@;
            if c != j as int {
                assert(map0[c].0@ != map0[j as int].0@);
            }
        }
    }
    let idx = info.idxmap[j].1;
    assert(layouts@[idx as int]@ == v[idx as int]);
    let new = updated_layout(&layouts[idx], typeinfo);
    let ghost nl = new@;
    if str_eq(layouts[idx].name.as_str(), new.name.as_str()) && compare_rl_content(&layouts[idx], &new) {
        assert(nl == v[idx as int]);
        assert(layouts@[idx as int].name@ == name@);
        return String::from_str(name);
    }
    assert(nl != v[idx as int]);
    proof {
        lemma_count_sum_update(rc, idx as int, (rc[idx as int] - 1) as usize);
    }
    proof {
        lemma_first_content_match(v, nl, 0);
    }
    match find_content_match(layouts, &new) {
        Some(e) => {
            let c = info.refcount[idx];
            info.refcount.set(idx, c - 1);
            let ghost less = info.refcount@;
            proof {
                lemma_count_sum_update(less, e as int, (less[e as int] + 1) as usize);
            }
            let ce = info.refcount[e];
            info.refcount.set(e, ce + 1);
            assert(layout_views(layouts@)[e as int] == layouts@[e as int]@);
            return layouts[e].name.clone();
        },
        None => {},
    }
    assert(first_content_match(v, nl, 0) is None);
    if info.refcount[idx] == 1 {
        let rname = new.name.clone();
        assert(layouts@[idx as int].name@ == name@);
        if !str_eq(layouts[idx].name.as_str(), new.name.as_str()) {
            match find_entry(&info.idxmap, new.name.as_str()) {
                Some(j2) => {
                    info.idxmap.set(j2, (new.name.clone(), idx));
                    let ghost m1 = info.idxmap@;
                    assert(j2 != j);
                    info.idxmap.remove(j);
                    proof {
                        let m2 = info.idxmap@;
                        let w = v.update(idx as int, nl);
                        assert(unique_keys(m1)) by {
                            assert forall|a: int, b: int| 0 <= a < b < m1.len() implies m1[a].0@ != m1[b].0@ by {
                                assert(m1[a].0@ == map0[a].0@ && m1[b].0@ == map0[b].0@);
                            }
                        }
                        assert forall|a: int, b: int| 0 <= a < b < m2.len() implies m2[a].0@ != m2[b].0@ by {
                            let a1 = if a < j { a } else { a + 1 };
                            let b1 = if b < j { b } else { b + 1 };
                            assert(m2[a] == m1[a1] && m2[b] == m1[b1]);
                        }
                        assert forall|k: int| 0 <= k < m2.len() implies (#[trigger] m2[k]).1 < w.len() && w[m2[k].1 as int].name
                            == m2[k].0@ by {
                            let k1 = if k < j { k } else { k + 1 };
                            assert(m2[k] == m1[k1]);
                            if k1 != j2 as int {
                                assert(m1[k1] == map0[k1]);
                                if map0[k1].1 == idx {
                                    assert(map0[k1].0@ == map0[j as int].0@);
                                }
                            }
                        }
                    }
                },
                None => {
                    info.idxmap.set(j, (new.name.clone(), idx));
                    proof {
                        let m2 = info.idxmap@;
                        let w = v.update(idx as int, nl);
                        assert forall|a: int, b: int| 0 <= a < b < m2.len() implies m2[a].0@ != m2[b].0@ by {
                            if a != j && b != j {
                                assert(m2[a] == map0[a] && m2[b] == map0[b]);
                            }
                        }
                        assert forall|k: int| 0 <= k < m2.len() implies (#[trigger] m2[k]).1 < w.len() && w[m2[k].1 as int].name
                            == m2[k].0@ by {
                            if k != j {
                                assert(m2[k] == map0[k]);
                                if map0[k].1 == idx {
                                    assert(map0[k].0@ == map0[j as int].0@);
                                }
                            }
                        }
                    }
                },
            }
        } else {
            proof {
                let w = v.update(idx as int, nl);
                assert forall|k: int| 0 <= k < map0.len() implies (#[trigger] map0[k]).1 < w.len() && w[map0[k].1 as int].name
                    == map0[k].0@ by {
                    if map0[k].1 == idx {
                        assert(map0[k].0@ == v[idx as int].name);
                    }
                }
            }
        }
        layouts.set(idx, new);
        proof {
            assert(layout_views(layouts@) =~= v.update(idx as int, nl));
            assert(layouts@[idx as int].name@ == rname@);
        }
        rname
    } else {
        let c = info.refcount[idx];
        info.refcount.set(idx, c - 1);
        let ghost less = info.refcount@;
        let keys = key_strings(&info.idxmap);
        proof {
            assert(texts(keys@) == texts(map_keys(map0)));
            lemma_unique_name_congruent(nl.name, keys@, map_keys(map0));
        }
        let uname = make_unique_reclayout_name(new.name.clone(), &keys);
        proof {
            lemma_unique_name_free(nl.name, map_keys(map0));
        }
        let pushed = RecordLayout { name: uname.clone(), fnc_values: new.fnc_values, axes: new.axes, others: new.others };
        assert(pushed@ == (LayoutView { name: uname@, ..nl }));
        info.refcount.push(1);
        let pos = layouts.len();
        info.idxmap.push((uname.clone(), pos));
        layouts.push(pushed);
        proof {
            let m2 = info.idxmap@;
            let w = v.push(LayoutView { name: uname@, ..nl });
            assert(layout_views(layouts@) =~= w);
            assert(info.refcount@.drop_last() =~= less);
            assert forall|a: int| 0 <= a < map0.len() implies map0[a].0@ != uname@ by {
                assert(map_keys(map0)[a] == map0[a].0);
            }
            assert forall|a: int, b: int| 0 <= a < b < m2.len() implies m2[a].0@ != m2[b].0@ by {
                assert(m2[a] == map0[a]);
                if b < map0.len() {
                    assert(m2[b] == map0[b]);
                }
            }
            assert forall|k: int| 0 <= k < m2.len() implies (#[trigger] m2[k]).1 < w.len() && w[m2[k].1 as int].name
                == m2[k].0@ by {
                if k < map0.len() {
                    assert(m2[k] == map0[k]);
                }
            }
            assert(w[pos as int].name == uname@);
        }
        uname
    }
}

proof fn lemma_unique_name_congruent(name: Seq<char>, a: Seq<String>, b: Seq<String>)
    requires
        texts(a) == texts(b),
    ensures
        unique_reclayout_name(name, a) == unique_reclayout_name(name, b),
{
    lemma_name_taken_congruent(a, b, name);
    lemma_name_taken_congruent(a, b, updated_base(name));
    lemma_free_counter_congruent(updated_base(name), a, b, 2);
}


/// The last of the first `n` layouts named `name`.
pub open spec fn last_named(v: Seq<LayoutView>, name: Seq<char>, n: int) -> Option<int>
    decreases n,
{
    if n <= 0 {
        None
    } else if v[n - 1].name == name {
        Some(n - 1)
    } else {
        last_named(v, name, n - 1)
    }
}

/// How many of the first `n` deposits name layout `i` (by its last
/// occurrence among layouts of the same name).
pub open spec fn uses(v: Seq<LayoutView>, deposits: Seq<String>, i: int, n: int) -> nat
    decreases n,
{
    if n <= 0 {
        0
    } else {
        uses(v, deposits, i, n - 1) + if last_named(v, deposits[n - 1]@, v.len() as int) == Some(i) {
            1nat
        } else {
            0nat
        }
    }
}

proof fn lemma_last_named(v: Seq<LayoutView>, name: Seq<char>, n: int)
    requires
        0 <= n <= v.len(),
    ensures
        last_named(v, name, n) matches Some(x) ==> 0 <= x < n && v[x].name == name,
        last_named(v, name, n) is None ==> forall|x: int| 0 <= x < n ==> v[x].name != name,
    decreases n,
{
    if n > 0 {
        lemma_last_named(v, name, n - 1);
    }
}

impl RecordLayoutInfo {
    /// The map and counts of a module's record layouts: each name leads to
    /// the last layout of that name, and each layout is counted once for
    /// every item (characteristic or axis points) whose record layout names
    /// it.
    pub fn build(layouts: &Vec<RecordLayout>, deposits: &[String]) -> (r: Self)
        ensures
            info_matches(layout_views(layouts@), r.idxmap@, r.refcount@),
            count_sum(r.refcount@) <= deposits@.len(),
            forall|i: int| 0 <= i < layouts@.len() ==> r.refcount@[i] == uses(
                layout_views(layouts@),
                deposits@,
                i,
                deposits@.len() as int,
            ),
            forall|k: Seq<char>| #[trigger] key_index(r.idxmap@, k) is Some <==> last_named(
                layout_views(layouts@),
                k,
                layouts@.len() as int,
            ) is Some,
    {
        let ghost v = layout_views(layouts@);
        let n = layouts.len();
        let mut idxmap: Vec<(String, usize)> = Vec::new();
        let mut i: usize = 0;
        while i < n
            invariant
                n == layouts@.len(),
                v == layout_views(layouts@),
                i <= n,
                unique_keys(idxmap@),
                forall|j: int| 0 <= j < idxmap@.len() ==> last_named(v, (#[trigger] idxmap@[j]).0@, i as int) == Some(
                    idxmap@[j].1 as int,
                ),
                forall|k: Seq<char>| #[trigger] last_named(v, k, i as int) is Some ==> exists|j: int|
                    0 <= j < idxmap@.len() && (#[trigger] idxmap@[j]).0@ == k,
            decreases n - i,
        {
            let ghost before = idxmap@;
            let ghost name = layouts@[i as int].name@;
            assert(v[i as int].name == name);
            match find_entry(&idxmap, layouts[i].name.as_str()) {
                Some(j) => {
                    idxmap.set(j, (layouts[i].name.clone(), i));
                    assert forall|a: int, b: int| 0 <= a < b < idxmap@.len() implies idxmap@[a].0@ != idxmap@[b].0@ by {
                        assert(idxmap@[a].0@ == before[a].0@ && idxmap@[b].0@ == before[b].0@);
                    }
                    assert forall|jj: int| 0 <= jj < idxmap@.len() implies last_named(v, (#[trigger] idxmap@[jj]).0@, i + 1)
                        == Some(idxmap@[jj].1 as int) by {
                        if jj != j {
                            assert(idxmap@[jj] == before[jj]);
                        }
                    }
                    assert forall|k: Seq<char>| #[trigger] last_named(v, k, i + 1) is Some implies exists|jj: int|
                        0 <= jj < idxmap@.len() && (#[trigger] idxmap@[jj]).0@ == k by {
                        if k == name {
                            assert(idxmap@[j as int].0@ == k);
                        } else {
                            assert(last_named(v, k, i as int) is Some);
                            let jj = choose|jj: int| 0 <= jj < before.len() && (#[trigger] before[jj]).0@ == k;
                            assert(idxmap@[jj].0@ == k);
                        }
                    }
                },
                None => {
                    idxmap.push((layouts[i].name.clone(), i));
                    assert forall|a: int, b: int| 0 <= a < b < idxmap@.len() implies idxmap@[a].0@ != idxmap@[b].0@ by {
                        assert(idxmap@[a] == before[a]);
                        if b < before.len() {
                            assert(idxmap@[b] == before[b]);
                        }
                    }
                    assert forall|jj: int| 0 <= jj < idxmap@.len() implies last_named(v, (#[trigger] idxmap@[jj]).0@, i + 1)
                        == Some(idxmap@[jj].1 as int) by {
                        if jj < before.len() {
                            assert(idxmap@[jj] == before[jj]);
                        }
                    }
                    assert forall|k: Seq<char>| #[trigger] last_named(v, k, i + 1) is Some implies exists|jj: int|
                        0 <= jj < idxmap@.len() && (#[trigger] idxmap@[jj]).0@ == k by {
                        if k == name {
                            assert(idxmap@[before.len() as int].0@ == k);
                        } else {
                            assert(last_named(v, k, i as int) is Some);
                            let jj = choose|jj: int| 0 <= jj < before.len() && (#[trigger] before[jj]).0@ == k;
                            assert(idxmap@[jj] == before[jj]);
                        }
                    }
                },
            }
            i += 1;
        }
        let mut refcount: Vec<usize> = Vec::new();
        let mut z: usize = 0;
        while z < n
            invariant
                z <= n,
                refcount@.len() == z,
                forall|x: int| 0 <= x < z ==> refcount@[x] == 0,
                count_sum(refcount@) == 0,
            decreases n - z,
        {
            let ghost before = refcount@;
            refcount.push(0);
            assert(refcount@.drop_last() =~= before);
            z += 1;
        }
        let mut d: usize = 0;
        while d < deposits.len()
            invariant
                n == layouts@.len(),
                v == layout_views(layouts@),
                d <= deposits@.len(),
                refcount@.len() == n,
                count_sum(refcount@) <= d,
                unique_keys(idxmap@),
                forall|j: int| 0 <= j < idxmap@.len() ==> last_named(v, (#[trigger] idxmap@[j]).0@, n as int) == Some(
                    idxmap@[j].1 as int,
                ),
                forall|k: Seq<char>| #[trigger] last_named(v, k, n as int) is Some ==> exists|j: int|
                    0 <= j < idxmap@.len() && (#[trigger] idxmap@[j]).0@ == k,
                forall|x: int| 0 <= x < n ==> refcount@[x] == uses(v, deposits@, x, d as int),
            decreases deposits@.len() - d,
        {
            let ghost before = refcount@;
            let ghost dep = deposits@[d as int]@;
            match find_entry(&idxmap, deposits[d].as_str()) {
                Some(j) => {
                    let x = idxmap[j].1;
                    proof {
                        lemma_last_named(v, dep, n as int);
                        lemma_count_sum_update(before, x as int, (before[x as int] + 1) as usize);
                    }
                    let c = refcount[x];
                    refcount.set(x, c + 1);
                },
                None => {
                    assert(last_named(v, dep, n as int) is None);
                },
            }
            d += 1;
        }
        proof {
            assert forall|jj: int| 0 <= jj < idxmap@.len() implies (#[trigger] idxmap@[jj]).1 < v.len() && v[idxmap@[jj].1 as int].name
                == idxmap@[jj].0@ by {
                lemma_last_named(v, idxmap@[jj].0@, n as int);
            }
            assert forall|k: Seq<char>| #[trigger] key_index(idxmap@, k) is Some <==> last_named(v, k, n as int) is Some by {
                if key_index(idxmap@, k) is Some {
                    let jj = choose|jj: int| 0 <= jj < idxmap@.len() && idxmap@[jj].0@ == k;
                    assert(last_named(v, idxmap@[jj].0@, n as int) == Some(idxmap@[jj].1 as int));
                }
                if last_named(v, k, n as int) is Some {
                    let jj = choose|jj: int| 0 <= jj < idxmap@.len() && (#[trigger] idxmap@[jj]).0@ == k;
                    assert(0 <= jj < idxmap@.len() && idxmap@[jj].0@ == k);
                }
            }
        }
        RecordLayoutInfo { idxmap, refcount }
    }
}

} // verus!
