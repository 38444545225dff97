//! Enumerating the parts of a variable's type: the members of structs,
//! classes and unions and the elements of arrays, depth first, each with its
//! name relative to the variable and its offset from the variable's address.

use vstd::prelude::*;
use std::collections::HashMap;
use crate::debuginfo::{reference_of, DbgDataType, DebugData, TypeInfo, VarInfo};
use crate::text::{append_radix, decimal_text};

verus! {

broadcast use vstd::std_specs::hash::group_hash_axioms;

/// One level of the enumeration: a type whose parts are being enumerated,
/// the number of the part that comes next, the offset of the type from the
/// variable's address, and the name that leads to it.
pub struct Frame {
    pub typeinfo: TypeInfo,
    pub position: nat,
    pub offset: u64,
    pub name: Seq<char>,
}

/// The indices of element `v` of an array in row-major order.
pub open spec fn element_indices(v: nat, d: Seq<u64>) -> Seq<u64>
    decreases d.len(),
{
    if d.len() == 0 {
        seq![]
    } else if d.last() == 0 {
        element_indices(0, d.drop_last()).push(0)
    } else {
        element_indices(v / (d.last() as nat), d.drop_last()).push((v % (d.last() as nat)) as u64)
    }
}

/// The text of array indices in a name: `[i]` each, or `._i_` in the notation
/// for arrays of older debug information.
pub open spec fn element_index_text(idx: Seq<u64>, use_new_arrays: bool) -> Seq<char>
    decreases idx.len(),
{
    if idx.len() == 0 {
        seq![]
    } else {
        element_index_text(idx.drop_last(), use_new_arrays) + if use_new_arrays {
            "["@ + decimal_text(idx.last() as nat) + "]"@
        } else {
            "._"@ + decimal_text(idx.last() as nat) + "_"@
        }
    }
}

/// The number of elements of an array: its size divided by its stride.
pub open spec fn element_count(size: u64, stride: u64) -> nat {
    (size / stride) as nat
}

/// The next part of the type on top of the frames, if it has one: the frames
/// after the step (the top frame advanced, the part pushed as a new frame)
/// and the part's name, type (resolved through the table) and offset.
pub open spec fn core_step(frames: Seq<Frame>, types: Map<usize, TypeInfo>, use_new_arrays: bool) -> Option<
    (Seq<Frame>, (Seq<char>, TypeInfo, u64)),
> {
    if frames.len() == 0 {
        None
    } else {
        let f = frames.last();
        let advanced = frames.update(frames.len() - 1, Frame { position: f.position + 1, ..f });
        match f.typeinfo.datatype {
            DbgDataType::Struct { members, .. } | DbgDataType::Class { members, .. } | DbgDataType::Union {
                members,
                ..
            } => if f.position < members@.len() {
                let m = members@[f.position as int];
                let t = reference_of(m.1.0, types);
                let offset = (f.offset + m.1.1) as u64;
                let name = f.name + "."@ + m.0@;
                Some((advanced.push(Frame { typeinfo: t, position: 0, offset, name }), (name, t, offset)))
            } else {
                None
            },
            DbgDataType::Array { size, dim, stride, arraytype } => if f.position < element_count(size, stride) {
                let name = f.name + element_index_text(element_indices(f.position, dim@), use_new_arrays);
                let offset = (f.offset + stride * f.position) as u64;
                let t = reference_of(*arraytype, types);
                Some((advanced.push(Frame { typeinfo: t, position: 0, offset, name }), (name, t, offset)))
            } else {
                None
            },
            _ => None,
        }
    }
}

/// The step on the top frame runs without a panic: an array has a stride
/// and, for an element that is taken, no dimension of zero; offsets and the
/// part counter do not overflow.
pub open spec fn core_defined(frames: Seq<Frame>) -> bool {
    frames.len() > 0 ==> {
        let f = frames.last();
        match f.typeinfo.datatype {
            DbgDataType::Struct { members, .. } | DbgDataType::Class { members, .. } | DbgDataType::Union {
                members,
                ..
            } => f.position < members@.len() ==> f.offset + members@[f.position as int].1.1 <= u64::MAX,
            DbgDataType::Array { size, dim, stride, .. } => stride != 0 && (f.position < element_count(
                size,
                stride,
            ) ==> {
                &&& f.position + 1 <= usize::MAX
                &&& f.offset + stride * f.position <= u64::MAX
                &&& forall|i: int| 0 <= i < dim@.len() ==> #[trigger] dim@[i] != 0
            }),
            _ => true,
        }
    }
}

/// What `next` gives: the next part of the innermost type that has one,
/// leaving the frames of the types that have none; `None` once all frames
/// are left.
pub open spec fn next_step(frames: Seq<Frame>, types: Map<usize, TypeInfo>, use_new_arrays: bool) -> (
    Seq<Frame>,
    Option<(Seq<char>, TypeInfo, u64)>,
)
    decreases frames.len(),
{
    match core_step(frames, types, use_new_arrays) {
        Some((next_frames, item)) => (next_frames, Some(item)),
        None => if frames.len() == 0 {
            (frames, None)
        } else {
            next_step(frames.drop_last(), types, use_new_arrays)
        },
    }
}

/// `next` runs without a panic.
pub open spec fn next_defined(frames: Seq<Frame>, types: Map<usize, TypeInfo>, use_new_arrays: bool) -> bool
    decreases frames.len(),
{
    &&& core_defined(frames)
    &&& (core_step(frames, types, use_new_arrays) is None && frames.len() > 0) ==> next_defined(
        frames.drop_last(),
        types,
        use_new_arrays,
    )
}

/// Enumerates the parts of a type, depth first.
pub struct TypeInfoIter<'dbg> {
    types: &'dbg HashMap<usize, TypeInfo>,
    type_stack: Vec<&'dbg TypeInfo>,
    position_stack: Vec<usize>,
    offset_stack: Vec<u64>,
    name_stack: Vec<String>,
    use_new_arrays: bool,
}

impl<'dbg> TypeInfoIter<'dbg> {
    /// The frames of the enumeration, innermost last.
    pub closed spec fn frames(&self) -> Seq<Frame> {
        Seq::new(
            self.type_stack@.len(),
            |i: int|
                Frame {
                    typeinfo: *self.type_stack@[i],
                    position: self.position_stack@[i] as nat,
                    offset: self.offset_stack@[i],
                    name: self.name_stack@[i]@,
                },
        )
    }

    /// The table of types that references are resolved in.
    pub closed spec fn table(&self) -> Map<usize, TypeInfo> {
        self.types@
    }

    /// Whether names use `[i]` for array elements (else `._i_`).
    pub closed spec fn new_arrays(&self) -> bool {
        self.use_new_arrays
    }

    /// The stacks of the frames are in step.
    pub closed spec fn wf(&self) -> bool {
        &&& self.position_stack@.len() == self.type_stack@.len()
        &&& self.offset_stack@.len() == self.type_stack@.len()
        &&& self.name_stack@.len() == self.type_stack@.len()
    }

    /// Starts the enumeration of the parts of `typeinfo`.
    pub fn new(types: &'dbg HashMap<usize, TypeInfo>, typeinfo: &'dbg TypeInfo, use_new_arrays: bool) -> (r: Self)
        ensures
            r.wf(),
            r.table() == types@,
            r.new_arrays() == use_new_arrays,
            r.frames() == seq![Frame { typeinfo: *typeinfo, position: 0, offset: 0, name: Seq::empty() }],
    {
        let mut type_stack: Vec<&'dbg TypeInfo> = Vec::new();
        type_stack.push(typeinfo);
        let mut position_stack: Vec<usize> = Vec::new();
        position_stack.push(0);
        let mut offset_stack: Vec<u64> = Vec::new();
        offset_stack.push(0);
        let mut name_stack: Vec<String> = Vec::new();
        name_stack.push(String::new());
        let r = TypeInfoIter { types, type_stack, position_stack, offset_stack, name_stack, use_new_arrays };
        assert(r.frames() =~= seq![Frame { typeinfo: *typeinfo, position: 0, offset: 0, name: Seq::empty() }]);
        r
    }

    /// Leaves the innermost frame: the parts of the type that was returned
    /// last are skipped.
    pub fn up(&mut self)
        requires
            old(self).wf(),
        ensures
            final(self).wf(),
            final(self).table() == old(self).table(),
            final(self).new_arrays() == old(self).new_arrays(),
            final(self).frames() == if old(self).frames().len() == 0 {
                old(self).frames()
            } else {
                old(self).frames().drop_last()
            },
    {
        self.type_stack.pop();
        self.position_stack.pop();
        self.name_stack.pop();
        self.offset_stack.pop();
        proof {
            if old(self).frames().len() > 0 {
                assert(self.frames() =~= old(self).frames().drop_last());
            } else {
                assert(self.frames() =~= old(self).frames());
            }
        }
    }

    fn push_frame(&mut self, t: &'dbg TypeInfo, offset: u64, name: String)
        requires
            old(self).wf(),
        ensures
            final(self).wf(),
            final(self).table() == old(self).table(),
            final(self).new_arrays() == old(self).new_arrays(),
            final(self).frames() == old(self).frames().push(
                Frame { typeinfo: *t, position: 0, offset, name: name@ },
            ),
    {
        let ghost nm = name@;
        self.type_stack.push(t);
        self.position_stack.push(0);
        self.offset_stack.push(offset);
        self.name_stack.push(name);
        assert(self.frames() =~= old(self).frames().push(
            Frame { typeinfo: *t, position: 0, offset, name: nm },
        ));
    }

    fn advance_top(&mut self)
        requires
            old(self).wf(),
            old(self).frames().len() > 0,
            old(self).frames().last().position + 1 <= usize::MAX,
        ensures
            final(self).wf(),
            final(self).table() == old(self).table(),
            final(self).new_arrays() == old(self).new_arrays(),
            final(self).frames() == old(self).frames().update(
                old(self).frames().len() - 1,
                Frame { position: old(self).frames().last().position + 1, ..old(self).frames().last() },
            ),
    {
        let depth = self.type_stack.len() - 1;
        let p = self.position_stack[depth];
        self.position_stack.set(depth, p + 1);
        assert(self.frames() =~= old(self).frames().update(
            old(self).frames().len() - 1,
            Frame { position: old(self).frames().last().position + 1, ..old(self).frames().last() },
        ));
    }

    fn next_core(&mut self) -> (r: Option<(String, &'dbg TypeInfo, u64)>)
        requires
            old(self).wf(),
            core_defined(old(self).frames()),
        ensures
            final(self).wf(),
            final(self).table() == old(self).table(),
            final(self).new_arrays() == old(self).new_arrays(),
            match core_step(old(self).frames(), old(self).table(), old(self).new_arrays()) {
                Some((frames, item)) => {
                    &&& final(self).frames() == frames
                    &&& r matches Some((n, t, o)) && n@ == item.0 && *t == item.1 && o == item.2
                },
                None => final(self).frames() == old(self).frames() && r is None,
            },
    {
        let n = self.type_stack.len();
        if n == 0 {
            return None;
        }
        let depth = n - 1;
        let top: &'dbg TypeInfo = self.type_stack[depth];
        let ghost f = self.frames().last();
        assert(f.typeinfo == *top);
        match &top.datatype {
            DbgDataType::Class { members, .. }
            | DbgDataType::Struct { members, .. }
            | DbgDataType::Union { members, .. } => {
                let position = self.position_stack[depth];
                if position >= members.len() {
                    return None;
                }
                let base = self.offset_stack[depth];
                let (member_name, (member_typeinfo, member_offset)) = &members[position];
                let member_typeinfo: &'dbg TypeInfo = member_typeinfo.get_reference(self.types);
                let complete_offset = base + *member_offset;
                let mut fullname = self.name_stack[depth].clone();
                fullname.append(".");
                fullname.append(member_name.as_str());
                let ghost nm = fullname@;
                let result_name = fullname.clone();
                self.advance_top();
                self.push_frame(member_typeinfo, complete_offset, fullname);
                Some((result_name, member_typeinfo, complete_offset))
            },
            DbgDataType::Array { size, dim, stride, arraytype } => {
                let total_elemcount = *size / *stride;
                let position = self.position_stack[depth] as u64;
                if total_elemcount <= position {
                    return None;
                }
                let base = self.offset_stack[depth];
                // decompose the element number into one index per dimension
                let nd = dim.len();
                let mut current_indices: Vec<u64> = Vec::new();
                let mut k: usize = 0;
                while k < nd
                    invariant
                        k <= nd,
                        nd == dim@.len(),
                        current_indices@.len() == k,
                    decreases nd - k,
                {
                    current_indices.push(0);
                    k += 1;
                }
                let ghost v = position as nat;
                let ghost d = dim@;
                let mut rem: u64 = position;
                let mut idx: usize = nd;
                assert(d.subrange(0, nd as int) =~= d);
                assert(element_indices(v, d) + current_indices@.subrange(nd as int, nd as int) =~= element_indices(v, d));
                while idx > 0
                    invariant
                        idx <= nd,
                        nd == d.len(),
                        d == dim@,
                        current_indices@.len() == nd,
                        forall|i: int| 0 <= i < nd ==> #[trigger] d[i] != 0,
                        element_indices(v, d) == element_indices(rem as nat, d.subrange(0, idx as int))
                            + current_indices@.subrange(idx as int, nd as int),
                    decreases idx,
                {
                    let dm = dim[idx - 1];
                    assert(dm != 0);
                    let ghost pre = d.subrange(0, idx as int);
                    assert(pre.drop_last() =~= d.subrange(0, idx - 1));
                    assert(pre.last() == dm);
                    let ghost old_indices = current_indices@;
                    current_indices.set(idx - 1, rem % dm);
                    assert(current_indices@.subrange(idx - 1, nd as int) =~= seq![rem % dm]
                        + old_indices.subrange(idx as int, nd as int));
                    rem = rem / dm;
                    idx -= 1;
                }
                assert(d.subrange(0, 0) =~= Seq::<u64>::empty());
                assert(current_indices@.subrange(0, nd as int) =~= current_indices@);
                assert(current_indices@ =~= element_indices(v, d));

                let mut idxstr = self.name_stack[depth].clone();
                let ghost prefix = idxstr@;
                let mut j: usize = 0;
                while j < nd
                    invariant
                        j <= nd,
                        nd == current_indices@.len(),
                        idxstr@ == prefix + element_index_text(
                            current_indices@.subrange(0, j as int),
                            self.use_new_arrays,
                        ),
                    decreases nd - j,
                {
                    let ghost before = idxstr@;
                    if self.use_new_arrays {
                        idxstr.append("[");
                        append_radix(&mut idxstr, current_indices[j], 10, false);
                        idxstr.append("]");
                    } else {
                        idxstr.append("._");
                        append_radix(&mut idxstr, current_indices[j], 10, false);
                        idxstr.append("_");
                    }
                    proof {
                        let s = current_indices@.subrange(0, j + 1);
                        assert(s.drop_last() =~= current_indices@.subrange(0, j as int));
                        assert(s.last() == current_indices@[j as int]);
                        assert(idxstr@ =~= prefix + element_index_text(s, self.use_new_arrays));
                    }
                    j += 1;
                }
                assert(current_indices@.subrange(0, nd as int) =~= current_indices@);

                let complete_offset = base + (*stride * position);
                let arraytype: &'dbg TypeInfo = arraytype.get_reference(self.types);
                let result_name = idxstr.clone();
                self.advance_top();
                self.push_frame(arraytype, complete_offset, idxstr);
                Some((result_name, arraytype, complete_offset))
            },
            _ => None,
        }
    }

    /// The next part of the type: the name relative to the variable, the
    /// type (resolved through the table) and the offset from the variable's
    /// address.
    pub fn next(&mut self) -> (r: Option<(String, &'dbg TypeInfo, u64)>)
        requires
            old(self).wf(),
            next_defined(old(self).frames(), old(self).table(), old(self).new_arrays()),
        ensures
            final(self).wf(),
            final(self).table() == old(self).table(),
            final(self).new_arrays() == old(self).new_arrays(),
            ({
                let (frames, item) = next_step(old(self).frames(), old(self).table(), old(self).new_arrays());
                &&& final(self).frames() == frames
                &&& match item {
                    Some(it) => r matches Some((n, t, o)) && n@ == it.0 && *t == it.1 && o == it.2,
                    None => r is None,
                }
            }),
    {
        let mut result = self.next_core();
        while result.is_none() && self.type_stack.len() > 0
            invariant
                self.wf(),
                self.table() == old(self).table(),
                self.new_arrays() == old(self).new_arrays(),
                result is None ==> next_defined(self.frames(), self.table(), self.new_arrays()),
                next_step(old(self).frames(), old(self).table(), old(self).new_arrays()) == (match result {
                    Some(_) => next_step(old(self).frames(), old(self).table(), old(self).new_arrays()),
                    None => next_step(self.frames(), self.table(), self.new_arrays()),
                }),
                result is None ==> core_step(self.frames(), self.table(), self.new_arrays()) is None,
                result matches Some((n, t, o)) ==> {
                    let (frames, item) = next_step(old(self).frames(), old(self).table(), old(self).new_arrays());
                    &&& self.frames() == frames
                    &&& item matches Some(it) && n@ == it.0 && *t == it.1 && o == it.2
                },
            decreases self.type_stack@.len() + if result is None {
                1int
            } else {
                0int
            },
        {
            let ghost pre = self.frames();
            assert(pre.len() == self.type_stack@.len());
            assert(next_defined(pre.drop_last(), self.table(), self.new_arrays()));
            assert(next_step(pre, self.table(), self.new_arrays()) == next_step(
                pre.drop_last(),
                self.table(),
                self.new_arrays(),
            ));
            self.up();
            result = self.next_core();
        }
        result
    }
}

/// One variable, or one part of a variable, of the debug information.
pub struct SymbolInfo<'dbg> {
    /// The variable's name, followed by the name of the part.
    pub name: String,
    pub address: u64,
    pub typeinfo: &'dbg TypeInfo,
    pub unit_idx: usize,
    pub function_name: &'dbg Option<String>,
    pub namespaces: &'dbg Vec<String>,
    /// Whether the variable's name stands for this variable alone.
    pub is_unique: bool,
}

/// The state of the enumeration of all variables: the variable whose
/// definitions are enumerated (an index into the variables), the index of
/// the variable after it, the definition of that name, and the frames of the
/// enumeration of its parts once the definition itself was returned.
pub struct VarsState {
    pub current: Option<int>,
    pub next: int,
    pub position: int,
    pub frames: Option<Seq<Frame>>,
}

/// What the enumeration of variables returns for one item: the variable (an
/// index into the variables and one into its definitions), the name, the
/// address and the type.
pub type VarItem = (int, int, Seq<char>, u64, TypeInfo);

/// The type of a variable: its type in the table, else the default type.
pub open spec fn var_type(types: Map<usize, TypeInfo>, v: VarInfo, default: TypeInfo) -> TypeInfo {
    if types.contains_key(v.typeref) {
        types[v.typeref]
    } else {
        default
    }
}

/// The number of definitions of the current variable that are left.
pub open spec fn definitions_left(vars: Seq<(String, Vec<VarInfo>)>, s: VarsState) -> int {
    match s.current {
        Some(c) => if 0 <= c < vars.len() && s.position <= vars[c].1@.len() {
            vars[c].1@.len() - s.position
        } else {
            0
        },
        None => 0,
    }
}

/// One step of the enumeration of variables: each definition of each
/// variable is returned, followed by its parts (see `next_step`), in the
/// order of the variables and their definitions.
pub open spec fn vars_step(
    vars: Seq<(String, Vec<VarInfo>)>,
    types: Map<usize, TypeInfo>,
    default: TypeInfo,
    use_new_arrays: bool,
    s: VarsState,
) -> (VarsState, Option<VarItem>)
    decreases vars.len() - s.next, definitions_left(vars, s), if s.current is Some {
        1int
    } else {
        0int
    },
{
    match s.current {
        None => (s, None),
        Some(c) => if !(0 <= c < vars.len()) || s.next > vars.len() || s.position < 0 {
            (s, None)
        } else {
            let list = vars[c].1@;
            if s.position < list.len() {
                let v = list[s.position];
                match s.frames {
                    None => {
                        let t = var_type(types, v, default);
                        (
                            VarsState { frames: Some(seq![Frame { typeinfo: t, position: 0, offset: 0, name: Seq::empty() }]), ..s },
                            Some((c, s.position, vars[c].0@, v.address, t)),
                        )
                    },
                    Some(fr) => {
                        let (fr2, it) = next_step(fr, types, use_new_arrays);
                        match it {
                            Some((n, t, o)) => (
                                VarsState { frames: Some(fr2), ..s },
                                Some((c, s.position, vars[c].0@ + n, (v.address + o) as u64, t)),
                            ),
                            None => vars_step(
                                vars,
                                types,
                                default,
                                use_new_arrays,
                                VarsState { position: s.position + 1, frames: None, ..s },
                            ),
                        }
                    },
                }
            } else if s.next < vars.len() {
                vars_step(
                    vars,
                    types,
                    default,
                    use_new_arrays,
                    VarsState { current: Some(s.next), next: s.next + 1, position: 0, frames: None },
                )
            } else {
                vars_step(
                    vars,
                    types,
                    default,
                    use_new_arrays,
                    VarsState { current: None, next: s.next, position: 0, frames: None },
                )
            }
        },
    }
}

/// The step of the enumeration of variables runs without a panic: the
/// enumeration of the parts runs without one, and the address of a part
/// does not overflow.
pub open spec fn vars_defined(
    vars: Seq<(String, Vec<VarInfo>)>,
    types: Map<usize, TypeInfo>,
    default: TypeInfo,
    use_new_arrays: bool,
    s: VarsState,
) -> bool
    decreases vars.len() - s.next, definitions_left(vars, s), if s.current is Some {
        1int
    } else {
        0int
    },
{
    match s.current {
        None => true,
        Some(c) => if !(0 <= c < vars.len()) || s.next > vars.len() || s.position < 0 {
            true
        } else {
            let list = vars[c].1@;
            if s.position < list.len() {
                let v = list[s.position];
                match s.frames {
                    None => true,
                    Some(fr) => {
                        let (fr2, it) = next_step(fr, types, use_new_arrays);
                        &&& next_defined(fr, types, use_new_arrays)
                        &&& match it {
                            Some((n, t, o)) => v.address + o <= u64::MAX,
                            None => vars_defined(
                                vars,
                                types,
                                default,
                                use_new_arrays,
                                VarsState { position: s.position + 1, frames: None, ..s },
                            ),
                        }
                    },
                }
            } else if s.next < vars.len() {
                vars_defined(
                    vars,
                    types,
                    default,
                    use_new_arrays,
                    VarsState { current: Some(s.next), next: s.next + 1, position: 0, frames: None },
                )
            } else {
                vars_defined(
                    vars,
                    types,
                    default,
                    use_new_arrays,
                    VarsState { current: None, next: s.next, position: 0, frames: None },
                )
            }
        },
    }
}

/// The type that variables get whose type is not in the table.
pub fn default_typeinfo() -> (r: TypeInfo)
    ensures
        r == (TypeInfo { name: None, unit_idx: usize::MAX, datatype: DbgDataType::Sint16, dbginfo_offset: 0 }),
{
    TypeInfo { name: None, unit_idx: usize::MAX, datatype: DbgDataType::Sint16, dbginfo_offset: 0 }
}

/// Enumerates all variables of the debug information, each definition
/// followed by its parts.
pub struct VariablesIterator<'dbg> {
    debugdata: &'dbg DebugData,
    default_type: &'dbg TypeInfo,
    next_var: usize,
    current_var: Option<usize>,
    position: usize,
    type_iter: Option<TypeInfoIter<'dbg>>,
    use_new_arrays: bool,
}

impl<'dbg> VariablesIterator<'dbg> {
    /// The variables that are enumerated.
    pub closed spec fn vars(&self) -> Seq<(String, Vec<VarInfo>)> {
        self.debugdata.variables@
    }

    /// The table of types.
    pub closed spec fn table(&self) -> Map<usize, TypeInfo> {
        self.debugdata.types@
    }

    /// The type of variables whose type is not in the table.
    pub closed spec fn default(&self) -> TypeInfo {
        *self.default_type
    }

    /// Whether names use `[i]` for array elements (else `._i_`).
    pub closed spec fn new_arrays(&self) -> bool {
        self.use_new_arrays
    }

    /// The state of the enumeration.
    pub closed spec fn state(&self) -> VarsState {
        VarsState {
            current: match self.current_var {
                Some(c) => Some(c as int),
                None => None,
            },
            next: self.next_var as int,
            position: self.position as int,
            frames: match self.type_iter {
                Some(it) => Some(it.frames()),
                None => None,
            },
        }
    }

    /// The parts of the state are in step.
    pub closed spec fn wf(&self) -> bool {
        &&& self.next_var <= self.debugdata.variables@.len()
        &&& self.current_var matches Some(c) ==> c < self.debugdata.variables@.len() && self.next_var == c + 1
        &&& self.current_var matches Some(c) ==> self.position <= self.debugdata.variables@[c as int].1@.len()
        &&& self.type_iter matches Some(it) ==> {
            &&& it.wf()
            &&& it.table() == self.debugdata.types@
            &&& it.new_arrays() == self.use_new_arrays
        }
    }

    /// Starts the enumeration at the first variable; variables whose type is
    /// not in the table get `default_type`.
    pub fn new(debugdata: &'dbg DebugData, default_type: &'dbg TypeInfo, use_new_arrays: bool) -> (r: Self)
        ensures
            r.wf(),
            r.vars() == debugdata.variables@,
            r.table() == debugdata.types@,
            r.default() == *default_type,
            r.new_arrays() == use_new_arrays,
            r.state() == (if debugdata.variables@.len() > 0 {
                VarsState { current: Some(0), next: 1, position: 0, frames: None }
            } else {
                VarsState { current: None, next: 0, position: 0, frames: None }
            }),
    {
        if debugdata.variables.len() > 0 {
            VariablesIterator {
                debugdata,
                default_type,
                next_var: 1,
                current_var: Some(0),
                position: 0,
                type_iter: None,
                use_new_arrays,
            }
        } else {
            VariablesIterator {
                debugdata,
                default_type,
                next_var: 0,
                current_var: None,
                position: 0,
                type_iter: None,
                use_new_arrays,
            }
        }
    }

    /// The next variable, or part of a variable.
    pub fn next(&mut self) -> (r: Option<SymbolInfo<'dbg>>)
        requires
            old(self).wf(),
            vars_defined(old(self).vars(), old(self).table(), old(self).default(), old(self).new_arrays(), old(self).state()),
        ensures
            final(self).wf(),
            final(self).vars() == old(self).vars(),
            final(self).table() == old(self).table(),
            final(self).default() == old(self).default(),
            final(self).new_arrays() == old(self).new_arrays(),
            ({
                let (s2, item) = vars_step(
                    old(self).vars(),
                    old(self).table(),
                    old(self).default(),
                    old(self).new_arrays(),
                    old(self).state(),
                );
                &&& final(self).state() == s2
                &&& match item {
                    None => r is None,
                    Some((c, p, name, address, t)) => r matches Some(si) && {
                        let v = old(self).vars()[c].1@[p];
                        &&& si.name@ == name
                        &&& si.address == address
                        &&& *si.typeinfo == t
                        &&& si.unit_idx == v.unit_idx
                        &&& *si.function_name == v.function
                        &&& *si.namespaces == v.namespaces
                        &&& si.is_unique == (old(self).vars()[c].1@.len() == 1)
                    },
                }
            }),
    {
        let ghost vars = self.vars();
        let ghost types = self.table();
        let ghost default = self.default();
        let ghost na = self.new_arrays();
        loop
            invariant
                self.wf(),
                self.vars() == vars,
                self.table() == types,
                self.default() == default,
                self.new_arrays() == na,
                vars == old(self).vars(),
                types == old(self).table(),
                default == old(self).default(),
                na == old(self).new_arrays(),
                vars_defined(vars, types, default, na, self.state()),
                vars_step(vars, types, default, na, old(self).state()) == vars_step(
                    vars,
                    types,
                    default,
                    na,
                    self.state(),
                ),
            decreases vars.len() - self.next_var, definitions_left(vars, self.state()), if self.current_var is Some {
                1int
            } else {
                0int
            },
        {
            let c = match self.current_var {
                Some(c) => c,
                None => return None,
            };
            let (varname, list) = &self.debugdata.variables[c];
            if self.position < list.len() {
                let varinfo: &'dbg VarInfo = &list[self.position];
                let is_unique = list.len() == 1;
                if self.type_iter.is_none() {
                    let typeinfo: &'dbg TypeInfo = match self.debugdata.types.get(&varinfo.typeref) {
                        Some(t) => t,
                        None => self.default_type,
                    };
                    self.type_iter = Some(TypeInfoIter::new(&self.debugdata.types, typeinfo, self.use_new_arrays));
                    return Some(SymbolInfo {
                        name: varname.clone(),
                        address: varinfo.address,
                        typeinfo,
                        unit_idx: varinfo.unit_idx,
                        function_name: &varinfo.function,
                        namespaces: &varinfo.namespaces,
                        is_unique,
                    });
                }
                let mut type_iter = self.type_iter.take().unwrap();
                match type_iter.next() {
                    Some((var_component_name, typeinfo, offset)) => {
                        self.type_iter = Some(type_iter);
                        let mut name = varname.clone();
                        name.append(var_component_name.as_str());
                        return Some(SymbolInfo {
                            name,
                            address: varinfo.address + offset,
                            typeinfo,
                            unit_idx: varinfo.unit_idx,
                            function_name: &varinfo.function,
                            namespaces: &varinfo.namespaces,
                            is_unique,
                        });
                    },
                    None => {
                        // the parts of this definition are done: on to the next one
                        self.position += 1;
                    },
                }
            } else {
                // the definitions of this variable are done: on to the next variable
                if self.next_var < self.debugdata.variables.len() {
                    self.current_var = Some(self.next_var);
                    self.next_var += 1;
                } else {
                    self.current_var = None;
                }
                self.position = 0;
                self.type_iter = None;
            }
        }
    }

    /// Skips the parts of the item that was returned last, and returns the
    /// next item.
    pub fn next_sibling(&mut self) -> (r: Option<SymbolInfo<'dbg>>)
        requires
            old(self).wf(),
            ({
                let s = old(self).state();
                let s_up = match s.frames {
                    Some(fr) => VarsState {
                        frames: Some(if fr.len() == 0 { fr } else { fr.drop_last() }),
                        ..s
                    },
                    None => s,
                };
                vars_defined(old(self).vars(), old(self).table(), old(self).default(), old(self).new_arrays(), s_up)
            }),
        ensures
            final(self).wf(),
            final(self).vars() == old(self).vars(),
            final(self).table() == old(self).table(),
            final(self).default() == old(self).default(),
            final(self).new_arrays() == old(self).new_arrays(),
            ({
                let s = old(self).state();
                let s_up = match s.frames {
                    Some(fr) => VarsState {
                        frames: Some(if fr.len() == 0 { fr } else { fr.drop_last() }),
                        ..s
                    },
                    None => s,
                };
                let (s2, item) = vars_step(old(self).vars(), old(self).table(), old(self).default(), old(self).new_arrays(), s_up);
                &&& final(self).state() == s2
                &&& match item {
                    None => r is None,
                    Some((c, p, name, address, t)) => r matches Some(si) && {
                        let v = old(self).vars()[c].1@[p];
                        &&& si.name@ == name
                        &&& si.address == address
                        &&& *si.typeinfo == t
                        &&& si.unit_idx == v.unit_idx
                        &&& *si.function_name == v.function
                        &&& *si.namespaces == v.namespaces
                        &&& si.is_unique == (old(self).vars()[c].1@.len() == 1)
                    },
                }
            }),
    {
        if self.type_iter.is_some() {
            let mut type_iter = self.type_iter.take().unwrap();
            type_iter.up();
            self.type_iter = Some(type_iter);
        }
        self.next()
    }
}

} // verus!
