//! Splitting an array item into one item per element: the elements are
//! enumerated in row-major order, each gets a symbol name with its indices
//! and an A2L name made by the split rule of the definition.

use vstd::prelude::*;
use vstd::arithmetic::div_mod::{lemma_fundamental_div_mod, lemma_mod_bound, lemma_multiply_divide_lt};
use vstd::arithmetic::mul::lemma_mul_is_commutative;
use crate::creator::definitions::{SpecSplitType, SplitType};
use crate::creator::naming::{apply_template, template_text};
use crate::text::{append_radix, decimal_text};

verus! {

/// The number of elements of an array with the given dimensions.
pub open spec fn dims_product(d: Seq<u32>) -> nat
    decreases d.len(),
{
    if d.len() == 0 {
        1
    } else {
        dims_product(d.drop_last()) * (d.last() as nat)
    }
}

/// The indices of element `v` in row-major order: the last index runs
/// fastest.
pub open spec fn decompose(v: nat, d: Seq<u32>) -> Seq<u32>
    decreases d.len(),
{
    if d.len() == 0 {
        seq![]
    } else if d.last() == 0 {
        decompose(0, d.drop_last()).push(0)
    } else {
        decompose(v / (d.last() as nat), d.drop_last()).push((v % (d.last() as nat)) as u32)
    }
}

/// The element number of a list of indices in row-major order.
pub open spec fn recompose(idx: Seq<u32>, d: Seq<u32>) -> nat
    decreases idx.len(),
{
    if idx.len() == 0 || d.len() == 0 {
        0
    } else {
        recompose(idx.drop_last(), d.drop_last()) * (d.last() as nat) + (idx.last() as nat)
    }
}

/// The text of one index in a symbol name: `[i]`, or `._i_` in the notation
/// for arrays of older debug information.
pub open spec fn index_piece(v: u32, use_new_arrays: bool) -> Seq<char> {
    if use_new_arrays {
        "["@ + decimal_text(v as nat) + "]"@
    } else {
        "._"@ + decimal_text(v as nat) + "_"@
    }
}

/// The text of a list of indices in a symbol name.
pub open spec fn index_text(idx: Seq<u32>, use_new_arrays: bool) -> Seq<char>
    decreases idx.len(),
{
    if idx.len() == 0 {
        seq![]
    } else {
        index_text(idx.drop_last(), use_new_arrays) + index_piece(idx.last(), use_new_arrays)
    }
}

/// The A2L name and the symbol name of element `v`, or `None` where the split
/// rule gives no name: a manual list of names that is too short, or a
/// template that does not fit the indices.
pub open spec fn split_item(
    dims: Seq<u32>,
    split: SpecSplitType,
    a2l_name: Seq<char>,
    symbol_name: Seq<char>,
    use_new_arrays: bool,
    v: nat,
) -> Option<(Seq<char>, Seq<char>)> {
    let idx = decompose(v, dims);
    let idxstr = index_text(idx, use_new_arrays);
    match split {
        SpecSplitType::Auto => Some((a2l_name + idxstr, symbol_name + idxstr)),
        SpecSplitType::Manual(names) => if v < names.len() {
            Some((a2l_name + names[v as int], symbol_name + idxstr))
        } else {
            None
        },
        SpecSplitType::Template(t) => match template_text(t, 0, idx, 0) {
            Some(postfix) => Some((a2l_name + postfix, symbol_name + idxstr)),
            None => None,
        },
    }
}

/// Every list of dimensions has a product; a positive product has only
/// positive dimensions.
pub proof fn lemma_product_positive(d: Seq<u32>)
    ensures
        dims_product(d) > 0 <==> forall|i: int| 0 <= i < d.len() ==> #[trigger] d[i] > 0,
    decreases d.len(),
{
    if d.len() > 0 {
        lemma_product_positive(d.drop_last());
        let p = dims_product(d.drop_last());
        let l = d.last() as nat;
        assert(p * l > 0 <==> p > 0 && l > 0) by (nonlinear_arith);
        if dims_product(d) > 0 {
            assert forall|i: int| 0 <= i < d.len() implies #[trigger] d[i] > 0 by {
                if i < d.len() - 1 {
                    assert(d.drop_last()[i] == d[i]);
                }
            }
        } else {
            if forall|i: int| 0 <= i < d.len() ==> #[trigger] d[i] > 0 {
                assert forall|i: int| 0 <= i < d.drop_last().len() implies #[trigger] d.drop_last()[i] > 0 by {
                    assert(d.drop_last()[i] == d[i]);
                }
                assert(d[d.len() - 1] > 0);
            }
        }
    }
}

/// The indices of an element number: one per dimension, each below its
/// dimension where the dimension is not zero.
pub proof fn lemma_decompose_in_bounds(v: nat, d: Seq<u32>)
    ensures
        decompose(v, d).len() == d.len(),
        forall|i: int| 0 <= i < d.len() && d[i] > 0 ==> #[trigger] decompose(v, d)[i] < d[i],
    decreases d.len(),
{
    if d.len() > 0 {
        let l = d.last() as nat;
        if l == 0 {
            lemma_decompose_in_bounds(0, d.drop_last());
        } else {
            lemma_decompose_in_bounds(v / l, d.drop_last());
            lemma_mod_bound(v as int, l as int);
        }
        assert forall|i: int| 0 <= i < d.len() && d[i] > 0 implies #[trigger] decompose(v, d)[i] < d[i] by {
            if i < d.len() - 1 {
                assert(d.drop_last()[i] == d[i]);
            }
        }
    }
}

/// Row-major decomposition is undone by recomposition: every element number
/// below the number of elements is reached by exactly its own indices.
pub proof fn law_recompose_decompose(v: nat, d: Seq<u32>)
    requires
        v < dims_product(d),
    ensures
        recompose(decompose(v, d), d) == v,
    decreases d.len(),
{
    if d.len() > 0 {
        let l = d.last() as nat;
        let p = dims_product(d.drop_last());
        lemma_product_positive(d);
        assert(l > 0);
        lemma_mul_is_commutative(p as int, l as int);
        lemma_multiply_divide_lt(v as int, l as int, p as int);
        law_recompose_decompose(v / l, d.drop_last());
        lemma_fundamental_div_mod(v as int, l as int);
        lemma_mod_bound(v as int, l as int);
        let idx = decompose(v, d);
        assert(idx.drop_last() =~= decompose(v / l, d.drop_last()));
        assert(recompose(idx, d) == recompose(idx.drop_last(), d.drop_last()) * l + (v % l));
        assert((v / l) * l == l * (v / l)) by (nonlinear_arith);
    }
}

/// Every combination of indices within the dimensions is the decomposition
/// of exactly one element number below the number of elements: the split
/// enumerates all combinations.
pub proof fn law_decompose_recompose(idx: Seq<u32>, d: Seq<u32>)
    requires
        idx.len() == d.len(),
        forall|i: int| 0 <= i < d.len() ==> idx[i] < d[i],
    ensures
        recompose(idx, d) < dims_product(d),
        decompose(recompose(idx, d), d) == idx,
    decreases d.len(),
{
    if d.len() > 0 {
        let l = d.last() as nat;
        let x = idx.last() as nat;
        let pre = idx.drop_last();
        let dpre = d.drop_last();
        assert forall|i: int| 0 <= i < dpre.len() implies pre[i] < dpre[i] by {
            assert(pre[i] == idx[i] && dpre[i] == d[i]);
        }
        law_decompose_recompose(pre, dpre);
        let r = recompose(pre, dpre);
        let p = dims_product(dpre);
        assert(x < l) by {
            assert(idx[idx.len() - 1] < d[d.len() - 1]);
        }
        assert(r * l + x < p * l) by (nonlinear_arith)
            requires
                r < p,
                x < l,
        ;
        let v = r * l + x;
        assert(recompose(idx, d) == v);
        assert(v / l == r && v % l == x) by (nonlinear_arith)
            requires
                v == r * l + x,
                x < l,
                0 <= x,
                0 <= r,
        ;
        assert(decompose(v, d) == decompose(r, dpre).push(x as u32));
        assert(idx =~= pre.push(idx.last()));
    } else {
        assert(idx =~= Seq::<u32>::empty());
    }
}

/// Enumerates the elements of an array item with their A2L and symbol
/// names.
pub struct SplitIterator<'a> {
    dimensions: &'a [u32],
    split: &'a SplitType,
    limit: u32,
    current_value: u32,
    base_a2l_name: &'a str,
    base_symbol_name: &'a str,
    use_new_arrays: bool,
}

impl<'a> SplitIterator<'a> {
    /// The dimensions of the array.
    pub closed spec fn dims(&self) -> Seq<u32> {
        self.dimensions@
    }

    /// The split rule.
    pub closed spec fn split_rule(&self) -> SpecSplitType {
        self.split.deep_view()
    }

    /// The A2L name that the element names extend.
    pub closed spec fn a2l_base(&self) -> Seq<char> {
        self.base_a2l_name@
    }

    /// The symbol name that the element names extend.
    pub closed spec fn symbol_base(&self) -> Seq<char> {
        self.base_symbol_name@
    }

    /// Whether symbol names use `[i]` (else `._i_`).
    pub closed spec fn new_arrays(&self) -> bool {
        self.use_new_arrays
    }

    /// The number of the element that comes next.
    pub closed spec fn position(&self) -> nat {
        self.current_value as nat
    }

    /// The number of elements.
    pub closed spec fn limit(&self) -> nat {
        self.limit as nat
    }

    /// The element numbers stay in step with the dimensions.
    pub closed spec fn wf(&self) -> bool {
        self.limit as nat == dims_product(self.dimensions@)
    }

    /// Starts the enumeration of an array of the given dimensions; the number
    /// of elements must fit in a `u32`.
    pub fn new(
        dimensions: &'a [u32],
        split: &'a SplitType,
        a2l_name: &'a str,
        symbol_name: &'a str,
        use_new_arrays: bool,
    ) -> (r: Self)
        requires
            forall|k: int| 0 <= k <= dimensions@.len() ==> #[trigger] dims_product(dimensions@.subrange(0, k)) <= u32::MAX,
        ensures
            r.wf(),
            r.dims() == dimensions@,
            r.split_rule() == split.deep_view(),
            r.a2l_base() == a2l_name@,
            r.symbol_base() == symbol_name@,
            r.new_arrays() == use_new_arrays,
            r.position() == 0,
            r.limit() == dims_product(dimensions@),
    {
        let mut limit: u32 = 1;
        let mut i: usize = 0;
        while i < dimensions.len()
            invariant
                i <= dimensions@.len(),
                limit as nat == dims_product(dimensions@.subrange(0, i as int)),
                forall|k: int| 0 <= k <= dimensions@.len() ==> #[trigger] dims_product(dimensions@.subrange(0, k)) <= u32::MAX,
            decreases dimensions@.len() - i,
        {
            assert(dimensions@.subrange(0, i + 1).drop_last() =~= dimensions@.subrange(0, i as int));
            assert(dims_product(dimensions@.subrange(0, i + 1)) <= u32::MAX);
            limit = limit * dimensions[i];
            i += 1;
        }
        assert(dimensions@.subrange(0, dimensions@.len() as int) =~= dimensions@);
        SplitIterator {
            dimensions,
            split,
            base_a2l_name: a2l_name,
            base_symbol_name: symbol_name,
            limit,
            current_value: 0,
            use_new_arrays,
        }
    }

    /// The names of the next element. `None` once all elements were
    /// enumerated, and where the split rule gives no name; a template that
    /// does not fit stops the enumeration where it is.
    pub fn next(&mut self) -> (r: Option<(String, String)>)
        requires
            old(self).wf(),
        ensures
            final(self).wf(),
            final(self).dims() == old(self).dims(),
            final(self).split_rule() == old(self).split_rule(),
            final(self).a2l_base() == old(self).a2l_base(),
            final(self).symbol_base() == old(self).symbol_base(),
            final(self).new_arrays() == old(self).new_arrays(),
            final(self).limit() == old(self).limit(),
            old(self).position() >= old(self).limit() ==> r is None && final(self).position()
                == old(self).position(),
            old(self).position() < old(self).limit() ==> {
                let item = split_item(
                    old(self).dims(),
                    old(self).split_rule(),
                    old(self).a2l_base(),
                    old(self).symbol_base(),
                    old(self).new_arrays(),
                    old(self).position(),
                );
                &&& r.deep_view() == item
                &&& final(self).position() == if item is None && old(self).split_rule() is Template {
                    old(self).position()
                } else {
                    old(self).position() + 1
                }
            },
    {
        if self.current_value >= self.limit {
            return None;
        }
        let ghost d = self.dimensions@;
        let ghost v = self.current_value as nat;
        proof {
            lemma_product_positive(d);
        }
        let n = self.dimensions.len();
        let mut indices: Vec<u32> = Vec::new();
        let mut k: usize = 0;
        while k < n
            invariant
                k <= n,
                n == d.len(),
                indices@.len() == k,
            decreases n - k,
        {
            indices.push(0);
            k += 1;
        }
        // going backward over the dimensions, divide and keep the remainder
        let mut rem: u32 = self.current_value;
        let mut idx: usize = n;
        assert(d.subrange(0, n as int) =~= d);
        assert(decompose(v, d) + indices@.subrange(n as int, n as int) =~= decompose(v, d));
        while idx > 0
            invariant
                idx <= n,
                n == d.len(),
                d == self.dimensions@,
                indices@.len() == n,
                forall|i: int| 0 <= i < n ==> #[trigger] d[i] > 0,
                decompose(v, d) == decompose(rem as nat, d.subrange(0, idx as int)) + indices@.subrange(
                    idx as int,
                    n as int,
                ),
            decreases idx,
        {
            let dim = self.dimensions[idx - 1];
            assert(dim > 0);
            let ghost pre = d.subrange(0, idx as int);
            assert(pre.drop_last() =~= d.subrange(0, idx - 1));
            assert(pre.last() == dim);
            let ghost old_indices = indices@;
            indices.set(idx - 1, rem % dim);
            assert(indices@.subrange(idx - 1, n as int) =~= seq![rem % dim] + old_indices.subrange(
                idx as int,
                n as int,
            ));
            rem = rem / dim;
            idx -= 1;
        }
        assert(d.subrange(0, 0) =~= Seq::<u32>::empty());
        assert(indices@.subrange(0, n as int) =~= indices@);
        assert(indices@ =~= decompose(v, d));

        // the index text of the symbol name
        let mut idxstr = String::new();
        let mut j: usize = 0;
        while j < n
            invariant
                j <= n,
                n == indices@.len(),
                idxstr@ == index_text(indices@.subrange(0, j as int), self.use_new_arrays),
            decreases n - j,
        {
            let ghost before = idxstr@;
            if self.use_new_arrays {
                idxstr.append("[");
                append_radix(&mut idxstr, indices[j] as u64, 10, false);
                idxstr.append("]");
            } else {
                idxstr.append("._");
                append_radix(&mut idxstr, indices[j] as u64, 10, false);
                idxstr.append("_");
            }
            proof {
                let s = indices@.subrange(0, j + 1);
                assert(s.drop_last() =~= indices@.subrange(0, j as int));
                assert(s.last() == indices@[j as int]);
                assert(idxstr@ =~= before + index_piece(indices@[j as int], self.use_new_arrays));
            }
            j += 1;
        }
        assert(indices@.subrange(0, n as int) =~= indices@);
        let mut symbol_name = String::from_str(self.base_symbol_name);
        symbol_name.append(idxstr.as_str());

        let result = match self.split {
            SplitType::Auto => {
                let mut a2l_name = String::from_str(self.base_a2l_name);
                a2l_name.append(idxstr.as_str());
                Some((a2l_name, symbol_name))
            },
            SplitType::Manual(names) => {
                if (self.current_value as usize) < names.len() {
                    let mut a2l_name = String::from_str(self.base_a2l_name);
                    a2l_name.append(names[self.current_value as usize].as_str());
                    Some((a2l_name, symbol_name))
                } else {
                    None
                }
            },
            SplitType::Template(template) => {
                let postfix = match apply_template(template.as_str(), indices.as_slice()) {
                    Some(p) => p,
                    None => return None,
                };
                let mut a2l_name = String::from_str(self.base_a2l_name);
                a2l_name.append(postfix.as_str());
                Some((a2l_name, symbol_name))
            },
        };
        self.current_value = self.current_value + 1;
        result
    }
}

} // verus!
