//! Flat, fixed-stride attribute stores.
//!
//! A store owns one flat sequence of scalars. Logical element `i` of a store
//! whose dimension is `d` occupies the slots `[i * d, i * d + d)`.

use vstd::prelude::*;

verus! {

/// The number of scalar components in one logical element of a stream.
#[derive(Clone, Copy, PartialEq, Eq, Structural, Debug)]
pub enum Dimension {
    OneDim,
    TwoDim,
    ThreeDim,
}

impl Dimension {
    /// The number of components, as a mathematical number.
    pub open spec fn arity(self) -> nat {
        match self {
            Dimension::OneDim => 1,
            Dimension::TwoDim => 2,
            Dimension::ThreeDim => 3,
        }
    }

    /// The number of components.
    pub fn components(self) -> (n: usize)
        ensures
            n == self.arity(),
    {
        match self {
            Dimension::OneDim => 1,
            Dimension::TwoDim => 2,
            Dimension::ThreeDim => 3,
        }
    }
}

/// `v` is a value that `T::default()` may return.
pub open spec fn is_default<T: Default>(v: T) -> bool {
    call_ensures(T::default, (), v)
}

/// The slots `[i * stride, i * stride + stride)` of a flat sequence.
pub open spec fn slots<T>(flat: Seq<T>, stride: nat, i: int) -> Seq<T> {
    flat.subrange(i * stride, i * stride + stride)
}

/// `flat` with the slots of element `i` replaced by `val`.
pub open spec fn with_slots<T>(flat: Seq<T>, stride: nat, i: int, val: Seq<T>) -> Seq<T> {
    flat.subrange(0, i * stride) + val + flat.subrange(i * stride + stride, flat.len() as int)
}

/// The logical elements of a flat sequence, in order. Slots past the last
/// whole element belong to none.
pub open spec fn elements_of<T>(flat: Seq<T>, stride: nat) -> Seq<Seq<T>> {
    Seq::new(flat.len() / stride, |i: int| slots(flat, stride, i))
}

/// A flat store of scalars, read and written one logical element at a time.
pub struct VertexAttribs<T> {
    data: Vec<T>,
    elem_per_vert: Dimension,
}

impl<T> View for VertexAttribs<T> {
    type V = Seq<T>;

    /// The flat sequence of scalars.
    closed spec fn view(&self) -> Seq<T> {
        self.data@
    }
}

impl<T> VertexAttribs<T> where T: Copy + Default {
    /// The dimension the store was made with.
    pub closed spec fn dim(&self) -> Dimension {
        self.elem_per_vert
    }

    /// The number of slots per logical element.
    pub open spec fn stride(&self) -> nat {
        self.dim().arity()
    }

    /// The flat sequence holds whole elements only.
    pub open spec fn wf(&self) -> bool {
        self@.len() % self.stride() == 0
    }

    /// The number of logical elements.
    pub open spec fn count(&self) -> nat {
        self@.len() / self.stride()
    }

    /// Logical element `i`.
    pub open spec fn element(&self, i: int) -> Seq<T> {
        slots(self@, self.stride(), i)
    }

    /// The logical elements, in order.
    pub open spec fn elements(&self) -> Seq<Seq<T>> {
        elements_of(self@, self.stride())
    }

    /// An empty store of the given dimension.
    pub fn new(elem_per_vert: Dimension) -> (store: Self)
        ensures
            store@ == Seq::<T>::empty(),
            store.dim() == elem_per_vert,
            store.wf(),
            store.elements() == Seq::<Seq<T>>::empty(),
    {
        proof {
            lemma_whole_elements(0, elem_per_vert.arity());
        }
        Self { data: Vec::new(), elem_per_vert }
    }

    /// The flat scalars themselves. Whoever changes their number answers for
    /// `wf` afterwards.
    pub fn get_vals(&mut self) -> (vals: &mut Vec<T>)
        ensures
            vals@ == old(self)@,
            final(self)@ == final(vals)@,
            final(self).dim() == old(self).dim(),
    {
        &mut self.data
    }

    /// Appends a one-component element.
    pub fn push1d(&mut self, element: T)
        requires
            old(self).dim() == Dimension::OneDim,
        ensures
            final(self)@ == old(self)@.push(element),
            final(self).dim() == old(self).dim(),
            old(self).wf() ==> final(self).wf() && final(self).elements() == old(
                self,
            ).elements().push(seq![element]),
    {
        self.data.push(element);
        proof {
            assert(self@ =~= old(self)@ + seq![element]);
            if old(self).wf() {
                lemma_push_element(old(self)@, self.stride(), seq![element]);
            }
        }
    }

    /// Appends a two-component element.
    pub fn push2d(&mut self, element: (T, T))
        requires
            old(self).dim() == Dimension::TwoDim,
        ensures
            final(self)@ == old(self)@ + seq![element.0, element.1],
            final(self).dim() == old(self).dim(),
            old(self).wf() ==> final(self).wf() && final(self).elements() == old(
                self,
            ).elements().push(seq![element.0, element.1]),
    {
        self.data.push(element.0);
        self.data.push(element.1);
        proof {
            if old(self).wf() {
                lemma_push_element(old(self)@, self.stride(), seq![element.0, element.1]);
            }
        }
    }

    /// Appends a three-component element.
    pub fn push3d(&mut self, element: (T, T, T))
        requires
            old(self).dim() == Dimension::ThreeDim,
        ensures
            final(self)@ == old(self)@ + seq![element.0, element.1, element.2],
            final(self).dim() == old(self).dim(),
            old(self).wf() ==> final(self).wf() && final(self).elements() == old(
                self,
            ).elements().push(seq![element.0, element.1, element.2]),
    {
        self.data.push(element.0);
        self.data.push(element.1);
        self.data.push(element.2);
        proof {
            if old(self).wf() {
                lemma_push_element(old(self)@, self.stride(), seq![element.0, element.1, element.2]);
            }
        }
    }

    /// Appends one element, of as many components as the store's dimension.
    pub fn push(&mut self, element: &Vec<T>)
        requires
            element@.len() == old(self).stride(),
        ensures
            final(self)@ == old(self)@ + element@,
            final(self).dim() == old(self).dim(),
            old(self).wf() ==> final(self).wf() && final(self).elements() == old(
                self,
            ).elements().push(element@),
    {
        match self.elem_per_vert {
            Dimension::OneDim => {
                assert(element@ =~= seq![element@[0]]);
                self.push1d(element[0]);
            },
            Dimension::TwoDim => {
                assert(element@ =~= seq![element@[0], element@[1]]);
                self.push2d((element[0], element[1]));
            },
            Dimension::ThreeDim => {
                assert(element@ =~= seq![element@[0], element@[1], element@[2]]);
                self.push3d((element[0], element[1], element[2]));
            },
        }
    }

    /// The dimension the store was made with.
    pub fn get_elem_per_vert(&self) -> (d: Dimension)
        ensures
            d == self.dim(),
    {
        self.elem_per_vert
    }

    /// A fresh vector holding logical element `ind`.
    pub fn get(&self, ind: usize) -> (val: Vec<T>)
        requires
            ind < self.count(),
        ensures
            val@ == self.element(ind as int),
            val@ == self.elements()[ind as int],
            val@.len() == self.stride(),
    {
        match self.elem_per_vert {
            Dimension::OneDim => {
                proof {
                    lemma_stride_one(self@.len(), self.stride(), ind as int);
                }
                vec![self.data[ind]]
            },
            Dimension::TwoDim => {
                proof {
                    lemma_stride_two(self@.len(), self.stride(), ind as int);
                    assert(ind < self@.len() / 2 && self@.len() == self.data.len());
                }
                vec![self.data[ind * 2], self.data[ind * 2 + 1]]
            },
            Dimension::ThreeDim => {
                proof {
                    lemma_stride_three(self@.len(), self.stride(), ind as int);
                    assert(ind < self@.len() / 3 && self@.len() == self.data.len());
                }
                vec![self.data[ind * 3], self.data[ind * 3 + 1], self.data[ind * 3 + 2]]
            },
        }
    }

    /// Overwrites logical element `ind` in place.
    pub fn set(&mut self, ind: usize, val: Vec<T>)
        requires
            ind < old(self).count(),
            val@.len() == old(self).stride(),
        ensures
            final(self)@ == with_slots(old(self)@, old(self).stride(), ind as int, val@),
            final(self)@.len() == old(self)@.len(),
            final(self).dim() == old(self).dim(),
            final(self).elements() == old(self).elements().update(ind as int, val@),
    {
        proof {
            lemma_set_element(self@, self.stride(), ind as int, val@);
        }
        match self.elem_per_vert {
            Dimension::OneDim => {
                proof {
                    lemma_stride_one(self@.len(), self.stride(), ind as int);
                }
                self.data.set(ind, val[0]);
            },
            Dimension::TwoDim => {
                proof {
                    lemma_stride_two(self@.len(), self.stride(), ind as int);
                    assert(ind < self@.len() / 2 && self@.len() == self.data.len());
                }
                self.data.set(ind * 2, val[0]);
                self.data.set(ind * 2 + 1, val[1]);
            },
            Dimension::ThreeDim => {
                proof {
                    lemma_stride_three(self@.len(), self.stride(), ind as int);
                    assert(ind < self@.len() / 3 && self@.len() == self.data.len());
                }
                self.data.set(ind * 3, val[0]);
                self.data.set(ind * 3 + 1, val[1]);
                self.data.set(ind * 3 + 2, val[2]);
            },
        }
    }

    /// Grows or shrinks the store to exactly `len` logical elements. Slots
    /// that are kept keep their scalars; new slots hold a default scalar.
    pub fn resize_to(&mut self, len: usize)
        requires
            len * old(self).stride() <= usize::MAX,
        ensures
            final(self)@.len() == len * old(self).stride(),
            final(self).dim() == old(self).dim(),
            final(self).wf(),
            final(self).count() == len,
            forall|k: int|
                0 <= k < final(self)@.len() && k < old(self)@.len() ==> final(self)@[k] == old(
                    self,
                )@[k],
            forall|k: int|
                old(self)@.len() <= k < final(self)@.len() ==> is_default(#[trigger] final(self)@[k]),
    {
        proof {
            match self.elem_per_vert {
                Dimension::OneDim => lemma_stride_one(0, self.stride(), len as int),
                Dimension::TwoDim => lemma_stride_two(0, self.stride(), len as int),
                Dimension::ThreeDim => lemma_stride_three(0, self.stride(), len as int),
            }
        }
        let target: usize = match self.elem_per_vert {
            Dimension::OneDim => len,
            Dimension::TwoDim => len * 2,
            Dimension::ThreeDim => len * 3,
        };
        if target <= self.data.len() {
            self.data.truncate(target);
        } else {
            let fill = T::default();
            while self.data.len() < target
                invariant
                    old(self)@.len() <= self.data@.len() <= target,
                    self.elem_per_vert == old(self).elem_per_vert,
                    is_default(fill),
                    forall|k: int| 0 <= k < old(self)@.len() ==> self.data@[k] == old(self)@[k],
                    forall|k: int| old(self)@.len() <= k < self.data@.len() ==> self.data@[k] == fill,
                decreases target - self.data@.len(),
            {
                self.data.push(fill);
            }
        }
        proof {
            lemma_whole_elements(len as nat, self.stride());
        }
    }

    /// The number of logical elements.
    pub fn len(&self) -> (n: usize)
        ensures
            n == self.count(),
    {
        proof {
            match self.elem_per_vert {
                Dimension::OneDim => lemma_stride_one(self@.len(), self.stride(), 0),
                Dimension::TwoDim => lemma_stride_two(self@.len(), self.stride(), 0),
                Dimension::ThreeDim => lemma_stride_three(self@.len(), self.stride(), 0),
            }
        }
        match self.elem_per_vert {
            Dimension::OneDim => self.data.len(),
            Dimension::TwoDim => self.data.len() / 2,
            Dimension::ThreeDim => self.data.len() / 3,
        }
    }
}

/// Component `j` of logical element `i` is slot `i * stride + j` of the
/// flat sequence.
pub proof fn law_element_slot<T>(flat: Seq<T>, stride: nat, i: int, j: int)
    requires
        0 <= i < flat.len() / stride,
        0 <= j < stride,
    ensures
        0 <= i * stride + j < flat.len(),
        elements_of(flat, stride)[i][j] == flat[i * stride + j],
{
    let q = flat.len() / stride;
    vstd::arithmetic::div_mod::lemma_fundamental_div_mod(flat.len() as int, stride as int);
    assert(0 <= i * stride && i * stride + stride <= flat.len()) by (nonlinear_arith)
        requires
            0 <= i < q,
            stride > 0,
            flat.len() == stride * q + (flat.len() % stride),
            0 <= flat.len() % stride,
    ;
}

/// Appending one element's worth of slots to whole elements appends one
/// logical element.
pub proof fn lemma_push_element<T>(flat: Seq<T>, stride: nat, val: Seq<T>)
    requires
        stride > 0,
        flat.len() % stride == 0,
        val.len() == stride,
    ensures
        (flat + val).len() % stride == 0,
        elements_of(flat + val, stride) == elements_of(flat, stride).push(val),
{
    let q = flat.len() / stride;
    let longer = flat + val;
    vstd::arithmetic::div_mod::lemma_fundamental_div_mod(flat.len() as int, stride as int);
    assert(flat.len() == q * stride) by (nonlinear_arith)
        requires
            flat.len() == stride * q + (flat.len() % stride),
            flat.len() % stride == 0,
    ;
    assert(longer.len() == (q + 1) * stride) by (nonlinear_arith)
        requires
            longer.len() == flat.len() + stride,
            flat.len() == q * stride,
    ;
    lemma_whole_elements(q + 1, stride);
    assert forall|i: int| 0 <= i < q implies slots(longer, stride, i) == slots(flat, stride, i) by {
        assert(0 <= i * stride && i * stride + stride <= q * stride) by (nonlinear_arith)
            requires
                0 <= i < q,
                stride > 0,
        ;
        assert(slots(longer, stride, i) =~= slots(flat, stride, i));
    }
    assert(slots(longer, stride, q as int) =~= val);
    assert(elements_of(longer, stride) =~= elements_of(flat, stride).push(val));
}

/// Overwriting the slots of one element changes that logical element and
/// no other.
pub proof fn lemma_set_element<T>(flat: Seq<T>, stride: nat, i: int, val: Seq<T>)
    requires
        stride > 0,
        0 <= i < flat.len() / stride,
        val.len() == stride,
    ensures
        with_slots(flat, stride, i, val).len() == flat.len(),
        elements_of(with_slots(flat, stride, i, val), stride) == elements_of(flat, stride).update(
            i,
            val,
        ),
{
    let q = flat.len() / stride;
    let changed = with_slots(flat, stride, i, val);
    vstd::arithmetic::div_mod::lemma_fundamental_div_mod(flat.len() as int, stride as int);
    assert(0 <= i * stride && i * stride + stride <= flat.len()) by (nonlinear_arith)
        requires
            0 <= i < q,
            stride > 0,
            flat.len() == stride * q + (flat.len() % stride),
            0 <= flat.len() % stride,
    ;
    assert(changed.len() == flat.len());
    assert forall|j: int| 0 <= j < q implies #[trigger] slots(changed, stride, j) == elements_of(
        flat,
        stride,
    ).update(i, val)[j] by {
        assert(0 <= j * stride && j * stride + stride <= flat.len()) by (nonlinear_arith)
            requires
                0 <= j < q,
                stride > 0,
                flat.len() == stride * q + (flat.len() % stride),
                0 <= flat.len() % stride,
        ;
        if j < i {
            assert(j * stride + stride <= i * stride) by (nonlinear_arith)
                requires
                    j < i,
                    stride > 0,
            ;
            assert(slots(changed, stride, j) =~= slots(flat, stride, j));
        } else if j > i {
            assert(i * stride + stride <= j * stride) by (nonlinear_arith)
                requires
                    i < j,
                    stride > 0,
            ;
            assert(slots(changed, stride, j) =~= slots(flat, stride, j));
        } else {
            assert(slots(changed, stride, j) =~= val);
        }
    }
    assert(elements_of(changed, stride) =~= elements_of(flat, stride).update(i, val));
}

/// Arithmetic over a stride that is known to be one.
proof fn lemma_stride_one(len: nat, stride: nat, i: int)
    requires
        stride == 1,
    ensures
        len % stride == 0,
        len / stride == len,
        i * stride == i,
{
    assert(len % stride == 0 && len / stride == len && i * stride == i) by (nonlinear_arith)
        requires
            stride == 1,
    ;
}

/// Arithmetic over a stride that is known to be two.
proof fn lemma_stride_two(len: nat, stride: nat, i: int)
    requires
        stride == 2,
    ensures
        len % stride == len % 2,
        len / stride == len / 2,
        i * stride == i * 2,
{
    assert(len % stride == len % 2 && len / stride == len / 2 && i * stride == i * 2)
        by (nonlinear_arith)
        requires
            stride == 2,
    ;
}

/// Arithmetic over a stride that is known to be three.
proof fn lemma_stride_three(len: nat, stride: nat, i: int)
    requires
        stride == 3,
    ensures
        len % stride == len % 3,
        len / stride == len / 3,
        i * stride == i * 3,
{
    assert(len % stride == len % 3 && len / stride == len / 3 && i * stride == i * 3)
        by (nonlinear_arith)
        requires
            stride == 3,
    ;
}

/// A flat sequence of `n * stride` slots holds exactly `n` whole elements.
proof fn lemma_whole_elements(n: nat, stride: nat)
    requires
        stride > 0,
    ensures
        (n * stride) % stride == 0,
        (n * stride) / stride == n,
{
    vstd::arithmetic::div_mod::lemma_mod_multiples_basic(n as int, stride as int);
    vstd::arithmetic::div_mod::lemma_div_by_multiple(n as int, stride as int);
}

} // verus!
