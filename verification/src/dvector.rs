//! A dynamically sized column vector of `u32`, stored by `nalgebra`.
//!
//! The vector is opaque to the verifier. What it holds is named by
//! [`vector_entries`]; the accessors below state what `nalgebra`'s
//! constructor, `len`, `as_slice` and linear indexing do over that name.

use vstd::prelude::*;

verus! {

/// A `nalgebra::DVector<u32>`.
#[verifier::external_body]
pub struct U32Vector {
    inner: nalgebra::DVector<u32>,
}

/// The entries of a column vector, first row first.
pub uninterp spec fn vector_entries(v: U32Vector) -> Seq<u32>;

impl View for U32Vector {
    type V = Seq<u32>;

    open spec fn view(&self) -> Seq<u32> {
        vector_entries(*self)
    }
}

/// `DVector::from_vec`: the column vector whose rows are the elements of
/// `data`, in order.
#[verifier::external_body]
fn dvector_from_vec(data: Vec<u32>) -> (v: U32Vector)
    ensures
        vector_entries(v) == data@,
{
    U32Vector { inner: nalgebra::DVector::from_vec(data) }
}

/// `Matrix::as_slice`, copied out: the entries in row order.
#[verifier::external_body]
fn dvector_to_vec(v: &U32Vector) -> (data: Vec<u32>)
    ensures
        data@ == vector_entries(*v),
{
    v.inner.as_slice().to_vec()
}

/// `Matrix::len`: the number of entries.
#[verifier::external_body]
fn dvector_len(v: &U32Vector) -> (n: usize)
    ensures
        n == vector_entries(*v).len(),
{
    v.inner.len()
}

/// Linear indexing `v[i]`: the entry in row `i`. `nalgebra` panics on an
/// index past the last row, which `requires` leaves out.
#[verifier::external_body]
fn dvector_get(v: &U32Vector, i: usize) -> (x: u32)
    requires
        i < vector_entries(*v).len(),
    ensures
        x == vector_entries(*v)[i as int],
{
    v.inner[i]
}

/// Assignment through linear indexing, `v[i] = x`: row `i` becomes `x`, the
/// other rows and the length stay.
#[verifier::external_body]
fn dvector_set(v: &mut U32Vector, i: usize, x: u32)
    requires
        i < vector_entries(*old(v)).len(),
    ensures
        vector_entries(*final(v)) == vector_entries(*old(v)).update(i as int, x),
{
    v.inner[i] = x;
}

impl U32Vector {
    /// The column vector whose rows are the elements of `data`, in order.
    pub fn from_vec(data: Vec<u32>) -> (v: U32Vector)
        ensures
            v@ == data@,
    {
        dvector_from_vec(data)
    }

    /// The entries, in row order.
    pub fn to_vec(&self) -> (data: Vec<u32>)
        ensures
            data@ == self@,
    {
        dvector_to_vec(self)
    }

    /// The number of entries.
    pub fn len(&self) -> (n: usize)
        ensures
            n == self@.len(),
    {
        dvector_len(self)
    }

    /// The entry in row `i`.
    pub fn get(&self, i: usize) -> (x: u32)
        requires
            i < self@.len(),
        ensures
            x == self@[i as int],
    {
        dvector_get(self, i)
    }

    /// Overwrites the entry in row `i`.
    pub fn set(&mut self, i: usize, x: u32)
        requires
            i < old(self)@.len(),
        ensures
            final(self)@ == old(self)@.update(i as int, x),
    {
        dvector_set(self, i, x)
    }
}

} // verus!
