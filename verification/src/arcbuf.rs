//! The fixed-capacity buffer that holds a vertex's known neighbor arcs.
//!
//! The buffer is `arrayvec::ArrayVec<usize, 6>`: an inline, stack-allocated
//! vector whose capacity is the hard domain bound of six neighbors per
//! vertex. Verus sees the buffer through the abstract contents `arc_seq`
//! and the small trusted wrappers below; everything built on top of them
//! is verified against these contracts.

use vstd::prelude::*;

verus! {

#[verifier::external_type_specification]
#[verifier::external_body]
#[verifier::reject_recursive_types(T)]
pub struct ExArrayVec<T, const CAP: usize>(arrayvec::ArrayVec<T, CAP>);

/// The sequence of elements currently held by an arc buffer.
pub uninterp spec fn arc_seq(v: arrayvec::ArrayVec<usize, 6>) -> Seq<usize>;

/// Relies on `arrayvec::ArrayVec::new`: a freshly created vector is empty.
#[verifier::external_body]
pub(crate) fn arc_new() -> (r: arrayvec::ArrayVec<usize, 6>)
    ensures
        arc_seq(r) == Seq::<usize>::empty(),
{
    arrayvec::ArrayVec::new()
}

/// Relies on `arrayvec::ArrayVec::len`: the number of elements held.
#[verifier::external_body]
pub(crate) fn arc_len(v: &arrayvec::ArrayVec<usize, 6>) -> (r: usize)
    ensures
        r == arc_seq(*v).len(),
{
    v.len()
}

/// Relies on indexing through `ArrayVec`'s `Deref` to a slice of the
/// `len` first elements, in order.
#[verifier::external_body]
pub(crate) fn arc_get(v: &arrayvec::ArrayVec<usize, 6>, i: usize) -> (r: usize)
    requires
        i < arc_seq(*v).len(),
    ensures
        r == arc_seq(*v)[i as int],
{
    v[i]
}

/// Relies on `arrayvec::ArrayVec::push`: appends one element at the end;
/// panics only when the vector is already at capacity, which the
/// precondition rules out.
#[verifier::external_body]
pub(crate) fn arc_push(v: &mut arrayvec::ArrayVec<usize, 6>, x: usize)
    requires
        arc_seq(*old(v)).len() < 6,
    ensures
        arc_seq(*final(v)) == arc_seq(*old(v)).push(x),
{
    v.push(x)
}

/// Relies on `arrayvec::ArrayVec::insert`: places the element at `index`
/// and shifts everything after it up by one; panics only out of bounds or
/// at capacity, which the preconditions rule out.
#[verifier::external_body]
pub(crate) fn arc_insert(v: &mut arrayvec::ArrayVec<usize, 6>, i: usize, x: usize)
    requires
        arc_seq(*old(v)).len() < 6,
        i <= arc_seq(*old(v)).len(),
    ensures
        arc_seq(*final(v)) == arc_seq(*old(v)).insert(i as int, x),
{
    v.insert(i, x)
}

/// Relies on `arrayvec::ArrayVec::pop`: removes and returns the last
/// element, or returns `None` when the vector is empty.
#[verifier::external_body]
pub(crate) fn arc_pop(v: &mut arrayvec::ArrayVec<usize, 6>) -> (r: Option<usize>)
    ensures
        match r {
            Some(x) => arc_seq(*old(v)).len() > 0 && x == arc_seq(*old(v)).last()
                && arc_seq(*final(v)) == arc_seq(*old(v)).drop_last(),
            None => arc_seq(*old(v)).len() == 0 && arc_seq(*final(v)) == arc_seq(*old(v)),
        },
{
    v.pop()
}

/// Relies on `arrayvec::ArrayVec::swap_remove`: removes the element at
/// `i`, moving the last element into its place; panics only out of
/// bounds, which the precondition rules out.
#[verifier::external_body]
pub(crate) fn arc_swap_remove(v: &mut arrayvec::ArrayVec<usize, 6>, i: usize) -> (r: usize)
    requires
        i < arc_seq(*old(v)).len(),
    ensures
        r == arc_seq(*old(v))[i as int],
        arc_seq(*final(v)) == arc_seq(*old(v)).update(i as int, arc_seq(*old(v)).last()).drop_last(),
{
    v.swap_remove(i)
}

} // verus!
