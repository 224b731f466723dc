use vstd::prelude::*;

verus! {

/// A list of resolved jump-target indices. It is backed by the small-vector
/// type of the smallvec crate, which stays on the stack for the short lists
/// that branches produce; the spec function below names what it holds.
#[verifier::external_body]
#[derive(Debug)]
pub struct JumpTargets {
    inner: smallvec::SmallVec<[usize; 4]>,
}

/// The elements a jump-target list holds, in order.
pub uninterp spec fn sv_elems(v: JumpTargets) -> Seq<usize>;

impl JumpTargets {
    /// Relies on `smallvec::SmallVec::new`: a freshly created vector holds no
    /// elements.
    #[verifier::external_body]
    pub fn new() -> (r: JumpTargets)
        ensures
            sv_elems(r) == Seq::<usize>::empty(),
    {
        JumpTargets { inner: smallvec::SmallVec::new() }
    }

    /// Relies on `smallvec::SmallVec::push`: appends one element at the back
    /// and keeps the others.
    #[verifier::external_body]
    pub fn push(&mut self, x: usize)
        ensures
            sv_elems(*final(self)) == sv_elems(*old(self)).push(x),
    {
        self.inner.push(x)
    }

    /// Relies on `smallvec::SmallVec::len`: the number of elements held.
    #[verifier::external_body]
    pub fn len(&self) -> (r: usize)
        ensures
            r == sv_elems(*self).len(),
    {
        self.inner.len()
    }

    /// Relies on `smallvec::SmallVec`'s `Deref` to a slice: indexing reads
    /// the element at that position.
    #[verifier::external_body]
    pub fn get(&self, i: usize) -> (r: usize)
        requires
            i < sv_elems(*self).len(),
        ensures
            r == sv_elems(*self)[i as int],
    {
        self.inner[i]
    }
}

} // verus!
