use vstd::laws_cmp::obeys_cmp;
use vstd::pervasive::strictly_cloned;
use vstd::prelude::*;

verus! {

/// A label faithfully duplicated by `clone`.
pub open spec fn clone_is_exact<T: Clone>() -> bool {
    forall|a: T, b: T| #[trigger] strictly_cloned(a, b) ==> a == b
}

/// A type that can name the vertices of a network.
///
/// Its ordering must be a total order whose equality is spec equality, and
/// `clone` must hand back an equal value; `lemma_label_laws` proves both.
pub trait Label: Ord + Clone + Sized {
    proof fn lemma_label_laws()
        ensures
            obeys_cmp::<Self>(),
            clone_is_exact::<Self>(),
    ;
}

/// A copy of `x`, equal to it.
pub(crate) fn duplicate<T: Label>(x: &T) -> (r: T)
    ensures
        r == *x,
{
    let r = x.clone();
    proof {
        T::lemma_label_laws();
        assert(strictly_cloned(*x, r));
    }
    r
}

impl Label for u8 {
    proof fn lemma_label_laws() {
    }
}

impl Label for u16 {
    proof fn lemma_label_laws() {
    }
}

impl Label for u32 {
    proof fn lemma_label_laws() {
    }
}

impl Label for u64 {
    proof fn lemma_label_laws() {
    }
}

impl Label for u128 {
    proof fn lemma_label_laws() {
    }
}

impl Label for usize {
    proof fn lemma_label_laws() {
    }
}

impl Label for i8 {
    proof fn lemma_label_laws() {
    }
}

impl Label for i16 {
    proof fn lemma_label_laws() {
    }
}

impl Label for i32 {
    proof fn lemma_label_laws() {
    }
}

impl Label for i64 {
    proof fn lemma_label_laws() {
    }
}

impl Label for i128 {
    proof fn lemma_label_laws() {
    }
}

impl Label for isize {
    proof fn lemma_label_laws() {
    }
}

} // verus!
