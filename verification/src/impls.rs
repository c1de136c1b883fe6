//! The containers that the library provides: a single scalar, a vector and an
//! array of containers. Any nesting of the three is a container.

use crate::scalar::{is_zero, zero};
use crate::shape::{
    all_zero, concat, lemma_accepts2_items, lemma_concat_count, lemma_same_shapes,
    lemma_zero_concat, lemma_zipped2_concat, shapes, Shape,
};
use crate::{accepts2, zipped2, Parameters};
use num_traits::Float;
use vstd::prelude::*;

verus! {

/// One scalar as a container: the base case of every nesting.
#[derive(Debug, Clone, Copy, PartialEq)]
pub struct Single<S>(pub S);

impl<S> Parameters for Single<S> {
    type Scalar = S;

    open spec fn shape(&self) -> Shape {
        Shape::Scalar
    }

    open spec fn scalars(&self) -> Seq<S> {
        seq![self.0]
    }

    proof fn shape_fixes_count(&self, other: &Self) {
    }

    fn zip2_mut_with<F>(&mut self, arg1: &Self, arg2: &Self, f: F) where
        F: Fn(&S, &S, &S) -> S,
     {
        assert(old(self).scalars()[0] == old(self).0);
        assert(arg1.scalars()[0] == arg1.0);
        assert(arg2.scalars()[0] == arg2.0);
        self.0 = f(&self.0, &arg1.0, &arg2.0);
    }

    fn zeros(&self) -> (r: Self) where S: Float {
        Single(zero())
    }
}

impl<T: Parameters> Parameters for Vec<T> {
    type Scalar = T::Scalar;

    open spec fn shape(&self) -> Shape {
        Shape::Sequence(shapes(self@))
    }

    open spec fn scalars(&self) -> Seq<T::Scalar> {
        concat(self@)
    }

    proof fn shape_fixes_count(&self, other: &Self) {
        lemma_concat_count(self@, other@);
    }

    fn zip2_mut_with<F>(&mut self, arg1: &Self, arg2: &Self, f: F) where
        F: Fn(&T::Scalar, &T::Scalar, &T::Scalar) -> T::Scalar,
     {
        let n = self.len();
        proof {
            lemma_same_shapes(arg1@, self@);
            lemma_same_shapes(arg2@, self@);
            lemma_accepts2_items(f, self@, arg1@, arg2@);
        }
        let mut i: usize = 0;
        while i < n
            invariant
                i <= n,
                self.len() == n,
                arg1.len() == n,
                arg2.len() == n,
                old(self).len() == n,
                shapes(arg1@) == shapes(old(self)@),
                shapes(arg2@) == shapes(old(self)@),
                shapes(self@) == shapes(old(self)@),
                forall|k: int|
                    0 <= k < n ==> accepts2(
                        f,
                        (#[trigger] old(self)@[k]).scalars(),
                        arg1@[k].scalars(),
                        arg2@[k].scalars(),
                    ),
                forall|k: int|
                    0 <= k < i ==> zipped2(
                        f,
                        old(self)@[k].scalars(),
                        arg1@[k].scalars(),
                        arg2@[k].scalars(),
                        (#[trigger] self@[k]).scalars(),
                    ),
                forall|k: int| i <= k < n ==> self@[k] == old(self)@[k],
            decreases n - i,
        {
            let ghost before = self@;
            proof {
                lemma_same_shapes(arg1@, old(self)@);
                lemma_same_shapes(arg2@, old(self)@);
            }
            self[i].zip2_mut_with(&arg1[i], &arg2[i], &f);
            proof {
                lemma_same_shapes(self@, before);
            }
            i += 1;
        }
        proof {
            lemma_zipped2_concat(f, old(self)@, arg1@, arg2@, self@);
        }
    }

    fn zeros(&self) -> (r: Self) where T::Scalar: Float {
        let n = self.len();
        let mut r: Vec<T> = Vec::new();
        let mut i: usize = 0;
        while i < n
            invariant
                i <= n,
                n == self.len(),
                r.len() == i,
                forall|k: int| 0 <= k < i ==> (#[trigger] r@[k]).shape() == self@[k].shape(),
                all_zero(r@),
            decreases n - i,
        {
            let item = self[i].zeros();
            r.push(item);
            i += 1;
        }
        proof {
            lemma_same_shapes(r@, self@);
            lemma_concat_count(r@, self@);
            lemma_zero_concat(r@);
        }
        r
    }
}

/// Calls `core::array::from_fn`, which makes an array by calling `f` once
/// with each index, walking forward. Trusted: every element of the array is
/// a value that `f` returned for the index of the element.
#[verifier::external_body]
fn array_from_fn<T, const N: usize, F: Fn(usize) -> T>(f: F) -> (r: [T; N])
    requires
        forall|i: usize| i < N ==> f.requires((i,)),
    ensures
        forall|i: usize| i < N ==> f.ensures((i,), #[trigger] r@[i as int]),
{
    core::array::from_fn(f)
}

impl<T: Parameters, const N: usize> Parameters for [T; N] {
    type Scalar = T::Scalar;

    open spec fn shape(&self) -> Shape {
        Shape::Sequence(shapes(self@))
    }

    open spec fn scalars(&self) -> Seq<T::Scalar> {
        concat(self@)
    }

    proof fn shape_fixes_count(&self, other: &Self) {
        lemma_concat_count(self@, other@);
    }

    fn zip2_mut_with<F>(&mut self, arg1: &Self, arg2: &Self, f: F) where
        F: Fn(&T::Scalar, &T::Scalar, &T::Scalar) -> T::Scalar,
     {
        proof {
            lemma_accepts2_items(f, self@, arg1@, arg2@);
        }
        let mut i: usize = 0;
        while i < N
            invariant
                i <= N,
                shapes(arg1@) == shapes(old(self)@),
                shapes(arg2@) == shapes(old(self)@),
                shapes(self@) == shapes(old(self)@),
                forall|k: int|
                    0 <= k < N ==> accepts2(
                        f,
                        (#[trigger] old(self)@[k]).scalars(),
                        arg1@[k].scalars(),
                        arg2@[k].scalars(),
                    ),
                forall|k: int|
                    0 <= k < i ==> zipped2(
                        f,
                        old(self)@[k].scalars(),
                        arg1@[k].scalars(),
                        arg2@[k].scalars(),
                        (#[trigger] self@[k]).scalars(),
                    ),
                forall|k: int| i <= k < N ==> self@[k] == old(self)@[k],
            decreases N - i,
        {
            let ghost before = self@;
            proof {
                lemma_same_shapes(arg1@, old(self)@);
                lemma_same_shapes(arg2@, old(self)@);
            }
            self[i].zip2_mut_with(&arg1[i], &arg2[i], &f);
            proof {
                lemma_same_shapes(self@, before);
            }
            i += 1;
        }
        proof {
            lemma_zipped2_concat(f, old(self)@, arg1@, arg2@, self@);
        }
    }

    fn zeros(&self) -> (r: Self) where T::Scalar: Float {
        let zero_of = |i: usize| -> (item: T)
            requires
                i < N,
            ensures
                item.shape() == self@[i as int].shape(),
                forall|j: int|
                    0 <= j < item.scalars().len() ==> is_zero(#[trigger] item.scalars()[j]),
            { self[i].zeros() };
        let r: [T; N] = array_from_fn(zero_of);
        proof {
            assert forall|k: int| 0 <= k < N implies (#[trigger] r@[k]).shape()
                == self@[k].shape() by {
                assert(zero_of.ensures((k as usize,), r@[k as usize as int]));
            }
            lemma_same_shapes(r@, self@);
            assert(all_zero(r@)) by {
                assert forall|k: int, j: int|
                    0 <= k < r@.len() && 0 <= j < r@[k].scalars().len() implies is_zero(
                    #[trigger] r@[k].scalars()[j],
                ) by {
                    assert(zero_of.ensures((k as usize,), r@[k as usize as int]));
                }
            }
            lemma_concat_count(r@, self@);
            lemma_zero_concat(r@);
        }
        r
    }
}

} // verus!
