//! Stochastic gradient optimizers over parameter containers of any shape.
//!
//! The caller owns the computation of gradients. An optimizer owns the
//! parameters, and each `step` updates them in place from one gradient.
//!
//! - [`Parameters`] is what a container of scalars offers to an optimizer: a
//!   zero container of its shape and an elementwise update. [`impls`] has the
//!   containers of the library: [`Single`], vectors and arrays, in any
//!   nesting. [`shape`] describes nesting and flattening.
//! - [`Optimizer`] is what the optimizers offer to the caller. [`optimizers`]
//!   has [`SGD`], [`AdaGrad`] and [`Adam`], each with the relation between
//!   the state before a step and the state after it.
//! - [`scalar`] has the arithmetic of the scalar type, which is any type that
//!   `num_traits::Float` describes.
//! - [`laws`] has what holds of the optimizers in general.

pub mod impls;
pub mod laws;
pub mod optimizers;
pub mod scalar;
pub mod shape;

pub use crate::impls::Single;
pub use crate::optimizers::adagrad::AdaGrad;
pub use crate::optimizers::adam::{Adam, AdamBuilder};
pub use crate::optimizers::sgd::SGD;

use crate::scalar::is_zero;
use crate::shape::Shape;
use num_traits::Float;
use vstd::prelude::*;

verus! {

/// `f` may be called at every position of `before`, with the scalars of
/// `arg1` and `arg2` that stand at the same position.
pub open spec fn accepts2<S, F: Fn(&S, &S, &S) -> S>(
    f: F,
    before: Seq<S>,
    arg1: Seq<S>,
    arg2: Seq<S>,
) -> bool {
    forall|i: int|
        0 <= i < before.len() ==> f.requires((&#[trigger] before[i], &arg1[i], &arg2[i]))
}

/// `after` holds, at every position, a value that `f` returns for the scalars
/// of `before`, `arg1` and `arg2` at that position.
pub open spec fn zipped2<S, F: Fn(&S, &S, &S) -> S>(
    f: F,
    before: Seq<S>,
    arg1: Seq<S>,
    arg2: Seq<S>,
    after: Seq<S>,
) -> bool {
    &&& after.len() == before.len()
    &&& forall|i: int|
        0 <= i < before.len() ==> f.ensures((&before[i], &arg1[i], &arg2[i]), #[trigger] after[i])
}

/// `f` may be called at every position of `before`, with the scalar of `rhs`
/// that stands at the same position.
pub open spec fn accepts<S, F: Fn(&S, &S) -> S>(f: F, before: Seq<S>, rhs: Seq<S>) -> bool {
    forall|i: int| 0 <= i < before.len() ==> f.requires((&#[trigger] before[i], &rhs[i]))
}

/// `after` holds, at every position, a value that `f` returns for the scalars
/// of `before` and `rhs` at that position.
pub open spec fn zipped<S, F: Fn(&S, &S) -> S>(
    f: F,
    before: Seq<S>,
    rhs: Seq<S>,
    after: Seq<S>,
) -> bool {
    &&& after.len() == before.len()
    &&& forall|i: int|
        0 <= i < before.len() ==> f.ensures((&before[i], &rhs[i]), #[trigger] after[i])
}

/// A container of scalars with a fixed shape, such as a vector of scalars or
/// an array of vectors of scalars.
///
/// A container is described by its shape and by its scalars in the order in
/// which an elementwise operation visits them.
pub trait Parameters: Sized {
    /// The scalar type of the container.
    type Scalar;

    /// How the scalars are nested.
    spec fn shape(&self) -> Shape;

    /// The scalars, outermost index first.
    spec fn scalars(&self) -> Seq<Self::Scalar>;

    /// Containers of one shape hold the same number of scalars.
    proof fn shape_fixes_count(&self, other: &Self)
        requires
            self.shape() == other.shape(),
        ensures
            self.scalars().len() == other.scalars().len(),
    ;

    /// Replaces every scalar `s` by `f(s, a1, a2)`, where `a1` and `a2` are
    /// the scalars of `arg1` and `arg2` at the position of `s`.
    fn zip2_mut_with<F>(&mut self, arg1: &Self, arg2: &Self, f: F) where
        F: Fn(&Self::Scalar, &Self::Scalar, &Self::Scalar) -> Self::Scalar,

        requires
            arg1.shape() == old(self).shape(),
            arg2.shape() == old(self).shape(),
            accepts2(f, old(self).scalars(), arg1.scalars(), arg2.scalars()),
        ensures
            final(self).shape() == old(self).shape(),
            zipped2(
                f,
                old(self).scalars(),
                arg1.scalars(),
                arg2.scalars(),
                final(self).scalars(),
            ),
    ;

    /// A new container of the same shape in which every scalar is zero.
    fn zeros(&self) -> (r: Self) where Self::Scalar: Float
        ensures
            r.shape() == self.shape(),
            r.scalars().len() == self.scalars().len(),
            forall|i: int| 0 <= i < r.scalars().len() ==> is_zero(#[trigger] r.scalars()[i]),
    ;

    /// Replaces every scalar `s` by `f(s, a)`, where `a` is the scalar of
    /// `rhs` at the position of `s`.
    fn zip_mut_with<F>(&mut self, rhs: &Self, f: F) where
        F: Fn(&Self::Scalar, &Self::Scalar) -> Self::Scalar,

        requires
            rhs.shape() == old(self).shape(),
            accepts(f, old(self).scalars(), rhs.scalars()),
        ensures
            final(self).shape() == old(self).shape(),
            zipped(f, old(self).scalars(), rhs.scalars(), final(self).scalars()),
    {
        let g = &f;
        let ignoring_second = |s: &Self::Scalar, a1: &Self::Scalar, _a2: &Self::Scalar| -> (r:
            Self::Scalar)
            requires
                g.requires((s, a1)),
            ensures
                g.ensures((s, a1), r),
            { g(s, a1) };
        self.zip2_mut_with(rhs, rhs, ignoring_second)
    }
}

/// What all optimizers have in common.
///
/// An optimizer owns its parameters and whatever auxiliary state its rule
/// keeps, all of one shape. The caller reads the parameters, may change them
/// between steps, hands in one gradient per step, and takes the parameters
/// back at the end.
pub trait Optimizer: Sized {
    /// The container type of the parameters.
    type Para: Parameters;

    /// The parameters held.
    spec fn held(&self) -> Self::Para;

    /// The optimizer with `parameters` in place of those held, and all else
    /// as it is.
    spec fn holding(&self, parameters: Self::Para) -> Self;

    /// The auxiliary state has the shape of the parameters.
    spec fn well_shaped(&self) -> bool;

    /// `next` is a state that one step with `gradients` may lead to.
    spec fn stepped(&self, gradients: &Self::Para, next: &Self) -> bool where
        <Self::Para as Parameters>::Scalar: Float,
    ;

    /// After the parameters were replaced the optimizer holds the new ones,
    /// and where they have the shape of the old ones it is still well shaped.
    proof fn holding_keeps_shape(&self, parameters: Self::Para)
        ensures
            self.holding(parameters).held() == parameters,
            self.well_shaped() && parameters.shape() == self.held().shape()
                ==> self.holding(parameters).well_shaped(),
    ;

    /// The current parameters.
    fn parameters(&self) -> (r: &Self::Para)
        ensures
            *r == self.held(),
    ;

    /// The current parameters, for the caller to change between steps. The
    /// next `step` asks that their shape is what it was.
    fn parameters_mut(&mut self) -> (r: &mut Self::Para)
        ensures
            *r == old(self).held(),
            *final(self) == old(self).holding(*final(r)),
    ;

    /// Performs one update with the given gradients, which have the shape of
    /// the parameters.
    fn step(&mut self, gradients: &Self::Para) where <Self::Para as Parameters>::Scalar: Float
        requires
            old(self).well_shaped(),
            gradients.shape() == old(self).held().shape(),
        ensures
            old(self).stepped(gradients, final(self)),
            final(self).well_shaped(),
            final(self).held().shape() == old(self).held().shape(),
    ;

    /// Ends the optimization and hands the parameters to the caller.
    fn into_parameters(self) -> (r: Self::Para)
        ensures
            r == self.held(),
    ;
}

} // verus!
