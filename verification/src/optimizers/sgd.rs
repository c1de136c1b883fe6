//! Stochastic gradient descent.

use crate::scalar::{difference, is_difference, is_product, product};
use crate::{Optimizer, Parameters};
use num_traits::Float;
use vstd::prelude::*;

verus! {

/// Plain gradient descent: each step moves every parameter against its
/// gradient, by the learning rate times the gradient.
#[derive(Debug)]
pub struct SGD<P: Parameters> {
    parameters: P,
    learning_rate: P::Scalar,
}

/// What an `SGD` optimizer holds.
pub struct SgdState<P: Parameters> {
    pub parameters: P,
    pub learning_rate: P::Scalar,
}

/// `after` is a value that `p - rate * g` may have.
pub open spec fn descent<S: Float>(rate: S, p: S, g: S, after: S) -> bool {
    exists|scaled: S| is_product(rate, g, scaled) && #[trigger] is_difference(p, scaled, after)
}

/// `next` is a state that one step of gradient descent with the gradients
/// `g` may lead to from `state`, over the scalars of the containers.
pub open spec fn sgd_step<P: Parameters>(
    state: SgdState<P>,
    g: Seq<P::Scalar>,
    next: SgdState<P>,
) -> bool where P::Scalar: Float {
    &&& next.learning_rate == state.learning_rate
    &&& next.parameters.scalars().len() == state.parameters.scalars().len()
    &&& forall|i: int|
        0 <= i < state.parameters.scalars().len() ==> descent(
            state.learning_rate,
            state.parameters.scalars()[i],
            g[i],
            #[trigger] next.parameters.scalars()[i],
        )
}

/// A run of gradient descent: every state but the first follows from the one
/// before it by a step with the gradients of that step.
pub open spec fn sgd_run<P: Parameters>(
    states: Seq<SgdState<P>>,
    gradients: Seq<Seq<P::Scalar>>,
) -> bool where P::Scalar: Float {
    &&& states.len() == gradients.len() + 1
    &&& forall|k: int|
        0 <= k < gradients.len() ==> sgd_step(#[trigger] states[k], gradients[k], states[k + 1])
}

impl<P: Parameters> SgdState<P> {
    /// The two states hold the same scalars, whatever their containers.
    pub open spec fn same_scalars<Q: Parameters<Scalar = P::Scalar>>(
        self,
        other: SgdState<Q>,
    ) -> bool {
        &&& self.learning_rate == other.learning_rate
        &&& self.parameters.scalars() == other.parameters.scalars()
    }
}

impl<P: Parameters> View for SGD<P> {
    type V = SgdState<P>;

    closed spec fn view(&self) -> SgdState<P> {
        SgdState { parameters: self.parameters, learning_rate: self.learning_rate }
    }
}

impl<P: Parameters> SGD<P> {
    /// Creates an optimizer for `parameters` with the given learning rate.
    pub fn new(parameters: P, learning_rate: P::Scalar) -> (r: SGD<P>)
        ensures
            r@ == (SgdState { parameters, learning_rate }),
    {
        SGD { parameters, learning_rate }
    }

    /// Replaces the learning rate. Nothing is asked of its sign or size.
    pub fn change_learning_rate(&mut self, learning_rate: P::Scalar)
        ensures
            final(self)@ == (SgdState { learning_rate, ..old(self)@ }),
    {
        self.learning_rate = learning_rate;
    }
}

impl<P: Parameters> Optimizer for SGD<P> {
    type Para = P;

    open spec fn held(&self) -> P {
        self@.parameters
    }

    closed spec fn holding(&self, parameters: P) -> Self {
        SGD { parameters, learning_rate: self.learning_rate }
    }

    open spec fn well_shaped(&self) -> bool {
        true
    }

    open spec fn stepped(&self, gradients: &P, next: &Self) -> bool where P::Scalar: Float {
        sgd_step(self@, gradients.scalars(), next@)
    }

    proof fn holding_keeps_shape(&self, parameters: P)
        ensures
            self.holding(parameters)@ == (SgdState { parameters, ..self@ }),
    {
    }

    fn parameters(&self) -> (r: &P) {
        &self.parameters
    }

    fn parameters_mut(&mut self) -> (r: &mut P)
        ensures
            final(self)@ == (SgdState { parameters: *final(r), ..old(self)@ }),
    {
        &mut self.parameters
    }

    fn step(&mut self, gradients: &P) where P::Scalar: Float {
        let rate = self.learning_rate;
        let rule = |p: &P::Scalar, g: &P::Scalar| -> (r: P::Scalar)
            ensures
                descent(rate, *p, *g, r),
            { difference(*p, product(rate, *g)) };
        self.parameters.zip_mut_with(gradients, rule);
    }

    fn into_parameters(self) -> (r: P) {
        self.parameters
    }
}

} // verus!
