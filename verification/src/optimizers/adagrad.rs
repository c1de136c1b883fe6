//! AdaGrad: steps scaled by the accumulated squared gradients.

use crate::scalar::{
    difference, is_difference, is_one, is_product, is_quotient, is_ratio, is_square_root,
    is_successor, is_sum, is_zero, one, product, quotient, ratio, square_root, sum, zero,
};
use crate::{Optimizer, Parameters};
use num_traits::Float;
use vstd::prelude::*;

verus! {

/// The AdaGrad optimizer. It adds up the squares of all gradients seen, per
/// coordinate, and divides each step by the root of that sum. The sum is never
/// decayed, so the step of a coordinate can only shrink.
#[derive(Debug)]
pub struct AdaGrad<P: Parameters> {
    parameters: P,
    learning_rate: P::Scalar,
    learning_rate_decay: P::Scalar,
    state_sum: P,
    epsilon: P::Scalar,
    timestep: P::Scalar,
}

/// What an `AdaGrad` optimizer holds.
pub struct AdaGradState<P: Parameters> {
    pub parameters: P,
    pub learning_rate: P::Scalar,
    pub learning_rate_decay: P::Scalar,
    /// The sum of the squared gradients of all steps.
    pub state_sum: P,
    pub epsilon: P::Scalar,
    /// The number of steps made, as a scalar.
    pub timestep: P::Scalar,
}

/// `after` is a value that `accumulated + g * g` may have.
pub open spec fn accumulation<S: Float>(accumulated: S, g: S, after: S) -> bool {
    exists|square: S| is_product(g, g, square) && #[trigger] is_sum(accumulated, square, after)
}

/// `rate` is a value that `learning_rate / (1 + (t - 1) * decay)` may have.
pub open spec fn decayed_rate<S: Float>(learning_rate: S, decay: S, t: S, rate: S) -> bool {
    exists|unit: S, elapsed: S, slowed: S, other_unit: S, divisor: S|
        #![trigger is_difference(t, unit, elapsed), is_product(elapsed, decay, slowed), is_sum(other_unit, slowed, divisor), is_quotient(learning_rate, divisor, rate)]
        is_one(unit) && is_difference(t, unit, elapsed) && is_product(elapsed, decay, slowed)
            && is_one(other_unit) && is_sum(other_unit, slowed, divisor) && is_quotient(
            learning_rate,
            divisor,
            rate,
        )
}

/// `after` is a value that `p - rate * g / (sqrt(accumulated) + epsilon)` may
/// have.
pub open spec fn adagrad_rule<S: Float>(
    rate: S,
    epsilon: S,
    p: S,
    accumulated: S,
    g: S,
    after: S,
) -> bool {
    exists|scaled: S, root: S, divisor: S, delta: S|
        #![trigger is_sum(root, epsilon, divisor), is_quotient(scaled, divisor, delta), is_difference(p, delta, after)]
        is_product(rate, g, scaled) && is_square_root(accumulated, root) && is_sum(
            root,
            epsilon,
            divisor,
        ) && is_quotient(scaled, divisor, delta) && is_difference(p, delta, after)
}

/// `after` holds, at every position, a value that the rule of the parameters
/// gives for `rate`.
pub open spec fn adagrad_rule_everywhere<S: Float>(
    rate: S,
    epsilon: S,
    p: Seq<S>,
    accumulated: Seq<S>,
    g: Seq<S>,
    after: Seq<S>,
) -> bool {
    forall|i: int|
        0 <= i < p.len() ==> adagrad_rule(
            rate,
            epsilon,
            p[i],
            accumulated[i],
            g[i],
            #[trigger] after[i],
        )
}

/// `next` is a state that one step of AdaGrad with the gradients `g` may lead
/// to from `state`, over the scalars of the containers: the timestep goes up
/// by one; the square of each gradient is added to the sum of its coordinate;
/// then the parameters move by the gradient over the root of the new sum.
pub open spec fn adagrad_step<P: Parameters>(
    state: AdaGradState<P>,
    g: Seq<P::Scalar>,
    next: AdaGradState<P>,
) -> bool where P::Scalar: Float {
    let n = state.parameters.scalars().len();
    &&& next.learning_rate == state.learning_rate
    &&& next.learning_rate_decay == state.learning_rate_decay
    &&& next.epsilon == state.epsilon
    &&& is_successor(state.timestep, next.timestep)
    &&& next.parameters.scalars().len() == n
    &&& next.state_sum.scalars().len() == n
    &&& forall|i: int|
        0 <= i < n ==> accumulation(
            state.state_sum.scalars()[i],
            g[i],
            #[trigger] next.state_sum.scalars()[i],
        )
    &&& exists|rate: P::Scalar|
        #![trigger decayed_rate(state.learning_rate, state.learning_rate_decay, next.timestep, rate)]
        decayed_rate(state.learning_rate, state.learning_rate_decay, next.timestep, rate)
            && adagrad_rule_everywhere(
            rate,
            state.epsilon,
            state.parameters.scalars(),
            next.state_sum.scalars(),
            g,
            next.parameters.scalars(),
        )
}

/// `state` is what a new optimizer for `parameters` holds: the given learning
/// rate, no decay of it, an epsilon of 1e-10, no step made, and a sum that is
/// zero everywhere and shaped like the parameters.
pub open spec fn adagrad_fresh<P: Parameters>(
    state: AdaGradState<P>,
    parameters: P,
    learning_rate: P::Scalar,
) -> bool where P::Scalar: Float {
    &&& state.parameters == parameters
    &&& state.learning_rate == learning_rate
    &&& is_zero(state.learning_rate_decay)
    &&& is_ratio(1, 10_000_000_000, state.epsilon)
    &&& is_zero(state.timestep)
    &&& state.state_sum.shape() == parameters.shape()
    &&& state.state_sum.scalars().len() == parameters.scalars().len()
    &&& forall|i: int|
        0 <= i < parameters.scalars().len() ==> is_zero(#[trigger] state.state_sum.scalars()[i])
}

/// A run of AdaGrad: every state but the first follows from the one before
/// it by a step with the gradients of that step.
pub open spec fn adagrad_run<P: Parameters>(
    states: Seq<AdaGradState<P>>,
    gradients: Seq<Seq<P::Scalar>>,
) -> bool where P::Scalar: Float {
    &&& states.len() == gradients.len() + 1
    &&& forall|k: int|
        0 <= k < gradients.len() ==> adagrad_step(
            #[trigger] states[k],
            gradients[k],
            states[k + 1],
        )
}

impl<P: Parameters> AdaGradState<P> {
    /// The two states hold the same scalars, whatever their containers.
    pub open spec fn same_scalars<Q: Parameters<Scalar = P::Scalar>>(
        self,
        other: AdaGradState<Q>,
    ) -> bool {
        &&& self.learning_rate == other.learning_rate
        &&& self.learning_rate_decay == other.learning_rate_decay
        &&& self.epsilon == other.epsilon
        &&& self.timestep == other.timestep
        &&& self.parameters.scalars() == other.parameters.scalars()
        &&& self.state_sum.scalars() == other.state_sum.scalars()
    }
}

impl<P: Parameters> View for AdaGrad<P> {
    type V = AdaGradState<P>;

    closed spec fn view(&self) -> AdaGradState<P> {
        AdaGradState {
            parameters: self.parameters,
            learning_rate: self.learning_rate,
            learning_rate_decay: self.learning_rate_decay,
            state_sum: self.state_sum,
            epsilon: self.epsilon,
            timestep: self.timestep,
        }
    }
}

impl<P: Parameters> AdaGrad<P> {
    /// Creates an optimizer for `parameters` with the given learning rate,
    /// which does not decay, and with epsilon = 1e-10.
    pub fn new(parameters: P, learning_rate: P::Scalar) -> (r: AdaGrad<P>) where P::Scalar: Float
        ensures
            adagrad_fresh(r@, parameters, learning_rate),
            r.well_shaped(),
    {
        let state_sum = parameters.zeros();
        AdaGrad {
            parameters,
            learning_rate,
            learning_rate_decay: zero(),
            state_sum,
            epsilon: ratio(1, 10_000_000_000),
            timestep: zero(),
        }
    }

    /// Replaces the learning rate. Nothing is asked of its sign or size.
    pub fn change_learning_rate(&mut self, learning_rate: P::Scalar)
        ensures
            final(self)@ == (AdaGradState { learning_rate, ..old(self)@ }),
    {
        self.learning_rate = learning_rate;
    }

    /// The sum of the squared gradients of all steps.
    pub fn state_sum(&self) -> (r: &P)
        ensures
            *r == self@.state_sum,
    {
        &self.state_sum
    }
}

impl<P: Parameters> Optimizer for AdaGrad<P> {
    type Para = P;

    open spec fn held(&self) -> P {
        self@.parameters
    }

    closed spec fn holding(&self, parameters: P) -> Self {
        AdaGrad {
            parameters,
            learning_rate: self.learning_rate,
            learning_rate_decay: self.learning_rate_decay,
            state_sum: self.state_sum,
            epsilon: self.epsilon,
            timestep: self.timestep,
        }
    }

    open spec fn well_shaped(&self) -> bool {
        self@.state_sum.shape() == self@.parameters.shape()
    }

    open spec fn stepped(&self, gradients: &P, next: &Self) -> bool where P::Scalar: Float {
        adagrad_step(self@, gradients.scalars(), next@)
    }

    proof fn holding_keeps_shape(&self, parameters: P)
        ensures
            self.holding(parameters)@ == (AdaGradState { parameters, ..self@ }),
    {
    }

    fn parameters(&self) -> (r: &P) {
        &self.parameters
    }

    fn parameters_mut(&mut self) -> (r: &mut P)
        ensures
            final(self)@ == (AdaGradState { parameters: *final(r), ..old(self)@ }),
    {
        &mut self.parameters
    }

    fn step(&mut self, gradients: &P) where P::Scalar: Float {
        proof {
            self.state_sum.shape_fixes_count(&self.parameters);
            gradients.shape_fixes_count(&self.parameters);
        }
        self.timestep = sum(self.timestep, one());

        let learning_rate = quotient(
            self.learning_rate,
            sum(one(), product(difference(self.timestep, one()), self.learning_rate_decay)),
        );

        let accumulate = |state: &P::Scalar, g: &P::Scalar| -> (r: P::Scalar)
            ensures
                accumulation(*state, *g, r),
            { sum(*state, product(*g, *g)) };
        self.state_sum.zip_mut_with(gradients, accumulate);

        let epsilon = self.epsilon;
        proof {
            self.state_sum.shape_fixes_count(&self.parameters);
        }
        let rule = |p: &P::Scalar, state: &P::Scalar, g: &P::Scalar| -> (r: P::Scalar)
            ensures
                adagrad_rule(learning_rate, epsilon, *p, *state, *g, r),
            {
                difference(
                    *p,
                    quotient(product(learning_rate, *g), sum(square_root(*state), epsilon)),
                )
            };
        self.parameters.zip2_mut_with(&self.state_sum, gradients, rule);
        proof {
            assert(adagrad_rule_everywhere(
                learning_rate,
                epsilon,
                old(self)@.parameters.scalars(),
                self@.state_sum.scalars(),
                gradients.scalars(),
                self@.parameters.scalars(),
            ));
            assert(decayed_rate(
                old(self)@.learning_rate,
                old(self)@.learning_rate_decay,
                self@.timestep,
                learning_rate,
            ));
        }
    }

    fn into_parameters(self) -> (r: P) {
        self.parameters
    }
}

} // verus!
