//! Adam: adaptive moment estimation.

use crate::scalar::{
    difference, is_difference, is_one, is_power, is_product, is_quotient, is_ratio,
    is_square_root, is_successor, is_sum, is_zero, one, power, product, quotient, ratio,
    square_root, sum, zero,
};
use crate::{Optimizer, Parameters};
use num_traits::Float;
use vstd::prelude::*;

verus! {

/// The Adam optimizer. It keeps a moving average of the gradients and one of
/// their squares, and scales each step by the two.
#[derive(Debug)]
pub struct Adam<P: Parameters> {
    parameters: P,
    learning_rate: P::Scalar,
    beta1: P::Scalar,
    beta2: P::Scalar,
    epsilon: P::Scalar,
    timestep: P::Scalar,
    m0: P,
    v0: P,
}

/// Sets the hyperparameters of an [`Adam`] optimizer before its first step.
pub struct AdamBuilder<P: Parameters>(Adam<P>);

/// What an `Adam` optimizer holds.
pub struct AdamState<P: Parameters> {
    pub parameters: P,
    pub learning_rate: P::Scalar,
    /// The decay of the first moment.
    pub beta1: P::Scalar,
    /// The decay of the second moment.
    pub beta2: P::Scalar,
    pub epsilon: P::Scalar,
    /// The number of steps made, as a scalar.
    pub timestep: P::Scalar,
    /// The moving average of the gradients.
    pub first_moment: P,
    /// The moving average of the squared gradients.
    pub second_moment: P,
}

/// `after` is a value that `decay * average + (1 - decay) * g` may have.
pub open spec fn first_moment_rule<S: Float>(decay: S, average: S, g: S, after: S) -> bool {
    exists|kept: S, unit: S, rest: S, fresh: S|
        #![trigger is_difference(unit, decay, rest), is_sum(kept, fresh, after)]
        is_product(decay, average, kept) && is_one(unit) && is_difference(unit, decay, rest)
            && is_product(rest, g, fresh) && is_sum(kept, fresh, after)
}

/// `after` is a value that `decay * average + (1 - decay) * g * g` may have,
/// the last two products taken from the left.
pub open spec fn second_moment_rule<S: Float>(decay: S, average: S, g: S, after: S) -> bool {
    exists|kept: S, unit: S, rest: S, once: S, fresh: S|
        #![trigger is_difference(unit, decay, rest), is_product(rest, g, once), is_sum(kept, fresh, after)]
        is_product(decay, average, kept) && is_one(unit) && is_difference(unit, decay, rest)
            && is_product(rest, g, once) && is_product(once, g, fresh) && is_sum(
            kept,
            fresh,
            after,
        )
}

/// `correction` is a value that `1 - beta1^t` may have.
pub open spec fn first_bias_correction<S: Float>(beta1: S, t: S, correction: S) -> bool {
    exists|unit: S, decayed: S|
        #![trigger is_difference(unit, decayed, correction)]
        is_one(unit) && is_power(beta1, t, decayed) && is_difference(unit, decayed, correction)
}

/// `correction` is a value that `sqrt(1 - beta2^t)` may have.
pub open spec fn second_bias_correction<S: Float>(beta2: S, t: S, correction: S) -> bool {
    exists|unit: S, decayed: S, left: S|
        #![trigger is_difference(unit, decayed, left), is_square_root(left, correction)]
        is_one(unit) && is_power(beta2, t, decayed) && is_difference(unit, decayed, left)
            && is_square_root(left, correction)
}

/// `after` is a value that `p - alpha * m / (sqrt(v) / correction + epsilon)`
/// may have. The small `epsilon` is added after the root of `v` was divided
/// by the correction, not to `v`.
pub open spec fn adam_rule<S: Float>(
    alpha: S,
    correction: S,
    epsilon: S,
    p: S,
    m: S,
    v: S,
    after: S,
) -> bool {
    exists|scaled: S, root: S, corrected: S, divisor: S, delta: S|
        #![trigger is_quotient(root, correction, corrected), is_quotient(scaled, divisor, delta), is_difference(p, delta, after)]
        is_product(alpha, m, scaled) && is_square_root(v, root) && is_quotient(
            root,
            correction,
            corrected,
        ) && is_sum(corrected, epsilon, divisor) && is_quotient(scaled, divisor, delta)
            && is_difference(p, delta, after)
}

/// `after` holds, at every position, a value that the rule of the parameters
/// gives for `alpha` and `correction`.
pub open spec fn adam_rule_everywhere<S: Float>(
    alpha: S,
    correction: S,
    epsilon: S,
    p: Seq<S>,
    m: Seq<S>,
    v: Seq<S>,
    after: Seq<S>,
) -> bool {
    forall|i: int|
        0 <= i < p.len() ==> adam_rule(
            alpha,
            correction,
            epsilon,
            p[i],
            m[i],
            v[i],
            #[trigger] after[i],
        )
}

/// `next` is a state that one step of Adam with the gradients `g` may lead to
/// from `state`, over the scalars of the containers:
/// the timestep goes up by one; both moments move towards the gradient and
/// its square; then the parameters move by the bias-corrected first moment
/// over the root of the second.
pub open spec fn adam_step<P: Parameters>(
    state: AdamState<P>,
    g: Seq<P::Scalar>,
    next: AdamState<P>,
) -> bool where P::Scalar: Float {
    let n = state.parameters.scalars().len();
    &&& next.learning_rate == state.learning_rate
    &&& next.beta1 == state.beta1
    &&& next.beta2 == state.beta2
    &&& next.epsilon == state.epsilon
    &&& is_successor(state.timestep, next.timestep)
    &&& next.parameters.scalars().len() == n
    &&& next.first_moment.scalars().len() == n
    &&& next.second_moment.scalars().len() == n
    &&& forall|i: int|
        0 <= i < n ==> first_moment_rule(
            state.beta1,
            state.first_moment.scalars()[i],
            g[i],
            #[trigger] next.first_moment.scalars()[i],
        )
    &&& forall|i: int|
        0 <= i < n ==> second_moment_rule(
            state.beta2,
            state.second_moment.scalars()[i],
            g[i],
            #[trigger] next.second_moment.scalars()[i],
        )
    &&& exists|correction1: P::Scalar, correction2: P::Scalar, alpha: P::Scalar|
        #![trigger first_bias_correction(state.beta1, next.timestep, correction1), second_bias_correction(state.beta2, next.timestep, correction2), is_quotient(state.learning_rate, correction1, alpha)]
        first_bias_correction(state.beta1, next.timestep, correction1) && second_bias_correction(
            state.beta2,
            next.timestep,
            correction2,
        ) && is_quotient(state.learning_rate, correction1, alpha) && adam_rule_everywhere(
            alpha,
            correction2,
            state.epsilon,
            state.parameters.scalars(),
            next.first_moment.scalars(),
            next.second_moment.scalars(),
            next.parameters.scalars(),
        )
}

/// `state` is what a new optimizer for `parameters` holds: the given learning
/// rate, the decays 0.9 and 0.999, an epsilon of 1e-8, no step made, and both
/// moments zero everywhere and shaped like the parameters.
pub open spec fn adam_fresh<P: Parameters>(
    state: AdamState<P>,
    parameters: P,
    learning_rate: P::Scalar,
) -> bool where P::Scalar: Float {
    &&& state.parameters == parameters
    &&& state.learning_rate == learning_rate
    &&& is_ratio(9, 10, state.beta1)
    &&& is_ratio(999, 1000, state.beta2)
    &&& is_ratio(1, 100_000_000, state.epsilon)
    &&& is_zero(state.timestep)
    &&& state.first_moment.shape() == parameters.shape()
    &&& state.second_moment.shape() == parameters.shape()
    &&& state.first_moment.scalars().len() == parameters.scalars().len()
    &&& state.second_moment.scalars().len() == parameters.scalars().len()
    &&& forall|i: int|
        0 <= i < parameters.scalars().len() ==> is_zero(#[trigger] state.first_moment.scalars()[i])
    &&& forall|i: int|
        0 <= i < parameters.scalars().len() ==> is_zero(
            #[trigger] state.second_moment.scalars()[i],
        )
}

/// A run of Adam: every state but the first follows from the one before it
/// by a step with the gradients of that step.
pub open spec fn adam_run<P: Parameters>(
    states: Seq<AdamState<P>>,
    gradients: Seq<Seq<P::Scalar>>,
) -> bool where P::Scalar: Float {
    &&& states.len() == gradients.len() + 1
    &&& forall|k: int|
        0 <= k < gradients.len() ==> adam_step(#[trigger] states[k], gradients[k], states[k + 1])
}

impl<P: Parameters> AdamState<P> {
    /// The two states hold the same scalars, whatever their containers.
    pub open spec fn same_scalars<Q: Parameters<Scalar = P::Scalar>>(
        self,
        other: AdamState<Q>,
    ) -> bool {
        &&& self.learning_rate == other.learning_rate
        &&& self.beta1 == other.beta1
        &&& self.beta2 == other.beta2
        &&& self.epsilon == other.epsilon
        &&& self.timestep == other.timestep
        &&& self.parameters.scalars() == other.parameters.scalars()
        &&& self.first_moment.scalars() == other.first_moment.scalars()
        &&& self.second_moment.scalars() == other.second_moment.scalars()
    }
}

impl<P: Parameters> View for Adam<P> {
    type V = AdamState<P>;

    closed spec fn view(&self) -> AdamState<P> {
        AdamState {
            parameters: self.parameters,
            learning_rate: self.learning_rate,
            beta1: self.beta1,
            beta2: self.beta2,
            epsilon: self.epsilon,
            timestep: self.timestep,
            first_moment: self.m0,
            second_moment: self.v0,
        }
    }
}

impl<P: Parameters> View for AdamBuilder<P> {
    type V = AdamState<P>;

    /// What the optimizer will hold if it is built now.
    closed spec fn view(&self) -> AdamState<P> {
        self.0@
    }
}

impl<P: Parameters> Adam<P> {
    /// Creates an optimizer for `parameters` with the given learning rate,
    /// and with beta1 = 0.9, beta2 = 0.999 and epsilon = 1e-8.
    pub fn new(parameters: P, learning_rate: P::Scalar) -> (r: Adam<P>) where P::Scalar: Float
        ensures
            adam_fresh(r@, parameters, learning_rate),
            r.well_shaped(),
    {
        let m0 = parameters.zeros();
        let v0 = parameters.zeros();
        Adam {
            parameters,
            learning_rate,
            beta1: ratio(9, 10),
            beta2: ratio(999, 1000),
            epsilon: ratio(1, 100_000_000),
            timestep: zero(),
            m0,
            v0,
        }
    }

    /// Starts a builder for `parameters`, with a learning rate of 0.001,
    /// beta1 = 0.9, beta2 = 0.999 and epsilon = 1e-8. The methods of
    /// [`AdamBuilder`] replace any of the four.
    pub fn builder(parameters: P) -> (r: AdamBuilder<P>) where P::Scalar: Float
        ensures
            adam_fresh(r@, parameters, r@.learning_rate),
            is_ratio(1, 1000, r@.learning_rate),
    {
        let m0 = parameters.zeros();
        let v0 = parameters.zeros();
        let adam = Adam {
            parameters,
            learning_rate: ratio(1, 1000),
            beta1: ratio(9, 10),
            beta2: ratio(999, 1000),
            epsilon: ratio(1, 100_000_000),
            timestep: zero(),
            m0,
            v0,
        };
        AdamBuilder(adam)
    }

    /// Replaces the learning rate. Nothing is asked of its sign or size.
    pub fn change_learning_rate(&mut self, learning_rate: P::Scalar)
        ensures
            final(self)@ == (AdamState { learning_rate, ..old(self)@ }),
    {
        self.learning_rate = learning_rate;
    }

    /// The moving average of the gradients.
    pub fn first_moment(&self) -> (r: &P)
        ensures
            *r == self@.first_moment,
    {
        &self.m0
    }

    /// The moving average of the squared gradients.
    pub fn second_moment(&self) -> (r: &P)
        ensures
            *r == self@.second_moment,
    {
        &self.v0
    }
}

impl<P: Parameters> AdamBuilder<P> {
    /// Sets the learning rate.
    pub fn learning_rate(self, learning_rate: P::Scalar) -> (r: AdamBuilder<P>)
        ensures
            r@ == (AdamState { learning_rate, ..self@ }),
    {
        let mut adam = self.0;
        adam.learning_rate = learning_rate;
        AdamBuilder(adam)
    }

    /// Sets the decay of the first moment.
    pub fn beta1(self, beta1: P::Scalar) -> (r: AdamBuilder<P>)
        ensures
            r@ == (AdamState { beta1, ..self@ }),
    {
        let mut adam = self.0;
        adam.beta1 = beta1;
        AdamBuilder(adam)
    }

    /// Sets the decay of the second moment.
    pub fn beta2(self, beta2: P::Scalar) -> (r: AdamBuilder<P>)
        ensures
            r@ == (AdamState { beta2, ..self@ }),
    {
        let mut adam = self.0;
        adam.beta2 = beta2;
        AdamBuilder(adam)
    }

    /// Sets epsilon.
    pub fn epsilon(self, epsilon: P::Scalar) -> (r: AdamBuilder<P>)
        ensures
            r@ == (AdamState { epsilon, ..self@ }),
    {
        let mut adam = self.0;
        adam.epsilon = epsilon;
        AdamBuilder(adam)
    }

    /// The optimizer with the hyperparameters as they were set.
    pub fn build(self) -> (r: Adam<P>)
        ensures
            r@ == self@,
    {
        self.0
    }
}

impl<P: Parameters> Optimizer for Adam<P> {
    type Para = P;

    open spec fn held(&self) -> P {
        self@.parameters
    }

    closed spec fn holding(&self, parameters: P) -> Self {
        Adam {
            parameters,
            learning_rate: self.learning_rate,
            beta1: self.beta1,
            beta2: self.beta2,
            epsilon: self.epsilon,
            timestep: self.timestep,
            m0: self.m0,
            v0: self.v0,
        }
    }

    open spec fn well_shaped(&self) -> bool {
        &&& self@.first_moment.shape() == self@.parameters.shape()
        &&& self@.second_moment.shape() == self@.parameters.shape()
    }

    open spec fn stepped(&self, gradients: &P, next: &Self) -> bool where P::Scalar: Float {
        adam_step(self@, gradients.scalars(), next@)
    }

    proof fn holding_keeps_shape(&self, parameters: P)
        ensures
            self.holding(parameters)@ == (AdamState { parameters, ..self@ }),
    {
    }

    fn parameters(&self) -> (r: &P) {
        &self.parameters
    }

    fn parameters_mut(&mut self) -> (r: &mut P)
        ensures
            final(self)@ == (AdamState { parameters: *final(r), ..old(self)@ }),
    {
        &mut self.parameters
    }

    fn step(&mut self, gradients: &P) where P::Scalar: Float {
        proof {
            self.m0.shape_fixes_count(&self.parameters);
            self.v0.shape_fixes_count(&self.parameters);
            gradients.shape_fixes_count(&self.parameters);
        }
        self.timestep = sum(self.timestep, one());

        let beta1 = self.beta1;
        let first = |m: &P::Scalar, g: &P::Scalar| -> (r: P::Scalar)
            ensures
                first_moment_rule(beta1, *m, *g, r),
            { sum(product(beta1, *m), product(difference(one(), beta1), *g)) };
        self.m0.zip_mut_with(gradients, first);

        let beta2 = self.beta2;
        let second = |v: &P::Scalar, g: &P::Scalar| -> (r: P::Scalar)
            ensures
                second_moment_rule(beta2, *v, *g, r),
            { sum(product(beta2, *v), product(product(difference(one(), beta2), *g), *g)) };
        self.v0.zip_mut_with(gradients, second);

        let bias_correction1 = difference(one(), power(self.beta1, self.timestep));
        let bias_correction2_sqrt = square_root(
            difference(one(), power(self.beta2, self.timestep)),
        );
        let alpha_t = quotient(self.learning_rate, bias_correction1);
        let epsilon = self.epsilon;

        proof {
            self.m0.shape_fixes_count(&self.parameters);
            self.v0.shape_fixes_count(&self.parameters);
        }
        let rule = |p: &P::Scalar, m: &P::Scalar, v: &P::Scalar| -> (r: P::Scalar)
            ensures
                adam_rule(alpha_t, bias_correction2_sqrt, epsilon, *p, *m, *v, r),
            {
                difference(
                    *p,
                    quotient(
                        product(alpha_t, *m),
                        sum(quotient(square_root(*v), bias_correction2_sqrt), epsilon),
                    ),
                )
            };
        self.parameters.zip2_mut_with(&self.m0, &self.v0, rule);
        proof {
            assert(adam_rule_everywhere(
                alpha_t,
                bias_correction2_sqrt,
                epsilon,
                old(self)@.parameters.scalars(),
                self@.first_moment.scalars(),
                self@.second_moment.scalars(),
                self@.parameters.scalars(),
            ));
            assert(first_bias_correction(old(self)@.beta1, self@.timestep, bias_correction1));
            assert(second_bias_correction(old(self)@.beta2, self@.timestep, bias_correction2_sqrt));
            assert(is_quotient(old(self)@.learning_rate, bias_correction1, alpha_t));
        }
    }

    fn into_parameters(self) -> (r: P) {
        self.parameters
    }
}

} // verus!
