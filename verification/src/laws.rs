//! What holds of the optimizers in general, over their step relations.

use crate::impls::Single;
use crate::optimizers::adagrad::{
    accumulation, adagrad_rule, adagrad_rule_everywhere, adagrad_run, adagrad_step, decayed_rate,
    AdaGradState,
};
use crate::optimizers::adam::{
    adam_fresh, adam_rule, adam_rule_everywhere, adam_run, adam_step, first_bias_correction,
    first_moment_rule, second_bias_correction, second_moment_rule, AdamState,
};
use crate::optimizers::sgd::{descent, sgd_run, sgd_step, SgdState};
use crate::scalar::{
    is_difference, is_one, is_power, is_product, is_quotient, is_square_root, is_successor,
    is_sum, is_zero, single_valued,
};
use crate::shape::concat;
use crate::{Optimizer, Parameters};
use num_traits::Float;
use vstd::prelude::*;

verus! {

/// Taking the parameters back gives what `parameters` showed last: the value
/// that `into_parameters` returns is the value that `parameters` returns for
/// the same optimizer.
pub proof fn law_consumption_returns_what_was_seen<O: Optimizer>(
    optimizer: O,
    seen: &O::Para,
    taken: O::Para,
)
    requires
        call_ensures(O::parameters, (&optimizer,), seen),
        call_ensures(O::into_parameters, (optimizer,), taken),
    ensures
        taken == *seen,
{
}

/// The items of all rows in one sequence: those of the first row, then those
/// of the second, and so on.
pub open spec fn join<T>(rows: Seq<Seq<T>>) -> Seq<T>
    decreases rows.len(),
{
    if rows.len() == 0 {
        Seq::empty()
    } else {
        join(rows.drop_last()) + rows.last()
    }
}

/// The scalars of two sequences of containers, one after the other, are the
/// scalars of the first followed by those of the second.
pub proof fn lemma_concat_append<T: Parameters>(front: Seq<T>, back: Seq<T>)
    ensures
        concat(front + back) == concat(front) + concat(back),
    decreases back.len(),
{
    if back.len() == 0 {
        assert(front + back =~= front);
        assert(concat(front) + concat(back) =~= concat(front));
    } else {
        lemma_concat_append(front, back.drop_last());
        assert((front + back).drop_last() =~= front + back.drop_last());
        assert((front + back).last() == back.last());
        assert(concat(front + back) =~= concat(front) + concat(back));
    }
}

/// A vector of single scalars holds the scalars themselves, in order.
pub proof fn law_singles_hold_their_values<S>(items: Seq<Single<S>>)
    ensures
        concat(items).len() == items.len(),
        forall|i: int| 0 <= i < items.len() ==> (#[trigger] concat(items)[i]) == items[i].0,
    decreases items.len(),
{
    if items.len() > 0 {
        law_singles_hold_their_values(items.drop_last());
        assert(items.last().scalars() =~= seq![items.last().0]);
        assert forall|i: int| 0 <= i < items.len() implies (#[trigger] concat(items)[i])
            == items[i].0 by {
            if i < items.len() - 1 {
                assert(concat(items)[i] == concat(items.drop_last())[i]);
                assert(items.drop_last()[i] == items[i]);
            }
        }
    }
}

/// Nesting adds nothing to the content: where every row holds the scalars of
/// its items, the rows together hold the scalars of all items in one
/// sequence. A vector of arrays, an array of vectors and the flat vector of
/// the same items have the same scalars.
pub proof fn law_nesting_keeps_content<T: Parameters, R: Parameters<Scalar = T::Scalar>>(
    rows: Seq<R>,
    items: Seq<Seq<T>>,
)
    requires
        rows.len() == items.len(),
        forall|k: int| 0 <= k < rows.len() ==> (#[trigger] rows[k]).scalars() == concat(items[k]),
    ensures
        concat(rows) == concat(join(items)),
    decreases rows.len(),
{
    if rows.len() > 0 {
        assert forall|k: int| 0 <= k < rows.len() - 1 implies (#[trigger] rows.drop_last()[
            k
        ]).scalars() == concat(items.drop_last()[k]) by {
            assert(rows.drop_last()[k] == rows[k]);
            assert(items.drop_last()[k] == items[k]);
        }
        law_nesting_keeps_content(rows.drop_last(), items.drop_last());
        lemma_concat_append(join(items.drop_last()), items.last());
        assert(rows.last() == rows[rows.len() - 1]);
        assert(items.last() == items[rows.len() - 1]);
    }
}

/// With single-valued arithmetic, the value of the descent rule is fixed by
/// its operands.
pub proof fn lemma_descent_single_valued<S: Float>(rate: S, p: S, g: S, x: S, y: S)
    requires
        single_valued::<S>(),
        descent(rate, p, g, x),
        descent(rate, p, g, y),
    ensures
        x == y,
{
}

/// A step of gradient descent does not see the shape of the containers:
/// states that hold the same scalars, in containers of any two types, are
/// related by a step when the states of the other type are.
pub proof fn law_sgd_step_ignores_shape<P: Parameters, Q: Parameters<Scalar = P::Scalar>>(
    a: SgdState<P>,
    a_next: SgdState<P>,
    b: SgdState<Q>,
    b_next: SgdState<Q>,
    g: Seq<P::Scalar>,
) where P::Scalar: Float
    requires
        a.same_scalars(b),
        a_next.same_scalars(b_next),
        sgd_step(a, g, a_next),
    ensures
        sgd_step(b, g, b_next),
{
}

/// With single-valued arithmetic, the same content in containers of any two
/// types stays the same content after a step of gradient descent with the
/// same gradients.
pub proof fn law_sgd_same_content_same_step<P: Parameters, Q: Parameters<Scalar = P::Scalar>>(
    a: SgdState<P>,
    a_next: SgdState<P>,
    b: SgdState<Q>,
    b_next: SgdState<Q>,
    g: Seq<P::Scalar>,
) where P::Scalar: Float
    requires
        single_valued::<P::Scalar>(),
        a.same_scalars(b),
        sgd_step(a, g, a_next),
        sgd_step(b, g, b_next),
    ensures
        a_next.same_scalars(b_next),
{
    let (x, y) = (a_next.parameters.scalars(), b_next.parameters.scalars());
    assert forall|i: int| 0 <= i < x.len() implies x[i] == y[i] by {
        lemma_descent_single_valued(
            a.learning_rate,
            a.parameters.scalars()[i],
            g[i],
            x[i],
            y[i],
        );
    }
    assert(x =~= y);
}

/// With single-valued arithmetic, two runs of gradient descent that start from the
/// same content, in containers of any two types, and are given the same
/// gradients hold the same content after every step.
pub proof fn law_sgd_same_content_same_run<P: Parameters, Q: Parameters<Scalar = P::Scalar>>(
    a: Seq<SgdState<P>>,
    b: Seq<SgdState<Q>>,
    gradients: Seq<Seq<P::Scalar>>,
    k: int,
) where P::Scalar: Float
    requires
        single_valued::<P::Scalar>(),
        sgd_run(a, gradients),
        sgd_run(b, gradients),
        a[0].same_scalars(b[0]),
        0 <= k < a.len(),
    ensures
        a[k].same_scalars(b[k]),
    decreases k,
{
    if k > 0 {
        law_sgd_same_content_same_run(a, b, gradients, k - 1);
        assert(sgd_step(a[k - 1], gradients[k - 1], a[k - 1 + 1]));
        assert(sgd_step(b[k - 1], gradients[k - 1], b[k - 1 + 1]));
        law_sgd_same_content_same_step(a[k - 1], a[k], b[k - 1], b[k], gradients[k - 1]);
    }
}

/// With single-valued arithmetic, the successor of a timestep is fixed by the
/// timestep.
pub proof fn lemma_successor_single_valued<S: Float>(t: S, x: S, y: S)
    requires
        single_valued::<S>(),
        is_successor(t, x),
        is_successor(t, y),
    ensures
        x == y,
{
}

/// With single-valued arithmetic, the new sum of squared gradients is fixed
/// by the old sum and the gradient.
pub proof fn lemma_accumulation_single_valued<S: Float>(accumulated: S, g: S, x: S, y: S)
    requires
        single_valued::<S>(),
        accumulation(accumulated, g, x),
        accumulation(accumulated, g, y),
    ensures
        x == y,
{
}

/// With single-valued arithmetic, the decayed learning rate is fixed by the
/// learning rate, its decay and the timestep.
pub proof fn lemma_decayed_rate_single_valued<S: Float>(
    learning_rate: S,
    decay: S,
    t: S,
    x: S,
    y: S,
)
    requires
        single_valued::<S>(),
        decayed_rate(learning_rate, decay, t, x),
        decayed_rate(learning_rate, decay, t, y),
    ensures
        x == y,
{
}

/// With single-valued arithmetic, the value of the AdaGrad rule is fixed by
/// its operands.
pub proof fn lemma_adagrad_rule_single_valued<S: Float>(
    rate: S,
    epsilon: S,
    p: S,
    accumulated: S,
    g: S,
    x: S,
    y: S,
)
    requires
        single_valued::<S>(),
        adagrad_rule(rate, epsilon, p, accumulated, g, x),
        adagrad_rule(rate, epsilon, p, accumulated, g, y),
    ensures
        x == y,
{
}

/// A step of AdaGrad does not see the shape of the containers: states that
/// hold the same scalars, in containers of any two types, are related by a
/// step when the states of the other type are.
pub proof fn law_adagrad_step_ignores_shape<P: Parameters, Q: Parameters<Scalar = P::Scalar>>(
    a: AdaGradState<P>,
    a_next: AdaGradState<P>,
    b: AdaGradState<Q>,
    b_next: AdaGradState<Q>,
    g: Seq<P::Scalar>,
) where P::Scalar: Float
    requires
        a.same_scalars(b),
        a_next.same_scalars(b_next),
        adagrad_step(a, g, a_next),
    ensures
        adagrad_step(b, g, b_next),
{
    let rate = choose|rate: P::Scalar|
        decayed_rate(a.learning_rate, a.learning_rate_decay, a_next.timestep, rate)
            && adagrad_rule_everywhere(
            rate,
            a.epsilon,
            a.parameters.scalars(),
            a_next.state_sum.scalars(),
            g,
            a_next.parameters.scalars(),
        );
    assert(decayed_rate(b.learning_rate, b.learning_rate_decay, b_next.timestep, rate));
    assert(adagrad_rule_everywhere(
        rate,
        b.epsilon,
        b.parameters.scalars(),
        b_next.state_sum.scalars(),
        g,
        b_next.parameters.scalars(),
    ));
}

/// With single-valued arithmetic, the same content in containers of any two
/// types stays the same content after a step of AdaGrad with the same
/// gradients.
pub proof fn law_adagrad_same_content_same_step<P: Parameters, Q: Parameters<Scalar = P::Scalar>>(
    a: AdaGradState<P>,
    a_next: AdaGradState<P>,
    b: AdaGradState<Q>,
    b_next: AdaGradState<Q>,
    g: Seq<P::Scalar>,
) where P::Scalar: Float
    requires
        single_valued::<P::Scalar>(),
        a.same_scalars(b),
        adagrad_step(a, g, a_next),
        adagrad_step(b, g, b_next),
    ensures
        a_next.same_scalars(b_next),
{
    lemma_successor_single_valued(a.timestep, a_next.timestep, b_next.timestep);
    let (sa, sb) = (a_next.state_sum.scalars(), b_next.state_sum.scalars());
    assert forall|i: int| 0 <= i < sa.len() implies sa[i] == sb[i] by {
        lemma_accumulation_single_valued(a.state_sum.scalars()[i], g[i], sa[i], sb[i]);
    }
    assert(sa =~= sb);
    let rate_a = choose|rate: P::Scalar|
        decayed_rate(a.learning_rate, a.learning_rate_decay, a_next.timestep, rate)
            && adagrad_rule_everywhere(
            rate,
            a.epsilon,
            a.parameters.scalars(),
            a_next.state_sum.scalars(),
            g,
            a_next.parameters.scalars(),
        );
    let rate_b = choose|rate: P::Scalar|
        decayed_rate(b.learning_rate, b.learning_rate_decay, b_next.timestep, rate)
            && adagrad_rule_everywhere(
            rate,
            b.epsilon,
            b.parameters.scalars(),
            b_next.state_sum.scalars(),
            g,
            b_next.parameters.scalars(),
        );
    lemma_decayed_rate_single_valued(
        a.learning_rate,
        a.learning_rate_decay,
        a_next.timestep,
        rate_a,
        rate_b,
    );
    let (x, y) = (a_next.parameters.scalars(), b_next.parameters.scalars());
    assert forall|i: int| 0 <= i < x.len() implies x[i] == y[i] by {
        lemma_adagrad_rule_single_valued(
            rate_a,
            a.epsilon,
            a.parameters.scalars()[i],
            sa[i],
            g[i],
            x[i],
            y[i],
        );
    }
    assert(x =~= y);
}

/// With single-valued arithmetic, two runs of AdaGrad that start from the
/// same content, in containers of any two types, and are given the same
/// gradients hold the same content after every step.
pub proof fn law_adagrad_same_content_same_run<P: Parameters, Q: Parameters<Scalar = P::Scalar>>(
    a: Seq<AdaGradState<P>>,
    b: Seq<AdaGradState<Q>>,
    gradients: Seq<Seq<P::Scalar>>,
    k: int,
) where P::Scalar: Float
    requires
        single_valued::<P::Scalar>(),
        adagrad_run(a, gradients),
        adagrad_run(b, gradients),
        a[0].same_scalars(b[0]),
        0 <= k < a.len(),
    ensures
        a[k].same_scalars(b[k]),
    decreases k,
{
    if k > 0 {
        law_adagrad_same_content_same_run(a, b, gradients, k - 1);
        assert(adagrad_step(a[k - 1], gradients[k - 1], a[k - 1 + 1]));
        assert(adagrad_step(b[k - 1], gradients[k - 1], b[k - 1 + 1]));
        law_adagrad_same_content_same_step(a[k - 1], a[k], b[k - 1], b[k], gradients[k - 1]);
    }
}

/// With single-valued arithmetic, the new first moment is fixed by the decay,
/// the old moment and the gradient.
pub proof fn lemma_first_moment_single_valued<S: Float>(decay: S, average: S, g: S, x: S, y: S)
    requires
        single_valued::<S>(),
        first_moment_rule(decay, average, g, x),
        first_moment_rule(decay, average, g, y),
    ensures
        x == y,
{
}

/// With single-valued arithmetic, the new second moment is fixed by the
/// decay, the old moment and the gradient.
pub proof fn lemma_second_moment_single_valued<S: Float>(decay: S, average: S, g: S, x: S, y: S)
    requires
        single_valued::<S>(),
        second_moment_rule(decay, average, g, x),
        second_moment_rule(decay, average, g, y),
    ensures
        x == y,
{
}

/// With single-valued arithmetic, both bias corrections are fixed by the
/// decay and the timestep.
pub proof fn lemma_bias_corrections_single_valued<S: Float>(
    beta1: S,
    beta2: S,
    t: S,
    x1: S,
    y1: S,
    x2: S,
    y2: S,
)
    requires
        single_valued::<S>(),
        first_bias_correction(beta1, t, x1),
        first_bias_correction(beta1, t, y1),
        second_bias_correction(beta2, t, x2),
        second_bias_correction(beta2, t, y2),
    ensures
        x1 == y1,
        x2 == y2,
{
}

/// With single-valued arithmetic, the value of the Adam rule is fixed by its
/// operands.
pub proof fn lemma_adam_rule_single_valued<S: Float>(
    alpha: S,
    correction: S,
    epsilon: S,
    p: S,
    m: S,
    v: S,
    x: S,
    y: S,
)
    requires
        single_valued::<S>(),
        adam_rule(alpha, correction, epsilon, p, m, v, x),
        adam_rule(alpha, correction, epsilon, p, m, v, y),
    ensures
        x == y,
{
}

/// A step of Adam does not see the shape of the containers: states that hold
/// the same scalars, in containers of any two types, are related by a step
/// when the states of the other type are.
pub proof fn law_adam_step_ignores_shape<P: Parameters, Q: Parameters<Scalar = P::Scalar>>(
    a: AdamState<P>,
    a_next: AdamState<P>,
    b: AdamState<Q>,
    b_next: AdamState<Q>,
    g: Seq<P::Scalar>,
) where P::Scalar: Float
    requires
        a.same_scalars(b),
        a_next.same_scalars(b_next),
        adam_step(a, g, a_next),
    ensures
        adam_step(b, g, b_next),
{
    let (c1, c2, alpha) = choose|c1: P::Scalar, c2: P::Scalar, alpha: P::Scalar|
        first_bias_correction(a.beta1, a_next.timestep, c1) && second_bias_correction(
            a.beta2,
            a_next.timestep,
            c2,
        ) && is_quotient(a.learning_rate, c1, alpha) && adam_rule_everywhere(
            alpha,
            c2,
            a.epsilon,
            a.parameters.scalars(),
            a_next.first_moment.scalars(),
            a_next.second_moment.scalars(),
            a_next.parameters.scalars(),
        );
    assert(first_bias_correction(b.beta1, b_next.timestep, c1));
    assert(second_bias_correction(b.beta2, b_next.timestep, c2));
    assert(is_quotient(b.learning_rate, c1, alpha));
    assert(adam_rule_everywhere(
        alpha,
        c2,
        b.epsilon,
        b.parameters.scalars(),
        b_next.first_moment.scalars(),
        b_next.second_moment.scalars(),
        b_next.parameters.scalars(),
    ));
}

/// With single-valued arithmetic, the same content in containers of any two
/// types stays the same content after a step of Adam with the same
/// gradients.
pub proof fn law_adam_same_content_same_step<P: Parameters, Q: Parameters<Scalar = P::Scalar>>(
    a: AdamState<P>,
    a_next: AdamState<P>,
    b: AdamState<Q>,
    b_next: AdamState<Q>,
    g: Seq<P::Scalar>,
) where P::Scalar: Float
    requires
        single_valued::<P::Scalar>(),
        a.same_scalars(b),
        adam_step(a, g, a_next),
        adam_step(b, g, b_next),
    ensures
        a_next.same_scalars(b_next),
{
    lemma_successor_single_valued(a.timestep, a_next.timestep, b_next.timestep);
    let (ma, mb) = (a_next.first_moment.scalars(), b_next.first_moment.scalars());
    assert forall|i: int| 0 <= i < ma.len() implies ma[i] == mb[i] by {
        lemma_first_moment_single_valued(a.beta1, a.first_moment.scalars()[i], g[i], ma[i], mb[i]);
    }
    assert(ma =~= mb);
    let (va, vb) = (a_next.second_moment.scalars(), b_next.second_moment.scalars());
    assert forall|i: int| 0 <= i < va.len() implies va[i] == vb[i] by {
        lemma_second_moment_single_valued(
            a.beta2,
            a.second_moment.scalars()[i],
            g[i],
            va[i],
            vb[i],
        );
    }
    assert(va =~= vb);
    let (c1a, c2a, alpha_a) = choose|c1: P::Scalar, c2: P::Scalar, alpha: P::Scalar|
        first_bias_correction(a.beta1, a_next.timestep, c1) && second_bias_correction(
            a.beta2,
            a_next.timestep,
            c2,
        ) && is_quotient(a.learning_rate, c1, alpha) && adam_rule_everywhere(
            alpha,
            c2,
            a.epsilon,
            a.parameters.scalars(),
            a_next.first_moment.scalars(),
            a_next.second_moment.scalars(),
            a_next.parameters.scalars(),
        );
    let (c1b, c2b, alpha_b) = choose|c1: P::Scalar, c2: P::Scalar, alpha: P::Scalar|
        first_bias_correction(b.beta1, b_next.timestep, c1) && second_bias_correction(
            b.beta2,
            b_next.timestep,
            c2,
        ) && is_quotient(b.learning_rate, c1, alpha) && adam_rule_everywhere(
            alpha,
            c2,
            b.epsilon,
            b.parameters.scalars(),
            b_next.first_moment.scalars(),
            b_next.second_moment.scalars(),
            b_next.parameters.scalars(),
        );
    lemma_bias_corrections_single_valued(a.beta1, a.beta2, a_next.timestep, c1a, c1b, c2a, c2b);
    assert(alpha_a == alpha_b);
    let (x, y) = (a_next.parameters.scalars(), b_next.parameters.scalars());
    assert forall|i: int| 0 <= i < x.len() implies x[i] == y[i] by {
        lemma_adam_rule_single_valued(
            alpha_a,
            c2a,
            a.epsilon,
            a.parameters.scalars()[i],
            ma[i],
            va[i],
            x[i],
            y[i],
        );
    }
    assert(x =~= y);
}

/// With single-valued arithmetic, two runs of Adam that start from the
/// same content, in containers of any two types, and are given the same
/// gradients hold the same content after every step.
pub proof fn law_adam_same_content_same_run<P: Parameters, Q: Parameters<Scalar = P::Scalar>>(
    a: Seq<AdamState<P>>,
    b: Seq<AdamState<Q>>,
    gradients: Seq<Seq<P::Scalar>>,
    k: int,
) where P::Scalar: Float
    requires
        single_valued::<P::Scalar>(),
        adam_run(a, gradients),
        adam_run(b, gradients),
        a[0].same_scalars(b[0]),
        0 <= k < a.len(),
    ensures
        a[k].same_scalars(b[k]),
    decreases k,
{
    if k > 0 {
        law_adam_same_content_same_run(a, b, gradients, k - 1);
        assert(adam_step(a[k - 1], gradients[k - 1], a[k - 1 + 1]));
        assert(adam_step(b[k - 1], gradients[k - 1], b[k - 1 + 1]));
        law_adam_same_content_same_step(a[k - 1], a[k], b[k - 1], b[k], gradients[k - 1]);
    }
}

/// `below` is an order on the scalars in which adding a square never lowers
/// a value: it is reflexive and transitive, and `a` is below every value of
/// `a + g * g`. The order of the real numbers is one. For a floating-point
/// type with monotone rounding, "`x` is at most `y`, or `y` is NaN" is one:
/// such a sum is at least `a` unless it is NaN.
pub open spec fn squares_never_lower<S: Float>(below: spec_fn(S, S) -> bool) -> bool {
    &&& forall|x: S| #[trigger] below(x, x)
    &&& forall|x: S, y: S, z: S| #[trigger] below(x, y) && #[trigger] below(y, z) ==> below(x, z)
    &&& forall|a: S, g: S, square: S, r: S|
        #[trigger] is_product(g, g, square) && #[trigger] is_sum(a, square, r) ==> below(a, r)
}

/// The accumulated squared gradient of AdaGrad never goes down: in every
/// order in which adding a square never lowers a value, the sum of a
/// coordinate at the start of a run is below its sum at every later state,
/// whatever the gradients were.
pub proof fn law_state_sum_never_lowers<P: Parameters>(
    states: Seq<AdaGradState<P>>,
    gradients: Seq<Seq<P::Scalar>>,
    below: spec_fn(P::Scalar, P::Scalar) -> bool,
    k: int,
    i: int,
) where P::Scalar: Float
    requires
        adagrad_run(states, gradients),
        squares_never_lower(below),
        states[0].state_sum.scalars().len() == states[0].parameters.scalars().len(),
        0 <= k < states.len(),
        0 <= i < states[0].parameters.scalars().len(),
    ensures
        states[k].parameters.scalars().len() == states[0].parameters.scalars().len(),
        states[k].state_sum.scalars().len() == states[0].parameters.scalars().len(),
        below(states[0].state_sum.scalars()[i], states[k].state_sum.scalars()[i]),
    decreases k,
{
    if k > 0 {
        law_state_sum_never_lowers(states, gradients, below, k - 1, i);
        assert(adagrad_step(states[k - 1], gradients[k - 1], states[k - 1 + 1]));
        assert(accumulation(
            states[k - 1].state_sum.scalars()[i],
            gradients[k - 1][i],
            states[k].state_sum.scalars()[i],
        ));
    }
}

/// Zero is neutral where it should be: a product with a zero is a zero, a
/// zero plus `x` is `x`, `x` plus a zero is `x`, and the first power of `x`
/// is `x`. These hold of the real numbers; a floating-point type has them
/// apart from NaN, the infinities and the sign of zero.
pub open spec fn zero_and_one_are_neutral<S: Float>() -> bool {
    &&& forall|x: S, z: S, r: S|
        #[trigger] is_zero(z) && #[trigger] is_product(x, z, r) ==> is_zero(r)
    &&& forall|x: S, z: S, r: S|
        #[trigger] is_zero(z) && #[trigger] is_product(z, x, r) ==> is_zero(r)
    &&& forall|x: S, z: S, r: S| #[trigger] is_zero(z) && #[trigger] is_sum(z, x, r) ==> r == x
    &&& forall|x: S, z: S, r: S| #[trigger] is_zero(z) && #[trigger] is_sum(x, z, r) ==> r == x
    &&& forall|x: S, u: S, r: S| #[trigger] is_one(u) && #[trigger] is_power(x, u, r) ==> r == x
}

/// A zero gradient leaves the accumulated squared gradient of its coordinate
/// as it is, where zero is neutral.
pub proof fn law_zero_gradient_keeps_state_sum<P: Parameters>(
    state: AdaGradState<P>,
    g: Seq<P::Scalar>,
    next: AdaGradState<P>,
    i: int,
) where P::Scalar: Float
    requires
        adagrad_step(state, g, next),
        zero_and_one_are_neutral::<P::Scalar>(),
        0 <= i < state.parameters.scalars().len(),
        is_zero(g[i]),
    ensures
        next.state_sum.scalars()[i] == state.state_sum.scalars()[i],
{
    assert(accumulation(state.state_sum.scalars()[i], g[i], next.state_sum.scalars()[i]));
}

/// `m` is a value that `(1 - decay) * g` may have.
pub open spec fn first_moment_from_zero<S: Float>(decay: S, g: S, m: S) -> bool {
    exists|unit: S, rest: S|
        is_one(unit) && #[trigger] is_difference(unit, decay, rest) && is_product(rest, g, m)
}

/// `v` is a value that `(1 - decay) * g * g` may have.
pub open spec fn second_moment_from_zero<S: Float>(decay: S, g: S, v: S) -> bool {
    exists|unit: S, rest: S, once: S|
        #![trigger is_difference(unit, decay, rest), is_product(rest, g, once)]
        is_one(unit) && is_difference(unit, decay, rest) && is_product(rest, g, once)
            && is_product(once, g, v)
}

/// `correction` is a value that `1 - beta1` may have.
pub open spec fn first_correction_at_one<S: Float>(beta1: S, correction: S) -> bool {
    exists|unit: S| is_one(unit) && #[trigger] is_difference(unit, beta1, correction)
}

/// `correction` is a value that `sqrt(1 - beta2)` may have.
pub open spec fn second_correction_at_one<S: Float>(beta2: S, correction: S) -> bool {
    exists|unit: S, left: S|
        is_one(unit) && #[trigger] is_difference(unit, beta2, left) && is_square_root(
            left,
            correction,
        )
}

/// The first step of Adam, where zero and one are neutral: from a new
/// optimizer, one step with the gradients `g` leaves `(1 - beta1) * g` in the
/// first moment and `(1 - beta2) * g * g` in the second, and moves the
/// parameters by the rule with the bias corrections `1 - beta1` and
/// `sqrt(1 - beta2)`.
pub proof fn law_adam_first_step<P: Parameters>(
    start: AdamState<P>,
    parameters: P,
    learning_rate: P::Scalar,
    g: Seq<P::Scalar>,
    next: AdamState<P>,
) where P::Scalar: Float
    requires
        adam_fresh(start, parameters, learning_rate),
        adam_step(start, g, next),
        zero_and_one_are_neutral::<P::Scalar>(),
    ensures
        is_one(next.timestep),
        forall|i: int|
            0 <= i < parameters.scalars().len() ==> first_moment_from_zero(
                start.beta1,
                g[i],
                #[trigger] next.first_moment.scalars()[i],
            ),
        forall|i: int|
            0 <= i < parameters.scalars().len() ==> second_moment_from_zero(
                start.beta2,
                g[i],
                #[trigger] next.second_moment.scalars()[i],
            ),
        exists|correction1: P::Scalar, correction2: P::Scalar, alpha: P::Scalar|
            #![trigger first_correction_at_one(start.beta1, correction1), second_correction_at_one(start.beta2, correction2), is_quotient(learning_rate, correction1, alpha)]
            first_correction_at_one(start.beta1, correction1) && second_correction_at_one(
                start.beta2,
                correction2,
            ) && is_quotient(learning_rate, correction1, alpha) && adam_rule_everywhere(
                alpha,
                correction2,
                start.epsilon,
                parameters.scalars(),
                next.first_moment.scalars(),
                next.second_moment.scalars(),
                next.parameters.scalars(),
            ),
{
    assert(is_one(next.timestep));
    assert forall|i: int| 0 <= i < parameters.scalars().len() implies first_moment_from_zero(
        start.beta1,
        g[i],
        #[trigger] next.first_moment.scalars()[i],
    ) by {
        assert(is_zero(start.first_moment.scalars()[i]));
        assert(first_moment_rule(
            start.beta1,
            start.first_moment.scalars()[i],
            g[i],
            next.first_moment.scalars()[i],
        ));
    }
    assert forall|i: int| 0 <= i < parameters.scalars().len() implies second_moment_from_zero(
        start.beta2,
        g[i],
        #[trigger] next.second_moment.scalars()[i],
    ) by {
        assert(is_zero(start.second_moment.scalars()[i]));
        assert(second_moment_rule(
            start.beta2,
            start.second_moment.scalars()[i],
            g[i],
            next.second_moment.scalars()[i],
        ));
    }
    let (c1, c2, alpha) = choose|c1: P::Scalar, c2: P::Scalar, alpha: P::Scalar|
        first_bias_correction(start.beta1, next.timestep, c1) && second_bias_correction(
            start.beta2,
            next.timestep,
            c2,
        ) && is_quotient(start.learning_rate, c1, alpha) && adam_rule_everywhere(
            alpha,
            c2,
            start.epsilon,
            start.parameters.scalars(),
            next.first_moment.scalars(),
            next.second_moment.scalars(),
            next.parameters.scalars(),
        );
    assert(first_correction_at_one(start.beta1, c1));
    assert(second_correction_at_one(start.beta2, c2));
    assert(is_quotient(learning_rate, c1, alpha));
}

} // verus!
