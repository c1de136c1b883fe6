use stochastic_optimizers::{AdaGrad, Optimizer, Single};

fn singles(values: &[f64]) -> Vec<Single<f64>> {
    values.iter().map(|x| Single(*x)).collect()
}

fn values(parameters: &Vec<Single<f64>>) -> Vec<f64> {
    parameters.iter().map(|x| x.0).collect()
}

#[test]
fn adagrad_starts_with_a_zero_sum_of_the_shape_of_the_parameters() {
    let optimizer = AdaGrad::new(singles(&[3.0, 1.0, 4.0]), 0.5);
    assert_eq!(values(optimizer.state_sum()), vec![0.0, 0.0, 0.0]);
    assert_eq!(values(optimizer.parameters()), vec![3.0, 1.0, 4.0]);

    let nested = AdaGrad::new(vec![singles(&[1.0, 2.0]), singles(&[3.0])], 0.5);
    assert_eq!(nested.state_sum(), &vec![singles(&[0.0, 0.0]), singles(&[0.0])]);
}

#[test]
fn adagrad_first_step_matches_the_formula() {
    let mut optimizer = AdaGrad::new(Single(1.0_f64), 0.5);
    optimizer.step(&Single(2.0));

    assert_eq!(optimizer.state_sum().0, 4.0);
    let rate = 0.5 / (1.0 + (1.0 - 1.0) * 0.0);
    let expected = 1.0 - rate * 2.0 / (4.0_f64.sqrt() + 1e-10);
    assert_eq!(optimizer.parameters().0, expected);
    assert!((expected - 0.500000000025).abs() < 1e-15);
}

#[test]
fn adagrad_second_step_divides_by_the_root_of_the_whole_sum() {
    let mut optimizer = AdaGrad::new(Single(1.0_f64), 0.5);
    optimizer.step(&Single(3.0));
    let after_first = 1.0 - 0.5 * 3.0 / (9.0_f64.sqrt() + 1e-10);
    assert_eq!(optimizer.parameters().0, after_first);

    optimizer.step(&Single(4.0));
    assert_eq!(optimizer.state_sum().0, 25.0);
    let expected = after_first - 0.5 * 4.0 / (25.0_f64.sqrt() + 1e-10);
    assert_eq!(optimizer.parameters().0, expected);
}

#[test]
fn adagrad_with_a_zero_gradient_from_a_zero_sum_stays() {
    let mut optimizer = AdaGrad::new(singles(&[1.5, -2.5]), 0.1);
    optimizer.step(&singles(&[0.0, 0.0]));
    assert_eq!(values(optimizer.parameters()), vec![1.5, -2.5]);
    assert_eq!(values(optimizer.state_sum()), vec![0.0, 0.0]);
}

#[test]
fn adagrad_state_sum_never_goes_down() {
    let gradients = [
        [1.0, -2.0, 0.0],
        [0.0, 0.0, 0.0],
        [-0.5, 1e-9, 3.0],
        [0.0, 7.0, -1e3],
        [1e-200, 0.0, 0.0],
        [2.0, -2.0, 2.0],
    ];
    let mut optimizer = AdaGrad::new(singles(&[3.0, 1.0, 4.0]), 0.5);
    let mut before = values(optimizer.state_sum());
    for g in gradients.iter() {
        optimizer.step(&singles(g));
        let after = values(optimizer.state_sum());
        for i in 0..3 {
            assert!(after[i] >= before[i]);
            if g[i] == 0.0 {
                assert_eq!(after[i], before[i]);
            }
        }
        before = after;
    }
    assert_eq!(before, vec![1.0 + 0.25 + 4.0, 4.0 + 1e-18 + 49.0 + 4.0, 9.0 + 1e6 + 4.0]);
}

#[test]
fn adagrad_change_learning_rate_takes_effect_at_the_next_step() {
    let mut optimizer = AdaGrad::new(Single(1.0_f64), 0.5);
    optimizer.step(&Single(2.0));
    let after_first = optimizer.parameters().0;
    optimizer.change_learning_rate(0.25);
    assert_eq!(optimizer.parameters().0, after_first);
    optimizer.step(&Single(2.0));
    let expected = after_first - 0.25 * 2.0 / (8.0_f64.sqrt() + 1e-10);
    assert_eq!(optimizer.parameters().0, expected);
}

#[test]
fn adagrad_into_parameters_gives_what_parameters_showed() {
    let mut optimizer = AdaGrad::new(singles(&[3.0, 1.0, 4.0]), 0.125);
    for _ in 0..7 {
        let gradients: Vec<f64> = optimizer.parameters().iter().map(|p| 2.0 * p.0 - 1.0).collect();
        optimizer.step(&singles(&gradients));
    }
    let seen = values(optimizer.parameters());
    let taken = values(&optimizer.into_parameters());
    assert_eq!(taken, seen);
}

#[test]
fn adagrad_parameters_mut_lets_the_caller_replace_the_values() {
    let mut optimizer = AdaGrad::new(singles(&[1.0, 2.0]), 0.5);
    *optimizer.parameters_mut() = singles(&[10.0, 20.0]);
    optimizer.step(&singles(&[2.0, 0.0]));
    let expected = 10.0 - 0.5 * 2.0 / (4.0_f64.sqrt() + 1e-10);
    assert_eq!(values(optimizer.parameters()), vec![expected, 20.0]);
}

/// AdaGrad as the reference optimizers write it.
fn reference_adagrad(
    parameters: &mut [f64],
    state_sum: &mut [f64],
    gradients: &[f64],
    learning_rate: f64,
    step: f64,
) {
    let clr = learning_rate / (1.0 + (step - 1.0) * 0.0);
    for i in 0..parameters.len() {
        state_sum[i] += gradients[i] * gradients[i];
        let std = state_sum[i].sqrt() + 1e-10;
        parameters[i] += -clr * (gradients[i] / std);
    }
}

#[test]
fn adagrad_agrees_with_a_reference() {
    let init = vec![3.0, 1.0, 4.0, 1.0, 5.0];

    let mut optimizer = AdaGrad::new(singles(&init), 0.005);
    let mut reference = init.clone();
    let mut reference_sum = vec![0.0; 5];

    for t in 1..=1000 {
        let grad: Vec<f64> = reference.iter().map(|x| 2.0 * x - 1.0).collect();
        optimizer.step(&singles(&grad));
        reference_adagrad(&mut reference, &mut reference_sum, &grad, 0.005, t as f64);
    }

    let my_final = values(&optimizer.into_parameters());
    assert!(my_final.iter().zip(reference.iter()).all(|(x, y)| (x - y).abs() < 1e-12));
}

#[test]
fn adagrad_in_single_precision() {
    let mut optimizer = AdaGrad::new(Single(1.0_f32), 0.5);
    optimizer.step(&Single(2.0));
    let expected = 1.0_f32 - 0.5 * 2.0 / (4.0_f32.sqrt() + 1e-10);
    assert_eq!(optimizer.into_parameters().0, expected);
}
