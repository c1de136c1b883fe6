use stochastic_optimizers::{AdaGrad, Adam, Optimizer, Single};

#[test]
fn optimizers_qudratic_function() {
    let start = Single(-3.0);
    let mut optimizer = Adam::new(start, 0.1);

    for _ in 0..10000 {
        let current_paramter = optimizer.parameters();

        // d/dx (x-4)^2
        let gradient = Single(2.0 * current_paramter.0 - 8.0);
        optimizer.step(&gradient);
    }

    assert_eq!(optimizer.into_parameters().0, 4.0);
}

#[test]
fn adam_qudratic_function() {
    let start = Single(-3.0);
    let mut optimizer = Adam::new(start, 0.1);

    for _ in 0..10000 {
        let current_paramter = optimizer.parameters();

        // d/dx (x-4)^2
        let gradient = Single(2.0 * current_paramter.0 - 8.0);
        optimizer.step(&gradient);
    }

    assert_eq!(optimizer.into_parameters().0, 4.0);
}

#[test]
fn adagrad_qudratic_function() {
    let start = Single(3.5);
    let mut optimizer = AdaGrad::new(start, 0.5);

    for _ in 0..1000 {
        let current_paramter = optimizer.parameters();

        // d/dx (x-4)^2
        let gradient = Single(2.0 * current_paramter.0 - 8.0);
        optimizer.step(&gradient);
    }

    assert_eq!(optimizer.into_parameters().0, 4.0);
}
