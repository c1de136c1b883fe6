use stochastic_optimizers::{Adam, Optimizer, Single};

fn singles(values: &[f64]) -> Vec<Single<f64>> {
    values.iter().map(|x| Single(*x)).collect()
}

fn values(parameters: &Vec<Single<f64>>) -> Vec<f64> {
    parameters.iter().map(|x| x.0).collect()
}

/// One step by literal computation, with the operations in the order of the
/// rule. Returns the new parameter and updates the moments.
fn literal_step(
    p: f64,
    g: f64,
    m: &mut f64,
    v: &mut f64,
    t: f64,
    learning_rate: f64,
    beta1: f64,
    beta2: f64,
    epsilon: f64,
) -> f64 {
    *m = beta1 * *m + (1.0 - beta1) * g;
    *v = beta2 * *v + (1.0 - beta2) * g * g;
    let bias_correction1 = 1.0 - beta1.powf(t);
    let bias_correction2_sqrt = (1.0 - beta2.powf(t)).sqrt();
    let alpha_t = learning_rate / bias_correction1;
    p - alpha_t * *m / (v.sqrt() / bias_correction2_sqrt + epsilon)
}

#[test]
fn adam_starts_with_zero_moments_of_the_shape_of_the_parameters() {
    let optimizer = Adam::new(singles(&[3.0, 1.0, 4.0]), 0.1);
    assert_eq!(values(optimizer.first_moment()), vec![0.0, 0.0, 0.0]);
    assert_eq!(values(optimizer.second_moment()), vec![0.0, 0.0, 0.0]);
    assert_eq!(values(optimizer.parameters()), vec![3.0, 1.0, 4.0]);

    let nested = Adam::new(vec![[Single(1.0), Single(2.0)], [Single(3.0), Single(4.0)]], 0.1);
    assert_eq!(nested.first_moment(), &vec![[Single(0.0); 2]; 2]);
    assert_eq!(nested.second_moment(), &vec![[Single(0.0); 2]; 2]);

    let built = Adam::builder(singles(&[3.0, 1.0])).build();
    assert_eq!(values(built.first_moment()), vec![0.0, 0.0]);
    assert_eq!(values(built.second_moment()), vec![0.0, 0.0]);
}

#[test]
fn adam_first_step_matches_the_literal_computation() {
    let g = 2.0_f64;
    let mut optimizer = Adam::new(Single(1.0_f64), 0.1);
    optimizer.step(&Single(g));

    assert_eq!(optimizer.first_moment().0, (1.0 - 0.9) * g);
    assert_eq!(optimizer.second_moment().0, (1.0 - 0.999) * g * g);

    let bias_correction1 = 1.0 - 0.9;
    let bias_correction2_sqrt = (1.0_f64 - 0.999).sqrt();
    let alpha = 0.1 / bias_correction1;
    let m = (1.0 - 0.9) * g;
    let v = (1.0 - 0.999) * g * g;
    let expected = 1.0 - alpha * m / (v.sqrt() / bias_correction2_sqrt + 1e-8);
    assert_eq!(optimizer.parameters().0, expected);
    assert!((expected - 0.9).abs() < 1e-8);
}

#[test]
fn adam_follows_the_literal_computation_over_many_steps() {
    let gradients = [2.0, -1.0, 0.5, 0.0, 3.0, -7.0, 1e-3, 0.0, 0.0, 4.0];
    let mut optimizer = Adam::new(Single(1.0_f64), 0.1);
    let (mut p, mut m, mut v) = (1.0, 0.0, 0.0);
    let mut t = 0.0;
    for g in gradients.iter() {
        optimizer.step(&Single(*g));
        t += 1.0;
        p = literal_step(p, *g, &mut m, &mut v, t, 0.1, 0.9, 0.999, 1e-8);
        assert_eq!(optimizer.parameters().0, p);
        assert_eq!(optimizer.first_moment().0, m);
        assert_eq!(optimizer.second_moment().0, v);
    }
}

#[test]
fn adam_adds_epsilon_after_the_bias_correction() {
    let g = 2.0_f64;
    let mut optimizer = Adam::builder(Single(1.0_f64)).learning_rate(0.1).epsilon(0.5).build();
    optimizer.step(&Single(g));

    let m = (1.0 - 0.9) * g;
    let v = (1.0 - 0.999) * g * g;
    let bias_correction1 = 1.0 - 0.9;
    let bias_correction2 = 1.0_f64 - 0.999;
    let alpha = 0.1 / bias_correction1;

    let expected = 1.0 - alpha * m / (v.sqrt() / bias_correction2.sqrt() + 0.5);
    assert_eq!(optimizer.parameters().0, expected);
    assert!((expected - 0.92).abs() < 1e-12);

    let epsilon_under_the_root = 1.0 - alpha * m / ((v + 0.5).sqrt() / bias_correction2.sqrt());
    assert_ne!(optimizer.parameters().0, epsilon_under_the_root);
    let epsilon_before_the_correction =
        1.0 - alpha * m / ((v.sqrt() + 0.5) / bias_correction2.sqrt());
    assert_ne!(optimizer.parameters().0, epsilon_before_the_correction);
}

#[test]
fn adam_builder_defaults_to_a_learning_rate_of_a_thousandth() {
    let mut optimizer = Adam::builder(Single(1.0_f64)).build();
    optimizer.step(&Single(2.0));
    let mut m = 0.0;
    let mut v = 0.0;
    let expected = literal_step(1.0, 2.0, &mut m, &mut v, 1.0, 0.001, 0.9, 0.999, 1e-8);
    assert_eq!(optimizer.parameters().0, expected);
}

#[test]
fn adam_builder_sets_each_hyperparameter() {
    let mut optimizer = Adam::builder(Single(1.0_f64))
        .learning_rate(0.25)
        .beta1(0.5)
        .beta2(0.75)
        .epsilon(0.125)
        .build();
    let (mut p, mut m, mut v) = (1.0, 0.0, 0.0);
    for (t, g) in [2.0, -3.0, 0.5].iter().enumerate() {
        optimizer.step(&Single(*g));
        p = literal_step(p, *g, &mut m, &mut v, (t + 1) as f64, 0.25, 0.5, 0.75, 0.125);
        assert_eq!(optimizer.parameters().0, p);
        assert_eq!(optimizer.first_moment().0, m);
        assert_eq!(optimizer.second_moment().0, v);
    }
}

#[test]
fn adam_builder_keeps_what_was_not_set() {
    let mut only_beta2 = Adam::builder(Single(1.0_f64)).beta2(0.99).build();
    only_beta2.step(&Single(2.0));
    let (mut m, mut v) = (0.0, 0.0);
    let expected = literal_step(1.0, 2.0, &mut m, &mut v, 1.0, 0.001, 0.9, 0.99, 1e-8);
    assert_eq!(only_beta2.parameters().0, expected);

    let mut last_wins =
        Adam::builder(Single(1.0_f64)).learning_rate(0.5).learning_rate(0.1).build();
    last_wins.step(&Single(2.0));
    let (mut m, mut v) = (0.0, 0.0);
    let expected = literal_step(1.0, 2.0, &mut m, &mut v, 1.0, 0.1, 0.9, 0.999, 1e-8);
    assert_eq!(last_wins.parameters().0, expected);
}

#[test]
fn adam_builder_with_a_learning_rate_is_adam_new() {
    let mut built = Adam::builder(singles(&[3.0, 1.0, 4.0])).learning_rate(0.005).build();
    let mut made = Adam::new(singles(&[3.0, 1.0, 4.0]), 0.005);
    for _ in 0..50 {
        let gradients: Vec<f64> = made.parameters().iter().map(|p| 2.0 * p.0 - 1.0).collect();
        built.step(&singles(&gradients));
        made.step(&singles(&gradients));
        assert_eq!(built.parameters(), made.parameters());
    }
}

#[test]
fn adam_change_learning_rate_takes_effect_at_the_next_step() {
    let mut optimizer = Adam::new(Single(1.0_f64), 0.1);
    let (mut p, mut m, mut v) = (1.0, 0.0, 0.0);
    optimizer.step(&Single(2.0));
    p = literal_step(p, 2.0, &mut m, &mut v, 1.0, 0.1, 0.9, 0.999, 1e-8);
    optimizer.change_learning_rate(0.01);
    assert_eq!(optimizer.parameters().0, p);
    optimizer.step(&Single(2.0));
    p = literal_step(p, 2.0, &mut m, &mut v, 2.0, 0.01, 0.9, 0.999, 1e-8);
    assert_eq!(optimizer.parameters().0, p);
}

#[test]
fn adam_with_a_zero_gradient_from_zero_moments_stays() {
    let mut optimizer = Adam::new(singles(&[1.5, -2.5]), 0.1);
    optimizer.step(&singles(&[0.0, 0.0]));
    assert_eq!(values(optimizer.parameters()), vec![1.5, -2.5]);
    assert_eq!(values(optimizer.first_moment()), vec![0.0, 0.0]);
    assert_eq!(values(optimizer.second_moment()), vec![0.0, 0.0]);
}

#[test]
fn adam_parameters_mut_lets_the_caller_replace_the_values() {
    let mut optimizer = Adam::new(singles(&[1.0, 2.0]), 0.1);
    optimizer.parameters_mut()[0] = Single(10.0);
    optimizer.step(&singles(&[2.0, 0.0]));
    let (mut m, mut v) = (0.0, 0.0);
    let expected = literal_step(10.0, 2.0, &mut m, &mut v, 1.0, 0.1, 0.9, 0.999, 1e-8);
    assert_eq!(values(optimizer.parameters()), vec![expected, 2.0]);
}

#[test]
fn adam_into_parameters_gives_what_parameters_showed() {
    let mut optimizer = Adam::new(singles(&[3.0, 1.0, 4.0]), 0.125);
    for _ in 0..7 {
        let gradients: Vec<f64> = optimizer.parameters().iter().map(|p| 2.0 * p.0 - 1.0).collect();
        optimizer.step(&singles(&gradients));
    }
    let seen = values(optimizer.parameters());
    let taken = values(&optimizer.into_parameters());
    assert_eq!(taken, seen);
}

#[test]
fn adam_in_single_precision() {
    let mut optimizer = Adam::new(Single(1.0_f32), 0.1);
    optimizer.step(&Single(2.0));
    let m = (1.0_f32 - 0.9) * 2.0;
    let v = (1.0_f32 - 0.999) * 2.0 * 2.0;
    let alpha = 0.1_f32 / (1.0 - 0.9_f32.powf(1.0));
    let expected = 1.0_f32 - alpha * m / (v.sqrt() / (1.0 - 0.999_f32.powf(1.0)).sqrt() + 1e-8);
    assert_eq!(optimizer.into_parameters().0, expected);
}

/// Adam as the reference optimizers write it.
struct ReferenceAdam {
    parameters: Vec<f64>,
    exp_avg: Vec<f64>,
    exp_avg_sq: Vec<f64>,
    step: i32,
    lr: f64,
    beta1: f64,
    beta2: f64,
    eps: f64,
}

impl ReferenceAdam {
    fn new(parameters: Vec<f64>, lr: f64, beta1: f64, beta2: f64, eps: f64) -> ReferenceAdam {
        let n = parameters.len();
        ReferenceAdam {
            parameters,
            exp_avg: vec![0.0; n],
            exp_avg_sq: vec![0.0; n],
            step: 0,
            lr,
            beta1,
            beta2,
            eps,
        }
    }

    fn step(&mut self, grad: &[f64]) {
        self.step += 1;
        let bias_correction1 = 1.0 - self.beta1.powi(self.step);
        let bias_correction2 = 1.0 - self.beta2.powi(self.step);
        let step_size = self.lr / bias_correction1;
        for i in 0..self.parameters.len() {
            self.exp_avg[i] = self.exp_avg[i] * self.beta1 + (1.0 - self.beta1) * grad[i];
            self.exp_avg_sq[i] =
                self.exp_avg_sq[i] * self.beta2 + (1.0 - self.beta2) * (grad[i] * grad[i]);
            let denom = self.exp_avg_sq[i].sqrt() / bias_correction2.sqrt() + self.eps;
            self.parameters[i] += -step_size * (self.exp_avg[i] / denom);
        }
    }
}

fn compare_optimizers(
    mut my: impl Optimizer<Para = Vec<Single<f64>>>,
    mut reference: ReferenceAdam,
) -> bool {
    for _ in 0..1000 {
        // the loss is the sum of x * (x - 1) over the reference's parameters
        let grad: Vec<f64> = reference.parameters.iter().map(|x| 2.0 * x - 1.0).collect();
        my.step(&singles(&grad));
        reference.step(&grad);
    }

    let my_final = values(&my.into_parameters());
    my_final.iter().zip(reference.parameters.iter()).all(|(x, y)| (x - y).abs() < 1e-12)
}

#[test]
fn adam_pytorch_compare() {
    let init = vec![3.0, 1.0, 4.0, 1.0, 5.0];

    let optimizer = Adam::new(singles(&init), 0.005);

    let reference = ReferenceAdam::new(init, 0.005, 0.9, 0.999, 1e-8);

    assert!(compare_optimizers(optimizer, reference));
}

#[test]
fn builder() {
    let init = vec![3.0, 1.0, 4.0, 1.0, 5.0];

    let optimizer = Adam::builder(singles(&init)).learning_rate(0.005).build();

    let reference = ReferenceAdam::new(init, 0.005, 0.9, 0.999, 1e-8);

    assert!(compare_optimizers(optimizer, reference));
}
