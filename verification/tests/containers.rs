use stochastic_optimizers::{AdaGrad, Adam, Optimizer, Parameters, Single, SGD};

fn singles(values: &[f64]) -> Vec<Single<f64>> {
    values.iter().map(|x| Single(*x)).collect()
}

#[test]
fn zeros_of_a_single_scalar_is_zero() {
    let z = Single(7.5_f64).zeros();
    assert_eq!(z.0, 0.0);
    assert!(z.0.is_sign_positive());
}

#[test]
fn zeros_of_a_vector_keeps_the_length() {
    let v = singles(&[1.0, -2.0, 3.0]);
    let z = v.zeros();
    assert_eq!(z, singles(&[0.0, 0.0, 0.0]));
    assert_eq!(v, singles(&[1.0, -2.0, 3.0]));
}

#[test]
fn zeros_of_an_empty_vector_is_empty() {
    let v: Vec<Single<f64>> = Vec::new();
    assert_eq!(v.zeros().len(), 0);
}

#[test]
fn zeros_of_an_array_keeps_the_length() {
    let a = [Single(1.0_f32), Single(2.0), Single(3.0), Single(4.0)];
    let z = a.zeros();
    assert_eq!(z, [Single(0.0_f32); 4]);
}

#[test]
fn zeros_of_a_ragged_nesting_keeps_every_length() {
    let v = vec![singles(&[1.0, 2.0]), singles(&[]), singles(&[3.0])];
    let z = v.zeros();
    assert_eq!(z, vec![singles(&[0.0, 0.0]), singles(&[]), singles(&[0.0])]);
}

#[test]
fn zip2_on_a_single_scalar_applies_the_function_once() {
    let mut s = Single(2.0_f64);
    s.zip2_mut_with(&Single(3.0), &Single(5.0), |s, a, b| s * 100.0 + a * 10.0 + b);
    assert_eq!(s.0, 235.0);
}

#[test]
fn zip2_on_a_vector_visits_matching_positions() {
    let mut v = singles(&[1.0, 2.0, 3.0]);
    let a = singles(&[10.0, 20.0, 30.0]);
    let b = singles(&[100.0, 200.0, 300.0]);
    v.zip2_mut_with(&a, &b, |s, a, b| s + a + b);
    assert_eq!(v, singles(&[111.0, 222.0, 333.0]));
    assert_eq!(a, singles(&[10.0, 20.0, 30.0]));
    assert_eq!(b, singles(&[100.0, 200.0, 300.0]));
}

#[test]
fn zip2_on_an_array_visits_matching_positions() {
    let mut v = [Single(1.0_f64), Single(2.0)];
    let a = [Single(10.0), Single(20.0)];
    let b = [Single(100.0), Single(200.0)];
    v.zip2_mut_with(&a, &b, |s, a, b| s - a * b);
    assert_eq!(v, [Single(-999.0), Single(-3998.0)]);
}

#[test]
fn zip2_on_a_nesting_visits_matching_positions() {
    let mut v = vec![[Single(1.0_f64), Single(2.0)], [Single(3.0), Single(4.0)]];
    let a = vec![[Single(10.0), Single(20.0)], [Single(30.0), Single(40.0)]];
    let b = vec![[Single(0.5), Single(0.25)], [Single(2.0), Single(4.0)]];
    v.zip2_mut_with(&a, &b, |s, a, b| (s + a) * b);
    assert_eq!(v, vec![[Single(5.5), Single(5.5)], [Single(66.0), Single(176.0)]]);
}

#[test]
fn zip2_on_a_ragged_nesting_visits_matching_positions() {
    let mut v = vec![singles(&[1.0]), singles(&[]), singles(&[2.0, 3.0])];
    let a = vec![singles(&[10.0]), singles(&[]), singles(&[20.0, 30.0])];
    v.zip2_mut_with(&a, &a, |s, a, b| s + a + b);
    assert_eq!(v, vec![singles(&[21.0]), singles(&[]), singles(&[42.0, 63.0])]);
}

#[test]
fn zip_ignores_nothing_but_the_second_argument() {
    let mut v = singles(&[1.0, 2.0, 3.0]);
    let a = singles(&[10.0, 20.0, 30.0]);
    v.zip_mut_with(&a, |s, a| a - s);
    assert_eq!(v, singles(&[9.0, 18.0, 27.0]));
}

#[test]
fn zip_on_an_empty_vector_does_nothing() {
    let mut v: Vec<Single<f64>> = Vec::new();
    let a: Vec<Single<f64>> = Vec::new();
    v.zip_mut_with(&a, |s, a| s + a);
    assert_eq!(v.len(), 0);
}

#[test]
fn the_same_content_in_three_shapes_moves_alike() {
    let content = [3.0, 1.0, 4.0, 1.0, 5.0, 9.0];
    let mut array = SGD::new(
        [Single(3.0), Single(1.0), Single(4.0), Single(1.0), Single(5.0), Single(9.0)],
        0.01,
    );
    let mut vector = SGD::new(singles(&content), 0.01);
    let mut nested = SGD::new(
        vec![
            [Single(3.0), Single(1.0)],
            [Single(4.0), Single(1.0)],
            [Single(5.0), Single(9.0)],
        ],
        0.01,
    );
    for _ in 0..100 {
        let flat: Vec<f64> = vector.parameters().iter().map(|p| 2.0 * p.0 - 1.0).collect();
        let g_array = [
            Single(flat[0]),
            Single(flat[1]),
            Single(flat[2]),
            Single(flat[3]),
            Single(flat[4]),
            Single(flat[5]),
        ];
        let g_nested = vec![
            [Single(flat[0]), Single(flat[1])],
            [Single(flat[2]), Single(flat[3])],
            [Single(flat[4]), Single(flat[5])],
        ];
        array.step(&g_array);
        vector.step(&singles(&flat));
        nested.step(&g_nested);

        let seen: Vec<f64> = vector.parameters().iter().map(|p| p.0).collect();
        let in_array: Vec<f64> = array.parameters().iter().map(|p| p.0).collect();
        let in_nested: Vec<f64> =
            nested.parameters().iter().flat_map(|row| row.iter().map(|p| p.0)).collect();
        assert_eq!(in_array, seen);
        assert_eq!(in_nested, seen);
    }
}

fn run_in_three_shapes<A, V, N>(mut array: A, mut vector: V, mut nested: N)
where
    A: Optimizer<Para = [Single<f64>; 4]>,
    V: Optimizer<Para = Vec<Single<f64>>>,
    N: Optimizer<Para = Vec<[Single<f64>; 2]>>,
{
    for _ in 0..200 {
        let flat: Vec<f64> = vector.parameters().iter().map(|p| 2.0 * p.0 - 8.0).collect();
        array.step(&[Single(flat[0]), Single(flat[1]), Single(flat[2]), Single(flat[3])]);
        vector.step(&singles(&flat));
        nested.step(&vec![[Single(flat[0]), Single(flat[1])], [Single(flat[2]), Single(flat[3])]]);

        let seen: Vec<f64> = vector.parameters().iter().map(|p| p.0).collect();
        let in_array: Vec<f64> = array.parameters().iter().map(|p| p.0).collect();
        let in_nested: Vec<f64> =
            nested.parameters().iter().flat_map(|row| row.iter().map(|p| p.0)).collect();
        assert_eq!(in_array, seen);
        assert_eq!(in_nested, seen);
    }
}

#[test]
fn adam_moves_the_same_content_alike_in_three_shapes() {
    run_in_three_shapes(
        Adam::new([Single(-3.0), Single(0.5), Single(4.0), Single(100.0)], 0.1),
        Adam::new(singles(&[-3.0, 0.5, 4.0, 100.0]), 0.1),
        Adam::new(vec![[Single(-3.0), Single(0.5)], [Single(4.0), Single(100.0)]], 0.1),
    );
}

#[test]
fn adagrad_moves_the_same_content_alike_in_three_shapes() {
    run_in_three_shapes(
        AdaGrad::new([Single(-3.0), Single(0.5), Single(4.0), Single(100.0)], 0.5),
        AdaGrad::new(singles(&[-3.0, 0.5, 4.0, 100.0]), 0.5),
        AdaGrad::new(vec![[Single(-3.0), Single(0.5)], [Single(4.0), Single(100.0)]], 0.5),
    );
}
