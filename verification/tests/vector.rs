use softmax_regression::arithmetic::{Arithmetic, Primitives};
use softmax_regression::binary32::Binary32;
use softmax_regression::failure::Failure;
use softmax_regression::types::vector::Vector;

fn dec(x: Binary32) -> f32 {
    f32::from_bits(x)
}

fn enc(x: f32) -> Binary32 {
    x.to_bits()
}

fn host() -> impl Arithmetic {
    Primitives::new(
        |a: Binary32, b: Binary32| enc(dec(a) + dec(b)),
        |a: Binary32, b: Binary32| enc(dec(a) - dec(b)),
        |a: Binary32, b: Binary32| enc(dec(a) * dec(b)),
        |a: Binary32, b: Binary32| enc(dec(a) / dec(b)),
        |a: Binary32| enc(dec(a).exp()),
        |a: Binary32| enc(dec(a).ln()),
        |n: usize| enc(n as f32),
    )
}

fn vector(xs: &[f32]) -> Vector {
    Vector::new(Some(xs.iter().map(|&x| enc(x)).collect()), None).unwrap()
}

fn floats(v: &Vector) -> Vec<f32> {
    v.to_vec().iter().map(|&b| dec(b)).collect()
}

#[test]
fn new_from_data() {
    let v = Vector::new(Some(vec![enc(1.0), enc(2.0), enc(3.0)]), None).unwrap();
    assert_eq!(v.len(), 3);
    assert_eq!(floats(&v), vec![1.0, 2.0, 3.0]);
}

#[test]
fn new_from_size_is_zero_filled() {
    let v = Vector::new(None, Some(4)).unwrap();
    assert_eq!(v.len(), 4);
    assert_eq!(v.to_vec(), &vec![0u32, 0, 0, 0]);
}

#[test]
fn new_from_data_and_matching_size() {
    let v = Vector::new(Some(vec![enc(1.0), enc(2.0)]), Some(2)).unwrap();
    assert_eq!(floats(&v), vec![1.0, 2.0]);
}

#[test]
fn new_with_neither_fails() {
    assert_eq!(Vector::new(None, None).err(), Some(Failure::ConstructionError));
}

#[test]
fn new_with_mismatched_size_fails() {
    assert_eq!(
        Vector::new(Some(vec![enc(1.0), enc(2.0)]), Some(3)).err(),
        Some(Failure::ConstructionError)
    );
    assert_eq!(Vector::new(Some(vec![enc(1.0)]), Some(0)).err(), Some(Failure::ConstructionError));
}

#[test]
fn new_of_size_zero() {
    let v = Vector::new(None, Some(0)).unwrap();
    assert_eq!(v.len(), 0);
    let w = Vector::new(Some(vec![]), None).unwrap();
    assert_eq!(w.len(), 0);
}

#[test]
fn is_empty_is_always_false() {
    assert!(!vector(&[1.0]).is_empty());
    assert!(!Vector::new(None, Some(0)).unwrap().is_empty());
}

#[test]
fn get_and_set() {
    let mut v = vector(&[1.0, 2.0, 3.0]);
    assert_eq!(v.get(0), Ok(enc(1.0)));
    assert_eq!(v.get(2), Ok(enc(3.0)));
    assert_eq!(v.set(1, enc(9.5)), Ok(()));
    assert_eq!(floats(&v), vec![1.0, 9.5, 3.0]);
}

#[test]
fn get_and_set_out_of_range() {
    let mut v = vector(&[1.0, 2.0, 3.0]);
    assert_eq!(v.get(3), Err(Failure::IndexOutOfRange));
    assert_eq!(v.set(3, enc(1.0)), Err(Failure::IndexOutOfRange));
    assert_eq!(v.set(usize::MAX, enc(1.0)), Err(Failure::IndexOutOfRange));
    assert_eq!(floats(&v), vec![1.0, 2.0, 3.0]);
}

#[test]
fn elementwise_operations() {
    let ops = host();
    let a = vector(&[1.0, 2.0, 3.0]);
    let b = vector(&[4.0, 0.5, -3.0]);
    assert_eq!(floats(&a.add(&b, &ops).unwrap()), vec![5.0, 2.5, 0.0]);
    assert_eq!(floats(&a.subtract(&b, &ops).unwrap()), vec![-3.0, 1.5, 6.0]);
    assert_eq!(floats(&a.multiply(&b, &ops).unwrap()), vec![4.0, 1.0, -9.0]);
    assert_eq!(floats(&a.divide(&b, &ops).unwrap()), vec![0.25, 4.0, -1.0]);
    assert_eq!(floats(&a), vec![1.0, 2.0, 3.0]);
    assert_eq!(floats(&b), vec![4.0, 0.5, -3.0]);
}

#[test]
fn operands_keep_their_sides() {
    let ops = host();
    let a = vector(&[8.0]);
    let b = vector(&[2.0]);
    assert_eq!(floats(&a.subtract(&b, &ops).unwrap()), vec![6.0]);
    assert_eq!(floats(&b.subtract(&a, &ops).unwrap()), vec![-6.0]);
    assert_eq!(floats(&a.divide(&b, &ops).unwrap()), vec![4.0]);
    assert_eq!(floats(&b.divide(&a, &ops).unwrap()), vec![0.25]);
    assert_eq!(floats(&a.subtract_scalar(enc(2.0), &ops)), vec![6.0]);
    assert_eq!(floats(&a.divide_scalar(enc(2.0), &ops)), vec![4.0]);
}

#[test]
fn scalar_operations() {
    let ops = host();
    let a = vector(&[1.0, 2.0, -3.0]);
    assert_eq!(floats(&a.add_scalar(enc(0.5), &ops)), vec![1.5, 2.5, -2.5]);
    assert_eq!(floats(&a.subtract_scalar(enc(0.5), &ops)), vec![0.5, 1.5, -3.5]);
    assert_eq!(floats(&a.multiply_scalar(enc(2.0), &ops)), vec![2.0, 4.0, -6.0]);
    assert_eq!(floats(&a.divide_scalar(enc(2.0), &ops)), vec![0.5, 1.0, -1.5]);
}

#[test]
fn division_by_zero_is_no_failure() {
    let ops = host();
    let a = vector(&[1.0, -1.0, 0.0]);
    let z = vector(&[0.0, 0.0, 0.0]);
    let q = floats(&a.divide(&z, &ops).unwrap());
    assert_eq!(q[0], f32::INFINITY);
    assert_eq!(q[1], f32::NEG_INFINITY);
    assert!(q[2].is_nan());
    let s = floats(&a.divide_scalar(enc(0.0), &ops));
    assert_eq!(s[0], f32::INFINITY);
}

#[test]
fn mismatched_sizes_fail_with_shape_mismatch() {
    let ops = host();
    let a = vector(&[1.0, 2.0, 3.0]);
    let b = vector(&[1.0, 2.0]);
    assert_eq!(a.add(&b, &ops).err(), Some(Failure::ShapeMismatch));
    assert_eq!(a.subtract(&b, &ops).err(), Some(Failure::ShapeMismatch));
    assert_eq!(a.multiply(&b, &ops).err(), Some(Failure::ShapeMismatch));
    assert_eq!(a.divide(&b, &ops).err(), Some(Failure::ShapeMismatch));
    assert_eq!(a.dot(&b, &ops), Err(Failure::ShapeMismatch));
    assert_eq!(b.add(&a, &ops).err(), Some(Failure::ShapeMismatch));
    assert_eq!(b.dot(&a, &ops), Err(Failure::ShapeMismatch));
    let e = Vector::new(None, Some(0)).unwrap();
    assert_eq!(a.add(&e, &ops).err(), Some(Failure::ShapeMismatch));
    assert_eq!(e.dot(&a, &ops), Err(Failure::ShapeMismatch));
}

#[test]
fn add_then_subtract_gives_the_first_operand_back() {
    let ops = host();
    let a = vector(&[1.0, -2.5, 3.25, 1e-3, 100.0, 0.0]);
    let b = vector(&[0.5, 4.0, -3.25, 7.0, 1e-3, -9.0]);
    let back = a.add(&b, &ops).unwrap().subtract(&b, &ops).unwrap();
    assert_eq!(back.len(), a.len());
    for (x, y) in floats(&back).iter().zip(floats(&a).iter()) {
        assert!((x - y).abs() <= 1e-5, "{} against {}", x, y);
    }
}

#[test]
fn dot_product() {
    let ops = host();
    let a = vector(&[1.0, 2.0, 3.0]);
    let b = vector(&[4.0, -5.0, 6.0]);
    assert_eq!(a.dot(&b, &ops), Ok(enc(12.0)));
    let e = Vector::new(None, Some(0)).unwrap();
    let f = Vector::new(None, Some(0)).unwrap();
    assert_eq!(e.dot(&f, &ops), Ok(enc(0.0)));
}

#[test]
fn dot_adds_from_the_front() {
    let ops = host();
    let a = vector(&[1e8, 1.0, -1e8]);
    let b = vector(&[1.0, 1.0, 1.0]);
    let want = ((0.0f32 + 1e8 * 1.0) + 1.0 * 1.0) + -1e8 * 1.0;
    assert_eq!(a.dot(&b, &ops), Ok(enc(want)));
    assert_eq!(want, 0.0);
}

#[test]
fn sum_adds_from_the_front() {
    let ops = host();
    assert_eq!(dec(vector(&[1.0, 2.0, 3.5]).sum(&ops)), 6.5);
    assert_eq!(dec(vector(&[1e8, 1.0, -1e8]).sum(&ops)), 0.0);
    assert_eq!(dec(vector(&[1e8, -1e8, 1.0]).sum(&ops)), 1.0);
    assert_eq!(Vector::new(None, Some(0)).unwrap().sum(&ops), enc(0.0));
}

#[test]
fn exp_of_each_element() {
    let ops = host();
    let v = vector(&[0.0, 1.0, -1.0]);
    let e = floats(&v.exp(&ops));
    assert_eq!(e, vec![0.0f32.exp(), 1.0f32.exp(), (-1.0f32).exp()]);
    assert_eq!(e[0], 1.0);
}

#[test]
fn argmax_takes_the_first_of_equal_maxima() {
    assert_eq!(vector(&[0.2, 0.5, 0.5, 0.1]).argmax(), 1);
}

#[test]
fn argmax_examples() {
    assert_eq!(vector(&[3.0]).argmax(), 0);
    assert_eq!(vector(&[1.0, 2.0, 3.0]).argmax(), 2);
    assert_eq!(vector(&[3.0, 2.0, 1.0]).argmax(), 0);
    assert_eq!(vector(&[-3.0, -2.0, -5.0]).argmax(), 1);
    assert_eq!(vector(&[0.0, -0.0]).argmax(), 0);
    assert_eq!(vector(&[-0.0, 0.0]).argmax(), 0);
    assert_eq!(vector(&[1.0, f32::INFINITY, 2.0]).argmax(), 1);
    assert_eq!(vector(&[f32::NEG_INFINITY, f32::NEG_INFINITY]).argmax(), 0);
}

#[test]
fn argmax_with_nan() {
    assert_eq!(vector(&[f32::NAN, 5.0, 7.0]).argmax(), 0);
    assert_eq!(vector(&[1.0, f32::NAN, 7.0]).argmax(), 2);
    assert_eq!(vector(&[7.0, f32::NAN, 1.0]).argmax(), 0);
}

#[test]
fn argmax_agrees_with_a_scan_by_the_machine() {
    let cases: Vec<Vec<f32>> = vec![
        vec![0.1, 0.9, 0.3, 0.9],
        vec![-1.0, -1.0, -1.0],
        vec![1e-45, 0.0, -1e-45],
        vec![f32::MAX, f32::INFINITY, f32::MAX],
        vec![2.0, 1.0, 2.0000002, 2.0],
    ];
    for case in cases.iter() {
        let mut best = 0;
        for (i, &x) in case.iter().enumerate() {
            if x > case[best] {
                best = i;
            }
        }
        assert_eq!(vector(case).argmax(), best);
    }
}
