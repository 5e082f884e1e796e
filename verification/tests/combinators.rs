use databending::combine::{
    add_streams, average_streams, divide_streams, mod_streams, multiply_streams, stack_streams,
    subtract_streams,
};
use databending::stream::{Stream, StreamError};

fn bits(xs: &[f64]) -> Vec<u64> {
    xs.iter().map(|x| x.to_bits()).collect()
}

fn vals(b: &[u64]) -> Vec<f64> {
    b.iter().map(|x| f64::from_bits(*x)).collect()
}

fn stream_of(xs: &[f64]) -> Stream {
    Stream::new(bits(xs), 1, 1)
}

#[test]
fn add_sums_pointwise() {
    let a = stream_of(&[1.0, 2.0, 3.0]);
    let b = stream_of(&[10.0, 20.0, 30.0]);
    let c = stream_of(&[0.5, 0.5, 0.5]);
    let out = add_streams(vec![&a, &b, &c]).unwrap();
    assert_eq!(vals(&out.buffer()), vec![11.5, 22.5, 33.5]);
}

#[test]
fn add_is_commutative_over_list_order() {
    let a = stream_of(&[0.1, -2.75, 3.5]);
    let b = stream_of(&[1.25, 0.5, -0.125]);
    let x = add_streams(vec![&a, &b]).unwrap();
    let y = add_streams(vec![&b, &a]).unwrap();
    assert_eq!(x.buffer(), y.buffer());
}

#[test]
fn add_fold_order_agrees_up_to_tolerance() {
    let a = stream_of(&[0.1, 0.2, 0.3]);
    let b = stream_of(&[1e-9, 2e-9, 3e-9]);
    let c = stream_of(&[7.5, -2.25, 0.875]);
    let x = vals(&add_streams(vec![&a, &b, &c]).unwrap().buffer());
    let y = vals(&add_streams(vec![&a, &c, &b]).unwrap().buffer());
    for i in 0..3 {
        assert!((x[i] - y[i]).abs() < 1e-12);
    }
}

#[test]
fn multiply_is_commutative_over_list_order() {
    let a = stream_of(&[0.1, -2.75, 3.5]);
    let b = stream_of(&[1.25, 0.5, -0.125]);
    let x = multiply_streams(vec![&a, &b]).unwrap();
    let y = multiply_streams(vec![&b, &a]).unwrap();
    assert_eq!(x.buffer(), y.buffer());
}

#[test]
fn multiply_fold_order_agrees_up_to_tolerance() {
    let a = stream_of(&[0.1, 0.2, 0.3]);
    let b = stream_of(&[3.7, -1.1, 0.9]);
    let c = stream_of(&[7.5, -2.25, 0.875]);
    let x = vals(&multiply_streams(vec![&a, &b, &c]).unwrap().buffer());
    let y = vals(&multiply_streams(vec![&a, &c, &b]).unwrap().buffer());
    for i in 0..3 {
        assert!((x[i] - y[i]).abs() < 1e-12);
    }
}

#[test]
fn subtract_takes_each_contributor_off() {
    let a = stream_of(&[10.0, 10.0]);
    let b = stream_of(&[1.0, 2.0]);
    let c = stream_of(&[0.5, 1.5]);
    let out = subtract_streams(vec![&a, &b, &c]).unwrap();
    assert_eq!(vals(&out.buffer()), vec![8.5, 6.5]);
}

#[test]
fn divide_skips_zero_contributors() {
    let a = stream_of(&[6.0, 8.0]);
    let b = stream_of(&[2.0, 0.0]);
    let out = divide_streams(vec![&a, &b]).unwrap();
    assert_eq!(vals(&out.buffer()), vec![3.0, 8.0]);
}

#[test]
fn divide_skips_negative_zero_too() {
    let a = stream_of(&[6.0, 8.0]);
    let b = stream_of(&[-0.0, 4.0]);
    let out = divide_streams(vec![&a, &b]).unwrap();
    assert_eq!(vals(&out.buffer()), vec![6.0, 2.0]);
}

#[test]
fn modulo_skips_zero_contributors() {
    let a = stream_of(&[7.0, 5.0]);
    let b = stream_of(&[4.0, 0.0]);
    let out = mod_streams(vec![&a, &b]).unwrap();
    assert_eq!(vals(&out.buffer()), vec![3.0, 5.0]);
}

#[test]
fn modulo_keeps_dividend_sign_like_native_rem() {
    let a = stream_of(&[-7.0, 7.0]);
    let b = stream_of(&[4.0, -4.0]);
    let out = vals(&mod_streams(vec![&a, &b]).unwrap().buffer());
    assert_eq!(out, vec![-7.0 % 4.0, 7.0 % -4.0]);
}

#[test]
fn stack_takes_last_positive_contributor() {
    let a = stream_of(&[1.0, -1.0, 0.5]);
    let b = stream_of(&[0.0, 2.0, -3.0]);
    let c = stream_of(&[5.0, -1.0, 0.0]);
    let out = stack_streams(vec![&a, &b, &c]).unwrap();
    assert_eq!(vals(&out.buffer()), vec![5.0, 2.0, 0.5]);
}

#[test]
fn average_of_single_stream_is_identity() {
    let a = stream_of(&[0.25, -3.5, 0.0, 17.125]);
    let out = average_streams(vec![&a]).unwrap();
    assert_eq!(out.buffer(), a.buffer());
}

#[test]
fn average_divides_sum_by_count() {
    let a = stream_of(&[1.0, 2.0]);
    let b = stream_of(&[3.0, 6.0]);
    let out = average_streams(vec![&a, &b]).unwrap();
    assert_eq!(vals(&out.buffer()), vec![2.0, 4.0]);
}

#[test]
fn combinators_reject_empty_list() {
    assert_eq!(add_streams(vec![]).unwrap_err(), StreamError::EmptyList);
    assert_eq!(average_streams(vec![]).unwrap_err(), StreamError::EmptyList);
    assert_eq!(stack_streams(vec![]).unwrap_err(), StreamError::EmptyList);
}

#[test]
fn combinators_reject_unequal_lengths() {
    let a = stream_of(&[1.0, 2.0, 3.0]);
    let b = stream_of(&[1.0, 2.0]);
    let e = add_streams(vec![&a, &b]).unwrap_err();
    assert_eq!(e, StreamError::LengthMismatch { expected: 3, found: 2 });
    let e = divide_streams(vec![&a, &b]).unwrap_err();
    assert_eq!(e, StreamError::LengthMismatch { expected: 3, found: 2 });
}

#[test]
fn result_carries_first_dimensions() {
    let a = Stream::new(bits(&[1.0, 2.0]), 2, 1);
    let b = Stream::new(bits(&[3.0, 4.0]), 9, 9);
    let out = add_streams(vec![&a, &b]).unwrap();
    assert_eq!(out.width, 2);
    assert_eq!(out.height, 1);
}
