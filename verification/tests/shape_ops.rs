use databending::stream::{Stream, StreamError};

fn bits(xs: &[f64]) -> Vec<u64> {
    xs.iter().map(|x| x.to_bits()).collect()
}

fn vals(b: &[u64]) -> Vec<f64> {
    b.iter().map(|x| f64::from_bits(*x)).collect()
}

fn stream_of(xs: &[f64]) -> Stream {
    Stream::new(bits(xs), 1, 1)
}

#[test]
fn new_wraps_buffer_and_dimensions() {
    let s = Stream::new(bits(&[1.0, 2.0]), 7, 9);
    assert_eq!(s.width, 7);
    assert_eq!(s.height, 9);
    assert_eq!(s.len(), 2);
    assert_eq!(vals(&s.buffer()), vec![1.0, 2.0]);
}

#[test]
fn from_bytes_divides_by_255() {
    let bytes: Vec<u8> = vec![0, 128, 255];
    let s = Stream::from_bytes(&bytes, 3, 1);
    assert_eq!(vals(&s.buffer()), vec![0.0, 128.0 / 255.0, 1.0]);
}

#[test]
fn to_bytes_truncates_and_saturates() {
    let s = stream_of(&[0.0, 0.5, 1.0, 2.0, -1.0, f64::NAN]);
    assert_eq!(s.to_bytes(), vec![0, 127, 255, 255, 0, 0]);
}

#[test]
fn bytes_agree_with_native_cast() {
    let samples = [0.003, 0.37, 0.9999, 1.0001, -0.2, 255.0];
    let s = stream_of(&samples);
    let expected: Vec<u8> = samples.iter().map(|x| (x * 255.0) as u8).collect();
    assert_eq!(s.to_bytes(), expected);
}

#[test]
fn resize_truncates() {
    let s = stream_of(&[1.0, 2.0, 3.0]).resize(2);
    assert_eq!(vals(&s.buffer()), vec![1.0, 2.0]);
}

#[test]
fn resize_pads_with_zero() {
    let s = stream_of(&[1.0, 2.0, 3.0]).resize(5);
    assert_eq!(vals(&s.buffer()), vec![1.0, 2.0, 3.0, 0.0, 0.0]);
}

#[test]
fn clamp_clips_into_range() {
    let s = stream_of(&[-1.0, 0.5, 2.0]).clamp(0.0f64.to_bits(), 1.0f64.to_bits());
    assert_eq!(vals(&s.buffer()), vec![0.0, 0.5, 1.0]);
}

#[test]
fn absolute_matches_native_abs() {
    let samples = [-1.5, 2.0, -0.0, 0.25, f64::NEG_INFINITY];
    let s = stream_of(&samples).absolute();
    let expected: Vec<u64> = samples.iter().map(|x| x.abs().to_bits()).collect();
    assert_eq!(s.buffer(), expected);
}

#[test]
fn normalize_divides_by_maximum() {
    let s = stream_of(&[2.0, 4.0, -8.0]).normalize();
    assert_eq!(vals(&s.buffer()), vec![0.5, 1.0, -2.0]);
}

#[test]
fn normalize_of_non_positive_buffer_divides_by_zero() {
    let s = stream_of(&[-1.0, -2.0]).normalize();
    let out = vals(&s.buffer());
    assert!(out[0].is_infinite() && out[0] < 0.0);
    assert!(out[1].is_infinite() && out[1] < 0.0);
}

#[test]
fn substream_masks_outside_range() {
    let s = stream_of(&[1.0, 2.0, 3.0, 4.0, 5.0]);
    let masked = s.substream(1, 3).unwrap();
    assert_eq!(vals(&masked.buffer()), vec![0.0, 2.0, 3.0, 0.0, 0.0]);
    assert_eq!(masked.width, s.width);
    assert_eq!(masked.height, s.height);
}

#[test]
fn substream_rejects_range_past_end() {
    let s = stream_of(&[1.0, 2.0, 3.0]);
    let e = s.substream(2, 5).unwrap_err();
    assert_eq!(e, StreamError::RangeOutOfBounds { start: 2, end: 5, len: 3 });
}

#[test]
fn substream_accepts_empty_range() {
    let s = stream_of(&[1.0, 2.0, 3.0]);
    let masked = s.substream(4, 4).unwrap();
    assert_eq!(vals(&masked.buffer()), vec![0.0, 0.0, 0.0]);
}
