use databending::effects::{delay, detect_edges, rand_in_range, reverb, rotate_array};
use databending::stream::{Stream, StreamError};

fn bits(xs: &[f64]) -> Vec<u64> {
    xs.iter().map(|x| x.to_bits()).collect()
}

fn vals(b: &[u64]) -> Vec<f64> {
    b.iter().map(|x| f64::from_bits(*x)).collect()
}

fn stream_of(xs: &[f64]) -> Stream {
    Stream::new(bits(xs), 1, 1)
}

#[test]
fn delay_echoes_with_trailing_passthrough() {
    let s = stream_of(&[1.0, 2.0, 3.0, 4.0, 5.0]);
    let out = delay(&s, 1, 0.5f64.to_bits()).unwrap();
    assert_eq!(vals(&out.buffer()), vec![2.5, 4.0, 5.5, 4.0, 5.0]);
}

#[test]
fn delay_rejects_offset_at_length() {
    let s = stream_of(&[1.0, 2.0, 3.0]);
    let e = delay(&s, 3, 0.5f64.to_bits()).unwrap_err();
    assert_eq!(e, StreamError::OffsetOutOfRange { offset: 3, len: 3 });
}

#[test]
fn delay_with_zero_decay_shifts_the_head() {
    let s = stream_of(&[1.0, 2.0, 3.0, 4.0]);
    let out = delay(&s, 1, 0.0f64.to_bits()).unwrap();
    assert_eq!(vals(&out.buffer()), vec![2.0, 3.0, 3.0, 4.0]);
}

#[test]
fn reverb_composes_scaled_delays() {
    let s = stream_of(&[1.0, 2.0, 3.0, 4.0, 5.0]);
    let out = reverb(&s, 1, 0.5f64.to_bits(), 2).unwrap();
    assert_eq!(vals(&out.buffer()), vec![2.5, 4.0, 5.5, 4.0, 5.0]);
}

#[test]
fn reverb_with_no_iterations_is_identity() {
    let s = stream_of(&[1.0, 2.0, 3.0]);
    let out = reverb(&s, 2, 0.5f64.to_bits(), 0).unwrap();
    assert_eq!(out.buffer(), s.buffer());
}

#[test]
fn reverb_rejects_pass_reaching_past_end() {
    let s = stream_of(&[1.0, 2.0, 3.0, 4.0, 5.0]);
    let e = reverb(&s, 3, 0.5f64.to_bits(), 3).unwrap_err();
    assert_eq!(e, StreamError::OffsetOutOfRange { offset: 6, len: 5 });
}

#[test]
fn rotate_shifts_circularly() {
    let s = stream_of(&[1.0, 2.0, 3.0, 4.0]);
    let out = rotate_array(&s, 2);
    assert_eq!(vals(&out.buffer()), vec![3.0, 4.0, 1.0, 2.0]);
}

#[test]
fn rotate_by_zero_is_identity() {
    let s = stream_of(&[1.0, 2.0, 3.0]);
    assert_eq!(rotate_array(&s, 0).buffer(), s.buffer());
}

#[test]
fn rotate_by_length_is_identity() {
    let s = stream_of(&[1.0, 2.0, 3.0]);
    assert_eq!(rotate_array(&s, 3).buffer(), s.buffer());
}

#[test]
fn rotate_is_inverted_by_the_complement() {
    let s = stream_of(&[1.0, 2.0, 3.0, 4.0, 5.0]);
    for k in 0..5 {
        let out = rotate_array(&rotate_array(&s, k), 5 - k);
        assert_eq!(out.buffer(), s.buffer());
    }
}

#[test]
fn detect_edges_marks_large_steps_and_keeps_last() {
    let s = stream_of(&[0.1, 0.9, 0.9, 0.2]);
    let out = detect_edges(&s, 0.3f64.to_bits()).unwrap();
    assert_eq!(vals(&out.buffer()), vec![1.0, 0.0, 1.0, 0.2]);
}

#[test]
fn detect_edges_of_single_sample_keeps_it() {
    let s = stream_of(&[0.7]);
    let out = detect_edges(&s, 0.3f64.to_bits()).unwrap();
    assert_eq!(vals(&out.buffer()), vec![0.7]);
}

#[test]
fn detect_edges_rejects_empty_buffer() {
    let s = stream_of(&[]);
    let e = detect_edges(&s, 0.3f64.to_bits()).unwrap_err();
    assert_eq!(e, StreamError::EmptyBuffer);
}

#[test]
fn displacement_only_reuses_input_samples() {
    let input = [1.0, 2.0, 3.0, 4.0, 5.0, 6.0, 7.0, 8.0];
    let s = stream_of(&input);
    for _ in 0..20 {
        let out = vals(&rand_in_range(&s, 0..4).buffer());
        assert_eq!(out.len(), input.len());
        for x in &out {
            assert!(input.contains(x));
        }
    }
}

#[test]
fn displacement_forced_when_every_draw_displaces() {
    let s = stream_of(&[1.0, 2.0, 3.0, 4.0]);
    let out = vals(&rand_in_range(&s, 1..2).buffer());
    assert_eq!(out, vec![2.0, 3.0, 4.0, 4.0]);
}

#[test]
fn displacement_identity_when_no_draw_is_positive() {
    let s = stream_of(&[1.0, 2.0, 3.0, 4.0]);
    let out = rand_in_range(&s, -3..1);
    assert_eq!(out.buffer(), s.buffer());
}

#[test]
fn displacement_never_reaches_backwards() {
    let input = [10.0, 20.0, 30.0, 40.0];
    let s = stream_of(&input);
    for _ in 0..20 {
        let out = vals(&rand_in_range(&s, 0..3).buffer());
        for i in 0..input.len() {
            let from = input.iter().position(|x| *x == out[i]).unwrap();
            assert!(from >= i);
        }
    }
}
