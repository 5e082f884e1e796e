//! Elementwise combinators over lists of equal-length buffers.
//!
//! Every combinator folds a non-empty list left to right: the first buffer
//! is the accumulator and each later buffer contributes one sample per
//! position. The per-position rule is a spec closure over the sample
//! names, so each combinator's result is pinned exactly, skip rules
//! included: division and remainder leave the accumulator alone where the
//! contributor encodes zero, and stacking only ever overwrites with a
//! contributor ordered above zero.

use vstd::prelude::*;

use crate::sample::{
    add_bits, div_bits, gt_bits, is_zero_sample, mul_bits, rem_bits, sample_add, sample_div,
    sample_gt, sample_is_zero, sample_mul, sample_rem, sample_sub, sample_uint, sub_bits,
    uint_bits,
};
use crate::stream::{Stream, StreamError};

verus! {

/// The sample at position `i` after folding the contributors up to list
/// index `k` with the per-position rule `op`.
pub open spec fn fold_sample(
    streams: Seq<&Stream>,
    i: int,
    k: int,
    op: spec_fn(u64, u64) -> u64,
) -> u64
    decreases k,
{
    if k <= 0 {
        streams[0]@[i]
    } else {
        op(fold_sample(streams, i, k - 1, op), streams[k]@[i])
    }
}

/// Overwrite the accumulator only with a contributor ordered above zero.
pub open spec fn stack_op() -> spec_fn(u64, u64) -> u64 {
    |acc: u64, x: u64| if gt_bits(x, uint_bits(0)) {
        x
    } else {
        acc
    }
}

/// Add the contributor to the accumulator.
pub open spec fn add_op() -> spec_fn(u64, u64) -> u64 {
    |acc: u64, x: u64| add_bits(acc, x)
}

/// Subtract the contributor from the accumulator.
pub open spec fn sub_op() -> spec_fn(u64, u64) -> u64 {
    |acc: u64, x: u64| sub_bits(acc, x)
}

/// Multiply the accumulator by the contributor.
pub open spec fn mul_op() -> spec_fn(u64, u64) -> u64 {
    |acc: u64, x: u64| mul_bits(acc, x)
}

/// Divide the accumulator by the contributor, skipping zero contributors.
pub open spec fn div_op() -> spec_fn(u64, u64) -> u64 {
    |acc: u64, x: u64| if is_zero_sample(x) {
        acc
    } else {
        div_bits(acc, x)
    }
}

/// Take the accumulator's remainder by the contributor, skipping zero
/// contributors.
pub open spec fn rem_op() -> spec_fn(u64, u64) -> u64 {
    |acc: u64, x: u64| if is_zero_sample(x) {
        acc
    } else {
        rem_bits(acc, x)
    }
}

/// Every buffer in the list has the first buffer's length.
pub open spec fn all_same_len(streams: Seq<&Stream>) -> bool {
    forall|k: int| 0 <= k < streams.len() ==> (#[trigger] streams[k]@).len() == streams[0]@.len()
}

/// Why a combinator rejects a list: empty, or holding a buffer whose
/// length differs from the first buffer's (that length is reported).
pub open spec fn rejected(streams: Seq<&Stream>, e: StreamError) -> bool {
    if streams.len() == 0 {
        e == StreamError::EmptyList
    } else {
        &&& !all_same_len(streams)
        &&& exists|k: int|
            0 <= k < streams.len() && e == (StreamError::LengthMismatch {
                expected: streams[0]@.len() as usize,
                found: (#[trigger] streams[k]@).len() as usize,
            })
    }
}

/// What a combinator promises of its result: a list is accepted if and
/// only if it is non-empty and of one length, and the output buffer folds
/// the list at every position with the combinator's rule, carrying the
/// first buffer's dimensions.
pub open spec fn combined(
    streams: Seq<&Stream>,
    r: Result<Stream, StreamError>,
    op: spec_fn(u64, u64) -> u64,
) -> bool {
    match r {
        Ok(s) => {
            &&& streams.len() > 0
            &&& all_same_len(streams)
            &&& s@.len() == streams[0]@.len()
            &&& forall|i: int|
                0 <= i < s@.len() ==> s@[i] == fold_sample(streams, i, streams.len() - 1, op)
            &&& s.width == streams[0].width
            &&& s.height == streams[0].height
        },
        Err(e) => rejected(streams, e),
    }
}

/// Rejects an empty list and a list of unequal lengths, reporting the
/// first length that differs from the first buffer's.
fn validate(streams: &Vec<&Stream>) -> (r: Result<(), StreamError>)
    ensures
        match r {
            Ok(()) => streams@.len() > 0 && all_same_len(streams@),
            Err(e) => rejected(streams@, e),
        },
{
    if streams.len() == 0 {
        return Err(StreamError::EmptyList);
    }
    let expected = streams[0].buffer.len();
    let mut k: usize = 1;
    while k < streams.len()
        invariant
            1 <= k <= streams@.len(),
            expected == streams@[0]@.len(),
            forall|j: int| 0 <= j < k ==> streams@[j]@.len() == expected,
        decreases streams@.len() - k,
    {
        let found = streams[k].buffer.len();
        if found != expected {
            proof {
                assert((streams@[k as int]@).len() == found);
                assert(!all_same_len(streams@));
            }
            return Err(StreamError::LengthMismatch { expected, found });
        }
        k = k + 1;
    }
    Ok(())
}

/// Pointwise sum of the buffers: each position accumulates every
/// contributor onto the first buffer's sample.
pub fn add_streams(streams: Vec<&Stream>) -> (r: Result<Stream, StreamError>)
    ensures
        combined(streams@, r, add_op()),
{
    if let Err(e) = validate(&streams) {
        return Err(e);
    }
    let mut buffer = streams[0].buffer();
    let n = streams.len();
    let mut k: usize = 1;
    while k < n
        invariant
            1 <= k <= n,
            n == streams@.len(),
            all_same_len(streams@),
            buffer@.len() == streams@[0]@.len(),
            forall|i: int|
                0 <= i < buffer@.len() ==> buffer@[i] == fold_sample(
                    streams@,
                    i,
                    k - 1,
                    add_op(),
                ),
        decreases n - k,
    {
        let m = buffer.len();
        let mut i: usize = 0;
        while i < m
            invariant
                0 <= i <= m,
                1 <= k < n,
                n == streams@.len(),
                all_same_len(streams@),
                m == streams@[0]@.len(),
                buffer@.len() == m,
                forall|j: int|
                    0 <= j < i ==> buffer@[j] == fold_sample(streams@, j, k as int, add_op()),
                forall|j: int|
                    i <= j < m ==> buffer@[j] == fold_sample(streams@, j, k - 1, add_op()),
            decreases m - i,
        {
            proof {
                assert((streams@[k as int]@).len() == m);
            }
            let x = sample_add(buffer[i], streams[k].buffer[i]);
            proof {
                assert(add_op()(buffer@[i as int], streams@[k as int]@[i as int]) == add_bits(
                    buffer@[i as int],
                    streams@[k as int]@[i as int],
                ));
            }
            buffer.set(i, x);
            i = i + 1;
        }
        k = k + 1;
    }
    Ok(Stream { buffer, width: streams[0].width, height: streams[0].height })
}

/// Pointwise difference: each contributor is subtracted from the
/// accumulated first buffer.
pub fn subtract_streams(streams: Vec<&Stream>) -> (r: Result<Stream, StreamError>)
    ensures
        combined(streams@, r, sub_op()),
{
    if let Err(e) = validate(&streams) {
        return Err(e);
    }
    let mut buffer = streams[0].buffer();
    let n = streams.len();
    let mut k: usize = 1;
    while k < n
        invariant
            1 <= k <= n,
            n == streams@.len(),
            all_same_len(streams@),
            buffer@.len() == streams@[0]@.len(),
            forall|i: int|
                0 <= i < buffer@.len() ==> buffer@[i] == fold_sample(
                    streams@,
                    i,
                    k - 1,
                    sub_op(),
                ),
        decreases n - k,
    {
        let m = buffer.len();
        let mut i: usize = 0;
        while i < m
            invariant
                0 <= i <= m,
                1 <= k < n,
                n == streams@.len(),
                all_same_len(streams@),
                m == streams@[0]@.len(),
                buffer@.len() == m,
                forall|j: int|
                    0 <= j < i ==> buffer@[j] == fold_sample(streams@, j, k as int, sub_op()),
                forall|j: int|
                    i <= j < m ==> buffer@[j] == fold_sample(streams@, j, k - 1, sub_op()),
            decreases m - i,
        {
            proof {
                assert((streams@[k as int]@).len() == m);
            }
            let x = sample_sub(buffer[i], streams[k].buffer[i]);
            proof {
                assert(sub_op()(buffer@[i as int], streams@[k as int]@[i as int]) == sub_bits(
                    buffer@[i as int],
                    streams@[k as int]@[i as int],
                ));
            }
            buffer.set(i, x);
            i = i + 1;
        }
        k = k + 1;
    }
    Ok(Stream { buffer, width: streams[0].width, height: streams[0].height })
}

/// Pointwise product: each position multiplies the accumulated first
/// buffer by every contributor.
pub fn multiply_streams(streams: Vec<&Stream>) -> (r: Result<Stream, StreamError>)
    ensures
        combined(streams@, r, mul_op()),
{
    if let Err(e) = validate(&streams) {
        return Err(e);
    }
    let mut buffer = streams[0].buffer();
    let n = streams.len();
    let mut k: usize = 1;
    while k < n
        invariant
            1 <= k <= n,
            n == streams@.len(),
            all_same_len(streams@),
            buffer@.len() == streams@[0]@.len(),
            forall|i: int|
                0 <= i < buffer@.len() ==> buffer@[i] == fold_sample(
                    streams@,
                    i,
                    k - 1,
                    mul_op(),
                ),
        decreases n - k,
    {
        let m = buffer.len();
        let mut i: usize = 0;
        while i < m
            invariant
                0 <= i <= m,
                1 <= k < n,
                n == streams@.len(),
                all_same_len(streams@),
                m == streams@[0]@.len(),
                buffer@.len() == m,
                forall|j: int|
                    0 <= j < i ==> buffer@[j] == fold_sample(streams@, j, k as int, mul_op()),
                forall|j: int|
                    i <= j < m ==> buffer@[j] == fold_sample(streams@, j, k - 1, mul_op()),
            decreases m - i,
        {
            proof {
                assert((streams@[k as int]@).len() == m);
            }
            let x = sample_mul(buffer[i], streams[k].buffer[i]);
            proof {
                assert(mul_op()(buffer@[i as int], streams@[k as int]@[i as int]) == mul_bits(
                    buffer@[i as int],
                    streams@[k as int]@[i as int],
                ));
            }
            buffer.set(i, x);
            i = i + 1;
        }
        k = k + 1;
    }
    Ok(Stream { buffer, width: streams[0].width, height: streams[0].height })
}

/// Pointwise quotient with the zero-skip rule: a contributor encoding
/// zero leaves the accumulated sample at that position unchanged.
pub fn divide_streams(streams: Vec<&Stream>) -> (r: Result<Stream, StreamError>)
    ensures
        combined(streams@, r, div_op()),
{
    if let Err(e) = validate(&streams) {
        return Err(e);
    }
    let mut buffer = streams[0].buffer();
    let n = streams.len();
    let mut k: usize = 1;
    while k < n
        invariant
            1 <= k <= n,
            n == streams@.len(),
            all_same_len(streams@),
            buffer@.len() == streams@[0]@.len(),
            forall|i: int|
                0 <= i < buffer@.len() ==> buffer@[i] == fold_sample(
                    streams@,
                    i,
                    k - 1,
                    div_op(),
                ),
        decreases n - k,
    {
        let m = buffer.len();
        let mut i: usize = 0;
        while i < m
            invariant
                0 <= i <= m,
                1 <= k < n,
                n == streams@.len(),
                all_same_len(streams@),
                m == streams@[0]@.len(),
                buffer@.len() == m,
                forall|j: int|
                    0 <= j < i ==> buffer@[j] == fold_sample(streams@, j, k as int, div_op()),
                forall|j: int|
                    i <= j < m ==> buffer@[j] == fold_sample(streams@, j, k - 1, div_op()),
            decreases m - i,
        {
            proof {
                assert((streams@[k as int]@).len() == m);
            }
            let c = streams[k].buffer[i];
            let x = if sample_is_zero(c) {
                buffer[i]
            } else {
                sample_div(buffer[i], c)
            };
            proof {
                assert(div_op()(buffer@[i as int], streams@[k as int]@[i as int]) == (
                if is_zero_sample(streams@[k as int]@[i as int]) {
                    buffer@[i as int]
                } else {
                    div_bits(buffer@[i as int], streams@[k as int]@[i as int])
                }));
            }
            buffer.set(i, x);
            i = i + 1;
        }
        k = k + 1;
    }
    Ok(Stream { buffer, width: streams[0].width, height: streams[0].height })
}

/// Pointwise remainder with the zero-skip rule: a contributor encoding
/// zero leaves the accumulated sample at that position unchanged.
pub fn mod_streams(streams: Vec<&Stream>) -> (r: Result<Stream, StreamError>)
    ensures
        combined(streams@, r, rem_op()),
{
    if let Err(e) = validate(&streams) {
        return Err(e);
    }
    let mut buffer = streams[0].buffer();
    let n = streams.len();
    let mut k: usize = 1;
    while k < n
        invariant
            1 <= k <= n,
            n == streams@.len(),
            all_same_len(streams@),
            buffer@.len() == streams@[0]@.len(),
            forall|i: int|
                0 <= i < buffer@.len() ==> buffer@[i] == fold_sample(
                    streams@,
                    i,
                    k - 1,
                    rem_op(),
                ),
        decreases n - k,
    {
        let m = buffer.len();
        let mut i: usize = 0;
        while i < m
            invariant
                0 <= i <= m,
                1 <= k < n,
                n == streams@.len(),
                all_same_len(streams@),
                m == streams@[0]@.len(),
                buffer@.len() == m,
                forall|j: int|
                    0 <= j < i ==> buffer@[j] == fold_sample(streams@, j, k as int, rem_op()),
                forall|j: int|
                    i <= j < m ==> buffer@[j] == fold_sample(streams@, j, k - 1, rem_op()),
            decreases m - i,
        {
            proof {
                assert((streams@[k as int]@).len() == m);
            }
            let c = streams[k].buffer[i];
            let x = if sample_is_zero(c) {
                buffer[i]
            } else {
                sample_rem(buffer[i], c)
            };
            proof {
                assert(rem_op()(buffer@[i as int], streams@[k as int]@[i as int]) == (
                if is_zero_sample(streams@[k as int]@[i as int]) {
                    buffer@[i as int]
                } else {
                    rem_bits(buffer@[i as int], streams@[k as int]@[i as int])
                }));
            }
            buffer.set(i, x);
            i = i + 1;
        }
        k = k + 1;
    }
    Ok(Stream { buffer, width: streams[0].width, height: streams[0].height })
}

/// Pointwise overlay: a contributor's sample replaces the accumulated
/// one only where it is ordered above zero, so later non-positive
/// contributions never overwrite.
pub fn stack_streams(streams: Vec<&Stream>) -> (r: Result<Stream, StreamError>)
    ensures
        combined(streams@, r, stack_op()),
{
    if let Err(e) = validate(&streams) {
        return Err(e);
    }
    let zero = sample_uint(0);
    let mut buffer = streams[0].buffer();
    let n = streams.len();
    let mut k: usize = 1;
    while k < n
        invariant
            zero == uint_bits(0),
            1 <= k <= n,
            n == streams@.len(),
            all_same_len(streams@),
            buffer@.len() == streams@[0]@.len(),
            forall|i: int|
                0 <= i < buffer@.len() ==> buffer@[i] == fold_sample(
                    streams@,
                    i,
                    k - 1,
                    stack_op(),
                ),
        decreases n - k,
    {
        let m = buffer.len();
        let mut i: usize = 0;
        while i < m
            invariant
                zero == uint_bits(0),
                0 <= i <= m,
                1 <= k < n,
                n == streams@.len(),
                all_same_len(streams@),
                m == streams@[0]@.len(),
                buffer@.len() == m,
                forall|j: int|
                    0 <= j < i ==> buffer@[j] == fold_sample(streams@, j, k as int, stack_op()),
                forall|j: int|
                    i <= j < m ==> buffer@[j] == fold_sample(streams@, j, k - 1, stack_op()),
            decreases m - i,
        {
            proof {
                assert((streams@[k as int]@).len() == m);
            }
            let c = streams[k].buffer[i];
            let x = if sample_gt(c, zero) {
                c
            } else {
                buffer[i]
            };
            proof {
                assert(stack_op()(buffer@[i as int], streams@[k as int]@[i as int]) == (
                if gt_bits(streams@[k as int]@[i as int], uint_bits(0)) {
                    streams@[k as int]@[i as int]
                } else {
                    buffer@[i as int]
                }));
            }
            buffer.set(i, x);
            i = i + 1;
        }
        k = k + 1;
    }
    Ok(Stream { buffer, width: streams[0].width, height: streams[0].height })
}

/// Pointwise average: the sum fold of the whole list, then every
/// position divided by the number of buffers.
pub fn average_streams(streams: Vec<&Stream>) -> (r: Result<Stream, StreamError>)
    ensures
        match r {
            Ok(s) => {
                &&& streams@.len() > 0
                &&& all_same_len(streams@)
                &&& s@.len() == streams@[0]@.len()
                &&& forall|i: int|
                    0 <= i < s@.len() ==> s@[i] == div_bits(
                        fold_sample(streams@, i, streams@.len() - 1, add_op()),
                        uint_bits(streams@.len() as usize),
                    )
                &&& s.width == streams@[0].width
                &&& s.height == streams@[0].height
            },
            Err(e) => rejected(streams@, e),
        },
{
    let n = streams.len();
    let summed = match add_streams(streams) {
        Ok(s) => s,
        Err(e) => {
            return Err(e);
        },
    };
    let count = sample_uint(n);
    let Stream { buffer: mut buffer, width, height } = summed;
    let ghost folded = buffer@;
    let mut i: usize = 0;
    while i < buffer.len()
        invariant
            0 <= i <= folded.len(),
            buffer@.len() == folded.len(),
            count == uint_bits(n),
            forall|j: int| 0 <= j < i ==> buffer@[j] == div_bits(folded[j], count),
            forall|j: int| i <= j < folded.len() ==> buffer@[j] == folded[j],
        decreases folded.len() - i,
    {
        buffer.set(i, sample_div(buffer[i], count));
        i = i + 1;
    }
    Ok(Stream { buffer, width, height })
}

/// Zero contributors are skipped in division: at a fold step whose
/// contributor sample encodes zero, the accumulated sample is exactly
/// what it was before that step.
pub proof fn lemma_divide_zero_skip(streams: Seq<&Stream>, i: int, k: int)
    requires
        1 <= k,
        is_zero_sample(streams[k]@[i]),
    ensures
        fold_sample(streams, i, k, div_op()) == fold_sample(streams, i, k - 1, div_op()),
{
}

/// Zero contributors are skipped in the remainder: at a fold step whose
/// contributor sample encodes zero, the accumulated sample is exactly
/// what it was before that step.
pub proof fn lemma_modulo_zero_skip(streams: Seq<&Stream>, i: int, k: int)
    requires
        1 <= k,
        is_zero_sample(streams[k]@[i]),
    ensures
        fold_sample(streams, i, k, rem_op()) == fold_sample(streams, i, k - 1, rem_op()),
{
}

/// The list index of the last contributor through index `k` whose sample
/// at position `i` is ordered above zero; 0 when none is.
pub open spec fn last_positive(streams: Seq<&Stream>, i: int, k: int) -> int
    decreases k,
{
    if k <= 0 {
        0
    } else if gt_bits(streams[k]@[i], uint_bits(0)) {
        k
    } else {
        last_positive(streams, i, k - 1)
    }
}

/// The stacked sample at a position is the sample of the last contributor
/// ordered above zero there — and the first buffer's own sample when no
/// contributor is.
pub proof fn lemma_stack_last_positive(streams: Seq<&Stream>, i: int, k: int)
    requires
        0 <= k,
    ensures
        fold_sample(streams, i, k, stack_op()) == streams[last_positive(streams, i, k)]@[i],
        0 <= last_positive(streams, i, k) <= k,
        last_positive(streams, i, k) == 0 ==> forall|j: int|
            1 <= j <= k ==> !(#[trigger] gt_bits(streams[j]@[i], uint_bits(0))),
        last_positive(streams, i, k) >= 1 ==> gt_bits(
            streams[last_positive(streams, i, k)]@[i],
            uint_bits(0),
        ),
        forall|j: int|
            last_positive(streams, i, k) < j <= k ==> !(#[trigger] gt_bits(
                streams[j]@[i],
                uint_bits(0),
            )),
    decreases k,
{
    if k <= 0 {
    } else {
        lemma_stack_last_positive(streams, i, k - 1);
        assert(stack_op()(fold_sample(streams, i, k - 1, stack_op()), streams[k]@[i]) == (
        if gt_bits(streams[k]@[i], uint_bits(0)) {
            streams[k]@[i]
        } else {
            fold_sample(streams, i, k - 1, stack_op())
        }));
    }
}

} // verus!
