//! Positional operators: echo, reverb, rotation, edge marking and random
//! displacement.
//!
//! These read sample positions and neighbourhoods, not just values. Their
//! boundary rules are deliberate and exact: an echo leaves the trailing
//! `offset + 1` positions untouched, and the edge mask never writes the
//! final position.

use vstd::prelude::*;

use vstd::arithmetic::div_mod::{
    lemma_add_mod_noop, lemma_mod_add_multiples_vanish, lemma_small_mod,
};

use crate::sample::{
    abs_sample, add_bits, gt_bits, mul_bits, sample_abs, sample_add, sample_gt, sample_mul,
    sample_sub, sample_uint, sub_bits, uint_bits,
};
use crate::stream::{Stream, StreamError};

verus! {

/// The echo of `s` at position `i`: positions below `len - offset - 1`
/// take the sample `offset` ahead plus the decayed sample at `i`; the
/// trailing positions pass through unchanged.
pub open spec fn delay_at(s: Seq<u64>, offset: int, decay: u64, i: int) -> u64 {
    if i < s.len() - offset - 1 {
        add_bits(s[i + offset], mul_bits(s[i], decay))
    } else {
        s[i]
    }
}

/// The whole echoed buffer.
pub open spec fn delay_seq(s: Seq<u64>, offset: int, decay: u64) -> Seq<u64> {
    Seq::new(s.len(), |i: int| delay_at(s, offset, decay, i))
}

/// `k` cumulative echo passes: pass number `j` (counted from zero) echoes
/// the already-echoed buffer with offset `offset * j` and decay
/// `decay * j`, so the first pass is a no-op echo at offset zero.
pub open spec fn reverb_seq(s: Seq<u64>, offset: int, decay: u64, k: int) -> Seq<u64>
    decreases k,
{
    if k <= 0 {
        s
    } else {
        delay_seq(
            reverb_seq(s, offset, decay, k - 1),
            offset * (k - 1),
            mul_bits(decay, uint_bits((k - 1) as usize)),
        )
    }
}

/// Echo passes keep the buffer's length.
pub proof fn lemma_reverb_len(s: Seq<u64>, offset: int, decay: u64, k: int)
    ensures
        reverb_seq(s, offset, decay, k).len() == s.len(),
    decreases k,
{
    if k > 0 {
        lemma_reverb_len(s, offset, decay, k - 1);
    }
}

/// The buffer rotated left by `offset`: position `i` takes the sample at
/// `(i + offset) mod len`.
pub open spec fn rotate_seq(s: Seq<u64>, offset: int) -> Seq<u64> {
    Seq::new(s.len(), |i: int| s[(i + offset) % (s.len() as int)])
}

/// The edge mask of `s` at position `i`: every position but the last
/// encodes one where the step to the next sample is larger in magnitude
/// than the threshold and zero where it is not; the last position keeps
/// its original sample.
pub open spec fn edge_at(s: Seq<u64>, threshold: u64, i: int) -> u64 {
    if i < s.len() - 1 {
        if gt_bits(abs_sample(sub_bits(s[i + 1], s[i])), threshold) {
            uint_bits(1)
        } else {
            uint_bits(0)
        }
    } else {
        s[i]
    }
}

/// Echo effect: for every position `i` below `len - offset - 1` the new
/// sample is `s[i + offset] + s[i] * decay`; all later positions are
/// copied verbatim. An offset reaching the buffer's length is an error.
pub fn delay(stream: &Stream, offset: usize, decay: u64) -> (r: Result<Stream, StreamError>)
    ensures
        match r {
            Ok(s) => {
                &&& offset < stream@.len()
                &&& s@ == delay_seq(stream@, offset as int, decay)
                &&& s@.len() == stream@.len()
                &&& s.width == stream.width
                &&& s.height == stream.height
            },
            Err(e) => {
                &&& offset >= stream@.len()
                &&& e == (StreamError::OffsetOutOfRange { offset, len: stream.buffer.len() })
            },
        },
{
    let len = stream.buffer.len();
    if offset >= len {
        return Err(StreamError::OffsetOutOfRange { offset, len });
    }
    let bound = len - offset - 1;
    let mut buffer: Vec<u64> = Vec::new();
    let mut i: usize = 0;
    while i < len
        invariant
            0 <= i <= len,
            len == stream@.len(),
            offset < len,
            bound == len - offset - 1,
            buffer@.len() == i,
            forall|j: int|
                0 <= j < i ==> buffer@[j] == delay_at(stream@, offset as int, decay, j),
        decreases len - i,
    {
        if i < bound {
            buffer.push(sample_add(stream.buffer[i + offset], sample_mul(stream.buffer[i], decay)));
        } else {
            buffer.push(stream.buffer[i]);
        }
        i = i + 1;
    }
    proof {
        assert(buffer@ =~= delay_seq(stream@, offset as int, decay));
    }
    Ok(Stream { buffer, width: stream.width, height: stream.height })
}

/// Iterated echo: pass `k` echoes the already-echoed buffer with offset
/// `offset * k` and decay `decay * k`. The passes are cumulative, not
/// independent taps. The first pass whose scaled offset reaches the
/// buffer's length is an error.
pub fn reverb(stream: &Stream, offset: usize, decay: u64, iterations: usize) -> (r: Result<
    Stream,
    StreamError,
>)
    requires
        iterations >= 1 ==> offset <= usize::MAX - stream@.len(),
    ensures
        match r {
            Ok(s) => {
                &&& forall|k: int| 0 <= k < iterations ==> #[trigger] (offset * k) < stream@.len()
                &&& s@ == reverb_seq(stream@, offset as int, decay, iterations as int)
                &&& s@.len() == stream@.len()
                &&& s.width == stream.width
                &&& s.height == stream.height
            },
            Err(e) => exists|k: int|
                0 <= k < iterations && #[trigger] (offset * k) >= stream@.len() && e == (
                StreamError::OffsetOutOfRange { offset: (offset * k) as usize, len: stream.buffer.len() }),
        },
{
    let len = stream.buffer.len();
    let mut current = stream.buffer();
    let mut cur_offset: usize = 0;
    let mut k: usize = 0;
    proof {
        lemma_reverb_len(stream@, offset as int, decay, 0);
    }
    while k < iterations
        invariant
            0 <= k <= iterations,
            len == stream@.len(),
            iterations >= 1 ==> offset <= usize::MAX - len,
            cur_offset == offset * k,
            current@ == reverb_seq(stream@, offset as int, decay, k as int),
            current@.len() == len,
            forall|j: int| 0 <= j < k ==> #[trigger] (offset * j) < len,
        decreases iterations - k,
    {
        let d = sample_mul(decay, sample_uint(k));
        let pass = Stream { buffer: current, width: stream.width, height: stream.height };
        match delay(&pass, cur_offset, d) {
            Ok(next) => {
                current = next.buffer;
                proof {
                    assert(current@ == reverb_seq(stream@, offset as int, decay, k + 1));
                    assert(offset * (k + 1) == offset * k + offset) by (nonlinear_arith);
                }
                cur_offset = cur_offset + offset;
                k = k + 1;
            },
            Err(e) => {
                proof {
                    assert(0 <= k < iterations && offset * (k as int) >= stream@.len() && e == (
                    StreamError::OffsetOutOfRange {
                        offset: (offset * (k as int)) as usize,
                        len: stream.buffer.len(),
                    }));
                }
                return Err(e);
            },
        }
    }
    Ok(Stream { buffer: current, width: stream.width, height: stream.height })
}

/// Circular shift: position `i` takes the sample at `(i + offset) mod
/// len`. Length- and order-preserving, and inverted by rotating the
/// result by `len - offset`.
pub fn rotate_array(stream: &Stream, offset: usize) -> (s: Stream)
    requires
        stream@.len() + offset <= usize::MAX,
    ensures
        s@ == rotate_seq(stream@, offset as int),
        s@.len() == stream@.len(),
        s.width == stream.width,
        s.height == stream.height,
{
    let len = stream.buffer.len();
    let mut buffer: Vec<u64> = Vec::new();
    let mut i: usize = 0;
    while i < len
        invariant
            0 <= i <= len,
            len == stream@.len(),
            len + offset <= usize::MAX,
            buffer@.len() == i,
            forall|j: int| 0 <= j < i ==> buffer@[j] == stream@[(j + offset) % (len as int)],
        decreases len - i,
    {
        buffer.push(stream.buffer[(i + offset) % len]);
        i = i + 1;
    }
    proof {
        assert(buffer@ =~= rotate_seq(stream@, offset as int));
    }
    Stream { buffer, width: stream.width, height: stream.height }
}

/// Rotating by zero moves nothing.
pub proof fn lemma_rotate_zero(s: Seq<u64>)
    ensures
        rotate_seq(s, 0) == s,
{
    assert forall|i: int| 0 <= i < s.len() implies rotate_seq(s, 0)[i] == s[i] by {
        lemma_small_mod(i as nat, s.len());
    }
    assert(rotate_seq(s, 0) =~= s);
}

/// Rotating by the buffer's whole length moves nothing.
pub proof fn lemma_rotate_full(s: Seq<u64>)
    ensures
        rotate_seq(s, s.len() as int) == s,
{
    let n = s.len() as int;
    assert forall|i: int| 0 <= i < n implies rotate_seq(s, n)[i] == s[i] by {
        lemma_mod_add_multiples_vanish(i, n);
        lemma_small_mod(i as nat, s.len());
    }
    assert(rotate_seq(s, n) =~= s);
}

/// Rotating by `k` and then by `len - k` restores the buffer.
pub proof fn lemma_rotate_inverse(s: Seq<u64>, k: int)
    requires
        0 <= k < s.len(),
    ensures
        rotate_seq(rotate_seq(s, k), s.len() - k) == s,
{
    let n = s.len() as int;
    let inner = rotate_seq(s, k);
    let outer = rotate_seq(inner, n - k);
    assert forall|i: int| 0 <= i < n implies outer[i] == s[i] by {
        let a = (i + (n - k)) % n;
        assert(outer[i] == inner[a]);
        assert(0 <= a < n) by {
            lemma_small_mod(0, s.len());
        }
        assert(inner[a] == s[(a + k) % n]);
        lemma_add_mod_noop(i + (n - k), k, n);
        lemma_small_mod(k as nat, s.len());
        assert((a + k % n) % n == (i + (n - k) + k) % n);
        assert((i + n) % n == i) by {
            lemma_mod_add_multiples_vanish(i, n);
            lemma_small_mod(i as nat, s.len());
        }
    }
    assert(outer =~= s);
}

/// Binary edge mask: every position but the last encodes one where the
/// step to the next sample is larger in magnitude than the threshold and
/// zero where it is not; the final position keeps its original sample, a
/// boundary rule preserved on purpose. A buffer with no final position —
/// an empty one — is an error.
pub fn detect_edges(stream: &Stream, threshold: u64) -> (r: Result<Stream, StreamError>)
    ensures
        match r {
            Ok(s) => {
                &&& stream@.len() >= 1
                &&& s@.len() == stream@.len()
                &&& forall|i: int|
                    0 <= i < stream@.len() ==> s@[i] == edge_at(stream@, threshold, i)
                &&& s.width == stream.width
                &&& s.height == stream.height
            },
            Err(e) => {
                &&& stream@.len() == 0
                &&& e == StreamError::EmptyBuffer
            },
        },
{
    if stream.buffer.len() == 0 {
        return Err(StreamError::EmptyBuffer);
    }
    let one = sample_uint(1);
    let zero = sample_uint(0);
    let len = stream.buffer.len();
    let mut buffer: Vec<u64> = Vec::new();
    let mut i: usize = 0;
    while i < len - 1
        invariant
            1 <= len == stream@.len(),
            0 <= i <= len - 1,
            one == uint_bits(1),
            zero == uint_bits(0),
            buffer@.len() == i,
            forall|j: int| 0 <= j < i ==> buffer@[j] == edge_at(stream@, threshold, j),
        decreases len - 1 - i,
    {
        let step = sample_abs(sample_sub(stream.buffer[i + 1], stream.buffer[i]));
        if sample_gt(step, threshold) {
            buffer.push(one);
        } else {
            buffer.push(zero);
        }
        i = i + 1;
    }
    buffer.push(stream.buffer[len - 1]);
    Ok(Stream { buffer, width: stream.width, height: stream.height })
}

/// The sample at position `i` of `s` occurs somewhere in `input`.
pub open spec fn value_from(s: Seq<u64>, input: Seq<u64>, i: int) -> bool {
    exists|l: int| 0 <= l < input.len() && s[i] == #[trigger] input[l]
}

/// A value the half-open draw range `[lo, hi)` can produce.
pub open spec fn in_draw_range(lo: int, hi: int, r: int) -> bool {
    lo <= r < hi
}

/// What one position may hold after displacement with draws from
/// `[lo, hi)`: either some positive draw landed inside the buffer and the
/// position took the input sample that far ahead, or some draw the range
/// can produce keeps the position — it is non-positive or reaches past
/// the end — and the position holds its own input sample. A range whose
/// every draw displaces therefore forces a displaced sample, and a range
/// with no positive draw forces the input sample through unchanged.
pub open spec fn displaced_at(input: Seq<u64>, lo: int, hi: int, out: Seq<u64>, i: int) -> bool {
    ||| exists|r: int|
        #[trigger] in_draw_range(lo, hi, r) && r > 0 && i + r < input.len() && out[i] == input[
            i + r
        ]
    ||| (exists|r: int|
        #[trigger] in_draw_range(lo, hi, r) && (r <= 0 || i + r >= input.len())) && out[i]
        == input[i]
}

/// Relies on `rand::Rng::gen_range` over `rand::thread_rng`: a draw from
/// the half-open range, which panics when the range is empty. Nothing
/// more is assumed of the draw than its bounds.
#[verifier::external_body]
fn draw_in_range(lo: i32, hi: i32) -> (r: i32)
    requires
        lo < hi,
    ensures
        lo <= r < hi,
{
    rand::Rng::gen_range(&mut rand::thread_rng(), lo..hi)
}

/// Random displacement: every position draws an integer from the range
/// and, when the draw is positive and lands inside the buffer, takes the
/// input sample that far ahead; otherwise it keeps its own input sample.
/// Each output position is accounted for by some draw the range can
/// produce, and every output sample is a sample of the input, whatever
/// the draws were.
pub fn rand_in_range(stream: &Stream, range: core::ops::Range<i32>) -> (s: Stream)
    requires
        range.start < range.end,
        stream@.len() <= i32::MAX,
        range.end as int <= i32::MAX - stream@.len(),
    ensures
        s@.len() == stream@.len(),
        forall|i: int|
            0 <= i < stream@.len() ==> #[trigger] displaced_at(
                stream@,
                range.start as int,
                range.end as int,
                s@,
                i,
            ),
        forall|i: int| 0 <= i < stream@.len() ==> #[trigger] value_from(s@, stream@, i),
        s.width == stream.width,
        s.height == stream.height,
{
    let ghost lo = range.start as int;
    let ghost hi = range.end as int;
    let len = stream.buffer.len();
    let mut buffer = stream.buffer();
    let mut i: usize = 0;
    while i < len
        invariant
            0 <= i <= len,
            len == stream@.len(),
            len <= i32::MAX,
            hi == range.end as int,
            lo == range.start as int,
            hi <= i32::MAX - len,
            lo < hi,
            buffer@.len() == len,
            forall|j: int| 0 <= j < i ==> #[trigger] displaced_at(stream@, lo, hi, buffer@, j),
            forall|j: int| i <= j < len ==> buffer@[j] == stream@[j],
        decreases len - i,
    {
        let r = draw_in_range(range.start, range.end);
        proof {
            assert(in_draw_range(lo, hi, r as int));
        }
        if r > 0 {
            let jump = i + (r as usize);
            if jump < len {
                let ghost pre = buffer@;
                buffer.set(i, stream.buffer[jump]);
                proof {
                    assert(in_draw_range(lo, hi, r as int) && r > 0 && i + r < stream@.len()
                        && buffer@[i as int] == stream@[i + r]);
                    assert(displaced_at(stream@, lo, hi, buffer@, i as int));
                    assert forall|j: int| 0 <= j < i implies #[trigger] displaced_at(
                        stream@,
                        lo,
                        hi,
                        buffer@,
                        j,
                    ) by {
                        assert(displaced_at(stream@, lo, hi, pre, j));
                        assert(buffer@[j] == pre[j]);
                        if exists|w: int|
                            #[trigger] in_draw_range(lo, hi, w) && w > 0 && j + w < stream@.len()
                                && pre[j] == stream@[j + w] {
                            let w = choose|w: int|
                                #[trigger] in_draw_range(lo, hi, w) && w > 0 && j + w
                                    < stream@.len() && pre[j] == stream@[j + w];
                            assert(in_draw_range(lo, hi, w) && w > 0 && j + w < stream@.len()
                                && buffer@[j] == stream@[j + w]);
                        }
                    }
                }
            } else {
                proof {
                    assert(in_draw_range(lo, hi, r as int) && i + r >= stream@.len());
                    assert(buffer@[i as int] == stream@[i as int]);
                    assert(displaced_at(stream@, lo, hi, buffer@, i as int));
                }
            }
        } else {
            proof {
                assert(in_draw_range(lo, hi, r as int) && r <= 0);
                assert(buffer@[i as int] == stream@[i as int]);
                assert(displaced_at(stream@, lo, hi, buffer@, i as int));
            }
        }
        i = i + 1;
    }
    let s = Stream { buffer, width: stream.width, height: stream.height };
    proof {
        assert forall|i: int| 0 <= i < stream@.len() implies #[trigger] displaced_at(
            stream@,
            lo,
            hi,
            s@,
            i,
        ) by {
            assert(s@ == buffer@);
            assert(displaced_at(stream@, lo, hi, buffer@, i));
        }
        assert forall|i: int| 0 <= i < stream@.len() implies #[trigger] value_from(
            s@,
            stream@,
            i,
        ) by {
            assert(s@ == buffer@);
            if s@[i] == stream@[i] {
                assert(0 <= i < stream@.len() && s@[i] == stream@[i]);
            } else {
                assert(displaced_at(stream@, lo, hi, buffer@, i));
                let r = choose|r: int|
                    #[trigger] in_draw_range(lo, hi, r) && r > 0 && i + r < stream@.len()
                        && buffer@[i] == stream@[i + r];
                assert(0 <= i + r < stream@.len() && s@[i] == stream@[i + r]);
            }
        }
    }
    s
}

} // verus!
