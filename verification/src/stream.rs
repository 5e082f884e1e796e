//! The sample buffer and its shape operations.
//!
//! A `Stream` is a flat, ordered buffer of samples (binary64 bit patterns)
//! tagged with the pixel dimensions of the image it came from. The
//! dimensions are carried along unchanged by every transform; once an
//! operation changes the buffer's length they are stale, and only the
//! codec boundary reads them again.

use vstd::prelude::*;

use crate::sample::{
    abs_sample, byte_bits, div_bits, gt_bits, lt_bits, mul_bits, sample_abs, sample_byte,
    sample_div, sample_gt, sample_lt, sample_mul, sample_uint, uint_bits,
};

verus! {

/// An error of a buffer operation, carrying the lengths and offsets that
/// made the operation impossible.
#[derive(Clone, Copy, Debug, PartialEq, Eq)]
pub enum StreamError {
    /// A combinator was handed an empty list of buffers.
    EmptyList,
    /// A combinator was handed buffers of unequal lengths.
    LengthMismatch { expected: usize, found: usize },
    /// A positional operator was handed an offset reaching past the buffer.
    OffsetOutOfRange { offset: usize, len: usize },
    /// A masking range reads past the end of the buffer.
    RangeOutOfBounds { start: usize, end: usize, len: usize },
    /// A positional operator needs at least one sample to read.
    EmptyBuffer,
}

/// An image's raw bytes reinterpreted as a one-dimensional signal.
#[derive(Clone, Debug)]
pub struct Stream {
    /// The samples, row-major and channel-interleaved as decoded.
    pub buffer: Vec<u64>,
    /// Pixel width of the originating image.
    pub width: usize,
    /// Pixel height of the originating image.
    pub height: usize,
}

impl View for Stream {
    type V = Seq<u64>;

    open spec fn view(&self) -> Seq<u64> {
        self.buffer@
    }
}

/// A sample clipped into `[min, max]`: values ordered below `min` become
/// `min`, values ordered above `max` become `max`, everything else (a
/// non-number among it) passes through.
pub open spec fn clamped(min: u64, max: u64, a: u64) -> u64 {
    if lt_bits(a, min) {
        min
    } else if gt_bits(a, max) {
        max
    } else {
        a
    }
}

/// The largest sample among the first `k`, starting from an accumulator
/// that encodes zero — so a buffer with no sample above zero reports zero
/// as its maximum.
pub open spec fn max_sample(s: Seq<u64>, k: int) -> u64
    decreases k,
{
    if k <= 0 {
        uint_bits(0)
    } else if gt_bits(s[k - 1], max_sample(s, k - 1)) {
        s[k - 1]
    } else {
        max_sample(s, k - 1)
    }
}

impl Stream {
    /// Wraps an owned sample buffer with the dimensions it was decoded at.
    pub fn new(buffer: Vec<u64>, width: usize, height: usize) -> (s: Stream)
        ensures
            s@ == buffer@,
            s.width == width,
            s.height == height,
    {
        Stream { buffer, width, height }
    }

    /// Builds a buffer from raw image bytes: each byte becomes the sample
    /// `byte / 255`, so the byte range maps into `[0, 1]`.
    pub fn from_bytes(bytes: &Vec<u8>, width: usize, height: usize) -> (s: Stream)
        ensures
            s@.len() == bytes@.len(),
            forall|i: int|
                0 <= i < bytes@.len() ==> s@[i] == div_bits(
                    uint_bits(bytes@[i] as usize),
                    uint_bits(255),
                ),
            s.width == width,
            s.height == height,
    {
        let full = sample_uint(255);
        let mut buffer: Vec<u64> = Vec::new();
        let mut i: usize = 0;
        while i < bytes.len()
            invariant
                0 <= i <= bytes@.len(),
                full == uint_bits(255),
                buffer@.len() == i,
                forall|j: int|
                    0 <= j < i ==> buffer@[j] == div_bits(
                        uint_bits(bytes@[j] as usize),
                        uint_bits(255),
                    ),
            decreases bytes@.len() - i,
        {
            let b = bytes[i];
            buffer.push(sample_div(sample_uint(b as usize), full));
            i = i + 1;
        }
        Stream { buffer, width, height }
    }

    /// Maps every sample back to a byte via `sample * 255`, rounded toward
    /// zero and silently clamped to the byte range — out-of-range samples
    /// are truncated, never reported.
    pub fn to_bytes(&self) -> (r: Vec<u8>)
        ensures
            r@.len() == self@.len(),
            forall|i: int|
                0 <= i < self@.len() ==> r@[i] == byte_bits(mul_bits(self@[i], uint_bits(255))),
    {
        let full = sample_uint(255);
        let mut bytes: Vec<u8> = Vec::new();
        let mut i: usize = 0;
        while i < self.buffer.len()
            invariant
                0 <= i <= self@.len(),
                full == uint_bits(255),
                bytes@.len() == i,
                forall|j: int|
                    0 <= j < i ==> bytes@[j] == byte_bits(mul_bits(self@[j], uint_bits(255))),
            decreases self@.len() - i,
        {
            bytes.push(sample_byte(sample_mul(self.buffer[i], full)));
            i = i + 1;
        }
        bytes
    }

    /// A copy of the sample buffer.
    pub fn buffer(&self) -> (r: Vec<u64>)
        ensures
            r@ == self@,
    {
        let mut r: Vec<u64> = Vec::new();
        let mut i: usize = 0;
        while i < self.buffer.len()
            invariant
                0 <= i <= self@.len(),
                r@ == self@.subrange(0, i as int),
            decreases self@.len() - i,
        {
            r.push(self.buffer[i]);
            proof {
                assert(r@ =~= self@.subrange(0, i + 1));
            }
            i = i + 1;
        }
        proof {
            assert(r@ =~= self@);
        }
        r
    }

    /// The number of samples.
    pub fn len(&self) -> (n: usize)
        ensures
            n == self@.len(),
    {
        self.buffer.len()
    }

    /// A buffer truncated or zero-padded to exactly `n` samples — the pad
    /// is the all-clear bit pattern, which encodes positive zero; the
    /// dimensions are copied unchanged and may now be stale.
    pub fn resize(&self, n: usize) -> (s: Stream)
        ensures
            s@.len() == n,
            forall|i: int| 0 <= i < n && i < self@.len() ==> s@[i] == self@[i],
            forall|i: int| self@.len() <= i < n ==> s@[i] == 0,
            s.width == self.width,
            s.height == self.height,
    {
        let mut buffer: Vec<u64> = Vec::new();
        let mut i: usize = 0;
        while i < n
            invariant
                0 <= i <= n,
                buffer@.len() == i,
                forall|j: int| 0 <= j < i && j < self@.len() ==> buffer@[j] == self@[j],
                forall|j: int| self@.len() <= j < i ==> buffer@[j] == 0,
            decreases n - i,
        {
            if i < self.buffer.len() {
                buffer.push(self.buffer[i]);
            } else {
                buffer.push(0u64);
            }
            i = i + 1;
        }
        Stream { buffer, width: self.width, height: self.height }
    }

    /// Every sample clipped into `[min, max]`.
    pub fn clamp(self, min: u64, max: u64) -> (s: Stream)
        ensures
            s@.len() == self@.len(),
            forall|i: int| 0 <= i < self@.len() ==> s@[i] == clamped(min, max, self@[i]),
            s.width == self.width,
            s.height == self.height,
    {
        let ghost orig = self@;
        let Stream { buffer: mut buffer, width, height } = self;
        let mut i: usize = 0;
        while i < buffer.len()
            invariant
                0 <= i <= orig.len(),
                buffer@.len() == orig.len(),
                forall|j: int| 0 <= j < i ==> buffer@[j] == clamped(min, max, orig[j]),
                forall|j: int| i <= j < orig.len() ==> buffer@[j] == orig[j],
            decreases orig.len() - i,
        {
            let a = buffer[i];
            let clipped = if sample_lt(a, min) {
                min
            } else if sample_gt(a, max) {
                max
            } else {
                a
            };
            buffer.set(i, clipped);
            i = i + 1;
        }
        Stream { buffer, width, height }
    }

    /// A masked copy: the result has the input's length, keeps the samples
    /// at positions in `[start, end)` and holds the all-clear pattern —
    /// the encoding of positive zero — everywhere else. A non-empty mask
    /// reaching past the end of the buffer is an error.
    pub fn substream(&self, start: usize, end: usize) -> (r: Result<Stream, StreamError>)
        ensures
            match r {
                Ok(s) => {
                    &&& !(start < end && end > self@.len())
                    &&& s@.len() == self@.len()
                    &&& forall|i: int|
                        0 <= i < self@.len() ==> s@[i] == (if start <= i < end {
                            self@[i]
                        } else {
                            0u64
                        })
                    &&& s.width == self.width
                    &&& s.height == self.height
                },
                Err(e) => {
                    &&& start < end && end > self@.len()
                    &&& e == (StreamError::RangeOutOfBounds {
                        start,
                        end,
                        len: self.buffer.len(),
                    })
                },
            },
    {
        if start < end && end > self.buffer.len() {
            return Err(StreamError::RangeOutOfBounds { start, end, len: self.buffer.len() });
        }
        let mut buffer: Vec<u64> = Vec::new();
        let mut i: usize = 0;
        while i < self.buffer.len()
            invariant
                0 <= i <= self@.len(),
                buffer@.len() == i,
                forall|j: int|
                    0 <= j < i ==> buffer@[j] == (if start <= j < end {
                        self@[j]
                    } else {
                        0u64
                    }),
            decreases self@.len() - i,
        {
            if start <= i && i < end {
                buffer.push(self.buffer[i]);
            } else {
                buffer.push(0u64);
            }
            i = i + 1;
        }
        Ok(Stream { buffer, width: self.width, height: self.height })
    }

    /// Every sample divided by the buffer's maximum, where the maximum
    /// starts from an accumulator encoding zero: a buffer with nothing
    /// above zero is divided by zero, and the infinities and non-numbers
    /// that produces are the documented outcome, not an error.
    pub fn normalize(self) -> (s: Stream)
        ensures
            s@.len() == self@.len(),
            forall|i: int|
                0 <= i < self@.len() ==> s@[i] == div_bits(
                    self@[i],
                    max_sample(self@, self@.len() as int),
                ),
            s.width == self.width,
            s.height == self.height,
    {
        let ghost orig = self@;
        let mut max = sample_uint(0);
        let mut i: usize = 0;
        while i < self.buffer.len()
            invariant
                0 <= i <= orig.len(),
                self@ == orig,
                max == max_sample(orig, i as int),
            decreases orig.len() - i,
        {
            if sample_gt(self.buffer[i], max) {
                max = self.buffer[i];
            }
            i = i + 1;
        }
        let Stream { buffer: mut buffer, width, height } = self;
        let mut j: usize = 0;
        while j < buffer.len()
            invariant
                0 <= j <= orig.len(),
                buffer@.len() == orig.len(),
                max == max_sample(orig, orig.len() as int),
                forall|k: int| 0 <= k < j ==> buffer@[k] == div_bits(orig[k], max),
                forall|k: int| j <= k < orig.len() ==> buffer@[k] == orig[k],
            decreases orig.len() - j,
        {
            buffer.set(j, sample_div(buffer[j], max));
            j = j + 1;
        }
        Stream { buffer, width, height }
    }

    /// Every sample replaced by its magnitude.
    pub fn absolute(self) -> (s: Stream)
        ensures
            s@.len() == self@.len(),
            forall|i: int| 0 <= i < self@.len() ==> s@[i] == abs_sample(self@[i]),
            s.width == self.width,
            s.height == self.height,
    {
        let ghost orig = self@;
        let Stream { buffer: mut buffer, width, height } = self;
        let mut i: usize = 0;
        while i < buffer.len()
            invariant
                0 <= i <= orig.len(),
                buffer@.len() == orig.len(),
                forall|j: int| 0 <= j < i ==> buffer@[j] == abs_sample(orig[j]),
                forall|j: int| i <= j < orig.len() ==> buffer@[j] == orig[j],
            decreases orig.len() - i,
        {
            buffer.set(i, sample_abs(buffer[i]));
            i = i + 1;
        }
        Stream { buffer, width, height }
    }
}

} // verus!
