//! Databending: image bytes reinterpreted as a one-dimensional signal.
//!
//! The library decodes nothing itself: a caller hands it a flat buffer of
//! samples (IEEE 754 binary64 bit patterns), and every transform returns a
//! new buffer. The positional logic — echo boundaries, rotation, masking,
//! edge marking, displacement — is verified; the floating-point arithmetic
//! on the encoded samples is delegated to `rustc_apfloat` behind the
//! trusted functions of `sample`.

pub mod sample;
pub mod stream;
pub mod combine;
pub mod effects;
