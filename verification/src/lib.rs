//! A layout compiler for GPU buffer types: given an abstract description of
//! scalar, vector, nested-struct and tagged-union types whose byte offsets
//! have already been resolved, it emits GLSL type declarations and accessor
//! functions that read (and optionally write) values packed into a flat
//! array of 32-bit words.
//!
//! - [`ir`] holds the type description model and its well-formedness rules.
//! - [`strfmt`] renders numbers as decimal text with an exact specification.
//! - [`coverage`] computes which fields overlap which 32-bit words.
//! - [`bits`] gives the word-level meaning of the emitted extraction and
//!   packing expressions, with round-trip proofs.
//! - [`glsl`] emits the GLSL text itself; every emitted character is pinned
//!   down by spec functions.

pub mod bits;
pub mod coverage;
pub mod glsl;
pub mod ir;
pub mod strfmt;

pub use glsl::gen_glsl;
