//! Groth16 proof verification over BLS12-381 with two arithmetic backends.
//!
//! Keys, proofs and public inputs are handed over in the reference
//! representation, which is how the arkworks libraries write them. The fast
//! pipeline carries them over to the representation that the `blst` library
//! reads, combines the public inputs, runs the Miller loops and the final
//! exponentiation there, and compares the outcome with the pairing kept in
//! the processed key. A second pipeline does the same work in the reference
//! backend and serves to hold the first against.
//!
//! What is proved: the encodings and their conversions, down to the numbers
//! that the bytes spell; the negation of points in the fast representation;
//! and the orchestration of the backends, over names for what the backends
//! return. What the backends compute is taken on trust, in
//! [`fast_backend`] and [`reference_backend`].

pub mod conversions;
pub mod encoding;
pub mod error;
pub mod fast;
pub mod fast_backend;
pub mod field;
pub mod negation;
pub mod point;
pub mod reference;
pub mod reference_backend;
pub mod verification;
