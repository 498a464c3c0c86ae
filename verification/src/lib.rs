//! Evaluation of a lookup function over encrypted small integers.
//!
//! The crate covers what surrounds a programmable bootstrap: the fixed-point
//! encoding of messages, the construction of the bootstrap's accumulator with
//! its negacyclic layout, and the order in which a batch of messages is
//! encoded, encrypted, combined, key-switched, bootstrapped and decrypted.
//!
//! The cryptographic primitives themselves are those of `concrete_core`. The
//! module [`engine`] states what is believed of them; everything else is
//! proved from those statements.

pub mod accumulator;
pub mod encoding;
pub mod engine;
pub mod error;
pub mod lwe;
pub mod pipeline;
