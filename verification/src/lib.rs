//! Generation of `Rand` implementations from the structural shape of a type.
//!
//! A [`shape::TypeShape`] describes a declared type: a struct with named
//! fields, a tuple struct, a unit struct, or a tagged union whose variants
//! are any mix of those three. [`expand::expand_rand`] turns such a shape
//! into the source text of an `impl Rand` clause that builds a random
//! instance of the type, drawing each leaf value from `rand::random()`.
//! The exact text produced is pinned down, character for character, by the
//! spec functions beside the generator. The generation is deterministic by
//! that contract, and [`lossless::lemma_expand_lossless`] proves it
//! lossless: the generated text determines the shape it came from.

pub mod expand;
pub mod lossless;
pub mod numeral;
pub mod shape;
