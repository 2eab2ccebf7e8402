//! A verified encoder for a minimal WebAssembly binary module.
//!
//! The crate is organized in two layers.  [`emitter::Emitter`] is an
//! append-only byte sink with primitive write operations and a
//! length-backpatch operation.  The types in [`model`] and [`sections`]
//! describe the encodable entities (resource limits, export descriptors,
//! and the two section kinds built from them); each entity knows how to
//! append its own encoding to an `Emitter`.
//!
//! Every write is specified against the pure byte-level encoding
//! functions in [`encoding`], so the bytes produced by the executable
//! code are proved equal, byte for byte, to the mathematical layout of
//! the format.  [`decode`] contains a specification-level parser and the
//! proof that it inverts the encoder, and [`laws`] collects the format's
//! structural guarantees.

pub mod decode;
pub mod emitter;
pub mod encoding;
pub mod laws;
pub mod model;
pub mod sections;
