//! Lexical analysis for arithmetic expressions.
//!
//! The crate turns source text into a stream of classified, position-tagged
//! tokens.  `token` holds the token data model, `model` the mathematical
//! description of a scan, `lexer` the scanner itself, and `laws` the proofs
//! of the stream-level properties (round-trip, termination, and friends).

pub mod token;

pub mod model;

pub mod lexer;

pub mod laws;
