//! Test-support toolkit for a ledger-simulation engine.
//!
//! The core of the crate is the canonical identifier codec: conversions from
//! many native representations (integers, byte sequences, text) into a single
//! tagged identifier type, together with the parser for its canonical textual
//! form. The codec is pure and stateless; every conversion is specified and
//! verified, and the laws relating the parser to the canonical rendering are
//! proved in [`laws`].
//!
//! Around the codec, [`engine::EngineInterface`] is the decision layer of
//! the interface that test suites drive a ledger simulator through: the
//! engine itself is an outside service, so the settings, transaction shapes
//! and result folding that the interface decides are verified here, and the
//! unverified glue performs the engine calls.

pub mod engine;
pub mod identifier;
pub mod text;
pub mod laws;
pub mod to_id;
