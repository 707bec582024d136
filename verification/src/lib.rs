//! Encode, decode and derive W3C `traceparent` trace-context identifiers.
//!
//! A [`Traceparent`] carries a format version, a 128-bit trace identifier
//! shared by every operation of one distributed trace, a 64-bit identifier of
//! the parent operation, and a flags byte whose lowest bit records the
//! sampling decision. The crate makes fresh root contexts, derives children
//! that keep the trace identity, and converts contexts to and from the
//! 55-character hyphenated lowercase-hex header text.

pub mod codec;
pub mod hex;

mod entropy;

pub use codec::from_literal;
pub use codec::make;
pub use codec::parse;
pub use codec::ParseError;
pub use codec::Traceparent;
pub use codec::BIT_FLAG_SAMPLED;
