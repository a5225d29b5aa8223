//! SQL text handling: the token model, the pattern matcher and the
//! fingerprinter.

pub mod fingerprint;
pub mod guard;
pub mod pattern;
pub mod token;
