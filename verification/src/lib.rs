//! Typed command registration and dispatch for slash-command style
//! interactions: option schemas, value decoding, and a command tree that
//! routes an invocation path to its registered entry.

pub mod argument_converters;
pub mod arguments;
pub mod choices;
pub mod commands;
pub mod declaration;
pub mod error;
pub mod executor;
pub mod number;
