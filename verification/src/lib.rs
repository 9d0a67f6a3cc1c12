//! Incremental recognizers for the IMAP wire grammar.
//!
//! Every recognizer takes the bytes received so far and either returns the
//! decoded value with the unconsumed remainder, asks for more bytes, or
//! rejects the input. Each one is specified by a function over byte
//! sequences that gives its outcome on every input.
pub mod outcome;
pub mod lexical;
pub mod sequence;
pub mod types;
pub mod quota;
pub mod response;
pub mod laws;
