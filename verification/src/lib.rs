//! Session logic for an interactive command-line client that discovers,
//! selects, and exchanges typed data with one remote embedded device over
//! a packet radio link.
//!
//! This crate holds the verified core: the typed-value model and the
//! type-directed text marshalling used to write parameters, the decision
//! logic of interactive device selection, the log-block plan built for
//! streaming, the persisted configuration record, and the rendering of
//! listing rows. Radio, console, and file I/O live in the unverified
//! binary around this library.

pub mod config;
pub mod decimal;
pub mod log;
pub mod param;
pub mod select;
pub mod text;
pub mod value;
