//! A personal lookup store: memorable names mapped to opaque identifier
//! strings, kept in a single TOML document.
//!
//! The crate holds the logic only. It decides what is to be read, written,
//! printed or copied; performing those effects is left to the caller, who
//! hands in the arguments of the invocation and the text of the storage file
//! and gets back a list of actions or a failure.
//!
//! - [`store`]: the mapping itself.
//! - [`order`]: the order of names, in which the store holds and lists them.
//! - [`document`]: the mapping as the text of the storage file.
//! - [`nesting`]: the scan that keeps deeply nested texts from the parser.
//! - [`command`]: the commands, from arguments and store to actions.
//! - [`path`]: where the storage file lies.
//! - [`failure`]: what can go wrong, and the line that says so.
//! - [`text`]: joining names into lines.
//! - [`laws`]: what holds of all of these, stated and proved.

pub mod command;
pub mod document;
pub mod failure;
pub mod laws;
pub mod nesting;
pub mod order;
pub mod path;
pub mod store;
pub mod text;
