//! Core of a structural ("AST") editor: instead of editing text directly, the
//! user manipulates a typed tree of nodes via short modal commands, and the
//! tree is rendered back to text on every change.
//!
//! The crate provides the generic tree-editing substrate: the node contract
//! any grammar must satisfy ([`ast`]), arena-style storage addressed by stable
//! handles ([`store`]), a cursor-bearing editable tree ([`tree`]), the
//! incremental command interpreter ([`command`]), a JSON-like node grammar
//! with verified rendering ([`json`]), and the pure state machine behind the
//! editor loop ([`editor`]). Terminal I/O lives outside the library.

pub mod ast;
pub mod command;
pub mod editor;
pub mod json;
pub mod store;
pub mod tree;
