//! Expansion engine for a `seq!`-style repetition macro.
//!
//! The macro body is read as a stream of token trees, split into sections
//! (plain tokens, `a ~ N` concatenations, the loop variable itself, groups and
//! `#( ... )*` repetition groups), checked, and expanded once per value of the
//! loop variable.

pub mod tokens;
pub mod sections;
pub mod syntax;
pub mod context;
pub mod cursor;
pub mod parse;
pub mod visit;
pub mod expand;
pub mod seq_tree;
pub mod laws;
pub mod plain;
pub mod written;
