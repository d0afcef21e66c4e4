//! A verified rewriter that turns an ordered list of macro names plus one
//! item into a nested chain of function-like macro invocations, so that each
//! named macro is applied to the item in left-to-right order.
//!
//! The rewriter works on its own token model ([`tokens::Token`]): an ordered
//! sequence of atoms (identifiers, literals, punctuation) and balanced
//! groups. It recognises only top-level commas as separators and re-emits
//! every other token unchanged.

pub mod laws;
pub mod rewrite;
pub mod tokens;

pub use rewrite::apply;
