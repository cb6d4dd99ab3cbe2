//! A compiler for TextMate-style grammars.
//!
//! A grammar arrives as a tree of loosely shaped rules ([`parse`]) and leaves
//! as a flat [`compile::SyntaxDefinition`]: four arenas of rules, regexes,
//! partial regexes and repositories that refer to each other by dense 1-based
//! ids. The lowering is specified as a function on mathematical trees in
//! [`model`], the executable compiler in [`compile`] is proved to compute
//! exactly that function, and [`laws`] states what holds of every compiled
//! grammar. The proofs of the laws rest on [`growth`], which follows the
//! arenas through the steps of a compilation.

pub mod compile;
pub mod error;
pub mod growth;
pub mod ids;
pub mod index;
pub mod laws;
pub mod model;
pub mod parse;
pub mod reference;
pub mod rule;
pub mod scope;
pub mod stack;
pub mod text;
