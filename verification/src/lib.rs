//! A minimal expression language: lambda abstractions with explicit
//! parameter-type annotations, variables, and application.
//!
//! The crate provides the expression tree itself ([`ast`]), a normalizer
//! that rewrites a term to beta-normal form together with the
//! shadowing-based substitution it relies on ([`reduce`]), and a
//! structural type-derivation pass over a persistent variable-type
//! environment ([`types`]).

pub mod ast;
pub mod reduce;
pub mod types;
