//! A statically typed, call-by-value functional core language: terms and
//! types with named binders, capture-avoiding substitution, alpha-equivalence
//! through a nameless form, a small-step evaluator and a type checker.
pub mod ast;
pub mod ast_util;
pub mod typecheck;
pub mod interpreter;
pub mod evaluate;
pub mod metatheory;
