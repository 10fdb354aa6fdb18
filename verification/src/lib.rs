//! A compiler core for a CSS-preprocessor language: a value model and
//! expression evaluator, a selector engine with parent resolution,
//! unification and superselector checks, a lexer, and an at-rule engine.

pub mod atrule;
pub mod builtin;
pub mod color;
pub mod common;
pub mod css_mode;
pub mod error;
pub mod eval;
pub mod lexer;
pub mod number;
pub mod scope;
pub mod selector;
pub mod selector_list;
pub mod serialize;
pub mod strutil;
pub mod units;
pub mod value;
pub mod value_parse;
