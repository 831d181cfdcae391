//! A pretty-printer for a rule-based configuration language: it renders a syntax tree of
//! procedures, conditionals, switches and statements as canonically indented source text.
pub mod ast;
pub mod formatter;
pub mod laws;
pub mod render;

pub use ast::{Ast, Statement};
pub use formatter::Formatter;
