pub mod analyzer;
pub mod error;
pub mod expr_check;
pub mod inference;
pub mod laws;
pub mod resolver;
pub mod rules;
pub mod scope;
pub mod stmt_check;
