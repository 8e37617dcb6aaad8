pub mod expression;
pub mod function;
pub mod model;
pub mod statement;
pub mod tree;
