pub mod block;
pub mod builder;
pub mod error;
pub mod function;
pub mod instruction;
pub mod module;
pub mod param;
pub mod value;
