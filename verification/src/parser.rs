pub mod error;
pub mod expected;
pub mod grammar;
pub mod parser;
