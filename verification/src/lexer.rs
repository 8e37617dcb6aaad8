pub mod chars;
pub mod lexer;
pub mod rules;
pub mod token;
