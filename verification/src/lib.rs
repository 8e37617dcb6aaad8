//! Sable: the front and middle of a compiler for a small language of typed
//! locals, functions, arithmetic, calls and returns.
//!
//! A text is cut into tokens (`lexer`) and read into a syntax tree (`parser`,
//! `ast`). The tree is checked for scoping, redeclaration and agreement of
//! types (`sema`), and lowered, function by function, into a flat list of
//! instructions over typed values (`lowering`, `mir`). What each step yields
//! is stated as a function of its input (the modules `rules` and `grammar`),
//! and the code is proved to compute that function.

pub mod ast;
pub mod info;
pub mod lexer;
pub mod lowering;
pub mod mir;
pub mod parser;
pub mod position;
pub mod sema;
pub mod table;
pub mod text;
