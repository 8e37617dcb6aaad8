use crate::info::{OperatorType, ValType};
use crate::position::Position;
use std::ops::Range;
use vstd::prelude::*;

verus! {

/// The kinds of token. `Paren` and `Brace` hold whether the bracket opens.
#[derive(Debug, Clone, Copy, PartialEq, Eq, Default, Structural)]
pub enum TokenType {
    // Special
    #[default]
    Eof,
    Error,
    // Literal
    Identifier,
    Integer,
    Float,
    // Keywords
    Type,
    Func,
    Return,
    Let,
    Var,
    Null,
    // Symbols
    Paren(bool),
    Brace(bool),
    Colon,
    Comma,
    Semicolon,
    Assign,
    Plus,
    Minus,
    Mul,
    Div,
}

/// What a token carries besides its text: the type that a type name or a
/// number stands for, or the operator that a sign stands for.
#[derive(Debug, Clone, Copy, PartialEq, Eq, Structural)]
pub enum TokenData {
    Type(ValType),
    Operator(OperatorType),
}

/// A token: its kind, its text, where it stands, and what it carries.
#[derive(Debug, PartialEq)]
pub struct Token<'s> {
    pub token_type: TokenType,
    pub lexeme: &'s str,
    pub pos: Position,
    pub data: Option<TokenData>,
}

impl<'s> Clone for Token<'s> {
    fn clone(&self) -> (r: Self)
        ensures
            r == *self,
    {
        Token {
            token_type: self.token_type,
            lexeme: self.lexeme,
            pos: self.pos.clone(),
            data: self.data,
        }
    }
}

impl<'s> Default for Token<'s> {
    /// The end of an empty text.
    fn default() -> (r: Self)
        ensures
            r.token_type == TokenType::Eof,
            r.lexeme@.len() == 0,
            r.pos == (Position { line: 0, column: 0, range: Range { start: 0, end: 0 } }),
            r.data is None,
    {
        let lexeme = "";
        proof {
            reveal_strlit("");
        }
        Token {
            token_type: TokenType::Eof,
            lexeme,
            pos: Position::default(),
            data: None,
        }
    }
}

impl<'s> Token<'s> {
    pub fn new(token_type: TokenType, lexeme: &'s str, pos: Position, data: Option<TokenData>) -> (r:
        Self)
        ensures
            r.token_type == token_type,
            r.lexeme == lexeme,
            r.pos == pos,
            r.data == data,
    {
        Self { token_type, lexeme, pos, data }
    }
}

} // verus!
