use crate::lexer::token::Token;
use crate::parser::expected::ExpectedSet;
use vstd::prelude::*;

verus! {

/// A token stands where the grammar asks for one of other kinds.
#[derive(Debug)]
pub struct UnexpectedTokenError<'s> {
    pub expected: ExpectedSet,
    pub found: Token<'s>,
}

impl<'s> UnexpectedTokenError<'s> {
    pub fn new(expected: ExpectedSet, found: Token<'s>) -> (r: Self)
        ensures
            r.expected == expected,
            r.found == found,
    {
        Self { expected, found }
    }
}

/// The lexer could make no token of a character.
#[derive(Debug)]
pub struct LexerError<'s> {
    pub token: Token<'s>,
}

impl<'s> LexerError<'s> {
    pub fn new(token: Token<'s>) -> (r: Self)
        ensures
            r.token == token,
    {
        Self { token }
    }
}

/// What the parser can report.
#[derive(Debug)]
pub enum ParserError<'s> {
    UnexpectedToken(UnexpectedTokenError<'s>),
    LexerError(LexerError<'s>),
}

} // verus!
