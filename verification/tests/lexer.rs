use sable::info::{OperatorType, ValType};
use sable::lexer::lexer::Lexer;
use sable::lexer::token::{Token, TokenData, TokenType};
use sable::position::Position;
use std::ops::Range;

#[test]
fn test_basic_lexer() {
    let source = "";
    let mut lexer = Lexer::new(source);

    let token = lexer.lex();
    assert_eq!(token.token_type, TokenType::Eof);
    assert_eq!(token.lexeme, "");
    assert_eq!(token.pos.line, 1);
    assert_eq!(token.pos.column, 1);
    assert_eq!(token.pos.range, Range { start: 0, end: 0 });
}

#[test]
fn test_lexing_literals() {
    let source = "abc 123 45.67";
    let mut lexer = Lexer::new(source);

    let token = lexer.lex();
    assert_eq!(token.token_type, TokenType::Identifier);
    assert_eq!(token.lexeme, "abc");

    let token = lexer.lex();
    assert_eq!(token.token_type, TokenType::Integer);
    assert_eq!(token.lexeme, "123");

    let token = lexer.lex();
    assert_eq!(token.token_type, TokenType::Float);
    assert_eq!(token.lexeme, "45.67");
}

#[test]
fn test_lexing_types() {
    let source = "i32 f32";
    let mut lexer = Lexer::new(source);

    let token = lexer.lex();
    assert_eq!(token.token_type, TokenType::Type);
    assert_eq!(token.lexeme, "i32");

    let token = lexer.lex();
    assert_eq!(token.token_type, TokenType::Type);
    assert_eq!(token.lexeme, "f32");
}

#[test]
fn lex_symbols() {
    let source = "({:},)";
    let mut lexer = Lexer::new(source);

    let token = lexer.lex();
    assert_eq!(token.token_type, TokenType::Paren(true));
    assert_eq!(token.lexeme, "(");

    let token = lexer.lex();
    assert_eq!(token.token_type, TokenType::Brace(true));
    assert_eq!(token.lexeme, "{");

    let token = lexer.lex();
    assert_eq!(token.token_type, TokenType::Colon);
    assert_eq!(token.lexeme, ":");

    let token = lexer.lex();
    assert_eq!(token.token_type, TokenType::Brace(false));
    assert_eq!(token.lexeme, "}");

    let token = lexer.lex();
    assert_eq!(token.token_type, TokenType::Comma);
    assert_eq!(token.lexeme, ",");

    let token = lexer.lex();
    assert_eq!(token.token_type, TokenType::Paren(false));
    assert_eq!(token.lexeme, ")");
}

#[test]
fn positions_count_bytes_lines_and_columns() {
    let source = "a\u{e9}b //c\n  x1 = 2.5;";
    let mut lexer = Lexer::new(source);

    let token = lexer.lex();
    assert_eq!(token.token_type, TokenType::Identifier);
    assert_eq!(token.lexeme, "a\u{e9}b");
    assert_eq!(token.pos.line, 1);
    assert_eq!(token.pos.column, 1);
    assert_eq!(token.pos.range, Range { start: 0, end: 4 });

    let token = lexer.lex();
    assert_eq!(token.token_type, TokenType::Identifier);
    assert_eq!(token.lexeme, "x1");
    assert_eq!(token.pos.line, 2);
    assert_eq!(token.pos.column, 3);
    assert_eq!(token.pos.range, Range { start: 11, end: 13 });

    let token = lexer.lex();
    assert_eq!(token.token_type, TokenType::Assign);
    let token = lexer.lex();
    assert_eq!(token.token_type, TokenType::Float);
    assert_eq!(token.lexeme, "2.5");
    let token = lexer.lex();
    assert_eq!(token.token_type, TokenType::Semicolon);
    let token = lexer.lex();
    assert_eq!(token.token_type, TokenType::Eof);
    assert_eq!(token.pos.range, Range { start: 20, end: 20 });
}

fn kinds(source: &str) -> Vec<TokenType> {
    let mut lexer = Lexer::new(source);
    let mut found = Vec::new();
    loop {
        let token = lexer.lex();
        let kind = token.token_type;
        found.push(kind);
        if kind == TokenType::Eof {
            return found;
        }
    }
}

#[test]
fn keywords_are_told_from_identifiers() {
    assert_eq!(
        kinds("func return let var null i32 f32 funcs letter nul I32 _x x_1"),
        vec![
            TokenType::Func,
            TokenType::Return,
            TokenType::Let,
            TokenType::Var,
            TokenType::Null,
            TokenType::Type,
            TokenType::Type,
            TokenType::Identifier,
            TokenType::Identifier,
            TokenType::Identifier,
            TokenType::Identifier,
            TokenType::Identifier,
            TokenType::Identifier,
            TokenType::Eof,
        ]
    );
}

#[test]
fn tokens_carry_types_and_operators() {
    let mut lexer = Lexer::new("i32 f32 7 7.5 + - * / = x");
    let expected = [
        (TokenType::Type, Some(TokenData::Type(ValType::I32))),
        (TokenType::Type, Some(TokenData::Type(ValType::F32))),
        (TokenType::Integer, Some(TokenData::Type(ValType::I32))),
        (TokenType::Float, Some(TokenData::Type(ValType::F32))),
        (TokenType::Plus, Some(TokenData::Operator(OperatorType::Add))),
        (TokenType::Minus, Some(TokenData::Operator(OperatorType::Sub))),
        (TokenType::Mul, Some(TokenData::Operator(OperatorType::Mul))),
        (TokenType::Div, Some(TokenData::Operator(OperatorType::Div))),
        (TokenType::Assign, None),
        (TokenType::Identifier, None),
        (TokenType::Eof, None),
    ];
    for (kind, data) in expected {
        let token = lexer.lex();
        assert_eq!(token.token_type, kind);
        assert_eq!(token.data, data);
    }
}

#[test]
fn comments_and_white_space_are_passed_over() {
    assert_eq!(
        kinds("// first\n a // second\n\t\r\n b\u{a0}\u{2003}c //"),
        vec![
            TokenType::Identifier,
            TokenType::Identifier,
            TokenType::Identifier,
            TokenType::Eof
        ]
    );
    assert_eq!(kinds("a / b"), vec![TokenType::Identifier, TokenType::Div, TokenType::Identifier, TokenType::Eof]);
}

#[test]
fn letters_of_any_script_go_on_a_word_but_do_not_begin_one() {
    let mut lexer = Lexer::new("a\u{3b2}\u{663} \u{3b2}");
    let token = lexer.lex();
    assert_eq!(token.token_type, TokenType::Identifier);
    assert_eq!(token.lexeme, "a\u{3b2}\u{663}");
    let token = lexer.lex();
    assert_eq!(token.token_type, TokenType::Error);
    assert_eq!(token.lexeme, "\u{3b2}");
    assert_eq!(token.pos.range, Range { start: 6, end: 8 });
    assert_eq!(lexer.lex().token_type, TokenType::Eof);
}

#[test]
fn numbers_take_one_point() {
    let mut lexer = Lexer::new("12. 1.2.3");
    let token = lexer.lex();
    assert_eq!((token.token_type, token.lexeme), (TokenType::Float, "12."));
    let token = lexer.lex();
    assert_eq!((token.token_type, token.lexeme), (TokenType::Float, "1.2"));
    let token = lexer.lex();
    assert_eq!((token.token_type, token.lexeme), (TokenType::Error, "."));
    let token = lexer.lex();
    assert_eq!((token.token_type, token.lexeme), (TokenType::Integer, "3"));
}

#[test]
fn peek_shows_the_token_that_lex_hands_out() {
    let mut lexer = Lexer::new("a b");
    assert_eq!(lexer.peek().lexeme, "a");
    assert_eq!(lexer.peek().lexeme, "a");
    assert_eq!(lexer.lex().lexeme, "a");
    assert_eq!(lexer.peek().lexeme, "b");
    assert_eq!(lexer.lex().lexeme, "b");
    assert_eq!(lexer.peek().token_type, TokenType::Eof);
    assert_eq!(lexer.lex().token_type, TokenType::Eof);
    assert_eq!(lexer.lex().token_type, TokenType::Eof);
    assert_eq!(lexer.lex().pos.range, Range { start: 3, end: 3 });
}

#[test]
fn nul_character_is_an_end_with_text() {
    let mut lexer = Lexer::new("a\0b");
    assert_eq!(lexer.lex().token_type, TokenType::Identifier);
    let token = lexer.lex();
    assert_eq!(token.token_type, TokenType::Eof);
    assert_eq!(token.lexeme, "\0");
    assert_eq!(token.pos.range, Range { start: 1, end: 2 });
    assert_eq!(lexer.lex().lexeme, "b");
}

#[test]
fn default_token_is_an_empty_end() {
    let token = Token::default();
    assert_eq!(token.token_type, TokenType::Eof);
    assert_eq!(token.lexeme, "");
    assert_eq!(token.data, None);
    assert_eq!(token.pos, Position::new(0, 0, Range { start: 0, end: 0 }));
    assert_eq!(Position::default(), Position::new(0, 0, Range { start: 0, end: 0 }));
    let made = Token::new(TokenType::Comma, ",", Position::new(1, 2, Range { start: 1, end: 2 }), None);
    assert_eq!(made.clone(), made);
}
