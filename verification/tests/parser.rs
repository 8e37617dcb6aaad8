use sable::ast::expression::Expression;
use sable::ast::statement::Statement;
use sable::info::{OperatorType, ValType};
use sable::lexer::lexer::Lexer;
use sable::lexer::token::TokenType;
use sable::parser::error::ParserError;
use sable::parser::parser::Parser;

#[test]
fn test_parser() {
    let source = "abc";
    let lexer = Lexer::new(source);
    let mut parser = Parser::new(lexer);

    let token = parser.lexer.lex();
    assert_eq!(token.token_type, TokenType::Identifier);
    assert_eq!(token.lexeme, "abc");
}

#[test]
fn parses_a_function_with_parameters_and_a_return() {
    let source = "func i32 add(i32 x, i32 y) { return x + y; }";
    let mut parser = Parser::new(Lexer::new(source));
    assert!(parser.parse().is_ok());
    let ast = parser.ast;
    assert_eq!(ast.get_funcs().len(), 1);
    let f = &ast.get_funcs()[0];
    assert_eq!(f.get_name(), "add");
    assert_eq!(f.get_ret_type(), ValType::I32);
    assert_eq!(f.get_params().len(), 2);
    assert_eq!(f.get_params()[0].get_name(), "x");
    assert_eq!(f.get_params()[0].get_val_type(), ValType::I32);
    assert_eq!(f.get_params()[1].get_name(), "y");
    assert_eq!(f.get_body().get_stmts().len(), 1);
    match &f.get_body().get_stmts()[0] {
        Statement::ReturnStatement(r) => match r.get_value() {
            Expression::BinaryExpression(b) => {
                assert_eq!(*b.get_operator(), OperatorType::Add);
                assert!(matches!(b.get_left(), Expression::VariableExpression(v) if v.get_name() == "x"));
                assert!(matches!(b.get_right(), Expression::VariableExpression(v) if v.get_name() == "y"));
            }
            other => panic!("not a binary expression: {:?}", other),
        },
        other => panic!("not a return: {:?}", other),
    }
}

#[test]
fn parses_let_assignment_call_and_precedence() {
    let source = "func f32 g() { let f32 a = 1.5 + 2.5 * 3.5; let i32 b; b = 4; g(); return a; }";
    let mut parser = Parser::new(Lexer::new(source));
    assert!(parser.parse().is_ok());
    let ast = parser.ast;
    let stmts = ast.get_funcs()[0].get_body().get_stmts();
    assert_eq!(stmts.len(), 5);
    match &stmts[0] {
        Statement::LetStatement(l) => {
            assert_eq!(l.get_name(), "a");
            assert_eq!(*l.get_type(), ValType::F32);
            let init = l.get_assignee().as_ref().unwrap();
            assert_eq!(init.get_asignee(), None);
            match init.get_value() {
                Expression::BinaryExpression(sum) => {
                    assert_eq!(*sum.get_operator(), OperatorType::Add);
                    assert!(matches!(sum.get_left(), Expression::LiteralExpression(l) if l.get_value() == "1.5"));
                    match sum.get_right() {
                        Expression::BinaryExpression(product) => {
                            assert_eq!(*product.get_operator(), OperatorType::Mul);
                        }
                        other => panic!("not a product: {:?}", other),
                    }
                }
                other => panic!("not a sum: {:?}", other),
            }
        }
        other => panic!("not a let: {:?}", other),
    }
    assert!(matches!(&stmts[1], Statement::LetStatement(l) if l.get_assignee().is_none()));
    match &stmts[2] {
        Statement::Expression(Expression::AssignExpression(a)) => {
            assert_eq!(a.get_asignee(), Some("b"));
            assert!(matches!(a.get_value(), Expression::LiteralExpression(l) if l.get_type() == ValType::I32));
        }
        other => panic!("not an assignment: {:?}", other),
    }
    assert!(matches!(&stmts[3], Statement::Expression(Expression::CallExpression(c)) if c.get_callee() == "g" && c.get_args().is_empty()));
}

#[test]
fn stray_token_is_reported_with_the_kinds_expected() {
    let mut parser = Parser::new(Lexer::new("abc"));
    let result = parser.parse();
    let errors = result.unwrap_err();
    assert_eq!(errors.len(), 1);
    match &errors[0] {
        ParserError::UnexpectedToken(e) => {
            assert_eq!(e.found.token_type, TokenType::Identifier);
            assert_eq!(e.found.lexeme, "abc");
            assert_eq!(e.expected.kinds(), vec![TokenType::Func, TokenType::Eof]);
        }
        other => panic!("not an unexpected token: {:?}", other),
    }
}

#[test]
fn factor_expects_five_kinds() {
    let mut parser = Parser::new(Lexer::new("func i32 f() { return ; }"));
    let result = parser.parse();
    let errors = result.unwrap_err();
    assert_eq!(errors.len(), 1);
    match &errors[0] {
        ParserError::UnexpectedToken(e) => {
            assert_eq!(e.found.token_type, TokenType::Semicolon);
            assert_eq!(
                e.expected.kinds(),
                vec![
                    TokenType::Integer,
                    TokenType::Float,
                    TokenType::Identifier,
                    TokenType::Null,
                    TokenType::Paren(true)
                ]
            );
        }
        other => panic!("not an unexpected token: {:?}", other),
    }
}

#[test]
fn character_without_token_is_a_lexer_error() {
    let mut parser = Parser::new(Lexer::new("func i32 f() { @; return 1; }"));
    let result = parser.parse();
    let errors = result.unwrap_err();
    assert_eq!(errors.len(), 1);
    assert!(matches!(&errors[0], ParserError::LexerError(e) if e.token.lexeme == "@" && e.token.token_type == TokenType::Error));
}

#[test]
fn faults_of_several_statements_are_gathered() {
    let mut parser = Parser::new(Lexer::new("func i32 f() { let a; return ; }"));
    let result = parser.parse();
    let errors = result.unwrap_err();
    assert_eq!(errors.len(), 2);
    assert!(matches!(&errors[0], ParserError::UnexpectedToken(e) if e.found.lexeme == "a"));
    assert!(matches!(&errors[1], ParserError::UnexpectedToken(e) if e.found.token_type == TokenType::Semicolon));
}

#[test]
fn body_without_end_is_a_fault_and_parsing_ends() {
    let mut parser = Parser::new(Lexer::new("func i32 f() { return 1"));
    let result = parser.parse();
    assert!(result.is_err());
    let mut parser = Parser::new(Lexer::new("func i32 f() {"));
    assert!(parser.parse().is_err());
}

#[test]
fn parser_goes_on_at_the_next_function() {
    let source = "func i32 f( { } func i32 g() { return 1; }";
    let mut parser = Parser::new(Lexer::new(source));
    assert!(parser.parse().is_err());
    assert_eq!(parser.errs.len(), 1);
    assert_eq!(parser.get_ast().get_funcs().len(), 1);
    assert_eq!(parser.get_ast().get_funcs()[0].get_name(), "g");
}

#[test]
fn empty_text_is_an_empty_tree() {
    let mut parser = Parser::new(Lexer::new("  // nothing\n"));
    let result = parser.parse();
    assert!(result.is_ok());
    assert_eq!(result.unwrap().get_funcs().len(), 0);
}
