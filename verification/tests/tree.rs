use sable::ast::expression::{
    AssignExpression, BinaryExpression, BlockExpression, CallExpression, Expression,
    LiteralExpression, NullExpression, VariableExpression,
};
use sable::ast::function::{Function, FunctionParameter};
use sable::ast::statement::{LetStatement, ReturnStatement, Statement};
use sable::ast::tree::AST;
use sable::info::{OperatorType, ValType};
use sable::lexer::lexer::Lexer;
use sable::lowering::error::VoidIllegal;
use sable::lowering::floats::float_literals;
use sable::mir::param::MirParam;
use sable::parser::expected::{expect1, expect2, expect3, expect5, expects};
use sable::parser::parser::Parser;
use sable::lexer::token::TokenType;
use sable::position::Position;
use std::ops::Range;

fn at(start: usize, end: usize) -> Position {
    Position::new(1, start + 1, Range { start, end })
}

fn number(text: &str, start: usize) -> Expression<'_> {
    Expression::LiteralExpression(LiteralExpression::new(text, ValType::I32, at(start, start + text.len())))
}

#[test]
fn type_names_are_as_written() {
    assert_eq!(ValType::Untyped.name(), "untyped");
    assert_eq!(ValType::I32.name(), "i32");
    assert_eq!(ValType::F32.name(), "f32");
    assert_eq!(ValType::Void.name(), "void");
}

#[test]
fn expressions_know_where_they_stand() {
    let lit = LiteralExpression::new("12", ValType::I32, at(0, 2));
    assert_eq!((lit.get_value(), lit.get_type(), lit.get_pos()), ("12", ValType::I32, at(0, 2)));
    let var = VariableExpression::new("x", at(3, 4));
    assert_eq!((var.get_name(), var.get_pos()), ("x", at(3, 4)));
    let null = NullExpression::new(at(5, 9));
    assert_eq!(null.get_pos(), at(5, 9));
    let assign = AssignExpression::new(Some("x"), number("1", 4), at(2, 5));
    assert_eq!(assign.get_asignee(), Some("x"));
    assert_eq!(assign.get_value().get_pos(), at(4, 5));
    assert_eq!(assign.get_pos(), at(2, 5));
    let call = CallExpression::new(at(0, 6), "f", vec![number("1", 2), number("2", 5)]);
    assert_eq!((call.get_callee(), call.get_args().len(), call.get_pos()), ("f", 2, at(0, 6)));
    let binary = BinaryExpression::new(number("1", 0), OperatorType::Div, number("2", 4), at(2, 5));
    assert_eq!(*binary.get_operator(), OperatorType::Div);
    assert_eq!(binary.get_left().get_pos(), at(0, 1));
    assert_eq!(binary.get_right().get_pos(), at(4, 5));
    assert_eq!(Expression::BinaryExpression(binary).get_pos(), at(2, 5));
    assert_eq!(Expression::NullExpression(null).get_pos(), at(5, 9));
    assert_eq!(Expression::AssignExpression(assign).get_pos(), at(2, 5));
    assert_eq!(Expression::CallExpression(call).get_pos(), at(0, 6));
    assert_eq!(Expression::VariableExpression(var).get_pos(), at(3, 4));
    assert_eq!(Expression::LiteralExpression(lit).get_pos(), at(0, 2));
}

#[test]
fn parts_can_be_changed_in_place() {
    let mut binary = BinaryExpression::new(number("1", 0), OperatorType::Add, number("2", 4), at(0, 5));
    *binary.get_left_mut() = number("3", 0);
    *binary.get_right_mut() = number("44", 4);
    assert!(matches!(binary.get_left(), Expression::LiteralExpression(l) if l.get_value() == "3"));
    assert!(matches!(binary.get_right(), Expression::LiteralExpression(l) if l.get_value() == "44"));
    let mut call = CallExpression::new(at(0, 3), "f", Vec::new());
    call.get_args_mut().push(number("1", 2));
    assert_eq!(call.get_args().len(), 1);
    let mut block = BlockExpression::new(Vec::new(), at(0, 2));
    block.get_stmts_mut().push(Statement::Expression(number("1", 1)));
    assert_eq!(block.get_stmts().len(), 1);
    assert!(block.get_at(0).is_some());
    assert!(block.get_at(1).is_none());
    assert_eq!(block.get_pos(), at(0, 2));
    let mut ret = ReturnStatement::new(number("1", 7), ValType::I32, at(0, 8));
    *ret.get_value_mut() = number("2", 7);
    assert!(matches!(ret.get_value(), Expression::LiteralExpression(l) if l.get_value() == "2"));
    assert_eq!((ret.get_type(), ret.get_pos()), (ValType::I32, at(0, 8)));
    let mut decl = LetStatement::new(ValType::I32, "a", None, at(0, 9));
    assert_eq!(decl.get_pos(), at(0, 9));
    *decl.get_assignee_mut() = Some(AssignExpression::new(None, number("1", 12), at(10, 13)));
    assert_eq!((decl.get_name(), *decl.get_type()), ("a", ValType::I32));
    assert!(decl.get_assignee().is_some());
    assert_eq!(decl.get_pos(), at(0, 13));
    assert_eq!(Statement::LetStatement(decl).get_pos(), at(0, 13));
    assert_eq!(Statement::ReturnStatement(ret).get_pos(), at(0, 8));
    assert_eq!(Statement::Expression(number("1", 3)).get_pos(), at(3, 4));
}

#[test]
fn functions_and_trees_hold_their_parts() {
    let param = FunctionParameter::new("x", at(9, 14), ValType::F32);
    assert_eq!((param.get_name(), param.get_val_type(), param.get_pos()), ("x", ValType::F32, at(9, 14)));
    let body = BlockExpression::new(Vec::new(), at(16, 18));
    let f = Function::new("f", vec![param], at(0, 8), ValType::Void, body);
    assert_eq!((f.get_name(), f.get_ret_type(), f.get_pos()), ("f", ValType::Void, at(0, 8)));
    assert_eq!(f.get_params().len(), 1);
    assert_eq!(f.get_body().get_stmts().len(), 0);
    let mut ast = AST::new();
    assert_eq!(ast.get_funcs().len(), 0);
    ast.add_func(f);
    assert_eq!(ast.get_funcs().len(), 1);
    assert_eq!(ast.get_funcs()[0].get_name(), "f");
}

#[test]
fn float_literals_are_listed_in_order() {
    let source = "func f32 f(f32 a) { let f32 b = 1.5 + a * 2.25; b = 3; return f(0.5) - 1.5; }\n\
                  func i32 g() { return 4; } func f32 h() { return 8.0; }";
    let mut parser = Parser::new(Lexer::new(source));
    assert!(parser.parse().is_ok());
    assert_eq!(float_literals(&parser.ast), vec!["1.5", "2.25", "0.5", "1.5", "8.0"]);
    let mut ast = AST::new();
    let inner = Statement::Expression(Expression::LiteralExpression(LiteralExpression::new("2.5", ValType::F32, at(2, 5))));
    let block = Expression::BlockExpression(BlockExpression::new(vec![inner], at(0, 7)));
    let body = BlockExpression::new(vec![Statement::Expression(block)], at(0, 7));
    ast.add_func(Function::new("f", Vec::new(), at(0, 1), ValType::I32, body));
    assert_eq!(float_literals(&ast), vec!["2.5"]);
    assert_eq!(float_literals(&AST::new()), Vec::<&str>::new());
}

#[test]
fn expected_sets_hold_what_was_put_in() {
    let one = expect1(TokenType::Comma);
    assert_eq!(one.kinds(), vec![TokenType::Comma]);
    assert!(expects(&one, TokenType::Comma));
    assert!(!expects(&one, TokenType::Colon));
    let two = expect2(TokenType::Paren(true), TokenType::Paren(false));
    assert_eq!(two.kinds(), vec![TokenType::Paren(true), TokenType::Paren(false)]);
    assert!(expects(&two, TokenType::Paren(false)));
    assert!(!expects(&two, TokenType::Brace(false)));
    let three = expect3(TokenType::Let, TokenType::Var, TokenType::Null);
    assert_eq!(three.kinds().len(), 3);
    assert!(expects(&three, TokenType::Null));
    let five = expect5(TokenType::Plus, TokenType::Minus, TokenType::Mul, TokenType::Div, TokenType::Assign);
    assert_eq!(
        five.kinds(),
        vec![TokenType::Plus, TokenType::Minus, TokenType::Mul, TokenType::Div, TokenType::Assign]
    );
    assert!(expects(&five, TokenType::Assign));
    assert!(!expects(&five, TokenType::Eof));
}

#[test]
fn plain_records_hold_their_fields() {
    let param = MirParam::new("x", ValType::I32);
    assert_eq!((param.get_name(), *param.get_type()), ("x", ValType::I32));
    let fault = VoidIllegal::new(at(3, 7));
    assert_eq!(fault.pos(), at(3, 7));
}
