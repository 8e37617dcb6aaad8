use sable::ast::expression::{
    AssignExpression, BinaryExpression, BlockExpression, Expression, LiteralExpression,
    NullExpression, VariableExpression,
};
use sable::ast::function::{Function, FunctionParameter};
use sable::ast::statement::{LetStatement, Statement};
use sable::ast::tree::AST;
use sable::info::{OperatorType, ValType};
use sable::lexer::lexer::Lexer;
use sable::parser::parser::Parser;
use sable::position::Position;
use sable::sema::analyzer::{check, Sema};
use sable::sema::error::{AnalyzerError, ExprCheckError, FunctionCheckError};
use sable::sema::inference::infer_expr;
use sable::sema::resolver::Resolver;
use sable::sema::stmt_check::check_let_stmt;
use sable::sema::scope::{NamendValue, Scope};
use std::ops::Range;

fn tree(source: &str) -> AST<'_> {
    let mut parser = Parser::new(Lexer::new(source));
    assert!(parser.parse().is_ok(), "the text does not parse");
    parser.ast
}

fn at(start: usize, end: usize) -> Position {
    Position::new(1, start + 1, Range { start, end })
}

fn is_redeclared(e: &AnalyzerError) -> bool {
    matches!(e, AnalyzerError::VariableRedeclared(_))
}

#[test]
fn valid_program_checks_ok() {
    let ast = tree(
        "func i32 add(i32 x, i32 y) { let i32 z = x + y; return z; }\n\
         func f32 half(f32 v) { return v / 2.0; }\n\
         func i32 main() { let i32 r; r = add(1, 2); return add(r, add(3, 4)); }",
    );
    assert_eq!(check(&ast), Ok(()));
}

#[test]
fn function_may_call_itself() {
    let ast = tree("func i32 add(i32 x, i32 y) { let i32 z = x + y; let i32 xy = 69 + z; return add(1, 2); }");
    assert_eq!(check(&ast), Ok(()));
}

#[test]
fn redeclaration_is_reported_once_at_the_second_occurrence() {
    let ast = tree("func i32 f() { let i32 a = 1; let i32 a = 2; return a; }");
    let stmts = ast.get_funcs()[0].get_body().get_stmts();
    let first = stmts[0].get_pos();
    let second = stmts[1].get_pos();
    let errors = check(&ast).unwrap_err();
    assert_eq!(errors.len(), 1);
    match &errors[0] {
        AnalyzerError::VariableRedeclared(e) => {
            assert_eq!(e.name(), "a");
            assert_eq!(e.pos(), second);
            assert_eq!(e.earlier_pos(), first);
        }
        other => panic!("not a redeclaration: {:?}", other),
    }
}

#[test]
fn let_at_fault_declares_nothing() {
    let ast = tree("func i32 f() { let i32 a = null; let i32 a = 2; return a; }");
    let errors = check(&ast).unwrap_err();
    assert_eq!(errors.len(), 1);
    assert!(matches!(&errors[0], AnalyzerError::ExprError(ExprCheckError::IllegalNullVoid(_))));
    assert_eq!(errors.iter().filter(|e| is_redeclared(e)).count(), 0);
}

#[test]
fn let_of_another_type_leaves_the_scopes_as_they_are() {
    let ast = AST::new();
    let f = Function::new("f", Vec::new(), at(0, 1), ValType::I32, BlockExpression::new(Vec::new(), at(0, 0)));
    let init = AssignExpression::new(
        None,
        Expression::LiteralExpression(LiteralExpression::new("1.5", ValType::F32, at(10, 13))),
        at(8, 13),
    );
    let decl = LetStatement::new(ValType::I32, "a", Some(init), at(0, 7));
    let mut sema = Sema::new(&ast);
    let result = check_let_stmt(&mut sema, &decl, &f);
    let errors = result.unwrap_err();
    assert_eq!(errors.len(), 1);
    assert!(matches!(&errors[0], AnalyzerError::ExprError(ExprCheckError::TypeMismatch(e)) if e.expected() == ValType::I32 && e.found() == ValType::F32 && e.pos() == at(8, 13)));
    assert!(!sema.resolver.is_declared("a"));
    assert_eq!(sema.resolver.depth(), 1);
    let good = LetStatement::new(ValType::I32, "a", None, at(0, 7));
    assert_eq!(check_let_stmt(&mut sema, &good, &f), Ok(()));
    assert!(sema.resolver.is_declared("a"));
    let again = LetStatement::new(
        ValType::I32,
        "a",
        Some(AssignExpression::new(None, Expression::NullExpression(NullExpression::new(at(30, 34))), at(28, 34))),
        at(20, 27),
    );
    let errors = check_let_stmt(&mut sema, &again, &f).unwrap_err();
    assert_eq!(errors.len(), 1);
    assert!(matches!(&errors[0], AnalyzerError::VariableRedeclared(e) if e.earlier_pos() == at(0, 7)));
}

#[test]
fn let_initialized_with_itself_reports_the_missing_variable_alone() {
    let ast = AST::new();
    let f = Function::new("f", Vec::new(), at(0, 1), ValType::I32, BlockExpression::new(Vec::new(), at(0, 0)));
    let init = AssignExpression::new(
        None,
        Expression::VariableExpression(VariableExpression::new("a", Position::new(1, 1, Range { start: 10, end: 11 }))),
        Position::new(1, 1, Range { start: 8, end: 11 }),
    );
    let decl = LetStatement::new(ValType::I32, "a", Some(init), Position::new(1, 1, Range { start: 0, end: 7 }));
    let mut sema = Sema::new(&ast);
    let errors = check_let_stmt(&mut sema, &decl, &f).unwrap_err();
    assert_eq!(errors.len(), 1);
    match &errors[0] {
        AnalyzerError::ExprError(ExprCheckError::VariableNotFound(e)) => {
            assert_eq!(e.name(), "a");
            assert_eq!(e.pos(), Position::new(1, 1, Range { start: 10, end: 11 }));
        }
        other => panic!("not a missing variable: {:?}", other),
    }
    assert!(!sema.resolver.is_declared("a"));
}

#[test]
fn block_reports_one_fault_for_each_statement_at_fault() {
    let ast = tree("func i32 f() { return u; let i32 a = v + 1.5; w; return 1; g(x); }");
    let f = &ast.get_funcs()[0];
    let mut sema = Sema::new(&ast);
    let errors = sema.check_block(f.get_body(), f).unwrap_err();
    assert_eq!(errors.len(), 4);
    for (error, name) in errors.iter().zip(["u", "v", "w"]) {
        assert!(matches!(error, AnalyzerError::ExprError(ExprCheckError::VariableNotFound(e)) if e.name() == name));
    }
    assert!(matches!(&errors[3], AnalyzerError::FuncError(FunctionCheckError::FunctionNotFound(e)) if e.name() == "g"));
    let one = tree("func i32 f() { return u; }");
    let f = &one.get_funcs()[0];
    let mut sema = Sema::new(&one);
    assert_eq!(sema.check_block(f.get_body(), f).unwrap_err().len(), 1);
}

#[test]
fn third_declaration_refers_to_the_first() {
    let ast = tree("func i32 f() { let i32 a; let i32 a; let i32 a; return 1; }");
    let first = ast.get_funcs()[0].get_body().get_stmts()[0].get_pos();
    let errors = check(&ast).unwrap_err();
    assert_eq!(errors.len(), 2);
    for e in errors.iter() {
        assert!(matches!(e, AnalyzerError::VariableRedeclared(r) if r.earlier_pos() == first));
    }
}

#[test]
fn parameter_and_local_share_a_scope() {
    let ast = tree("func i32 f(i32 a) { let i32 a = 1; return a; }");
    let param = ast.get_funcs()[0].get_params()[0].get_pos();
    let errors = check(&ast).unwrap_err();
    assert_eq!(errors.len(), 1);
    assert!(matches!(&errors[0], AnalyzerError::VariableRedeclared(e) if e.earlier_pos() == param));
}

fn shadowing_function<'s>() -> Function<'s> {
    let inner = LetStatement::new(
        ValType::F32,
        "a",
        Some(AssignExpression::new(
            None,
            Expression::LiteralExpression(LiteralExpression::new("1.5", ValType::F32, at(30, 33))),
            at(28, 33),
        )),
        at(20, 27),
    );
    let block = BlockExpression::new(vec![Statement::LetStatement(inner)], at(18, 35));
    let outer = LetStatement::new(ValType::I32, "a", None, at(10, 16));
    let body = BlockExpression::new(
        vec![
            Statement::LetStatement(outer),
            Statement::Expression(Expression::BlockExpression(block)),
        ],
        at(10, 35),
    );
    Function::new("f", Vec::new(), at(0, 8), ValType::I32, body)
}

#[test]
fn shadowing_in_a_nested_block_is_not_reported() {
    let mut ast = AST::new();
    ast.add_func(shadowing_function());
    assert_eq!(check(&ast), Ok(()));
}

#[test]
fn nested_scope_ends_with_its_block() {
    let mut ast = AST::new();
    let inner = LetStatement::new(ValType::I32, "b", None, at(12, 20));
    let block = BlockExpression::new(vec![Statement::LetStatement(inner)], at(10, 22));
    let uses = Expression::VariableExpression(VariableExpression::new("b", at(24, 25)));
    let body = BlockExpression::new(
        vec![
            Statement::Expression(Expression::BlockExpression(block)),
            Statement::Expression(uses),
        ],
        at(10, 26),
    );
    ast.add_func(Function::new("f", Vec::new(), at(0, 8), ValType::I32, body));
    let errors = check(&ast).unwrap_err();
    assert_eq!(errors.len(), 1);
    match &errors[0] {
        AnalyzerError::ExprError(ExprCheckError::VariableNotFound(e)) => {
            assert_eq!(e.name(), "b");
            assert_eq!(e.pos(), at(24, 25));
        }
        other => panic!("not a missing variable: {:?}", other),
    }
}

#[test]
fn every_statement_of_a_nested_block_is_checked() {
    let mut ast = AST::new();
    let x = Expression::VariableExpression(VariableExpression::new("x", at(12, 13)));
    let y = Expression::VariableExpression(VariableExpression::new("y", at(15, 16)));
    let block = BlockExpression::new(vec![Statement::Expression(x), Statement::Expression(y)], at(10, 18));
    let body = BlockExpression::new(vec![Statement::Expression(Expression::BlockExpression(block))], at(10, 18));
    ast.add_func(Function::new("f", Vec::new(), at(0, 8), ValType::I32, body));
    let errors = check(&ast).unwrap_err();
    assert_eq!(errors.len(), 2);
    assert!(matches!(&errors[0], AnalyzerError::ExprError(ExprCheckError::VariableNotFound(e)) if e.name() == "x"));
    assert!(matches!(&errors[1], AnalyzerError::ExprError(ExprCheckError::VariableNotFound(e)) if e.name() == "y"));
}

#[test]
fn binary_of_int_and_float_is_untyped_and_a_mismatch() {
    let ast = tree("func i32 f() { 1 + 2.5; return 1; }");
    let f = &ast.get_funcs()[0];
    let expr = match &f.get_body().get_stmts()[0] {
        Statement::Expression(e) => e,
        other => panic!("not an expression: {:?}", other),
    };
    let sema = Sema::new(&ast);
    assert_eq!(infer_expr(&sema, expr), ValType::Untyped);
    let errors = check(&ast).unwrap_err();
    assert_eq!(errors.len(), 1);
    match &errors[0] {
        AnalyzerError::ExprError(ExprCheckError::TypeMismatch(e)) => {
            assert_eq!(e.expected(), ValType::I32);
            assert_eq!(e.found(), ValType::F32);
            assert_eq!(e.pos(), expr.get_pos());
        }
        other => panic!("not a mismatch: {:?}", other),
    }
}

#[test]
fn operand_at_fault_ends_the_check_of_a_binary_expression() {
    let ast = tree("func i32 f() { x + 1; 1.5 + y; x + y; return 1; }");
    let errors = check(&ast).unwrap_err();
    assert_eq!(errors.len(), 3);
    assert!(matches!(&errors[0], AnalyzerError::ExprError(ExprCheckError::VariableNotFound(e)) if e.name() == "x"));
    assert!(matches!(&errors[1], AnalyzerError::ExprError(ExprCheckError::VariableNotFound(e)) if e.name() == "y"));
    assert!(matches!(&errors[2], AnalyzerError::ExprError(ExprCheckError::VariableNotFound(e)) if e.name() == "x"));
}

#[test]
fn inference_follows_the_rules() {
    let ast = tree("func f32 f(i32 a, f32 b) { return b; }");
    let mut sema = Sema::new(&ast);
    assert!(sema.analyze().is_ok());
    sema.resolver.enter_scope();
    sema.resolver.define_var("a", NamendValue::new(ValType::I32, at(0, 1)));
    sema.resolver.define_var("b", NamendValue::new(ValType::F32, at(2, 3)));
    let var = |name| Expression::VariableExpression(VariableExpression::new(name, at(0, 1)));
    let lit = |text, ty| Expression::LiteralExpression(LiteralExpression::new(text, ty, at(0, 1)));
    assert_eq!(infer_expr(&sema, &lit("1", ValType::I32)), ValType::I32);
    assert_eq!(infer_expr(&sema, &lit("1.0", ValType::F32)), ValType::F32);
    assert_eq!(infer_expr(&sema, &lit("?", ValType::Untyped)), ValType::Untyped);
    assert_eq!(infer_expr(&sema, &var("a")), ValType::I32);
    assert_eq!(infer_expr(&sema, &var("b")), ValType::F32);
    assert_eq!(infer_expr(&sema, &var("c")), ValType::Untyped);
    assert_eq!(infer_expr(&sema, &Expression::NullExpression(NullExpression::new(at(0, 4)))), ValType::Void);
    let block = Expression::BlockExpression(BlockExpression::new(Vec::new(), at(0, 2)));
    assert_eq!(infer_expr(&sema, &block), ValType::Untyped);
    let assign = Expression::AssignExpression(AssignExpression::new(Some("a"), var("b"), at(0, 5)));
    assert_eq!(infer_expr(&sema, &assign), ValType::F32);
    let same = Expression::BinaryExpression(BinaryExpression::new(var("a"), OperatorType::Mul, lit("2", ValType::I32), at(0, 5)));
    assert_eq!(infer_expr(&sema, &same), ValType::I32);
    let mixed = Expression::BinaryExpression(BinaryExpression::new(var("a"), OperatorType::Mul, var("b"), at(0, 5)));
    assert_eq!(infer_expr(&sema, &mixed), ValType::Untyped);
    let call = Expression::CallExpression(sable::ast::expression::CallExpression::new(at(0, 3), "f", Vec::new()));
    assert_eq!(infer_expr(&sema, &call), ValType::F32);
    let unknown = Expression::CallExpression(sable::ast::expression::CallExpression::new(at(0, 3), "g", Vec::new()));
    assert_eq!(infer_expr(&sema, &unknown), ValType::Untyped);
}

#[test]
fn let_with_null_initializer_is_illegal() {
    let ast = tree("func i32 f() { let i32 a = null; return 1; }");
    let init = match &ast.get_funcs()[0].get_body().get_stmts()[0] {
        Statement::LetStatement(l) => l.get_assignee().as_ref().unwrap().get_pos(),
        other => panic!("not a let: {:?}", other),
    };
    let errors = check(&ast).unwrap_err();
    assert_eq!(errors.len(), 1);
    assert!(matches!(&errors[0], AnalyzerError::ExprError(ExprCheckError::IllegalNullVoid(e)) if e.pos() == init));
}

#[test]
fn let_with_untyped_literal_is_illegal() {
    let mut ast = AST::new();
    let init = AssignExpression::new(
        None,
        Expression::LiteralExpression(LiteralExpression::new("x", ValType::Untyped, at(14, 15))),
        at(12, 15),
    );
    let l = LetStatement::new(ValType::I32, "a", Some(init), at(4, 11));
    let body = BlockExpression::new(vec![Statement::LetStatement(l)], at(4, 15));
    ast.add_func(Function::new("f", Vec::new(), at(0, 3), ValType::I32, body));
    let errors = check(&ast).unwrap_err();
    assert_eq!(errors.len(), 1);
    assert!(matches!(&errors[0], AnalyzerError::ExprError(ExprCheckError::IllegalNullVoid(e)) if e.pos() == at(12, 15)));
}

#[test]
fn let_with_initializer_of_another_type_is_a_mismatch() {
    let ast = tree("func i32 f() { let i32 a = 1.5; let i32 c = 1; let f32 b = c; return c; }");
    let errors = check(&ast).unwrap_err();
    assert_eq!(errors.len(), 2);
    assert!(matches!(&errors[0], AnalyzerError::ExprError(ExprCheckError::TypeMismatch(e)) if e.expected() == ValType::I32 && e.found() == ValType::F32));
    assert!(matches!(&errors[1], AnalyzerError::ExprError(ExprCheckError::TypeMismatch(e)) if e.expected() == ValType::F32 && e.found() == ValType::I32));
}

#[test]
fn unknown_callee_is_reported_and_its_arguments_are_not_checked() {
    let ast = tree("func i32 f() { g(x, 1 + 2.5); return 1; }");
    let call = ast.get_funcs()[0].get_body().get_stmts()[0].get_pos();
    let errors = check(&ast).unwrap_err();
    assert_eq!(errors.len(), 1);
    match &errors[0] {
        AnalyzerError::FuncError(FunctionCheckError::FunctionNotFound(e)) => {
            assert_eq!(e.name(), "g");
            assert_eq!(e.pos(), call);
        }
        other => panic!("not a missing function: {:?}", other),
    }
}

#[test]
fn function_is_not_known_before_its_definition() {
    let ast = tree("func i32 f() { return g(); } func i32 g() { return 1; }");
    let errors = check(&ast).unwrap_err();
    assert_eq!(errors.len(), 1);
    assert!(matches!(&errors[0], AnalyzerError::FuncError(FunctionCheckError::FunctionNotFound(e)) if e.name() == "g"));
}

#[test]
fn call_with_wrong_number_of_arguments() {
    let ast = tree("func i32 g(i32 a, i32 b) { return a; } func i32 f() { g(1); return 1; }");
    let errors = check(&ast).unwrap_err();
    assert_eq!(errors.len(), 1);
    match &errors[0] {
        AnalyzerError::FuncError(FunctionCheckError::FunctionArgumentMismatch(e)) => {
            assert_eq!(e.name(), "g");
            assert_eq!(e.expected(), 2);
            assert_eq!(e.found(), 1);
        }
        other => panic!("not an argument mismatch: {:?}", other),
    }
}

#[test]
fn first_argument_of_wrong_type_ends_the_check_of_a_call() {
    let ast = tree("func i32 g(i32 a, i32 b, i32 c) { return a; } func i32 f() { g(1, 2.5, x); return 1; }");
    let errors = check(&ast).unwrap_err();
    assert_eq!(errors.len(), 1);
    match &errors[0] {
        AnalyzerError::ExprError(ExprCheckError::TypeMismatch(e)) => {
            assert_eq!(e.expected(), ValType::I32);
            assert_eq!(e.found(), ValType::F32);
        }
        other => panic!("not a mismatch: {:?}", other),
    }
}

#[test]
fn argument_at_fault_ends_the_check_of_a_call() {
    let ast = tree("func i32 g(i32 a, i32 b) { return a; } func i32 f() { g(x, 2.5); return 1; }");
    let errors = check(&ast).unwrap_err();
    assert_eq!(errors.len(), 1);
    assert!(matches!(&errors[0], AnalyzerError::ExprError(ExprCheckError::VariableNotFound(e)) if e.name() == "x"));
}

#[test]
fn return_of_another_type_is_a_mismatch() {
    let ast = tree("func i32 f() { return 1.5; }");
    let errors = check(&ast).unwrap_err();
    assert_eq!(errors.len(), 1);
    assert!(matches!(&errors[0], AnalyzerError::ExprError(ExprCheckError::TypeMismatch(e)) if e.expected() == ValType::I32 && e.found() == ValType::F32));
}

#[test]
fn return_of_null_is_illegal() {
    let ast = tree("func i32 f() { return null; }");
    let errors = check(&ast).unwrap_err();
    assert_eq!(errors.len(), 1);
    assert!(matches!(&errors[0], AnalyzerError::ExprError(ExprCheckError::IllegalNullVoid(_))));
}

#[test]
fn assignment_target_is_not_looked_at() {
    let ast = tree("func i32 f() { nowhere = 1; return 1; }");
    assert_eq!(check(&ast), Ok(()));
}

#[test]
fn redefined_function_is_reported_once_and_checking_continues() {
    let ast = tree(
        "func i32 f() { return 1; }\n\
         func i32 f() { return x; }\n\
         func i32 g() { return y; }",
    );
    let first = ast.get_funcs()[0].get_pos();
    let second = ast.get_funcs()[1].get_pos();
    let errors = check(&ast).unwrap_err();
    assert_eq!(errors.len(), 2);
    match &errors[0] {
        AnalyzerError::FunctionAlreadyDefined(e) => {
            assert_eq!(e.name(), "f");
            assert_eq!(e.pos(), second);
            assert_eq!(e.earlier(), first);
        }
        other => panic!("not a redefinition: {:?}", other),
    }
    assert!(matches!(&errors[1], AnalyzerError::ExprError(ExprCheckError::VariableNotFound(e)) if e.name() == "y"));
    let redefinitions = errors.iter().filter(|e| matches!(e, AnalyzerError::FunctionAlreadyDefined(_))).count();
    assert_eq!(redefinitions, 1);
}

#[test]
fn analyze_goes_on_behind_a_redefined_function() {
    let p = at(0, 1);
    let one = || Statement::ReturnStatement(sable::ast::statement::ReturnStatement::new(
        Expression::LiteralExpression(LiteralExpression::new("1", ValType::I32, at(0, 1))),
        ValType::I32,
        at(0, 1),
    ));
    let mut ast = AST::new();
    ast.add_func(Function::new("f", Vec::new(), p.clone(), ValType::I32, BlockExpression::new(vec![one()], p.clone())));
    ast.add_func(Function::new("f", Vec::new(), p.clone(), ValType::I32, BlockExpression::new(vec![one()], p.clone())));
    let u = Statement::ReturnStatement(sable::ast::statement::ReturnStatement::new(
        Expression::VariableExpression(VariableExpression::new("u", p.clone())),
        ValType::I32,
        p.clone(),
    ));
    ast.add_func(Function::new("g", Vec::new(), p.clone(), ValType::I32, BlockExpression::new(vec![u], p.clone())));
    let mut sema = Sema::new(&ast);
    let errs = sema.analyze().unwrap_err();
    assert_eq!(errs.len(), 2);
    assert!(matches!(&errs[0], AnalyzerError::FunctionAlreadyDefined(e) if e.name() == "f"));
    assert!(matches!(&errs[1], AnalyzerError::ExprError(ExprCheckError::VariableNotFound(e)) if e.name() == "u"));
}

#[test]
fn check_is_repeatable() {
    let ast = tree(
        "func i32 f(i32 a) { let i32 a = 1.5; return b + g(1); }\n\
         func f32 f() { return 1; }\n\
         func i32 h() { return f(2.5, 1); }",
    );
    let first = check(&ast);
    let second = check(&ast);
    assert!(first.is_err());
    assert_eq!(first, second);
    let valid = tree("func i32 f() { return 1; }");
    assert_eq!(check(&valid), check(&valid));
}

#[test]
fn analyze_adds_to_the_faults_found_so_far() {
    let ast = tree("func i32 f() { return x; }");
    let mut sema = Sema::new(&ast);
    assert_eq!(sema.analyze().unwrap_err().len(), 1);
    let again = sema.analyze().unwrap_err();
    assert_eq!(again.len(), 2);
    assert!(matches!(&again[1], AnalyzerError::FunctionAlreadyDefined(_)));
    assert_eq!(sema.get_func(0).get_name(), "f");
}

#[test]
fn resolver_resolves_innermost_first() {
    let mut resolver = Resolver::new();
    assert_eq!(resolver.depth(), 1);
    assert!(!resolver.is_declared("a"));
    resolver.define_var("a", NamendValue::new(ValType::I32, at(0, 1)));
    resolver.enter_scope();
    assert!(resolver.is_declared("a"));
    assert!(resolver.resolve_local("a").is_none());
    assert_eq!(*resolver.resolve_var("a").unwrap().get_type(), ValType::I32);
    resolver.define_var("a", NamendValue::new(ValType::F32, at(5, 6)));
    assert_eq!(*resolver.resolve_var("a").unwrap().get_type(), ValType::F32);
    assert_eq!(*resolver.resolve_var("a").unwrap().get_pos(), at(5, 6));
    assert_eq!(*resolver.resolve_local("a").unwrap().get_type(), ValType::F32);
    resolver.define_var("a", NamendValue::new(ValType::Void, at(7, 8)));
    assert_eq!(*resolver.resolve_var("a").unwrap().get_type(), ValType::Void);
    resolver.exit_scope();
    assert_eq!(*resolver.resolve_var("a").unwrap().get_type(), ValType::I32);
    assert!(resolver.resolve_var("b").is_none());
    resolver.exit_scope();
    assert_eq!(resolver.depth(), 0);
    resolver.define_var("c", NamendValue::new(ValType::I32, at(0, 1)));
    assert!(!resolver.is_declared("c"));
    assert!(!resolver.is_declared("a"));
}

#[test]
fn scope_declares_and_overwrites() {
    let mut scope = Scope::new();
    assert!(!scope.is_declared("a"));
    scope.add_variable("a", NamendValue::new(ValType::I32, at(0, 1)));
    assert!(scope.is_declared("a"));
    scope.add_variable("a", NamendValue::new(ValType::F32, at(2, 3)));
    assert_eq!(*scope.get_variable("a").unwrap().get_type(), ValType::F32);
    assert!(scope.get_variable("b").is_none());
}

#[test]
fn later_parameter_of_a_name_stays() {
    let mut ast = AST::new();
    let params = vec![
        FunctionParameter::new("a", at(0, 1), ValType::I32),
        FunctionParameter::new("a", at(2, 3), ValType::F32),
    ];
    let value = Expression::VariableExpression(VariableExpression::new("a", at(5, 6)));
    let ret = sable::ast::statement::ReturnStatement::new(value, ValType::Untyped, at(4, 6));
    let body = BlockExpression::new(vec![Statement::ReturnStatement(ret)], at(4, 6));
    ast.add_func(Function::new("f", params, at(0, 3), ValType::F32, body));
    assert_eq!(check(&ast), Ok(()));
}
