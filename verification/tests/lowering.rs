use sable::ast::expression::{
    AssignExpression, BinaryExpression, BlockExpression, Expression, LiteralExpression,
    VariableExpression,
};
use sable::ast::function::Function;
use sable::ast::statement::{LetStatement, Statement};
use sable::ast::tree::AST;
use sable::info::{OperatorType, ValType};
use sable::lexer::lexer::Lexer;
use sable::lowering::error::LoweringError;
use sable::lowering::lowerer::Lowerer;
use sable::mir::block::MirBlockId;
use sable::mir::function::{MirFunction, MirFunctionId};
use sable::mir::instruction::{
    AddInst, AllocaInst, CallInst, DivInst, Instruction, LoadInst, MirInstId, MulInst, ReturnInst,
    StoreInst, SubInst,
};
use sable::mir::module::MirModule;
use sable::mir::value::{Constant, MirValue};
use sable::parser::parser::Parser;
use sable::position::Position;
use sable::sema::analyzer::check;
use std::ops::Range;

fn tree(source: &str) -> AST<'_> {
    let mut parser = Parser::new(Lexer::new(source));
    assert!(parser.parse().is_ok(), "the text does not parse");
    parser.ast
}

fn lower<'s>(ast: &AST<'s>) -> Result<MirModule<'s>, Vec<LoweringError<'s>>> {
    Lowerer::new(MirModule::new("test"), ast).lower()
}

fn at(start: usize, end: usize) -> Position {
    Position::new(1, start + 1, Range { start, end })
}

fn whole(v: u64) -> MirValue {
    MirValue::Constant(Constant::IntValue(ValType::I32, v))
}

fn inst(id: usize) -> MirValue {
    MirValue::Inst(MirInstId(id))
}

fn count(f: &MirFunction, which: fn(&Instruction) -> bool) -> usize {
    f.instructions.iter().filter(|i| which(i)).count()
}

#[test]
fn let_of_a_parameter_and_return_of_the_local() {
    let ast = tree("func i32 f(i32 x) { let i32 y = x; return y; }");
    assert_eq!(check(&ast), Ok(()));
    let module = lower(&ast).unwrap();
    assert_eq!(module.get_funcs().len(), 1);
    let f = module.get_func(MirFunctionId(0)).unwrap();
    assert_eq!(f.name(), "f");
    assert_eq!(f.params, vec![ValType::I32]);
    assert_eq!(count(f, |i| matches!(i, Instruction::Alloca(_))), 1);
    assert_eq!(count(f, |i| matches!(i, Instruction::Store(_))), 1);
    assert_eq!(count(f, |i| matches!(i, Instruction::Load(_))), 1);
    assert_eq!(count(f, |i| matches!(i, Instruction::Return(_))), 1);
    assert_eq!(
        f.instructions,
        vec![
            Instruction::Alloca(AllocaInst::new(ValType::I32)),
            Instruction::Store(StoreInst::new(MirInstId(0), MirValue::Param(0))),
            Instruction::Load(LoadInst::new(ValType::I32, MirInstId(0))),
            Instruction::Return(ReturnInst::new(inst(2), ValType::Untyped)),
        ]
    );
    let returned = match f.get_inst(MirInstId(3)).unwrap() {
        Instruction::Return(r) => *r.ret_value(),
        other => panic!("not a return: {:?}", other),
    };
    let loaded_from = match returned {
        MirValue::Inst(id) => match f.get_inst(id).unwrap() {
            Instruction::Load(l) => *l.from(),
            other => panic!("not a load: {:?}", other),
        },
        other => panic!("not the value of an instruction: {:?}", other),
    };
    let stored_to = match f.get_inst(MirInstId(1)).unwrap() {
        Instruction::Store(s) => s.target(),
        other => panic!("not a store: {:?}", other),
    };
    assert_eq!(loaded_from, stored_to);
    assert!(matches!(f.get_inst(stored_to), Some(Instruction::Alloca(_))));
    assert_eq!(f.blocks.len(), 1);
    assert_eq!(f.get_block(MirBlockId(0)).unwrap().name(), "entry");
    assert_eq!(f.get_block(MirBlockId(0)).unwrap().range(), Range { start: 0, end: 3 });
    assert_eq!(f.get_insts(MirBlockId(0)), &f.instructions[..]);
}

#[test]
fn add_checks_and_lowers_to_an_add_and_a_return() {
    let ast = tree("func i32 add(i32 x, i32 y) { return x + y; }");
    assert_eq!(check(&ast), Ok(()));
    let module = lower(&ast).unwrap();
    assert_eq!(module.name(), "test");
    assert_eq!(module.get_funcs().len(), 1);
    let f = &module.get_funcs()[0];
    assert_eq!(f.name(), "add");
    assert_eq!(f.params, vec![ValType::I32, ValType::I32]);
    assert_eq!(
        f.instructions,
        vec![
            Instruction::Add(AddInst::new(MirValue::Param(0), MirValue::Param(1))),
            Instruction::Return(ReturnInst::new(inst(0), ValType::Untyped)),
        ]
    );
}

#[test]
fn locals_are_loaded_and_operators_map_to_their_instructions() {
    let ast = tree("func i32 f() { let i32 a = 6; let i32 b = 3; return a - b * a / b; }");
    let module = lower(&ast).unwrap();
    let f = &module.get_funcs()[0];
    assert_eq!(
        f.instructions,
        vec![
            Instruction::Alloca(AllocaInst::new(ValType::I32)),
            Instruction::Store(StoreInst::new(MirInstId(0), whole(6))),
            Instruction::Alloca(AllocaInst::new(ValType::I32)),
            Instruction::Store(StoreInst::new(MirInstId(2), whole(3))),
            Instruction::Load(LoadInst::new(ValType::I32, MirInstId(0))),
            Instruction::Load(LoadInst::new(ValType::I32, MirInstId(2))),
            Instruction::Load(LoadInst::new(ValType::I32, MirInstId(0))),
            Instruction::Load(LoadInst::new(ValType::I32, MirInstId(2))),
            Instruction::Div(DivInst::new(inst(6), inst(7))),
            Instruction::Mul(MulInst::new(inst(5), inst(8))),
            Instruction::Sub(SubInst::new(inst(4), inst(9))),
            Instruction::Return(ReturnInst::new(inst(10), ValType::Untyped)),
        ]
    );
    assert_eq!(f.blocks[0].range(), Range { start: 0, end: 11 });
}

#[test]
fn let_without_initializer_stores_null() {
    let ast = tree("func i32 f() { let i32 a; return a; }");
    let module = lower(&ast).unwrap();
    assert_eq!(
        module.get_funcs()[0].instructions,
        vec![
            Instruction::Alloca(AllocaInst::new(ValType::I32)),
            Instruction::Store(StoreInst::new(MirInstId(0), MirValue::Constant(Constant::Null))),
            Instruction::Load(LoadInst::new(ValType::I32, MirInstId(0))),
            Instruction::Return(ReturnInst::new(inst(2), ValType::Untyped)),
        ]
    );
}

#[test]
fn assignment_stores_into_the_slot_without_a_load() {
    let ast = tree("func i32 f() { let i32 a; a = 7; return 1; }");
    let module = lower(&ast).unwrap();
    assert_eq!(
        module.get_funcs()[0].instructions,
        vec![
            Instruction::Alloca(AllocaInst::new(ValType::I32)),
            Instruction::Store(StoreInst::new(MirInstId(0), MirValue::Constant(Constant::Null))),
            Instruction::Store(StoreInst::new(MirInstId(0), whole(7))),
            Instruction::Return(ReturnInst::new(whole(1), ValType::Untyped)),
        ]
    );
}

#[test]
fn last_declaration_of_a_name_wins() {
    let ast = tree("func i32 f() { let i32 a = 1; let f32 a; return a; }");
    let module = lower(&ast).unwrap();
    let f = &module.get_funcs()[0];
    assert_eq!(f.instructions.len(), 6);
    assert_eq!(f.instructions[4], Instruction::Load(LoadInst::new(ValType::F32, MirInstId(2))));
}

#[test]
fn names_of_a_nested_block_stay_in_the_flat_table() {
    let mut ast = AST::new();
    let inner = LetStatement::new(ValType::I32, "b", None, at(12, 20));
    let block = BlockExpression::new(vec![Statement::LetStatement(inner)], at(10, 22));
    let uses = Expression::VariableExpression(VariableExpression::new("b", at(24, 25)));
    let body = BlockExpression::new(
        vec![
            Statement::Expression(Expression::BlockExpression(block)),
            Statement::Expression(uses),
        ],
        at(10, 26),
    );
    ast.add_func(Function::new("f", Vec::new(), at(0, 8), ValType::I32, body));
    let module = lower(&ast).unwrap();
    assert_eq!(
        module.get_funcs()[0].instructions,
        vec![
            Instruction::Alloca(AllocaInst::new(ValType::I32)),
            Instruction::Store(StoreInst::new(MirInstId(0), MirValue::Constant(Constant::Null))),
            Instruction::Load(LoadInst::new(ValType::I32, MirInstId(0))),
        ]
    );
}

#[test]
fn call_lowers_its_arguments_then_the_call() {
    let ast = tree(
        "func i32 one() { return 1; }\n\
         func i32 add(i32 x, i32 y) { return add(x, one()); }",
    );
    assert_eq!(check(&ast), Ok(()));
    let module = lower(&ast).unwrap();
    assert_eq!(module.get_funcs().len(), 2);
    assert_eq!(module.find_func("one"), Some(MirFunctionId(0)));
    assert_eq!(module.find_func("add"), Some(MirFunctionId(1)));
    assert_eq!(module.find_func("sub"), None);
    assert_eq!(
        module.get_funcs()[1].instructions,
        vec![
            Instruction::Call(CallInst::new(MirFunctionId(0), Vec::new())),
            Instruction::Call(CallInst::new(MirFunctionId(1), vec![MirValue::Param(0), inst(0)])),
            Instruction::Return(ReturnInst::new(inst(1), ValType::Untyped)),
        ]
    );
}

#[test]
fn functions_are_lowered_behind_those_of_the_module() {
    let ast = tree("func i32 g() { return f(); }");
    let mut base = MirModule::new("base");
    assert_eq!(base.add_func(MirFunction::new("f")), MirFunctionId(0));
    let module = Lowerer::new(base, &ast).lower().unwrap();
    assert_eq!(module.name(), "base");
    assert_eq!(module.get_funcs().len(), 2);
    assert_eq!(module.get_funcs()[0].instructions.len(), 0);
    assert_eq!(module.get_funcs()[1].name(), "g");
    assert_eq!(
        module.get_funcs()[1].instructions[0],
        Instruction::Call(CallInst::new(MirFunctionId(0), Vec::new()))
    );
}

#[test]
fn literals_become_constants() {
    let ast = tree("func i32 f() { 18446744073709551615; 2.5; return 0; }");
    let mut lowerer = Lowerer::new(MirModule::new("test"), &ast);
    lowerer.define_float("2.5", 2.5f64.to_bits());
    let lit = |i: usize| match &ast.get_funcs()[0].get_body().get_stmts()[i] {
        Statement::Expression(Expression::LiteralExpression(l)) => l,
        other => panic!("not a literal: {:?}", other),
    };
    assert_eq!(lowerer.lower_literal_expression(lit(0)), Ok(whole(u64::MAX)));
    assert_eq!(
        lowerer.lower_literal_expression(lit(1)),
        Ok(MirValue::Constant(Constant::FloatValue(ValType::F32, 0x4004_0000_0000_0000)))
    );
    let void = LiteralExpression::new("", ValType::Void, at(0, 0));
    assert_eq!(lowerer.lower_literal_expression(&void), Ok(MirValue::Constant(Constant::Null)));
    let untyped = LiteralExpression::new("x", ValType::Untyped, at(0, 1));
    assert_eq!(
        lowerer.lower_literal_expression(&untyped),
        Err(LoweringError::IllegalType(ValType::Untyped))
    );
    let big = LiteralExpression::new("18446744073709551616", ValType::I32, at(0, 20));
    assert_eq!(
        lowerer.lower_literal_expression(&big),
        Err(LoweringError::InvalidNumericValue("18446744073709551616"))
    );
    let unknown = LiteralExpression::new("3.5", ValType::F32, at(0, 3));
    assert_eq!(
        lowerer.lower_literal_expression(&unknown),
        Err(LoweringError::InvalidNumericValue("3.5"))
    );
    assert!(lowerer.lower().is_ok());
}

#[test]
fn faults_are_gathered_over_statements_and_functions() {
    let ast = tree(
        "func i32 f(i32 p) { x; let i32 a = y; p = 1; g(); return a; }\n\
         func i32 h() { let i32 b = 1.5; return 2; }",
    );
    let errors = lower(&ast).unwrap_err();
    assert_eq!(
        errors,
        vec![
            LoweringError::VariableNotFound("x"),
            LoweringError::VariableNotFound("y"),
            LoweringError::NotAssignable("p"),
            LoweringError::FunctionNotFound("g"),
            LoweringError::VariableNotFound("a"),
            LoweringError::InvalidNumericValue("1.5"),
        ]
    );
}

#[test]
fn names_do_not_pass_from_one_function_to_the_next() {
    let ast = tree("func i32 f(i32 p) { let i32 a = 1; return a; } func i32 g() { a; p; return 1; }");
    assert_eq!(
        lower(&ast).unwrap_err(),
        vec![LoweringError::VariableNotFound("a"), LoweringError::VariableNotFound("p")]
    );
}

#[test]
fn expression_without_value_is_a_fault_where_one_is_needed() {
    let mut ast = AST::new();
    let block = Expression::BlockExpression(BlockExpression::new(Vec::new(), at(4, 6)));
    let one = Expression::LiteralExpression(LiteralExpression::new("1", ValType::I32, at(0, 1)));
    let sum = Expression::BinaryExpression(BinaryExpression::new(one, OperatorType::Add, block, at(0, 6)));
    let target = LetStatement::new(ValType::I32, "a", None, at(0, 1));
    let two = Expression::LiteralExpression(LiteralExpression::new("2", ValType::I32, at(0, 1)));
    let store = AssignExpression::new(Some("a"), two, at(0, 5));
    let init = LetStatement::new(ValType::I32, "b", Some(store), at(0, 9));
    let body = BlockExpression::new(
        vec![
            Statement::Expression(sum),
            Statement::LetStatement(target),
            Statement::LetStatement(init),
        ],
        at(0, 9),
    );
    ast.add_func(Function::new("f", Vec::new(), at(0, 1), ValType::I32, body));
    let mut lowerer = Lowerer::new(MirModule::new("test"), &ast);
    assert_eq!(
        lowerer.lower_func(&ast.get_funcs()[0]),
        Err(vec![LoweringError::ValueExpected, LoweringError::ValueExpected])
    );
    assert_eq!(
        lowerer.builder.module.get_funcs()[0].instructions,
        vec![
            Instruction::Alloca(AllocaInst::new(ValType::I32)),
            Instruction::Store(StoreInst::new(MirInstId(0), MirValue::Constant(Constant::Null))),
            Instruction::Alloca(AllocaInst::new(ValType::I32)),
            Instruction::Store(StoreInst::new(MirInstId(0), whole(2))),
        ]
    );
    assert_eq!(lowerer.get_last_inst(MirFunctionId(0)), MirInstId(3));
    assert_eq!(lowerer.get_last_inst(MirFunctionId(7)), MirInstId(0));
}
