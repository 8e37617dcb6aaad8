use crate::ast::expression::{
    AssignExpression, BinaryExpression, CallExpression, Expression, VariableExpression,
};
use crate::info::ValType;
use crate::sema::analyzer::Sema;
use crate::sema::rules::infer;
use vstd::prelude::*;

verus! {

/// The type of `expr` where the check stands. Reports nothing and changes
/// nothing.
pub fn infer_expr<'a, 's>(analyzer: &Sema<'a, 's>, expr: &Expression<'s>) -> (r: ValType)
    ensures
        r == infer(analyzer.env(), *expr),
    decreases expr,
{
    match expr {
        Expression::LiteralExpression(literal_expression) => literal_expression.get_type(),
        Expression::BlockExpression(_) => ValType::Untyped,
        Expression::AssignExpression(assign_expression) => {
            infer_assign_expression(analyzer, assign_expression)
        },
        Expression::VariableExpression(variable_expression) => {
            infer_variable_expression(analyzer, variable_expression)
        },
        Expression::BinaryExpression(binary_expression) => {
            infer_binary_expression(analyzer, binary_expression)
        },
        Expression::NullExpression(_) => ValType::Void,
        Expression::CallExpression(call_expression) => {
            infer_call_expression(analyzer, call_expression)
        },
    }
}

/// The type of an assignment: that of its value.
pub fn infer_assign_expression<'a, 's>(
    analyzer: &Sema<'a, 's>,
    assign_expression: &AssignExpression<'s>,
) -> (r: ValType)
    ensures
        r == infer(analyzer.env(), Expression::AssignExpression(*assign_expression)),
    decreases assign_expression,
{
    infer_expr(analyzer, assign_expression.get_value())
}

/// The type of a variable: the one it was declared with, `Untyped` where no
/// scope declares it.
pub fn infer_variable_expression<'a, 's>(
    analyzer: &Sema<'a, 's>,
    variable_expression: &VariableExpression<'s>,
) -> (r: ValType)
    ensures
        r == infer(analyzer.env(), Expression::VariableExpression(*variable_expression)),
{
    match analyzer.resolver.resolve_var(variable_expression.get_name()) {
        Some(symbol) => *symbol.get_type(),
        None => ValType::Untyped,
    }
}

/// The type of a binary expression: that of its operands where they agree,
/// else `Untyped`.
pub fn infer_binary_expression<'a, 's>(
    analyzer: &Sema<'a, 's>,
    binary_expression: &BinaryExpression<'s>,
) -> (r: ValType)
    ensures
        r == infer(analyzer.env(), Expression::BinaryExpression(*binary_expression)),
    decreases binary_expression,
{
    let lhs = infer_expr(analyzer, binary_expression.get_left());
    let rhs = infer_expr(analyzer, binary_expression.get_right());
    if lhs == rhs {
        lhs
    } else {
        ValType::Untyped
    }
}

/// The type of a call: the return type of the function it names, `Untyped`
/// where none of that name is defined yet.
pub fn infer_call_expression<'a, 's>(
    analyzer: &Sema<'a, 's>,
    call_expression: &CallExpression<'s>,
) -> (r: ValType)
    ensures
        r == infer(analyzer.env(), Expression::CallExpression(*call_expression)),
{
    match analyzer.funcs.get(call_expression.get_callee()) {
        Some(entry) => entry.def.get_ret_type(),
        None => ValType::Untyped,
    }
}

} // verus!
