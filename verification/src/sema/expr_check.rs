use crate::ast::expression::{
    AssignExpression, BinaryExpression, BlockExpression, CallExpression, Expression,
    VariableExpression,
};
use crate::ast::function::Function;
use crate::info::ValType;
use crate::sema::analyzer::{lemma_stmts_keep_outer_scopes, Sema};
use crate::sema::error::{
    reject, reports, AnalyzerError, ExprCheckError, FunctionArgumentMismatch,
    FunctionCheckError, FunctionNotFound, TypeMismatch, VariableNotFound,
};
use crate::sema::inference::infer_expr;
use crate::sema::rules::{args_errors, expr_errors};
use crate::sema::scope::ScopeModel;
use vstd::prelude::*;

verus! {

/// Checks an expression. Leaves the scopes as they were.
pub fn check_expr<'a, 's>(analyzer: &mut Sema<'a, 's>, expr: &Expression<'s>, f: &Function<'s>) -> (r:
    Result<(), Vec<AnalyzerError<'s>>>)
    ensures
        reports(r, expr_errors(old(analyzer).env(), f.ret_type, *expr)),
        final(analyzer).resolver@ == old(analyzer).resolver@,
        final(analyzer).keeps(old(analyzer)),
    decreases expr,
{
    match expr {
        Expression::LiteralExpression(_) => Ok(()),
        Expression::BlockExpression(block_expression) => {
            check_block_expression(analyzer, block_expression, f)
        },
        Expression::AssignExpression(assign_expression) => {
            check_assign_expression(analyzer, assign_expression, f)
        },
        Expression::VariableExpression(variable_expression) => {
            check_variable_expression(analyzer, variable_expression)
        },
        Expression::BinaryExpression(binary_expression) => {
            check_binary_expression(analyzer, binary_expression, f)
        },
        Expression::NullExpression(_) => Ok(()),
        Expression::CallExpression(call_expression) => {
            check_call_expression(analyzer, call_expression, f)
        },
    }
}

/// Checks a call. The function must be defined before the call and take as
/// many parameters as the call has arguments; then the arguments are checked
/// left to right, up to the first that is at fault or whose type is not that
/// of its parameter.
pub fn check_call_expression<'a, 's>(
    analyzer: &mut Sema<'a, 's>,
    call_expression: &CallExpression<'s>,
    f: &Function<'s>,
) -> (r: Result<(), Vec<AnalyzerError<'s>>>)
    ensures
        reports(
            r,
            expr_errors(
                old(analyzer).env(),
                f.ret_type,
                Expression::CallExpression(*call_expression),
            ),
        ),
        final(analyzer).resolver@ == old(analyzer).resolver@,
        final(analyzer).keeps(old(analyzer)),
    decreases call_expression,
{
    let name = call_expression.get_callee();
    let func = match analyzer.funcs.get(name) {
        Some(entry) => entry.def,
        None => {
            return reject(
                AnalyzerError::FuncError(
                    FunctionCheckError::FunctionNotFound(
                        FunctionNotFound::new(name, call_expression.get_pos()),
                    ),
                ),
            );
        },
    };
    let args = call_expression.get_args();
    let params = func.get_params();
    if args.len() != params.len() {
        return reject(
            AnalyzerError::FuncError(
                FunctionCheckError::FunctionArgumentMismatch(
                    FunctionArgumentMismatch::new(
                        func.get_name(),
                        params.len(),
                        args.len(),
                        call_expression.get_pos(),
                    ),
                ),
            ),
        );
    }
    let ghost env = analyzer.env();
    let mut i: usize = 0;
    while i < args.len()
        invariant
            i <= args@.len(),
            args@.len() == params@.len(),
            *args == call_expression.args,
            analyzer.env() == env,
            analyzer.resolver@ == old(analyzer).resolver@,
            analyzer.keeps(old(analyzer)),
            expr_errors(env, f.ret_type, Expression::CallExpression(*call_expression))
                == args_errors(env, f.ret_type, args@, params@, 0),
            args_errors(env, f.ret_type, args@, params@, i as int) == args_errors(
                env,
                f.ret_type,
                args@,
                params@,
                0,
            ),
        decreases args@.len() - i,
    {
        let arg = &args[i];
        match check_expr(analyzer, arg, f) {
            Ok(_) => {},
            Err(errors) => {
                return Err(errors);
            },
        }
        let arg_type = infer_expr(analyzer, arg);
        let param_type = params[i].get_val_type();
        if arg_type != param_type {
            return reject(
                AnalyzerError::ExprError(
                    ExprCheckError::TypeMismatch(
                        TypeMismatch::new(param_type, arg_type, arg.get_pos()),
                    ),
                ),
            );
        }
        i += 1;
    }
    Ok(())
}

/// Checks a block used as an expression: its statements in a scope of their
/// own, all of them, whatever the earlier ones report.
pub fn check_block_expression<'a, 's>(
    analyzer: &mut Sema<'a, 's>,
    block_expression: &BlockExpression<'s>,
    f: &Function<'s>,
) -> (r: Result<(), Vec<AnalyzerError<'s>>>)
    ensures
        reports(
            r,
            expr_errors(
                old(analyzer).env(),
                f.ret_type,
                Expression::BlockExpression(*block_expression),
            ),
        ),
        final(analyzer).resolver@ == old(analyzer).resolver@,
        final(analyzer).keeps(old(analyzer)),
    decreases block_expression, 1int,
{
    analyzer.resolver.enter_scope();
    let r = analyzer.check_block(block_expression, f);
    proof {
        let entered = old(analyzer).resolver@.push(ScopeModel::empty());
        lemma_stmts_keep_outer_scopes(
            old(analyzer).env().entered(),
            f.ret_type,
            block_expression.stmts@,
            0,
        );
        assert(entered.drop_last() == old(analyzer).resolver@);
    }
    analyzer.resolver.exit_scope();
    r
}

/// Checks a binary expression: both operands, and where neither is at fault,
/// that their types agree. Of two operands at fault the left is reported.
pub fn check_binary_expression<'a, 's>(
    analyzer: &mut Sema<'a, 's>,
    binary_expression: &BinaryExpression<'s>,
    f: &Function<'s>,
) -> (r: Result<(), Vec<AnalyzerError<'s>>>)
    ensures
        reports(
            r,
            expr_errors(
                old(analyzer).env(),
                f.ret_type,
                Expression::BinaryExpression(*binary_expression),
            ),
        ),
        final(analyzer).resolver@ == old(analyzer).resolver@,
        final(analyzer).keeps(old(analyzer)),
    decreases binary_expression,
{
    let lhs_checked = check_expr(analyzer, binary_expression.get_left(), f);
    let rhs_checked = check_expr(analyzer, binary_expression.get_right(), f);
    match lhs_checked {
        Ok(_) => {},
        Err(errors) => {
            return Err(errors);
        },
    }
    match rhs_checked {
        Ok(_) => {},
        Err(errors) => {
            return Err(errors);
        },
    }
    let lhs_type = infer_expr(analyzer, binary_expression.get_left());
    let rhs_type = infer_expr(analyzer, binary_expression.get_right());
    if lhs_type == rhs_type {
        return Ok(());
    }
    reject(
        AnalyzerError::ExprError(
            ExprCheckError::TypeMismatch(
                TypeMismatch::new(lhs_type, rhs_type, binary_expression.get_pos()),
            ),
        ),
    )
}

/// Checks the use of a variable: some scope must declare it.
pub fn check_variable_expression<'a, 's>(
    analyzer: &mut Sema<'a, 's>,
    variable_expression: &VariableExpression<'s>,
) -> (r: Result<(), Vec<AnalyzerError<'s>>>)
    ensures
        forall|ret: ValType|
            reports(
                r,
                #[trigger] expr_errors(
                    old(analyzer).env(),
                    ret,
                    Expression::VariableExpression(*variable_expression),
                ),
            ),
        final(analyzer).resolver@ == old(analyzer).resolver@,
        final(analyzer).keeps(old(analyzer)),
{
    let name = variable_expression.get_name();
    if analyzer.resolver.is_declared(name) {
        Ok(())
    } else {
        reject(
            AnalyzerError::ExprError(
                ExprCheckError::VariableNotFound(
                    VariableNotFound::new(name, variable_expression.get_pos()),
                ),
            ),
        )
    }
}

/// Checks an assignment: its value. The target is not looked at.
pub fn check_assign_expression<'a, 's>(
    analyzer: &mut Sema<'a, 's>,
    assign_expression: &AssignExpression<'s>,
    f: &Function<'s>,
) -> (r: Result<(), Vec<AnalyzerError<'s>>>)
    ensures
        reports(
            r,
            expr_errors(
                old(analyzer).env(),
                f.ret_type,
                Expression::AssignExpression(*assign_expression),
            ),
        ),
        final(analyzer).resolver@ == old(analyzer).resolver@,
        final(analyzer).keeps(old(analyzer)),
    decreases assign_expression,
{
    check_expr(analyzer, assign_expression.get_value(), f)
}

} // verus!
