use crate::ast::function::Function;
use crate::ast::statement::{LetStatement, ReturnStatement, Statement};
use crate::info::ValType;
use crate::position::Position;
use crate::sema::analyzer::Sema;
use crate::sema::error::{
    reject, reports, AnalyzerError, ExprCheckError, IllegalNullUntyped, TypeMismatch,
    VariableRedeclared,
};
use crate::sema::expr_check::check_expr;
use crate::sema::inference::infer_expr;
use crate::sema::rules::{stmt_errors, stmt_scopes, value_errors};
use crate::sema::scope::NamendValue;
use vstd::prelude::*;

verus! {

/// Checks a statement. Only a `let` without fault changes the scopes.
pub fn check_stmt<'a, 's>(analyzer: &mut Sema<'a, 's>, stmt: &Statement<'s>, f: &Function<'s>) -> (r:
    Result<(), Vec<AnalyzerError<'s>>>)
    ensures
        reports(r, stmt_errors(old(analyzer).env(), f.ret_type, *stmt)),
        final(analyzer).resolver@ == stmt_scopes(old(analyzer).env(), f.ret_type, *stmt),
        final(analyzer).keeps(old(analyzer)),
    decreases stmt,
{
    match stmt {
        Statement::Expression(expression) => check_expr(analyzer, expression, f),
        Statement::ReturnStatement(ret_statement) => check_ret_stmt(analyzer, ret_statement, f),
        Statement::LetStatement(let_statement) => check_let_stmt(analyzer, let_statement, f),
    }
}

/// The fault of a value of type `found` where one of type `expected` is
/// required, if it is one.
pub fn check_value<'s>(expected: ValType, found: ValType, pos: Position) -> (r: Result<
    (),
    Vec<AnalyzerError<'s>>,
>)
    ensures
        reports(r, value_errors(expected, found, pos)),
{
    if found == ValType::Void || found == ValType::Untyped {
        reject(AnalyzerError::ExprError(ExprCheckError::IllegalNullVoid(IllegalNullUntyped::new(pos))))
    } else if found != expected {
        reject(
            AnalyzerError::ExprError(
                ExprCheckError::TypeMismatch(TypeMismatch::new(expected, found, pos)),
            ),
        )
    } else {
        Ok(())
    }
}

/// Checks a `return`: its value, and where that is without fault, that it has
/// the type that the function returns.
pub fn check_ret_stmt<'a, 's>(
    analyzer: &mut Sema<'a, 's>,
    ret_statement: &ReturnStatement<'s>,
    f: &Function<'s>,
) -> (r: Result<(), Vec<AnalyzerError<'s>>>)
    ensures
        reports(
            r,
            stmt_errors(old(analyzer).env(), f.ret_type, Statement::ReturnStatement(*ret_statement)),
        ),
        final(analyzer).resolver@ == old(analyzer).resolver@,
        final(analyzer).keeps(old(analyzer)),
    decreases ret_statement,
{
    let value = ret_statement.get_value();
    match check_expr(analyzer, value, f) {
        Ok(_) => {},
        Err(errors) => {
            return Err(errors);
        },
    }
    let val_type = infer_expr(analyzer, value);
    check_value(f.get_ret_type(), val_type, value.get_pos())
}

/// Checks a `let`. A name that the innermost scope already declares is
/// reported. Else the initializer, where there is one, is checked and must
/// have the declared type. A `let` without fault declares its name; one that
/// is at fault leaves the scopes as they are.
pub fn check_let_stmt<'a, 's>(
    analyzer: &mut Sema<'a, 's>,
    let_statement: &LetStatement<'s>,
    f: &Function<'s>,
) -> (r: Result<(), Vec<AnalyzerError<'s>>>)
    ensures
        reports(
            r,
            stmt_errors(old(analyzer).env(), f.ret_type, Statement::LetStatement(*let_statement)),
        ),
        final(analyzer).resolver@ == stmt_scopes(
            old(analyzer).env(),
            f.ret_type,
            Statement::LetStatement(*let_statement),
        ),
        r is Err ==> final(analyzer).resolver@ == old(analyzer).resolver@,
        final(analyzer).keeps(old(analyzer)),
    decreases let_statement,
{
    let name = let_statement.get_name();
    if let Some(earlier) = analyzer.resolver.resolve_local(name) {
        let earlier_pos = earlier.get_pos().clone();
        return reject(
            AnalyzerError::VariableRedeclared(
                VariableRedeclared::new(name, let_statement.get_pos(), earlier_pos),
            ),
        );
    }
    if let Some(assignee) = let_statement.get_assignee() {
        match check_expr(analyzer, assignee.get_value(), f) {
            Ok(_) => {},
            Err(errors) => {
                return Err(errors);
            },
        }
        let val_type = infer_expr(analyzer, assignee.get_value());
        match check_value(*let_statement.get_type(), val_type, assignee.get_pos()) {
            Ok(_) => {},
            Err(errors) => {
                return Err(errors);
            },
        }
    }
    analyzer.resolver.define_var(
        name,
        NamendValue::new(*let_statement.get_type(), let_statement.get_pos()),
    );
    Ok(())
}

} // verus!
