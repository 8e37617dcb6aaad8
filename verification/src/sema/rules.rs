use crate::ast::expression::Expression;
use crate::ast::function::{Function, FunctionParameter};
use crate::ast::statement::{LetStatement, ReturnStatement, Statement};
use crate::info::ValType;
use crate::position::Position;
use crate::sema::error::{
    argument_mismatch, function_already_defined, function_not_found, illegal_null_untyped,
    type_mismatch, variable_not_found, variable_redeclared, AnalyzerError,
};
use crate::sema::resolver::{declare, lookup};
use crate::sema::scope::{NamendValue, ScopeModel};
use vstd::prelude::*;

verus! {

/// An entry of the function table: the definition and its place in the tree.
#[derive(Clone, Copy)]
pub struct FuncEntry<'a, 's> {
    pub def: &'a Function<'s>,
    pub index: usize,
}

/// The function table: the functions defined so far, by name.
pub type FuncTable<'a, 's> = Map<Seq<char>, FuncEntry<'a, 's>>;

/// What a check knows at one point of the tree: the scopes that are open,
/// outermost first, and the functions defined so far.
pub struct Env<'a, 's> {
    pub scopes: Seq<ScopeModel>,
    pub table: FuncTable<'a, 's>,
}

impl<'a, 's> Env<'a, 's> {
    /// The same with other scopes.
    pub open spec fn with_scopes(self, scopes: Seq<ScopeModel>) -> Self {
        Env { scopes, table: self.table }
    }

    /// The same inside a new innermost scope.
    pub open spec fn entered(self) -> Self {
        self.with_scopes(self.scopes.push(ScopeModel::empty()))
    }

    /// Whether the innermost scope itself declares `name`.
    pub open spec fn declares_locally(self, name: Seq<char>) -> bool {
        self.scopes.len() > 0 && self.scopes.last().contains_key(name)
    }
}

/// Whether a value is required to have a type other than this one.
pub open spec fn is_null_or_untyped(t: ValType) -> bool {
    t == ValType::Void || t == ValType::Untyped
}

/// The type of an expression. It is `Untyped` where none can be determined.
pub open spec fn infer(env: Env, e: Expression) -> ValType
    decreases e,
{
    match e {
        Expression::LiteralExpression(l) => l.type_,
        Expression::BlockExpression(_) => ValType::Untyped,
        Expression::AssignExpression(a) => infer(env, *a.value),
        Expression::VariableExpression(v) => match lookup(env.scopes, v.name@) {
            Some(symbol) => symbol.val_type,
            None => ValType::Untyped,
        },
        Expression::BinaryExpression(b) => {
            let lhs = infer(env, *b.left);
            let rhs = infer(env, *b.right);
            if lhs == rhs {
                lhs
            } else {
                ValType::Untyped
            }
        },
        Expression::NullExpression(_) => ValType::Void,
        Expression::CallExpression(c) => if env.table.contains_key(c.callee@) {
            env.table[c.callee@].def.ret_type
        } else {
            ValType::Untyped
        },
    }
}

/// The fault of a value of type `found` where a value of type `expected` is
/// required, if it is one: `null` and untyped values are reported as such, any
/// other type but `expected` as a mismatch.
pub open spec fn value_errors<'s>(expected: ValType, found: ValType, pos: Position) -> Seq<
    AnalyzerError<'s>,
> {
    if is_null_or_untyped(found) {
        seq![illegal_null_untyped(pos)]
    } else if found != expected {
        seq![type_mismatch(expected, found, pos)]
    } else {
        Seq::empty()
    }
}

/// The faults of a value that was checked: the faults that the check of its
/// expression found, where it found any; else the fault of its type, if it is
/// one. An expression that is at fault has no type to go by.
pub open spec fn checked_value_errors<'s>(
    own: Seq<AnalyzerError<'s>>,
    expected: ValType,
    found: ValType,
    pos: Position,
) -> Seq<AnalyzerError<'s>> {
    if own.len() > 0 {
        own
    } else {
        value_errors(expected, found, pos)
    }
}

/// The faults of an expression, in the order in which they are found. `ret` is
/// the return type of the function that the expression stands in.
///
/// A fault ends the check of the expression it is found in: a binary
/// expression reports the faults of its left operand, or else those of its
/// right operand, or else that their types differ. Only a block goes on behind
/// a statement that is at fault.
pub open spec fn expr_errors<'a, 's>(env: Env<'a, 's>, ret: ValType, e: Expression<'s>) -> Seq<
    AnalyzerError<'s>,
>
    decreases e,
{
    match e {
        Expression::LiteralExpression(_) => Seq::empty(),
        Expression::BlockExpression(b) => stmts_errors(env.entered(), ret, b.stmts@, 0),
        Expression::AssignExpression(a) => expr_errors(env, ret, *a.value),
        Expression::VariableExpression(v) => if lookup(env.scopes, v.name@) is Some {
            Seq::empty()
        } else {
            seq![variable_not_found(v.name, v.pos)]
        },
        Expression::BinaryExpression(b) => {
            let left = expr_errors(env, ret, *b.left);
            let right = expr_errors(env, ret, *b.right);
            let lhs = infer(env, *b.left);
            let rhs = infer(env, *b.right);
            if left.len() > 0 {
                left
            } else if right.len() > 0 {
                right
            } else if lhs == rhs {
                Seq::empty()
            } else {
                seq![type_mismatch(lhs, rhs, b.pos)]
            }
        },
        Expression::NullExpression(_) => Seq::empty(),
        Expression::CallExpression(c) => if !env.table.contains_key(c.callee@) {
            seq![function_not_found(c.callee, c.pos)]
        } else {
            let f = env.table[c.callee@].def;
            if c.args@.len() != f.params@.len() {
                seq![argument_mismatch(f.name, f.params.len(), c.args.len(), c.pos)]
            } else {
                args_errors(env, ret, c.args@, f.params@, 0)
            }
        },
    }
}

/// The faults of the arguments of a call from the `i`-th on, left to right.
/// After the first argument that is at fault, or whose type is not that of its
/// parameter, no further argument is looked at.
pub open spec fn args_errors<'a, 's>(
    env: Env<'a, 's>,
    ret: ValType,
    args: Seq<Expression<'s>>,
    params: Seq<FunctionParameter<'s>>,
    i: int,
) -> Seq<AnalyzerError<'s>>
    decreases args, args.len() - i,
{
    if 0 <= i < args.len() {
        let own = expr_errors(env, ret, args[i]);
        let found = infer(env, args[i]);
        if own.len() > 0 {
            own
        } else if found != params[i].type_ {
            seq![type_mismatch(params[i].type_, found, args[i].span())]
        } else {
            args_errors(env, ret, args, params, i + 1)
        }
    } else {
        Seq::empty()
    }
}

/// The fault of declaring a name that the innermost scope already declares.
pub open spec fn redeclaration_errors<'s>(env: Env, l: LetStatement<'s>) -> Seq<AnalyzerError<'s>> {
    if env.declares_locally(l.name@) {
        seq![variable_redeclared(l.name, l.span(), env.scopes.last()[l.name@].position)]
    } else {
        Seq::empty()
    }
}

/// The faults of the initializer of a `let`: those of its expression, or else
/// that of its type where it is not the declared one.
pub open spec fn initializer_errors<'a, 's>(env: Env<'a, 's>, ret: ValType, l: LetStatement<'s>)
    -> Seq<AnalyzerError<'s>>
    decreases l,
{
    match l.assignee {
        Some(a) => checked_value_errors(
            expr_errors(env, ret, *a.value),
            l.type_,
            infer(env, *a.value),
            a.pos,
        ),
        None => Seq::empty(),
    }
}

/// The faults of a `return`: those of its expression, or else that of its type
/// where it is not the one the function returns.
pub open spec fn return_errors<'a, 's>(env: Env<'a, 's>, ret: ValType, r: ReturnStatement<'s>)
    -> Seq<AnalyzerError<'s>>
    decreases r,
{
    checked_value_errors(
        expr_errors(env, ret, r.value),
        ret,
        infer(env, r.value),
        r.value.span(),
    )
}

/// The faults of a statement. A `let` of a name that its scope already
/// declares reports that and nothing of its initializer.
pub open spec fn stmt_errors<'a, 's>(env: Env<'a, 's>, ret: ValType, s: Statement<'s>) -> Seq<
    AnalyzerError<'s>,
>
    decreases s,
{
    match s {
        Statement::Expression(e) => expr_errors(env, ret, e),
        Statement::ReturnStatement(r) => return_errors(env, ret, r),
        Statement::LetStatement(l) => if env.declares_locally(l.name@) {
            redeclaration_errors(env, l)
        } else {
            initializer_errors(env, ret, l)
        },
    }
}

/// The symbol that a `let` declares.
pub open spec fn let_symbol(l: LetStatement) -> NamendValue {
    NamendValue { val_type: l.type_, position: l.span() }
}

/// The scopes after a statement that was or was not without fault. Only a
/// `let` without fault changes them: it declares its name in the innermost
/// scope.
pub open spec fn declared_by(scopes: Seq<ScopeModel>, s: Statement, faultless: bool) -> Seq<
    ScopeModel,
> {
    match s {
        Statement::LetStatement(l) => if faultless {
            declare(scopes, l.name@, let_symbol(l))
        } else {
            scopes
        },
        _ => scopes,
    }
}

/// The scopes after a statement. A statement that is at fault leaves them as
/// they are.
pub open spec fn stmt_scopes<'a, 's>(env: Env<'a, 's>, ret: ValType, s: Statement<'s>) -> Seq<
    ScopeModel,
> {
    declared_by(env.scopes, s, stmt_errors(env, ret, s).len() == 0)
}

/// The faults of the statements of a block from the `i`-th on. Every statement
/// is checked, whatever those before it report, in the scopes that they have
/// left.
pub open spec fn stmts_errors<'a, 's>(
    env: Env<'a, 's>,
    ret: ValType,
    stmts: Seq<Statement<'s>>,
    i: int,
) -> Seq<AnalyzerError<'s>>
    decreases stmts, stmts.len() - i,
{
    if 0 <= i < stmts.len() {
        let own = stmt_errors(env, ret, stmts[i]);
        own + stmts_errors(
            env.with_scopes(declared_by(env.scopes, stmts[i], own.len() == 0)),
            ret,
            stmts,
            i + 1,
        )
    } else {
        Seq::empty()
    }
}

/// The scopes after the statements of a block from the `i`-th on.
pub open spec fn stmts_scopes<'a, 's>(
    env: Env<'a, 's>,
    ret: ValType,
    stmts: Seq<Statement<'s>>,
    i: int,
) -> Seq<ScopeModel>
    decreases stmts.len() - i,
{
    if 0 <= i < stmts.len() {
        stmts_scopes(env.with_scopes(stmt_scopes(env, ret, stmts[i])), ret, stmts, i + 1)
    } else {
        env.scopes
    }
}

/// The symbol that a parameter is bound as.
pub open spec fn param_symbol(p: FunctionParameter) -> NamendValue {
    NamendValue { val_type: p.type_, position: p.pos }
}

/// The scopes after the parameters from the `i`-th on are bound in the
/// innermost scope, in order; of two parameters of one name the later stays.
pub open spec fn bind_params(scopes: Seq<ScopeModel>, params: Seq<FunctionParameter>, i: int)
    -> Seq<ScopeModel>
    decreases params.len() - i,
{
    if 0 <= i < params.len() {
        bind_params(declare(scopes, params[i].name@, param_symbol(params[i])), params, i + 1)
    } else {
        scopes
    }
}

/// The environment that the body of `f` is checked in: `f` is in the table, so
/// that it can call itself, and its parameters are bound in a new scope.
pub open spec fn body_env<'a, 's>(env: Env<'a, 's>, f: &'a Function<'s>, index: usize) -> Env<
    'a,
    's,
> {
    Env {
        scopes: bind_params(env.scopes.push(ScopeModel::empty()), f.params@, 0),
        table: env.table.insert(f.name@, FuncEntry { def: f, index }),
    }
}

/// The faults of a function definition. One whose name is taken is reported
/// and its body is not looked at.
pub open spec fn function_errors<'a, 's>(env: Env<'a, 's>, f: &'a Function<'s>, index: usize)
    -> Seq<AnalyzerError<'s>> {
    if env.table.contains_key(f.name@) {
        seq![function_already_defined(f.name, f.pos, env.table[f.name@].def.pos)]
    } else {
        stmts_errors(body_env(env, f, index), f.ret_type, f.body.stmts@, 0)
    }
}

/// The function table after a function definition: the function is added
/// under its name unless the name is taken.
pub open spec fn function_table<'a, 's>(
    table: FuncTable<'a, 's>,
    f: &'a Function<'s>,
    index: usize,
) -> FuncTable<'a, 's> {
    if table.contains_key(f.name@) {
        table
    } else {
        table.insert(f.name@, FuncEntry { def: f, index })
    }
}

/// The faults of the functions of a tree from the `i`-th on, in order. A
/// function is known to those that follow it and to itself, not to those
/// before it.
pub open spec fn functions_errors<'a, 's>(
    env: Env<'a, 's>,
    functions: Seq<Function<'s>>,
    i: int,
) -> Seq<AnalyzerError<'s>>
    decreases functions.len() - i,
{
    if 0 <= i < functions.len() {
        function_errors(env, &functions[i], i as usize) + functions_errors(
            Env { scopes: env.scopes, table: function_table(env.table, &functions[i], i as usize) },
            functions,
            i + 1,
        )
    } else {
        Seq::empty()
    }
}

/// The function table after the functions of a tree from the `i`-th on.
pub open spec fn functions_table<'a, 's>(
    table: FuncTable<'a, 's>,
    functions: Seq<Function<'s>>,
    i: int,
) -> FuncTable<'a, 's>
    decreases functions.len() - i,
{
    if 0 <= i < functions.len() {
        functions_table(function_table(table, &functions[i], i as usize), functions, i + 1)
    } else {
        table
    }
}

/// The environment that the check of a tree starts in: one scope, the
/// outermost, that declares nothing, and no function.
pub open spec fn initial_env<'a, 's>() -> Env<'a, 's> {
    Env { scopes: seq![ScopeModel::empty()], table: Map::empty() }
}

/// The faults of a whole tree.
pub open spec fn program_errors<'s>(functions: Seq<Function<'s>>) -> Seq<AnalyzerError<'s>> {
    functions_errors(initial_env(), functions, 0)
}

} // verus!
