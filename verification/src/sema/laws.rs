use crate::ast::expression::{BinaryExpression, CallExpression, Expression};
use crate::ast::function::{Function, FunctionParameter};
use crate::ast::statement::{LetStatement, Statement};
use crate::info::ValType;
use crate::sema::error::{
    diagnostics, function_already_defined, function_not_found, illegal_null_untyped, reports,
    type_mismatch, variable_redeclared, AnalyzerError,
};
use crate::sema::resolver::lookup;
use crate::sema::scope::ScopeModel;
use crate::sema::rules::{
    args_errors, body_env, expr_errors, function_table, functions_errors, infer,
    initial_env, initializer_errors, is_null_or_untyped, let_symbol, program_errors,
    redeclaration_errors, stmt_errors, stmt_scopes, stmts_errors, Env,
};
use vstd::prelude::*;

verus! {

/// Whether an expression is valid: every variable it uses is declared, the two
/// operands of every operator have one type, every call names a function
/// defined before it and passes it arguments of its parameters' number and
/// types, and every statement of every block in it is valid.
pub open spec fn expr_valid<'a, 's>(env: Env<'a, 's>, ret: ValType, e: Expression<'s>) -> bool
    decreases e,
{
    match e {
        Expression::LiteralExpression(_) => true,
        Expression::BlockExpression(b) => stmts_valid(env.entered(), ret, b.stmts@, 0),
        Expression::AssignExpression(a) => expr_valid(env, ret, *a.value),
        Expression::VariableExpression(v) => lookup(env.scopes, v.name@) is Some,
        Expression::BinaryExpression(b) => {
            &&& expr_valid(env, ret, *b.left)
            &&& expr_valid(env, ret, *b.right)
            &&& infer(env, *b.left) == infer(env, *b.right)
        },
        Expression::NullExpression(_) => true,
        Expression::CallExpression(c) => {
            &&& env.table.contains_key(c.callee@)
            &&& c.args@.len() == env.table[c.callee@].def.params@.len()
            &&& args_valid(env, ret, c.args@, env.table[c.callee@].def.params@, 0)
        },
    }
}

/// Whether the arguments from the `i`-th on are valid and of their parameters'
/// types.
pub open spec fn args_valid<'a, 's>(
    env: Env<'a, 's>,
    ret: ValType,
    args: Seq<Expression<'s>>,
    params: Seq<FunctionParameter<'s>>,
    i: int,
) -> bool
    decreases args, args.len() - i,
{
    if 0 <= i < args.len() {
        &&& expr_valid(env, ret, args[i])
        &&& infer(env, args[i]) == params[i].type_
        &&& args_valid(env, ret, args, params, i + 1)
    } else {
        true
    }
}

/// Whether a value of type `found` can stand where `expected` is required.
pub open spec fn value_valid(expected: ValType, found: ValType) -> bool {
    !is_null_or_untyped(found) && found == expected
}

/// Whether a statement is valid: its expressions are, a returned value has the
/// function's return type, an initializer has the declared type, and a `let`
/// declares no name that its own scope already declares.
pub open spec fn stmt_valid<'a, 's>(env: Env<'a, 's>, ret: ValType, s: Statement<'s>) -> bool
    decreases s,
{
    match s {
        Statement::Expression(e) => expr_valid(env, ret, e),
        Statement::ReturnStatement(r) => {
            &&& expr_valid(env, ret, r.value)
            &&& value_valid(ret, infer(env, r.value))
        },
        Statement::LetStatement(l) => {
            &&& !env.declares_locally(l.name@)
            &&& match l.assignee {
                Some(a) => {
                    &&& expr_valid(env, ret, *a.value)
                    &&& value_valid(l.type_, infer(env, *a.value))
                },
                None => true,
            }
        },
    }
}

/// Whether the statements from the `i`-th on are valid, each in the scopes
/// that those before it have left.
pub open spec fn stmts_valid<'a, 's>(
    env: Env<'a, 's>,
    ret: ValType,
    stmts: Seq<Statement<'s>>,
    i: int,
) -> bool
    decreases stmts, stmts.len() - i,
{
    if 0 <= i < stmts.len() {
        &&& stmt_valid(env, ret, stmts[i])
        &&& stmts_valid(env.with_scopes(stmt_scopes(env, ret, stmts[i])), ret, stmts, i + 1)
    } else {
        true
    }
}

/// Whether a function definition is valid: its name is not taken and its body
/// is valid.
pub open spec fn function_valid<'a, 's>(env: Env<'a, 's>, f: &'a Function<'s>, index: usize)
    -> bool {
    &&& !env.table.contains_key(f.name@)
    &&& stmts_valid(body_env(env, f, index), f.ret_type, f.body.stmts@, 0)
}

/// Whether the functions from the `i`-th on are valid.
pub open spec fn functions_valid<'a, 's>(env: Env<'a, 's>, functions: Seq<Function<'s>>, i: int)
    -> bool
    decreases functions.len() - i,
{
    if 0 <= i < functions.len() {
        &&& function_valid(env, &functions[i], i as usize)
        &&& functions_valid(
            Env { scopes: env.scopes, table: function_table(env.table, &functions[i], i as usize) },
            functions,
            i + 1,
        )
    } else {
        true
    }
}

/// Whether a whole tree is valid.
pub open spec fn program_valid<'s>(functions: Seq<Function<'s>>) -> bool {
    functions_valid(initial_env(), functions, 0)
}

/// An expression has no fault if and only if it is valid.
pub proof fn lemma_expr_valid<'a, 's>(env: Env<'a, 's>, ret: ValType, e: Expression<'s>)
    ensures
        expr_errors(env, ret, e).len() == 0 <==> expr_valid(env, ret, e),
    decreases e,
{
    match e {
        Expression::BlockExpression(b) => {
            lemma_stmts_valid(env.entered(), ret, b.stmts@, 0);
        },
        Expression::AssignExpression(a) => {
            lemma_expr_valid(env, ret, *a.value);
        },
        Expression::BinaryExpression(b) => {
            lemma_expr_valid(env, ret, *b.left);
            lemma_expr_valid(env, ret, *b.right);
        },
        Expression::CallExpression(c) => {
            if env.table.contains_key(c.callee@) {
                let f = env.table[c.callee@].def;
                if c.args@.len() == f.params@.len() {
                    lemma_args_valid(env, ret, c.args@, f.params@, 0);
                }
            }
        },
        _ => {},
    }
}

/// The arguments of a call have no fault if and only if they are valid and of
/// their parameters' types.
pub proof fn lemma_args_valid<'a, 's>(
    env: Env<'a, 's>,
    ret: ValType,
    args: Seq<Expression<'s>>,
    params: Seq<FunctionParameter<'s>>,
    i: int,
)
    ensures
        args_errors(env, ret, args, params, i).len() == 0 <==> args_valid(
            env,
            ret,
            args,
            params,
            i,
        ),
    decreases args, args.len() - i,
{
    if 0 <= i < args.len() {
        lemma_expr_valid(env, ret, args[i]);
        lemma_args_valid(env, ret, args, params, i + 1);
    }
}

/// A statement has no fault if and only if it is valid.
pub proof fn lemma_stmt_valid<'a, 's>(env: Env<'a, 's>, ret: ValType, s: Statement<'s>)
    ensures
        stmt_errors(env, ret, s).len() == 0 <==> stmt_valid(env, ret, s),
    decreases s,
{
    match s {
        Statement::Expression(e) => {
            lemma_expr_valid(env, ret, e);
        },
        Statement::ReturnStatement(r) => {
            lemma_expr_valid(env, ret, r.value);
        },
        Statement::LetStatement(l) => {
            match l.assignee {
                Some(a) => {
                    lemma_expr_valid(env, ret, *a.value);
                },
                None => {},
            }
        },
    }
}

/// The statements of a block have no fault if and only if they are valid.
pub proof fn lemma_stmts_valid<'a, 's>(
    env: Env<'a, 's>,
    ret: ValType,
    stmts: Seq<Statement<'s>>,
    i: int,
)
    ensures
        stmts_errors(env, ret, stmts, i).len() == 0 <==> stmts_valid(env, ret, stmts, i),
    decreases stmts, stmts.len() - i,
{
    if 0 <= i < stmts.len() {
        lemma_stmt_valid(env, ret, stmts[i]);
        lemma_stmts_valid(env.with_scopes(stmt_scopes(env, ret, stmts[i])), ret, stmts, i + 1);
    }
}

/// The functions of a tree have no fault if and only if they are valid.
pub proof fn lemma_functions_valid<'a, 's>(env: Env<'a, 's>, functions: Seq<Function<'s>>, i: int)
    ensures
        functions_errors(env, functions, i).len() == 0 <==> functions_valid(env, functions, i),
    decreases functions.len() - i,
{
    if 0 <= i < functions.len() {
        let f = &functions[i];
        if !env.table.contains_key(f.name@) {
            lemma_stmts_valid(body_env(env, f, i as usize), f.ret_type, f.body.stmts@, 0);
        }
        lemma_functions_valid(
            Env { scopes: env.scopes, table: function_table(env.table, f, i as usize) },
            functions,
            i + 1,
        );
    }
}

/// The check of a tree is `Ok` if and only if the tree is valid: no name is
/// declared twice in one scope, every name used is declared, and all types
/// agree.
pub proof fn lemma_valid_program_checks<'s>(
    functions: Seq<Function<'s>>,
    r: Result<(), Vec<AnalyzerError<'s>>>,
)
    requires
        reports(r, program_errors(functions)),
    ensures
        r is Ok <==> program_valid(functions),
{
    lemma_functions_valid(initial_env(), functions, 0);
}

/// A statement that is at fault leaves the scopes as they are: a `let` whose
/// name is taken, or whose initializer is at fault or of another type than
/// declared, declares nothing.
pub proof fn lemma_fault_declares_nothing<'a, 's>(env: Env<'a, 's>, ret: ValType, s: Statement<'s>)
    requires
        stmt_errors(env, ret, s).len() > 0,
    ensures
        stmt_scopes(env, ret, s) == env.scopes,
{
}

/// A `let` without fault declares its name, with its type and its span.
pub proof fn lemma_let_declares<'a, 's>(env: Env<'a, 's>, ret: ValType, l: LetStatement<'s>)
    requires
        env.scopes.len() > 0,
        stmt_errors(env, ret, Statement::LetStatement(l)).len() == 0,
    ensures
        !env.declares_locally(l.name@),
        lookup(stmt_scopes(env, ret, Statement::LetStatement(l)), l.name@) == Some(let_symbol(l)),
{
}

/// A `let` of a name that a `let` without fault before it declared in the same
/// scope reports the redeclaration and nothing else: at its own span, with the
/// span of the first declaration as the earlier one.
pub proof fn lemma_redeclaration_reported<'a, 's>(
    env: Env<'a, 's>,
    ret: ValType,
    first: LetStatement<'s>,
    second: LetStatement<'s>,
)
    requires
        env.scopes.len() > 0,
        first.name@ == second.name@,
        stmt_errors(env, ret, Statement::LetStatement(first)).len() == 0,
    ensures
        ({
            let after = env.with_scopes(stmt_scopes(env, ret, Statement::LetStatement(first)));
            stmt_errors(after, ret, Statement::LetStatement(second)) == seq![
                variable_redeclared(second.name, second.span(), first.span()),
            ]
        }),
{
}

/// The scopes in which the `k`-th statement of a block is checked: those that
/// the statements before it have left.
pub open spec fn scopes_at<'a, 's>(
    env: Env<'a, 's>,
    ret: ValType,
    stmts: Seq<Statement<'s>>,
    k: int,
) -> Seq<ScopeModel>
    decreases k,
{
    if 0 < k <= stmts.len() {
        stmt_scopes(env.with_scopes(scopes_at(env, ret, stmts, k - 1)), ret, stmts[k - 1])
    } else {
        env.scopes
    }
}

/// The faults of the first `k` statements of a block, in order.
pub open spec fn errors_before<'a, 's>(
    env: Env<'a, 's>,
    ret: ValType,
    stmts: Seq<Statement<'s>>,
    k: int,
) -> Seq<AnalyzerError<'s>>
    decreases k,
{
    if 0 < k <= stmts.len() {
        errors_before(env, ret, stmts, k - 1) + stmt_errors(
            env.with_scopes(scopes_at(env, ret, stmts, k - 1)),
            ret,
            stmts[k - 1],
        )
    } else {
        Seq::empty()
    }
}

/// What a scope declares stays declared as it is, whatever statement follows.
pub proof fn lemma_declaration_stays<'a, 's>(
    env: Env<'a, 's>,
    ret: ValType,
    s: Statement<'s>,
    name: Seq<char>,
)
    requires
        env.declares_locally(name),
    ensures
        stmt_scopes(env, ret, s).len() > 0,
        stmt_scopes(env, ret, s).last().contains_key(name),
        stmt_scopes(env, ret, s).last()[name] == env.scopes.last()[name],
{
}

/// What the scopes declare before the `j`-th statement of a block is declared
/// as it is before every later statement.
pub proof fn lemma_declaration_stays_in_block<'a, 's>(
    env: Env<'a, 's>,
    ret: ValType,
    stmts: Seq<Statement<'s>>,
    j: int,
    k: int,
    name: Seq<char>,
)
    requires
        0 <= j <= k <= stmts.len(),
        scopes_at(env, ret, stmts, j).len() > 0,
        scopes_at(env, ret, stmts, j).last().contains_key(name),
    ensures
        scopes_at(env, ret, stmts, k).len() > 0,
        scopes_at(env, ret, stmts, k).last().contains_key(name),
        scopes_at(env, ret, stmts, k).last()[name] == scopes_at(env, ret, stmts, j).last()[name],
    decreases k - j,
{
    if j < k {
        lemma_declaration_stays_in_block(env, ret, stmts, j, k - 1, name);
        lemma_declaration_stays(
            env.with_scopes(scopes_at(env, ret, stmts, k - 1)),
            ret,
            stmts[k - 1],
            name,
        );
    }
}

/// The statements of a block leave the number of scopes as it is.
pub proof fn lemma_scopes_at_len<'a, 's>(
    env: Env<'a, 's>,
    ret: ValType,
    stmts: Seq<Statement<'s>>,
    k: int,
)
    ensures
        scopes_at(env, ret, stmts, k).len() == env.scopes.len(),
    decreases k,
{
    if 0 < k <= stmts.len() {
        lemma_scopes_at_len(env, ret, stmts, k - 1);
    }
}

/// Every statement of a block is checked, whatever the statements before it
/// report: the faults of the block are those of its first `k` statements and
/// behind them those of the rest, each statement checked in the scopes that
/// those before it have left.
pub proof fn lemma_block_checks_every_statement<'a, 's>(
    env: Env<'a, 's>,
    ret: ValType,
    stmts: Seq<Statement<'s>>,
    k: int,
)
    requires
        0 <= k <= stmts.len(),
    ensures
        stmts_errors(env, ret, stmts, 0) == errors_before(env, ret, stmts, k) + stmts_errors(
            env.with_scopes(scopes_at(env, ret, stmts, k)),
            ret,
            stmts,
            k,
        ),
    decreases k,
{
    if k == 0 {
        assert(env.with_scopes(scopes_at(env, ret, stmts, 0)) == env);
        assert(Seq::<AnalyzerError<'s>>::empty() + stmts_errors(env, ret, stmts, 0)
            =~= stmts_errors(env, ret, stmts, 0));
    } else {
        lemma_block_checks_every_statement(env, ret, stmts, k - 1);
        let at = env.with_scopes(scopes_at(env, ret, stmts, k - 1));
        let own = stmt_errors(at, ret, stmts[k - 1]);
        let rest = stmts_errors(env.with_scopes(scopes_at(env, ret, stmts, k)), ret, stmts, k);
        assert(at.with_scopes(stmt_scopes(at, ret, stmts[k - 1])) == env.with_scopes(
            scopes_at(env, ret, stmts, k),
        ));
        assert(errors_before(env, ret, stmts, k - 1) + (own + rest) =~= (errors_before(
            env,
            ret,
            stmts,
            k - 1,
        ) + own) + rest);
    }
}

/// Of two `let`s of one name in one block, where the first is without fault,
/// the second reports the redeclaration and nothing else: at its own span,
/// with the span of the first as the earlier one, whatever stands between the
/// two.
pub proof fn lemma_redeclaration_in_block<'a, 's>(
    env: Env<'a, 's>,
    ret: ValType,
    stmts: Seq<Statement<'s>>,
    j: int,
    k: int,
)
    requires
        env.scopes.len() > 0,
        0 <= j < k < stmts.len(),
        stmts[j] is LetStatement,
        stmts[k] is LetStatement,
        stmts[j]->LetStatement_0.name@ == stmts[k]->LetStatement_0.name@,
        stmt_errors(env.with_scopes(scopes_at(env, ret, stmts, j)), ret, stmts[j]).len() == 0,
    ensures
        ({
            let first = stmts[j]->LetStatement_0;
            let second = stmts[k]->LetStatement_0;
            let at = env.with_scopes(scopes_at(env, ret, stmts, k));
            stmt_errors(at, ret, stmts[k]) == seq![
                variable_redeclared(second.name, second.span(), first.span()),
            ]
        }),
{
    let name = stmts[j]->LetStatement_0.name@;
    lemma_scopes_at_len(env, ret, stmts, j);
    lemma_scopes_at_len(env, ret, stmts, j + 1);
    lemma_declaration_stays_in_block(env, ret, stmts, j + 1, k, name);
}

/// A `let` of a name that its scope already declares leaves the first
/// declaration in place: a third `let` of the name still refers to the first.
pub proof fn lemma_first_declaration_stays<'a, 's>(
    env: Env<'a, 's>,
    ret: ValType,
    l: LetStatement<'s>,
)
    requires
        env.declares_locally(l.name@),
    ensures
        stmt_scopes(env, ret, Statement::LetStatement(l)) == env.scopes,
{
}

/// A `let` of a name that only outer scopes declare shadows it and reports no
/// redeclaration: all it reports comes from its initializer.
pub proof fn lemma_shadowing_not_reported<'a, 's>(
    env: Env<'a, 's>,
    ret: ValType,
    l: LetStatement<'s>,
)
    requires
        !env.declares_locally(l.name@),
    ensures
        redeclaration_errors(env, l).len() == 0,
        stmt_errors(env, ret, Statement::LetStatement(l)) == initializer_errors(env, ret, l),
{
}

/// The scope of a nested block starts out declaring nothing, whatever the
/// scopes around it declare.
pub proof fn lemma_block_scope_is_fresh(env: Env, name: Seq<char>)
    ensures
        !env.entered().declares_locally(name),
{
}

/// A binary expression whose operands differ in type has no type, and its
/// check never passes: where both operands are without fault, it reports the
/// mismatch, with the two types, and nothing else.
pub proof fn lemma_binary_mismatch<'a, 's>(env: Env<'a, 's>, ret: ValType, b: BinaryExpression<'s>)
    requires
        infer(env, *b.left) != infer(env, *b.right),
    ensures
        infer(env, Expression::BinaryExpression(b)) == ValType::Untyped,
        expr_errors(env, ret, Expression::BinaryExpression(b)).len() > 0,
        expr_errors(env, ret, *b.left).len() == 0 && expr_errors(env, ret, *b.right).len() == 0
            ==> expr_errors(env, ret, Expression::BinaryExpression(b)) == seq![
            type_mismatch::<'s>(infer(env, *b.left), infer(env, *b.right), b.pos),
        ],
{
}

/// A `let` whose initializer is `null` or has no type never passes: where its
/// name is free and the initializer itself is without fault, it reports that
/// at the initializer, and nothing else.
pub proof fn lemma_let_null_or_untyped<'a, 's>(env: Env<'a, 's>, ret: ValType, l: LetStatement<'s>)
    requires
        l.assignee is Some,
        is_null_or_untyped(infer(env, *l.assignee->0.value)),
    ensures
        stmt_errors(env, ret, Statement::LetStatement(l)).len() > 0,
        !env.declares_locally(l.name@) && expr_errors(env, ret, *l.assignee->0.value).len() == 0
            ==> stmt_errors(env, ret, Statement::LetStatement(l)) == seq![
            illegal_null_untyped::<'s>(l.assignee->0.pos),
        ],
{
}

/// `null` and a literal without a type are expressions without fault that a
/// `let` cannot be initialized with.
pub proof fn lemma_null_and_untyped_literal<'a, 's>(env: Env<'a, 's>, ret: ValType, e: Expression<'s>)
    requires
        e is NullExpression || (e matches Expression::LiteralExpression(l) && l.type_
            == ValType::Untyped),
    ensures
        is_null_or_untyped(infer(env, e)),
        expr_errors(env, ret, e).len() == 0,
{
}

/// A call of a function that is not defined before it reports exactly that, and
/// nothing of its arguments.
pub proof fn lemma_unknown_callee<'a, 's>(env: Env<'a, 's>, ret: ValType, c: CallExpression<'s>)
    requires
        !env.table.contains_key(c.callee@),
    ensures
        expr_errors(env, ret, Expression::CallExpression(c)) == seq![
            function_not_found(c.callee, c.pos),
        ],
{
}

/// A function whose name is taken reports exactly that, with the span of the
/// first definition as the earlier one, and leaves the table as it is: the
/// functions after it are checked as if it were not there.
pub proof fn lemma_duplicate_function<'a, 's>(
    env: Env<'a, 's>,
    functions: Seq<Function<'s>>,
    i: int,
)
    requires
        0 <= i < functions.len(),
        i <= usize::MAX,
        env.table.contains_key(functions[i].name@),
    ensures
        functions_errors(env, functions, i) == seq![
            function_already_defined(
                functions[i].name,
                functions[i].pos,
                env.table[functions[i].name@].def.pos,
            ),
        ] + functions_errors(env, functions, i + 1),
{
}

/// Two checks of one tree hand back the same: the same faults in the same
/// order.
pub proof fn lemma_check_is_repeatable<'s>(
    functions: Seq<Function<'s>>,
    first: Result<(), Vec<AnalyzerError<'s>>>,
    second: Result<(), Vec<AnalyzerError<'s>>>,
)
    requires
        reports(first, program_errors(functions)),
        reports(second, program_errors(functions)),
    ensures
        diagnostics(first) == diagnostics(second),
        first is Ok <==> second is Ok,
{
}

/// Whether an expression holds no block.
pub open spec fn expr_blockless(e: Expression) -> bool
    decreases e,
{
    match e {
        Expression::BlockExpression(_) => false,
        Expression::AssignExpression(a) => expr_blockless(*a.value),
        Expression::BinaryExpression(b) => expr_blockless(*b.left) && expr_blockless(*b.right),
        Expression::CallExpression(c) => args_blockless(c.args@, 0),
        _ => true,
    }
}

/// Whether the expressions from the `i`-th on hold no block.
pub open spec fn args_blockless(args: Seq<Expression>, i: int) -> bool
    decreases args, args.len() - i,
{
    if 0 <= i < args.len() {
        expr_blockless(args[i]) && args_blockless(args, i + 1)
    } else {
        true
    }
}

/// Whether a statement holds no block.
pub open spec fn stmt_blockless(s: Statement) -> bool {
    match s {
        Statement::Expression(e) => expr_blockless(e),
        Statement::ReturnStatement(r) => expr_blockless(r.value),
        Statement::LetStatement(l) => match l.assignee {
            Some(a) => expr_blockless(*a.value),
            None => true,
        },
    }
}

/// An expression that holds no block reports one fault at most: the first
/// that its check comes upon.
pub proof fn lemma_expr_one_fault<'a, 's>(env: Env<'a, 's>, ret: ValType, e: Expression<'s>)
    requires
        expr_blockless(e),
    ensures
        expr_errors(env, ret, e).len() <= 1,
    decreases e,
{
    match e {
        Expression::AssignExpression(a) => {
            lemma_expr_one_fault(env, ret, *a.value);
        },
        Expression::BinaryExpression(b) => {
            lemma_expr_one_fault(env, ret, *b.left);
            lemma_expr_one_fault(env, ret, *b.right);
        },
        Expression::CallExpression(c) => {
            if env.table.contains_key(c.callee@) {
                lemma_args_one_fault(env, ret, c.args@, env.table[c.callee@].def.params@, 0);
            }
        },
        _ => {},
    }
}

/// The arguments of a call that hold no block report one fault at most.
pub proof fn lemma_args_one_fault<'a, 's>(
    env: Env<'a, 's>,
    ret: ValType,
    args: Seq<Expression<'s>>,
    params: Seq<FunctionParameter<'s>>,
    i: int,
)
    requires
        args_blockless(args, i),
    ensures
        args_errors(env, ret, args, params, i).len() <= 1,
    decreases args, args.len() - i,
{
    if 0 <= i < args.len() {
        lemma_expr_one_fault(env, ret, args[i]);
        lemma_args_one_fault(env, ret, args, params, i + 1);
    }
}

/// A statement that holds no block reports one fault at most, so that a block
/// of such statements reports one fault for each statement that is at fault.
pub proof fn lemma_stmt_one_fault<'a, 's>(env: Env<'a, 's>, ret: ValType, s: Statement<'s>)
    requires
        stmt_blockless(s),
    ensures
        stmt_errors(env, ret, s).len() <= 1,
{
    match s {
        Statement::Expression(e) => {
            lemma_expr_one_fault(env, ret, e);
        },
        Statement::ReturnStatement(r) => {
            lemma_expr_one_fault(env, ret, r.value);
        },
        Statement::LetStatement(l) => {
            match l.assignee {
                Some(a) => {
                    lemma_expr_one_fault(env, ret, *a.value);
                },
                None => {},
            }
        },
    }
}

} // verus!
