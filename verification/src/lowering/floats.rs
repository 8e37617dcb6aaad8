use crate::ast::expression::Expression;
use crate::ast::function::Function;
use crate::ast::statement::Statement;
use crate::ast::tree::AST;
use crate::info::ValType;
use vstd::prelude::*;

verus! {

/// The texts of the floating-point literals of an expression, in the order in
/// which they stand.
pub open spec fn expr_floats<'s>(e: Expression<'s>) -> Seq<&'s str>
    decreases e,
{
    match e {
        Expression::LiteralExpression(l) => if l.type_ == ValType::F32 {
            seq![l.value]
        } else {
            Seq::empty()
        },
        Expression::BlockExpression(b) => stmts_floats(b.stmts@, 0),
        Expression::AssignExpression(a) => expr_floats(*a.value),
        Expression::VariableExpression(_) => Seq::empty(),
        Expression::BinaryExpression(b) => expr_floats(*b.left) + expr_floats(*b.right),
        Expression::NullExpression(_) => Seq::empty(),
        Expression::CallExpression(c) => exprs_floats(c.args@, 0),
    }
}

/// The texts of the floating-point literals of the expressions from the `i`-th
/// on.
pub open spec fn exprs_floats<'s>(exprs: Seq<Expression<'s>>, i: int) -> Seq<&'s str>
    decreases exprs, exprs.len() - i,
{
    if 0 <= i < exprs.len() {
        expr_floats(exprs[i]) + exprs_floats(exprs, i + 1)
    } else {
        Seq::empty()
    }
}

/// The texts of the floating-point literals of a statement.
pub open spec fn stmt_floats<'s>(s: Statement<'s>) -> Seq<&'s str>
    decreases s,
{
    match s {
        Statement::Expression(e) => expr_floats(e),
        Statement::ReturnStatement(r) => expr_floats(r.value),
        Statement::LetStatement(l) => match l.assignee {
            Some(a) => expr_floats(*a.value),
            None => Seq::empty(),
        },
    }
}

/// The texts of the floating-point literals of the statements from the `i`-th
/// on.
pub open spec fn stmts_floats<'s>(stmts: Seq<Statement<'s>>, i: int) -> Seq<&'s str>
    decreases stmts, stmts.len() - i,
{
    if 0 <= i < stmts.len() {
        stmt_floats(stmts[i]) + stmts_floats(stmts, i + 1)
    } else {
        Seq::empty()
    }
}

/// The texts of the floating-point literals of the functions from the `i`-th
/// on.
pub open spec fn functions_floats<'s>(functions: Seq<Function<'s>>, i: int) -> Seq<&'s str>
    decreases functions.len() - i,
{
    if 0 <= i < functions.len() {
        stmts_floats(functions[i].body.stmts@, 0) + functions_floats(functions, i + 1)
    } else {
        Seq::empty()
    }
}

/// Adds the texts of the floating-point literals of an expression to `found`.
pub fn collect_expr<'s>(found: &mut Vec<&'s str>, e: &Expression<'s>)
    ensures
        final(found)@ == old(found)@ + expr_floats(*e),
    decreases e,
{
    match e {
        Expression::LiteralExpression(l) => {
            if l.get_type() == ValType::F32 {
                found.push(l.get_value());
                assert(found@ =~= old(found)@ + expr_floats(*e));
            } else {
                assert(found@ =~= old(found)@ + expr_floats(*e));
            }
        },
        Expression::BlockExpression(b) => {
            proof {
                assert(decreases_to!(*e => e->BlockExpression_0));
                assert(decreases_to!(b.stmts => b.stmts@));
            }
            collect_stmts(found, b.get_stmts());
        },
        Expression::AssignExpression(a) => {
            collect_expr(found, a.get_value());
        },
        Expression::VariableExpression(_) => {
            assert(found@ =~= old(found)@ + expr_floats(*e));
        },
        Expression::BinaryExpression(b) => {
            collect_expr(found, b.get_left());
            collect_expr(found, b.get_right());
            assert(found@ =~= old(found)@ + expr_floats(*e));
        },
        Expression::NullExpression(_) => {
            assert(found@ =~= old(found)@ + expr_floats(*e));
        },
        Expression::CallExpression(c) => {
            let args = c.get_args();
            let mut i: usize = 0;
            assert(found@ + exprs_floats(args@, 0) == old(found)@ + expr_floats(*e));
            while i < args.len()
                invariant
                    i <= args@.len(),
                    *args == c.args,
                    *e == Expression::CallExpression(*c),
                    found@ + exprs_floats(args@, i as int) == old(found)@ + expr_floats(*e),
                decreases args@.len() - i,
            {
                let ghost before = found@;
                proof {
                    assert(e->CallExpression_0 == *c);
                    assert(decreases_to!(*e => e->CallExpression_0));
                }
                collect_expr(found, &args[i]);
                i += 1;
                assert((before + expr_floats(args@[i - 1])) + exprs_floats(args@, i as int)
                    =~= before + (expr_floats(args@[i - 1]) + exprs_floats(args@, i as int)));
            }
            assert(found@ + Seq::<&'s str>::empty() =~= found@);
        },
    }
}

/// Adds the texts of the floating-point literals of a statement to `found`.
pub fn collect_stmt<'s>(found: &mut Vec<&'s str>, s: &Statement<'s>)
    ensures
        final(found)@ == old(found)@ + stmt_floats(*s),
    decreases s,
{
    match s {
        Statement::Expression(e) => {
            collect_expr(found, e);
        },
        Statement::ReturnStatement(r) => {
            collect_expr(found, r.get_value());
        },
        Statement::LetStatement(l) => {
            match l.get_assignee() {
                Some(a) => {
                    collect_expr(found, a.get_value());
                },
                None => {
                    assert(found@ =~= old(found)@ + stmt_floats(*s));
                },
            }
        },
    }
}

/// Adds the texts of the floating-point literals of statements to `found`.
pub fn collect_stmts<'s>(found: &mut Vec<&'s str>, stmts: &[Statement<'s>])
    ensures
        final(found)@ == old(found)@ + stmts_floats(stmts@, 0),
    decreases stmts@,
{
    let mut i: usize = 0;
    while i < stmts.len()
        invariant
            i <= stmts@.len(),
            found@ + stmts_floats(stmts@, i as int) == old(found)@ + stmts_floats(stmts@, 0),
        decreases stmts@.len() - i,
    {
        let ghost before = found@;
        collect_stmt(found, &stmts[i]);
        i += 1;
        assert((before + stmt_floats(stmts@[i - 1])) + stmts_floats(stmts@, i as int) =~= before
            + (stmt_floats(stmts@[i - 1]) + stmts_floats(stmts@, i as int)));
    }
    assert(found@ + Seq::<&'s str>::empty() =~= found@);
}

/// The texts of the floating-point literals of a tree, in the order in which
/// they stand. Lowering asks for the bits of each of them.
pub fn float_literals<'s>(ast: &AST<'s>) -> (r: Vec<&'s str>)
    ensures
        r@ == functions_floats(ast.functions@, 0),
{
    let mut found: Vec<&'s str> = Vec::new();
    let functions = ast.get_funcs();
    let mut i: usize = 0;
    assert(found@ + functions_floats(functions@, 0) =~= functions_floats(ast.functions@, 0));
    while i < functions.len()
        invariant
            i <= functions@.len(),
            functions@ == ast.functions@,
            found@ + functions_floats(functions@, i as int) == functions_floats(
                ast.functions@,
                0,
            ),
        decreases functions@.len() - i,
    {
        let ghost before = found@;
        let ghost own = stmts_floats(functions@[i as int].body.stmts@, 0);
        collect_stmts(&mut found, functions[i].get_body().get_stmts());
        i += 1;
        assert((before + own) + functions_floats(functions@, i as int) =~= before + (own
            + functions_floats(functions@, i as int)));
    }
    assert(found@ + Seq::<&'s str>::empty() =~= found@);
    found
}

} // verus!
