use crate::ast::expression::BlockExpression;
use crate::ast::function::{Function, FunctionParameter};
use crate::ast::statement::Statement;
use crate::ast::tree::AST;
use crate::info::ValType;
use crate::sema::error::{
    conclude, gather, reject, reports, AnalyzerError, FunctionAlreadyDefined,
};
use crate::sema::resolver::{declare, Resolver};
use crate::sema::rules::{
    bind_params, body_env, function_errors, function_table, functions_errors, functions_table,
    param_symbol, program_errors, stmt_errors, stmt_scopes, stmts_errors, stmts_scopes, Env,
    FuncEntry,
};
use crate::sema::scope::{NamendValue, ScopeModel};
use crate::sema::stmt_check::check_stmt;
use crate::table::NameTable;
use vstd::prelude::*;

verus! {

/// The semantic check of one tree: the faults found so far, the scopes that
/// are open, and the functions defined so far.
pub struct Sema<'a, 's> {
    pub errors: Vec<AnalyzerError<'s>>,
    pub resolver: Resolver<'s>,
    pub funcs: NameTable<'s, FuncEntry<'a, 's>>,
    pub ast: &'a AST<'s>,
}

impl<'a, 's> Sema<'a, 's> {
    /// What the check knows at this point.
    pub open spec fn env(&self) -> Env<'a, 's> {
        Env { scopes: self.resolver@, table: self.funcs@ }
    }

    /// Whether `self` differs from `before` in its scopes at most.
    pub open spec fn keeps(&self, before: &Self) -> bool {
        &&& self.errors == before.errors
        &&& self.funcs@ == before.funcs@
        &&& self.ast == before.ast
    }

    /// A check of `ast` that has found nothing yet: one scope, no function.
    pub fn new(ast: &'a AST<'s>) -> (r: Self)
        ensures
            r.errors@.len() == 0,
            r.resolver@ == seq![ScopeModel::empty()],
            r.funcs@ == Map::<Seq<char>, FuncEntry<'a, 's>>::empty(),
            r.ast == ast,
    {
        Sema { errors: Vec::new(), resolver: Resolver::new(), funcs: NameTable::new(), ast }
    }

    /// The function at `idx` of the tree.
    pub fn get_func(&self, idx: usize) -> (r: &'a Function<'s>)
        requires
            idx < self.ast.functions@.len(),
        ensures
            *r == self.ast.functions@[idx as int],
    {
        &self.ast.functions[idx]
    }

    /// Checks the definition `f`, the `func_idx`-th of the tree. A name that is
    /// taken is reported and the body left alone; else the function enters the
    /// table and its body is checked in a scope that holds its parameters.
    pub fn check_function(&mut self, f: &'a Function<'s>, func_idx: usize) -> (r: Result<
        (),
        Vec<AnalyzerError<'s>>,
    >)
        ensures
            reports(r, function_errors(old(self).env(), f, func_idx)),
            final(self).funcs@ == function_table(old(self).funcs@, f, func_idx),
            final(self).resolver@ == old(self).resolver@,
            final(self).errors == old(self).errors,
            final(self).ast == old(self).ast,
    {
        if let Some(earlier) = self.funcs.get(f.get_name()) {
            let earlier_pos = earlier.def.get_pos();
            return reject(
                AnalyzerError::FunctionAlreadyDefined(
                    FunctionAlreadyDefined::new(f.get_name(), f.get_pos(), earlier_pos),
                ),
            );
        }
        self.funcs.insert(f.get_name(), FuncEntry { def: f, index: func_idx });
        self.resolver.enter_scope();
        let params = f.get_params();
        let mut i: usize = 0;
        while i < params.len()
            invariant
                i <= params@.len(),
                *params == f.params,
                self.errors == old(self).errors,
                self.ast == old(self).ast,
                self.funcs@ == old(self).funcs@.insert(
                    f.name@,
                    FuncEntry { def: f, index: func_idx },
                ),
                bind_params(self.resolver@, params@, i as int) == bind_params(
                    old(self).resolver@.push(ScopeModel::empty()),
                    params@,
                    0,
                ),
            decreases params@.len() - i,
        {
            let param = &params[i];
            self.resolver.define_var(
                param.get_name(),
                NamendValue::new(param.get_val_type(), param.get_pos()),
            );
            i += 1;
        }
        let result = self.check_block(f.get_body(), f);
        proof {
            lemma_stmts_keep_outer_scopes(
                body_env(old(self).env(), f, func_idx),
                f.ret_type,
                f.body.stmts@,
                0,
            );
            lemma_params_keep_outer_scopes(
                old(self).resolver@.push(ScopeModel::empty()),
                f.params@,
                0,
            );
            assert(old(self).resolver@.push(ScopeModel::empty()).drop_last() == old(
                self,
            ).resolver@);
        }
        self.resolver.exit_scope();
        result
    }

    /// Checks the statements of `block` in the scopes that are open, without
    /// opening one for it: all of them, whatever the earlier ones report.
    pub fn check_block(&mut self, block: &BlockExpression<'s>, f: &Function<'s>) -> (r: Result<
        (),
        Vec<AnalyzerError<'s>>,
    >)
        ensures
            reports(r, stmts_errors(old(self).env(), f.ret_type, block.stmts@, 0)),
            final(self).resolver@ == stmts_scopes(old(self).env(), f.ret_type, block.stmts@, 0),
            final(self).keeps(old(self)),
        decreases block, 0int,
    {
        let mut errors: Vec<AnalyzerError<'s>> = Vec::new();
        let stmts = block.get_stmts();
        let mut i: usize = 0;
        assert(errors@ + stmts_errors(self.env(), f.ret_type, stmts@, 0) =~= stmts_errors(
            self.env(),
            f.ret_type,
            stmts@,
            0,
        ));
        while i < stmts.len()
            invariant
                i <= stmts@.len(),
                stmts@ == block.stmts@,
                self.keeps(old(self)),
                errors@ + stmts_errors(self.env(), f.ret_type, stmts@, i as int) == stmts_errors(
                    old(self).env(),
                    f.ret_type,
                    stmts@,
                    0,
                ),
                stmts_scopes(self.env(), f.ret_type, stmts@, i as int) == stmts_scopes(
                    old(self).env(),
                    f.ret_type,
                    stmts@,
                    0,
                ),
            decreases stmts@.len() - i,
        {
            let ghost before = errors@;
            let ghost env = self.env();
            let res = check_stmt(self, &stmts[i], f);
            gather(&mut errors, res);
            i += 1;
            proof {
                let own = stmt_errors(env, f.ret_type, stmts@[i - 1]);
                let rest = stmts_errors(self.env(), f.ret_type, stmts@, i as int);
                assert(self.env() == env.with_scopes(stmt_scopes(env, f.ret_type, stmts@[i - 1])));
                assert((before + own) + rest =~= before + (own + rest));
            }
        }
        proof {
            assert(errors@ + Seq::<AnalyzerError<'s>>::empty() =~= errors@);
        }
        conclude(errors)
    }

    /// Checks every function of the tree in order and adds what they report to
    /// the faults found so far. Hands back `Ok` where none has been found, else
    /// all of them.
    pub fn analyze(&mut self) -> (r: Result<(), &Vec<AnalyzerError<'s>>>)
        ensures
            final(self).errors@ == old(self).errors@ + functions_errors(
                old(self).env(),
                old(self).ast.functions@,
                0,
            ),
            final(self).funcs@ == functions_table(old(self).funcs@, old(self).ast.functions@, 0),
            final(self).resolver@ == old(self).resolver@,
            final(self).ast == old(self).ast,
            match r {
                Ok(_) => final(self).errors@.len() == 0,
                Err(errors) => *errors == final(self).errors && errors@.len() > 0,
            },
    {
        self.run();
        if self.errors.len() == 0 {
            Ok(())
        } else {
            Err(&self.errors)
        }
    }

    /// Checks every function of the tree in order and adds what they report to
    /// the faults found so far.
    pub fn run(&mut self)
        ensures
            final(self).errors@ == old(self).errors@ + functions_errors(
                old(self).env(),
                old(self).ast.functions@,
                0,
            ),
            final(self).funcs@ == functions_table(old(self).funcs@, old(self).ast.functions@, 0),
            final(self).resolver@ == old(self).resolver@,
            final(self).ast == old(self).ast,
    {
        let ast = self.ast;
        let n = ast.functions.len();
        let mut i: usize = 0;
        assert(self.errors@ + Seq::<AnalyzerError<'s>>::empty() =~= self.errors@);
        while i < n
            invariant
                i <= n,
                n == ast.functions@.len(),
                ast == old(self).ast,
                self.ast == ast,
                self.resolver@ == old(self).resolver@,
                self.errors@ + functions_errors(self.env(), ast.functions@, i as int) == old(
                    self,
                ).errors@ + functions_errors(old(self).env(), ast.functions@, 0),
                functions_table(self.funcs@, ast.functions@, i as int) == functions_table(
                    old(self).funcs@,
                    ast.functions@,
                    0,
                ),
            decreases n - i,
        {
            let ghost before = self.errors@;
            let ghost env = self.env();
            let res = self.check_function(&ast.functions[i], i);
            gather(&mut self.errors, res);
            i += 1;
            proof {
                let own = function_errors(env, &ast.functions@[i - 1], (i - 1) as usize);
                let rest = functions_errors(self.env(), ast.functions@, i as int);
                assert((before + own) + rest =~= before + (own + rest));
            }
        }
        assert(self.errors@ + Seq::<AnalyzerError<'s>>::empty() =~= self.errors@);
    }

    /// Gives up the check for the faults it has found.
    pub fn into_errors(self) -> (r: Vec<AnalyzerError<'s>>)
        ensures
            r == self.errors,
    {
        self.errors
    }
}

/// A statement leaves the number of scopes as it is, and all scopes but the
/// innermost as they are.
pub proof fn lemma_stmt_keeps_outer_scopes<'a, 's>(env: Env<'a, 's>, ret: ValType, s: Statement<'s>)
    ensures
        stmt_scopes(env, ret, s).len() == env.scopes.len(),
        stmt_scopes(env, ret, s).drop_last() == env.scopes.drop_last(),
{
    assert(stmt_scopes(env, ret, s).drop_last() =~= env.scopes.drop_last());
}

/// The statements of a block leave the number of scopes as it is, and all
/// scopes but the innermost as they are.
pub proof fn lemma_stmts_keep_outer_scopes<'a, 's>(
    env: Env<'a, 's>,
    ret: ValType,
    stmts: Seq<Statement<'s>>,
    i: int,
)
    ensures
        stmts_scopes(env, ret, stmts, i).len() == env.scopes.len(),
        stmts_scopes(env, ret, stmts, i).drop_last() == env.scopes.drop_last(),
    decreases stmts.len() - i,
{
    if 0 <= i < stmts.len() {
        lemma_stmt_keeps_outer_scopes(env, ret, stmts[i]);
        lemma_stmts_keep_outer_scopes(
            env.with_scopes(stmt_scopes(env, ret, stmts[i])),
            ret,
            stmts,
            i + 1,
        );
    }
}

/// Binding parameters leaves the number of scopes as it is, and all scopes but
/// the innermost as they are.
pub proof fn lemma_params_keep_outer_scopes(
    scopes: Seq<ScopeModel>,
    params: Seq<FunctionParameter>,
    i: int,
)
    ensures
        bind_params(scopes, params, i).len() == scopes.len(),
        bind_params(scopes, params, i).drop_last() == scopes.drop_last(),
    decreases params.len() - i,
{
    if 0 <= i < params.len() {
        let next = declare(scopes, params[i].name@, param_symbol(params[i]));
        assert(next.drop_last() =~= scopes.drop_last());
        lemma_params_keep_outer_scopes(next, params, i + 1);
    }
}

/// Checks a whole tree, starting from nothing: `Ok` where it has no fault,
/// else every fault in the order in which the check comes upon them.
pub fn check<'s>(ast: &AST<'s>) -> (r: Result<(), Vec<AnalyzerError<'s>>>)
    ensures
        reports(r, program_errors(ast.functions@)),
{
    let mut sema = Sema::new(ast);
    sema.run();
    let errors = sema.into_errors();
    assert(errors@ =~= program_errors(ast.functions@));
    conclude(errors)
}

} // verus!
