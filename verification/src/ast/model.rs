use crate::ast::expression::{AssignExpression, BlockExpression, Expression};
use crate::ast::function::{Function, FunctionParameter};
use crate::ast::statement::{LetStatement, ReturnStatement, Statement};
use crate::ast::tree::AST;
use crate::info::{OperatorType, ValType};
use crate::position::Position;
use vstd::prelude::*;

verus! {

/// What an assignment says.
pub struct AssignModel {
    pub asignee: Option<Seq<char>>,
    pub value: Box<ExprModel>,
    pub pos: Position,
}

/// What an expression says: the expression with every name and every text as
/// the characters it holds.
pub enum ExprModel {
    Literal { value: Seq<char>, type_: ValType, pos: Position },
    Block(BlockModel),
    Assign(AssignModel),
    Variable { name: Seq<char>, pos: Position },
    Binary { left: Box<ExprModel>, operator: OperatorType, right: Box<ExprModel>, pos: Position },
    Null { pos: Position },
    Call { pos: Position, callee: Seq<char>, args: Seq<ExprModel> },
}

/// What a block says.
pub struct BlockModel {
    pub stmts: Seq<StmtModel>,
    pub pos: Position,
}

/// What a `let` says.
pub struct LetModel {
    pub type_: ValType,
    pub name: Seq<char>,
    pub assignee: Option<AssignModel>,
    pub pos: Position,
}

/// What a statement says.
pub enum StmtModel {
    Expression(ExprModel),
    Return { value: ExprModel, type_: ValType, pos: Position },
    Let(LetModel),
}

/// What a parameter says.
pub struct ParamModel {
    pub name: Seq<char>,
    pub pos: Position,
    pub type_: ValType,
}

/// What a function definition says.
pub struct FunctionModel {
    pub name: Seq<char>,
    pub pos: Position,
    pub ret_type: ValType,
    pub params: Seq<ParamModel>,
    pub body: BlockModel,
}

impl ExprModel {
    /// Where the expression stands.
    pub open spec fn span(self) -> Position {
        match self {
            ExprModel::Literal { pos, .. } => pos,
            ExprModel::Block(b) => b.pos,
            ExprModel::Assign(a) => a.pos,
            ExprModel::Variable { pos, .. } => pos,
            ExprModel::Binary { pos, .. } => pos,
            ExprModel::Null { pos } => pos,
            ExprModel::Call { pos, .. } => pos,
        }
    }
}

impl LetModel {
    /// Where the statement stands: its own span, extended over the initializer
    /// where it has one.
    pub open spec fn span(self) -> Position {
        match self.assignee {
            Some(assignee) => self.pos.merged(assignee.pos),
            None => self.pos,
        }
    }
}

impl StmtModel {
    /// Where the statement stands.
    pub open spec fn span(self) -> Position {
        match self {
            StmtModel::Expression(e) => e.span(),
            StmtModel::Return { pos, .. } => pos,
            StmtModel::Let(l) => l.span(),
        }
    }
}

/// What an expression says.
pub open spec fn expr_model(e: Expression) -> ExprModel
    decreases e,
{
    match e {
        Expression::LiteralExpression(l) => ExprModel::Literal {
            value: l.value@,
            type_: l.type_,
            pos: l.pos,
        },
        Expression::BlockExpression(b) => ExprModel::Block(
            BlockModel { stmts: stmts_model(b.stmts@, b.stmts@.len() as int), pos: b.pos },
        ),
        Expression::AssignExpression(a) => ExprModel::Assign(assign_model(a)),
        Expression::VariableExpression(v) => ExprModel::Variable { name: v.name@, pos: v.pos },
        Expression::BinaryExpression(b) => ExprModel::Binary {
            left: Box::new(expr_model(*b.left)),
            operator: b.operator,
            right: Box::new(expr_model(*b.right)),
            pos: b.pos,
        },
        Expression::NullExpression(n) => ExprModel::Null { pos: n.pos },
        Expression::CallExpression(c) => ExprModel::Call {
            pos: c.pos,
            callee: c.callee@,
            args: exprs_model(c.args@, c.args@.len() as int),
        },
    }
}

/// What an assignment says.
pub open spec fn assign_model(a: AssignExpression) -> AssignModel
    decreases a,
{
    AssignModel {
        asignee: match a.asignee {
            Some(name) => Some(name@),
            None => None,
        },
        value: Box::new(expr_model(*a.value)),
        pos: a.pos,
    }
}

/// What the first `n` of some expressions say.
pub open spec fn exprs_model(exprs: Seq<Expression>, n: int) -> Seq<ExprModel>
    decreases exprs, n,
{
    if 0 < n <= exprs.len() {
        exprs_model(exprs, n - 1).push(expr_model(exprs[n - 1]))
    } else {
        Seq::empty()
    }
}

/// What a `let` says.
pub open spec fn let_model(l: LetStatement) -> LetModel
    decreases l,
{
    LetModel {
        type_: l.type_,
        name: l.name@,
        assignee: match l.assignee {
            Some(a) => Some(assign_model(a)),
            None => None,
        },
        pos: l.pos,
    }
}

/// What a statement says.
pub open spec fn stmt_model(s: Statement) -> StmtModel
    decreases s,
{
    match s {
        Statement::Expression(e) => StmtModel::Expression(expr_model(e)),
        Statement::ReturnStatement(r) => StmtModel::Return {
            value: expr_model(r.value),
            type_: r.type_,
            pos: r.pos,
        },
        Statement::LetStatement(l) => StmtModel::Let(let_model(l)),
    }
}

/// What the first `n` of some statements say.
pub open spec fn stmts_model(stmts: Seq<Statement>, n: int) -> Seq<StmtModel>
    decreases stmts, n,
{
    if 0 < n <= stmts.len() {
        stmts_model(stmts, n - 1).push(stmt_model(stmts[n - 1]))
    } else {
        Seq::empty()
    }
}

/// What a block says.
pub open spec fn block_model(b: BlockExpression) -> BlockModel {
    BlockModel { stmts: stmts_model(b.stmts@, b.stmts@.len() as int), pos: b.pos }
}

/// What a parameter says.
pub open spec fn param_model(p: FunctionParameter) -> ParamModel {
    ParamModel { name: p.name@, pos: p.pos, type_: p.type_ }
}

/// What some parameters say.
pub open spec fn params_model(params: Seq<FunctionParameter>) -> Seq<ParamModel> {
    params.map_values(|p: FunctionParameter| param_model(p))
}

/// What a function definition says.
pub open spec fn function_model(f: Function) -> FunctionModel {
    FunctionModel {
        name: f.name@,
        pos: f.pos,
        ret_type: f.ret_type,
        params: params_model(f.params@),
        body: block_model(f.body),
    }
}

/// What some function definitions say.
pub open spec fn functions_model(functions: Seq<Function>) -> Seq<FunctionModel> {
    functions.map_values(|f: Function| function_model(f))
}

impl<'s> View for Expression<'s> {
    type V = ExprModel;

    open spec fn view(&self) -> ExprModel {
        expr_model(*self)
    }
}

impl<'s> View for AssignExpression<'s> {
    type V = AssignModel;

    open spec fn view(&self) -> AssignModel {
        assign_model(*self)
    }
}

impl<'s> View for BlockExpression<'s> {
    type V = BlockModel;

    open spec fn view(&self) -> BlockModel {
        block_model(*self)
    }
}

impl<'s> View for LetStatement<'s> {
    type V = LetModel;

    open spec fn view(&self) -> LetModel {
        let_model(*self)
    }
}

impl<'s> View for Statement<'s> {
    type V = StmtModel;

    open spec fn view(&self) -> StmtModel {
        stmt_model(*self)
    }
}

impl<'s> View for FunctionParameter<'s> {
    type V = ParamModel;

    open spec fn view(&self) -> ParamModel {
        param_model(*self)
    }
}

impl<'s> View for Function<'s> {
    type V = FunctionModel;

    open spec fn view(&self) -> FunctionModel {
        function_model(*self)
    }
}

impl<'s> View for AST<'s> {
    type V = Seq<FunctionModel>;

    open spec fn view(&self) -> Seq<FunctionModel> {
        functions_model(self.functions@)
    }
}

/// What the first `n` expressions say does not depend on those behind them.
pub proof fn lemma_exprs_model_prefix(a: Seq<Expression>, b: Seq<Expression>, n: int)
    requires
        0 <= n <= a.len(),
        n <= b.len(),
        forall|i: int| 0 <= i < n ==> a[i] == b[i],
    ensures
        exprs_model(a, n) == exprs_model(b, n),
    decreases n,
{
    if n > 0 {
        lemma_exprs_model_prefix(a, b, n - 1);
    }
}

/// What the first `n` statements say does not depend on those behind them.
pub proof fn lemma_stmts_model_prefix(a: Seq<Statement>, b: Seq<Statement>, n: int)
    requires
        0 <= n <= a.len(),
        n <= b.len(),
        forall|i: int| 0 <= i < n ==> a[i] == b[i],
    ensures
        stmts_model(a, n) == stmts_model(b, n),
    decreases n,
{
    if n > 0 {
        lemma_stmts_model_prefix(a, b, n - 1);
    }
}

/// The span of an expression is the span of what it says.
pub proof fn lemma_expr_span(e: Expression)
    ensures
        e@.span() == e.span(),
{
    match e {
        Expression::LiteralExpression(_) => {},
        Expression::BlockExpression(_) => {},
        Expression::AssignExpression(a) => {
            assert(expr_model(e) == ExprModel::Assign(assign_model(a)));
        },
        Expression::VariableExpression(_) => {},
        Expression::BinaryExpression(_) => {},
        Expression::NullExpression(_) => {},
        Expression::CallExpression(_) => {},
    }
}

/// The span of a statement is the span of what it says.
pub proof fn lemma_stmt_span(s: Statement)
    ensures
        s@.span() == s.span(),
{
    match s {
        Statement::Expression(e) => {
            lemma_expr_span(e);
        },
        Statement::ReturnStatement(_) => {},
        Statement::LetStatement(l) => {
            match l.assignee {
                Some(a) => {
                    assert(assign_model(a).pos == a.pos);
                },
                None => {},
            }
        },
    }
}

} // verus!
