use crate::ast::statement::Statement;
use crate::info::{OperatorType, ValType};
use crate::position::Position;
use vstd::prelude::*;

verus! {

/// A literal: its text as written, the type that its form gives it, and where
/// it stands.
#[derive(Debug)]
pub struct LiteralExpression<'s> {
    pub value: &'s str,
    pub type_: ValType,
    pub pos: Position,
}

impl<'s> LiteralExpression<'s> {
    pub fn new(value: &'s str, type_: ValType, pos: Position) -> (r: Self)
        ensures
            r.value == value,
            r.type_ == type_,
            r.pos == pos,
    {
        Self { value, type_, pos }
    }

    pub fn get_pos(&self) -> (r: Position)
        ensures
            r == self.pos,
    {
        self.pos.clone()
    }

    pub fn get_value(&self) -> (r: &'s str)
        ensures
            r == self.value,
    {
        self.value
    }

    pub fn get_type(&self) -> (r: ValType)
        ensures
            r == self.type_,
    {
        self.type_
    }
}

/// A block used as an expression: statements checked and lowered in a scope of
/// their own.
#[derive(Debug)]
pub struct BlockExpression<'s> {
    pub stmts: Vec<Statement<'s>>,
    pub pos: Position,
}

impl<'s> BlockExpression<'s> {
    pub fn new(stmts: Vec<Statement<'s>>, pos: Position) -> (r: Self)
        ensures
            r.stmts == stmts,
            r.pos == pos,
    {
        Self { stmts, pos }
    }

    pub fn get_pos(&self) -> (r: Position)
        ensures
            r == self.pos,
    {
        self.pos.clone()
    }

    pub fn get_stmts(&self) -> (r: &[Statement<'s>])
        ensures
            r@ == self.stmts@,
    {
        self.stmts.as_slice()
    }

    pub fn get_stmts_mut(&mut self) -> (r: &mut Vec<Statement<'s>>)
        ensures
            *r == old(self).stmts,
            *final(self) == (BlockExpression { stmts: *final(r), pos: old(self).pos }),
    {
        &mut self.stmts
    }

    /// The statement at `idx`, if the block has that many.
    pub fn get_at(&self, idx: usize) -> (r: Option<&Statement<'s>>)
        ensures
            match r {
                Some(s) => idx < self.stmts@.len() && *s == self.stmts@[idx as int],
                None => idx >= self.stmts@.len(),
            },
    {
        if idx < self.stmts.len() {
            Some(&self.stmts[idx])
        } else {
            None
        }
    }
}

/// An assignment. With a target it writes the value to that variable; without
/// one it stands for the value alone, as the initializer of a `let`.
#[derive(Debug)]
pub struct AssignExpression<'s> {
    pub asignee: Option<&'s str>,
    pub value: Box<Expression<'s>>,
    pub pos: Position,
}

impl<'s> AssignExpression<'s> {
    pub fn new(asignee: Option<&'s str>, value: Expression<'s>, pos: Position) -> (r: Self)
        ensures
            r.asignee == asignee,
            *r.value == value,
            r.pos == pos,
    {
        Self { asignee, value: Box::new(value), pos }
    }

    pub fn get_pos(&self) -> (r: Position)
        ensures
            r == self.pos,
    {
        self.pos.clone()
    }

    pub fn get_asignee(&self) -> (r: Option<&'s str>)
        ensures
            r == self.asignee,
    {
        self.asignee
    }

    pub fn get_value(&self) -> (r: &Expression<'s>)
        ensures
            *r == *self.value,
    {
        &self.value
    }
}

/// The use of a variable by name.
#[derive(Debug)]
pub struct VariableExpression<'s> {
    pub name: &'s str,
    pub pos: Position,
}

impl<'s> VariableExpression<'s> {
    pub fn new(name: &'s str, pos: Position) -> (r: Self)
        ensures
            r.name == name,
            r.pos == pos,
    {
        Self { name, pos }
    }

    pub fn get_pos(&self) -> (r: Position)
        ensures
            r == self.pos,
    {
        self.pos.clone()
    }

    pub fn get_name(&self) -> (r: &'s str)
        ensures
            r == self.name,
    {
        self.name
    }
}

/// Two operands joined by an arithmetic operator.
#[derive(Debug)]
pub struct BinaryExpression<'s> {
    pub left: Box<Expression<'s>>,
    pub operator: OperatorType,
    pub right: Box<Expression<'s>>,
    pub pos: Position,
}

impl<'s> BinaryExpression<'s> {
    pub fn new(
        left: Expression<'s>,
        operator: OperatorType,
        right: Expression<'s>,
        pos: Position,
    ) -> (r: Self)
        ensures
            *r.left == left,
            r.operator == operator,
            *r.right == right,
            r.pos == pos,
    {
        Self { left: Box::new(left), operator, right: Box::new(right), pos }
    }

    pub fn get_pos(&self) -> (r: Position)
        ensures
            r == self.pos,
    {
        self.pos.clone()
    }

    pub fn get_left_mut(&mut self) -> (r: &mut Expression<'s>)
        ensures
            *r == *old(self).left,
            *final(self).left == *final(r),
            final(self).operator == old(self).operator,
            final(self).right == old(self).right,
            final(self).pos == old(self).pos,
    {
        &mut *self.left
    }

    pub fn get_right_mut(&mut self) -> (r: &mut Expression<'s>)
        ensures
            *r == *old(self).right,
            *final(self).right == *final(r),
            final(self).operator == old(self).operator,
            final(self).left == old(self).left,
            final(self).pos == old(self).pos,
    {
        &mut *self.right
    }

    pub fn get_operator(&self) -> (r: &OperatorType)
        ensures
            *r == self.operator,
    {
        &self.operator
    }

    pub fn get_left(&self) -> (r: &Expression<'s>)
        ensures
            *r == *self.left,
    {
        &self.left
    }

    pub fn get_right(&self) -> (r: &Expression<'s>)
        ensures
            *r == *self.right,
    {
        &self.right
    }
}

/// The literal `null`.
#[derive(Debug)]
pub struct NullExpression {
    pub pos: Position,
}

impl NullExpression {
    pub fn new(pos: Position) -> (r: Self)
        ensures
            r.pos == pos,
    {
        Self { pos }
    }

    pub fn get_pos(&self) -> (r: Position)
        ensures
            r == self.pos,
    {
        self.pos.clone()
    }
}

/// A call of a function by name with its arguments in order.
#[derive(Debug)]
pub struct CallExpression<'s> {
    pub pos: Position,
    pub callee: &'s str,
    pub args: Vec<Expression<'s>>,
}

impl<'s> CallExpression<'s> {
    pub fn new(pos: Position, callee: &'s str, args: Vec<Expression<'s>>) -> (r: Self)
        ensures
            r.pos == pos,
            r.callee == callee,
            r.args == args,
    {
        Self { pos, callee, args }
    }

    pub fn get_pos(&self) -> (r: Position)
        ensures
            r == self.pos,
    {
        self.pos.clone()
    }

    pub fn get_callee(&self) -> (r: &'s str)
        ensures
            r == self.callee,
    {
        self.callee
    }

    pub fn get_args(&self) -> (r: &Vec<Expression<'s>>)
        ensures
            *r == self.args,
    {
        &self.args
    }

    pub fn get_args_mut(&mut self) -> (r: &mut Vec<Expression<'s>>)
        ensures
            *r == old(self).args,
            final(self).args == *final(r),
            final(self).callee == old(self).callee,
            final(self).pos == old(self).pos,
    {
        &mut self.args
    }
}

#[derive(Debug)]
pub enum Expression<'s> {
    LiteralExpression(LiteralExpression<'s>),
    BlockExpression(BlockExpression<'s>),
    AssignExpression(AssignExpression<'s>),
    VariableExpression(VariableExpression<'s>),
    BinaryExpression(BinaryExpression<'s>),
    NullExpression(NullExpression),
    CallExpression(CallExpression<'s>),
}

impl<'s> Expression<'s> {
    /// Where the expression stands.
    pub open spec fn span(self) -> Position {
        match self {
            Expression::LiteralExpression(e) => e.pos,
            Expression::BlockExpression(e) => e.pos,
            Expression::AssignExpression(e) => e.pos,
            Expression::VariableExpression(e) => e.pos,
            Expression::BinaryExpression(e) => e.pos,
            Expression::NullExpression(e) => e.pos,
            Expression::CallExpression(e) => e.pos,
        }
    }

    pub fn get_pos(&self) -> (r: Position)
        ensures
            r == self.span(),
    {
        match self {
            Expression::LiteralExpression(expr) => expr.get_pos(),
            Expression::BlockExpression(expr) => expr.get_pos(),
            Expression::AssignExpression(expr) => expr.get_pos(),
            Expression::VariableExpression(expr) => expr.get_pos(),
            Expression::BinaryExpression(expr) => expr.get_pos(),
            Expression::NullExpression(expr) => expr.get_pos(),
            Expression::CallExpression(expr) => expr.get_pos(),
        }
    }
}

} // verus!
