use crate::ast::expression::{AssignExpression, Expression};
use crate::info::ValType;
use crate::position::Position;
use vstd::prelude::*;

verus! {

/// `return` with the expression whose value is returned.
#[derive(Debug)]
pub struct ReturnStatement<'s> {
    pub value: Expression<'s>,
    pub type_: ValType,
    pub pos: Position,
}

impl<'s> ReturnStatement<'s> {
    pub fn new(value: Expression<'s>, type_: ValType, pos: Position) -> (r: Self)
        ensures
            r.value == value,
            r.type_ == type_,
            r.pos == pos,
    {
        Self { value, type_, pos }
    }

    pub fn get_pos(&self) -> (r: Position)
        ensures
            r == self.pos,
    {
        self.pos.clone()
    }

    pub fn get_value(&self) -> (r: &Expression<'s>)
        ensures
            *r == self.value,
    {
        &self.value
    }

    pub fn get_value_mut(&mut self) -> (r: &mut Expression<'s>)
        ensures
            *r == old(self).value,
            final(self).value == *final(r),
            final(self).type_ == old(self).type_,
            final(self).pos == old(self).pos,
    {
        &mut self.value
    }

    pub fn get_type(&self) -> (r: ValType)
        ensures
            r == self.type_,
    {
        self.type_
    }
}

/// The declaration of a local variable, with or without an initializer.
#[derive(Debug)]
pub struct LetStatement<'s> {
    pub type_: ValType,
    pub name: &'s str,
    pub assignee: Option<AssignExpression<'s>>,
    pub pos: Position,
}

impl<'s> LetStatement<'s> {
    pub fn new(
        type_: ValType,
        name: &'s str,
        assignee: Option<AssignExpression<'s>>,
        pos: Position,
    ) -> (r: Self)
        ensures
            r.type_ == type_,
            r.name == name,
            r.assignee == assignee,
            r.pos == pos,
    {
        Self { type_, name, assignee, pos }
    }

    pub fn get_type(&self) -> (r: &ValType)
        ensures
            *r == self.type_,
    {
        &self.type_
    }

    pub fn get_assignee(&self) -> (r: &Option<AssignExpression<'s>>)
        ensures
            *r == self.assignee,
    {
        &self.assignee
    }

    pub fn get_assignee_mut(&mut self) -> (r: &mut Option<AssignExpression<'s>>)
        ensures
            *r == old(self).assignee,
            final(self).assignee == *final(r),
            final(self).type_ == old(self).type_,
            final(self).name == old(self).name,
            final(self).pos == old(self).pos,
    {
        &mut self.assignee
    }

    pub fn get_name(&self) -> (r: &'s str)
        ensures
            r == self.name,
    {
        self.name
    }

    /// Where the statement stands: its own span, extended over the initializer
    /// where it has one.
    pub open spec fn span(self) -> Position {
        match self.assignee {
            Some(assignee) => self.pos.merged(assignee.pos),
            None => self.pos,
        }
    }

    pub fn get_pos(&self) -> (r: Position)
        ensures
            r == self.span(),
    {
        let pos = self.pos.clone();
        if let Some(ref assignee) = self.assignee {
            pos.merge(assignee.get_pos())
        } else {
            pos
        }
    }
}

#[derive(Debug)]
pub enum Statement<'s> {
    Expression(Expression<'s>),
    ReturnStatement(ReturnStatement<'s>),
    LetStatement(LetStatement<'s>),
}

impl<'s> Statement<'s> {
    /// Where the statement stands.
    pub open spec fn span(self) -> Position {
        match self {
            Statement::Expression(e) => e.span(),
            Statement::ReturnStatement(s) => s.pos,
            Statement::LetStatement(s) => s.span(),
        }
    }

    pub fn get_pos(&self) -> (r: Position)
        ensures
            r == self.span(),
    {
        match self {
            Statement::Expression(expr) => expr.get_pos(),
            Statement::ReturnStatement(stmt) => stmt.get_pos(),
            Statement::LetStatement(stmt) => stmt.get_pos(),
        }
    }
}

} // verus!
