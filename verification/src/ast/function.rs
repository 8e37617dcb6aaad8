use crate::ast::expression::BlockExpression;
use crate::info::ValType;
use crate::position::Position;
use vstd::prelude::*;

verus! {

/// A parameter of a function: its name, where it stands and its type.
#[derive(Debug)]
pub struct FunctionParameter<'s> {
    pub name: &'s str,
    pub pos: Position,
    pub type_: ValType,
}

impl<'s> FunctionParameter<'s> {
    pub fn new(name: &'s str, pos: Position, val_type: ValType) -> (r: Self)
        ensures
            r.name == name,
            r.pos == pos,
            r.type_ == val_type,
    {
        Self { name, pos, type_: val_type }
    }

    pub fn get_pos(&self) -> (r: Position)
        ensures
            r == self.pos,
    {
        self.pos.clone()
    }

    pub fn get_name(&self) -> (r: &'s str)
        ensures
            r == self.name,
    {
        self.name
    }

    pub fn get_val_type(&self) -> (r: ValType)
        ensures
            r == self.type_,
    {
        self.type_
    }
}

/// A function definition: name, return type, parameters in order, and body.
#[derive(Debug)]
pub struct Function<'s> {
    pub name: &'s str,
    pub pos: Position,
    pub ret_type: ValType,
    pub params: Vec<FunctionParameter<'s>>,
    pub body: BlockExpression<'s>,
}

impl<'s> Function<'s> {
    pub fn new(
        name: &'s str,
        params: Vec<FunctionParameter<'s>>,
        pos: Position,
        ret_type: ValType,
        body: BlockExpression<'s>,
    ) -> (r: Self)
        ensures
            r.name == name,
            r.params == params,
            r.pos == pos,
            r.ret_type == ret_type,
            r.body == body,
    {
        Self { name, pos, ret_type, params, body }
    }

    pub fn get_pos(&self) -> (r: Position)
        ensures
            r == self.pos,
    {
        self.pos.clone()
    }

    pub fn get_name(&self) -> (r: &'s str)
        ensures
            r == self.name,
    {
        self.name
    }

    pub fn get_ret_type(&self) -> (r: ValType)
        ensures
            r == self.ret_type,
    {
        self.ret_type
    }

    pub fn get_body(&self) -> (r: &BlockExpression<'s>)
        ensures
            *r == self.body,
    {
        &self.body
    }

    pub fn get_params(&self) -> (r: &Vec<FunctionParameter<'s>>)
        ensures
            *r == self.params,
    {
        &self.params
    }
}

} // verus!
