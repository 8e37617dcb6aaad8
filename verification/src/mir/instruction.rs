use crate::info::ValType;
use crate::mir::function::MirFunctionId;
use crate::mir::value::MirValue;
use vstd::prelude::*;

verus! {

/// The identity of an instruction: its place in the instruction list of its
/// function.
#[derive(Debug, Clone, Copy, PartialEq, Eq, Hash, Structural)]
pub struct MirInstId(pub usize);

/// Reserves a storage slot for a value of a type. The slot is addressed by the
/// instruction's own identity.
#[derive(Debug, Clone, Copy, PartialEq)]
pub struct AllocaInst {
    pub type_: ValType,
}

impl AllocaInst {
    pub fn new(type_: ValType) -> (r: Self)
        ensures
            r.type_ == type_,
    {
        AllocaInst { type_ }
    }

    pub fn type_(&self) -> (r: ValType)
        ensures
            r == self.type_,
    {
        self.type_
    }
}

/// Writes a value into the slot that `target` reserved.
#[derive(Debug, Clone, Copy, PartialEq)]
pub struct StoreInst {
    pub target: MirInstId,
    pub value: MirValue,
}

impl StoreInst {
    pub fn new(target: MirInstId, value: MirValue) -> (r: Self)
        ensures
            r.target == target,
            r.value == value,
    {
        StoreInst { target, value }
    }

    pub fn target(&self) -> (r: MirInstId)
        ensures
            r == self.target,
    {
        self.target
    }

    pub fn value(&self) -> (r: &MirValue)
        ensures
            *r == self.value,
    {
        &self.value
    }
}

/// Reads a value of type `by` from the slot that `from` reserved.
#[derive(Debug, Clone, Copy, PartialEq)]
pub struct LoadInst {
    pub by: ValType,
    pub from: MirInstId,
}

impl LoadInst {
    pub fn new(by: ValType, from: MirInstId) -> (r: Self)
        ensures
            r.by == by,
            r.from == from,
    {
        LoadInst { by, from }
    }

    pub fn by(&self) -> (r: ValType)
        ensures
            r == self.by,
    {
        self.by
    }

    pub fn from(&self) -> (r: &MirInstId)
        ensures
            *r == self.from,
    {
        &self.from
    }
}

#[derive(Debug, Clone, Copy, PartialEq)]
pub struct AddInst {
    pub lhs: MirValue,
    pub rhs: MirValue,
}

impl AddInst {
    pub fn new(lhs: MirValue, rhs: MirValue) -> (r: Self)
        ensures
            r.lhs == lhs,
            r.rhs == rhs,
    {
        AddInst { lhs, rhs }
    }

    pub fn lhs(&self) -> (r: &MirValue)
        ensures
            *r == self.lhs,
    {
        &self.lhs
    }

    pub fn rhs(&self) -> (r: &MirValue)
        ensures
            *r == self.rhs,
    {
        &self.rhs
    }
}

#[derive(Debug, Clone, Copy, PartialEq)]
pub struct SubInst {
    pub lhs: MirValue,
    pub rhs: MirValue,
}

impl SubInst {
    pub fn new(lhs: MirValue, rhs: MirValue) -> (r: Self)
        ensures
            r.lhs == lhs,
            r.rhs == rhs,
    {
        SubInst { lhs, rhs }
    }

    pub fn lhs(&self) -> (r: &MirValue)
        ensures
            *r == self.lhs,
    {
        &self.lhs
    }

    pub fn rhs(&self) -> (r: &MirValue)
        ensures
            *r == self.rhs,
    {
        &self.rhs
    }
}

#[derive(Debug, Clone, Copy, PartialEq)]
pub struct MulInst {
    pub lhs: MirValue,
    pub rhs: MirValue,
}

impl MulInst {
    pub fn new(lhs: MirValue, rhs: MirValue) -> (r: Self)
        ensures
            r.lhs == lhs,
            r.rhs == rhs,
    {
        MulInst { lhs, rhs }
    }

    pub fn lhs(&self) -> (r: &MirValue)
        ensures
            *r == self.lhs,
    {
        &self.lhs
    }

    pub fn rhs(&self) -> (r: &MirValue)
        ensures
            *r == self.rhs,
    {
        &self.rhs
    }
}

#[derive(Debug, Clone, Copy, PartialEq)]
pub struct DivInst {
    pub lhs: MirValue,
    pub rhs: MirValue,
}

impl DivInst {
    pub fn new(lhs: MirValue, rhs: MirValue) -> (r: Self)
        ensures
            r.lhs == lhs,
            r.rhs == rhs,
    {
        DivInst { lhs, rhs }
    }

    pub fn lhs(&self) -> (r: &MirValue)
        ensures
            *r == self.lhs,
    {
        &self.lhs
    }

    pub fn rhs(&self) -> (r: &MirValue)
        ensures
            *r == self.rhs,
    {
        &self.rhs
    }
}

/// Returns a value of a type from the function.
#[derive(Debug, Clone, Copy, PartialEq)]
pub struct ReturnInst {
    pub ret_value: MirValue,
    pub type_: ValType,
}

impl ReturnInst {
    pub fn new(ret_value: MirValue, type_: ValType) -> (r: Self)
        ensures
            r.ret_value == ret_value,
            r.type_ == type_,
    {
        ReturnInst { ret_value, type_ }
    }

    pub fn ret_value(&self) -> (r: &MirValue)
        ensures
            *r == self.ret_value,
    {
        &self.ret_value
    }

    pub fn type_(&self) -> (r: ValType)
        ensures
            r == self.type_,
    {
        self.type_
    }
}

/// Calls a function of the module with arguments in order.
#[derive(Debug, Clone, PartialEq)]
pub struct CallInst {
    pub callee: MirFunctionId,
    pub args: Vec<MirValue>,
}

impl CallInst {
    pub fn new(callee: MirFunctionId, args: Vec<MirValue>) -> (r: Self)
        ensures
            r.callee == callee,
            r.args == args,
    {
        Self { callee, args }
    }

    pub fn callee(&self) -> (r: MirFunctionId)
        ensures
            r == self.callee,
    {
        self.callee
    }

    pub fn args(&self) -> (r: &[MirValue])
        ensures
            r@ == self.args@,
    {
        self.args.as_slice()
    }
}

#[derive(Debug, Clone, PartialEq)]
pub enum Instruction {
    Alloca(AllocaInst),
    Store(StoreInst),
    Load(LoadInst),
    Add(AddInst),
    Sub(SubInst),
    Mul(MulInst),
    Div(DivInst),
    Return(ReturnInst),
    Call(CallInst),
}

/// What an instruction says, with the arguments of a call as a sequence.
pub enum InstModel {
    Alloca(ValType),
    Store(MirInstId, MirValue),
    Load(ValType, MirInstId),
    Add(MirValue, MirValue),
    Sub(MirValue, MirValue),
    Mul(MirValue, MirValue),
    Div(MirValue, MirValue),
    Return(MirValue, ValType),
    Call(MirFunctionId, Seq<MirValue>),
}

impl View for Instruction {
    type V = InstModel;

    open spec fn view(&self) -> InstModel {
        match *self {
            Instruction::Alloca(i) => InstModel::Alloca(i.type_),
            Instruction::Store(i) => InstModel::Store(i.target, i.value),
            Instruction::Load(i) => InstModel::Load(i.by, i.from),
            Instruction::Add(i) => InstModel::Add(i.lhs, i.rhs),
            Instruction::Sub(i) => InstModel::Sub(i.lhs, i.rhs),
            Instruction::Mul(i) => InstModel::Mul(i.lhs, i.rhs),
            Instruction::Div(i) => InstModel::Div(i.lhs, i.rhs),
            Instruction::Return(i) => InstModel::Return(i.ret_value, i.type_),
            Instruction::Call(i) => InstModel::Call(i.callee, i.args@),
        }
    }
}

/// What a list of instructions says.
pub open spec fn inst_models(instructions: Seq<Instruction>) -> Seq<InstModel> {
    instructions.map_values(|i: Instruction| i@)
}

} // verus!
