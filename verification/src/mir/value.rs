use crate::info::ValType;
use crate::mir::instruction::MirInstId;
use vstd::prelude::*;

verus! {

/// A constant: `null`, or a number with its type and its 64 bits as they are.
#[derive(Debug, Clone, Copy, PartialEq, Eq, Structural)]
pub enum Constant {
    Null,
    IntValue(ValType, u64),
    FloatValue(ValType, u64),
}

/// An operand: a constant, the value that an earlier instruction of the same
/// function has produced, or the value of a parameter of the function.
#[derive(Debug, Clone, Copy, PartialEq, Eq, Structural)]
pub enum MirValue {
    Constant(Constant),
    Inst(MirInstId),
    Param(usize),
}

} // verus!
