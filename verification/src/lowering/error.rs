use crate::info::ValType;
use crate::position::Position;
use vstd::prelude::*;

verus! {

/// What lowering can report.
#[derive(Debug, Clone, Copy, PartialEq, Eq)]
pub enum LoweringError<'ctx> {
    /// The text of a literal stands for no number of its type.
    InvalidNumericValue(&'ctx str),
    /// A literal has a type that no value has.
    IllegalType(ValType),
    /// A variable is used that the function has not declared.
    VariableNotFound(&'ctx str),
    /// A call names a function that the module does not hold.
    FunctionNotFound(&'ctx str),
    /// An assignment names a parameter, which has no storage slot.
    NotAssignable(&'ctx str),
    /// An expression that yields no value stands where a value is needed.
    ValueExpected,
}

/// A value of type `Void` stands where a value is used.
#[derive(Debug)]
pub struct VoidIllegal {
    pub pos: Position,
}

impl VoidIllegal {
    pub fn new(pos: Position) -> (r: Self)
        ensures
            r.pos == pos,
    {
        Self { pos }
    }

    pub fn pos(&self) -> (r: Position)
        ensures
            r == self.pos,
    {
        self.pos.clone()
    }
}

} // verus!
