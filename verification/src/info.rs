use vstd::prelude::*;

verus! {

/// The types a value of the language can have.
///
/// `Untyped` stands for "not determined" and is never the type of a run-time
/// value; `Void` is the absence of a value.
#[derive(Debug, Clone, Copy, PartialEq, Eq, Structural)]
pub enum ValType {
    Untyped,
    I32,
    F32,
    Void,
}

/// The four arithmetic operators of the language.
#[derive(Debug, Clone, Copy, PartialEq, Eq, Structural)]
pub enum OperatorType {
    Add,
    Sub,
    Mul,
    Div,
}

impl ValType {
    /// Whether a value of this type can stand where a value is required.
    pub open spec fn is_value_type(self) -> bool {
        self == ValType::I32 || self == ValType::F32
    }

    /// The name of the type as the language writes it.
    pub fn name(&self) -> (r: &'static str)
        ensures
            r@ == self.name_spec(),
    {
        match self {
            ValType::Untyped => "untyped",
            ValType::I32 => "i32",
            ValType::F32 => "f32",
            ValType::Void => "void",
        }
    }

    pub open spec fn name_spec(self) -> Seq<char> {
        match self {
            ValType::Untyped => "untyped"@,
            ValType::I32 => "i32"@,
            ValType::F32 => "f32"@,
            ValType::Void => "void"@,
        }
    }
}

} // verus!
