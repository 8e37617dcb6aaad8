use crate::info::ValType;
use crate::position::Position;
use vstd::prelude::*;

verus! {

/// A variable was used that no scope declares.
#[derive(Debug, PartialEq)]
pub struct VariableNotFound<'s> {
    pub name: &'s str,
    pub pos: Position,
}

impl<'s> VariableNotFound<'s> {
    pub fn new(name: &'s str, pos: Position) -> (r: Self)
        ensures
            r.name == name,
            r.pos == pos,
    {
        Self { name, pos }
    }

    pub fn name(&self) -> (r: &'s str)
        ensures
            r == self.name,
    {
        self.name
    }

    pub fn pos(&self) -> (r: Position)
        ensures
            r == self.pos,
    {
        self.pos.clone()
    }
}

/// A value has another type than its place asks for.
#[derive(Debug, PartialEq)]
pub struct TypeMismatch {
    pub expected: ValType,
    pub found: ValType,
    pub pos: Position,
}

impl TypeMismatch {
    pub fn new(expected: ValType, found: ValType, pos: Position) -> (r: Self)
        ensures
            r.expected == expected,
            r.found == found,
            r.pos == pos,
    {
        Self { expected, found, pos }
    }

    pub fn expected(&self) -> (r: ValType)
        ensures
            r == self.expected,
    {
        self.expected
    }

    pub fn found(&self) -> (r: ValType)
        ensures
            r == self.found,
    {
        self.found
    }

    pub fn pos(&self) -> (r: Position)
        ensures
            r == self.pos,
    {
        self.pos.clone()
    }
}

/// A value was required where the expression is `null` or has no type.
#[derive(Debug, PartialEq)]
pub struct IllegalNullUntyped {
    pub pos: Position,
}

impl IllegalNullUntyped {
    pub fn new(pos: Position) -> (r: Self)
        ensures
            r.pos == pos,
    {
        Self { pos }
    }

    pub fn pos(&self) -> (r: Position)
        ensures
            r == self.pos,
    {
        self.pos.clone()
    }
}

#[derive(Debug, PartialEq)]
pub enum ExprCheckError<'s> {
    VariableNotFound(VariableNotFound<'s>),
    TypeMismatch(TypeMismatch),
    IllegalNullVoid(IllegalNullUntyped),
}

/// A function was defined under a name that an earlier function has.
#[derive(Debug, PartialEq)]
pub struct FunctionAlreadyDefined<'s> {
    pub name: &'s str,
    pub pos: Position,
    pub earlier: Position,
}

impl<'s> FunctionAlreadyDefined<'s> {
    /// `pos` is where the later definition stands, `earlier` where the first.
    pub fn new(name: &'s str, pos: Position, earlier: Position) -> (r: Self)
        ensures
            r.name == name,
            r.pos == pos,
            r.earlier == earlier,
    {
        Self { name, pos, earlier }
    }

    pub fn name(&self) -> (r: &'s str)
        ensures
            r == self.name,
    {
        self.name
    }

    pub fn pos(&self) -> (r: Position)
        ensures
            r == self.pos,
    {
        self.pos.clone()
    }

    pub fn earlier(&self) -> (r: Position)
        ensures
            r == self.earlier,
    {
        self.earlier.clone()
    }
}

/// A call names a function that is not defined before the call.
#[derive(Debug, PartialEq)]
pub struct FunctionNotFound<'s> {
    pub name: &'s str,
    pub pos: Position,
}

impl<'s> FunctionNotFound<'s> {
    pub fn new(name: &'s str, pos: Position) -> (r: Self)
        ensures
            r.name == name,
            r.pos == pos,
    {
        Self { name, pos }
    }

    pub fn name(&self) -> (r: &'s str)
        ensures
            r == self.name,
    {
        self.name
    }

    pub fn pos(&self) -> (r: Position)
        ensures
            r == self.pos,
    {
        self.pos.clone()
    }
}

/// A call passes another number of arguments than the function has parameters.
#[derive(Debug, PartialEq)]
pub struct FunctionArgumentMismatch<'s> {
    pub name: &'s str,
    pub expected: usize,
    pub found: usize,
    pub pos: Position,
}

impl<'s> FunctionArgumentMismatch<'s> {
    pub fn new(name: &'s str, expected: usize, found: usize, pos: Position) -> (r: Self)
        ensures
            r.name == name,
            r.expected == expected,
            r.found == found,
            r.pos == pos,
    {
        Self { name, expected, found, pos }
    }

    pub fn name(&self) -> (r: &'s str)
        ensures
            r == self.name,
    {
        self.name
    }

    pub fn expected(&self) -> (r: usize)
        ensures
            r == self.expected,
    {
        self.expected
    }

    pub fn found(&self) -> (r: usize)
        ensures
            r == self.found,
    {
        self.found
    }

    pub fn pos(&self) -> (r: Position)
        ensures
            r == self.pos,
    {
        self.pos.clone()
    }
}

#[derive(Debug, PartialEq)]
pub enum FunctionCheckError<'s> {
    FunctionNotFound(FunctionNotFound<'s>),
    FunctionArgumentMismatch(FunctionArgumentMismatch<'s>),
}

/// A `let` declares a name that its own scope already declares.
#[derive(Debug, PartialEq)]
pub struct VariableRedeclared<'s> {
    pub name: &'s str,
    pub pos: Position,
    pub earlier_pos: Position,
}

impl<'s> VariableRedeclared<'s> {
    /// `pos` is where the later declaration stands, `earlier_pos` where the
    /// first.
    pub fn new(name: &'s str, pos: Position, earlier_pos: Position) -> (r: Self)
        ensures
            r.name == name,
            r.pos == pos,
            r.earlier_pos == earlier_pos,
    {
        Self { name, pos, earlier_pos }
    }

    pub fn name(&self) -> (r: &'s str)
        ensures
            r == self.name,
    {
        self.name
    }

    pub fn pos(&self) -> (r: Position)
        ensures
            r == self.pos,
    {
        self.pos.clone()
    }

    pub fn earlier_pos(&self) -> (r: Position)
        ensures
            r == self.earlier_pos,
    {
        self.earlier_pos.clone()
    }
}

/// What the semantic check can report.
#[derive(Debug, PartialEq)]
pub enum AnalyzerError<'s> {
    FunctionAlreadyDefined(FunctionAlreadyDefined<'s>),
    VariableRedeclared(VariableRedeclared<'s>),
    ExprError(ExprCheckError<'s>),
    FuncError(FunctionCheckError<'s>),
}

/// The report that a variable is used but not declared.
pub open spec fn variable_not_found<'s>(name: &'s str, pos: Position) -> AnalyzerError<'s> {
    AnalyzerError::ExprError(
        ExprCheckError::VariableNotFound(VariableNotFound { name, pos }),
    )
}

/// The report that a value of type `found` stands where `expected` is asked.
pub open spec fn type_mismatch<'s>(expected: ValType, found: ValType, pos: Position)
    -> AnalyzerError<'s> {
    AnalyzerError::ExprError(ExprCheckError::TypeMismatch(TypeMismatch { expected, found, pos }))
}

/// The report that a value is `null` or untyped.
pub open spec fn illegal_null_untyped<'s>(pos: Position) -> AnalyzerError<'s> {
    AnalyzerError::ExprError(ExprCheckError::IllegalNullVoid(IllegalNullUntyped { pos }))
}

/// The report that a call names no defined function.
pub open spec fn function_not_found<'s>(name: &'s str, pos: Position) -> AnalyzerError<'s> {
    AnalyzerError::FuncError(
        FunctionCheckError::FunctionNotFound(FunctionNotFound { name, pos }),
    )
}

/// The report that a call passes `found` arguments to `expected` parameters.
pub open spec fn argument_mismatch<'s>(name: &'s str, expected: usize, found: usize, pos: Position)
    -> AnalyzerError<'s> {
    AnalyzerError::FuncError(
        FunctionCheckError::FunctionArgumentMismatch(
            FunctionArgumentMismatch { name, expected, found, pos },
        ),
    )
}

/// The report that `name` is declared at `pos` though its scope declares it at
/// `earlier_pos`.
pub open spec fn variable_redeclared<'s>(name: &'s str, pos: Position, earlier_pos: Position)
    -> AnalyzerError<'s> {
    AnalyzerError::VariableRedeclared(VariableRedeclared { name, pos, earlier_pos })
}

/// The report that `name` is defined at `pos` though it was defined at
/// `earlier`.
pub open spec fn function_already_defined<'s>(name: &'s str, pos: Position, earlier: Position)
    -> AnalyzerError<'s> {
    AnalyzerError::FunctionAlreadyDefined(FunctionAlreadyDefined { name, pos, earlier })
}

/// What a check hands back: nothing where it found no fault, else the faults in
/// the order in which it found them.
pub open spec fn diagnostics<'s>(r: Result<(), Vec<AnalyzerError<'s>>>) -> Seq<AnalyzerError<'s>> {
    match r {
        Ok(_) => Seq::empty(),
        Err(errors) => errors@,
    }
}

/// Whether `r` is how a check hands back the faults `errors`: `Ok` for none,
/// else `Err` with all of them in order.
pub open spec fn reports<'s>(r: Result<(), Vec<AnalyzerError<'s>>>, errors: Seq<AnalyzerError<'s>>)
    -> bool {
    &&& diagnostics(r) == errors
    &&& r is Ok <==> errors.len() == 0
}

/// Hands back the faults of a check.
pub fn conclude<'s>(errors: Vec<AnalyzerError<'s>>) -> (r: Result<(), Vec<AnalyzerError<'s>>>)
    ensures
        reports(r, errors@),
{
    if errors.len() == 0 {
        assert(errors@ =~= Seq::empty());
        Ok(())
    } else {
        Err(errors)
    }
}

/// Hands back a single fault.
pub fn reject<'s>(error: AnalyzerError<'s>) -> (r: Result<(), Vec<AnalyzerError<'s>>>)
    ensures
        reports(r, seq![error]),
{
    let mut errors = Vec::new();
    errors.push(error);
    assert(errors@ =~= seq![error]);
    Err(errors)
}

/// Adds the faults of one check to those gathered so far.
pub fn gather<'s>(errors: &mut Vec<AnalyzerError<'s>>, r: Result<(), Vec<AnalyzerError<'s>>>)
    ensures
        final(errors)@ == old(errors)@ + diagnostics(r),
{
    match r {
        Ok(_) => {
            assert(errors@ + Seq::<AnalyzerError<'s>>::empty() =~= errors@);
        },
        Err(mut found) => {
            errors.append(&mut found);
        },
    }
}

} // verus!
