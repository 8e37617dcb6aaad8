use crate::ast::expression::{AssignExpression, Expression, LiteralExpression};
use crate::ast::function::{Function, FunctionParameter};
use crate::ast::statement::{LetStatement, ReturnStatement, Statement};
use crate::info::{OperatorType, ValType};
use crate::lowering::error::LoweringError;
use crate::mir::function::MirFunctionId;
use crate::mir::instruction::{InstModel, MirInstId};
use crate::mir::module::first_named;
use crate::mir::value::{Constant, MirValue};
use crate::text::decimal_u64;
use vstd::prelude::*;

verus! {

/// Where the value of a name lives: in the storage slot that an `Alloca`
/// reserved, or in a parameter of the function.
#[derive(Debug, Clone, Copy, PartialEq, Eq)]
pub enum NamendPlace {
    Local(MirInstId),
    Param(usize),
}

/// What lowering knows of a name: its declared type and its place.
#[derive(Debug, Clone, Copy, PartialEq, Eq)]
pub struct Binding {
    pub type_: ValType,
    pub place: NamendPlace,
}

/// What stays as it is while one function is lowered: the names of the
/// functions of the module, in the order of their identities, and the bits of
/// the floating-point literals by their text.
pub struct Scene {
    pub callees: Seq<Seq<char>>,
    pub floats: Map<Seq<char>, u64>,
}

/// What lowering has made of a function so far: the instructions emitted, and
/// the names bound. The names are one flat table for the whole function: the
/// last declaration of a name is the one that later uses refer to.
pub struct Frame {
    pub insts: Seq<InstModel>,
    pub names: Map<Seq<char>, Binding>,
}

impl Frame {
    /// The identity that the next instruction will have.
    pub open spec fn next_id(self) -> MirInstId {
        MirInstId(self.insts.len() as usize)
    }

    /// The frame after `inst` is emitted.
    pub open spec fn emit(self, inst: InstModel) -> Frame {
        Frame { insts: self.insts.push(inst), names: self.names }
    }

    /// The frame after `name` is bound.
    pub open spec fn bind(self, name: Seq<char>, binding: Binding) -> Frame {
        Frame { insts: self.insts, names: self.names.insert(name, binding) }
    }
}

/// The value of a literal. An integer is read as an unsigned decimal; the bits
/// of a floating-point number are looked up by its text; a literal of type
/// `Void` is `null`; one without a type has no value.
pub open spec fn literal_value<'ctx>(scene: Scene, l: LiteralExpression<'ctx>) -> Result<
    MirValue,
    LoweringError<'ctx>,
> {
    match l.type_ {
        ValType::I32 => match decimal_u64(l.value@) {
            Some(v) => Ok(MirValue::Constant(Constant::IntValue(ValType::I32, v))),
            None => Err(LoweringError::InvalidNumericValue(l.value)),
        },
        ValType::F32 => if scene.floats.contains_key(l.value@) {
            Ok(MirValue::Constant(Constant::FloatValue(ValType::F32, scene.floats[l.value@])))
        } else {
            Err(LoweringError::InvalidNumericValue(l.value))
        },
        ValType::Untyped => Err(LoweringError::IllegalType(ValType::Untyped)),
        ValType::Void => Ok(MirValue::Constant(Constant::Null)),
    }
}

/// The instruction that applies an operator to two values.
pub open spec fn binary_inst(op: OperatorType, lhs: MirValue, rhs: MirValue) -> InstModel {
    match op {
        OperatorType::Add => InstModel::Add(lhs, rhs),
        OperatorType::Sub => InstModel::Sub(lhs, rhs),
        OperatorType::Mul => InstModel::Mul(lhs, rhs),
        OperatorType::Div => InstModel::Div(lhs, rhs),
    }
}

/// The value that is needed of an expression: the one it yields, or the fault
/// that it yields none.
pub open spec fn needed<'ctx>(r: Result<Option<MirValue>, LoweringError<'ctx>>) -> Result<
    MirValue,
    LoweringError<'ctx>,
> {
    match r {
        Ok(Some(v)) => Ok(v),
        Ok(None) => Err(LoweringError::ValueExpected),
        Err(e) => Err(e),
    }
}

/// Lowering an expression: the frame after it, and the value it yields, if it
/// yields one. After a fault the frame holds what was emitted before it.
pub open spec fn lower_expr<'ctx>(scene: Scene, fr: Frame, e: Expression<'ctx>) -> (
    Frame,
    Result<Option<MirValue>, LoweringError<'ctx>>,
)
    decreases e, 0int,
{
    match e {
        Expression::LiteralExpression(l) => (
            fr,
            match literal_value(scene, l) {
                Ok(v) => Ok(Some(v)),
                Err(e) => Err(e),
            },
        ),
        Expression::BlockExpression(b) => {
            let (after, r) = lower_block(scene, fr, b.stmts@, 0);
            (
                after,
                match r {
                    Ok(_) => Ok(None),
                    Err(e) => Err(e),
                },
            )
        },
        Expression::AssignExpression(a) => lower_assign(scene, fr, a),
        Expression::VariableExpression(v) => if !fr.names.contains_key(v.name@) {
            (fr, Err(LoweringError::VariableNotFound(v.name)))
        } else {
            match fr.names[v.name@].place {
                NamendPlace::Local(slot) => (
                    fr.emit(InstModel::Load(fr.names[v.name@].type_, slot)),
                    Ok(Some(MirValue::Inst(fr.next_id()))),
                ),
                NamendPlace::Param(i) => (fr, Ok(Some(MirValue::Param(i)))),
            }
        },
        Expression::BinaryExpression(b) => {
            let (after_left, left) = lower_value(scene, fr, *b.left);
            match left {
                Err(e) => (after_left, Err(e)),
                Ok(lhs) => {
                    let (after_right, right) = lower_value(scene, after_left, *b.right);
                    match right {
                        Err(e) => (after_right, Err(e)),
                        Ok(rhs) => (
                            after_right.emit(binary_inst(b.operator, lhs, rhs)),
                            Ok(Some(MirValue::Inst(after_right.next_id()))),
                        ),
                    }
                },
            }
        },
        Expression::NullExpression(_) => (fr, Ok(Some(MirValue::Constant(Constant::Null)))),
        Expression::CallExpression(c) => {
            let (after_args, args) = lower_args(scene, fr, c.args@, 0, Seq::empty());
            match args {
                Err(e) => (after_args, Err(e)),
                Ok(values) => match first_named(scene.callees, c.callee@, 0) {
                    None => (after_args, Err(LoweringError::FunctionNotFound(c.callee))),
                    Some(i) => (
                        after_args.emit(InstModel::Call(MirFunctionId(i as usize), values)),
                        Ok(Some(MirValue::Inst(after_args.next_id()))),
                    ),
                },
            }
        },
    }
}

/// Lowering an expression whose value is needed.
pub open spec fn lower_value<'ctx>(scene: Scene, fr: Frame, e: Expression<'ctx>) -> (
    Frame,
    Result<MirValue, LoweringError<'ctx>>,
)
    decreases e, 1int,
{
    let (after, r) = lower_expr(scene, fr, e);
    (after, needed(r))
}

/// Lowering the arguments of a call from the `i`-th on, left to right, behind
/// the values `done` of those before them.
pub open spec fn lower_args<'ctx>(
    scene: Scene,
    fr: Frame,
    args: Seq<Expression<'ctx>>,
    i: int,
    done: Seq<MirValue>,
) -> (Frame, Result<Seq<MirValue>, LoweringError<'ctx>>)
    decreases args, args.len() - i,
{
    if 0 <= i < args.len() {
        let (after, r) = lower_value(scene, fr, args[i]);
        match r {
            Err(e) => (after, Err(e)),
            Ok(v) => lower_args(scene, after, args, i + 1, done.push(v)),
        }
    } else {
        (fr, Ok(done))
    }
}

/// Lowering an assignment. With a target, which must be a local variable, the
/// value is stored into the target's slot and nothing is yielded; without one
/// the value itself is yielded.
pub open spec fn lower_assign<'ctx>(scene: Scene, fr: Frame, a: AssignExpression<'ctx>) -> (
    Frame,
    Result<Option<MirValue>, LoweringError<'ctx>>,
)
    decreases a, 0int,
{
    match a.asignee {
        Some(target) => if !fr.names.contains_key(target@) {
            (fr, Err(LoweringError::VariableNotFound(target)))
        } else {
            match fr.names[target@].place {
                NamendPlace::Param(_) => (fr, Err(LoweringError::NotAssignable(target))),
                NamendPlace::Local(slot) => {
                    let (after, r) = lower_value(scene, fr, *a.value);
                    match r {
                        Err(e) => (after, Err(e)),
                        Ok(v) => (after.emit(InstModel::Store(slot, v)), Ok(None)),
                    }
                },
            }
        },
        None => {
            let (after, r) = lower_value(scene, fr, *a.value);
            (
                after,
                match r {
                    Ok(v) => Ok(Some(v)),
                    Err(e) => Err(e),
                },
            )
        },
    }
}

/// Lowering a `let`: a slot is reserved, the value of the initializer, or
/// `null` where there is none, is stored into it, and the name is bound to the
/// slot. After a fault in the initializer the slot is reserved and the name is
/// not bound.
pub open spec fn lower_let<'ctx>(scene: Scene, fr: Frame, l: LetStatement<'ctx>) -> (
    Frame,
    Result<(), LoweringError<'ctx>>,
)
    decreases l, 0int,
{
    let slot = fr.next_id();
    let reserved = fr.emit(InstModel::Alloca(l.type_));
    let binding = Binding { type_: l.type_, place: NamendPlace::Local(slot) };
    match l.assignee {
        Some(a) => {
            let (after, r) = lower_assign(scene, reserved, a);
            match needed(r) {
                Err(e) => (after, Err(e)),
                Ok(v) => (after.emit(InstModel::Store(slot, v)).bind(l.name@, binding), Ok(())),
            }
        },
        None => (
            reserved.emit(InstModel::Store(slot, MirValue::Constant(Constant::Null))).bind(
                l.name@,
                binding,
            ),
            Ok(()),
        ),
    }
}

/// Lowering a `return`: the value, then the instruction that returns it.
pub open spec fn lower_return<'ctx>(scene: Scene, fr: Frame, r: ReturnStatement<'ctx>) -> (
    Frame,
    Result<(), LoweringError<'ctx>>,
)
    decreases r, 0int,
{
    let (after, value) = lower_value(scene, fr, r.value);
    match value {
        Err(e) => (after, Err(e)),
        Ok(v) => (after.emit(InstModel::Return(v, r.type_)), Ok(())),
    }
}

/// Lowering a statement. The value of an expression statement is dropped.
pub open spec fn lower_stmt<'ctx>(scene: Scene, fr: Frame, s: Statement<'ctx>) -> (
    Frame,
    Result<(), LoweringError<'ctx>>,
)
    decreases s, 1int,
{
    match s {
        Statement::Expression(e) => {
            let (after, r) = lower_expr(scene, fr, e);
            (
                after,
                match r {
                    Ok(_) => Ok(()),
                    Err(e) => Err(e),
                },
            )
        },
        Statement::ReturnStatement(r) => lower_return(scene, fr, r),
        Statement::LetStatement(l) => lower_let(scene, fr, l),
    }
}

/// Lowering the statements of a block expression from the `i`-th on. The first
/// fault ends it.
pub open spec fn lower_block<'ctx>(scene: Scene, fr: Frame, stmts: Seq<Statement<'ctx>>, i: int)
    -> (Frame, Result<(), LoweringError<'ctx>>)
    decreases stmts, stmts.len() - i,
{
    if 0 <= i < stmts.len() {
        let (after, r) = lower_stmt(scene, fr, stmts[i]);
        match r {
            Err(e) => (after, Err(e)),
            Ok(_) => lower_block(scene, after, stmts, i + 1),
        }
    } else {
        (fr, Ok(()))
    }
}

/// Lowering the statements of a function body from the `i`-th on: every
/// statement is lowered, and the faults are gathered in order.
pub open spec fn lower_body<'ctx>(scene: Scene, fr: Frame, stmts: Seq<Statement<'ctx>>, i: int)
    -> (Frame, Seq<LoweringError<'ctx>>)
    decreases stmts.len() - i,
{
    if 0 <= i < stmts.len() {
        let (after, r) = lower_stmt(scene, fr, stmts[i]);
        let (last, rest) = lower_body(scene, after, stmts, i + 1);
        (
            last,
            match r {
                Err(e) => seq![e] + rest,
                Ok(_) => rest,
            },
        )
    } else {
        (fr, Seq::empty())
    }
}

/// The names after the parameters from the `i`-th on are bound, each to its
/// place among the parameters; of two parameters of one name the later stays.
pub open spec fn bind_params(
    names: Map<Seq<char>, Binding>,
    params: Seq<FunctionParameter>,
    i: int,
) -> Map<Seq<char>, Binding>
    decreases params.len() - i,
{
    if 0 <= i < params.len() {
        bind_params(
            names.insert(
                params[i].name@,
                Binding { type_: params[i].type_, place: NamendPlace::Param(i as usize) },
            ),
            params,
            i + 1,
        )
    } else {
        names
    }
}

/// The types of parameters, in order.
pub open spec fn param_types(params: Seq<FunctionParameter>) -> Seq<ValType> {
    params.map_values(|p: FunctionParameter| p.type_)
}

/// The frame that the lowering of a function starts in: no instruction, and
/// the parameters as the only names.
pub open spec fn initial_frame(f: Function) -> Frame {
    Frame { insts: Seq::empty(), names: bind_params(Map::empty(), f.params@, 0) }
}

/// The instructions that a function lowers to.
pub open spec fn function_insts(scene: Scene, f: Function) -> Seq<InstModel> {
    lower_body(scene, initial_frame(f), f.body.stmts@, 0).0.insts
}

/// The faults of lowering a function.
pub open spec fn function_errors<'ctx>(scene: Scene, f: Function<'ctx>) -> Seq<LoweringError<'ctx>> {
    lower_body(scene, initial_frame(f), f.body.stmts@, 0).1
}

/// The names of the functions of a tree, in order.
pub open spec fn function_names(functions: Seq<Function>) -> Seq<Seq<char>> {
    functions.map_values(|f: Function| f.name@)
}

/// The scene in which the `i`-th function of a tree is lowered into a module
/// whose functions so far are named `base`: the functions before it and itself
/// have joined the module.
pub open spec fn scene_at(
    base: Seq<Seq<char>>,
    floats: Map<Seq<char>, u64>,
    functions: Seq<Function>,
    i: int,
) -> Scene {
    Scene { callees: base + function_names(functions.take(i + 1)), floats }
}

/// The faults of lowering the functions of a tree from the `i`-th on.
pub open spec fn functions_errors<'ctx>(
    base: Seq<Seq<char>>,
    floats: Map<Seq<char>, u64>,
    functions: Seq<Function<'ctx>>,
    i: int,
) -> Seq<LoweringError<'ctx>>
    decreases functions.len() - i,
{
    if 0 <= i < functions.len() {
        function_errors(scene_at(base, floats, functions, i), functions[i]) + functions_errors(
            base,
            floats,
            functions,
            i + 1,
        )
    } else {
        Seq::empty()
    }
}

} // verus!
