use crate::ast::expression::{
    AssignExpression, BinaryExpression, CallExpression, Expression, LiteralExpression,
    VariableExpression,
};
use crate::ast::function::Function;
use crate::ast::statement::{LetStatement, ReturnStatement, Statement};
use crate::ast::tree::AST;
use crate::info::{OperatorType, ValType};
use crate::lowering::error::LoweringError;
use crate::lowering::rules::{
    bind_params, binary_inst, function_errors, function_insts, function_names, functions_errors,
    initial_frame,
    literal_value, lower_args, lower_assign, lower_block, lower_body, lower_expr, lower_let,
    lower_return, lower_stmt, lower_value, needed, param_types, scene_at, Binding, Frame,
    NamendPlace, Scene,
};
use crate::mir::block::{MirBlock, MirBlockId};
use crate::mir::builder::Builder;
use crate::mir::function::{MirFunction, MirFunctionId};
use crate::mir::instruction::{InstModel, MirInstId};
use crate::mir::module::MirModule;
use crate::mir::value::{Constant, MirValue};
use crate::table::NameTable;
use crate::text::parse_u64;
use vstd::prelude::*;

verus! {

/// Lowers a tree into a module, function by function.
pub struct Lowerer<'a, 'ctx> {
    pub builder: Builder<'ctx>,
    pub ast: &'a AST<'ctx>,
    pub errors: Vec<LoweringError<'ctx>>,
    pub namend: NameTable<'ctx, Binding>,
    pub floats: NameTable<'ctx, u64>,
}

/// The identity of the last of `n` instructions; 0 where there is none.
pub open spec fn last_id(n: nat) -> int {
    if n > 0 {
        n - 1
    } else {
        0
    }
}

/// Whether `mf` is what `f` lowers to in `scene`: it has the name and the
/// parameter types of `f`, the instructions that the body lowers to, and one
/// block, `entry`, that starts at the first of them and was moved forward to
/// the last.
pub open spec fn lowered_as(mf: MirFunction, scene: Scene, f: Function) -> bool {
    &&& mf.name == f.name
    &&& mf.params@ == param_types(f.params@)
    &&& mf.insts() == function_insts(scene, f)
    &&& mf.blocks@.len() == 1
    &&& mf.blocks@[0].name@ == "entry"@
    &&& mf.blocks@[0].range.start == 0
    &&& mf.blocks@[0].range.end == last_id(mf.instructions@.len())
}

/// Whether `m` is the module `base` with the functions of a tree lowered into
/// it: the functions of `base` are as they were, and behind them stands what
/// each function of the tree lowers to, in order.
pub open spec fn lowered_into(
    m: MirModule,
    base: MirModule,
    floats: Map<Seq<char>, u64>,
    functions: Seq<Function>,
) -> bool {
    &&& m.name == base.name
    &&& m.funcs@.len() == base.funcs@.len() + functions.len()
    &&& forall|i: int| 0 <= i < base.funcs@.len() ==> #[trigger] m.funcs@[i] == base.funcs@[i]
    &&& forall|i: int|
        0 <= i < functions.len() ==> lowered_as(
            #[trigger] m.funcs@[base.funcs@.len() + i],
            scene_at(base.func_names(), floats, functions, i),
            functions[i],
        )
}

/// The end of the last block of the function `func` of a module; 0 where the
/// module has no such function or the function has no block.
pub open spec fn last_end(module: MirModule, func: MirFunctionId) -> int {
    if func.0 < module.funcs@.len() && module.funcs@[func.0 as int].blocks@.len() > 0 {
        module.funcs@[func.0 as int].blocks@.last().range.end as int
    } else {
        0
    }
}

impl<'a, 'ctx> Lowerer<'a, 'ctx> {
    /// What stays as it is while a function is lowered.
    pub open spec fn scene(&self) -> Scene {
        Scene { callees: self.builder.module.func_names(), floats: self.floats@ }
    }

    /// What has been made of the function that is being lowered.
    pub open spec fn frame(&self) -> Frame {
        Frame { insts: self.builder.function().insts(), names: self.namend@ }
    }

    /// Whether a function is being lowered: it is selected in the builder, and
    /// its one block is selected, starts at the first instruction and was
    /// moved forward to the last.
    pub open spec fn ready(&self) -> bool {
        &&& self.builder.ready()
        &&& self.builder.selected == Some(MirBlockId(0))
        &&& self.builder.function().blocks@.len() == 1
        &&& self.builder.block().range.start == 0
        &&& self.builder.block().range.end == last_id(
            self.builder.function().instructions@.len(),
        )
    }

    /// Whether `self` is `before` but for what lowering inside a function
    /// changes: the instructions of the selected function, the end of its
    /// block, and the names.
    pub open spec fn continues(&self, before: &Self) -> bool {
        &&& self.ast == before.ast
        &&& self.errors == before.errors
        &&& self.floats@ == before.floats@
        &&& self.scene() == before.scene()
        &&& self.builder.selected_fn == before.builder.selected_fn
        &&& self.builder.module.name == before.builder.module.name
        &&& self.builder.module.funcs@.len() == before.builder.module.funcs@.len()
        &&& forall|i: int|
            0 <= i < self.builder.module.funcs@.len() && i != self.builder.selected_fn.0
                ==> #[trigger] self.builder.module.funcs@[i] == before.builder.module.funcs@[i]
        &&& self.builder.function().name == before.builder.function().name
        &&& self.builder.function().params == before.builder.function().params
        &&& self.builder.block().name == before.builder.block().name
    }

    /// A lowerer of `ast` into `mir_mod`. It knows the bits of no
    /// floating-point literal yet.
    pub fn new(mir_mod: MirModule<'ctx>, ast: &'a AST<'ctx>) -> (r: Self)
        ensures
            r.builder.module == mir_mod,
            r.ast == ast,
            r.errors@.len() == 0,
            r.floats@ == Map::<Seq<char>, u64>::empty(),
    {
        Self {
            builder: Builder::new(mir_mod, MirFunctionId(0)),
            ast,
            errors: Vec::new(),
            namend: NameTable::new(),
            floats: NameTable::new(),
        }
    }

    /// Tells the lowerer the bits of the floating-point literals that are
    /// written `text`.
    pub fn define_float(&mut self, text: &'ctx str, bits: u64)
        ensures
            final(self).floats@ == old(self).floats@.insert(text@, bits),
            final(self).builder == old(self).builder,
            final(self).ast == old(self).ast,
            final(self).errors == old(self).errors,
            final(self).namend == old(self).namend,
    {
        self.floats.insert(text, bits);
    }

    /// The end of the last block of the function `func`: the identity of the
    /// instruction that the block was last moved forward to. It is 0 where the
    /// module has no such function or the function has no block.
    pub fn get_last_inst(&self, func: MirFunctionId) -> (r: MirInstId)
        ensures
            r.0 == last_end(self.builder.module, func),
    {
        let func = match self.builder.module.get_func(func) {
            Some(f) => f,
            None => return MirInstId(0),
        };
        let lst_blk_id = match func.get_last_blk() {
            Some(b) => b,
            None => return MirInstId(0),
        };
        let lst_blk = match func.get_block(lst_blk_id) {
            Some(b) => b,
            None => return MirInstId(0),
        };
        MirInstId(lst_blk.range().end)
    }

    /// The value of a literal.
    pub fn lower_literal_expression(&self, literal_expression: &LiteralExpression<'ctx>) -> (r:
        Result<MirValue, LoweringError<'ctx>>)
        ensures
            r == literal_value(self.scene(), *literal_expression),
    {
        match literal_expression.get_type() {
            ValType::I32 => match parse_u64(literal_expression.get_value()) {
                Some(value) => Ok(
                    MirValue::Constant(Constant::IntValue(literal_expression.get_type(), value)),
                ),
                None => Err(LoweringError::InvalidNumericValue(literal_expression.get_value())),
            },
            ValType::F32 => match self.floats.get(literal_expression.get_value()) {
                Some(bits) => Ok(
                    MirValue::Constant(Constant::FloatValue(literal_expression.get_type(), *bits)),
                ),
                None => Err(LoweringError::InvalidNumericValue(literal_expression.get_value())),
            },
            ValType::Untyped => Err(LoweringError::IllegalType(literal_expression.get_type())),
            ValType::Void => Ok(MirValue::Constant(Constant::Null)),
        }
    }

    /// Lowers an assignment.
    pub fn lower_assign_expression(&mut self, assign_expression: &AssignExpression<'ctx>) -> (r:
        Result<Option<MirValue>, LoweringError<'ctx>>)
        requires
            old(self).ready(),
        ensures
            final(self).ready(),
            final(self).continues(old(self)),
            (final(self).frame(), r) == lower_assign(
                old(self).scene(),
                old(self).frame(),
                *assign_expression,
            ),
        decreases assign_expression, 0int,
    {
        match assign_expression.get_asignee() {
            Some(assign_to) => {
                let slot = match self.namend.get(assign_to) {
                    Some(binding) => match binding.place {
                        NamendPlace::Local(slot) => slot,
                        NamendPlace::Param(_) => {
                            return Err(LoweringError::NotAssignable(assign_to));
                        },
                    },
                    None => {
                        return Err(LoweringError::VariableNotFound(assign_to));
                    },
                };
                let value = match self.lower_value(assign_expression.get_value()) {
                    Ok(v) => v,
                    Err(e) => {
                        return Err(e);
                    },
                };
                let ghost before = *self;
                self.builder.build_store(slot, value);
                proof {
                    lemma_step(&before, self, InstModel::Store(slot, value));
                }
                Ok(None)
            },
            None => {
                match self.lower_value(assign_expression.get_value()) {
                    Ok(v) => Ok(Some(v)),
                    Err(e) => Err(e),
                }
            },
        }
    }

    /// Lowers a binary expression: the operands, left then right, then the
    /// instruction of the operator.
    pub fn lower_binary_expression(&mut self, binary_expression: &BinaryExpression<'ctx>) -> (r:
        Result<MirValue, LoweringError<'ctx>>)
        requires
            old(self).ready(),
        ensures
            final(self).ready(),
            final(self).continues(old(self)),
            (final(self).frame(), r) == lower_value(
                old(self).scene(),
                old(self).frame(),
                Expression::BinaryExpression(*binary_expression),
            ),
        decreases binary_expression, 0int,
    {
        let left = match self.lower_value(binary_expression.get_left()) {
            Ok(v) => v,
            Err(e) => {
                return Err(e);
            },
        };
        let right = match self.lower_value(binary_expression.get_right()) {
            Ok(v) => v,
            Err(e) => {
                return Err(e);
            },
        };
        let ghost before = *self;
        let inst = match binary_expression.get_operator() {
            OperatorType::Add => self.builder.build_add(left, right),
            OperatorType::Sub => self.builder.build_sub(left, right),
            OperatorType::Mul => self.builder.build_mul(left, right),
            OperatorType::Div => self.builder.build_div(left, right),
        };
        proof {
            lemma_step(&before, self, binary_inst(binary_expression.operator, left, right));
        }
        Ok(MirValue::Inst(inst))
    }

    /// Lowers the use of a variable: a load from its slot, or the parameter
    /// that it is.
    pub fn lower_variable_expression(&mut self, variable_expression: &VariableExpression<'ctx>)
        -> (r: Result<MirValue, LoweringError<'ctx>>)
        requires
            old(self).ready(),
        ensures
            final(self).ready(),
            final(self).continues(old(self)),
            (final(self).frame(), r) == lower_value(
                old(self).scene(),
                old(self).frame(),
                Expression::VariableExpression(*variable_expression),
            ),
    {
        let name = variable_expression.get_name();
        let binding = match self.namend.get(name) {
            Some(binding) => *binding,
            None => {
                return Err(LoweringError::VariableNotFound(name));
            },
        };
        match binding.place {
            NamendPlace::Local(slot) => {
                let ghost before = *self;
                let inst = self.builder.build_load(binding.type_, slot);
                proof {
                    lemma_step(&before, self, InstModel::Load(binding.type_, slot));
                }
                Ok(MirValue::Inst(inst))
            },
            NamendPlace::Param(index) => Ok(MirValue::Param(index)),
        }
    }

    /// Lowers a call: the arguments, left to right, then the call of the first
    /// function of the module that has the name.
    pub fn lower_call_expression(&mut self, call_expression: &CallExpression<'ctx>) -> (r: Result<
        MirValue,
        LoweringError<'ctx>,
    >)
        requires
            old(self).ready(),
        ensures
            final(self).ready(),
            final(self).continues(old(self)),
            (final(self).frame(), r) == lower_value(
                old(self).scene(),
                old(self).frame(),
                Expression::CallExpression(*call_expression),
            ),
        decreases call_expression, 0int,
    {
        let args = call_expression.get_args();
        let mut values: Vec<MirValue> = Vec::new();
        let mut i: usize = 0;
        let ghost scene = self.scene();
        while i < args.len()
            invariant
                i <= args@.len(),
                *args == call_expression.args,
                self.ready(),
                self.continues(old(self)),
                scene == old(self).scene(),
                lower_args(scene, self.frame(), args@, i as int, values@) == lower_args(
                    scene,
                    old(self).frame(),
                    args@,
                    0,
                    Seq::empty(),
                ),
            decreases args@.len() - i,
        {
            match self.lower_value(&args[i]) {
                Ok(v) => {
                    values.push(v);
                },
                Err(e) => {
                    return Err(e);
                },
            }
            i += 1;
        }
        match self.builder.module.find_func(call_expression.get_callee()) {
            Some(callee) => {
                let ghost before = *self;
                let ghost passed = values@;
                let inst = self.builder.build_call(callee, values);
                proof {
                    lemma_step(&before, self, InstModel::Call(callee, passed));
                }
                Ok(MirValue::Inst(inst))
            },
            None => Err(LoweringError::FunctionNotFound(call_expression.get_callee())),
        }
    }

    /// Lowers an expression. Hands back the value it yields, if it yields one.
    pub fn lower_expression(&mut self, expr: &Expression<'ctx>) -> (r: Result<
        Option<MirValue>,
        LoweringError<'ctx>,
    >)
        requires
            old(self).ready(),
        ensures
            final(self).ready(),
            final(self).continues(old(self)),
            (final(self).frame(), r) == lower_expr(old(self).scene(), old(self).frame(), *expr),
        decreases expr, 0int,
    {
        match expr {
            Expression::LiteralExpression(literal_expression) => {
                match self.lower_literal_expression(literal_expression) {
                    Ok(v) => Ok(Some(v)),
                    Err(e) => Err(e),
                }
            },
            Expression::BlockExpression(block_expression) => {
                let stmts = block_expression.get_stmts();
                let mut i: usize = 0;
                let ghost scene = self.scene();
                while i < stmts.len()
                    invariant
                        i <= stmts@.len(),
                        stmts@ == block_expression.stmts@,
                        *expr == Expression::BlockExpression(*block_expression),
                        self.ready(),
                        self.continues(old(self)),
                        scene == old(self).scene(),
                        lower_block(scene, self.frame(), stmts@, i as int) == lower_block(
                            scene,
                            old(self).frame(),
                            stmts@,
                            0,
                        ),
                    decreases stmts@.len() - i,
                {
                    proof {
                        assert(expr->BlockExpression_0 == *block_expression);
                        assert(decreases_to!(*expr => expr->BlockExpression_0));
                    }
                    match self.lower_statement(&stmts[i]) {
                        Ok(_) => {},
                        Err(e) => {
                            return Err(e);
                        },
                    }
                    i += 1;
                }
                Ok(None)
            },
            Expression::AssignExpression(assign_expression) => {
                self.lower_assign_expression(assign_expression)
            },
            Expression::VariableExpression(variable_expression) => {
                match self.lower_variable_expression(variable_expression) {
                    Ok(v) => Ok(Some(v)),
                    Err(e) => Err(e),
                }
            },
            Expression::BinaryExpression(binary_expression) => {
                match self.lower_binary_expression(binary_expression) {
                    Ok(v) => Ok(Some(v)),
                    Err(e) => Err(e),
                }
            },
            Expression::NullExpression(_) => Ok(Some(MirValue::Constant(Constant::Null))),
            Expression::CallExpression(call_expression) => {
                match self.lower_call_expression(call_expression) {
                    Ok(v) => Ok(Some(v)),
                    Err(e) => Err(e),
                }
            },
        }
    }

    /// Lowers an expression whose value is needed. One that yields none is a
    /// fault.
    pub fn lower_value(&mut self, expr: &Expression<'ctx>) -> (r: Result<
        MirValue,
        LoweringError<'ctx>,
    >)
        requires
            old(self).ready(),
        ensures
            final(self).ready(),
            final(self).continues(old(self)),
            (final(self).frame(), r) == lower_value(old(self).scene(), old(self).frame(), *expr),
        decreases expr, 1int,
    {
        match self.lower_expression(expr) {
            Ok(Some(v)) => Ok(v),
            Ok(None) => Err(LoweringError::ValueExpected),
            Err(e) => Err(e),
        }
    }

    /// Lowers a `let`.
    pub fn lower_let_stmt(&mut self, let_statement: &LetStatement<'ctx>) -> (r: Result<
        (),
        LoweringError<'ctx>,
    >)
        requires
            old(self).ready(),
        ensures
            final(self).ready(),
            final(self).continues(old(self)),
            (final(self).frame(), r) == lower_let(
                old(self).scene(),
                old(self).frame(),
                *let_statement,
            ),
        decreases let_statement, 0int,
    {
        let ghost before = *self;
        let store_loc = self.builder.build_alloca(*let_statement.get_type());
        proof {
            lemma_step(&before, self, InstModel::Alloca(let_statement.type_));
        }
        let value = match let_statement.get_assignee() {
            Some(v) => match self.lower_assign_expression(v) {
                Ok(Some(value)) => value,
                Ok(None) => {
                    return Err(LoweringError::ValueExpected);
                },
                Err(e) => {
                    return Err(e);
                },
            },
            None => MirValue::Constant(Constant::Null),
        };
        let ghost reserved = *self;
        self.builder.build_store(store_loc, value);
        proof {
            lemma_step(&reserved, self, InstModel::Store(store_loc, value));
        }
        self.namend.insert(
            let_statement.get_name(),
            Binding { type_: *let_statement.get_type(), place: NamendPlace::Local(store_loc) },
        );
        Ok(())
    }

    /// Lowers a `return`.
    pub fn lower_ret_inst(&mut self, return_statement: &ReturnStatement<'ctx>) -> (r: Result<
        (),
        LoweringError<'ctx>,
    >)
        requires
            old(self).ready(),
        ensures
            final(self).ready(),
            final(self).continues(old(self)),
            (final(self).frame(), r) == lower_return(
                old(self).scene(),
                old(self).frame(),
                *return_statement,
            ),
        decreases return_statement, 0int,
    {
        let val = match self.lower_value(return_statement.get_value()) {
            Ok(v) => v,
            Err(e) => {
                return Err(e);
            },
        };
        let ghost before = *self;
        self.builder.build_return(return_statement.get_type(), val);
        proof {
            lemma_step(&before, self, InstModel::Return(val, return_statement.type_));
        }
        Ok(())
    }

    /// Lowers a statement.
    pub fn lower_statement(&mut self, stmt: &Statement<'ctx>) -> (r: Result<
        (),
        LoweringError<'ctx>,
    >)
        requires
            old(self).ready(),
        ensures
            final(self).ready(),
            final(self).continues(old(self)),
            (final(self).frame(), r) == lower_stmt(old(self).scene(), old(self).frame(), *stmt),
        decreases stmt, 1int,
    {
        match stmt {
            Statement::Expression(expression) => match self.lower_expression(expression) {
                Ok(_) => Ok(()),
                Err(e) => Err(e),
            },
            Statement::ReturnStatement(return_statement) => self.lower_ret_inst(return_statement),
            Statement::LetStatement(let_statement) => self.lower_let_stmt(let_statement),
        }
    }

    /// Lowers the function `func` into the module, behind the functions that
    /// are there: its parameters become the only names, its body goes into one
    /// block, `entry`, and every statement is lowered, whatever the earlier
    /// ones report. The function can call itself and the functions before it.
    pub fn lower_func(&mut self, func: &Function<'ctx>) -> (r: Result<
        (),
        Vec<LoweringError<'ctx>>,
    >)
        ensures
            final(self).ast == old(self).ast,
            final(self).errors == old(self).errors,
            final(self).floats@ == old(self).floats@,
            final(self).builder.module.name == old(self).builder.module.name,
            final(self).builder.module.funcs@.len() == old(self).builder.module.funcs@.len() + 1,
            forall|i: int|
                0 <= i < old(self).builder.module.funcs@.len()
                    ==> #[trigger] final(self).builder.module.funcs@[i] == old(
                    self,
                ).builder.module.funcs@[i],
            final(self).builder.module.func_names() == old(self).builder.module.func_names().push(
                func.name@,
            ),
            lowered_as(
                final(self).builder.module.funcs@.last(),
                Scene {
                    callees: old(self).builder.module.func_names().push(func.name@),
                    floats: old(self).floats@,
                },
                *func,
            ),
            match r {
                Ok(_) => function_errors(
                    Scene {
                        callees: old(self).builder.module.func_names().push(func.name@),
                        floats: old(self).floats@,
                    },
                    *func,
                ).len() == 0,
                Err(errors) => errors@.len() > 0 && errors@ == function_errors(
                    Scene {
                        callees: old(self).builder.module.func_names().push(func.name@),
                        floats: old(self).floats@,
                    },
                    *func,
                ),
            },
    {
        let ghost scene = Scene {
            callees: old(self).builder.module.func_names().push(func.name@),
            floats: old(self).floats@,
        };
        let mut mir_func = MirFunction::new(func.get_name());
        let params = func.get_params();
        let mut i: usize = 0;
        while i < params.len()
            invariant
                i <= params@.len(),
                *params == func.params,
                mir_func.name == func.name,
                mir_func.instructions@.len() == 0,
                mir_func.blocks@.len() == 0,
                mir_func.params@ == param_types(params@.take(i as int)),
            decreases params@.len() - i,
        {
            mir_func.add_param(params[i].get_val_type());
            i += 1;
            assert(mir_func.params@ =~= param_types(params@.take(i as int)));
        }
        assert(params@.take(i as int) == params@);
        let func_id = self.builder.module.add_func(mir_func);
        let start = self.get_last_inst(func_id);
        let entry_block = MirBlock::new("entry", start);
        let entry_block_id = self.builder.module.funcs[func_id.0].add_block(entry_block);
        self.builder.select(func_id, entry_block_id);
        self.namend = NameTable::new();
        let ghost selected = *self;
        i = 0;
        while i < params.len()
            invariant
                i <= params@.len(),
                *params == func.params,
                self.builder == selected.builder,
                self.ast == selected.ast,
                self.errors == selected.errors,
                self.floats == selected.floats,
                bind_params(self.namend@, params@, i as int) == bind_params(
                    Map::empty(),
                    params@,
                    0,
                ),
            decreases params@.len() - i,
        {
            self.namend.insert(
                params[i].get_name(),
                Binding { type_: params[i].get_val_type(), place: NamendPlace::Param(i) },
            );
            i += 1;
        }
        assert(self.builder.module.func_names() =~= scene.callees);
        assert(self.builder.function().insts() =~= Seq::empty());
        assert(self.frame() == initial_frame(*func));
        let ghost begun = *self;
        let mut errors: Vec<LoweringError<'ctx>> = Vec::new();
        let stmts = func.get_body().get_stmts();
        i = 0;
        assert(errors@ + lower_body(scene, self.frame(), stmts@, 0).1 =~= function_errors(
            scene,
            *func,
        ));
        while i < stmts.len()
            invariant
                i <= stmts@.len(),
                stmts@ == func.body.stmts@,
                self.ready(),
                self.continues(&begun),
                self.scene() == scene,
                lower_body(scene, self.frame(), stmts@, i as int).0.insts == function_insts(
                    scene,
                    *func,
                ),
                errors@ + lower_body(scene, self.frame(), stmts@, i as int).1 == function_errors(
                    scene,
                    *func,
                ),
            decreases stmts@.len() - i,
        {
            let ghost found = errors@;
            let ghost fr = self.frame();
            match self.lower_statement(&stmts[i]) {
                Ok(_) => {},
                Err(e) => {
                    errors.push(e);
                },
            }
            i += 1;
            proof {
                let rest = lower_body(scene, self.frame(), stmts@, i as int).1;
                match lower_stmt(scene, fr, stmts@[i - 1]).1 {
                    Ok(_) => {},
                    Err(e) => {
                        assert(found.push(e) + rest =~= found + (seq![e] + rest));
                    },
                }
            }
        }
        proof {
            assert(errors@ + Seq::<LoweringError<'ctx>>::empty() =~= errors@);
        }
        if errors.len() == 0 {
            Ok(())
        } else {
            Err(errors)
        }
    }

    /// Lowers every function of the tree, in order, into the module. Hands
    /// back the module where no function reported a fault, else all the faults
    /// in order.
    pub fn lower(self) -> (r: Result<MirModule<'ctx>, Vec<LoweringError<'ctx>>>)
        ensures
            ({
                let faults = self.errors@ + functions_errors(
                    self.builder.module.func_names(),
                    self.floats@,
                    self.ast.functions@,
                    0,
                );
                match r {
                    Ok(m) => faults.len() == 0 && lowered_into(
                        m,
                        self.builder.module,
                        self.floats@,
                        self.ast.functions@,
                    ),
                    Err(errors) => errors@.len() > 0 && errors@ == faults,
                }
            }),
    {
        let mut this = self;
        let ghost base = this.builder.module;
        let ghost names = base.func_names();
        let ghost floats = this.floats@;
        let ghost found = this.errors@;
        let ast = this.ast;
        let n = ast.functions.len();
        let mut i: usize = 0;
        assert(ast.functions@.take(0) =~= Seq::empty());
        assert(this.builder.module.func_names() =~= names + function_names(
            ast.functions@.take(0),
        ));
        assert(this.errors@ + functions_errors(names, floats, ast.functions@, 0) == found
            + functions_errors(names, floats, ast.functions@, 0));
        while i < n
            invariant
                i <= n,
                n == ast.functions@.len(),
                this.ast == ast,
                this.floats@ == floats,
                names == base.func_names(),
                this.builder.module.name == base.name,
                this.builder.module.funcs@.len() == base.funcs@.len() + i,
                forall|k: int|
                    0 <= k < base.funcs@.len() ==> #[trigger] this.builder.module.funcs@[k]
                        == base.funcs@[k],
                forall|k: int|
                    0 <= k < i ==> lowered_as(
                        #[trigger] this.builder.module.funcs@[base.funcs@.len() + k],
                        scene_at(names, floats, ast.functions@, k),
                        ast.functions@[k],
                    ),
                this.builder.module.func_names() == names + function_names(
                    ast.functions@.take(i as int),
                ),
                this.errors@ + functions_errors(names, floats, ast.functions@, i as int) == found
                    + functions_errors(names, floats, ast.functions@, 0),
            decreases n - i,
        {
            let ghost before = this.errors@;
            let ghost earlier = this.builder.module;
            proof {
                assert(ast.functions@.take(i + 1) =~= ast.functions@.take(i as int).push(
                    ast.functions@[i as int],
                ));
                assert(names + function_names(ast.functions@.take(i + 1)) =~= (names
                    + function_names(ast.functions@.take(i as int))).push(
                    ast.functions@[i as int].name@,
                ));
            }
            let res = this.lower_func(&ast.functions[i]);
            match res {
                Ok(_) => {
                    assert(this.errors@ + Seq::<LoweringError<'ctx>>::empty() =~= this.errors@);
                },
                Err(mut errs) => {
                    this.errors.append(&mut errs);
                },
            }
            i += 1;
            proof {
                let own = function_errors(
                    scene_at(names, floats, ast.functions@, i - 1),
                    ast.functions@[i - 1],
                );
                let rest = functions_errors(names, floats, ast.functions@, i as int);
                assert((before + own) + rest =~= before + (own + rest));
                assert forall|k: int| 0 <= k < i implies lowered_as(
                    #[trigger] this.builder.module.funcs@[base.funcs@.len() + k],
                    scene_at(names, floats, ast.functions@, k),
                    ast.functions@[k],
                ) by {
                    if k < i - 1 {
                        assert(this.builder.module.funcs@[base.funcs@.len() + k]
                            == earlier.funcs@[base.funcs@.len() + k]);
                    }
                }
            }
        }
        proof {
            assert(this.errors@ + Seq::<LoweringError<'ctx>>::empty() =~= this.errors@);
        }
        if this.errors.len() == 0 {
            Ok(this.builder.finish())
        } else {
            Err(this.errors)
        }
    }
}

/// What one instruction built by the builder means to the lowerer: the frame
/// has one instruction more, and the lowerer is ready for the next.
pub proof fn lemma_step(before: &Lowerer, after: &Lowerer, inst: InstModel)
    requires
        before.ready(),
        after.builder.emitted(&before.builder, inst),
        after.ast == before.ast,
        after.errors == before.errors,
        after.floats == before.floats,
        after.namend == before.namend,
    ensures
        after.ready(),
        after.continues(before),
        after.frame() == before.frame().emit(inst),
        before.frame().next_id().0 == before.builder.function().instructions@.len(),
{
    assert(after.builder.module.func_names() =~= before.builder.module.func_names());
}

} // verus!
