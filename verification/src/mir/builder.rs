use crate::info::ValType;
use crate::mir::block::{MirBlock, MirBlockId};
use crate::mir::function::{MirFunction, MirFunctionId};
use crate::mir::instruction::{
    AddInst, AllocaInst, CallInst, DivInst, InstModel, Instruction, LoadInst, MirInstId, MulInst,
    ReturnInst, StoreInst, SubInst,
};
use crate::mir::module::MirModule;
use crate::mir::value::MirValue;
use vstd::prelude::*;

verus! {

/// A cursor over a module: one function and one block of it are selected, and
/// every instruction that is built goes to the end of that function and into
/// that block.
pub struct Builder<'ctx> {
    pub selected: Option<MirBlockId>,
    pub selected_fn: MirFunctionId,
    pub module: MirModule<'ctx>,
}

impl<'ctx> Builder<'ctx> {
    /// The selected function.
    pub open spec fn function(&self) -> MirFunction<'ctx> {
        self.module.funcs@[self.selected_fn.0 as int]
    }

    /// The place of the selected block among the blocks of its function.
    pub open spec fn block_index(&self) -> int {
        match self.selected {
            Some(id) => id.0 as int,
            None => 0,
        }
    }

    /// The selected block.
    pub open spec fn block(&self) -> MirBlock<'ctx> {
        self.function().blocks@[self.block_index()]
    }

    /// Whether instructions can be built: a function of the module and a block
    /// of that function are selected, and the function is well formed.
    pub open spec fn ready(&self) -> bool {
        &&& self.selected_fn.0 < self.module.funcs@.len()
        &&& self.selected is Some
        &&& self.block_index() < self.function().blocks@.len()
        &&& self.function().wf()
    }

    /// Whether `self` is `before` after one instruction that says `inst` was
    /// built: the instruction is the last of the selected function, the end
    /// of the selected block is its identity, and nothing else has changed.
    pub open spec fn emitted(&self, before: &Self, inst: InstModel) -> bool {
        &&& self.selected == before.selected
        &&& self.selected_fn == before.selected_fn
        &&& self.module.name == before.module.name
        &&& self.module.funcs@.len() == before.module.funcs@.len()
        &&& forall|i: int|
            0 <= i < self.module.funcs@.len() && i != self.selected_fn.0
                ==> #[trigger] self.module.funcs@[i] == before.module.funcs@[i]
        &&& self.function().name == before.function().name
        &&& self.function().params == before.function().params
        &&& self.function().insts() == before.function().insts().push(inst)
        &&& self.function().instructions@.len() == before.function().instructions@.len() + 1
        &&& self.function().blocks@.len() == before.function().blocks@.len()
        &&& forall|j: int|
            0 <= j < self.function().blocks@.len() && j != self.block_index()
                ==> #[trigger] self.function().blocks@[j] == before.function().blocks@[j]
        &&& self.block().name == before.block().name
        &&& self.block().range.start == before.block().range.start
        &&& self.block().range.end == before.function().instructions@.len()
        &&& self.ready()
    }

    /// A builder on the function `selected_fn` of `module`, with no block
    /// selected yet.
    pub fn new(module: MirModule<'ctx>, selected_fn: MirFunctionId) -> (r: Self)
        ensures
            r.module == module,
            r.selected_fn == selected_fn,
            r.selected is None,
    {
        Self { selected: None, selected_fn, module }
    }

    /// Selects a block of the selected function.
    pub fn set_selected(&mut self, block_id: MirBlockId)
        ensures
            final(self).selected == Some(block_id),
            final(self).selected_fn == old(self).selected_fn,
            final(self).module == old(self).module,
    {
        self.selected = Some(block_id);
    }

    /// Selects a function and a block of it.
    pub fn select(&mut self, function_id: MirFunctionId, block_id: MirBlockId)
        ensures
            final(self).selected == Some(block_id),
            final(self).selected_fn == function_id,
            final(self).module == old(self).module,
    {
        self.selected_fn = function_id;
        self.selected = Some(block_id);
    }

    /// Gives up the builder for its module.
    pub fn finish(self) -> (r: MirModule<'ctx>)
        ensures
            r == self.module,
    {
        self.module
    }

    /// Appends `inst` to the selected function and moves the end of the
    /// selected block forward to it.
    fn emit(&mut self, inst: Instruction) -> (id: MirInstId)
        requires
            old(self).ready(),
        ensures
            id.0 == old(self).function().instructions@.len(),
            final(self).emitted(old(self), inst@),
    {
        let fi = self.selected_fn.0;
        let bi = self.selected.unwrap().0;
        let func = &mut self.module.funcs[fi];
        let inst_id = func.add_inst(inst);
        func.blocks[bi].expand(inst_id);
        inst_id
    }

    /// Reserves a slot for a value of type `type_`.
    pub fn build_alloca(&mut self, type_: ValType) -> (id: MirInstId)
        requires
            old(self).ready(),
        ensures
            id.0 == old(self).function().instructions@.len(),
            final(self).emitted(old(self), InstModel::Alloca(type_)),
    {
        self.emit(Instruction::Alloca(AllocaInst::new(type_)))
    }

    /// Writes `value` into the slot that `dest` reserved.
    pub fn build_store(&mut self, dest: MirInstId, value: MirValue)
        requires
            old(self).ready(),
        ensures
            final(self).emitted(old(self), InstModel::Store(dest, value)),
    {
        self.emit(Instruction::Store(StoreInst::new(dest, value)));
    }

    /// Reads a value of type `by` from the slot that `from` reserved.
    pub fn build_load(&mut self, by: ValType, from: MirInstId) -> (id: MirInstId)
        requires
            old(self).ready(),
        ensures
            id.0 == old(self).function().instructions@.len(),
            final(self).emitted(old(self), InstModel::Load(by, from)),
    {
        self.emit(Instruction::Load(LoadInst::new(by, from)))
    }

    pub fn build_add(&mut self, lhs: MirValue, rhs: MirValue) -> (id: MirInstId)
        requires
            old(self).ready(),
        ensures
            id.0 == old(self).function().instructions@.len(),
            final(self).emitted(old(self), InstModel::Add(lhs, rhs)),
    {
        self.emit(Instruction::Add(AddInst::new(lhs, rhs)))
    }

    pub fn build_sub(&mut self, lhs: MirValue, rhs: MirValue) -> (id: MirInstId)
        requires
            old(self).ready(),
        ensures
            id.0 == old(self).function().instructions@.len(),
            final(self).emitted(old(self), InstModel::Sub(lhs, rhs)),
    {
        self.emit(Instruction::Sub(SubInst::new(lhs, rhs)))
    }

    pub fn build_mul(&mut self, lhs: MirValue, rhs: MirValue) -> (id: MirInstId)
        requires
            old(self).ready(),
        ensures
            id.0 == old(self).function().instructions@.len(),
            final(self).emitted(old(self), InstModel::Mul(lhs, rhs)),
    {
        self.emit(Instruction::Mul(MulInst::new(lhs, rhs)))
    }

    pub fn build_div(&mut self, lhs: MirValue, rhs: MirValue) -> (id: MirInstId)
        requires
            old(self).ready(),
        ensures
            id.0 == old(self).function().instructions@.len(),
            final(self).emitted(old(self), InstModel::Div(lhs, rhs)),
    {
        self.emit(Instruction::Div(DivInst::new(lhs, rhs)))
    }

    /// Returns `value`, of type `type_`, from the function.
    pub fn build_return(&mut self, type_: ValType, value: MirValue)
        requires
            old(self).ready(),
        ensures
            final(self).emitted(old(self), InstModel::Return(value, type_)),
    {
        self.emit(Instruction::Return(ReturnInst::new(value, type_)));
    }

    /// Calls the function `callee` of the module with `args`.
    pub fn build_call(&mut self, callee: MirFunctionId, args: Vec<MirValue>) -> (id: MirInstId)
        requires
            old(self).ready(),
        ensures
            id.0 == old(self).function().instructions@.len(),
            final(self).emitted(old(self), InstModel::Call(callee, args@)),
    {
        self.emit(Instruction::Call(CallInst::new(callee, args)))
    }
}

/// An instruction that is built into the last block of a function is one of
/// the instructions of that block: it lies between the start of the block and
/// the end of the instructions, where the block's instructions end.
pub proof fn lemma_last_block_holds_built(before: Builder, after: Builder, inst: InstModel)
    requires
        before.ready(),
        after.emitted(&before, inst),
        before.block_index() == before.function().blocks@.len() - 1,
    ensures
        after.function().block_end(after.block_index()) == after.function().instructions@.len(),
        after.block().range.start <= before.function().instructions@.len(),
        after.function().insts().last() == inst,
{
}

} // verus!
