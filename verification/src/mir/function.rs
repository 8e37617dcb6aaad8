use crate::info::ValType;
use crate::mir::block::{MirBlock, MirBlockId};
use crate::mir::instruction::{inst_models, InstModel, Instruction, MirInstId};
use vstd::prelude::*;
use vstd::slice::slice_subrange;

verus! {

/// The identity of a function: its place in the function list of its module.
#[derive(Debug, Clone, Copy, PartialEq, Eq, Hash, Structural)]
pub struct MirFunctionId(pub usize);

/// A function: its name, the types of its parameters, its instructions in the
/// order in which they were added, and its blocks.
#[derive(Debug)]
pub struct MirFunction<'ctx> {
    pub name: &'ctx str,
    pub instructions: Vec<Instruction>,
    pub blocks: Vec<MirBlock<'ctx>>,
    pub params: Vec<ValType>,
}

impl<'ctx> MirFunction<'ctx> {
    /// What the instructions of the function say, in order.
    pub open spec fn insts(&self) -> Seq<InstModel> {
        inst_models(self.instructions@)
    }

    /// Every block's range lies within the instructions, and the blocks are in
    /// the order of their starts.
    pub open spec fn wf(&self) -> bool {
        &&& forall|i: int|
            0 <= i < self.blocks@.len() ==> {
                &&& (#[trigger] self.blocks@[i]).wf()
                &&& self.blocks@[i].range.end <= self.instructions@.len()
            }
        &&& forall|i: int, j: int|
            0 <= i < j < self.blocks@.len() ==> (#[trigger] self.blocks@[i]).range.start <= (
            #[trigger] self.blocks@[j]).range.start
    }

    /// Where the instructions of the `blk`-th block end: where the next block
    /// starts, or behind the last instruction where there is no next block.
    pub open spec fn block_end(&self, blk: int) -> int {
        if blk + 1 < self.blocks@.len() {
            self.blocks@[blk + 1].range.start as int
        } else {
            self.instructions@.len() as int
        }
    }

    /// Whether `block` can be added: it is well formed, lies within the
    /// instructions and starts no earlier than the last block.
    pub open spec fn admits(&self, block: MirBlock<'ctx>) -> bool {
        &&& block.wf()
        &&& block.range.end <= self.instructions@.len()
        &&& self.blocks@.len() > 0 ==> self.blocks@.last().range.start <= block.range.start
    }

    /// A function without parameters, instructions or blocks.
    pub fn new(name: &'ctx str) -> (r: Self)
        ensures
            r.name == name,
            r.instructions@.len() == 0,
            r.blocks@.len() == 0,
            r.params@.len() == 0,
            r.wf(),
    {
        Self { name, instructions: Vec::new(), blocks: Vec::new(), params: Vec::new() }
    }

    pub fn name(&self) -> (r: &'ctx str)
        ensures
            r == self.name,
    {
        self.name
    }

    /// Appends an instruction and hands back its identity. No block is changed,
    /// and no instruction that was there before.
    pub fn add_inst(&mut self, inst: Instruction) -> (id: MirInstId)
        ensures
            id.0 == old(self).instructions@.len(),
            id.0 < usize::MAX,
            final(self).instructions@ == old(self).instructions@.push(inst),
            final(self).insts() == old(self).insts().push(inst@),
            final(self).name == old(self).name,
            final(self).blocks == old(self).blocks,
            final(self).params == old(self).params,
            old(self).wf() ==> final(self).wf(),
    {
        let id = MirInstId(self.instructions.len());
        self.instructions.push(inst);
        let count = self.instructions.len();
        assert(id.0 + 1 == count);
        assert(self.insts() =~= old(self).insts().push(inst@));
        id
    }

    /// Appends a block and hands back its identity.
    pub fn add_block(&mut self, block: MirBlock<'ctx>) -> (id: MirBlockId)
        ensures
            id.0 == old(self).blocks@.len(),
            final(self).blocks@ == old(self).blocks@.push(block),
            final(self).name == old(self).name,
            final(self).instructions == old(self).instructions,
            final(self).params == old(self).params,
            old(self).wf() && old(self).admits(block) ==> final(self).wf(),
    {
        let id = MirBlockId(self.blocks.len());
        self.blocks.push(block);
        id
    }

    /// Appends the type of one more parameter.
    pub fn add_param(&mut self, param: ValType)
        ensures
            final(self).params@ == old(self).params@.push(param),
            final(self).name == old(self).name,
            final(self).instructions == old(self).instructions,
            final(self).blocks == old(self).blocks,
    {
        self.params.push(param);
    }

    /// The instructions of a block: those from its start up to where the next
    /// block starts, or up to the last where it is the last block.
    pub fn get_insts(&self, blk: MirBlockId) -> (r: &[Instruction])
        requires
            self.wf(),
            blk.0 < self.blocks@.len(),
        ensures
            r@ == self.instructions@.subrange(
                self.blocks@[blk.0 as int].range.start as int,
                self.block_end(blk.0 as int),
            ),
    {
        let start = self.blocks[blk.0].range.start;
        let end = if blk.0 < self.blocks.len() - 1 {
            self.blocks[blk.0 + 1].range.start
        } else {
            self.instructions.len()
        };
        slice_subrange(self.instructions.as_slice(), start, end)
    }

    /// The identity of the block that was added last, if there is one.
    pub fn get_last_blk(&self) -> (r: Option<MirBlockId>)
        ensures
            match r {
                Some(id) => self.blocks@.len() > 0 && id.0 == self.blocks@.len() - 1,
                None => self.blocks@.len() == 0,
            },
    {
        if self.blocks.len() == 0 {
            None
        } else {
            Some(MirBlockId(self.blocks.len() - 1))
        }
    }

    /// The block of an identity, if the function has it.
    pub fn get_block(&self, id: MirBlockId) -> (r: Option<&MirBlock<'ctx>>)
        ensures
            match r {
                Some(b) => id.0 < self.blocks@.len() && *b == self.blocks@[id.0 as int],
                None => id.0 >= self.blocks@.len(),
            },
    {
        if id.0 < self.blocks.len() {
            Some(&self.blocks[id.0])
        } else {
            None
        }
    }

    /// The block of an identity, to be changed in place, if the function has
    /// it. The other blocks and the instructions stay as they are.
    pub fn get_block_mut(&mut self, id: MirBlockId) -> (r: Option<&mut MirBlock<'ctx>>)
        ensures
            match r {
                Some(b) => {
                    &&& id.0 < old(self).blocks@.len()
                    &&& *b == old(self).blocks@[id.0 as int]
                    &&& final(self).name == old(self).name
                    &&& final(self).instructions == old(self).instructions
                    &&& final(self).params == old(self).params
                    &&& final(self).blocks@ == old(self).blocks@.update(id.0 as int, *final(b))
                },
                None => id.0 >= old(self).blocks@.len() && *final(self) == *old(self),
            },
    {
        if id.0 < self.blocks.len() {
            Some(&mut self.blocks[id.0])
        } else {
            None
        }
    }

    /// The instruction of an identity, if the function has it.
    pub fn get_inst(&self, id: MirInstId) -> (r: Option<&Instruction>)
        ensures
            match r {
                Some(i) => id.0 < self.instructions@.len() && *i == self.instructions@[id.0 as int],
                None => id.0 >= self.instructions@.len(),
            },
    {
        if id.0 < self.instructions.len() {
            Some(&self.instructions[id.0])
        } else {
            None
        }
    }
}

} // verus!
