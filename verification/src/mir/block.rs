use crate::mir::instruction::MirInstId;
use std::ops::Range;
use vstd::prelude::*;

verus! {

/// The identity of a block: its place in the block list of its function.
#[derive(Debug, Clone, Copy, PartialEq, Eq, Hash, Structural)]
pub struct MirBlockId(pub usize);

/// A block: a name and a range over the instructions of its function.
/// `range.start` is the identity of the first instruction of the block, and
/// `range.end` the identity of the instruction that the block was last moved
/// forward to. The instructions of the block run from `range.start` up to
/// where the next block of the function starts.
#[derive(Debug)]
pub struct MirBlock<'ctx> {
    pub name: &'ctx str,
    pub range: Range<usize>,
}

impl<'ctx> MirBlock<'ctx> {
    /// A block's range never ends before it starts.
    pub open spec fn wf(&self) -> bool {
        self.range.start <= self.range.end
    }

    /// A block that starts at `start` and has not been moved forward yet.
    pub fn new(name: &'ctx str, start: MirInstId) -> (r: Self)
        ensures
            r.name == name,
            r.range.start == start.0,
            r.range.end == start.0,
            r.wf(),
    {
        Self { name, range: Range { start: start.0, end: start.0 } }
    }

    /// Moves the end of the block forward to `inst`. The end never moves back,
    /// and the start never moves.
    pub fn expand(&mut self, inst: MirInstId)
        ensures
            final(self).name == old(self).name,
            final(self).range.start == old(self).range.start,
            final(self).range.end == if old(self).range.end < inst.0 {
                inst.0
            } else {
                old(self).range.end
            },
            old(self).wf() ==> final(self).wf(),
    {
        if self.range.end < inst.0 {
            self.range.end = inst.0;
        }
    }

    pub fn name(&self) -> (r: &'ctx str)
        ensures
            r == self.name,
    {
        self.name
    }

    pub fn range(&self) -> (r: Range<usize>)
        ensures
            r == self.range,
    {
        Range { start: self.range.start, end: self.range.end }
    }
}

} // verus!
