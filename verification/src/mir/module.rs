use crate::mir::function::{MirFunction, MirFunctionId};
use crate::text::str_eq;
use vstd::prelude::*;

verus! {

/// A module: a name and its functions in the order in which they were added.
#[derive(Debug)]
pub struct MirModule<'ctx> {
    pub name: &'ctx str,
    pub funcs: Vec<MirFunction<'ctx>>,
}

/// The place of the first of `names`, at or after `from`, that is `name`.
pub open spec fn first_named(names: Seq<Seq<char>>, name: Seq<char>, from: int) -> Option<int>
    decreases names.len() - from,
{
    if 0 <= from < names.len() {
        if names[from] == name {
            Some(from)
        } else {
            first_named(names, name, from + 1)
        }
    } else {
        None
    }
}

impl<'ctx> MirModule<'ctx> {
    /// Every function of the module is well formed.
    pub open spec fn wf(&self) -> bool {
        forall|i: int| 0 <= i < self.funcs@.len() ==> (#[trigger] self.funcs@[i]).wf()
    }

    /// The names of the functions, in the order of their identities.
    pub open spec fn func_names(&self) -> Seq<Seq<char>> {
        self.funcs@.map_values(|f: MirFunction<'ctx>| f.name@)
    }

    /// The identity of the first function named `name`.
    pub open spec fn resolve(&self, name: Seq<char>) -> Option<MirFunctionId> {
        match first_named(self.func_names(), name, 0) {
            Some(i) => Some(MirFunctionId(i as usize)),
            None => None,
        }
    }

    /// A module without functions.
    pub fn new(name: &'ctx str) -> (r: Self)
        ensures
            r.name == name,
            r.funcs@.len() == 0,
            r.wf(),
    {
        Self { name, funcs: Vec::new() }
    }

    pub fn name(&self) -> (r: &'ctx str)
        ensures
            r == self.name,
    {
        self.name
    }

    /// Appends a function and hands back its identity. The functions that were
    /// there keep theirs.
    pub fn add_func(&mut self, func: MirFunction<'ctx>) -> (id: MirFunctionId)
        ensures
            id.0 == old(self).funcs@.len(),
            final(self).funcs@ == old(self).funcs@.push(func),
            final(self).name == old(self).name,
            old(self).wf() && func.wf() ==> final(self).wf(),
    {
        let id = MirFunctionId(self.funcs.len());
        self.funcs.push(func);
        id
    }

    pub fn get_funcs(&self) -> (r: &[MirFunction<'ctx>])
        ensures
            r@ == self.funcs@,
    {
        self.funcs.as_slice()
    }

    /// The function of an identity, if the module has it.
    pub fn get_func(&self, id: MirFunctionId) -> (r: Option<&MirFunction<'ctx>>)
        ensures
            match r {
                Some(f) => id.0 < self.funcs@.len() && *f == self.funcs@[id.0 as int],
                None => id.0 >= self.funcs@.len(),
            },
    {
        if id.0 < self.funcs.len() {
            Some(&self.funcs[id.0])
        } else {
            None
        }
    }

    /// The function of an identity, to be changed in place, if the module has
    /// it. The other functions stay as they are.
    pub fn get_func_mut(&mut self, id: MirFunctionId) -> (r: Option<&mut MirFunction<'ctx>>)
        ensures
            match r {
                Some(f) => {
                    &&& id.0 < old(self).funcs@.len()
                    &&& *f == old(self).funcs@[id.0 as int]
                    &&& final(self).name == old(self).name
                    &&& final(self).funcs@ == old(self).funcs@.update(id.0 as int, *final(f))
                },
                None => id.0 >= old(self).funcs@.len() && *final(self) == *old(self),
            },
    {
        if id.0 < self.funcs.len() {
            Some(&mut self.funcs[id.0])
        } else {
            None
        }
    }

    /// The identity of the first function named `name`, if there is one.
    pub fn find_func(&self, name: &str) -> (r: Option<MirFunctionId>)
        ensures
            r == self.resolve(name@),
    {
        let mut i: usize = 0;
        while i < self.funcs.len()
            invariant
                i <= self.funcs@.len(),
                first_named(self.func_names(), name@, 0) == first_named(
                    self.func_names(),
                    name@,
                    i as int,
                ),
            decreases self.funcs@.len() - i,
        {
            if str_eq(self.funcs[i].name, name) {
                return Some(MirFunctionId(i));
            }
            i += 1;
        }
        None
    }
}

} // verus!
