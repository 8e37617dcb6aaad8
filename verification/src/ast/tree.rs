use crate::ast::function::Function;
use vstd::prelude::*;

verus! {

/// A syntax tree: the functions of one compilation unit in source order.
#[derive(Debug)]
pub struct AST<'s> {
    pub functions: Vec<Function<'s>>,
}

impl<'s> AST<'s> {
    pub fn new() -> (r: Self)
        ensures
            r.functions@.len() == 0,
    {
        AST { functions: Vec::new() }
    }

    pub fn add_func(&mut self, f: Function<'s>)
        ensures
            final(self).functions@ == old(self).functions@.push(f),
    {
        self.functions.push(f);
    }

    pub fn get_funcs(&self) -> (r: &[Function<'s>])
        ensures
            r@ == self.functions@,
    {
        self.functions.as_slice()
    }
}

} // verus!
