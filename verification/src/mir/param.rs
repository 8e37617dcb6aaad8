use crate::info::ValType;
use vstd::prelude::*;

verus! {

/// A parameter of a function: its name and its type.
#[derive(Debug)]
pub struct MirParam<'s> {
    pub name: &'s str,
    pub type_: ValType,
}

impl<'s> MirParam<'s> {
    pub fn new(name: &'s str, type_: ValType) -> (r: Self)
        ensures
            r.name == name,
            r.type_ == type_,
    {
        Self { name, type_ }
    }

    pub fn get_name(&self) -> (r: &'s str)
        ensures
            r == self.name,
    {
        self.name
    }

    pub fn get_type(&self) -> (r: &ValType)
        ensures
            *r == self.type_,
    {
        &self.type_
    }
}

} // verus!
