use crate::info::ValType;
use crate::position::Position;
use crate::table::NameTable;
use vstd::prelude::*;

verus! {

/// A declared symbol: the type it was declared with and where.
#[derive(Debug)]
pub struct NamendValue {
    pub val_type: ValType,
    pub position: Position,
}

impl NamendValue {
    pub fn new(val_type: ValType, position: Position) -> (r: Self)
        ensures
            r.val_type == val_type,
            r.position == position,
    {
        Self { val_type, position }
    }

    pub fn get_pos(&self) -> (r: &Position)
        ensures
            *r == self.position,
    {
        &self.position
    }

    pub fn get_type(&self) -> (r: &ValType)
        ensures
            *r == self.val_type,
    {
        &self.val_type
    }
}

/// What one scope declares: a map from names to symbols.
pub type ScopeModel = Map<Seq<char>, NamendValue>;

/// One lexical scope.
pub struct Scope<'s> {
    variables: NameTable<'s, NamendValue>,
}

impl<'s> View for Scope<'s> {
    type V = ScopeModel;

    closed spec fn view(&self) -> ScopeModel {
        self.variables@
    }
}

impl<'s> Scope<'s> {
    /// A scope that declares nothing.
    pub fn new() -> (r: Self)
        ensures
            r@ == ScopeModel::empty(),
    {
        Self { variables: NameTable::new() }
    }

    /// Declares `name`, in place of any earlier declaration of it in this scope.
    pub fn add_variable(&mut self, name: &'s str, value: NamendValue)
        ensures
            final(self)@ == old(self)@.insert(name@, value),
    {
        self.variables.insert(name, value);
    }

    /// The symbol that `name` is declared as in this scope, if it is.
    pub fn get_variable(&self, name: &str) -> (r: Option<&NamendValue>)
        ensures
            match r {
                Some(v) => self@.contains_key(name@) && *v == self@[name@],
                None => !self@.contains_key(name@),
            },
    {
        self.variables.get(name)
    }

    /// Whether this scope declares `name`.
    pub fn is_declared(&self, name: &str) -> (r: bool)
        ensures
            r == self@.contains_key(name@),
    {
        self.variables.contains(name)
    }
}

} // verus!
