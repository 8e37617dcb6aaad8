use vstd::prelude::*;

verus! {

/// What can go wrong while a function is built by hand.
#[derive(Debug)]
pub enum MirError<'s> {
    NoActiveBlock,
    BlockNotFound(usize),
    ValueMustBeTyped,
    InvalidNumericValue(&'s str),
    UndefinedVariable(&'s str),
}

} // verus!
