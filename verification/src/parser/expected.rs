use crate::lexer::token::TokenType;
use smallvec::SmallVec;
use vstd::prelude::*;

verus! {

/// The number of kinds of token that a set of expected tokens holds without
/// going to the heap.
pub const MAX_EXPECTED: usize = 8;

/// The kinds of token that the grammar accepts at one place: a small vector of
/// the crate smallvec, which keeps up to `MAX_EXPECTED` of them in place.
#[verifier::external_body]
#[derive(Debug)]
pub struct ExpectedSet {
    kinds: SmallVec<[TokenType; MAX_EXPECTED]>,
}

/// The kinds of token that a set of expected tokens holds, in the order in
/// which they were put there.
pub uninterp spec fn expected_kinds(set: ExpectedSet) -> Seq<TokenType>;

/// `SmallVec::new` of the crate smallvec: a vector that holds nothing.
#[verifier::external_body]
pub(crate) fn expected_new() -> (r: ExpectedSet)
    ensures
        expected_kinds(r) == Seq::<TokenType>::empty(),
{
    ExpectedSet { kinds: SmallVec::new() }
}

/// `SmallVec::push` of the crate smallvec: the item goes behind those that are
/// there, which stay as they are. It panics where it has to grow and cannot;
/// a vector of fewer than `MAX_EXPECTED` items has room for one more in place
/// and does not grow, so only such a vector is admitted.
#[verifier::external_body]
pub(crate) fn expected_push(set: &mut ExpectedSet, kind: TokenType)
    requires
        expected_kinds(*old(set)).len() < MAX_EXPECTED,
    ensures
        expected_kinds(*final(set)) == expected_kinds(*old(set)).push(kind),
{
    set.kinds.push(kind)
}

/// `SmallVec::len` of the crate smallvec: the number of items held.
#[verifier::external_body]
pub(crate) fn expected_len(set: &ExpectedSet) -> (r: usize)
    ensures
        r == expected_kinds(*set).len(),
{
    set.kinds.len()
}

/// Indexing a `SmallVec` of the crate smallvec, which indexes the slice of its
/// items: the item at a place. It panics for a place behind the last item, so
/// such a place is left out.
#[verifier::external_body]
pub(crate) fn expected_at(set: &ExpectedSet, i: usize) -> (r: TokenType)
    requires
        i < expected_kinds(*set).len(),
    ensures
        r == expected_kinds(*set)[i as int],
{
    set.kinds[i]
}

impl ExpectedSet {
    /// The kinds that the set holds, in order.
    pub fn kinds(&self) -> (r: Vec<TokenType>)
        ensures
            r@ == expected_kinds(*self),
    {
        let n = expected_len(self);
        let mut kinds: Vec<TokenType> = Vec::new();
        let mut i: usize = 0;
        while i < n
            invariant
                i <= n,
                n == expected_kinds(*self).len(),
                kinds@ == expected_kinds(*self).take(i as int),
            decreases n - i,
        {
            kinds.push(expected_at(self, i));
            i += 1;
            assert(kinds@ =~= expected_kinds(*self).take(i as int));
        }
        assert(expected_kinds(*self).take(n as int) =~= expected_kinds(*self));
        kinds
    }
}

/// Whether a set of expected tokens holds a kind.
pub fn expects(set: &ExpectedSet, kind: TokenType) -> (r: bool)
    ensures
        r == expected_kinds(*set).contains(kind),
{
    let n = expected_len(set);
    let mut i: usize = 0;
    while i < n
        invariant
            i <= n,
            n == expected_kinds(*set).len(),
            forall|j: int| 0 <= j < i ==> expected_kinds(*set)[j] != kind,
        decreases n - i,
    {
        if expected_at(set, i) == kind {
            return true;
        }
        i += 1;
    }
    false
}

/// The set of one kind.
pub fn expect1(a: TokenType) -> (r: ExpectedSet)
    ensures
        expected_kinds(r) == seq![a],
{
    let mut set = expected_new();
    expected_push(&mut set, a);
    assert(expected_kinds(set) =~= seq![a]);
    set
}

/// The set of two kinds.
pub fn expect2(a: TokenType, b: TokenType) -> (r: ExpectedSet)
    ensures
        expected_kinds(r) == seq![a, b],
{
    let mut set = expect1(a);
    expected_push(&mut set, b);
    assert(expected_kinds(set) =~= seq![a, b]);
    set
}

/// The set of three kinds.
pub fn expect3(a: TokenType, b: TokenType, c: TokenType) -> (r: ExpectedSet)
    ensures
        expected_kinds(r) == seq![a, b, c],
{
    let mut set = expect2(a, b);
    expected_push(&mut set, c);
    assert(expected_kinds(set) =~= seq![a, b, c]);
    set
}

/// The set of five kinds.
pub fn expect5(a: TokenType, b: TokenType, c: TokenType, d: TokenType, e: TokenType) -> (r: ExpectedSet)
    ensures
        expected_kinds(r) == seq![a, b, c, d, e],
{
    let mut set = expect3(a, b, c);
    expected_push(&mut set, d);
    expected_push(&mut set, e);
    assert(expected_kinds(set) =~= seq![a, b, c, d, e]);
    set
}

} // verus!
