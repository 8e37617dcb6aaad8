use crate::sema::scope::{NamendValue, Scope, ScopeModel};
use vstd::prelude::*;

verus! {

/// The symbol that `name` resolves to in a stack of scopes: that of the
/// innermost scope that declares it. The innermost scope is the last.
pub open spec fn lookup(scopes: Seq<ScopeModel>, name: Seq<char>) -> Option<NamendValue>
    decreases scopes.len(),
{
    if scopes.len() == 0 {
        None
    } else if scopes.last().contains_key(name) {
        Some(scopes.last()[name])
    } else {
        lookup(scopes.drop_last(), name)
    }
}

/// The stack after `name` is declared in its innermost scope. An empty stack
/// has no scope to declare in and stays empty.
pub open spec fn declare(scopes: Seq<ScopeModel>, name: Seq<char>, value: NamendValue) -> Seq<
    ScopeModel,
> {
    if scopes.len() == 0 {
        scopes
    } else {
        scopes.update(scopes.len() - 1, scopes.last().insert(name, value))
    }
}

/// A name resolves if and only if some scope of the stack declares it.
pub proof fn lemma_lookup_some(scopes: Seq<ScopeModel>, name: Seq<char>)
    ensures
        lookup(scopes, name) is Some <==> exists|i: int|
            0 <= i < scopes.len() && (#[trigger] scopes[i]).contains_key(name),
    decreases scopes.len(),
{
    if scopes.len() > 0 {
        lemma_lookup_some(scopes.drop_last(), name);
        if scopes.last().contains_key(name) {
            assert(scopes[scopes.len() - 1].contains_key(name));
        } else if lookup(scopes.drop_last(), name) is Some {
            let i = choose|i: int|
                0 <= i < scopes.drop_last().len() && (#[trigger] scopes.drop_last()[i]).contains_key(
                    name,
                );
            assert(scopes[i].contains_key(name));
        } else if exists|i: int| 0 <= i < scopes.len() && (#[trigger] scopes[i]).contains_key(name) {
            let i = choose|i: int| 0 <= i < scopes.len() && (#[trigger] scopes[i]).contains_key(name);
            assert(scopes.drop_last()[i].contains_key(name));
        }
    }
}

/// A new scope declares nothing: names resolve in it as they did before it
/// was opened.
pub proof fn lemma_enter_keeps_names(scopes: Seq<ScopeModel>, name: Seq<char>)
    ensures
        lookup(scopes.push(ScopeModel::empty()), name) == lookup(scopes, name),
{
    assert(scopes.push(ScopeModel::empty()).drop_last() == scopes);
}

/// A name resolves to what it was last declared as in the innermost scope,
/// whatever outer scopes declare it as.
pub proof fn lemma_declared_resolves(scopes: Seq<ScopeModel>, name: Seq<char>, value: NamendValue)
    requires
        scopes.len() > 0,
    ensures
        lookup(declare(scopes, name, value), name) == Some(value),
{
}

/// Declaring a name leaves every other name as it was.
pub proof fn lemma_declare_keeps_others(
    scopes: Seq<ScopeModel>,
    name: Seq<char>,
    value: NamendValue,
    other: Seq<char>,
)
    requires
        other != name,
    ensures
        lookup(declare(scopes, name, value), other) == lookup(scopes, other),
{
    if scopes.len() > 0 {
        assert(declare(scopes, name, value).drop_last() == scopes.drop_last());
    }
}

/// What is declared in a scope is gone when the scope is closed: the scopes
/// around it are as they were when it was opened.
pub proof fn lemma_exit_forgets(scopes: Seq<ScopeModel>, name: Seq<char>, value: NamendValue)
    ensures
        declare(scopes.push(ScopeModel::empty()), name, value).drop_last() == scopes,
{
    assert(declare(scopes.push(ScopeModel::empty()), name, value).drop_last() =~= scopes);
}

/// A stack of lexical scopes; names resolve innermost first.
pub struct Resolver<'s> {
    scopes: Vec<Scope<'s>>,
}

impl<'s> View for Resolver<'s> {
    type V = Seq<ScopeModel>;

    closed spec fn view(&self) -> Seq<ScopeModel> {
        Seq::new(self.scopes@.len(), |i: int| self.scopes@[i]@)
    }
}

impl<'s> Resolver<'s> {
    /// A resolver with one scope, the outermost, which declares nothing.
    pub fn new() -> (r: Self)
        ensures
            r@ == seq![ScopeModel::empty()],
    {
        let mut scopes = Vec::new();
        scopes.push(Scope::new());
        let r = Self { scopes };
        assert(r@ =~= seq![ScopeModel::empty()]);
        r
    }

    /// The number of scopes on the stack.
    pub fn depth(&self) -> (r: usize)
        ensures
            r == self@.len(),
    {
        self.scopes.len()
    }

    /// Declares `name` in the innermost scope, in place of any earlier
    /// declaration of it there. Does nothing when there is no scope.
    pub fn define_var(&mut self, name: &'s str, value: NamendValue)
        ensures
            final(self)@ == declare(old(self)@, name@, value),
    {
        let n = self.scopes.len();
        if n > 0 {
            self.scopes[n - 1].add_variable(name, value);
            assert(self@ =~= declare(old(self)@, name@, value));
        }
    }

    /// The symbol that `name` resolves to: the innermost declaration of it.
    pub fn resolve_var(&self, name: &str) -> (r: Option<&NamendValue>)
        ensures
            match r {
                Some(v) => lookup(self@, name@) == Some(*v),
                None => lookup(self@, name@) is None,
            },
    {
        let mut i: usize = self.scopes.len();
        assert(self@.take(i as int) == self@);
        while i > 0
            invariant
                i <= self.scopes@.len(),
                lookup(self@, name@) == lookup(self@.take(i as int), name@),
            decreases i,
        {
            i -= 1;
            assert(self@.take(i + 1).last() == self.scopes@[i as int]@);
            assert(self@.take(i + 1).drop_last() == self@.take(i as int));
            if let Some(value) = self.scopes[i].get_variable(name) {
                return Some(value);
            }
        }
        None
    }

    /// Opens a new innermost scope.
    pub fn enter_scope(&mut self)
        ensures
            final(self)@ == old(self)@.push(ScopeModel::empty()),
    {
        self.scopes.push(Scope::new());
        assert(self@ =~= old(self)@.push(ScopeModel::empty()));
    }

    /// Closes the innermost scope.
    pub fn exit_scope(&mut self)
        requires
            old(self)@.len() > 0,
        ensures
            final(self)@ == old(self)@.drop_last(),
    {
        self.scopes.pop();
        assert(self@ =~= old(self)@.drop_last());
    }

    /// Whether any scope of the stack declares `name`.
    pub fn is_declared(&self, name: &str) -> (r: bool)
        ensures
            r == (lookup(self@, name@) is Some),
    {
        self.resolve_var(name).is_some()
    }

    /// The symbol that the innermost scope itself declares `name` as, if it
    /// does. Outer scopes are not consulted, so a name that only they declare
    /// can be declared again here.
    pub fn resolve_local(&self, name: &str) -> (r: Option<&NamendValue>)
        ensures
            match r {
                Some(v) => self@.len() > 0 && self@.last().contains_key(name@) && *v
                    == self@.last()[name@],
                None => self@.len() == 0 || !self@.last().contains_key(name@),
            },
    {
        let n = self.scopes.len();
        if n == 0 {
            None
        } else {
            self.scopes[n - 1].get_variable(name)
        }
    }
}

} // verus!
