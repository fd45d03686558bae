//! Variable scopes: a stack of name/value maps consulted innermost first.
//!
//! Include sites push a scope of variable bindings before their elements are
//! walked and pop it afterwards; a lookup walks the scopes from the
//! innermost outwards and takes the first binding of the name.

use vstd::prelude::*;

use crate::strings::str_eq;

verus! {

/// One scope of variable bindings, in insertion order.
pub type VariableMap = Vec<(String, String)>;

/// The first binding of `name` in one scope, scanning from the front.
pub open spec fn scope_lookup(entries: Seq<(String, String)>, name: Seq<char>) -> Option<
    Seq<char>,
>
    decreases entries,
{
    if entries.len() == 0 {
        None
    } else if entries[0].0@ == name {
        Some(entries[0].1@)
    } else {
        scope_lookup(entries.drop_first(), name)
    }
}

/// The binding of `name` across a stack of scopes, innermost (last) first.
pub open spec fn scopes_lookup(scopes: Seq<VariableMap>, name: Seq<char>) -> Option<Seq<char>>
    decreases scopes,
{
    if scopes.len() == 0 {
        None
    } else {
        match scope_lookup(scopes.last()@, name) {
            Some(v) => Some(v),
            None => scopes_lookup(scopes.drop_last(), name),
        }
    }
}

pub proof fn lemma_scope_lookup_skip(entries: Seq<(String, String)>, name: Seq<char>, j: int)
    requires
        0 <= j <= entries.len(),
        forall|i: int| 0 <= i < j ==> #[trigger] entries[i].0@ != name,
    ensures
        scope_lookup(entries, name) == scope_lookup(entries.skip(j), name),
    decreases j,
{
    if j > 0 {
        lemma_scope_lookup_skip(entries, name, j - 1);
        assert(entries.skip(j - 1).len() > 0);
        assert(entries.skip(j - 1)[0] == entries[j - 1]);
        assert(entries.skip(j - 1).drop_first() =~= entries.skip(j));
        assert(scope_lookup(entries.skip(j - 1), name) == scope_lookup(entries.skip(j), name));
    } else {
        assert(entries.skip(0) =~= entries);
    }
}

/// A stack of variable scopes.
#[derive(Debug)]
pub struct VariableScopes {
    pub scopes: Vec<VariableMap>,
}

impl VariableScopes {
    /// An empty scope stack.
    pub fn new() -> (r: VariableScopes)
        ensures
            r.scopes@ =~= Seq::<VariableMap>::empty(),
    {
        VariableScopes { scopes: Vec::new() }
    }

    /// The value bound to `name`, innermost scope first.
    #[verifier::loop_isolation(false)]
    pub fn get(&self, name: &str) -> (r: Option<&String>)
        ensures
            match r {
                Some(v) => scopes_lookup(self.scopes@, name@) == Some(v@),
                None => scopes_lookup(self.scopes@, name@) is None,
            },
    {
        let mut k: usize = self.scopes.len();
        proof {
            assert(self.scopes@.take(self.scopes@.len() as int) =~= self.scopes@);
        }
        while k > 0
            invariant
                0 <= k <= self.scopes@.len(),
                scopes_lookup(self.scopes@, name@) == scopes_lookup(
                    self.scopes@.take(k as int),
                    name@,
                ),
            decreases k,
        {
            k = k - 1;
            let scope = &self.scopes[k];
            let ghost scope_entries = scope@;
            let mut j: usize = 0;
            while j < scope.len()
                invariant
                    0 <= j <= scope_entries.len(),
                    forall|i: int| 0 <= i < j ==> #[trigger] scope_entries[i].0@ != name@,
                decreases scope_entries.len() - j,
            {
                if str_eq(scope[j].0.as_str(), name) {
                    proof {
                        lemma_scope_lookup_skip(scope_entries, name@, j as int);
                        assert(scope_entries.skip(j as int)[0] == scope_entries[j as int]);
                        assert(self.scopes@.take(k as int + 1).last() == self.scopes@[k as int]);
                    }
                    return Some(&self.scopes[k][j].1);
                }
                j = j + 1;
            }
            proof {
                lemma_scope_lookup_skip(scope_entries, name@, scope_entries.len() as int);
                assert(scope_entries.skip(scope_entries.len() as int).len() == 0);
                assert(self.scopes@.take(k as int + 1).last() == self.scopes@[k as int]);
                assert(self.scopes@.take(k as int + 1).drop_last() =~= self.scopes@.take(k as int));
            }
        }
        proof {
            assert(self.scopes@.take(0).len() == 0);
        }
        None
    }

    /// Push a copy of the given scope as the new innermost scope.
    pub fn push_scope(&mut self, scope: &VariableMap)
        ensures
            final(self).scopes@.len() == old(self).scopes@.len() + 1,
            final(self).scopes@.drop_last() == old(self).scopes@,
            final(self).scopes@.last()@ == scope@,
    {
        let mut copied: VariableMap = Vec::new();
        let mut i: usize = 0;
        while i < scope.len()
            invariant
                0 <= i <= scope@.len(),
                copied@ =~= scope@.subrange(0, i as int),
            decreases scope@.len() - i,
        {
            let key = scope[i].0.clone();
            let value = scope[i].1.clone();
            copied.push((key, value));
            proof {
                assert(copied@ =~= scope@.subrange(0, i as int + 1));
            }
            i = i + 1;
        }
        proof {
            assert(copied@ =~= scope@);
        }
        self.scopes.push(copied);
        proof {
            assert(self.scopes@.drop_last() =~= old(self).scopes@);
        }
    }

    /// Pop the innermost scope. The stack must not be empty.
    pub fn pop_scope(&mut self)
        requires
            old(self).scopes@.len() > 0,
        ensures
            final(self).scopes@ == old(self).scopes@.drop_last(),
    {
        self.scopes.pop().unwrap();
    }
}

} // verus!
