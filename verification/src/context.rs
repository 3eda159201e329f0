//! Scoped execution-context bindings.
//!
//! Transform collaborators look variables up by name. The context is a stack
//! of scopes: the orchestrator and the transforms push a scope around work
//! that needs ephemeral bindings and pop it afterwards, so a binding made for
//! one invocation is discarded before the next one runs.

use vstd::prelude::*;

use crate::errors::BuildError;
use crate::paths::str_eq;

verus! {

/// Which built-in transform helper a binding designates.
#[derive(Clone, Copy, Debug, PartialEq, Eq, Structural)]
pub enum Builtin {
    /// Converts a markdown file to HTML.
    Content,
    /// Renders and includes a template file.
    Include,
    /// Loads structured data from a file.
    Load,
}

/// A context binding's value: a plain string or a built-in helper.
#[derive(Debug)]
pub enum Value {
    /// A string binding, e.g. a directory name.
    Str(String),
    /// A built-in helper made available to templates.
    Helper(Builtin),
}

/// Scoped key/value bindings: a stack of scopes, the innermost last.
///
/// Lookup searches inner scopes first; within one scope the latest binding
/// wins.
#[derive(Debug)]
pub struct Context {
    scopes: Vec<Vec<(String, Value)>>,
}

impl View for Context {
    type V = Seq<Seq<(Seq<char>, Value)>>;

    closed spec fn view(&self) -> Seq<Seq<(Seq<char>, Value)>> {
        self.scopes@.map_values(
            |scope: Vec<(String, Value)>|
                scope@.map_values(|b: (String, Value)| (b.0@, b.1)),
        )
    }
}

/// The latest binding for `name` in one scope.
pub open spec fn scope_find(scope: Seq<(Seq<char>, Value)>, name: Seq<char>) -> Option<Value>
    decreases scope.len(),
{
    if scope.len() == 0 {
        None
    } else if scope.last().0 == name {
        Some(scope.last().1)
    } else {
        scope_find(scope.drop_last(), name)
    }
}

/// The visible binding for `name`: the innermost scope that binds it wins.
pub open spec fn find_binding(
    scopes: Seq<Seq<(Seq<char>, Value)>>,
    name: Seq<char>,
) -> Option<Value>
    decreases scopes.len(),
{
    if scopes.len() == 0 {
        None
    } else if scope_find(scopes.last(), name) is Some {
        scope_find(scopes.last(), name)
    } else {
        find_binding(scopes.drop_last(), name)
    }
}

/// The string bindings of one scope, in binding order.
pub open spec fn scope_strings(scope: Seq<(Seq<char>, Value)>) -> Seq<(Seq<char>, Seq<char>)>
    decreases scope.len(),
{
    if scope.len() == 0 {
        Seq::empty()
    } else {
        scope_strings(scope.drop_last()) + match scope.last().1 {
            Value::Str(s) => seq![(scope.last().0, s@)],
            Value::Helper(_) => Seq::empty(),
        }
    }
}

/// All string bindings, outermost scope first, each scope in binding order.
pub open spec fn all_strings(
    scopes: Seq<Seq<(Seq<char>, Value)>>,
) -> Seq<(Seq<char>, Seq<char>)>
    decreases scopes.len(),
{
    if scopes.len() == 0 {
        Seq::empty()
    } else {
        all_strings(scopes.drop_last()) + scope_strings(scopes.last())
    }
}

/// The helper bindings of one scope, in binding order.
pub open spec fn scope_helpers(scope: Seq<(Seq<char>, Value)>) -> Seq<(Seq<char>, Builtin)>
    decreases scope.len(),
{
    if scope.len() == 0 {
        Seq::empty()
    } else {
        scope_helpers(scope.drop_last()) + match scope.last().1 {
            Value::Str(_) => Seq::empty(),
            Value::Helper(h) => seq![(scope.last().0, h)],
        }
    }
}

/// All helper bindings, outermost scope first, each scope in binding order.
pub open spec fn all_helpers(
    scopes: Seq<Seq<(Seq<char>, Value)>>,
) -> Seq<(Seq<char>, Builtin)>
    decreases scopes.len(),
{
    if scopes.len() == 0 {
        Seq::empty()
    } else {
        all_helpers(scopes.drop_last()) + scope_helpers(scopes.last())
    }
}

/// The views of a vector of owned string pairs.
pub open spec fn string_pairs(v: Seq<(String, String)>) -> Seq<(Seq<char>, Seq<char>)> {
    v.map_values(|b: (String, String)| (b.0@, b.1@))
}

/// The views of a vector of owned helper pairs.
pub open spec fn helper_pairs(v: Seq<(String, Builtin)>) -> Seq<(Seq<char>, Builtin)> {
    v.map_values(|b: (String, Builtin)| (b.0@, b.1))
}

impl Context {
    /// A context holding one empty base scope.
    pub fn new() -> (r: Context)
        ensures
            r@ == seq![Seq::<(Seq<char>, Value)>::empty()],
    {
        let mut scopes: Vec<Vec<(String, Value)>> = Vec::new();
        scopes.push(Vec::new());
        let r = Context { scopes };
        proof {
            assert(r@ =~~= seq![Seq::<(Seq<char>, Value)>::empty()]);
        }
        r
    }

    /// Adds a fresh innermost scope.
    pub fn push_scope(&mut self)
        ensures
            final(self)@ == old(self)@.push(Seq::empty()),
    {
        self.scopes.push(Vec::new());
        proof {
            assert(self@ =~~= old(self)@.push(Seq::<(Seq<char>, Value)>::empty()));
        }
    }

    /// Discards the innermost scope and everything bound in it. The base
    /// scope stays.
    pub fn pop_scope(&mut self)
        requires
            old(self)@.len() >= 2,
        ensures
            final(self)@ == old(self)@.drop_last(),
    {
        let _ = self.scopes.pop();
        proof {
            assert(self@ =~~= old(self)@.drop_last());
        }
    }

    /// Binds `name` to `value` in the innermost scope, shadowing any earlier
    /// binding of the same name.
    pub fn set(&mut self, name: &str, value: Value)
        requires
            old(self)@.len() >= 1,
        ensures
            final(self)@ == old(self)@.update(
                old(self)@.len() - 1,
                old(self)@.last().push((name@, value)),
            ),
    {
        let owned = name.to_owned();
        let mut scope = self.scopes.pop().unwrap();
        scope.push((owned, value));
        self.scopes.push(scope);
        proof {
            assert(self@ =~~= old(self)@.update(
                old(self)@.len() - 1,
                old(self)@.last().push((name@, value)),
            ));
        }
    }

    /// Finds the visible binding for `name`, innermost scope first.
    #[verifier::loop_isolation(false)]
    pub fn lookup(&self, name: &str) -> (r: Option<&Value>)
        ensures
            r matches Some(v) ==> find_binding(self@, name@) == Some(*v),
            r is None ==> find_binding(self@, name@) is None,
    {
        let mut i: usize = self.scopes.len();
        proof {
            assert(self@.take(self@.len() as int) =~= self@);
        }
        while i > 0
            invariant
                i <= self@.len(),
                self@.len() == self.scopes@.len(),
                find_binding(self@, name@) == find_binding(self@.take(i as int), name@),
            decreases i,
        {
            i -= 1;
            proof {
                assert(self@.take(i as int + 1).drop_last() =~= self@.take(i as int));
                assert(self@.take(i as int + 1).last() == self@[i as int]);
            }
            let scope = &self.scopes[i];
            proof {
                assert(self@[i as int] =~= scope@.map_values(
                    |b: (String, Value)| (b.0@, b.1),
                ));
                assert(self@[i as int].take(self@[i as int].len() as int) =~= self@[
                    i as int
                ]);
            }
            let mut j: usize = scope.len();
            while j > 0
                invariant
                    j <= scope@.len(),
                    i < self@.len(),
                    self@.len() == self.scopes@.len(),
                    scope == &self.scopes@[i as int],
                    self@[i as int] == scope@.map_values(|b: (String, Value)| (b.0@, b.1)),
                    scope_find(self@[i as int], name@) == scope_find(
                        self@[i as int].take(j as int),
                        name@,
                    ),
                decreases j,
            {
                j -= 1;
                proof {
                    assert(self@[i as int].take(j as int + 1).drop_last() =~= self@[
                        i as int
                    ].take(j as int));
                    assert(self@[i as int].take(j as int + 1).last() == self@[i as int][
                        j as int
                    ]);
                }
                if str_eq(scope[j].0.as_str(), name) {
                    proof {
                        assert(self@[i as int][j as int] == (scope@[j as int].0@, scope@[
                            j as int
                        ].1));
                        assert(scope_find(self@[i as int].take(j as int + 1), name@)
                            == Some(self@[i as int][j as int].1));
                        assert(scope_find(self@[i as int], name@) == Some(self@[
                            i as int
                        ][j as int].1));
                        assert(self@.take(i as int + 1).len() > 0);
                        assert(find_binding(self@.take(i as int + 1), name@)
                            == scope_find(self@.take(i as int + 1).last(), name@));
                        assert(find_binding(self@, name@) == Some(self@[i as int][
                            j as int
                        ].1));
                    }
                    return Some(&scope[j].1);
                }
            }
            proof {
                assert(self@[i as int].take(0) =~= Seq::<(Seq<char>, Value)>::empty());
            }
        }
        proof {
            assert(self@.take(0) =~= Seq::<Seq<(Seq<char>, Value)>>::empty());
        }
        None
    }

    /// Finds the string bound to `name`, or reports a configuration error: a
    /// missing binding and a binding of the wrong type are both refused.
    pub fn require_string(&self, name: &str) -> (r: Result<&String, BuildError>)
        ensures
            r matches Ok(s) ==> find_binding(self@, name@) == Some(Value::Str(*s)),
            r matches Err(e) ==> (e matches BuildError::Config { path, .. }
                && path@ == name@),
            (r is Err) <==> !(exists|s: String|
                find_binding(self@, name@) == Some(Value::Str(s))),
    {
        match self.lookup(name) {
            Some(v) => match v {
                Value::Str(s) => Ok(s),
                Value::Helper(_) => Err(
                    BuildError::Config {
                        path: name.to_owned(),
                        detail: "expected a string binding".to_owned(),
                    },
                ),
            },
            None => Err(
                BuildError::Config {
                    path: name.to_owned(),
                    detail: "missing binding".to_owned(),
                },
            ),
        }
    }

    /// The string bindings visible to a renderer, outermost scope first and
    /// in binding order, so that a later binding overrides an earlier one
    /// when the list seeds a variable table.
    #[verifier::loop_isolation(false)]
    pub fn string_bindings(&self) -> (r: Vec<(String, String)>)
        ensures
            string_pairs(r@) == all_strings(self@),
    {
        let mut out: Vec<(String, String)> = Vec::new();
        let mut i: usize = 0;
        proof {
            assert(self@.take(0) =~= Seq::<Seq<(Seq<char>, Value)>>::empty());
            assert(string_pairs(out@) =~= all_strings(self@.take(0)));
        }
        while i < self.scopes.len()
            invariant
                i <= self@.len(),
                self@.len() == self.scopes@.len(),
                string_pairs(out@) == all_strings(self@.take(i as int)),
            decreases self@.len() - i,
        {
            let scope = &self.scopes[i];
            let mut j: usize = 0;
            proof {
                assert(self@[i as int] =~= scope@.map_values(
                    |b: (String, Value)| (b.0@, b.1),
                ));
                assert(self@[i as int].take(0) =~= Seq::<(Seq<char>, Value)>::empty());
                assert(string_pairs(out@) + scope_strings(self@[i as int].take(0))
                    =~= string_pairs(out@));
            }
            while j < scope.len()
                invariant
                    j <= scope@.len(),
                    i < self@.len(),
                    self@.len() == self.scopes@.len(),
                    scope == &self.scopes@[i as int],
                    self@[i as int] == scope@.map_values(|b: (String, Value)| (b.0@, b.1)),
                    string_pairs(out@) == all_strings(self@.take(i as int))
                        + scope_strings(self@[i as int].take(j as int)),
                decreases scope@.len() - j,
            {
                proof {
                    assert(self@[i as int].take(j as int + 1).drop_last() =~= self@[
                        i as int
                    ].take(j as int));
                    assert(self@[i as int].take(j as int + 1).last() == self@[i as int][
                        j as int
                    ]);
                }
                proof {
                    assert(self@[i as int][j as int] == (scope@[j as int].0@, scope@[
                        j as int
                    ].1));
                }
                match &scope[j].1 {
                    Value::Str(s) => {
                        let ghost prev = out@;
                        let pair = (scope[j].0.clone(), s.clone());
                        out.push(pair);
                        proof {
                            assert(string_pairs(out@) =~= string_pairs(prev).push(
                                (self@[i as int][j as int].0, s@),
                            ));
                        }
                    },
                    Value::Helper(_) => {},
                }
                j += 1;
            }
            proof {
                assert(self@[i as int].take(scope@.len() as int) =~= self@[i as int]);
                assert(self@.take(i as int + 1).drop_last() =~= self@.take(i as int));
                assert(self@.take(i as int + 1).last() == self@[i as int]);
            }
            i += 1;
        }
        proof {
            assert(self@.take(self@.len() as int) =~= self@);
        }
        out
    }

    /// The helper bindings visible to a renderer, outermost scope first and
    /// in binding order, so that a later binding overrides an earlier one
    /// when the list seeds a function table.
    #[verifier::loop_isolation(false)]
    pub fn helper_bindings(&self) -> (r: Vec<(String, Builtin)>)
        ensures
            helper_pairs(r@) == all_helpers(self@),
    {
        let mut out: Vec<(String, Builtin)> = Vec::new();
        let mut i: usize = 0;
        proof {
            assert(self@.take(0) =~= Seq::<Seq<(Seq<char>, Value)>>::empty());
            assert(helper_pairs(out@) =~= all_helpers(self@.take(0)));
        }
        while i < self.scopes.len()
            invariant
                i <= self@.len(),
                self@.len() == self.scopes@.len(),
                helper_pairs(out@) == all_helpers(self@.take(i as int)),
            decreases self@.len() - i,
        {
            let scope = &self.scopes[i];
            let mut j: usize = 0;
            proof {
                assert(self@[i as int] =~= scope@.map_values(
                    |b: (String, Value)| (b.0@, b.1),
                ));
                assert(self@[i as int].take(0) =~= Seq::<(Seq<char>, Value)>::empty());
                assert(helper_pairs(out@) + scope_helpers(self@[i as int].take(0))
                    =~= helper_pairs(out@));
            }
            while j < scope.len()
                invariant
                    j <= scope@.len(),
                    i < self@.len(),
                    self@.len() == self.scopes@.len(),
                    scope == &self.scopes@[i as int],
                    self@[i as int] == scope@.map_values(|b: (String, Value)| (b.0@, b.1)),
                    helper_pairs(out@) == all_helpers(self@.take(i as int))
                        + scope_helpers(self@[i as int].take(j as int)),
                decreases scope@.len() - j,
            {
                proof {
                    assert(self@[i as int].take(j as int + 1).drop_last() =~= self@[
                        i as int
                    ].take(j as int));
                    assert(self@[i as int].take(j as int + 1).last() == self@[i as int][
                        j as int
                    ]);
                    assert(self@[i as int][j as int] == (scope@[j as int].0@, scope@[
                        j as int
                    ].1));
                }
                match &scope[j].1 {
                    Value::Str(_) => {},
                    Value::Helper(h) => {
                        let ghost prev = out@;
                        let pair = (scope[j].0.clone(), *h);
                        out.push(pair);
                        proof {
                            assert(helper_pairs(out@) =~= helper_pairs(prev).push(
                                (self@[i as int][j as int].0, *h),
                            ));
                        }
                    },
                }
                j += 1;
            }
            proof {
                assert(self@[i as int].take(scope@.len() as int) =~= self@[i as int]);
                assert(self@.take(i as int + 1).drop_last() =~= self@.take(i as int));
                assert(self@.take(i as int + 1).last() == self@[i as int]);
            }
            i += 1;
        }
        proof {
            assert(self@.take(self@.len() as int) =~= self@);
        }
        out
    }
}

/// Pushing a scope and popping it afterwards returns the context to exactly
/// its previous state, whatever the invocation bound in the scope.
pub proof fn lemma_scope_discarded(
    scopes: Seq<Seq<(Seq<char>, Value)>>,
    scope: Seq<(Seq<char>, Value)>,
)
    ensures
        scopes.push(scope).drop_last() == scopes,
{
    assert(scopes.push(scope).drop_last() =~= scopes);
}

/// A binding that lived only in a pushed-and-popped scope is invisible
/// afterwards: lookups behave as if the scope had never existed.
pub proof fn lemma_popped_binding_invisible(
    scopes: Seq<Seq<(Seq<char>, Value)>>,
    scope: Seq<(Seq<char>, Value)>,
    name: Seq<char>,
)
    ensures
        find_binding(scopes.push(scope).drop_last(), name) == find_binding(scopes, name),
{
    lemma_scope_discarded(scopes, scope);
}

/// A freshly pushed scope hides nothing: until something is bound in it,
/// lookups see exactly the surrounding context — so one invocation's scope
/// never sees a sibling invocation's discarded bindings.
pub proof fn lemma_fresh_scope_transparent(
    scopes: Seq<Seq<(Seq<char>, Value)>>,
    name: Seq<char>,
)
    ensures
        find_binding(scopes.push(Seq::empty()), name) == find_binding(scopes, name),
{
    assert(scopes.push(Seq::empty()).last() =~= Seq::<(Seq<char>, Value)>::empty());
    assert(scope_find(Seq::empty(), name) is None);
    assert(scopes.push(Seq::empty()).drop_last() =~= scopes);
}

} // verus!
