//! Lexically nested variable bindings: a stack of scopes, the innermost
//! last, each an insertion-ordered association list from name to value.

use vstd::prelude::*;

use crate::evaluator::{EvalResult, EvalResultV};

verus! {

/// One scope: bindings in insertion order, later entries shadowing earlier
/// ones with the same name.
pub type ScopeV = Seq<(Seq<char>, EvalResultV)>;

/// The value bound to `name` in one scope: the last binding wins.
pub open spec fn scope_get(sc: ScopeV, name: Seq<char>) -> Option<EvalResultV>
    decreases sc.len(),
{
    if sc.len() == 0 {
        None
    } else if sc.last().0 == name {
        Some(sc.last().1)
    } else {
        scope_get(sc.drop_last(), name)
    }
}

/// The value bound to `name`, searching the innermost scope first.
pub open spec fn env_get(env: Seq<ScopeV>, name: Seq<char>) -> Option<EvalResultV>
    decreases env.len(),
{
    if env.len() == 0 {
        None
    } else {
        match scope_get(env.last(), name) {
            Some(v) => Some(v),
            None => env_get(env.drop_last(), name),
        }
    }
}

/// The environment after `define`: the binding is written in the innermost
/// scope, shadowing anything outside it.
pub open spec fn env_define(env: Seq<ScopeV>, name: Seq<char>, v: EvalResultV) -> Seq<ScopeV>
    recommends
        env.len() >= 1,
{
    env.update(env.len() - 1, env.last().push((name, v)))
}

/// The environment after `assign`: the innermost scope holding the name is
/// rewritten; `None` when no scope holds it.
pub open spec fn env_assign(env: Seq<ScopeV>, name: Seq<char>, v: EvalResultV) -> Option<
    Seq<ScopeV>,
>
    decreases env.len(),
{
    if env.len() == 0 {
        None
    } else if scope_get(env.last(), name) is Some {
        Some(env.update(env.len() - 1, env.last().push((name, v))))
    } else {
        match env_assign(env.drop_last(), name, v) {
            Some(outer) => Some(outer.push(env.last())),
            None => None,
        }
    }
}

/// The variables and their values during one run of a program.
pub struct Environment {
    scopes: Vec<Vec<(String, EvalResult)>>,
}

impl Environment {
    /// The model: the stack of scopes, innermost last.
    pub closed spec fn view_env(&self) -> Seq<ScopeV> {
        env_of(self.scopes@)
    }

    /// There is always at least one scope.
    pub closed spec fn wf(&self) -> bool {
        self.scopes@.len() >= 1
    }

    /// A fresh environment: one empty scope.
    pub fn new() -> (r: Environment)
        ensures
            r.wf(),
            r.view_env() =~= seq![Seq::<(Seq<char>, EvalResultV)>::empty()],
    {
        let mut scopes: Vec<Vec<(String, EvalResult)>> = Vec::new();
        scopes.push(Vec::new());
        let r = Environment { scopes };
        proof {
            assert(r.view_env() =~~= seq![Seq::<(Seq<char>, EvalResultV)>::empty()]);
        }
        r
    }

    /// Opens a block scope: a new empty innermost scope.
    pub fn push_scope(&mut self)
        requires
            old(self).wf(),
        ensures
            final(self).wf(),
            final(self).view_env() == old(self).view_env().push(
                Seq::<(Seq<char>, EvalResultV)>::empty(),
            ),
    {
        self.scopes.push(Vec::new());
        proof {
            assert(final(self).view_env() =~~= old(self).view_env().push(
                Seq::<(Seq<char>, EvalResultV)>::empty(),
            ));
        }
    }

    /// Closes the innermost block scope; its bindings go out of scope.
    pub fn pop_scope(&mut self)
        requires
            old(self).wf(),
            old(self).view_env().len() >= 2,
        ensures
            final(self).wf(),
            final(self).view_env() == old(self).view_env().drop_last(),
    {
        let _ = self.scopes.pop();
        proof {
            assert(final(self).view_env() =~~= old(self).view_env().drop_last());
        }
    }

    /// Writes the binding in the innermost scope, shadowing outer scopes
    /// and replacing a previous binding of the same name there; hands the
    /// value back.
    pub fn define(&mut self, name: String, value: EvalResult) -> (r: EvalResult)
        requires
            old(self).wf(),
        ensures
            final(self).wf(),
            final(self).view_env() =~= env_define(old(self).view_env(), name@, value@),
            r@ == value@,
    {
        let rv = value.clone();
        let mut top = match self.scopes.pop() {
            Some(t) => t,
            None => Vec::new(),
        };
        top.push((name, value));
        self.scopes.push(top);
        proof {
            assert(final(self).view_env() =~~= env_define(old(self).view_env(), name@, rv@));
        }
        rv
    }

    /// The bound value, searching the innermost scope first.
    pub fn get_var(&self, s: &str) -> (r: Option<EvalResult>)
        requires
            self.wf(),
        ensures
            match r {
                Some(v) => env_get(self.view_env(), s@) == Some(v@),
                None => env_get(self.view_env(), s@) is None,
            },
    {
        proof {
            assert(self.view_env().subrange(0, self.view_env().len() as int) =~= self.view_env());
        }
        let mut i = self.scopes.len();
        while i > 0
            invariant
                i <= self.scopes@.len(),
                env_get(self.view_env(), s@) == env_get(
                    self.view_env().subrange(0, i as int),
                    s@,
                ),
            decreases i,
        {
            i = i - 1;
            proof {
                assert(self.view_env().subrange(0, i + 1).last() == self.view_env()[i as int]);
                assert(self.view_env().subrange(0, i + 1).drop_last() =~= self.view_env()
                    .subrange(0, i as int));
            }
            match Self::scope_lookup(&self.scopes[i], s) {
                Some(v) => {
                    return Some(v);
                },
                None => {},
            }
        }
        proof {
            assert(self.view_env().subrange(0, 0) =~= Seq::<ScopeV>::empty());
        }
        None
    }

    /// The value bound to `s` in one scope, the last binding winning.
    fn scope_lookup(sc: &Vec<(String, EvalResult)>, s: &str) -> (r: Option<EvalResult>)
        ensures
            match r {
                Some(v) => scope_get(sc@.map_values(|b: (String, EvalResult)| (b.0@, b.1@)), s@)
                    == Some(v@),
                None => scope_get(sc@.map_values(|b: (String, EvalResult)| (b.0@, b.1@)), s@)
                    is None,
            },
    {
        let ghost m = sc@.map_values(|b: (String, EvalResult)| (b.0@, b.1@));
        proof {
            assert(m.subrange(0, m.len() as int) =~= m);
        }
        let mut i = sc.len();
        while i > 0
            invariant
                i <= sc@.len(),
                m == sc@.map_values(|b: (String, EvalResult)| (b.0@, b.1@)),
                scope_get(m, s@) == scope_get(m.subrange(0, i as int), s@),
            decreases i,
        {
            i = i - 1;
            proof {
                assert(m.subrange(0, i + 1).last() == m[i as int]);
                assert(m.subrange(0, i + 1).drop_last() =~= m.subrange(0, i as int));
            }
            if crate::text::str_eq(sc[i].0.as_str(), s) {
                return Some(sc[i].1.clone());
            }
        }
        proof {
            assert(m.subrange(0, 0) =~= Seq::<(Seq<char>, EvalResultV)>::empty());
        }
        None
    }

    /// Rewrites the binding in the innermost scope that holds the name;
    /// fails when no scope holds it.
    pub fn assign(&mut self, name: &str, er: EvalResult) -> (r: bool)
        requires
            old(self).wf(),
        ensures
            final(self).wf(),
            r <==> env_assign(old(self).view_env(), name@, er@) is Some,
            r ==> Some(final(self).view_env()) == env_assign(old(self).view_env(), name@, er@),
            !r ==> final(self).view_env() == old(self).view_env(),
    {
        let nm = crate::text::string_from_chars(&crate::text::chars_of_str(name));
        let r = Self::assign_in(&mut self.scopes, nm, er);
        proof {
            if old(self).view_env().len() == 0 {
            }
        }
        r
    }

    /// `assign` on the stack of scopes, innermost last, by recursion from
    /// the innermost scope outwards.
    fn assign_in(scopes: &mut Vec<Vec<(String, EvalResult)>>, name: String, er: EvalResult) -> (r:
        bool)
        ensures
            r <==> env_assign(env_of(old(scopes)@), name@, er@) is Some,
            r ==> Some(env_of(final(scopes)@)) == env_assign(env_of(old(scopes)@), name@, er@),
            !r ==> env_of(final(scopes)@) == env_of(old(scopes)@),
            final(scopes)@.len() == old(scopes)@.len(),
        decreases old(scopes)@.len(),
    {
        let ghost env0 = env_of(scopes@);
        match scopes.pop() {
            None => {
                proof {
                    assert(env0 =~= Seq::<ScopeV>::empty());
                }
                false
            },
            Some(mut top) => {
                proof {
                    assert(env_of(old(scopes)@).drop_last() =~~= env_of(scopes@));
                    assert(env_of(old(scopes)@).last() =~~= top@.map_values(
                        |b: (String, EvalResult)| (b.0@, b.1@),
                    ));
                }
                let found = match Self::scope_lookup(&top, name.as_str()) {
                    Some(_) => true,
                    None => false,
                };
                if found {
                    top.push((name, er));
                    scopes.push(top);
                    proof {
                        assert(env_of(final(scopes)@) =~~= env0.update(
                            env0.len() - 1,
                            env0.last().push((name@, er@)),
                        ));
                    }
                    true
                } else {
                    let ghost topv = top@.map_values(|b: (String, EvalResult)| (b.0@, b.1@));
                    let ghost after_pop = env_of(scopes@);
                    let r = Self::assign_in(scopes, name, er);
                    let ghost mid = env_of(scopes@);
                    scopes.push(top);
                    proof {
                        assert(env_of(final(scopes)@) =~~= mid.push(topv));
                        assert(env0.drop_last() == after_pop);
                        assert(env0.last() == topv);
                        assert(after_pop.push(topv) =~~= env0);
                        if r {
                            assert(mid == env_assign(after_pop, name@, er@)->Some_0);
                        } else {
                            assert(mid == after_pop);
                        }
                    }
                    r
                }
            },
        }
    }
}

/// The model of a raw stack of scopes.
pub open spec fn env_of(scopes: Seq<Vec<(String, EvalResult)>>) -> Seq<ScopeV> {
    scopes.map_values(
        |sc: Vec<(String, EvalResult)>| sc@.map_values(|b: (String, EvalResult)| (b.0@, b.1@)),
    )
}

/// A successful `assign` keeps the number of scopes.
pub proof fn lemma_env_assign_len(env: Seq<ScopeV>, name: Seq<char>, v: EvalResultV)
    ensures
        env_assign(env, name, v) matches Some(e2) ==> e2.len() == env.len(),
    decreases env.len(),
{
    if env.len() > 0 {
        lemma_env_assign_len(env.drop_last(), name, v);
    }
}

/// After `define(x, v)`, `get(x)` returns `v` in the same scope.
pub proof fn lemma_define_then_get(env: Seq<ScopeV>, name: Seq<char>, v: EvalResultV)
    requires
        env.len() >= 1,
    ensures
        env_get(env_define(env, name, v), name) == Some(v),
{
    let e2 = env_define(env, name, v);
    assert(e2.last() == env.last().push((name, v)));
    assert(scope_get(e2.last(), name) == Some(v));
}

/// After a successful `assign(x, v2)`, `get(x)` returns `v2`.
pub proof fn lemma_assign_then_get(env: Seq<ScopeV>, name: Seq<char>, v: EvalResultV)
    requires
        env_assign(env, name, v) is Some,
    ensures
        env_get(env_assign(env, name, v)->Some_0, name) == Some(v),
    decreases env.len(),
{
    let e2 = env_assign(env, name, v)->Some_0;
    if scope_get(env.last(), name) is Some {
        assert(e2.last() == env.last().push((name, v)));
        assert(scope_get(e2.last(), name) == Some(v));
    } else {
        lemma_assign_then_get(env.drop_last(), name, v);
        let inner = env_assign(env.drop_last(), name, v)->Some_0;
        assert(e2 == inner.push(env.last()));
        assert(e2.last() == env.last());
        assert(e2.drop_last() =~= inner);
    }
}

/// An assignment made inside a block scope that does not shadow the name
/// writes the enclosing scopes: dropping the innermost scope afterwards
/// still shows the new value.
pub proof fn lemma_assign_survives_block(env: Seq<ScopeV>, name: Seq<char>, v: EvalResultV)
    requires
        env.len() >= 2,
        scope_get(env.last(), name) is None,
        env_assign(env, name, v) is Some,
    ensures
        env_assign(env, name, v)->Some_0.last() == env.last(),
        env_get(env_assign(env, name, v)->Some_0.drop_last(), name) == Some(v),
{
    let e2 = env_assign(env, name, v)->Some_0;
    let inner = env_assign(env.drop_last(), name, v)->Some_0;
    assert(e2 == inner.push(env.last()));
    assert(e2.drop_last() =~= inner);
    lemma_assign_then_get(env.drop_last(), name, v);
}

} // verus!
