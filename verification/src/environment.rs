//! The scope chain: a stack of scopes, innermost last, each a list of
//! name-to-value bindings. Lookup and assignment walk outward through the
//! chain; definition acts on the innermost scope only.

use vstd::prelude::*;

use crate::ast::{clone_lit, Literal, SpecLit};
use crate::error::{spec_err_from_token, LoxError, SpecErr};
use crate::token::Token;
use crate::value::{ascii_bytes, bytes_eq, clone_bytes, str_bytes};

verus! {

/// Mathematical image of one binding.
#[verifier::ext_equal]
pub struct SpecBinding {
    pub name: Seq<u8>,
    pub value: SpecLit,
}

/// One name bound to one value.
pub struct Binding {
    pub name: Vec<u8>,
    pub value: Literal,
}

impl View for Binding {
    type V = SpecBinding;

    open spec fn view(&self) -> SpecBinding {
        SpecBinding { name: self.name@, value: self.value@ }
    }
}

/// Image of one scope: its bindings in the order they were made.
pub open spec fn scope_view(s: Seq<Binding>) -> Seq<SpecBinding> {
    Seq::new(s.len(), |i: int| s[i]@)
}

/// The value bound to a name in one scope: the latest binding wins.
pub open spec fn scope_lookup(s: Seq<SpecBinding>, name: Seq<u8>) -> Option<SpecLit>
    decreases s.len(),
{
    if s.len() == 0 {
        Option::None
    } else if s.last().name == name {
        Option::Some(s.last().value)
    } else {
        scope_lookup(s.drop_last(), name)
    }
}

/// One scope with the latest binding of a name replaced. Unchanged when the
/// name is unbound there.
pub open spec fn scope_set(s: Seq<SpecBinding>, name: Seq<u8>, v: SpecLit) -> Seq<SpecBinding>
    decreases s.len(),
{
    if s.len() == 0 {
        s
    } else if s.last().name == name {
        s.drop_last().push(SpecBinding { name: name, value: v })
    } else {
        scope_set(s.drop_last(), name, v).push(s.last())
    }
}

/// A scope that does not bind a name is unchanged by assignment to it.
pub proof fn lemma_scope_set_absent(s: Seq<SpecBinding>, name: Seq<u8>, v: SpecLit)
    requires
        scope_lookup(s, name) is None,
    ensures
        scope_set(s, name, v) == s,
    decreases s.len(),
{
    if s.len() > 0 {
        lemma_scope_set_absent(s.drop_last(), name, v);
        assert(scope_set(s, name, v) =~= s);
    } else {
        assert(scope_set(s, name, v) =~= s);
    }
}

/// The value a name resolves to in a chain of scopes, innermost scope last.
pub open spec fn env_get(env: Seq<Seq<SpecBinding>>, name: Seq<u8>) -> Option<SpecLit>
    decreases env.len(),
{
    if env.len() == 0 {
        Option::None
    } else {
        match scope_lookup(env.last(), name) {
            Option::Some(v) => Option::Some(v),
            Option::None => env_get(env.drop_last(), name),
        }
    }
}

/// The chain after assigning to a name: the innermost scope that binds the
/// name is changed, and no new binding is ever created. `None` when the name
/// is bound nowhere in the chain.
pub open spec fn env_set(env: Seq<Seq<SpecBinding>>, name: Seq<u8>, v: SpecLit) -> Option<
    Seq<Seq<SpecBinding>>,
>
    decreases env.len(),
{
    if env.len() == 0 {
        Option::None
    } else if scope_lookup(env.last(), name) is Some {
        Option::Some(env.drop_last().push(scope_set(env.last(), name, v)))
    } else {
        match env_set(env.drop_last(), name, v) {
            Option::Some(e) => Option::Some(e.push(env.last())),
            Option::None => Option::None,
        }
    }
}

/// The chain after defining a name in the innermost scope: an insertion or
/// a silent overwrite, never an error.
pub open spec fn env_define(env: Seq<Seq<SpecBinding>>, name: Seq<u8>, v: SpecLit) -> Seq<
    Seq<SpecBinding>,
>
    recommends
        env.len() > 0,
{
    env.drop_last().push(env.last().push(SpecBinding { name: name, value: v }))
}

/// Image of a stack of scopes.
pub open spec fn scopes_deep(ss: Seq<Vec<Binding>>) -> Seq<Seq<SpecBinding>> {
    Seq::new(ss.len(), |i: int| scope_view(ss[i]@))
}

/// Pushing a scope commutes with taking images.
pub proof fn lemma_scopes_deep_push(ss: Seq<Vec<Binding>>, v: Vec<Binding>)
    ensures
        scopes_deep(ss.push(v)) == scopes_deep(ss).push(scope_view(v@)),
{
    assert(scopes_deep(ss.push(v)) =~= scopes_deep(ss).push(scope_view(v@)));
}

/// Dropping the last scope commutes with taking images.
pub proof fn lemma_scopes_deep_drop(ss: Seq<Vec<Binding>>)
    requires
        ss.len() > 0,
    ensures
        scopes_deep(ss.drop_last()) == scopes_deep(ss).drop_last(),
{
    assert(scopes_deep(ss.drop_last()) =~= scopes_deep(ss).drop_last());
}

/// The message of the error for a name bound nowhere in the chain.
pub open spec fn undefined_var_msg(name: Seq<u8>) -> Seq<u8> {
    ascii_bytes("Undefined variable '"@) + name + ascii_bytes("'."@)
}

/// A chain of scopes implementing lexical scoping: a name is looked up and
/// assigned in the innermost scope that binds it.
pub struct Environment {
    pub scopes: Vec<Vec<Binding>>,
}

impl View for Environment {
    type V = Seq<Seq<SpecBinding>>;

    open spec fn view(&self) -> Seq<Seq<SpecBinding>> {
        scopes_deep(self.scopes@)
    }
}

/// The error for a name bound nowhere in the chain, positioned at the
/// token that names it.
fn undefined_var_error(name: &Token) -> (e: LoxError)
    ensures
        e@ == spec_err_from_token(name@, undefined_var_msg(name@.lexeme)),
{
    proof {
        reveal_strlit("Undefined variable '");
        reveal_strlit("'.");
    }
    let mut message = str_bytes("Undefined variable '");
    let mut mid = clone_bytes(name.lexeme());
    message.append(&mut mid);
    let mut close = str_bytes("'.");
    message.append(&mut close);
    proof {
        assert(message@ =~= undefined_var_msg(name@.lexeme));
    }
    LoxError::from_token(name, message)
}

/// The value bound to a name in one scope, scanning the latest bindings
/// first.
fn scope_get(s: &Vec<Binding>, name: &Vec<u8>, j: usize) -> (r: Option<Literal>)
    requires
        j <= s@.len(),
    ensures
        match r {
            Option::Some(v) => scope_lookup(scope_view(s@).subrange(0, j as int), name@)
                == Option::Some(v@),
            Option::None => scope_lookup(scope_view(s@).subrange(0, j as int), name@) is None,
        },
    decreases j,
{
    if j == 0 {
        proof {
            assert(scope_view(s@).subrange(0, 0) =~= Seq::<SpecBinding>::empty());
        }
        Option::None
    } else {
        proof {
            let t = scope_view(s@).subrange(0, j as int);
            assert(t.last() == s@[j - 1]@);
            assert(t.drop_last() =~= scope_view(s@).subrange(0, j - 1));
        }
        if bytes_eq(&s[j - 1].name, name) {
            Option::Some(clone_lit(&s[j - 1].value))
        } else {
            scope_get(s, name, j - 1)
        }
    }
}

/// Assignment within one scope: replaces the latest binding of the name and
/// reports whether one was there.
fn scope_assign(s: &mut Vec<Binding>, name: &Vec<u8>, value: &Literal) -> (r: bool)
    ensures
        r == (scope_lookup(scope_view(old(s)@), name@) is Some),
        scope_view(final(s)@) == scope_set(scope_view(old(s)@), name@, value@),
    decreases old(s)@.len(),
{
    proof {
        if s@.len() > 0 {
            assert(scope_view(s@).last() == s@.last()@);
            assert(scope_view(s@).drop_last() =~= scope_view(s@.drop_last()));
        } else {
            assert(scope_view(s@) =~= Seq::<SpecBinding>::empty());
        }
    }
    match s.pop() {
        Option::None => false,
        Option::Some(top) => {
            if bytes_eq(&top.name, name) {
                s.push(Binding { name: clone_bytes(name), value: clone_lit(value) });
                proof {
                    assert(scope_view(s@) =~= scope_set(scope_view(old(s)@), name@, value@));
                }
                true
            } else {
                let r = scope_assign(s, name, value);
                s.push(top);
                proof {
                    assert(scope_view(s@) =~= scope_set(scope_view(old(s)@), name@, value@));
                }
                r
            }
        },
    }
}

/// Assignment across the chain: the innermost scope that binds the name is
/// changed; reports whether any scope bound it.
fn assign_scopes(scopes: &mut Vec<Vec<Binding>>, name: &Vec<u8>, value: &Literal) -> (r: bool)
    ensures
        ({
            match env_set(scopes_deep(old(scopes)@), name@, value@) {
                Option::Some(e) => r && scopes_deep(final(scopes)@) == e,
                Option::None => !r && scopes_deep(final(scopes)@) == scopes_deep(old(scopes)@),
            }
        }),
    decreases old(scopes)@.len(),
{
    let ghost before = scopes_deep(scopes@);
    proof {
        if scopes@.len() > 0 {
            lemma_scopes_deep_drop(scopes@);
            assert(before.last() == scope_view(scopes@.last()@));
        } else {
            assert(before =~= Seq::<Seq<SpecBinding>>::empty());
        }
    }
    match scopes.pop() {
        Option::None => false,
        Option::Some(mut top) => {
            if scope_assign(&mut top, name, value) {
                scopes.push(top);
                proof {
                    lemma_scopes_deep_push(old(scopes)@.drop_last(), scopes@.last());
                    assert(scopes@ =~= old(scopes)@.drop_last().push(scopes@.last()));
                    assert(scopes_deep(scopes@) =~= before.drop_last().push(
                        scope_set(before.last(), name@, value@),
                    ));
                }
                true
            } else {
                let r = assign_scopes(scopes, name, value);
                let ghost mid = scopes@;
                scopes.push(top);
                proof {
                    lemma_scope_set_absent(before.last(), name@, value@);
                    lemma_scopes_deep_push(mid, scopes@.last());
                    assert(scopes@ =~= mid.push(scopes@.last()));
                    assert(scopes_deep(scopes@) =~= scopes_deep(mid).push(
                        scope_view(scopes@.last()@),
                    ));
                    assert(scope_view(scopes@.last()@) == before.last());
                    match env_set(before, name@, value@) {
                        Option::Some(e) => {
                            assert(scopes_deep(scopes@) =~= e);
                        },
                        Option::None => {
                            assert(scopes_deep(scopes@) =~= before);
                        },
                    }
                }
                r
            }
        },
    }
}

impl Environment {
    /// A fresh chain holding one empty scope.
    pub fn new() -> (env: Self)
        ensures
            env@.len() == 1,
            env@[0] == Seq::<SpecBinding>::empty(),
    {
        let mut scopes: Vec<Vec<Binding>> = Vec::new();
        scopes.push(Vec::new());
        let env = Environment { scopes };
        proof {
            assert(env@[0] =~= Seq::<SpecBinding>::empty());
        }
        env
    }

    /// Opens a fresh, empty innermost scope.
    pub fn push_scope(&mut self)
        ensures
            final(self)@ == old(self)@.push(Seq::<SpecBinding>::empty()),
    {
        self.scopes.push(Vec::new());
        proof {
            assert(scope_view(self.scopes@.last()@) =~= Seq::<SpecBinding>::empty());
            assert(self@ =~= old(self)@.push(Seq::<SpecBinding>::empty()));
        }
    }

    /// Discards the innermost scope; its bindings never leak outward.
    pub fn pop_scope(&mut self)
        requires
            old(self)@.len() > 0,
        ensures
            final(self)@ == old(self)@.drop_last(),
    {
        let _ = self.scopes.pop();
        proof {
            assert(self@ =~= old(self)@.drop_last());
        }
    }

    /// How many scopes the chain holds.
    pub fn depth(&self) -> (n: usize)
        ensures
            n == self@.len(),
    {
        self.scopes.len()
    }

    /// Defines a name in the innermost scope: an insertion or a silent
    /// overwrite, never an error, and never a change to an outer scope.
    pub fn define(&mut self, name: Vec<u8>, value: Literal)
        requires
            old(self)@.len() > 0,
        ensures
            final(self)@ == env_define(old(self)@, name@, value@),
    {
        let n = self.scopes.len();
        let mut top = self.scopes.remove(n - 1);
        top.push(Binding { name, value });
        self.scopes.push(top);
        proof {
            assert(scope_view(self.scopes@.last()@) =~= old(self)@.last().push(
                SpecBinding { name: name@, value: value@ },
            ));
            assert(self@ =~= env_define(old(self)@, name@, value@));
        }
    }

    /// The value bound to a name, found in the innermost scope that binds
    /// it; the error for a name bound nowhere.
    pub fn get_var(&self, name: &Token) -> (r: Result<Literal, LoxError>)
        ensures
            match r {
                Result::Ok(v) => env_get(self@, name@.lexeme) == Option::Some(v@),
                Result::Err(e) => env_get(self@, name@.lexeme) is None && e@
                    == spec_err_from_token(name@, undefined_var_msg(name@.lexeme)),
            },
    {
        let r = self.get_from(self.scopes.len(), name.lexeme());
        proof {
            assert(self@.subrange(0, self@.len() as int) =~= self@);
        }
        match r {
            Option::Some(v) => Result::Ok(v),
            Option::None => Result::Err(undefined_var_error(name)),
        }
    }

    /// The value bound to a name among the outermost `k` scopes.
    fn get_from(&self, k: usize, name: &Vec<u8>) -> (r: Option<Literal>)
        requires
            k <= self@.len(),
        ensures
            match r {
                Option::Some(v) => env_get(self@.subrange(0, k as int), name@)
                    == Option::Some(v@),
                Option::None => env_get(self@.subrange(0, k as int), name@) is None,
            },
        decreases k,
    {
        if k == 0 {
            proof {
                assert(self@.subrange(0, 0) =~= Seq::<Seq<SpecBinding>>::empty());
            }
            Option::None
        } else {
            proof {
                let t = self@.subrange(0, k as int);
                assert(t.last() == self@[k - 1]);
                assert(t.drop_last() =~= self@.subrange(0, k - 1));
            }
            let scope = &self.scopes[k - 1];
            proof {
                assert(scope_view(scope@).subrange(0, scope@.len() as int) =~= self@[k - 1]);
            }
            match scope_get(scope, name, scope.len()) {
                Option::Some(v) => Option::Some(v),
                Option::None => self.get_from(k - 1, name),
            }
        }
    }

    /// Assigns to a name in the innermost scope that binds it, and yields
    /// the assigned value back; assignment never creates a binding, so a
    /// name bound nowhere in the chain is the same error as an unbound read.
    pub fn assign(&mut self, name: &Token, value: Literal) -> (r: Result<Literal, LoxError>)
        ensures
            match r {
                Result::Ok(v) => env_set(old(self)@, name@.lexeme, value@)
                    == Option::Some(final(self)@) && v@ == value@,
                Result::Err(e) => env_set(old(self)@, name@.lexeme, value@) is None && final(self)@
                    == old(self)@ && e@ == spec_err_from_token(
                    name@,
                    undefined_var_msg(name@.lexeme),
                ),
            },
    {
        let hit = assign_scopes(&mut self.scopes, name.lexeme(), &value);
        if hit {
            Result::Ok(value)
        } else {
            Result::Err(undefined_var_error(name))
        }
    }
}

} // verus!
