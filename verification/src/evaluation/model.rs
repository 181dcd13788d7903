//! The mathematical model of lambda terms: a ghost term algebra together
//! with the spec-level definitions of free variables, renaming and
//! substitution that the engine's contracts are stated over.

use vstd::prelude::*;

verus! {

/// The mathematical value of a [`super::Variable`]: a name together with a
/// disambiguator.
#[verifier::ext_equal]
pub struct SpecVar {
    pub name: Seq<char>,
    pub dis: nat,
}

/// The mathematical value of a [`super::Term`].
#[verifier::ext_equal]
pub enum SpecTerm {
    Var(SpecVar),
    Abs(SpecVar, Box<SpecTerm>),
    App(Box<SpecTerm>, Box<SpecTerm>),
}

/// The set of variables occurring free in a term: a variable occurrence is
/// free when no enclosing abstraction binds an equal variable.
pub open spec fn free_vars(t: SpecTerm) -> Set<SpecVar>
    decreases t,
{
    match t {
        SpecTerm::Var(v) => Set::empty().insert(v),
        SpecTerm::Abs(v, body) => free_vars(*body).remove(v),
        SpecTerm::App(l, r) => free_vars(*l).union(free_vars(*r)),
    }
}

/// Rewrites every free occurrence of `old_var` to `new_var`, never
/// descending past an abstraction that rebinds `old_var`.
pub open spec fn rename_free(old_var: SpecVar, new_var: SpecVar, t: SpecTerm) -> SpecTerm
    decreases t,
{
    match t {
        SpecTerm::Var(v) => if v == old_var {
            SpecTerm::Var(new_var)
        } else {
            SpecTerm::Var(v)
        },
        SpecTerm::Abs(v, body) => if v == old_var {
            SpecTerm::Abs(v, body)
        } else {
            SpecTerm::Abs(v, Box::new(rename_free(old_var, new_var, *body)))
        },
        SpecTerm::App(l, r) => SpecTerm::App(
            Box::new(rename_free(old_var, new_var, *l)),
            Box::new(rename_free(old_var, new_var, *r)),
        ),
    }
}

/// The number of nodes of a term.
pub open spec fn term_size(t: SpecTerm) -> nat
    decreases t,
{
    match t {
        SpecTerm::Var(_) => 1,
        SpecTerm::Abs(_, body) => 1 + term_size(*body),
        SpecTerm::App(l, r) => 1 + term_size(*l) + term_size(*r),
    }
}

/// Renaming a free variable does not change the shape of a term.
pub proof fn lemma_rename_free_size(old_var: SpecVar, new_var: SpecVar, t: SpecTerm)
    ensures
        term_size(rename_free(old_var, new_var, t)) == term_size(t),
    decreases t,
{
    match t {
        SpecTerm::Var(_) => {},
        SpecTerm::Abs(v, body) => {
            if v != old_var {
                lemma_rename_free_size(old_var, new_var, *body);
            }
        },
        SpecTerm::App(l, r) => {
            lemma_rename_free_size(old_var, new_var, *l);
            lemma_rename_free_size(old_var, new_var, *r);
        },
    }
}

/// Rewrites every free occurrence of `needle` to `replacement`, halting at
/// abstractions that rebind `needle`. This is not capture-avoiding on its
/// own; the engine alpha-renames first.
pub open spec fn subst(needle: SpecVar, replacement: SpecTerm, t: SpecTerm) -> SpecTerm
    decreases t,
{
    match t {
        SpecTerm::Var(v) => if v == needle {
            replacement
        } else {
            SpecTerm::Var(v)
        },
        SpecTerm::Abs(v, body) => if v == needle {
            SpecTerm::Abs(v, body)
        } else {
            SpecTerm::Abs(v, Box::new(subst(needle, replacement, *body)))
        },
        SpecTerm::App(l, r) => SpecTerm::App(
            Box::new(subst(needle, replacement, *l)),
            Box::new(subst(needle, replacement, *r)),
        ),
    }
}

} // verus!
