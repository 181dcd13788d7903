//! The alpha-renamer: rewrites every binder of a term so that no binder's
//! variable lies in a given avoid-set, picking for each renamed binder the
//! smallest fresh disambiguator.

use vstd::prelude::*;

use crate::evaluation::free::{contains_var, free_variables, seq_var_set};
use crate::evaluation::model::{
    free_vars, lemma_rename_free_size, rename_free, term_size, SpecTerm, SpecVar,
};
use crate::evaluation::rename::rename;
use crate::evaluation::result::TermResult;
use crate::evaluation::{abs, Term, Variable};

verus! {

/// Whether disambiguator `d` is acceptable as the replacement for binder
/// `v`: positive, different from the original, not in the avoid-set, and
/// not free in the binder's body.
pub open spec fn fresh_dis_ok(v: SpecVar, avoid: Set<SpecVar>, frees: Set<SpecVar>, d: nat) -> bool {
    &&& d >= 1
    &&& d != v.dis
    &&& !avoid.contains(SpecVar { name: v.name, dis: d })
    &&& !frees.contains(SpecVar { name: v.name, dis: d })
}

/// The smallest acceptable replacement disambiguator for binder `v`.
pub open spec fn fresh_dis(v: SpecVar, avoid: Set<SpecVar>, frees: Set<SpecVar>) -> nat {
    choose|d: nat|
        fresh_dis_ok(v, avoid, frees, d) && (forall|e: nat|
            e < d ==> !fresh_dis_ok(v, avoid, frees, e))
}

/// The smallest acceptable disambiguator exists and fits a machine word.
pub open spec fn fresh_fits(v: SpecVar, avoid: Set<SpecVar>, frees: Set<SpecVar>) -> bool {
    exists|d: nat|
        d <= usize::MAX && fresh_dis_ok(v, avoid, frees, d) && (forall|e: nat|
            e < d ==> !fresh_dis_ok(v, avoid, frees, e))
}

/// A disambiguator that is acceptable and has no smaller acceptable one is
/// the smallest acceptable disambiguator.
pub proof fn lemma_fresh_dis_unique(v: SpecVar, avoid: Set<SpecVar>, frees: Set<SpecVar>, d: nat)
    requires
        fresh_dis_ok(v, avoid, frees, d),
        forall|e: nat| e < d ==> !fresh_dis_ok(v, avoid, frees, e),
    ensures
        fresh_dis(v, avoid, frees) == d,
{
    let w = fresh_dis(v, avoid, frees);
    assert(fresh_dis_ok(v, avoid, frees, w) && (forall|e: nat|
        e < w ==> !fresh_dis_ok(v, avoid, frees, e))) by {
        assert(fresh_dis_ok(v, avoid, frees, d) && (forall|e: nat|
            e < d ==> !fresh_dis_ok(v, avoid, frees, e)));
    }
    if w < d {
        assert(!fresh_dis_ok(v, avoid, frees, w));
    } else if d < w {
        assert(!fresh_dis_ok(v, avoid, frees, d));
    }
}

/// Rewrites `t` so that no binder's variable lies in `avoid`, together
/// with whether anything changed. A binder in the avoid-set is replaced by
/// the variable with the same name and the smallest fresh disambiguator,
/// the binder's body is renamed accordingly, and renaming continues in the
/// renamed body.
pub open spec fn spec_rename_bound(t: SpecTerm, avoid: Set<SpecVar>) -> (bool, SpecTerm)
    decreases term_size(t),
    via spec_rename_bound_decreases
{
    match t {
        SpecTerm::Var(_) => (false, t),
        SpecTerm::Abs(v, body) => if avoid.contains(v) {
            let nv = SpecVar { name: v.name, dis: fresh_dis(v, avoid, free_vars(*body)) };
            let inner = spec_rename_bound(rename_free(v, nv, *body), avoid);
            (true, SpecTerm::Abs(nv, Box::new(inner.1)))
        } else {
            let inner = spec_rename_bound(*body, avoid);
            (inner.0, SpecTerm::Abs(v, Box::new(inner.1)))
        },
        SpecTerm::App(l, r) => {
            let il = spec_rename_bound(*l, avoid);
            let ir = spec_rename_bound(*r, avoid);
            (il.0 || ir.0, SpecTerm::App(Box::new(il.1), Box::new(ir.1)))
        },
    }
}

#[via_fn]
proof fn spec_rename_bound_decreases(t: SpecTerm, avoid: Set<SpecVar>) {
    match t {
        SpecTerm::Abs(v, body) => {
            if avoid.contains(v) {
                let nv = SpecVar { name: v.name, dis: fresh_dis(v, avoid, free_vars(*body)) };
                lemma_rename_free_size(v, nv, *body);
            }
        },
        _ => {},
    }
}

/// Whether every fresh disambiguator the renaming needs fits a machine
/// word. Outside this predicate the executable renamer leaves the term
/// unchanged; inside it, it matches [`spec_rename_bound`] exactly.
pub open spec fn rename_fits(t: SpecTerm, avoid: Set<SpecVar>) -> bool
    decreases term_size(t),
    via rename_fits_decreases
{
    match t {
        SpecTerm::Var(_) => true,
        SpecTerm::Abs(v, body) => if avoid.contains(v) {
            let frees = free_vars(*body);
            let nv = SpecVar { name: v.name, dis: fresh_dis(v, avoid, frees) };
            fresh_fits(v, avoid, frees) && rename_fits(rename_free(v, nv, *body), avoid)
        } else {
            rename_fits(*body, avoid)
        },
        SpecTerm::App(l, r) => rename_fits(*l, avoid) && rename_fits(*r, avoid),
    }
}

#[via_fn]
proof fn rename_fits_decreases(t: SpecTerm, avoid: Set<SpecVar>) {
    match t {
        SpecTerm::Abs(v, body) => {
            if avoid.contains(v) {
                let nv = SpecVar { name: v.name, dis: fresh_dis(v, avoid, free_vars(*body)) };
                lemma_rename_free_size(v, nv, *body);
            }
        },
        _ => {},
    }
}

/// Searches for the smallest acceptable replacement disambiguator, or
/// reports that none fits a machine word.
fn new_variable(variable: &Variable, avoid: &Vec<Variable>, frees: &Vec<Variable>) -> (r: Option<
    Variable,
>)
    ensures
        ({
            let a = seq_var_set(avoid@);
            let f = seq_var_set(frees@);
            match r {
                Some(nv) => {
                    &&& fresh_fits(variable@, a, f)
                    &&& nv@ == (SpecVar { name: variable@.name, dis: fresh_dis(variable@, a, f) })
                },
                None => !fresh_fits(variable@, a, f),
            }
        }),
{
    let mut d: usize = 1;
    loop
        invariant
            1 <= d <= usize::MAX,
            forall|e: nat|
                e < d ==> !fresh_dis_ok(variable@, seq_var_set(avoid@), seq_var_set(frees@), e),
        decreases usize::MAX - d,
    {
        let ghost a = seq_var_set(avoid@);
        let ghost f = seq_var_set(frees@);
        let candidate = Variable { name: variable.name.clone(), disambiguator: d };
        if d != variable.disambiguator && !contains_var(avoid, &candidate) && !contains_var(
            frees,
            &candidate,
        ) {
            proof {
                assert(fresh_dis_ok(variable@, a, f, d as nat));
                lemma_fresh_dis_unique(variable@, a, f, d as nat);
            }
            return Some(candidate);
        }
        proof {
            assert(!fresh_dis_ok(variable@, a, f, d as nat));
        }
        if d == usize::MAX {
            proof {
                assert forall|e: nat|
                    e <= usize::MAX && fresh_dis_ok(variable@, a, f, e) && (forall|x: nat|
                        x < e ==> !fresh_dis_ok(variable@, a, f, x)) implies false by {
                    assert(!fresh_dis_ok(variable@, a, f, e));
                }
            }
            return None;
        }
        d += 1;
    }
}

pub(crate) fn rename_bound_impl(term: &Term, avoid: &Vec<Variable>) -> (r: Option<TermResult>)
    ensures
        (r is Some) == rename_fits(term@, seq_var_set(avoid@)),
        ({
            let spec = spec_rename_bound(term@, seq_var_set(avoid@));
            match r {
                Some(tr) => tr.is_modified() == spec.0 && tr.spec_term() == spec.1,
                None => true,
            }
        }),
    decreases term_size(term@),
{
    match term {
        Term::Var(_) => Some(TermResult::Original(term.clone())),
        Term::Abs(a) => {
            if contains_var(avoid, &a.variable) {
                let frees = free_variables(&a.term);
                match new_variable(&a.variable, avoid, &frees) {
                    None => None,
                    Some(nv) => {
                        let renamed = rename(&a.variable, &nv, a.term.clone());
                        proof {
                            lemma_rename_free_size(a.variable@, nv@, a.term@);
                        }
                        match rename_bound_impl(&renamed, avoid) {
                            None => None,
                            Some(tr) => Some(TermResult::Modified(abs(nv, tr.term()))),
                        }
                    },
                }
            } else {
                match rename_bound_impl(&a.term, avoid) {
                    None => None,
                    Some(TermResult::Modified(t)) => Some(
                        TermResult::Modified(abs(a.variable.clone(), t)),
                    ),
                    Some(TermResult::Original(t)) => Some(
                        TermResult::Original(abs(a.variable.clone(), t)),
                    ),
                }
            }
        },
        Term::App(a) => {
            match rename_bound_impl(&a.left, avoid) {
                None => None,
                Some(lr) => match rename_bound_impl(&a.right, avoid) {
                    None => None,
                    Some(rr) => {
                        let modified = lr.is_modified_exec() || rr.is_modified_exec();
                        let combined = crate::evaluation::app(lr.term(), rr.term());
                        if modified {
                            Some(TermResult::Modified(combined))
                        } else {
                            Some(TermResult::Original(combined))
                        }
                    },
                },
            }
        },
    }
}

/// Renames all bound variables of the given term so that none lies in
/// `avoid`, marking whether anything changed.
///
/// When some needed fresh disambiguator would not fit a machine word —
/// which requires on the order of `usize::MAX` same-named variables in
/// scope, more than any real program holds — the term is returned
/// unchanged instead.
pub fn rename_bound(term: Term, avoid: &Vec<Variable>) -> (r: TermResult)
    ensures
        rename_fits(term@, seq_var_set(avoid@)) ==> {
            let spec = spec_rename_bound(term@, seq_var_set(avoid@));
            r.is_modified() == spec.0 && r.spec_term() == spec.1
        },
        !rename_fits(term@, seq_var_set(avoid@)) ==> !r.is_modified() && r.inner() == term,
{
    match rename_bound_impl(&term, avoid) {
        Some(r) => r,
        None => TermResult::Original(term),
    }
}

} // verus!
