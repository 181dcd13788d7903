//! One small-step, normal-order (leftmost-outermost) beta-reduction that
//! produces exactly one of identity, alpha, or beta.

use vstd::prelude::*;

use crate::evaluation::free::free_variables;
use crate::evaluation::model::{free_vars, subst, SpecTerm};
use crate::evaluation::rename_bound::{
    rename_bound_impl, rename_fits, spec_rename_bound,
};
use crate::evaluation::result::TermResult;
use crate::evaluation::substitute::substitute;
use crate::evaluation::{abs, app, Step, StepKind, Term};

verus! {

/// One normal-order rewrite of a term, tried in this order at the
/// outermost position: a redex `(λv.body) arg` is alpha-renamed when a
/// binder of `body` would capture a free variable of `arg` and
/// beta-reduced otherwise; else the left of an application, then its
/// right; else under a binder; a variable is irreducible.
pub open spec fn spec_reduce(t: SpecTerm) -> (StepKind, SpecTerm)
    decreases t,
{
    match t {
        SpecTerm::App(l, r) => match *l {
            SpecTerm::Abs(v, body) => {
                let rb = spec_rename_bound(*body, free_vars(*r));
                if rb.0 {
                    (
                        StepKind::Alpha,
                        SpecTerm::App(Box::new(SpecTerm::Abs(v, Box::new(rb.1))), r),
                    )
                } else {
                    (StepKind::Beta, subst(v, *r, *body))
                }
            },
            _ => {
                let il = spec_reduce(*l);
                if il.0 != StepKind::Id {
                    (il.0, SpecTerm::App(Box::new(il.1), r))
                } else {
                    let ir = spec_reduce(*r);
                    (ir.0, SpecTerm::App(l, Box::new(ir.1)))
                }
            },
        },
        SpecTerm::Abs(v, body) => {
            let ib = spec_reduce(*body);
            (ib.0, SpecTerm::Abs(v, Box::new(ib.1)))
        },
        SpecTerm::Var(_) => (StepKind::Id, t),
    }
}

/// An identity step leaves the term unchanged.
pub proof fn lemma_reduce_id_same(t: SpecTerm)
    ensures
        spec_reduce(t).0 == StepKind::Id ==> spec_reduce(t).1 == t,
    decreases t,
{
    match t {
        SpecTerm::App(l, r) => {
            match *l {
                SpecTerm::Abs(_, _) => {},
                _ => {
                    lemma_reduce_id_same(*l);
                    lemma_reduce_id_same(*r);
                },
            }
        },
        SpecTerm::Abs(_, body) => {
            lemma_reduce_id_same(*body);
        },
        SpecTerm::Var(_) => {},
    }
}

/// Whether the fresh disambiguators that this reduction step may need all
/// fit a machine word. Outside this predicate the executable reducer
/// reports an identity step.
pub open spec fn reduce_fits(t: SpecTerm) -> bool
    decreases t,
{
    match t {
        SpecTerm::App(l, r) => match *l {
            SpecTerm::Abs(_, body) => rename_fits(*body, free_vars(*r)),
            _ => reduce_fits(*l) && (spec_reduce(*l).0 == StepKind::Id ==> reduce_fits(*r)),
        },
        SpecTerm::Abs(_, body) => reduce_fits(*body),
        SpecTerm::Var(_) => true,
    }
}

pub(crate) fn reduce_impl(term: &Term) -> (r: Option<Step>)
    ensures
        (r is Some) == reduce_fits(term@),
        match r {
            Some(s) => s.kind == spec_reduce(term@).0 && s.term@ == spec_reduce(term@).1,
            None => true,
        },
    decreases *term,
{
    match term {
        Term::Var(_) => Some(Step { kind: StepKind::Id, term: term.clone() }),
        Term::Abs(a) => {
            match reduce_impl(&a.term) {
                None => None,
                Some(inner) => Some(
                    Step { kind: inner.kind, term: abs(a.variable.clone(), inner.term) },
                ),
            }
        },
        Term::App(a) => {
            if let Term::Abs(ab) = &a.left {
                let frees = free_variables(&a.right);
                match rename_bound_impl(&ab.term, &frees) {
                    None => None,
                    Some(TermResult::Modified(renamed)) => Some(
                        Step {
                            kind: StepKind::Alpha,
                            term: app(abs(ab.variable.clone(), renamed), a.right.clone()),
                        },
                    ),
                    Some(TermResult::Original(_)) => Some(
                        Step {
                            kind: StepKind::Beta,
                            term: substitute(&ab.variable, &a.right, ab.term.clone()),
                        },
                    ),
                }
            } else {
                match reduce_impl(&a.left) {
                    None => None,
                    Some(l) => {
                        if !matches!(l.kind, StepKind::Id) {
                            Some(Step { kind: l.kind, term: app(l.term, a.right.clone()) })
                        } else {
                            match reduce_impl(&a.right) {
                                None => None,
                                Some(r) => Some(
                                    Step { kind: r.kind, term: app(a.left.clone(), r.term) },
                                ),
                            }
                        }
                    },
                }
            }
        },
    }
}

/// Performs one normal-order rewrite, producing exactly one of identity,
/// alpha, or beta.
///
/// When some fresh disambiguator an alpha-renaming would need does not fit
/// a machine word — which requires on the order of `usize::MAX` same-named
/// variables in scope — an identity step is reported instead, which no
/// real program reaches.
pub fn reduce(term: Term) -> (r: Step)
    ensures
        reduce_fits(term@) ==> r.kind == spec_reduce(term@).0 && r.term@ == spec_reduce(term@).1,
        !reduce_fits(term@) ==> r.kind == StepKind::Id && r.term == term,
{
    match reduce_impl(&term) {
        Some(s) => s,
        None => Step { kind: StepKind::Id, term },
    }
}

} // verus!
