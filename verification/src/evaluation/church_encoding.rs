//! The delta-expander: one small-step rewrite that replaces the
//! leftmost-outermost resolvable free name by its definition term.
//! Expansion keeps a stack of currently-bound variables and never expands
//! an occurrence that an enclosing binder shadows.

use vstd::prelude::*;

use crate::evaluation::free::{contains_var, seq_var_set};
use crate::evaluation::model::{SpecTerm, SpecVar};
use crate::evaluation::options::{spec_resolve, Options, SpecDef};
use crate::evaluation::{abs, app, Step, StepKind, Term};

verus! {

/// The leftmost-outermost delta-expansion of `t` under a set of enclosing
/// binders, if any free occurrence resolves.
pub open spec fn spec_expand(t: SpecTerm, defs: Seq<SpecDef>, bound: Set<SpecVar>) -> Option<
    SpecTerm,
>
    decreases t,
{
    match t {
        SpecTerm::Var(v) => if !bound.contains(v) {
            spec_resolve(defs, v)
        } else {
            None
        },
        SpecTerm::Abs(v, body) => match spec_expand(*body, defs, bound.insert(v)) {
            Some(b2) => Some(SpecTerm::Abs(v, Box::new(b2))),
            None => None,
        },
        SpecTerm::App(l, r) => match spec_expand(*l, defs, bound) {
            Some(l2) => Some(SpecTerm::App(Box::new(l2), r)),
            None => match spec_expand(*r, defs, bound) {
                Some(r2) => Some(SpecTerm::App(l, Box::new(r2))),
                None => None,
            },
        },
    }
}

fn expand_in(term: &Term, options: &Options, bound: &mut Vec<crate::evaluation::Variable>) -> (r:
    Option<Term>)
    ensures
        final(bound)@ == old(bound)@,
        match r {
            Some(t2) => spec_expand(term@, options@, seq_var_set(old(bound)@)) == Some(t2@),
            None => spec_expand(term@, options@, seq_var_set(old(bound)@)) is None,
        },
    decreases *term,
{
    match term {
        Term::Var(v) => {
            if !contains_var(bound, v) {
                options.resolve(v)
            } else {
                None
            }
        },
        Term::Abs(a) => {
            let cloned = a.variable.clone();
            proof {
                crate::evaluation::free::lemma_seq_var_set_push(bound@, cloned);
            }
            bound.push(cloned);
            let r = expand_in(&a.term, options, bound);
            bound.pop();
            proof {
                assert(bound@ =~= old(bound)@);
            }
            match r {
                Some(b2) => Some(abs(a.variable.clone(), b2)),
                None => None,
            }
        },
        Term::App(a) => {
            match expand_in(&a.left, options, bound) {
                Some(l2) => Some(app(l2, a.right.clone())),
                None => match expand_in(&a.right, options, bound) {
                    Some(r2) => Some(app(a.left.clone(), r2)),
                    None => None,
                },
            }
        },
    }
}

/// One delta-expansion step: replaces the leftmost-outermost free name
/// that a resolver of `options` knows by its definition term, or reports
/// an identity step when no rule applies.
pub fn expand(term: Term, options: &Options) -> (r: Step)
    ensures
        match spec_expand(term@, options@, Set::empty()) {
            Some(t2) => r.kind == StepKind::Delta && r.term@ == t2,
            None => r.kind == StepKind::Id && r.term == term,
        },
{
    let mut bound: Vec<crate::evaluation::Variable> = Vec::new();
    proof {
        assert(seq_var_set(bound@) =~= Set::<SpecVar>::empty());
    }
    match expand_in(&term, options, &mut bound) {
        Some(t2) => Step { kind: StepKind::Delta, term: t2 },
        None => Step { kind: StepKind::Id, term },
    }
}

} // verus!
