//! Host side effects: when neither beta nor delta applies, evaluation can
//! hand the leftmost spine position — a free name applied to an argument —
//! to an external handler and resume from the term the handler returns.
//! The engine itself performs no effects.

use vstd::prelude::*;

use crate::evaluation::beta::reduce_fits;
use crate::evaluation::evaluate::{spec_step, Evaluation};
use crate::evaluation::model::{SpecTerm, SpecVar};
use crate::evaluation::options::Options;
use crate::evaluation::{var, Step, StepKind, Term, Variable};

verus! {

/// Where a side effect may fire: the head of the leftmost application
/// spine when it is a variable, paired with its argument. A bare variable
/// gets the placeholder argument `_`.
pub open spec fn spec_effect_target(t: SpecTerm) -> Option<(SpecVar, SpecTerm)>
    decreases t,
{
    match t {
        SpecTerm::Var(v) => Some((v, SpecTerm::Var(SpecVar { name: "_"@, dis: 0 }))),
        SpecTerm::App(l, r) => match *l {
            SpecTerm::Var(v) => Some((v, *r)),
            SpecTerm::App(_, _) => spec_effect_target(*l),
            _ => None,
        },
        _ => None,
    }
}

/// The whole program after the side-effect site is replaced by `rep`.
pub open spec fn spec_replace_target(t: SpecTerm, rep: SpecTerm) -> SpecTerm
    decreases t,
{
    match t {
        SpecTerm::Var(_) => rep,
        SpecTerm::App(l, r) => match *l {
            SpecTerm::Var(_) => rep,
            SpecTerm::App(_, _) => SpecTerm::App(Box::new(spec_replace_target(*l, rep)), r),
            _ => t,
        },
        _ => t,
    }
}

fn effect_target(t: &Term) -> (r: Option<(Variable, Term)>)
    ensures
        match r {
            Some(p) => spec_effect_target(t@) == Some((p.0@, p.1@)),
            None => spec_effect_target(t@) is None,
        },
    decreases *t,
{
    match t {
        Term::Var(v) => Some((v.clone(), var("_"))),
        Term::App(a) => {
            proof {
                assert(t@ == SpecTerm::App(Box::new(a.left@), Box::new(a.right@)));
            }
            match &a.left {
                Term::Var(v) => Some((v.clone(), a.right.clone())),
                Term::App(_) => effect_target(&a.left),
                _ => None,
            }
        },
        _ => None,
    }
}

fn replace_target(t: &Term, rep: Term) -> (r: Term)
    ensures
        r@ == spec_replace_target(t@, rep@),
    decreases *t,
{
    match t {
        Term::Var(_) => rep,
        Term::App(a) => {
            proof {
                assert(t@ == SpecTerm::App(Box::new(a.left@), Box::new(a.right@)));
            }
            match &a.left {
                Term::Var(_) => rep,
                Term::App(_) => crate::evaluation::app(
                    replace_target(&a.left, rep),
                    a.right.clone(),
                ),
                _ => t.clone(),
            }
        },
        _ => t.clone(),
    }
}

/// What evaluation with side effects asks of its driver next.
pub enum EffectOutcome {
    /// A beta, alpha or delta step was performed.
    Step(Step),
    /// Neither beta nor delta applies; the named atom and its argument
    /// stand at the side-effect position. The driver may hand them to a
    /// handler and resume with the term the handler returns, or stop.
    Effect { name: Variable, argument: Term },
    /// Neither a rewrite nor a side-effect position exists.
    Done,
}

/// Evaluation that pauses at side-effect positions. The engine performs
/// no effects itself: the driver loop receives the effect's name and
/// argument, performs the effect, and resumes with the handler's term.
pub struct EffectsEvaluation {
    pub inner: Evaluation,
}

impl EffectsEvaluation {
    /// Advances by one beta/delta step, or reports the side-effect
    /// position, or reports completion. Reporting does not change the
    /// state; the driver decides whether to resume.
    pub fn next(&mut self) -> (r: EffectOutcome)
        ensures
            final(self).inner.options == old(self).inner.options,
            reduce_fits(old(self).inner.term@) ==> match spec_step(
                old(self).inner.term@,
                old(self).inner.options@,
            ) {
                Some((k, t2)) => (match r {
                    EffectOutcome::Step(s) => s.kind == k && s.term@ == t2,
                    _ => false,
                }) && final(self).inner.term@ == t2,
                None => final(self).inner.term == old(self).inner.term && match spec_effect_target(
                    old(self).inner.term@,
                ) {
                    Some(p) => (match r {
                        EffectOutcome::Effect { name, argument } => name@ == p.0 && argument@
                            == p.1,
                        _ => false,
                    }),
                    None => r is Done,
                },
            },
            !reduce_fits(old(self).inner.term@) ==> final(self).inner.term == old(
                self,
            ).inner.term,
    {
        match self.inner.next() {
            Some(s) => EffectOutcome::Step(s),
            None => match effect_target(&self.inner.term) {
                Some((name, argument)) => EffectOutcome::Effect { name, argument },
                None => EffectOutcome::Done,
            },
        }
    }

    /// Resumes after a side effect: the handler's term replaces the
    /// side-effect site, and the rewritten whole program is emitted as a
    /// side-effect step.
    pub fn resume(&mut self, replacement: Term) -> (s: Step)
        ensures
            final(self).inner.options == old(self).inner.options,
            s.kind == StepKind::SideEffect,
            s.term@ == spec_replace_target(old(self).inner.term@, replacement@),
            final(self).inner.term@ == s.term@,
    {
        let t = replace_target(&self.inner.term, replacement);
        self.inner.term = t.clone();
        Step { kind: StepKind::SideEffect, term: t }
    }
}

/// Begins evaluating a term, pausing at side-effect positions.
pub fn evaluate_with_side_effects(term: Term, options: Options) -> (e: EffectsEvaluation)
    ensures
        e.inner.term == term,
        e.inner.options == options,
{
    EffectsEvaluation { inner: Evaluation { term, options } }
}

} // verus!
